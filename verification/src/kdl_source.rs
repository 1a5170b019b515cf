//! KDL documents read through the `kdl` crate, handed on as plain values.
use vstd::prelude::*;

verus! {

/// One entry of a KDL node: a positional argument or a `name=value` property,
/// with its value as the `kdl` crate's `as_string`, `as_i64` and `as_bool` read it.
#[derive(Clone, Debug, PartialEq, Eq)]
pub struct KdlEntry {
    pub is_property: bool,
    pub text: Option<String>,
    pub integer: Option<i64>,
    pub boolean: Option<bool>,
}

/// A KDL node: its name, its entries in order, and its children block if it has one.
#[derive(Debug)]
pub struct KdlNode {
    pub name: String,
    pub entries: Vec<KdlEntry>,
    pub children: Option<Vec<KdlNode>>,
}

/// The nodes of the KDL document `source`, or `None` when it is not valid KDL,
/// as the `kdl` crate parses it.
pub uninterp spec fn kdl_document(source: Seq<char>) -> Option<Seq<KdlNode>>;

/// Parses `source` with `kdl::KdlDocument::from_str` and copies the nodes, their
/// names (`KdlIdentifier::value`), entries and children into plain values; a
/// children block is copied by parsing its text (`KdlDocument`'s `Display`)
/// again. The contract claims only that the result is a fixed function of
/// `source`, named `kdl_document`: what the KDL grammar accepts is not stated.
#[verifier::external_body]
pub fn parse_kdl_document(source: &str) -> (nodes: Option<Vec<KdlNode>>)
    ensures
        match nodes {
            Some(v) => kdl_document(source@) == Some(v@),
            None => kdl_document(source@) is None,
        },
{
    let document: kdl::KdlDocument = source.parse().ok()?;
    Some(document.nodes().iter().map(|node| KdlNode {
        name: node.name().value().to_string(),
        entries: node.entries().iter().map(|entry| KdlEntry {
            is_property: entry.name().is_some(),
            text: entry.value().as_string().map(str::to_string),
            integer: entry.value().as_i64(),
            boolean: entry.value().as_bool(),
        }).collect(),
        children: node.children().map(|block| parse_kdl_document(&block.to_string()).unwrap_or_default()),
    }).collect())
}

} // verus!

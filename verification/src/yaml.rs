//! YAML documents, as the `marked-yaml` crate reads them.
//!
//! Nothing in this module is proved: the two functions at its end state what
//! the crate's documentation says of its loader and of its nodes.

use vstd::prelude::*;
use marked_yaml::{LoadError, Node};

verus! {

/// A node of a YAML document of the `marked-yaml` crate.
#[verifier::external_type_specification]
#[verifier::external_body]
pub struct ExNode(marked_yaml::Node);

/// The reason why the `marked-yaml` crate cannot load a text.
#[verifier::external_type_specification]
#[verifier::external_body]
pub struct ExLoadError(marked_yaml::LoadError);

/// A YAML document as plain values.
#[derive(Debug, PartialEq, Eq)]
pub enum Yaml {
    /// A scalar: its text, and the line on which it starts, counted from 1,
    /// where that is known.
    Scalar { text: String, line: Option<usize> },
    /// A mapping: its keys with their values, in the order in which the
    /// loader keeps them.
    Mapping(Vec<(String, Yaml)>),
    /// A sequence: its items.
    Sequence(Vec<Yaml>),
}

/// What `marked_yaml::parse_yaml` makes of a text.
pub uninterp spec fn loaded(input: Seq<char>) -> Result<Node, LoadError>;

/// What a node of the `marked-yaml` crate holds, as plain values.
pub uninterp spec fn document_of(node: Node) -> Yaml;

/// Calls `marked_yaml::parse_yaml`, which reads a text as a YAML document
/// with a mapping at its top. The result depends on the text alone.
#[verifier::external_body]
pub(crate) fn load(input: &str) -> (result: Result<Node, LoadError>)
    ensures
        result == loaded(input@),
{
    marked_yaml::parse_yaml(0, input)
}

/// Copies out what a node holds: of a scalar what `as_str` gives and the
/// line of the start of its `span`, of a mapping and of a sequence what their
/// `iter` gives, in that order.
#[verifier::external_body]
pub(crate) fn document(node: &Node) -> (yaml: Yaml)
    ensures
        yaml == document_of(*node),
{
    match node {
        Node::Scalar(scalar) => Yaml::Scalar {
            text: scalar.as_str().to_string(),
            line: scalar.span().start().map(|mark| mark.line()),
        },
        Node::Mapping(mapping) => Yaml::Mapping(
            mapping.iter().map(|(key, value)| (key.as_str().to_string(), document(value))).collect(),
        ),
        Node::Sequence(sequence) => Yaml::Sequence(sequence.iter().map(document).collect()),
    }
}

} // verus!

use vstd::prelude::*;

verus! {

/// The kind of a DOM node.
#[derive(Debug, Clone, Copy, PartialEq, Eq, Structural)]
pub enum NodeType {
    Element,
    Text,
    Comment,
}

} // verus!

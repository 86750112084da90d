use vstd::prelude::*;

verus! {

/// What the layout and conversion code needs to know of an operator of an
/// interaction language.
pub trait InteractionOperatorRepresentation {
    fn arity(&self) -> usize;

    /// Whether `op(i1, op(i2, i3))` may be written `op(i1, i2, i3)`.
    fn is_associative(&self) -> bool;
}

/// The vocabulary of an interaction language: its leaf patterns and its operators.
pub trait CommonIoInteractionInterface: Sized {
    type InteractionLeafPatternType: std::fmt::Debug + Clone;

    type InteractionOperatorType: std::fmt::Debug + InteractionOperatorRepresentation + Clone + PartialEq;
}

/// An interaction term: a leaf pattern, or an operator over an ordered list of sub-terms.
#[derive(Debug)]
pub enum InteractionInternalRepresentation<CioII: CommonIoInteractionInterface> {
    LeafPattern(CioII::InteractionLeafPatternType),
    Operator(CioII::InteractionOperatorType, Vec<InteractionInternalRepresentation<CioII>>),
}

} // verus!

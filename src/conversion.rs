use vstd::prelude::*;

use crate::internal_representation::{
    CommonIoInteractionInterface, InteractionInternalRepresentation, InteractionOperatorRepresentation,
};

verus! {

/// How the terms of an interaction language are taken apart, for conversion into
/// the internal representation.
pub trait FromInteractionTermToInternalRepresentation<CioII: CommonIoInteractionInterface>: Sized + Clone {
    /// The operator at the root of the term, if there is one.
    fn get_operator_at_root(&self) -> Option<CioII::InteractionOperatorType>;

    /// The sub-terms of the term; none for an operator of arity zero.
    fn get_subinteractions(&self) -> Vec<&Self>;

    /// The leaf pattern at the root of the term, if it is one.
    fn identify_pattern_at_interaction_leaf(&self) -> Option<CioII::InteractionLeafPatternType>;

    /// Merges two consecutive patterns under the given operator, where the language can.
    fn merge_patterns_under_operator_if_possible(
        parent_op: &CioII::InteractionOperatorType,
        first_pattern: &CioII::InteractionLeafPatternType,
        second_pattern: &CioII::InteractionLeafPatternType,
    ) -> Option<CioII::InteractionLeafPatternType>;
}

/// How terms of an interaction language are built back from the internal representation.
pub trait FromInternalRepresentationToInteractionTerm<CioII: CommonIoInteractionInterface>: Sized + Clone {
    /// The empty interaction of the language.
    fn get_empty_interaction() -> Self;

    /// The operator applied to the sub-terms, or `None` where their number does not
    /// match the operator's arity.
    fn instantiate_interaction_under_operator(
        operator: &CioII::InteractionOperatorType,
        sub_ints: &mut Vec<Self>,
    ) -> Option<Self>;

    /// The term that a leaf pattern stands for.
    fn transform_pattern_to_term(pattern: &CioII::InteractionLeafPatternType) -> Self;
}

/// Folds the consecutive leaf patterns of a list of operands: with `merge_patterns`
/// each pattern is merged into the one before it where the language allows; without
/// it the list comes back as it was.
pub fn merge_consecutive_patterns<CioII: CommonIoInteractionInterface, X: FromInteractionTermToInternalRepresentation<CioII>>(
    op_at_root: &CioII::InteractionOperatorType,
    operands_reprs: Vec<InteractionInternalRepresentation<CioII>>,
    merge_patterns: bool,
) -> (r: Vec<InteractionInternalRepresentation<CioII>>)
    ensures
        r@.len() <= operands_reprs@.len(),
        !merge_patterns ==> r@ == operands_reprs@,
{
    let ghost input = operands_reprs@;
    let n = operands_reprs.len();
    let mut rest = operands_reprs;
    let mut operands: Vec<InteractionInternalRepresentation<CioII>> = Vec::new();
    let mut last_pattern: Option<CioII::InteractionLeafPatternType> = None;
    let mut k: usize = 0;
    while k < n
        invariant
            k <= n,
            n == input.len(),
            rest@ == input.subrange(k as int, n as int),
            operands@.len() + (if last_pattern is Some { 1int } else { 0 }) <= k,
            !merge_patterns ==> operands@ + (match last_pattern {
                Some(p) => seq![InteractionInternalRepresentation::<CioII>::LeafPattern(p)],
                None => seq![],
            }) == input.take(k as int),
        decreases n - k,
    {
        let operand = rest.remove(0);
        let ghost before = operands@;
        let ghost before_last = last_pattern;
        assert(operand == input[k as int]);
        match operand {
            InteractionInternalRepresentation::LeafPattern(pt) => {
                match last_pattern {
                    Some(prev_pt) => {
                        if merge_patterns {
                            match X::merge_patterns_under_operator_if_possible(op_at_root, &prev_pt, &pt) {
                                None => {
                                    operands.push(InteractionInternalRepresentation::LeafPattern(prev_pt));
                                    last_pattern = Some(pt);
                                },
                                Some(merged_pt) => {
                                    last_pattern = Some(merged_pt);
                                },
                            }
                        } else {
                            operands.push(InteractionInternalRepresentation::LeafPattern(prev_pt));
                            last_pattern = Some(pt);
                        }
                    },
                    None => {
                        last_pattern = Some(pt);
                    },
                }
            },
            other => {
                match last_pattern {
                    Some(prev_pt) => {
                        operands.push(InteractionInternalRepresentation::LeafPattern(prev_pt));
                    },
                    None => {},
                }
                last_pattern = None;
                operands.push(other);
            },
        }
        proof {
            assert(input.take(k + 1) =~= input.take(k as int).push(input[k as int]));
            if !merge_patterns {
                if before_last is Some {
                    assert(before.push(InteractionInternalRepresentation::<CioII>::LeafPattern(before_last->0)) =~= input.take(k as int));
                } else {
                    assert(before =~= input.take(k as int));
                }
                if last_pattern is Some {
                    assert(operands@ + seq![InteractionInternalRepresentation::<CioII>::LeafPattern(last_pattern->0)] =~= input.take(k + 1));
                } else {
                    assert(operands@ + seq![] =~= input.take(k + 1));
                }
            }
        }
        k = k + 1;
    }
    match last_pattern {
        Some(pt) => {
            operands.push(InteractionInternalRepresentation::LeafPattern(pt));
        },
        None => {},
    }
    proof {
        assert(input.take(n as int) =~= input);
        if !merge_patterns {
            assert(operands@ =~= input);
        }
    }
    operands
}

/// Most levels of nesting that the conversions follow: deeper than the address space
/// allows, so no term in memory reaches it.
pub const MAX_NESTING: usize = usize::MAX;

/// The operands under an associative operator, gathered through nested uses of it:
/// `f(a, f(b, c))` gives `[a, b, c]`. Nesting beyond `budget` levels is left as it is.
pub fn get_associative_operands_recursively<'a, CioII: CommonIoInteractionInterface, X: FromInteractionTermToInternalRepresentation<CioII>>(
    term: &'a X,
    considered_associative_operator: &CioII::InteractionOperatorType,
    budget: usize,
) -> (r: Vec<&'a X>)
    decreases budget,
{
    let consider_sub_interactions = match term.get_operator_at_root() {
        None => false,
        Some(got_at_root) => budget > 0 && got_at_root == *considered_associative_operator,
    };
    let mut operands: Vec<&X> = Vec::new();
    if consider_sub_interactions {
        let subs = term.get_subinteractions();
        let mut i: usize = 0;
        while i < subs.len()
            invariant
                budget > 0,
            decreases subs@.len() - i,
        {
            let mut inner = get_associative_operands_recursively(subs[i], considered_associative_operator, budget - 1);
            operands.append(&mut inner);
            i = i + 1;
        }
    } else {
        operands.push(term);
    }
    operands
}

/// The internal representation of a term: a leaf pattern where the language sees
/// one, otherwise its root operator over its converted operands (gathered through
/// nested uses of an associative operator with `flatten`, consecutive patterns merged
/// with `merge_patterns`); an associative operator left with one operand gives way to
/// it. `None` where a term is neither a pattern nor has an operator at its root, or
/// nests deeper than `budget`.
pub fn to_io_repr_within<CioII: CommonIoInteractionInterface, X: FromInteractionTermToInternalRepresentation<CioII>>(
    term: &X,
    merge_patterns: bool,
    flatten_operands_under_associative_operators: bool,
    budget: usize,
) -> (r: Option<InteractionInternalRepresentation<CioII>>)
    decreases budget,
{
    match term.identify_pattern_at_interaction_leaf() {
        Some(pattern) => Some(InteractionInternalRepresentation::LeafPattern(pattern)),
        None => {
            if budget == 0 {
                return None;
            }
            let op_at_root = match term.get_operator_at_root() {
                Some(op) => op,
                None => {
                    return None;
                },
            };
            let raw_operands = if flatten_operands_under_associative_operators && op_at_root.is_associative() {
                get_associative_operands_recursively(term, &op_at_root, budget)
            } else {
                term.get_subinteractions()
            };
            let mut reprs: Vec<InteractionInternalRepresentation<CioII>> = Vec::new();
            let mut i: usize = 0;
            while i < raw_operands.len()
                invariant
                    budget > 0,
                decreases raw_operands@.len() - i,
            {
                match to_io_repr_within(
                    raw_operands[i],
                    merge_patterns,
                    flatten_operands_under_associative_operators,
                    budget - 1,
                ) {
                    Some(x) => reprs.push(x),
                    None => {
                        return None;
                    },
                }
                i = i + 1;
            }
            let mut operands = merge_consecutive_patterns::<CioII, X>(&op_at_root, reprs, merge_patterns);
            if operands.len() == 1 && op_at_root.arity() >= 2 {
                operands.pop()
            } else {
                Some(InteractionInternalRepresentation::Operator(op_at_root, operands))
            }
        },
    }
}

/// Converts a term of the language into the internal representation (see
/// `to_io_repr_within`).
pub fn to_io_repr<CioII: CommonIoInteractionInterface, X: FromInteractionTermToInternalRepresentation<CioII>>(
    term: &X,
    merge_patterns: bool,
    flatten_operands_under_associative_operators: bool,
) -> Option<InteractionInternalRepresentation<CioII>> {
    to_io_repr_within(term, merge_patterns, flatten_operands_under_associative_operators, MAX_NESTING)
}

/// Folds operands under a binary associative operator to the right:
/// `[a, b, c, d]` gives `f(a, f(b, f(c, d)))`, one operand gives itself and none the
/// empty interaction. Takes every operand out of `operands`. Where the language
/// refuses to build a node, the empty interaction stands in its place.
pub fn fold_associative_operands_recursively<CioII: CommonIoInteractionInterface, Y: FromInternalRepresentationToInteractionTerm<CioII>>(
    operator: &CioII::InteractionOperatorType,
    operands: &mut Vec<Y>,
) -> (r: Y)
    ensures
        final(operands)@.len() == 0,
    decreases old(operands)@.len(),
{
    let ops_num = operands.len();
    if ops_num == 0 {
        Y::get_empty_interaction()
    } else if ops_num == 1 {
        match operands.pop() {
            Some(x) => x,
            None => Y::get_empty_interaction(),
        }
    } else if ops_num == 2 {
        let i2 = operands.pop();
        let i1 = operands.pop();
        match (i1, i2) {
            (Some(i1), Some(i2)) => {
                let mut pair = Vec::new();
                pair.push(i1);
                pair.push(i2);
                match Y::instantiate_interaction_under_operator(operator, &mut pair) {
                    Some(x) => x,
                    None => Y::get_empty_interaction(),
                }
            },
            _ => Y::get_empty_interaction(),
        }
    } else {
        let i1 = operands.remove(0);
        let i2 = fold_associative_operands_recursively(operator, operands);
        let mut pair = Vec::new();
        pair.push(i1);
        pair.push(i2);
        match Y::instantiate_interaction_under_operator(operator, &mut pair) {
            Some(x) => x,
            None => Y::get_empty_interaction(),
        }
    }
}

/// Builds the language's term back from the internal representation: leaves through
/// the language, operators over their rebuilt operands, associative ones folded to
/// the right.
pub fn from_io_repr<CioII: CommonIoInteractionInterface, Y: FromInternalRepresentationToInteractionTerm<CioII>>(
    io_int_repr: &InteractionInternalRepresentation<CioII>,
) -> Y
    decreases io_int_repr,
{
    match io_int_repr {
        InteractionInternalRepresentation::LeafPattern(leaf_pattern) => Y::transform_pattern_to_term(leaf_pattern),
        InteractionInternalRepresentation::Operator(operator, sub_ints_reprs) => {
            let mut sub_ints: Vec<Y> = Vec::new();
            let mut i: usize = 0;
            while i < sub_ints_reprs.len()
                invariant
                    i <= sub_ints_reprs@.len(),
                    *io_int_repr == InteractionInternalRepresentation::<CioII>::Operator(*operator, *sub_ints_reprs),
                decreases sub_ints_reprs@.len() - i,
            {
                proof {
                    let s0 = (*io_int_repr)->Operator_1;
                    assert(decreases_to!(s0 => s0[i as int]));
                    assert(decreases_to!(*io_int_repr => s0));
                }
                sub_ints.push(from_io_repr(&sub_ints_reprs[i]));
                i = i + 1;
            }
            if operator.is_associative() {
                fold_associative_operands_recursively(operator, &mut sub_ints)
            } else {
                match Y::instantiate_interaction_under_operator(operator, &mut sub_ints) {
                    Some(x) => x,
                    None => Y::get_empty_interaction(),
                }
            }
        },
    }
}

} // verus!

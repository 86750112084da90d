use vstd::prelude::*;
use vstd::string::StringExecFns;

use crate::internal_representation::{
    CommonIoInteractionInterface, InteractionInternalRepresentation, InteractionOperatorRepresentation,
};
use crate::text::{chars_of, match_char, match_tag, skip_multispace};

verus! {

/// The characters that open and close an operator's operands and separate them.
pub trait DelimitedInteractionLanguageParser {
    fn left_parenthesis_char(&self) -> char;

    fn right_parenthesis_char(&self) -> char;

    fn separator_char(&self) -> char;
}

/// What an interaction language adds to the generic grammar: how its operators and
/// leaf patterns are read. Each reader gets the input and a position, and gives the
/// value read with the position after it, or `None`.
pub trait ContextAwareInteractionParser<CioII: CommonIoInteractionInterface>: DelimitedInteractionLanguageParser {
    fn parse_operator(&self, input: &Vec<char>, pos: usize) -> Option<(CioII::InteractionOperatorType, usize)>;

    fn parse_explicit_pattern(&self, input: &Vec<char>, pos: usize) -> Option<(CioII::InteractionLeafPatternType, usize)>;
}

/// A reader's answer is taken only where it moved forward and stayed in the input.
pub open spec fn advanced(pos: usize, next: usize, len: nat) -> bool {
    pos < next && next <= len
}

/// Whether an operator of the given arity takes `num_operands` operands: exactly its
/// arity, or two or more where it is associative.
pub fn accepts_operand_count(arity: usize, associative: bool, num_operands: usize) -> (r: bool)
    ensures
        r == ((associative && num_operands >= 2) || num_operands == arity),
{
    (associative && num_operands >= 2) || num_operands == arity
}

/// An operator applied to its operands, between spaces:
/// `op ( operand , operand , ... )`. Accepted where the operator is associative and
/// has two operands or more, or where their number is its arity.
pub fn parse_interaction_with_operator_at_root<CioII: CommonIoInteractionInterface, P: ContextAwareInteractionParser<CioII>>(
    parser: &P,
    input: &Vec<char>,
    pos: usize,
) -> (r: Option<(InteractionInternalRepresentation<CioII>, usize)>)
    requires
        pos <= input@.len(),
    ensures
        r matches Some((term, next)) ==> advanced(pos, next, input@.len()) && term is Operator,
    decreases input@.len() - pos, 1nat,
{
    let (operator, at_1) = match parser.parse_operator(input, pos) {
        Some((op, p)) => {
            if !(pos < p && p <= input.len()) {
                return None;
            }
            (op, p)
        },
        None => {
            return None;
        },
    };
    let at_2 = skip_multispace(input, at_1);
    let at_3 = match match_char(input, at_2, parser.left_parenthesis_char()) {
        Some(p) => p,
        None => {
            return None;
        },
    };
    let mut cur = skip_multispace(input, at_3);
    let mut operands: Vec<InteractionInternalRepresentation<CioII>> = Vec::new();
    match parse_interaction_inner(parser, input, cur) {
        Some((first, p)) => {
            operands.push(first);
            cur = p;
            let sep = parser.separator_char();
            loop
                invariant
                    pos < cur <= input@.len(),
                decreases input@.len() - cur,
            {
                let q1 = skip_multispace(input, cur);
                let q2 = match match_char(input, q1, sep) {
                    Some(q) => q,
                    None => {
                        break;
                    },
                };
                let q3 = skip_multispace(input, q2);
                match parse_interaction_inner(parser, input, q3) {
                    Some((next, q4)) => {
                        operands.push(next);
                        cur = q4;
                    },
                    None => {
                        break;
                    },
                }
            }
        },
        None => {},
    }
    let at_4 = skip_multispace(input, cur);
    let at_5 = match match_char(input, at_4, parser.right_parenthesis_char()) {
        Some(p) => p,
        None => {
            return None;
        },
    };
    if accepts_operand_count(operator.arity(), operator.is_associative(), operands.len()) {
        Some((InteractionInternalRepresentation::Operator(operator, operands), at_5))
    } else {
        None
    }
}

/// A term between optional spaces: a leaf pattern of the language if one stands
/// there, otherwise an operator applied to its operands.
pub fn parse_interaction_inner<CioII: CommonIoInteractionInterface, P: ContextAwareInteractionParser<CioII>>(
    parser: &P,
    input: &Vec<char>,
    pos: usize,
) -> (r: Option<(InteractionInternalRepresentation<CioII>, usize)>)
    requires
        pos <= input@.len(),
    ensures
        r matches Some((_, next)) ==> advanced(pos, next, input@.len()),
    decreases input@.len() - pos, 2nat,
{
    let at_1 = skip_multispace(input, pos);
    match parser.parse_explicit_pattern(input, at_1) {
        Some((pattern, at_2)) => {
            if at_1 < at_2 && at_2 <= input.len() {
                let at_3 = skip_multispace(input, at_2);
                return Some((InteractionInternalRepresentation::LeafPattern(pattern), at_3));
            }
        },
        None => {},
    }
    match parse_interaction_with_operator_at_root(parser, input, at_1) {
        Some((term, at_2)) => {
            let at_3 = skip_multispace(input, at_2);
            Some((term, at_3))
        },
        None => None,
    }
}

/// Reads an interaction term from the start of the text; what follows the term is
/// not read. Fails, with a message naming where, when no term stands there.
pub fn parse_interaction<CioII: CommonIoInteractionInterface, P: ContextAwareInteractionParser<CioII>>(
    input_str: &str,
    parser: &P,
) -> (r: Result<InteractionInternalRepresentation<CioII>, String>)
{
    let input = chars_of(input_str);
    match parse_interaction_inner(parser, &input, 0) {
        Some((term, _)) => Ok(term),
        None => Err(String::from_str("no interaction term could be read at the start of the input")),
    }
}

/// A generic reader for broadcast patterns:
/// `origin -- message -> targets` or `message -> targets`, where the targets are the
/// empty-target character, one target, or `(target,target,...)`.
pub trait GenericBroadcastParser<GenericBroadcastOrigin, GenericMessage, GenericBroadcastTarget, GenericBroadcastPattern>: DelimitedInteractionLanguageParser {
    fn make_pattern(
        &self,
        origin: Option<GenericBroadcastOrigin>,
        message: GenericMessage,
        targets: Vec<GenericBroadcastTarget>,
    ) -> GenericBroadcastPattern;

    fn get_empty_target_char(&self) -> char;

    fn get_tag_for_message_reception_by_target(&self) -> Vec<char>;

    fn get_tag_for_message_transmission_from_origin(&self) -> Vec<char>;

    fn parse_message(&self, input: &Vec<char>, pos: usize) -> Option<(GenericMessage, usize)>;

    fn parse_broadcast_origin(&self, input: &Vec<char>, pos: usize) -> Option<(GenericBroadcastOrigin, usize)>;

    fn parse_single_broadcast_targets(&self, input: &Vec<char>, pos: usize) -> Option<(GenericBroadcastTarget, usize)>;

    /// `(target,target,...)`, with at least one target.
    fn parse_multiple_broadcast_targets(&self, input: &Vec<char>, pos: usize) -> (r: Option<(Vec<GenericBroadcastTarget>, usize)>)
        requires
            pos <= input@.len(),
        ensures
            r matches Some((_, next)) ==> advanced(pos, next, input@.len()),
    {
        let at_1 = match match_char(input, pos, self.left_parenthesis_char()) {
            Some(p) => p,
            None => {
                return None;
            },
        };
        let mut targets: Vec<GenericBroadcastTarget> = Vec::new();
        let mut cur = match self.parse_single_broadcast_targets(input, at_1) {
            Some((t, p)) => {
                if !(at_1 < p && p <= input.len()) {
                    return None;
                }
                targets.push(t);
                p
            },
            None => {
                return None;
            },
        };
        let sep = self.separator_char();
        loop
            invariant
                pos < cur <= input@.len(),
            decreases input@.len() - cur,
        {
            let q1 = match match_char(input, cur, sep) {
                Some(q) => q,
                None => {
                    break;
                },
            };
            match self.parse_single_broadcast_targets(input, q1) {
                Some((t, q2)) => {
                    if !(q1 < q2 && q2 <= input.len()) {
                        break;
                    }
                    targets.push(t);
                    cur = q2;
                },
                None => {
                    break;
                },
            }
        }
        match match_char(input, cur, self.right_parenthesis_char()) {
            Some(p) => Some((targets, p)),
            None => None,
        }
    }

    /// The empty-target character (no target), one target, or several in parentheses.
    fn parse_broadcast_targets(&self, input: &Vec<char>, pos: usize) -> (r: Option<(Vec<GenericBroadcastTarget>, usize)>)
        requires
            pos <= input@.len(),
        ensures
            r matches Some((_, next)) ==> advanced(pos, next, input@.len()),
    {
        match match_char(input, pos, self.get_empty_target_char()) {
            Some(p) => {
                return Some((Vec::new(), p));
            },
            None => {},
        }
        match self.parse_single_broadcast_targets(input, pos) {
            Some((t, p)) => {
                if pos < p && p <= input.len() {
                    let mut v = Vec::new();
                    v.push(t);
                    return Some((v, p));
                }
            },
            None => {},
        }
        self.parse_multiple_broadcast_targets(input, pos)
    }

    /// A broadcast with an origin if one can be read, otherwise one without.
    fn parse_broadcast_pattern(&self, input: &Vec<char>, pos: usize) -> (r: Option<(GenericBroadcastPattern, usize)>)
        requires
            pos <= input@.len(),
        ensures
            r matches Some((_, next)) ==> advanced(pos, next, input@.len()),
    {
        match self.parse_broadcast_with_origin(input, pos) {
            Some(x) => Some(x),
            None => self.parse_broadcast_without_origin(input, pos),
        }
    }

    /// `message -> targets`, spaces allowed around the arrow.
    fn parse_broadcast_without_origin(&self, input: &Vec<char>, pos: usize) -> (r: Option<(GenericBroadcastPattern, usize)>)
        requires
            pos <= input@.len(),
        ensures
            r matches Some((_, next)) ==> advanced(pos, next, input@.len()),
    {
        let (message, at_1) = match self.parse_message(input, pos) {
            Some((m, p)) => {
                if !(pos < p && p <= input.len()) {
                    return None;
                }
                (m, p)
            },
            None => {
                return None;
            },
        };
        let at_2 = skip_multispace(input, at_1);
        let at_3 = match match_tag(input, at_2, &self.get_tag_for_message_reception_by_target()) {
            Some(p) => p,
            None => {
                return None;
            },
        };
        let at_4 = skip_multispace(input, at_3);
        match self.parse_broadcast_targets(input, at_4) {
            Some((targets, at_5)) => Some((self.make_pattern(None, message, targets), at_5)),
            None => None,
        }
    }

    /// `origin -- message -> targets`, spaces allowed around the tags.
    fn parse_broadcast_with_origin(&self, input: &Vec<char>, pos: usize) -> (r: Option<(GenericBroadcastPattern, usize)>)
        requires
            pos <= input@.len(),
        ensures
            r matches Some((_, next)) ==> advanced(pos, next, input@.len()),
    {
        let (origin, at_1) = match self.parse_broadcast_origin(input, pos) {
            Some((o, p)) => {
                if !(pos < p && p <= input.len()) {
                    return None;
                }
                (o, p)
            },
            None => {
                return None;
            },
        };
        let at_2 = skip_multispace(input, at_1);
        let at_3 = match match_tag(input, at_2, &self.get_tag_for_message_transmission_from_origin()) {
            Some(p) => p,
            None => {
                return None;
            },
        };
        let at_4 = skip_multispace(input, at_3);
        let (message, at_5) = match self.parse_message(input, at_4) {
            Some((m, p)) => {
                if !(at_4 < p && p <= input.len()) {
                    return None;
                }
                (m, p)
            },
            None => {
                return None;
            },
        };
        let at_6 = skip_multispace(input, at_5);
        let at_7 = match match_tag(input, at_6, &self.get_tag_for_message_reception_by_target()) {
            Some(p) => p,
            None => {
                return None;
            },
        };
        let at_8 = skip_multispace(input, at_7);
        match self.parse_broadcast_targets(input, at_8) {
            Some((targets, at_9)) => Some((self.make_pattern(Some(origin), message, targets), at_9)),
            None => None,
        }
    }
}

} // verus!

use vstd::prelude::*;
use vstd::string::StringExecFns;

use crate::internal_representation::{CommonIoInteractionInterface, InteractionInternalRepresentation};

verus! {

/// `depth` tab characters.
pub open spec fn tabs(depth: nat) -> Seq<char> {
    Seq::new(depth, |i: int| '\t')
}

/// The lines joined, each followed by `sep` but the last.
pub open spec fn joined(lines: Seq<Seq<char>>, sep: Seq<char>) -> Seq<char>
    decreases lines.len(),
{
    if lines.len() == 0 {
        seq![]
    } else if lines.len() == 1 {
        lines[0]
    } else {
        joined(lines.drop_last(), sep) + sep + lines.last()
    }
}

/// One leaf line: indentation, then the pattern's text.
pub fn indented_line(depth: usize, text: &str) -> (r: String)
    ensures
        r@ == tabs(depth as nat) + text@,
{
    let mut r = String::new();
    let mut i: usize = 0;
    proof {
        reveal_strlit("\t");
    }
    while i < depth
        invariant
            i <= depth,
            r@ == tabs(i as nat),
        decreases depth - i,
    {
        proof {
            reveal_strlit("\t");
        }
        r.append("\t");
        i = i + 1;
        assert(r@ =~= tabs(i as nat));
    }
    r.append(text);
    r
}

/// An operator block: its header line `tabs + head + left`, its operand lines joined
/// by `separator` and a line break, and a closing line `tabs + right`.
pub fn operator_block(depth: usize, head: &str, left: &str, inner_lines: &Vec<String>, separator: &str, right: &str) -> (r: String)
    ensures
        r@ == tabs(depth as nat) + head@ + left@ + seq!['\n'] + joined(
            inner_lines@.map_values(|l: String| l@),
            separator@ + seq!['\n'],
        ) + seq!['\n'] + tabs(depth as nat) + right@,
{
    let ghost lines = inner_lines@.map_values(|l: String| l@);
    let ghost sep = separator@ + seq!['\n'];
    let mut r = indented_line(depth, head);
    r.append(left);
    proof {
        reveal_strlit("\n");
    }
    r.append("\n");
    let ghost prefix = r@;
    let mut i: usize = 0;
    while i < inner_lines.len()
        invariant
            i <= inner_lines@.len(),
            lines == inner_lines@.map_values(|l: String| l@),
            sep == separator@ + seq!['\n'],
            r@ == prefix + joined(lines.take(i as int), sep),
        decreases inner_lines@.len() - i,
    {
        proof {
            assert(lines.take(i + 1).drop_last() =~= lines.take(i as int));
        }
        proof {
            reveal_strlit("\n");
        }
        let ghost before = r@;
        if i > 0 {
            r.append(separator);
            r.append("\n");
            assert(r@ =~= before + sep);
        }
        r.append(inner_lines[i].as_str());
        proof {
            assert(lines.take(i + 1).last() == lines[i as int]);
            assert(lines[i as int] == inner_lines@[i as int]@);
            if i == 0 {
                assert(joined(lines.take(1), sep) == lines.take(1)[0]);
            }
        }
        i = i + 1;
        proof {
            assert(r@ =~= prefix + joined(lines.take(i as int), sep));
        }
    }
    assert(lines.take(inner_lines@.len() as int) =~= lines);
    r.append("\n");
    let tail = indented_line(depth, right);
    r.append(tail.as_str());
    assert(r@ =~= tabs(depth as nat) + head@ + left@ + seq!['\n'] + joined(lines, sep) + seq!['\n'] + tabs(
        depth as nat,
    ) + right@);
    r
}

/// How an interaction language writes its terms as text. The layout of the text
/// (indentation, line breaks, separators) is the library's own.
pub trait ContextAwareInteractionPrinter<CioII: CommonIoInteractionInterface> {
    fn left_parenthesis(&self) -> String;

    fn right_parenthesis(&self) -> String;

    fn operand_separator(&self) -> String;

    /// How the given operator is written, knowing the operands underneath.
    fn print_operator(
        &self,
        operator: &CioII::InteractionOperatorType,
        sub_ints: &Vec<InteractionInternalRepresentation<CioII>>,
    ) -> String;

    fn print_explicit_pattern(&self, leaf_pattern: &CioII::InteractionLeafPatternType) -> String;
}

/// Writes the term: a leaf on one line at its depth; an operator as a header line,
/// its operands one depth deeper separated by the language's separator, and a
/// closing line.
pub fn print_interaction_inner<CioII: CommonIoInteractionInterface, P: ContextAwareInteractionPrinter<CioII>>(
    printer: &P,
    depth: usize,
    interaction: &InteractionInternalRepresentation<CioII>,
) -> (r: String)
    ensures
        r@.len() >= depth,
        r@.subrange(0, depth as int) == tabs(depth as nat),
    decreases interaction,
{
    match interaction {
        InteractionInternalRepresentation::LeafPattern(leaf) => {
            let text = printer.print_explicit_pattern(leaf);
            let r = indented_line(depth, text.as_str());
            assert(r@.subrange(0, depth as int) =~= tabs(depth as nat));
            r
        },
        InteractionInternalRepresentation::Operator(op, sub_ints) => {
            let inner_depth = if depth < usize::MAX { depth + 1 } else { depth };
            let mut inner: Vec<String> = Vec::new();
            let mut i: usize = 0;
            while i < sub_ints.len()
                invariant
                    i <= sub_ints@.len(),
                    *interaction == InteractionInternalRepresentation::<CioII>::Operator(*op, *sub_ints),
                decreases sub_ints@.len() - i,
            {
                proof {
                    let s0 = (*interaction)->Operator_1;
                    assert(s0 == *sub_ints);
                    assert(decreases_to!(s0 => s0[i as int]));
                    assert(decreases_to!(*interaction => s0));
                    assert(decreases_to!(*interaction => sub_ints[i as int]));
                }
                inner.push(print_interaction_inner(printer, inner_depth, &sub_ints[i]));
                i = i + 1;
            }
            let head = printer.print_operator(op, sub_ints);
            let left = printer.left_parenthesis();
            let sep = printer.operand_separator();
            let right = printer.right_parenthesis();
            let r = operator_block(depth, head.as_str(), left.as_str(), &inner, sep.as_str(), right.as_str());
            assert(r@.subrange(0, depth as int) =~= tabs(depth as nat));
            r
        },
    }
}

/// Writes the term as text, from depth zero.
pub fn print_interaction<CioII: CommonIoInteractionInterface, P: ContextAwareInteractionPrinter<CioII>>(
    interaction: &InteractionInternalRepresentation<CioII>,
    printer: &P,
) -> String {
    print_interaction_inner(printer, 0, interaction)
}

} // verus!

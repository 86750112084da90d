use interaction_diagram_io::extract::DrawableInteraction;
use interaction_diagram_io::finalize::extract_drawing_information;
use interaction_diagram_io::horizontal::LifelineRequiredHorizontalSpaceInDiagram;
use interaction_diagram_io::leaf::{
    CenteredDrawableActionItem, DrawableBroadcastLeafPattern, DrawableBroadcastLeafPatternOrigin, MeasuredText,
    PrePostAmbleDrawableActionItem, TargetLifelineBroadcastDrawInstruction,
};
use interaction_diagram_io::operator::{DrawableOperator, DrawableOperatorKind};

fn text(s: &str) -> MeasuredText<String> {
    MeasuredText::new(s.to_owned(), 8 * s.chars().count() as u64, 16)
}

fn sized(s: &str, width: u64, height: u64) -> MeasuredText<String> {
    MeasuredText::new(s.to_owned(), width, height)
}

fn bare() -> PrePostAmbleDrawableActionItem<String> {
    PrePostAmbleDrawableActionItem::new(None, None)
}

fn message(from: usize, to: usize, label: MeasuredText<String>) -> DrawableBroadcastLeafPattern<String, ()> {
    DrawableBroadcastLeafPattern::new(
        label,
        (),
        DrawableBroadcastLeafPatternOrigin::Lifeline(from, bare()),
        vec![(to, TargetLifelineBroadcastDrawInstruction::TwoParts(bare()))],
        vec![],
    )
}

fn req(l: u64, r: u64) -> Option<LifelineRequiredHorizontalSpaceInDiagram> {
    Some(LifelineRequiredHorizontalSpaceInDiagram::new(l, r))
}

#[test]
fn framed_alternative_of_two_messages_end_to_end() {
    let tree: DrawableInteraction<String, (), ()> = DrawableInteraction::Operator(
        DrawableOperator::new((), DrawableOperatorKind::Framed(text("alt"))),
        vec![
            DrawableInteraction::Leaf(Some(message(0, 1, text("m")))),
            DrawableInteraction::Leaf(Some(message(0, 1, text("m")))),
        ],
    );
    let g = extract_drawing_information(vec![0, 1], vec![text("a"), text("b")], tree, 10, 5, 20);
    // each leaf: 16 (message) + 5 above the arrow, 5 below
    assert_eq!(g.patterns_to_draw[0].intermediate_info.y_space_top_to_bottom, 26);
    // the body starts one margin down, the frame's label takes 16, then leaf,
    // half a spacing, the separator, the other half, leaf, and half a spacing
    assert_eq!(g.patterns_to_draw[0].relative_y_pos, 21);
    assert_eq!(g.patterns_to_draw[1].relative_y_pos, 57);
    assert_eq!(g.operators_to_draw[0].horizontal_seps_relative_vertical_positions, vec![5, 52, 88]);
    assert_eq!(g.operators_to_draw[0].nest_depth, 0);
    // 2 * border + header + body end + bottom margin
    assert_eq!(g.height, 2 * 20 + 16 + 88 + 5);
    assert_eq!(g.y_shift_to_absolute, 36);
    // the frame's label needs 24 + 2 * 5 left of the leftmost lifeline
    assert_eq!(g.operators_to_draw[0].enclosed_lfs_reqs, vec![req(34, 12), req(21, 12)]);
    // border, then one margin: the diagram's left side
    assert_eq!(g.left_side_of_diagram_x_pos, 25);
    assert_eq!(g.lifelines_horizontal_positions, vec![25 + 34, 25 + 34 + 12 + 5 + 21]);
    assert_eq!(g.right_side_of_diagram_x_pos, 25 + 34 + 12 + 5 + 21 + 12 + 5);
    // both lifelines' rooms, the label's reservation, border and margin on each side,
    // a margin between the lifelines: three margins in all
    assert_eq!(g.width, 2 * 20 + 3 * 5 + 34 + 12 + 21 + 12);
}

#[test]
fn sibling_requirements_merge_by_maximum_not_sum() {
    // the second message is wider, so the two siblings ask different room between
    // the lifelines: 21 and 37 on the left of lifeline 1
    let tree: DrawableInteraction<String, (), ()> = DrawableInteraction::Operator(
        DrawableOperator::new((), DrawableOperatorKind::CoRegionLike(vec![])),
        vec![
            DrawableInteraction::Leaf(Some(message(0, 1, sized("m", 8, 16)))),
            DrawableInteraction::Leaf(Some(message(0, 1, sized("long", 40, 16)))),
        ],
    );
    let g = extract_drawing_information(vec![0, 1], vec![text("a"), text("b")], tree, 10, 5, 20);
    assert_eq!(g.patterns_to_draw[0].intermediate_info.lifelines_horizontal_requirements, vec![req(12, 12), req(21, 12)]);
    assert_eq!(g.patterns_to_draw[1].intermediate_info.lifelines_horizontal_requirements, vec![req(12, 27), req(37, 12)]);
    assert_eq!(g.operators_to_draw[0].enclosed_lfs_reqs, vec![req(12, 27), req(37, 12)]);
    let gap = g.lifelines_horizontal_positions[1] - g.lifelines_horizontal_positions[0];
    assert_eq!(gap, 27 + 5 + 37);
    assert_ne!(gap, 12 + 27 + 5 + 21 + 37);
}

#[test]
fn message_goes_left_when_every_target_is_left_of_the_origin() {
    let all = vec![10, 11, 12, 13];
    let leaf = DrawableBroadcastLeafPattern::new(
        text("m"),
        (),
        DrawableBroadcastLeafPatternOrigin::Lifeline(12, bare()),
        vec![
            (10, TargetLifelineBroadcastDrawInstruction::TwoParts(bare())),
            (11, TargetLifelineBroadcastDrawInstruction::TwoParts(bare())),
        ],
        vec![],
    );
    let info = leaf.get_intermediate_information(&all, 10, 5, 5);
    assert_eq!(info.message_drawing_location.0.anchor_lifeline, 12);
    assert!(info.message_drawing_location.0.draw_message_on_left);
    // half the message's room goes on the anchor's left, half on its left neighbour's right
    assert_eq!(info.lifelines_horizontal_requirements[1], req(12, 12 + 5 + 4));
    // the anchor keeps its own minimum, which is larger than 2 + 5 + 4
    assert_eq!(info.lifelines_horizontal_requirements[2], req(12, 12));
    assert_eq!(info.message_drawing_location.1, -(2 + 4 + 5));
}

#[test]
fn message_goes_right_when_a_target_is_right_of_the_origin() {
    let all = vec![10, 11, 12, 13];
    let leaf = DrawableBroadcastLeafPattern::new(
        text("m"),
        (),
        DrawableBroadcastLeafPatternOrigin::Lifeline(12, bare()),
        vec![(13, TargetLifelineBroadcastDrawInstruction::TwoParts(bare()))],
        vec![],
    );
    let info = leaf.get_intermediate_information(&all, 10, 5, 5);
    assert_eq!(info.message_drawing_location.0.anchor_lifeline, 12);
    assert!(!info.message_drawing_location.0.draw_message_on_left);
    assert_eq!(info.message_drawing_location.1, 2 + 4 + 5);
}

#[test]
fn message_without_origin_goes_left_of_the_leftmost_target() {
    let all = vec![0, 1, 2];
    let leaf: DrawableBroadcastLeafPattern<String, ()> = DrawableBroadcastLeafPattern::new(
        text("m"),
        (),
        DrawableBroadcastLeafPatternOrigin::Empty,
        vec![
            (2, TargetLifelineBroadcastDrawInstruction::TwoParts(bare())),
            (1, TargetLifelineBroadcastDrawInstruction::TwoParts(bare())),
        ],
        vec![],
    );
    let info = leaf.get_intermediate_information(&all, 10, 5, 5);
    assert_eq!(info.message_drawing_location.0.anchor_lifeline, 1);
    assert!(info.message_drawing_location.0.draw_message_on_left);
    assert_eq!(info.involved_lifelines, vec![false, true, true]);
    assert_eq!(info.lifelines_horizontal_requirements[0], req(0, 5 + 4));
}

#[test]
fn self_message_reception_lies_below_the_emission() {
    let all = vec![0, 1];
    let leaf = DrawableBroadcastLeafPattern::new(
        text("m"),
        (),
        DrawableBroadcastLeafPatternOrigin::Lifeline(0, PrePostAmbleDrawableActionItem::new(None, Some(sized("post", 30, 20)))),
        vec![(
            0,
            TargetLifelineBroadcastDrawInstruction::TwoParts(PrePostAmbleDrawableActionItem::new(
                Some(sized("pre", 10, 6)),
                None,
            )),
        )],
        vec![],
    );
    let info = leaf.get_intermediate_information(&all, 10, 5, 5);
    // one pixel past the postamble, which is more than two margins
    assert_eq!(info.required_space_under_emission, Some((0, 21)));
    let action = &leaf.lifeline_targets[0].1;
    let shift = info.get_target_midline_shift(0, action, 10);
    assert_eq!(shift, 21 + 10 + 6);
    assert!(shift > 20 + 10);
    assert_eq!(info.get_target_midline_shift(1, action, 10), 0);
    // below the midline: the emission's room, the operand margin, the reception, a margin
    assert_eq!(info.y_space_top_to_bottom - info.y_space_top_to_midline, 21 + 10 + 6 + 0 + 5);
    // the sender's half width 17 is kept once, then the message is put on its left
    assert_eq!(info.lifelines_horizontal_requirements[0], req(17 + 5 + 8, 17));
}

#[test]
fn gates_widen_the_leaf_and_stack_on_the_right() {
    let all = vec![0, 1];
    let leaf: DrawableBroadcastLeafPattern<String, ()> = DrawableBroadcastLeafPattern::new(
        text("m"),
        (),
        DrawableBroadcastLeafPatternOrigin::InputOutsideGate(sized("in", 40, 30)),
        vec![(1, TargetLifelineBroadcastDrawInstruction::Centered(CenteredDrawableActionItem::new(sized("c", 12, 8))))],
        vec![sized("g1", 20, 10), sized("g2", 50, 12)],
    );
    let info = leaf.get_intermediate_information(&all, 10, 5, 5);
    assert_eq!(info.input_gate_width, 40);
    assert_eq!(info.output_gates_max_width, 50);
    assert_eq!(info.y_shift_above_midline_for_output_gates, (5 + 10 + 5 + 12 + 5) / 2);
    assert_eq!(info.y_space_top_to_midline, 21);
    assert_eq!(info.y_space_top_to_bottom, 21 + 18);
}

#[test]
fn empty_leaves_take_no_room() {
    let tree: DrawableInteraction<String, (), ()> = DrawableInteraction::Operator(
        DrawableOperator::new((), DrawableOperatorKind::CoRegionLike(vec![0])),
        vec![DrawableInteraction::Leaf(None), DrawableInteraction::Leaf(Some(message(1, 0, text("m"))))],
    );
    let g = extract_drawing_information(vec![0, 1], vec![text("a"), text("bb")], tree, 10, 5, 20);
    assert_eq!(g.patterns_to_draw.len(), 1);
    // a non-empty co-region: two margins on top, then the empty leaf, half of two
    // margins, the separator, the other half, the message (26), half of two margins
    assert_eq!(g.operators_to_draw[0].horizontal_seps_relative_vertical_positions, vec![5, 20, 25 + 26 + 5]);
    assert_eq!(g.patterns_to_draw[0].relative_y_pos, 25);
}

#[test]
fn layout_twice_gives_the_same_coordinates() {
    let build = || -> DrawableInteraction<String, (), ()> {
        DrawableInteraction::Operator(
            DrawableOperator::new((), DrawableOperatorKind::Framed(text("loop"))),
            vec![DrawableInteraction::Leaf(Some(message(0, 2, text("hello"))))],
        )
    };
    let first = extract_drawing_information(vec![0, 1, 2], vec![text("a"), text("b"), text("c")], build(), 10, 5, 20);
    let second = extract_drawing_information(vec![0, 1, 2], vec![text("a"), text("b"), text("c")], build(), 10, 5, 20);
    assert_eq!(first.width, second.width);
    assert_eq!(first.height, second.height);
    assert_eq!(first.lifelines_horizontal_positions, second.lifelines_horizontal_positions);
    assert_eq!(first.operators_to_draw[0].enclosed_lfs_reqs, second.operators_to_draw[0].enclosed_lfs_reqs);
}

#[test]
fn self_message_without_preamble_still_lies_strictly_below() {
    let all = vec![0];
    let leaf = DrawableBroadcastLeafPattern::new(
        text("m"),
        (),
        DrawableBroadcastLeafPatternOrigin::Lifeline(0, PrePostAmbleDrawableActionItem::new(None, Some(sized("post", 30, 20)))),
        vec![(0, TargetLifelineBroadcastDrawInstruction::TwoParts(bare()))],
        vec![],
    );
    let info = leaf.get_intermediate_information(&all, 10, 5, 5);
    let shift = info.get_target_midline_shift(0, &leaf.lifeline_targets[0].1, 10);
    assert_eq!(shift, 20 + 1 + 10);
}

use interaction_diagram_io::context::{check_distinct, lay_out_checked, order_by_comparisons, union_distinct};
use interaction_diagram_io::parser::accepts_operand_count;
use std::cmp::Ordering;

fn two_messages() -> DrawableInteraction<String, (), ()> {
    DrawableInteraction::Operator(
        DrawableOperator::new((), DrawableOperatorKind::Framed(text("alt"))),
        vec![
            DrawableInteraction::Leaf(Some(message(0, 1, text("m")))),
            DrawableInteraction::Leaf(Some(message(0, 1, text("m")))),
        ],
    )
}

#[test]
fn checked_layout_matches_the_unchecked_one_on_a_fit_diagram() {
    let g = lay_out_checked(vec![0, 1], vec![text("a"), text("b")], two_messages(), 10, 5, 20).unwrap();
    assert_eq!(g.width, 2 * 20 + 3 * 5 + 34 + 12 + 21 + 12);
    assert_eq!(g.height, 2 * 20 + 16 + 88 + 5);
}

#[test]
fn checked_layout_refuses_what_cannot_be_laid_out() {
    // a lifeline listed twice
    assert!(lay_out_checked(vec![0, 0], vec![text("a"), text("b")], two_messages(), 10, 5, 20).is_none());
    // one header missing
    assert!(lay_out_checked(vec![0, 1], vec![text("a")], two_messages(), 10, 5, 20).is_none());
    // a lifeline named by a leaf but absent from the diagram
    assert!(lay_out_checked(vec![0], vec![text("a")], two_messages(), 10, 5, 20).is_none());
    // a margin over the largest accepted size
    assert!(lay_out_checked(vec![0, 1], vec![text("a"), text("b")], two_messages(), 10, 1 << 30, 20).is_none());
    // a header over the largest accepted size
    assert!(lay_out_checked(vec![0, 1], vec![text("a"), sized("b", 1 << 30, 16)], two_messages(), 10, 5, 20).is_none());
    // a leaf that targets the same lifeline twice
    let twice: DrawableInteraction<String, (), ()> = DrawableInteraction::Leaf(Some(DrawableBroadcastLeafPattern::new(
        text("m"),
        (),
        DrawableBroadcastLeafPatternOrigin::Lifeline(0, bare()),
        vec![
            (1, TargetLifelineBroadcastDrawInstruction::TwoParts(bare())),
            (1, TargetLifelineBroadcastDrawInstruction::TwoParts(bare())),
        ],
        vec![],
    )));
    assert!(lay_out_checked(vec![0, 1], vec![text("a"), text("b")], twice, 10, 5, 20).is_none());
}

#[test]
fn comparisons_order_the_items() {
    // items 0, 1, 2 ordered as 2 < 0 < 1
    let rank = [1, 2, 0];
    let cmp: Vec<Vec<Ordering>> = (0..3).map(|i| (0..3).map(|j| rank[i].cmp(&rank[j])).collect()).collect();
    assert_eq!(order_by_comparisons(&cmp), vec![2, 0, 1]);
    // a table that orders nothing keeps every item once
    let flat: Vec<Vec<Ordering>> = vec![vec![Ordering::Equal; 4]; 4];
    assert_eq!(order_by_comparisons(&flat), vec![0, 1, 2, 3]);
}

#[test]
fn lifeline_sets_merge_without_repeats() {
    let mut acc = vec![3, 1];
    union_distinct(&mut acc, &vec![1, 4, 4, 3, 0]);
    assert_eq!(acc, vec![3, 1, 4, 0]);
    assert!(check_distinct(&acc));
    assert!(!check_distinct(&vec![1, 2, 1]));
}

#[test]
fn operand_counts_follow_arity_and_associativity() {
    assert!(accepts_operand_count(1, false, 1));
    assert!(!accepts_operand_count(1, false, 2));
    assert!(accepts_operand_count(2, true, 3));
    assert!(!accepts_operand_count(2, true, 1));
    assert!(accepts_operand_count(0, false, 0));
}

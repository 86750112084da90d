use interaction_diagram_io::extract::DrawableInteraction;
use interaction_diagram_io::finalize::extract_drawing_information;
use interaction_diagram_io::leaf::{
    DrawableBroadcastLeafPattern, DrawableBroadcastLeafPatternOrigin, MeasuredText, PrePostAmbleDrawableActionItem,
    TargetLifelineBroadcastDrawInstruction,
};
use interaction_diagram_io::operator::{DrawableOperator, DrawableOperatorKind};
use interaction_diagram_io::paint::{
    header_texts, leaf_strokes, leaf_texts, lifeline_strokes, operator_label_position, operator_strokes, ArrowHead,
    LeafText, Stroke, TextAnchor,
};

fn text(s: &str) -> MeasuredText<String> {
    MeasuredText::new(s.to_owned(), 8 * s.chars().count() as u64, 16)
}

fn bare() -> PrePostAmbleDrawableActionItem<String> {
    PrePostAmbleDrawableActionItem::new(None, None)
}

fn message(from: usize, to: usize) -> DrawableBroadcastLeafPattern<String, ()> {
    DrawableBroadcastLeafPattern::new(
        text("m"),
        (),
        DrawableBroadcastLeafPatternOrigin::Lifeline(from, bare()),
        vec![(to, TargetLifelineBroadcastDrawInstruction::TwoParts(bare()))],
        vec![],
    )
}

fn line(x0: i64, y0: i64, x1: i64, y1: i64) -> Stroke {
    Stroke { x0, y0, x1, y1, head: ArrowHead::NoHead }
}

#[test]
fn framed_alternative_is_painted_from_the_layout() {
    let tree: DrawableInteraction<String, (), ()> = DrawableInteraction::Operator(
        DrawableOperator::new((), DrawableOperatorKind::Framed(text("alt"))),
        vec![DrawableInteraction::Leaf(Some(message(0, 1))), DrawableInteraction::Leaf(Some(message(0, 1)))],
    );
    let g = extract_drawing_information(vec![0, 1], vec![text("a"), text("b")], tree, 10, 5, 20);
    assert_eq!(g.lifelines_horizontal_positions, vec![59, 97]);

    let leaf = &g.patterns_to_draw[0];
    let y_top = g.y_shift_to_absolute + leaf.relative_y_pos;
    let strokes = leaf_strokes(
        &leaf.pattern,
        &leaf.intermediate_info,
        &g.lifelines,
        &g.lifelines_horizontal_positions,
        y_top,
        g.left_side_of_diagram_x_pos,
        g.right_side_of_diagram_x_pos,
        5,
        10,
        10,
    );
    // one continuous arrow from lifeline 0 to lifeline 1 on the midline
    assert_eq!(strokes, vec![Stroke { x0: 59, y0: 78, x1: 97, y1: 78, head: ArrowHead::Rightward }]);
    let texts = leaf_texts(
        &leaf.pattern,
        &leaf.intermediate_info,
        &g.lifelines,
        &g.lifelines_horizontal_positions,
        y_top,
        g.left_side_of_diagram_x_pos,
        g.right_side_of_diagram_x_pos,
        5,
        10,
    );
    assert_eq!(texts.len(), 1);
    assert_eq!(texts[0].item, LeafText::Message);
    assert_eq!((texts[0].x, texts[0].y), (59 + 11, 78 - 5));
    assert_eq!((texts[0].x_anchor, texts[0].y_anchor), (TextAnchor::Centered, TextAnchor::End));

    let op = &g.operators_to_draw[0];
    let frame = operator_strokes(op, &g.lifelines, &g.lifelines_horizontal_positions, g.y_shift_to_absolute, 0, 5);
    assert_eq!(
        frame,
        vec![
            line(25, 41, 25, 124),
            line(109, 41, 109, 124),
            line(25, 41, 109, 41),
            line(25, 124, 109, 124),
            line(25, 88, 109, 88),
        ]
    );
    let label = operator_label_position(op, &g.lifelines_horizontal_positions, g.y_shift_to_absolute, 0, 5).unwrap();
    assert_eq!((label.x, label.y), (30, 41));

    assert_eq!(lifeline_strokes(&g, 20), vec![line(59, 36, 59, 129), line(97, 36, 97, 129)]);
    let headers = header_texts(&g);
    assert_eq!((headers[1].item, headers[1].x, headers[1].y), (1, 97, 36));
}

#[test]
fn self_message_is_painted_as_a_stub_and_a_link() {
    let leaf = DrawableBroadcastLeafPattern::new(
        text("m"),
        (),
        DrawableBroadcastLeafPatternOrigin::Lifeline(
            0,
            PrePostAmbleDrawableActionItem::new(None, Some(MeasuredText::new("post".to_owned(), 30, 20))),
        ),
        vec![(
            0,
            TargetLifelineBroadcastDrawInstruction::TwoParts(PrePostAmbleDrawableActionItem::new(
                Some(MeasuredText::new("pre".to_owned(), 10, 6)),
                None,
            )),
        )],
        vec![],
    );
    let lifelines = vec![0];
    let positions = vec![100];
    let info = leaf.get_intermediate_information(&lifelines, 10, 5, 5);
    let strokes = leaf_strokes(&leaf, &info, &lifelines, &positions, 0, 10, 200, 5, 10, 10);
    assert_eq!(
        strokes,
        vec![
            // the emission: towards the message's side, no arrowhead
            line(100, 21, 90, 21),
            // the reception, 21 + 10 + 6 lower
            Stroke { x0: 90, y0: 58, x1: 100, y1: 58, head: ArrowHead::Rightward },
            line(90, 21, 100, 21),
            line(90, 21, 90, 58),
        ]
    );
    let texts = leaf_texts(&leaf, &info, &lifelines, &positions, 0, 10, 200, 5, 10);
    let items: Vec<LeafText> = texts.iter().map(|t| t.item).collect();
    assert_eq!(items, vec![LeafText::OriginPostamble, LeafText::TargetPreamble(0), LeafText::Message]);
    assert_eq!((texts[1].x, texts[1].y, texts[1].y_anchor), (100, 58, TextAnchor::End));
}

#[test]
fn gates_get_stubs_and_stacked_labels() {
    let leaf: DrawableBroadcastLeafPattern<String, ()> = DrawableBroadcastLeafPattern::new(
        text("m"),
        (),
        DrawableBroadcastLeafPatternOrigin::InputOutsideGate(MeasuredText::new("in".to_owned(), 40, 30)),
        vec![(1, TargetLifelineBroadcastDrawInstruction::TwoParts(bare()))],
        vec![MeasuredText::new("g1".to_owned(), 20, 10), MeasuredText::new("g2".to_owned(), 20, 12)],
    );
    let lifelines = vec![0, 1];
    let positions = vec![50, 100];
    let info = leaf.get_intermediate_information(&lifelines, 10, 5, 5);
    // two targets counting the gates: short arrows on each end
    let strokes = leaf_strokes(&leaf, &info, &lifelines, &positions, 0, 30, 150, 5, 10, 10);
    assert_eq!(
        strokes,
        vec![
            Stroke { x0: 25, y0: 21, x1: 35, y1: 21, head: ArrowHead::Rightward },
            Stroke { x0: 90, y0: 21, x1: 100, y1: 21, head: ArrowHead::Rightward },
            Stroke { x0: 145, y0: 21, x1: 155, y1: 21, head: ArrowHead::Rightward },
        ]
    );
    let texts = leaf_texts(&leaf, &info, &lifelines, &positions, 0, 30, 150, 5, 10);
    let gates: Vec<(LeafText, i64)> = texts.iter().filter(|t| matches!(t.item, LeafText::OutputGate(_))).map(|t| (t.item, t.y)).collect();
    // the stack starts 18 above the midline, each gate followed by a margin
    assert_eq!(gates, vec![(LeafText::OutputGate(0), 21 - 18), (LeafText::OutputGate(1), 21 - 18 + 10 + 5)]);
}

#[test]
fn coregion_draws_ticks_on_its_lifelines() {
    let tree: DrawableInteraction<String, (), ()> = DrawableInteraction::Operator(
        DrawableOperator::new((), DrawableOperatorKind::CoRegionLike(vec![1])),
        vec![DrawableInteraction::Leaf(Some(message(0, 1)))],
    );
    let g = extract_drawing_information(vec![0, 1], vec![text("a"), text("b")], tree, 10, 5, 20);
    let op = &g.operators_to_draw[0];
    let ticks = operator_strokes(op, &g.lifelines, &g.lifelines_horizontal_positions, 0, 0, 5);
    let x = g.lifelines_horizontal_positions[1] as i64;
    let seps = &op.horizontal_seps_relative_vertical_positions;
    let (ys, ye) = (seps[0] as i64, seps[seps.len() - 1] as i64);
    assert_eq!(ticks.len(), 6);
    assert_eq!(ticks[0], line(x - 10, ys, x + 10, ys));
    assert_eq!(ticks[1], line(x - 10, ys, x - 10, ys + 5));
    assert_eq!(ticks[4], line(x - 10, ye, x - 10, ye - 5));
}

#[test]
fn odd_header_widths_keep_headers_apart() {
    let tree: DrawableInteraction<String, (), ()> = DrawableInteraction::Leaf(None);
    let g = extract_drawing_information(
        vec![0, 1],
        vec![MeasuredText::new("a".to_owned(), 101, 16), MeasuredText::new("b".to_owned(), 101, 16)],
        tree,
        10,
        1,
        20,
    );
    let gap = g.lifelines_horizontal_positions[1] - g.lifelines_horizontal_positions[0];
    // half of 101 rounds up to 51 on each side, plus the margin
    assert_eq!(gap, 51 + 1 + 51);
    assert!(2 * gap >= 101 + 101 + 2 * 1);
}

use vstd::prelude::*;

use crate::horizontal::MAX_DIM;
use crate::leaf::{DrawableBroadcastLeafPattern, DrawableBroadcastLeafPatternOrigin, TargetLifelineBroadcastDrawInstruction};
use crate::leaf_info::{
    continuous_arrow, leaf_wf, pos, position_of, target_midline_shift, BroadcastLeafPatternIntermediateInformation,
    LeafGeometry, LEAF_HEIGHT_BOUND,
};

verus! {

/// Largest coordinate handed to the painting plan; sums of a few of them and of
/// measured sizes stay within 64-bit signed coordinates.
pub const COORD_BOUND: u64 = 0x1000_0000_0000_0000;

/// Whether a line ends with an arrowhead, and which way it points.
#[derive(Clone, Copy, Debug, PartialEq, Eq, Structural)]
pub enum ArrowHead {
    Rightward,
    Leftward,
    NoHead,
}

/// A straight line from `(x0, y0)` to `(x1, y1)`, in absolute pixels.
#[derive(Clone, Copy, Debug, PartialEq, Eq, Structural)]
pub struct Stroke {
    pub x0: i64,
    pub y0: i64,
    pub x1: i64,
    pub y1: i64,
    pub head: ArrowHead,
}

/// An arrowhead points right exactly when the line runs left to right.
pub open spec fn head_of(xs: int, xe: int) -> ArrowHead {
    if xs < xe {
        ArrowHead::Rightward
    } else {
        ArrowHead::Leftward
    }
}

pub open spec fn line(x0: int, y0: int, x1: int, y1: int) -> Stroke {
    Stroke { x0: x0 as i64, y0: y0 as i64, x1: x1 as i64, y1: y1 as i64, head: ArrowHead::NoHead }
}

/// A horizontal arrow at height `y` from `xs` to `xe`, with its head at `xe`.
pub open spec fn arrow(xs: int, xe: int, y: int) -> Stroke {
    Stroke { x0: xs as i64, y0: y as i64, x1: xe as i64, y1: y as i64, head: head_of(xs, xe) }
}

pub fn line_stroke(x0: i64, y0: i64, x1: i64, y1: i64) -> (r: Stroke)
    ensures
        r == line(x0 as int, y0 as int, x1 as int, y1 as int),
{
    Stroke { x0, y0, x1, y1, head: ArrowHead::NoHead }
}

pub fn arrow_stroke(xs: i64, xe: i64, y: i64) -> (r: Stroke)
    ensures
        r == arrow(xs as int, xe as int, y as int),
{
    let head = if xs < xe { ArrowHead::Rightward } else { ArrowHead::Leftward };
    Stroke { x0: xs, y0: y, x1: xe, y1: y, head }
}

/// Horizontal position of lifeline `l`.
pub open spec fn xpos(lifelines: Seq<usize>, positions: Seq<u64>, l: usize) -> int {
    positions[pos(lifelines, l)] as int
}

/// One lifeline target, or the output gates alone.
pub open spec fn single_target<T, S>(leaf: DrawableBroadcastLeafPattern<T, S>) -> bool {
    leaf.lifeline_targets@.len() + (if leaf.output_outside_gates_targets@.len() > 0 { 1int } else { 0 }) == 1
}

/// The short arrow leaving the origin: across the diagram's left side for an input
/// gate; from a lifeline towards the message's side, without head when the lifeline
/// sends to itself alone.
pub open spec fn origin_strokes<T, S>(
    leaf: DrawableBroadcastLeafPattern<T, S>,
    info: LeafGeometry,
    lifelines: Seq<usize>,
    positions: Seq<u64>,
    mid: int,
    left_x: int,
    m: int,
    arrow_len: int,
) -> Seq<Stroke> {
    match leaf.origin {
        DrawableBroadcastLeafPatternOrigin::Empty => seq![],
        DrawableBroadcastLeafPatternOrigin::InputOutsideGate(_) => seq![arrow(left_x - m, left_x + m, mid)],
        DrawableBroadcastLeafPatternOrigin::Lifeline(o, _) => {
            let ox = xpos(lifelines, positions, o);
            let end = if info.location.draw_message_on_left { ox - arrow_len } else { ox + arrow_len };
            if single_target(leaf) {
                seq![line(ox, mid, end, mid)]
            } else {
                seq![arrow(ox, end, mid)]
            }
        },
    }
}

/// The short arrow into one target lifeline, at the target's own midline, from the
/// side `target_arrow_from_left` gives; for a reception on the sending lifeline, also
/// the link from the emission's midline down to it.
pub open spec fn target_strokes<T, S>(
    leaf: DrawableBroadcastLeafPattern<T, S>,
    info: LeafGeometry,
    lifelines: Seq<usize>,
    positions: Seq<u64>,
    mid: int,
    ys: u64,
    arrow_len: int,
    t: (usize, TargetLifelineBroadcastDrawInstruction<T>),
) -> Seq<Stroke> {
    let tx = xpos(lifelines, positions, t.0);
    let from_left = match leaf.origin {
        DrawableBroadcastLeafPatternOrigin::Lifeline(o, _) => if o == t.0 {
            info.location.draw_message_on_left
        } else {
            xpos(lifelines, positions, o) < tx
        },
        _ => true,
    };
    let start = if from_left { tx - arrow_len } else { tx + arrow_len };
    let shift = target_midline_shift(info.required_space_under_emission, t.0, t.1, ys);
    if shift > 0 {
        seq![arrow(start, tx, mid + shift), line(start, mid, tx, mid), line(start, mid, start, mid + shift)]
    } else {
        seq![arrow(start, tx, mid)]
    }
}

pub open spec fn targets_strokes<T, S>(
    leaf: DrawableBroadcastLeafPattern<T, S>,
    info: LeafGeometry,
    lifelines: Seq<usize>,
    positions: Seq<u64>,
    mid: int,
    ys: u64,
    arrow_len: int,
    ts: Seq<(usize, TargetLifelineBroadcastDrawInstruction<T>)>,
) -> Seq<Stroke>
    decreases ts.len(),
{
    if ts.len() == 0 {
        seq![]
    } else {
        targets_strokes(leaf, info, lifelines, positions, mid, ys, arrow_len, ts.drop_last()) + target_strokes(
            leaf,
            info,
            lifelines,
            positions,
            mid,
            ys,
            arrow_len,
            ts.last(),
        )
    }
}

/// The lines of one leaf whose top is at `y_top`: one arrow from origin to target at
/// the midline where `continuous_arrow` gives one; otherwise the origin's arrow, each
/// target's arrow, and an arrow across the right side for the output gates.
pub open spec fn leaf_strokes_spec<T, S>(
    leaf: DrawableBroadcastLeafPattern<T, S>,
    info: LeafGeometry,
    lifelines: Seq<usize>,
    positions: Seq<u64>,
    y_top: int,
    left_x: int,
    right_x: int,
    m: int,
    ys: u64,
    arrow_len: int,
) -> Seq<Stroke> {
    let mid = y_top + info.y_space_top_to_midline;
    match continuous_arrow(leaf) {
        Some(ca) => {
            let xs = match ca.origin {
                Some(o) => xpos(lifelines, positions, o),
                None => left_x,
            };
            let xe = match ca.target {
                Some(t) => xpos(lifelines, positions, t),
                None => right_x,
            };
            seq![arrow(xs, xe, mid)]
        },
        None => origin_strokes(leaf, info, lifelines, positions, mid, left_x, m, arrow_len) + targets_strokes(
            leaf,
            info,
            lifelines,
            positions,
            mid,
            ys,
            arrow_len,
            leaf.lifeline_targets@,
        ) + if leaf.output_outside_gates_targets@.len() > 0 {
            seq![arrow(right_x - m, right_x + m, mid)]
        } else {
            seq![]
        },
    }
}

/// What painting a leaf asks: lifelines without repeats, one position each, a leaf fit
/// for layout, and coordinates and sizes small enough for 64-bit arithmetic.
pub open spec fn leaf_paint_fits<T, S>(
    leaf: DrawableBroadcastLeafPattern<T, S>,
    info: LeafGeometry,
    lifelines: Seq<usize>,
    positions: Seq<u64>,
    y_top: u64,
    left_x: u64,
    right_x: u64,
    m: u64,
    ys: u64,
    arrow_len: u64,
) -> bool {
    &&& leaf_wf(leaf, lifelines)
    &&& positions.len() == lifelines.len()
    &&& forall|p: int| 0 <= p < positions.len() ==> #[trigger] positions[p] <= COORD_BOUND
    &&& y_top <= COORD_BOUND && left_x <= COORD_BOUND && right_x <= COORD_BOUND
    &&& m <= MAX_DIM && ys <= MAX_DIM && arrow_len <= MAX_DIM
    &&& 0 <= info.y_space_top_to_midline <= LEAF_HEIGHT_BOUND
    &&& 0 <= info.y_shift_above_midline_for_output_gates <= LEAF_HEIGHT_BOUND
    &&& -LEAF_HEIGHT_BOUND <= info.x_shift <= LEAF_HEIGHT_BOUND
    &&& lifelines.contains(info.location.anchor_lifeline)
    &&& info.required_space_under_emission matches Some((_, r)) ==> r <= 2 * MAX_DIM
}


fn x_of(lifelines: &Vec<usize>, positions: &Vec<u64>, l: usize) -> (r: i64)
    requires
        lifelines@.no_duplicates(),
        lifelines@.contains(l),
        positions@.len() == lifelines@.len(),
        forall|p: int| 0 <= p < positions@.len() ==> #[trigger] positions@[p] <= COORD_BOUND,
    ensures
        r as int == xpos(lifelines@, positions@, l),
        0 <= r <= COORD_BOUND,
{
    let p = position_of(lifelines, l);
    positions[p] as i64
}

/// The lines that paint one leaf whose top is at `y_top`.
pub fn leaf_strokes<T, S>(
    leaf: &DrawableBroadcastLeafPattern<T, S>,
    info: &BroadcastLeafPatternIntermediateInformation,
    lifelines: &Vec<usize>,
    positions: &Vec<u64>,
    y_top: u64,
    left_x: u64,
    right_x: u64,
    margin: u64,
    y_margin_between_seq_operands: u64,
    arrow_len: u64,
) -> (r: Vec<Stroke>)
    requires
        leaf_paint_fits(*leaf, info@, lifelines@, positions@, y_top, left_x, right_x, margin, y_margin_between_seq_operands, arrow_len),
    ensures
        r@ == leaf_strokes_spec(
            *leaf,
            info@,
            lifelines@,
            positions@,
            y_top as int,
            left_x as int,
            right_x as int,
            margin as int,
            y_margin_between_seq_operands,
            arrow_len as int,
        ),
{
    let ys = y_margin_between_seq_operands;
    let l = arrow_len as i64;
    let m = margin as i64;
    let mid = y_top as i64 + info.y_space_top_to_midline as i64;
    let mut r: Vec<Stroke> = Vec::new();
    match leaf.get_continuous_arrow() {
        Some(ca) => {
            let xs = match ca.origin {
                Some(o) => x_of(lifelines, positions, o),
                None => left_x as i64,
            };
            let xe = match ca.target {
                Some(t) => {
                    assert(leaf.lifeline_targets@.len() > 0);
                    assert(lifelines@.contains(leaf.lifeline_targets@[0].0));
                    x_of(lifelines, positions, t)
                },
                None => right_x as i64,
            };
            r.push(arrow_stroke(xs, xe, mid));
            assert(r@ =~= seq![arrow(xs as int, xe as int, mid as int)]);
            return r;
        },
        None => {},
    }
    let on_left = info.message_drawing_location.0.draw_message_on_left;
    let gates = leaf.output_outside_gates_targets.len();
    let single = if gates > 0 { leaf.lifeline_targets.len() == 0 } else { leaf.lifeline_targets.len() == 1 };
    let mut origin_x: u64 = 0;
    match &leaf.origin {
        DrawableBroadcastLeafPatternOrigin::Empty => {},
        DrawableBroadcastLeafPatternOrigin::InputOutsideGate(_) => {
            let lx = left_x as i64;
            r.push(arrow_stroke(lx - m, lx + m, mid));
        },
        DrawableBroadcastLeafPatternOrigin::Lifeline(o, _) => {
            let ox = x_of(lifelines, positions, *o);
            origin_x = ox as u64;
            let end = if on_left { ox - l } else { ox + l };
            if single {
                r.push(line_stroke(ox, mid, end, mid));
            } else {
                r.push(arrow_stroke(ox, end, mid));
            }
        },
    }
    let ghost origin_part = r@;
    assert(origin_part =~= origin_strokes(*leaf, info@, lifelines@, positions@, mid as int, left_x as int, m as int, l as int));
    let ghost ts = leaf.lifeline_targets@;
    let n = leaf.lifeline_targets.len();
    let mut k: usize = 0;
    assert(ts.take(0) =~= Seq::<(usize, TargetLifelineBroadcastDrawInstruction<T>)>::empty());
    assert(r@ =~= origin_part + targets_strokes(*leaf, info@, lifelines@, positions@, mid as int, ys, l as int, ts.take(0)));
    while k < n
        invariant
            k <= n,
            n == ts.len(),
            ts == leaf.lifeline_targets@,
            leaf_paint_fits(*leaf, info@, lifelines@, positions@, y_top, left_x, right_x, margin, ys, arrow_len),
            on_left == info@.location.draw_message_on_left,
            mid as int == y_top + info@.y_space_top_to_midline,
            l as int == arrow_len as int,
            leaf.origin matches DrawableBroadcastLeafPatternOrigin::Lifeline(o, _) ==> origin_x as int == xpos(
                lifelines@,
                positions@,
                o,
            ),
            r@ == origin_part + targets_strokes(*leaf, info@, lifelines@, positions@, mid as int, ys, l as int, ts.take(k as int)),
        decreases n - k,
    {
        let t = leaf.lifeline_targets[k].0;
        let act = &leaf.lifeline_targets[k].1;
        assert(lifelines@.contains(ts[k as int].0) && crate::leaf::target_ok(ts[k as int].1));
        let tx = x_of(lifelines, positions, t);
        let from_left = leaf.target_arrow_from_left(t, on_left, origin_x, tx as u64);
        let start = if from_left { tx - l } else { tx + l };
        let shift = info.get_target_midline_shift(t, act, ys) as i64;
        let ghost before = r@;
        if shift > 0 {
            r.push(arrow_stroke(start, tx, mid + shift));
            r.push(line_stroke(start, mid, tx, mid));
            r.push(line_stroke(start, mid, start, mid + shift));
        } else {
            r.push(arrow_stroke(start, tx, mid));
        }
        proof {
            assert(ts.take(k + 1).drop_last() =~= ts.take(k as int));
            assert(ts.take(k + 1).last() == ts[k as int]);
            assert(r@ =~= before + target_strokes(*leaf, info@, lifelines@, positions@, mid as int, ys, l as int, ts[k as int]));
        }
        k = k + 1;
    }
    assert(ts.take(n as int) =~= ts);
    let ghost with_targets = r@;
    if gates > 0 {
        let rx = right_x as i64;
        r.push(arrow_stroke(rx - m, rx + m, mid));
    }
    assert(r@ =~= with_targets + if gates > 0 {
        seq![arrow(right_x - margin, right_x + margin, mid as int)]
    } else {
        seq![]
    });
    r
}


/// Where a text box stands against its coordinate: starting at it, centred on it, or
/// ending at it.
#[derive(Clone, Copy, Debug, PartialEq, Eq, Structural)]
pub enum TextAnchor {
    Start,
    Centered,
    End,
}

/// Which text of a leaf; targets and output gates by their index in the leaf.
#[derive(Clone, Copy, Debug, PartialEq, Eq, Structural)]
pub enum LeafText {
    Message,
    InputGate,
    OriginPreamble,
    OriginPostamble,
    TargetPreamble(usize),
    TargetPostamble(usize),
    TargetCentered(usize),
    OutputGate(usize),
}

/// A text placed at `(x, y)`, anchored as given on each axis.
#[derive(Debug, PartialEq, Eq, Structural)]
pub struct TextAt<I> {
    pub item: I,
    pub x: i64,
    pub x_anchor: TextAnchor,
    pub y: i64,
    pub y_anchor: TextAnchor,
}

pub open spec fn text_at<I>(item: I, x: int, x_anchor: TextAnchor, y: int, y_anchor: TextAnchor) -> TextAt<I> {
    TextAt { item, x: x as i64, x_anchor, y: y as i64, y_anchor }
}

pub fn place_text<I>(item: I, x: i64, x_anchor: TextAnchor, y: i64, y_anchor: TextAnchor) -> (r: TextAt<I>)
    ensures
        r == text_at(item, x as int, x_anchor, y as int, y_anchor),
{
    TextAt { item, x, x_anchor, y, y_anchor }
}

/// The origin's texts: an input gate ends at the diagram's left side, centred on the
/// midline; a lifeline's preamble ends at the midline and its postamble starts there,
/// both centred on the lifeline.
pub open spec fn origin_texts<T, S>(
    leaf: DrawableBroadcastLeafPattern<T, S>,
    lifelines: Seq<usize>,
    positions: Seq<u64>,
    mid: int,
    left_x: int,
) -> Seq<TextAt<LeafText>> {
    match leaf.origin {
        DrawableBroadcastLeafPatternOrigin::Empty => seq![],
        DrawableBroadcastLeafPatternOrigin::InputOutsideGate(_) => seq![
            text_at(LeafText::InputGate, left_x, TextAnchor::End, mid, TextAnchor::Centered),
        ],
        DrawableBroadcastLeafPatternOrigin::Lifeline(o, a) => {
            let ox = xpos(lifelines, positions, o);
            (if a.preamble is Some {
                seq![text_at(LeafText::OriginPreamble, ox, TextAnchor::Centered, mid, TextAnchor::End)]
            } else {
                seq![]
            }) + (if a.postamble is Some {
                seq![text_at(LeafText::OriginPostamble, ox, TextAnchor::Centered, mid, TextAnchor::Start)]
            } else {
                seq![]
            })
        },
    }
}

/// The texts of target `k`, around its own midline and centred on its lifeline.
pub open spec fn target_texts<T, S>(
    leaf: DrawableBroadcastLeafPattern<T, S>,
    info: LeafGeometry,
    lifelines: Seq<usize>,
    positions: Seq<u64>,
    mid: int,
    ys: u64,
    k: int,
) -> Seq<TextAt<LeafText>> {
    let t = leaf.lifeline_targets@[k];
    let tx = xpos(lifelines, positions, t.0);
    let tm = mid + target_midline_shift(info.required_space_under_emission, t.0, t.1, ys);
    match t.1 {
        TargetLifelineBroadcastDrawInstruction::TwoParts(a) => (if a.preamble is Some {
            seq![text_at(LeafText::TargetPreamble(k as usize), tx, TextAnchor::Centered, tm, TextAnchor::End)]
        } else {
            seq![]
        }) + (if a.postamble is Some {
            seq![text_at(LeafText::TargetPostamble(k as usize), tx, TextAnchor::Centered, tm, TextAnchor::Start)]
        } else {
            seq![]
        }),
        TargetLifelineBroadcastDrawInstruction::Centered(_) => seq![
            text_at(LeafText::TargetCentered(k as usize), tx, TextAnchor::Centered, tm, TextAnchor::Centered),
        ],
    }
}

pub open spec fn targets_texts<T, S>(
    leaf: DrawableBroadcastLeafPattern<T, S>,
    info: LeafGeometry,
    lifelines: Seq<usize>,
    positions: Seq<u64>,
    mid: int,
    ys: u64,
    k: int,
) -> Seq<TextAt<LeafText>>
    decreases k,
{
    if k <= 0 {
        seq![]
    } else {
        targets_texts(leaf, info, lifelines, positions, mid, ys, k - 1) + target_texts(
            leaf,
            info,
            lifelines,
            positions,
            mid,
            ys,
            k - 1,
        )
    }
}

/// The vertical distance from the top of the output gates' column to the `k`-th one:
/// the heights of those listed before it, each plus a margin.
pub open spec fn gate_offset<T>(gs: Seq<crate::leaf::MeasuredText<T>>, m: int, k: int) -> int
    decreases k,
{
    if k <= 0 {
        0
    } else {
        gate_offset(gs, m, k - 1) + gs[k - 1].height + m
    }
}

/// The output gates, stacked downwards from their shift above the midline, starting
/// at the diagram's right side.
pub open spec fn gates_texts<T, S>(
    leaf: DrawableBroadcastLeafPattern<T, S>,
    info: LeafGeometry,
    mid: int,
    right_x: int,
    m: int,
    k: int,
) -> Seq<TextAt<LeafText>>
    decreases k,
{
    if k <= 0 {
        seq![]
    } else {
        gates_texts(leaf, info, mid, right_x, m, k - 1) + seq![
            text_at(
                LeafText::OutputGate((k - 1) as usize),
                right_x,
                TextAnchor::Start,
                mid - info.y_shift_above_midline_for_output_gates + gate_offset(
                    leaf.output_outside_gates_targets@,
                    m,
                    k - 1,
                ),
                TextAnchor::Start,
            ),
        ]
    }
}

/// The texts of one leaf whose top is at `y_top`: the origin's, each target's, the
/// output gates', and the message, centred on its anchor shifted by the leaf's offset
/// and ending one margin above the midline.
pub open spec fn leaf_texts_spec<T, S>(
    leaf: DrawableBroadcastLeafPattern<T, S>,
    info: LeafGeometry,
    lifelines: Seq<usize>,
    positions: Seq<u64>,
    y_top: int,
    left_x: int,
    right_x: int,
    m: int,
    ys: u64,
) -> Seq<TextAt<LeafText>> {
    let mid = y_top + info.y_space_top_to_midline;
    origin_texts(leaf, lifelines, positions, mid, left_x) + targets_texts(
        leaf,
        info,
        lifelines,
        positions,
        mid,
        ys,
        leaf.lifeline_targets@.len() as int,
    ) + gates_texts(leaf, info, mid, right_x, m, leaf.output_outside_gates_targets@.len() as int) + seq![
        text_at(
            LeafText::Message,
            xpos(lifelines, positions, info.location.anchor_lifeline) + info.x_shift,
            TextAnchor::Centered,
            mid - m,
            TextAnchor::End,
        ),
    ]
}

/// Where each text of one leaf whose top is at `y_top` is painted.
pub fn leaf_texts<T, S>(
    leaf: &DrawableBroadcastLeafPattern<T, S>,
    info: &BroadcastLeafPatternIntermediateInformation,
    lifelines: &Vec<usize>,
    positions: &Vec<u64>,
    y_top: u64,
    left_x: u64,
    right_x: u64,
    margin: u64,
    y_margin_between_seq_operands: u64,
) -> (r: Vec<TextAt<LeafText>>)
    requires
        leaf_paint_fits(*leaf, info@, lifelines@, positions@, y_top, left_x, right_x, margin, y_margin_between_seq_operands, 0),
    ensures
        r@ == leaf_texts_spec(
            *leaf,
            info@,
            lifelines@,
            positions@,
            y_top as int,
            left_x as int,
            right_x as int,
            margin as int,
            y_margin_between_seq_operands,
        ),
{
    let ys = y_margin_between_seq_operands;
    let m = margin as i64;
    let mid = y_top as i64 + info.y_space_top_to_midline as i64;
    let mut r: Vec<TextAt<LeafText>> = Vec::new();
    match &leaf.origin {
        DrawableBroadcastLeafPatternOrigin::Empty => {},
        DrawableBroadcastLeafPatternOrigin::InputOutsideGate(_) => {
            r.push(place_text(LeafText::InputGate, left_x as i64, TextAnchor::End, mid, TextAnchor::Centered));
        },
        DrawableBroadcastLeafPatternOrigin::Lifeline(o, a) => {
            let ox = x_of(lifelines, positions, *o);
            if a.preamble.is_some() {
                r.push(place_text(LeafText::OriginPreamble, ox, TextAnchor::Centered, mid, TextAnchor::End));
            }
            if a.postamble.is_some() {
                r.push(place_text(LeafText::OriginPostamble, ox, TextAnchor::Centered, mid, TextAnchor::Start));
            }
        },
    }
    let ghost origin_part = r@;
    assert(origin_part =~= origin_texts(*leaf, lifelines@, positions@, mid as int, left_x as int));
    let ghost ts = leaf.lifeline_targets@;
    let n = leaf.lifeline_targets.len();
    let mut k: usize = 0;
    assert(r@ =~= origin_part + targets_texts(*leaf, info@, lifelines@, positions@, mid as int, ys, 0));
    while k < n
        invariant
            k <= n,
            n == ts.len(),
            ts == leaf.lifeline_targets@,
            leaf_paint_fits(*leaf, info@, lifelines@, positions@, y_top, left_x, right_x, margin, ys, 0),
            mid as int == y_top + info@.y_space_top_to_midline,
            r@ == origin_part + targets_texts(*leaf, info@, lifelines@, positions@, mid as int, ys, k as int),
        decreases n - k,
    {
        let t = leaf.lifeline_targets[k].0;
        let act = &leaf.lifeline_targets[k].1;
        assert(lifelines@.contains(ts[k as int].0) && crate::leaf::target_ok(ts[k as int].1));
        let tx = x_of(lifelines, positions, t);
        let tm = mid + info.get_target_midline_shift(t, act, ys) as i64;
        let ghost before = r@;
        match act {
            TargetLifelineBroadcastDrawInstruction::TwoParts(a) => {
                if a.preamble.is_some() {
                    r.push(place_text(LeafText::TargetPreamble(k), tx, TextAnchor::Centered, tm, TextAnchor::End));
                }
                if a.postamble.is_some() {
                    r.push(place_text(LeafText::TargetPostamble(k), tx, TextAnchor::Centered, tm, TextAnchor::Start));
                }
            },
            TargetLifelineBroadcastDrawInstruction::Centered(_) => {
                r.push(place_text(LeafText::TargetCentered(k), tx, TextAnchor::Centered, tm, TextAnchor::Centered));
            },
        }
        assert(r@ =~= before + target_texts(*leaf, info@, lifelines@, positions@, mid as int, ys, k as int));
        k = k + 1;
    }
    let ghost with_targets = r@;
    let ghost gs = leaf.output_outside_gates_targets@;
    let gn = leaf.output_outside_gates_targets.len();
    let top = mid - info.y_shift_above_midline_for_output_gates as i64;
    let mut off: i64 = 0;
    let mut g: usize = 0;
    assert(r@ =~= with_targets + gates_texts(*leaf, info@, mid as int, right_x as int, m as int, 0));
    while g < gn
        invariant
            g <= gn,
            gn == gs.len(),
            gs == leaf.output_outside_gates_targets@,
            leaf_paint_fits(*leaf, info@, lifelines@, positions@, y_top, left_x, right_x, margin, ys, 0),
            mid as int == y_top + info@.y_space_top_to_midline,
            top as int == mid - info@.y_shift_above_midline_for_output_gates,
            m as int == margin as int,
            off as int == gate_offset(gs, m as int, g as int),
            0 <= off <= g * 0x200_0000,
            r@ == with_targets + gates_texts(*leaf, info@, mid as int, right_x as int, m as int, g as int),
        decreases gn - g,
    {
        assert(crate::leaf::text_ok(gs[g as int]));
        assert(g * 0x200_0000 <= 0x100_0000 * 0x200_0000) by (nonlinear_arith)
            requires
                g <= 0x100_0000,
        ;
        let ghost before = r@;
        r.push(place_text(LeafText::OutputGate(g), right_x as i64, TextAnchor::Start, top + off, TextAnchor::Start));
        assert(r@ =~= with_targets + gates_texts(*leaf, info@, mid as int, right_x as int, m as int, g + 1));
        off = off + leaf.output_outside_gates_targets[g].height as i64 + m;
        g = g + 1;
    }
    let ax = x_of(lifelines, positions, info.message_drawing_location.0.anchor_lifeline);
    let ghost before = r@;
    r.push(place_text(LeafText::Message, ax + info.message_drawing_location.1, TextAnchor::Centered, mid - m, TextAnchor::End));
    r
}


/// Absolute vertical position of separator `i`.
pub open spec fn sep_y(seps: Seq<u64>, y_shift: int, i: int) -> int {
    seps[i] + y_shift
}

/// The small bracket of a co-region at one lifeline: a tick at the top and bottom
/// boundaries, hooks pointing inwards, and at each inner boundary a tick with a short
/// vertical stub on either end.
pub open spec fn tick_strokes(seps: Seq<u64>, y_shift: int, x: int, nest: int, m: int) -> Seq<Stroke> {
    let xl = x + nest - 2 * m;
    let xr = x + 2 * m - nest;
    let ys = sep_y(seps, y_shift, 0);
    let ye = sep_y(seps, y_shift, seps.len() - 1);
    seq![
        line(xl, ys, xr, ys),
        line(xl, ys, xl, ys + m),
        line(xr, ys, xr, ys + m),
        line(xl, ye, xr, ye),
        line(xl, ye, xl, ye - m),
        line(xr, ye, xr, ye - m),
    ] + inner_ticks(seps, y_shift, xl, xr, m, seps.len() - 1)
}

/// The inner boundaries `1 .. k` of a co-region at one lifeline.
pub open spec fn inner_ticks(seps: Seq<u64>, y_shift: int, xl: int, xr: int, m: int, k: int) -> Seq<Stroke>
    decreases k,
{
    if k <= 1 {
        seq![]
    } else {
        let y = sep_y(seps, y_shift, k - 1);
        inner_ticks(seps, y_shift, xl, xr, m, k - 1) + seq![
            line(xl, y, xr, y),
            line(xl, y + m / 2, xl, y - m / 2),
            line(xr, y + m / 2, xr, y - m / 2),
        ]
    }
}

/// The brackets of a co-region at each of its first `k` lifelines that the diagram holds.
pub open spec fn coregion_strokes(
    lfs: Seq<usize>,
    lifelines: Seq<usize>,
    positions: Seq<u64>,
    seps: Seq<u64>,
    y_shift: int,
    nest: int,
    m: int,
    k: int,
) -> Seq<Stroke>
    decreases k,
{
    if k <= 0 {
        seq![]
    } else {
        coregion_strokes(lfs, lifelines, positions, seps, y_shift, nest, m, k - 1) + if lifelines.contains(
            lfs[k - 1],
        ) {
            tick_strokes(seps, y_shift, xpos(lifelines, positions, lfs[k - 1]), nest, m)
        } else {
            seq![]
        }
    }
}

/// Index of the first present entry from `i` on, or -1.
pub open spec fn first_some_from<A>(s: Seq<Option<A>>, i: int) -> int
    decreases s.len() - i,
{
    if i >= s.len() || i < 0 {
        -1
    } else if s[i] is Some {
        i
    } else {
        first_some_from(s, i + 1)
    }
}

/// Index of the last present entry before `k`, or -1.
pub open spec fn last_some_before<A>(s: Seq<Option<A>>, k: int) -> int
    decreases k,
{
    if k <= 0 {
        -1
    } else if s[k - 1] is Some {
        k - 1
    } else {
        last_some_before(s, k - 1)
    }
}

/// The frame's left and right sides: the leftmost and rightmost enclosed lifelines'
/// room, moved inwards by the nesting padding.
pub open spec fn frame_sides(
    enclosed: Seq<Option<crate::horizontal::LifelineRequiredHorizontalSpaceInDiagram>>,
    positions: Seq<u64>,
    nest: int,
) -> Option<(int, int)> {
    let lm = first_some_from(enclosed, 0);
    let rm = last_some_before(enclosed, enclosed.len() as int);
    if lm < 0 || rm < 0 {
        None
    } else {
        Some(
            (
                positions[lm] + nest - enclosed[lm]->0.on_the_left,
                positions[rm] + enclosed[rm]->0.on_the_right - nest,
            ),
        )
    }
}

/// The frame's inner separators `1 .. k`.
pub open spec fn frame_separators(seps: Seq<u64>, y_shift: int, xl: int, xr: int, k: int) -> Seq<Stroke>
    decreases k,
{
    if k <= 1 {
        seq![]
    } else {
        let y = sep_y(seps, y_shift, k - 1);
        frame_separators(seps, y_shift, xl, xr, k - 1) + seq![line(xl, y, xr, y)]
    }
}

/// The lines of an operator: a frame's four sides and inner separators, or a
/// co-region's brackets; nothing for a frame around no lifeline.
pub open spec fn operator_strokes_spec<T, C>(
    op: crate::operator::DrawableOperator<T, C>,
    enclosed: Seq<Option<crate::horizontal::LifelineRequiredHorizontalSpaceInDiagram>>,
    seps: Seq<u64>,
    lifelines: Seq<usize>,
    positions: Seq<u64>,
    y_shift: int,
    nest: int,
    m: int,
) -> Seq<Stroke> {
    match op.kind {
        crate::operator::DrawableOperatorKind::CoRegionLike(lfs) => coregion_strokes(
            lfs@,
            lifelines,
            positions,
            seps,
            y_shift,
            nest,
            m,
            lfs@.len() as int,
        ),
        crate::operator::DrawableOperatorKind::Framed(_) => match frame_sides(enclosed, positions, nest) {
            None => seq![],
            Some((xl, xr)) => {
                let ys = sep_y(seps, y_shift, 0);
                let ye = sep_y(seps, y_shift, seps.len() - 1);
                seq![line(xl, ys, xl, ye), line(xr, ys, xr, ye), line(xl, ys, xr, ys), line(xl, ye, xr, ye)]
                    + frame_separators(seps, y_shift, xl, xr, seps.len() - 1)
            },
        },
    }
}

/// What painting an operator asks: at least its top and bottom boundaries, one entry
/// per lifeline, and coordinates small enough for 64-bit arithmetic.
pub open spec fn operator_paint_fits(
    enclosed: Seq<Option<crate::horizontal::LifelineRequiredHorizontalSpaceInDiagram>>,
    seps: Seq<u64>,
    lifelines: Seq<usize>,
    positions: Seq<u64>,
    y_shift: u64,
    nest: u64,
    m: u64,
) -> bool {
    &&& seps.len() >= 2
    &&& lifelines.no_duplicates()
    &&& positions.len() == lifelines.len()
    &&& enclosed.len() == lifelines.len()
    &&& forall|p: int| 0 <= p < positions.len() ==> #[trigger] positions[p] <= COORD_BOUND
    &&& forall|i: int| 0 <= i < seps.len() ==> #[trigger] seps[i] <= COORD_BOUND
    &&& crate::horizontal::reqs_bounded(enclosed, crate::leaf_info::LEAF_REQ_BOUND)
    &&& y_shift <= COORD_BOUND && nest <= COORD_BOUND && m <= MAX_DIM
}

fn contains_lf(all: &Vec<usize>, l: usize) -> (r: bool)
    ensures
        r == all@.contains(l),
{
    let mut i: usize = 0;
    while i < all.len()
        invariant
            i <= all@.len(),
            forall|j: int| 0 <= j < i ==> all@[j] != l,
        decreases all@.len() - i,
    {
        if all[i] == l {
            return true;
        }
        i = i + 1;
    }
    false
}

fn push_ticks(r: &mut Vec<Stroke>, seps: &Vec<u64>, y_shift: u64, x: i64, nest: u64, m: u64)
    requires
        seps@.len() >= 2,
        forall|i: int| 0 <= i < seps@.len() ==> #[trigger] seps@[i] <= COORD_BOUND,
        y_shift <= COORD_BOUND,
        0 <= x <= COORD_BOUND,
        nest <= COORD_BOUND,
        m <= MAX_DIM,
    ensures
        final(r)@ == old(r)@ + tick_strokes(seps@, y_shift as int, x as int, nest as int, m as int),
{
    let mm = m as i64;
    let xl = x + nest as i64 - 2 * mm;
    let xr = x + 2 * mm - nest as i64;
    let n = seps.len();
    let ys = seps[0] as i64 + y_shift as i64;
    let ye = seps[n - 1] as i64 + y_shift as i64;
    let ghost start = r@;
    r.push(line_stroke(xl, ys, xr, ys));
    r.push(line_stroke(xl, ys, xl, ys + mm));
    r.push(line_stroke(xr, ys, xr, ys + mm));
    r.push(line_stroke(xl, ye, xr, ye));
    r.push(line_stroke(xl, ye, xl, ye - mm));
    r.push(line_stroke(xr, ye, xr, ye - mm));
    let ghost head = r@;
    let mut k: usize = 1;
    while k < n - 1
        invariant
            1 <= k <= n - 1,
            n == seps@.len(),
            forall|i: int| 0 <= i < seps@.len() ==> #[trigger] seps@[i] <= COORD_BOUND,
            y_shift <= COORD_BOUND,
            m <= MAX_DIM,
            mm as int == m as int,
            xl as int == x + nest - 2 * m,
            xr as int == x + 2 * m - nest,
            r@ == head + inner_ticks(seps@, y_shift as int, xl as int, xr as int, mm as int, k as int),
        decreases n - 1 - k,
    {
        let y = seps[k] as i64 + y_shift as i64;
        r.push(line_stroke(xl, y, xr, y));
        r.push(line_stroke(xl, y + mm / 2, xl, y - mm / 2));
        r.push(line_stroke(xr, y + mm / 2, xr, y - mm / 2));
        k = k + 1;
    }
    assert(r@ =~= start + tick_strokes(seps@, y_shift as int, x as int, nest as int, m as int));
}

/// The lines that paint one operator, its boundaries moved down by `y_shift` and its
/// sides moved inwards by `nest_padding`.
pub fn operator_strokes<T, C>(
    instruction: &crate::extract::CompleteOperatorDrawInstruction<T, C>,
    lifelines: &Vec<usize>,
    positions: &Vec<u64>,
    y_shift: u64,
    nest_padding: u64,
    margin: u64,
) -> (r: Vec<Stroke>)
    requires
        operator_paint_fits(
            instruction.enclosed_lfs_reqs@,
            instruction.horizontal_seps_relative_vertical_positions@,
            lifelines@,
            positions@,
            y_shift,
            nest_padding,
            margin,
        ),
    ensures
        r@ == operator_strokes_spec(
            instruction.drawable_op,
            instruction.enclosed_lfs_reqs@,
            instruction.horizontal_seps_relative_vertical_positions@,
            lifelines@,
            positions@,
            y_shift as int,
            nest_padding as int,
            margin as int,
        ),
{
    let seps = &instruction.horizontal_seps_relative_vertical_positions;
    let enclosed = &instruction.enclosed_lfs_reqs;
    let mut r: Vec<Stroke> = Vec::new();
    match &instruction.drawable_op.kind {
        crate::operator::DrawableOperatorKind::CoRegionLike(lfs) => {
            let mut k: usize = 0;
            while k < lfs.len()
                invariant
                    k <= lfs@.len(),
                    operator_paint_fits(enclosed@, seps@, lifelines@, positions@, y_shift, nest_padding, margin),
                    r@ == coregion_strokes(lfs@, lifelines@, positions@, seps@, y_shift as int, nest_padding as int, margin as int, k as int),
                decreases lfs@.len() - k,
            {
                if contains_lf(lifelines, lfs[k]) {
                    let x = x_of(lifelines, positions, lfs[k]);
                    push_ticks(&mut r, seps, y_shift, x, nest_padding, margin);
                }
                k = k + 1;
            }
            r
        },
        crate::operator::DrawableOperatorKind::Framed(_) => {
            let n = enclosed.len();
            let mut lm: usize = 0;
            while lm < n && enclosed[lm].is_none()
                invariant
                    lm <= n,
                    n == enclosed@.len(),
                    first_some_from(enclosed@, 0) == first_some_from(enclosed@, lm as int),
                decreases n - lm,
            {
                lm = lm + 1;
            }
            let mut rm: usize = n;
            while rm > 0 && enclosed[rm - 1].is_none()
                invariant
                    rm <= n,
                    n == enclosed@.len(),
                    last_some_before(enclosed@, n as int) == last_some_before(enclosed@, rm as int),
                decreases rm,
            {
                rm = rm - 1;
            }
            if lm >= n || rm == 0 {
                proof {
                    if lm >= n {
                        assert(first_some_from(enclosed@, lm as int) == -1);
                    } else {
                        assert(last_some_before(enclosed@, 0) == -1);
                    }
                }
                return r;
            }
            let (ll, rr) = match (enclosed[lm], enclosed[rm - 1]) {
                (Some(a), Some(b)) => (a, b),
                _ => {
                    return r;
                },
            };
            proof {
                assert(ll.on_the_left <= crate::leaf_info::LEAF_REQ_BOUND);
                assert(enclosed@[rm - 1] matches Some(q) ==> q.on_the_right <= crate::leaf_info::LEAF_REQ_BOUND);
            }
            let xl = positions[lm] as i64 + nest_padding as i64 - ll.on_the_left as i64;
            let xr = positions[rm - 1] as i64 + rr.on_the_right as i64 - nest_padding as i64;
            let sn = seps.len();
            let ys = seps[0] as i64 + y_shift as i64;
            let ye = seps[sn - 1] as i64 + y_shift as i64;
            r.push(line_stroke(xl, ys, xl, ye));
            r.push(line_stroke(xr, ys, xr, ye));
            r.push(line_stroke(xl, ys, xr, ys));
            r.push(line_stroke(xl, ye, xr, ye));
            let ghost head = r@;
            let mut k: usize = 1;
            while k < sn - 1
                invariant
                    1 <= k <= sn - 1,
                    sn == seps@.len(),
                    forall|i: int| 0 <= i < seps@.len() ==> #[trigger] seps@[i] <= COORD_BOUND,
                    y_shift <= COORD_BOUND,
                    r@ == head + frame_separators(seps@, y_shift as int, xl as int, xr as int, k as int),
                decreases sn - 1 - k,
            {
                let y = seps[k] as i64 + y_shift as i64;
                r.push(line_stroke(xl, y, xr, y));
                k = k + 1;
            }
            r
        },
    }
}

/// Where a frame's label is painted: one margin inside its top left corner.
pub fn operator_label_position<T, C>(
    instruction: &crate::extract::CompleteOperatorDrawInstruction<T, C>,
    positions: &Vec<u64>,
    y_shift: u64,
    nest_padding: u64,
    margin: u64,
) -> (r: Option<TextAt<()>>)
    requires
        instruction.horizontal_seps_relative_vertical_positions@.len() >= 1,
        instruction.horizontal_seps_relative_vertical_positions@[0] <= COORD_BOUND,
        positions@.len() == instruction.enclosed_lfs_reqs@.len(),
        forall|p: int| 0 <= p < positions@.len() ==> #[trigger] positions@[p] <= COORD_BOUND,
        crate::horizontal::reqs_bounded(instruction.enclosed_lfs_reqs@, crate::leaf_info::LEAF_REQ_BOUND),
        y_shift <= COORD_BOUND && nest_padding <= COORD_BOUND && margin <= MAX_DIM,
    ensures
        r == match frame_sides(instruction.enclosed_lfs_reqs@, positions@, nest_padding as int) {
            Some((xl, _)) => Some(
                text_at(
                    (),
                    xl + margin,
                    TextAnchor::Start,
                    sep_y(instruction.horizontal_seps_relative_vertical_positions@, y_shift as int, 0),
                    TextAnchor::Start,
                ),
            ),
            None => None,
        },
{
    let enclosed = &instruction.enclosed_lfs_reqs;
    let n = enclosed.len();
    let mut lm: usize = 0;
    while lm < n && enclosed[lm].is_none()
        invariant
            lm <= n,
            n == enclosed@.len(),
            first_some_from(enclosed@, 0) == first_some_from(enclosed@, lm as int),
        decreases n - lm,
    {
        lm = lm + 1;
    }
    let mut rm: usize = n;
    while rm > 0 && enclosed[rm - 1].is_none()
        invariant
            rm <= n,
            n == enclosed@.len(),
            last_some_before(enclosed@, n as int) == last_some_before(enclosed@, rm as int),
        decreases rm,
    {
        rm = rm - 1;
    }
    if lm >= n || rm == 0 {
        proof {
            if lm >= n {
                assert(first_some_from(enclosed@, lm as int) == -1);
            } else {
                assert(last_some_before(enclosed@, 0) == -1);
            }
        }
        return None;
    }
    match enclosed[lm] {
        Some(a) => {
            let xl = positions[lm] as i64 + nest_padding as i64 - a.on_the_left as i64;
            let y = instruction.horizontal_seps_relative_vertical_positions[0] as i64 + y_shift as i64;
            Some(place_text((), xl + margin as i64, TextAnchor::Start, y, TextAnchor::Start))
        },
        None => None,
    }
}

/// Each lifeline's vertical line, from the bottom of the headers down to one border
/// padding above the image's bottom.
pub open spec fn lifeline_strokes_spec(positions: Seq<u64>, y_shift: int, height: int, bp: int) -> Seq<Stroke> {
    Seq::new(positions.len(), |p: int| line(positions[p] as int, y_shift, positions[p] as int, height - bp))
}

/// Each header, centred on its lifeline and ending at the bottom of the header band.
pub open spec fn header_texts_spec(positions: Seq<u64>, y_shift: int) -> Seq<TextAt<usize>> {
    Seq::new(
        positions.len(),
        |p: int| text_at(p as usize, positions[p] as int, TextAnchor::Centered, y_shift, TextAnchor::End),
    )
}

pub fn lifeline_strokes<T, S, C>(g: &crate::finalize::CompleteInteractionDrawInstruction<T, S, C>, border_padding: u64) -> (r: Vec<Stroke>)
    requires
        forall|p: int| 0 <= p < g.lifelines_horizontal_positions@.len() ==> #[trigger] g.lifelines_horizontal_positions@[p]
            <= COORD_BOUND,
        g.y_shift_to_absolute <= COORD_BOUND && g.height <= COORD_BOUND && border_padding <= COORD_BOUND,
    ensures
        r@ == lifeline_strokes_spec(
            g.lifelines_horizontal_positions@,
            g.y_shift_to_absolute as int,
            g.height as int,
            border_padding as int,
        ),
{
    let ps = &g.lifelines_horizontal_positions;
    let mut r: Vec<Stroke> = Vec::new();
    let mut p: usize = 0;
    while p < ps.len()
        invariant
            p <= ps@.len(),
            forall|q: int| 0 <= q < ps@.len() ==> #[trigger] ps@[q] <= COORD_BOUND,
            g.y_shift_to_absolute <= COORD_BOUND && g.height <= COORD_BOUND && border_padding <= COORD_BOUND,
            r@ == lifeline_strokes_spec(ps@, g.y_shift_to_absolute as int, g.height as int, border_padding as int).take(
                p as int,
            ),
        decreases ps@.len() - p,
    {
        let x = ps[p] as i64;
        r.push(line_stroke(x, g.y_shift_to_absolute as i64, x, g.height as i64 - border_padding as i64));
        p = p + 1;
        assert(r@ =~= lifeline_strokes_spec(ps@, g.y_shift_to_absolute as int, g.height as int, border_padding as int).take(
            p as int,
        ));
    }
    assert(r@ =~= lifeline_strokes_spec(ps@, g.y_shift_to_absolute as int, g.height as int, border_padding as int));
    r
}

/// Where each lifeline's header is painted; the item is the lifeline's position.
pub fn header_texts<T, S, C>(g: &crate::finalize::CompleteInteractionDrawInstruction<T, S, C>) -> (r: Vec<TextAt<usize>>)
    requires
        forall|p: int| 0 <= p < g.lifelines_horizontal_positions@.len() ==> #[trigger] g.lifelines_horizontal_positions@[p]
            <= COORD_BOUND,
        g.y_shift_to_absolute <= COORD_BOUND,
    ensures
        r@ == header_texts_spec(g.lifelines_horizontal_positions@, g.y_shift_to_absolute as int),
{
    let ps = &g.lifelines_horizontal_positions;
    let mut r: Vec<TextAt<usize>> = Vec::new();
    let mut p: usize = 0;
    while p < ps.len()
        invariant
            p <= ps@.len(),
            forall|q: int| 0 <= q < ps@.len() ==> #[trigger] ps@[q] <= COORD_BOUND,
            g.y_shift_to_absolute <= COORD_BOUND,
            r@ == header_texts_spec(ps@, g.y_shift_to_absolute as int).take(p as int),
        decreases ps@.len() - p,
    {
        r.push(place_text(p, ps[p] as i64, TextAnchor::Centered, g.y_shift_to_absolute as i64, TextAnchor::End));
        p = p + 1;
        assert(r@ =~= header_texts_spec(ps@, g.y_shift_to_absolute as int).take(p as int));
    }
    assert(r@ =~= header_texts_spec(ps@, g.y_shift_to_absolute as int));
    r
}


fn all_within(v: &Vec<u64>, bound: u64) -> (r: bool)
    ensures
        r == forall|p: int| 0 <= p < v@.len() ==> #[trigger] v@[p] <= bound,
{
    let mut i: usize = 0;
    while i < v.len()
        invariant
            i <= v@.len(),
            forall|p: int| 0 <= p < i ==> #[trigger] v@[p] <= bound,
        decreases v@.len() - i,
    {
        if v[i] > bound {
            assert(!(v@[i as int] <= bound));
            return false;
        }
        i = i + 1;
    }
    true
}

/// Whether `leaf_strokes` and `leaf_texts` accept these arguments.
pub fn check_leaf_paint<T, S>(
    leaf: &DrawableBroadcastLeafPattern<T, S>,
    info: &BroadcastLeafPatternIntermediateInformation,
    lifelines: &Vec<usize>,
    positions: &Vec<u64>,
    y_top: u64,
    left_x: u64,
    right_x: u64,
    margin: u64,
    y_margin_between_seq_operands: u64,
    arrow_len: u64,
) -> (r: bool)
    ensures
        r == leaf_paint_fits(*leaf, info@, lifelines@, positions@, y_top, left_x, right_x, margin, y_margin_between_seq_operands, arrow_len),
{
    if !crate::context::check_distinct(lifelines) {
        return false;
    }
    let sizes_ok = positions.len() == lifelines.len() && all_within(positions, COORD_BOUND) && y_top <= COORD_BOUND
        && left_x <= COORD_BOUND && right_x <= COORD_BOUND && margin <= MAX_DIM && y_margin_between_seq_operands
        <= MAX_DIM && arrow_len <= MAX_DIM && info.y_space_top_to_midline <= LEAF_HEIGHT_BOUND
        && info.y_shift_above_midline_for_output_gates <= LEAF_HEIGHT_BOUND && -(LEAF_HEIGHT_BOUND as i64)
        <= info.message_drawing_location.1 && info.message_drawing_location.1 <= LEAF_HEIGHT_BOUND as i64;
    let rsue_ok = match info.required_space_under_emission {
        Some((_, req)) => req <= 2 * MAX_DIM,
        None => true,
    };
    sizes_ok && rsue_ok && crate::context::check_leaf(leaf, lifelines) && contains_lf(
        lifelines,
        info.message_drawing_location.0.anchor_lifeline,
    )
}

/// Whether `operator_strokes` accepts these arguments.
pub fn check_operator_paint<T, C>(
    instruction: &crate::extract::CompleteOperatorDrawInstruction<T, C>,
    lifelines: &Vec<usize>,
    positions: &Vec<u64>,
    y_shift: u64,
    nest_padding: u64,
    margin: u64,
) -> (r: bool)
    ensures
        r ==> operator_paint_fits(
            instruction.enclosed_lfs_reqs@,
            instruction.horizontal_seps_relative_vertical_positions@,
            lifelines@,
            positions@,
            y_shift,
            nest_padding,
            margin,
        ),
{
    let enclosed = &instruction.enclosed_lfs_reqs;
    let mut i: usize = 0;
    while i < enclosed.len()
        invariant
            i <= enclosed@.len(),
            forall|p: int| 0 <= p < i ==> (#[trigger] enclosed@[p] matches Some(q) ==> q.on_the_left
                <= crate::leaf_info::LEAF_REQ_BOUND && q.on_the_right <= crate::leaf_info::LEAF_REQ_BOUND),
        decreases enclosed@.len() - i,
    {
        match enclosed[i] {
            Some(q) => {
                if q.on_the_left > crate::leaf_info::LEAF_REQ_BOUND || q.on_the_right > crate::leaf_info::LEAF_REQ_BOUND {
                    assert(!(enclosed@[i as int] matches Some(q) ==> q.on_the_left <= crate::leaf_info::LEAF_REQ_BOUND
                        && q.on_the_right <= crate::leaf_info::LEAF_REQ_BOUND));
                    assert(!crate::horizontal::reqs_bounded(enclosed@, crate::leaf_info::LEAF_REQ_BOUND));
                    return false;
                }
            },
            None => {},
        }
        i = i + 1;
    }
    instruction.horizontal_seps_relative_vertical_positions.len() >= 2 && crate::context::check_distinct(lifelines)
        && positions.len() == lifelines.len() && enclosed.len() == lifelines.len() && all_within(positions, COORD_BOUND)
        && all_within(&instruction.horizontal_seps_relative_vertical_positions, COORD_BOUND) && y_shift <= COORD_BOUND
        && nest_padding <= COORD_BOUND && margin <= MAX_DIM
}

} // verus!

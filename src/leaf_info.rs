use vstd::prelude::*;

use crate::horizontal::{req_max, reqs_bounded, LifelineRequiredHorizontalSpaceInDiagram, MAX_DIM};
use crate::leaf::{prepost_sizes, target_ok, target_sizes, text_ok, opt_text_ok, DrawableBroadcastLeafPattern, DrawableBroadcastLeafPatternOrigin, MessageDrawingLocation, TargetLifelineBroadcastDrawInstruction};

verus! {

/// Bound on every requirement that one leaf places on a lifeline.
pub const LEAF_REQ_BOUND: u64 = 0x800_0000;

/// Bound on the vertical extent of one leaf.
pub const LEAF_HEIGHT_BOUND: u64 = 0x4_0000_0000_0000;

pub open spec fn imax(a: int, b: int) -> int {
    if a >= b { a } else { b }
}

/// Position of lifeline `l` in the diagram's left-to-right order.
pub open spec fn pos(all: Seq<usize>, l: usize) -> int {
    all.index_of(l)
}

pub open spec fn sym(v: int) -> LifelineRequiredHorizontalSpaceInDiagram {
    LifelineRequiredHorizontalSpaceInDiagram { on_the_left: v as u64, on_the_right: v as u64 }
}

/// Half of the widest annotation of an action, margin included.
pub open spec fn half_width(sz: (u64, u64, u64, u64), xm: u64) -> int {
    (imax(sz.0 as int, sz.2 as int) + xm) / 2
}

/// The least room granted on each side of a lifeline that a leaf touches.
pub open spec fn min_side(xm: u64) -> int {
    (5 * xm) / 2
}

/// Index of the last target on lifeline `l`, or -1.
pub open spec fn find_target<T>(
    ts: Seq<(usize, TargetLifelineBroadcastDrawInstruction<T>)>,
    l: usize,
) -> int
    decreases ts.len(),
{
    if ts.len() == 0 {
        -1
    } else if ts.last().0 == l {
        ts.len() - 1
    } else {
        find_target(ts.drop_last(), l)
    }
}

pub open spec fn targets_unique<T>(ts: Seq<(usize, TargetLifelineBroadcastDrawInstruction<T>)>) -> bool {
    forall|i: int, j: int| 0 <= i < j < ts.len() ==> ts[i].0 != ts[j].0
}

/// What the layout asks of a leaf: the lifelines it names are in the diagram, each
/// target lifeline occurs once, it has an origin lifeline or a target lifeline, and
/// every measured item stays under `MAX_DIM`.
pub open spec fn leaf_wf<T, S>(leaf: DrawableBroadcastLeafPattern<T, S>, all: Seq<usize>) -> bool {
    &&& all.no_duplicates()
    &&& text_ok(leaf.message)
    &&& match leaf.origin {
        DrawableBroadcastLeafPatternOrigin::Empty => leaf.lifeline_targets@.len() > 0,
        DrawableBroadcastLeafPatternOrigin::InputOutsideGate(g) => leaf.lifeline_targets@.len() > 0
            && text_ok(g),
        DrawableBroadcastLeafPatternOrigin::Lifeline(o, a) => all.contains(o) && opt_text_ok(
            a.preamble,
        ) && opt_text_ok(a.postamble),
    }
    &&& targets_unique(leaf.lifeline_targets@)
    &&& forall|i: int|
        0 <= i < leaf.lifeline_targets@.len() ==> all.contains(
            #[trigger] leaf.lifeline_targets@[i].0,
        ) && target_ok(leaf.lifeline_targets@[i].1)
    &&& leaf.output_outside_gates_targets@.len() <= MAX_DIM
    &&& forall|i: int|
        0 <= i < leaf.output_outside_gates_targets@.len() ==> text_ok(
            #[trigger] leaf.output_outside_gates_targets@[i],
        )
}

/// The half width of the origin's annotations, where the origin is a lifeline.
pub open spec fn origin_half_on<T, S>(
    leaf: DrawableBroadcastLeafPattern<T, S>,
    l: usize,
    xm: u64,
) -> Option<int> {
    match leaf.origin {
        DrawableBroadcastLeafPatternOrigin::Lifeline(o, a) => if o == l {
            Some(half_width(prepost_sizes(a), xm))
        } else {
            None
        },
        _ => None,
    }
}

/// The requirement that the leaf's own actions place on lifeline `l`, before the
/// message is placed: half the widest annotation plus margin, raised to the minimum.
/// A lifeline that both sends and receives keeps the larger of its two needs.
pub open spec fn base_req_at<T, S>(
    leaf: DrawableBroadcastLeafPattern<T, S>,
    ts: Seq<(usize, TargetLifelineBroadcastDrawInstruction<T>)>,
    l: usize,
    xm: u64,
) -> Option<LifelineRequiredHorizontalSpaceInDiagram> {
    let k = find_target(ts, l);
    let orig = origin_half_on(leaf, l, xm);
    if k >= 0 {
        let h = half_width(target_sizes(ts[k].1), xm);
        let h2 = match orig {
            Some(ho) => imax(h, ho),
            None => h,
        };
        Some(sym(imax(h2, min_side(xm))))
    } else {
        match orig {
            Some(ho) => Some(sym(imax(ho, min_side(xm)))),
            None => None,
        }
    }
}

pub open spec fn base_reqs<T, S>(
    leaf: DrawableBroadcastLeafPattern<T, S>,
    ts: Seq<(usize, TargetLifelineBroadcastDrawInstruction<T>)>,
    all: Seq<usize>,
    xm: u64,
) -> Seq<Option<LifelineRequiredHorizontalSpaceInDiagram>> {
    Seq::new(all.len(), |p: int| base_req_at(leaf, ts, all[p], xm))
}

pub open spec fn is_self_target<T, S>(leaf: DrawableBroadcastLeafPattern<T, S>, t: usize) -> bool {
    leaf.origin matches DrawableBroadcastLeafPatternOrigin::Lifeline(o, _) && o == t
}

/// Room kept under the midline for the emission, where the origin is a lifeline: past
/// its postamble by at least one pixel, and at least two margins.
pub open spec fn space_under_emission<T, S>(leaf: DrawableBroadcastLeafPattern<T, S>, ym: u64) -> int {
    match leaf.origin {
        DrawableBroadcastLeafPatternOrigin::Lifeline(_, a) => imax(prepost_sizes(a).3 + 1, 2 * ym),
        _ => 0,
    }
}

pub open spec fn target_top<T, S>(
    leaf: DrawableBroadcastLeafPattern<T, S>,
    t: (usize, TargetLifelineBroadcastDrawInstruction<T>),
) -> int {
    if is_self_target(leaf, t.0) {
        0
    } else {
        target_sizes(t.1).1 as int
    }
}

/// A reception on the sending lifeline is drawn under the emission, one operand
/// margin below the room kept for it.
pub open spec fn target_bottom<T, S>(
    leaf: DrawableBroadcastLeafPattern<T, S>,
    t: (usize, TargetLifelineBroadcastDrawInstruction<T>),
    ys: u64,
    ym: u64,
) -> int {
    let sz = target_sizes(t.1);
    if is_self_target(leaf, t.0) {
        space_under_emission(leaf, ym) + ys + sz.1 + sz.3 + ym
    } else {
        sz.3 as int
    }
}

pub open spec fn targets_top<T, S>(
    leaf: DrawableBroadcastLeafPattern<T, S>,
    ts: Seq<(usize, TargetLifelineBroadcastDrawInstruction<T>)>,
) -> int
    decreases ts.len(),
{
    if ts.len() == 0 {
        0
    } else {
        imax(targets_top(leaf, ts.drop_last()), target_top(leaf, ts.last()))
    }
}

pub open spec fn targets_bottom<T, S>(
    leaf: DrawableBroadcastLeafPattern<T, S>,
    ts: Seq<(usize, TargetLifelineBroadcastDrawInstruction<T>)>,
    ys: u64,
    ym: u64,
) -> int
    decreases ts.len(),
{
    if ts.len() == 0 {
        0
    } else {
        imax(targets_bottom(leaf, ts.drop_last(), ys, ym), target_bottom(leaf, ts.last(), ys, ym))
    }
}

pub open spec fn origin_top<T, S>(leaf: DrawableBroadcastLeafPattern<T, S>) -> int {
    match leaf.origin {
        DrawableBroadcastLeafPatternOrigin::Empty => 0,
        DrawableBroadcastLeafPatternOrigin::InputOutsideGate(g) => (g.height / 2) as int,
        DrawableBroadcastLeafPatternOrigin::Lifeline(_, a) => prepost_sizes(a).1 as int,
    }
}

pub open spec fn origin_bottom<T, S>(leaf: DrawableBroadcastLeafPattern<T, S>) -> int {
    match leaf.origin {
        DrawableBroadcastLeafPatternOrigin::Empty => 0,
        DrawableBroadcastLeafPatternOrigin::InputOutsideGate(g) => (g.height / 2) as int,
        DrawableBroadcastLeafPatternOrigin::Lifeline(_, a) => prepost_sizes(a).3 as int,
    }
}

/// Height of the stack of output gates, one margin above, between and below them.
pub open spec fn gates_stack<T>(gs: Seq<crate::leaf::MeasuredText<T>>, ym: u64) -> int
    decreases gs.len(),
{
    if gs.len() == 0 {
        ym as int
    } else {
        gates_stack(gs.drop_last(), ym) + gs.last().height + ym
    }
}

pub open spec fn gates_max_width<T>(gs: Seq<crate::leaf::MeasuredText<T>>) -> int
    decreases gs.len(),
{
    if gs.len() == 0 {
        0
    } else {
        imax(gates_max_width(gs.drop_last()), gs.last().width as int)
    }
}

pub open spec fn gates_half<T, S>(leaf: DrawableBroadcastLeafPattern<T, S>, ym: u64) -> int {
    if leaf.output_outside_gates_targets@.len() == 0 {
        0
    } else {
        gates_stack(leaf.output_outside_gates_targets@, ym) / 2
    }
}

pub open spec fn leaf_y_top<T, S>(leaf: DrawableBroadcastLeafPattern<T, S>, ym: u64) -> int {
    imax(
        imax(
            imax(leaf.message.height + ym, origin_top(leaf)),
            targets_top(leaf, leaf.lifeline_targets@),
        ),
        gates_half(leaf, ym),
    )
}

pub open spec fn leaf_y_bottom<T, S>(leaf: DrawableBroadcastLeafPattern<T, S>, ys: u64, ym: u64) -> int {
    imax(
        imax(imax(ym as int, origin_bottom(leaf)), targets_bottom(leaf, leaf.lifeline_targets@, ys, ym)),
        gates_half(leaf, ym),
    )
}

/// The target lifeline that stands furthest left.
pub open spec fn leftmost<T>(ts: Seq<(usize, TargetLifelineBroadcastDrawInstruction<T>)>, all: Seq<usize>) -> usize
    decreases ts.len(),
{
    if ts.len() <= 1 {
        ts[0].0
    } else {
        let r = leftmost(ts.drop_last(), all);
        if pos(all, ts.last().0) < pos(all, r) {
            ts.last().0
        } else {
            r
        }
    }
}

/// A message sent from a lifeline is written beside it: on its left exactly when
/// it has lifeline targets, all of them at or left of it, and no output gate.
/// Otherwise it is written on the left of the leftmost target.
pub open spec fn message_location<T, S>(leaf: DrawableBroadcastLeafPattern<T, S>, all: Seq<usize>) -> MessageDrawingLocation {
    match leaf.origin {
        DrawableBroadcastLeafPatternOrigin::Lifeline(o, _) => MessageDrawingLocation {
            anchor_lifeline: o,
            draw_message_on_left: leaf.lifeline_targets@.len() > 0 && (forall|i: int|
                0 <= i < leaf.lifeline_targets@.len() ==> pos(all, #[trigger] leaf.lifeline_targets@[i].0)
                    <= pos(all, o)) && leaf.output_outside_gates_targets@.len() == 0,
        },
        _ => MessageDrawingLocation {
            anchor_lifeline: leftmost(leaf.lifeline_targets@, all),
            draw_message_on_left: true,
        },
    }
}

/// The anchor's requirement from which the message's room is measured.
pub open spec fn anchor_prev<T, S>(
    leaf: DrawableBroadcastLeafPattern<T, S>,
    all: Seq<usize>,
    xm: u64,
) -> LifelineRequiredHorizontalSpaceInDiagram {
    match leaf.origin {
        DrawableBroadcastLeafPatternOrigin::Lifeline(_, a) => sym(half_width(prepost_sizes(a), xm)),
        _ => base_reqs(leaf, leaf.lifeline_targets@, all, xm)[pos(all, message_location(leaf, all).anchor_lifeline)]->0,
    }
}

pub open spec fn req_or_empty(r: Option<LifelineRequiredHorizontalSpaceInDiagram>) -> LifelineRequiredHorizontalSpaceInDiagram {
    match r {
        Some(x) => x,
        None => LifelineRequiredHorizontalSpaceInDiagram { on_the_left: 0, on_the_right: 0 },
    }
}

/// The requirements once the message is placed: half its width, plus a margin, goes
/// on the anchor's side and the other half on the neighbour facing it; with no such
/// neighbour the anchor takes the whole width.
pub open spec fn leaf_reqs<T, S>(
    leaf: DrawableBroadcastLeafPattern<T, S>,
    all: Seq<usize>,
    xm: u64,
) -> Seq<Option<LifelineRequiredHorizontalSpaceInDiagram>> {
    let base = base_reqs(leaf, leaf.lifeline_targets@, all, xm);
    let loc = message_location(leaf, all);
    let ia = pos(all, loc.anchor_lifeline);
    let prev = anchor_prev(leaf, all, xm);
    let cur = base[ia]->0;
    let w = leaf.message.width as int;
    if loc.draw_message_on_left {
        if ia > 0 {
            let nb = req_or_empty(base[ia - 1]);
            base.update(
                ia,
                Some(req_max(cur, LifelineRequiredHorizontalSpaceInDiagram {
                    on_the_left: (prev.on_the_left + xm + (w + 1) / 2) as u64,
                    on_the_right: prev.on_the_right,
                })),
            ).update(
                ia - 1,
                Some(LifelineRequiredHorizontalSpaceInDiagram {
                    on_the_left: nb.on_the_left,
                    on_the_right: (nb.on_the_right + xm + (w + 1) / 2) as u64,
                }),
            )
        } else {
            base.update(
                ia,
                Some(req_max(cur, LifelineRequiredHorizontalSpaceInDiagram {
                    on_the_left: (prev.on_the_left + xm + w) as u64,
                    on_the_right: prev.on_the_right,
                })),
            )
        }
    } else {
        if ia + 1 < all.len() {
            let nb = req_or_empty(base[ia + 1]);
            base.update(
                ia,
                Some(req_max(cur, LifelineRequiredHorizontalSpaceInDiagram {
                    on_the_left: prev.on_the_left,
                    on_the_right: (prev.on_the_right + xm + (w + 1) / 2) as u64,
                })),
            ).update(
                ia + 1,
                Some(LifelineRequiredHorizontalSpaceInDiagram {
                    on_the_left: (nb.on_the_left + xm + (w + 1) / 2) as u64,
                    on_the_right: nb.on_the_right,
                }),
            )
        } else {
            base.update(
                ia,
                Some(req_max(cur, LifelineRequiredHorizontalSpaceInDiagram {
                    on_the_left: prev.on_the_left,
                    on_the_right: (prev.on_the_right + xm + w) as u64,
                })),
            )
        }
    }
}

/// Horizontal offset of the message's centre from its anchor lifeline.
pub open spec fn message_x_shift<T, S>(leaf: DrawableBroadcastLeafPattern<T, S>, all: Seq<usize>, xm: u64) -> int {
    let prev = anchor_prev(leaf, all, xm);
    let w = leaf.message.width as int;
    if message_location(leaf, all).draw_message_on_left {
        0 - (prev.on_the_left + (w + 1) / 2 + xm)
    } else {
        prev.on_the_right + (w + 1) / 2 + xm
    }
}

pub open spec fn leaf_involved<T, S>(leaf: DrawableBroadcastLeafPattern<T, S>, all: Seq<usize>) -> Seq<bool> {
    Seq::new(
        all.len(),
        |p: int|
            origin_half_on(leaf, all[p], 0) is Some || find_target(leaf.lifeline_targets@, all[p]) >= 0,
    )
}

pub open spec fn leaf_rsue<T, S>(leaf: DrawableBroadcastLeafPattern<T, S>, ym: u64) -> Option<(usize, u64)> {
    match leaf.origin {
        DrawableBroadcastLeafPatternOrigin::Lifeline(o, _) => Some((o, space_under_emission(leaf, ym) as u64)),
        _ => None,
    }
}

pub open spec fn input_gate_width_of<T, S>(leaf: DrawableBroadcastLeafPattern<T, S>) -> int {
    match leaf.origin {
        DrawableBroadcastLeafPatternOrigin::InputOutsideGate(g) => g.width as int,
        _ => 0,
    }
}


/// The geometry of one leaf, in the mathematical model.
pub struct LeafGeometry {
    pub y_space_top_to_bottom: int,
    pub y_space_top_to_midline: int,
    pub location: MessageDrawingLocation,
    pub x_shift: int,
    pub involved: Seq<bool>,
    pub reqs: Seq<Option<LifelineRequiredHorizontalSpaceInDiagram>>,
    pub required_space_under_emission: Option<(usize, u64)>,
    pub input_gate_width: int,
    pub output_gates_max_width: int,
    pub y_shift_above_midline_for_output_gates: int,
}

/// What the layout derives from one leaf: its vertical extent and midline, where its
/// message goes, which lifelines it involves and what it asks of them horizontally.
pub open spec fn leaf_geometry<T, S>(
    leaf: DrawableBroadcastLeafPattern<T, S>,
    all: Seq<usize>,
    ys: u64,
    xm: u64,
    ym: u64,
) -> LeafGeometry {
    let top = leaf_y_top(leaf, ym);
    LeafGeometry {
        y_space_top_to_bottom: top + leaf_y_bottom(leaf, ys, ym),
        y_space_top_to_midline: top,
        location: message_location(leaf, all),
        x_shift: message_x_shift(leaf, all, xm),
        involved: leaf_involved(leaf, all),
        reqs: leaf_reqs(leaf, all, xm),
        required_space_under_emission: leaf_rsue(leaf, ym),
        input_gate_width: input_gate_width_of(leaf),
        output_gates_max_width: gates_max_width(leaf.output_outside_gates_targets@),
        y_shift_above_midline_for_output_gates: gates_half(leaf, ym),
    }
}

/// Intermediate information on one leaf, produced once during extraction.
pub struct BroadcastLeafPatternIntermediateInformation {
    /// total height of the leaf
    pub y_space_top_to_bottom: u64,
    /// from the top of the leaf to the line on which its arrow is drawn
    pub y_space_top_to_midline: u64,
    /// where to write the message, and the horizontal offset of its centre
    pub message_drawing_location: (MessageDrawingLocation, i64),
    /// by position in the diagram: whether the leaf names that lifeline
    pub involved_lifelines: Vec<bool>,
    /// by position in the diagram: the room the leaf needs around that lifeline
    pub lifelines_horizontal_requirements: Vec<Option<LifelineRequiredHorizontalSpaceInDiagram>>,
    /// for a sending lifeline, the room kept under its emission
    pub required_space_under_emission: Option<(usize, u64)>,
    pub input_gate_width: u64,
    pub output_gates_max_width: u64,
    /// how far above the midline the stack of output gates starts
    pub y_shift_above_midline_for_output_gates: u64,
}

impl BroadcastLeafPatternIntermediateInformation {
    pub fn new(
        y_space_top_to_bottom: u64,
        y_space_top_to_midline: u64,
        message_drawing_location: (MessageDrawingLocation, i64),
        involved_lifelines: Vec<bool>,
        lifelines_horizontal_requirements: Vec<Option<LifelineRequiredHorizontalSpaceInDiagram>>,
        required_space_under_emission: Option<(usize, u64)>,
        input_gate_width: u64,
        output_gates_max_width: u64,
        y_shift_above_midline_for_output_gates: u64,
    ) -> (r: Self)
        ensures
            r.y_space_top_to_bottom == y_space_top_to_bottom,
            r.y_space_top_to_midline == y_space_top_to_midline,
            r.message_drawing_location == message_drawing_location,
            r.involved_lifelines == involved_lifelines,
            r.lifelines_horizontal_requirements == lifelines_horizontal_requirements,
            r.required_space_under_emission == required_space_under_emission,
            r.input_gate_width == input_gate_width,
            r.output_gates_max_width == output_gates_max_width,
            r.y_shift_above_midline_for_output_gates == y_shift_above_midline_for_output_gates,
    {
        BroadcastLeafPatternIntermediateInformation {
            y_space_top_to_bottom,
            y_space_top_to_midline,
            message_drawing_location,
            involved_lifelines,
            lifelines_horizontal_requirements,
            required_space_under_emission,
            input_gate_width,
            output_gates_max_width,
            y_shift_above_midline_for_output_gates,
        }
    }
}

impl View for BroadcastLeafPatternIntermediateInformation {
    type V = LeafGeometry;

    open spec fn view(&self) -> LeafGeometry {
        LeafGeometry {
            y_space_top_to_bottom: self.y_space_top_to_bottom as int,
            y_space_top_to_midline: self.y_space_top_to_midline as int,
            location: self.message_drawing_location.0,
            x_shift: self.message_drawing_location.1 as int,
            involved: self.involved_lifelines@,
            reqs: self.lifelines_horizontal_requirements@,
            required_space_under_emission: self.required_space_under_emission,
            input_gate_width: self.input_gate_width as int,
            output_gates_max_width: self.output_gates_max_width as int,
            y_shift_above_midline_for_output_gates: self.y_shift_above_midline_for_output_gates as int,
        }
    }
}

pub proof fn lemma_index_of_unique(all: Seq<usize>, i: int)
    requires
        all.no_duplicates(),
        0 <= i < all.len(),
    ensures
        pos(all, all[i]) == i,
{
    assert(all.contains(all[i]));
    let j = all.index_of(all[i]);
    assert(0 <= j < all.len() && all[j] == all[i]);
}

proof fn lemma_find_target_step<T>(ts: Seq<(usize, TargetLifelineBroadcastDrawInstruction<T>)>, k: int, l: usize)
    requires
        0 <= k < ts.len(),
    ensures
        find_target(ts.take(k + 1), l) == if ts[k].0 == l {
            k
        } else {
            find_target(ts.take(k), l)
        },
{
    assert(ts.take(k + 1).drop_last() =~= ts.take(k));
}

proof fn lemma_find_target_range<T>(ts: Seq<(usize, TargetLifelineBroadcastDrawInstruction<T>)>, l: usize)
    ensures
        -1 <= find_target(ts, l) < ts.len(),
        find_target(ts, l) >= 0 ==> ts[find_target(ts, l)].0 == l,
    decreases ts.len(),
{
    if ts.len() > 0 {
        lemma_find_target_range(ts.drop_last(), l);
    }
}

proof fn lemma_find_target_absent<T>(ts: Seq<(usize, TargetLifelineBroadcastDrawInstruction<T>)>, l: usize)
    requires
        forall|i: int| 0 <= i < ts.len() ==> ts[i].0 != l,
    ensures
        find_target(ts, l) == -1,
    decreases ts.len(),
{
    if ts.len() > 0 {
        lemma_find_target_absent(ts.drop_last(), l);
    }
}

proof fn lemma_find_target_present<T>(ts: Seq<(usize, TargetLifelineBroadcastDrawInstruction<T>)>, i: int)
    requires
        targets_unique(ts),
        0 <= i < ts.len(),
    ensures
        find_target(ts, ts[i].0) == i,
    decreases ts.len(),
{
    if i < ts.len() - 1 {
        lemma_find_target_present(ts.drop_last(), i);
    }
}

pub(crate) fn position_of(all: &Vec<usize>, l: usize) -> (r: usize)
    requires
        all@.no_duplicates(),
        all@.contains(l),
    ensures
        r < all@.len(),
        all@[r as int] == l,
        r as int == pos(all@, l),
{
    let mut i: usize = 0;
    while i < all.len()
        invariant
            i <= all@.len(),
            forall|j: int| 0 <= j < i ==> all@[j] != l,
            all@.contains(l),
            all@.no_duplicates(),
        decreases all@.len() - i,
    {
        if all[i] == l {
            proof {
                lemma_index_of_unique(all@, i as int);
            }
            return i;
        }
        i = i + 1;
    }
    proof {
        let j = choose|j: int| 0 <= j < all@.len() && all@[j] == l;
        assert(all@[j] != l);
    }
    0
}

fn max64(a: u64, b: u64) -> (r: u64)
    ensures
        r as int == imax(a as int, b as int),
{
    if a >= b { a } else { b }
}


fn none_reqs(n: usize) -> (r: Vec<Option<LifelineRequiredHorizontalSpaceInDiagram>>)
    ensures
        r@.len() == n,
        forall|i: int| 0 <= i < n ==> r@[i] is None,
{
    let mut r: Vec<Option<LifelineRequiredHorizontalSpaceInDiagram>> = Vec::new();
    let mut i: usize = 0;
    while i < n
        invariant
            i <= n,
            r@.len() == i,
            forall|j: int| 0 <= j < i ==> r@[j] is None,
        decreases n - i,
    {
        r.push(None);
        i = i + 1;
    }
    r
}

fn false_flags(n: usize) -> (r: Vec<bool>)
    ensures
        r@.len() == n,
        forall|i: int| 0 <= i < n ==> !r@[i],
{
    let mut r: Vec<bool> = Vec::new();
    let mut i: usize = 0;
    while i < n
        invariant
            i <= n,
            r@.len() == i,
            forall|j: int| 0 <= j < i ==> !r@[j],
        decreases n - i,
    {
        r.push(false);
        i = i + 1;
    }
    r
}

impl<T, S> DrawableBroadcastLeafPattern<T, S> {
    /// The requirements of the leaf's own actions, and the lifelines it names.
    fn base_requirements(&self, all: &Vec<usize>, xm: u64) -> (r: (
        Vec<Option<LifelineRequiredHorizontalSpaceInDiagram>>,
        Vec<bool>,
    ))
        requires
            leaf_wf(*self, all@),
            xm <= MAX_DIM,
        ensures
            r.0@ == base_reqs(*self, self.lifeline_targets@, all@, xm),
            r.1@ == leaf_involved(*self, all@),
    {
        let n = all.len();
        let ts = Ghost(self.lifeline_targets@);
        let min_v: u64 = (5 * xm) / 2;
        let mut reqs = none_reqs(n);
        let mut involved = false_flags(n);
        let mut orig_half: Option<(usize, u64)> = None;
        match &self.origin {
            DrawableBroadcastLeafPatternOrigin::Lifeline(o, a) => {
                let (pw, _ph, qw, _qh) = a.get_size_around_midline();
                let half = (max64(pw, qw) + xm) / 2;
                let po = position_of(all, *o);
                reqs.set(po, Some(LifelineRequiredHorizontalSpaceInDiagram::new(max64(half, min_v), max64(half, min_v))));
                involved.set(po, true);
                orig_half = Some((*o, half));
                proof {
                    assert forall|p: int| 0 <= p < n implies all@[p] == *o <==> p == po by {
                        if all@[p] == *o && p != po {
                            assert(all@[p] == all@[po as int]);
                        }
                    }
                }
            },
            _ => {},
        }
        assert(ts@.take(0) =~= Seq::<(usize, TargetLifelineBroadcastDrawInstruction<T>)>::empty());
        assert(reqs@ =~= base_reqs(*self, ts@.take(0), all@, xm));
        let tn = self.lifeline_targets.len();
        let mut k: usize = 0;
        while k < tn
            invariant
                k <= tn,
                tn == ts@.len(),
                ts@ == self.lifeline_targets@,
                n == all@.len(),
                leaf_wf(*self, all@),
                xm <= MAX_DIM,
                min_v as int == min_side(xm),
                reqs@ == base_reqs(*self, ts@.take(k as int), all@, xm),
                involved@.len() == n,
                forall|p: int|
                    0 <= p < n ==> involved@[p] == (origin_half_on(*self, all@[p], 0) is Some
                        || find_target(ts@.take(k as int), all@[p]) >= 0),
                orig_half == match self.origin {
                    DrawableBroadcastLeafPatternOrigin::Lifeline(o, a) => Some(
                        (o, half_width(prepost_sizes(a), xm) as u64),
                    ),
                    _ => None,
                },
            decreases tn - k,
        {
            let t = self.lifeline_targets[k].0;
            let (pw, _ph, qw, _qh) = self.lifeline_targets[k].1.get_size_around_midline();
            let half = (max64(pw, qw) + xm) / 2;
            assert(all@.contains(ts@[k as int].0));
            let q = position_of(all, t);
            let mut new_v = half;
            match orig_half {
                Some((o, h)) => {
                    if o == t {
                        new_v = max64(new_v, h);
                    }
                },
                None => {},
            }
            new_v = max64(new_v, min_v);
            reqs.set(q, Some(LifelineRequiredHorizontalSpaceInDiagram::new(new_v, new_v)));
            involved.set(q, true);
            proof {
                assert forall|p: int| 0 <= p < n implies reqs@[p] == base_req_at(*self, ts@.take(k + 1), all@[p], xm) by {
                    lemma_find_target_step(ts@, k as int, all@[p]);
                    if p == q {
                        assert(ts@.take(k + 1)[k as int] == ts@[k as int]);
                        assert(find_target(ts@.take(k + 1), all@[p]) == k);
                        let hh = half_width(target_sizes(ts@[k as int].1), xm);
                        assert(hh == half as int);
                        let h2 = match origin_half_on(*self, all@[p], xm) {
                            Some(ho) => imax(hh, ho),
                            None => hh,
                        };
                        assert(h2 <= MAX_DIM);
                        assert(imax(h2, min_side(xm)) == new_v as int);
                        assert(Some(sym(imax(h2, min_side(xm)))) == reqs@[p]);
                    } else {
                        assert(all@[p] != all@[q as int]);
                        let j = find_target(ts@.take(k as int), all@[p]);
                        lemma_find_target_range(ts@.take(k as int), all@[p]);
                        if j >= 0 {
                            assert(ts@.take(k + 1)[j] == ts@.take(k as int)[j]);
                        }
                    }
                }
                assert forall|p: int| 0 <= p < n implies involved@[p] == (origin_half_on(*self, all@[p], 0) is Some
                        || find_target(ts@.take(k + 1), all@[p]) >= 0) by {
                    lemma_find_target_step(ts@, k as int, all@[p]);
                    if p != q {
                        assert(all@[p] != all@[q as int]);
                    }
                }
                assert(reqs@ =~= base_reqs(*self, ts@.take(k + 1), all@, xm));
            }
            k = k + 1;
        }
        assert(ts@.take(tn as int) =~= ts@);
        assert(involved@ =~= leaf_involved(*self, all@));
        (reqs, involved)
    }
}


proof fn lemma_targets_step<T, S>(
    leaf: DrawableBroadcastLeafPattern<T, S>,
    ts: Seq<(usize, TargetLifelineBroadcastDrawInstruction<T>)>,
    k: int,
    ys: u64,
    ym: u64,
)
    requires
        0 <= k < ts.len(),
    ensures
        targets_top(leaf, ts.take(k + 1)) == imax(targets_top(leaf, ts.take(k)), target_top(leaf, ts[k])),
        targets_bottom(leaf, ts.take(k + 1), ys, ym) == imax(
            targets_bottom(leaf, ts.take(k), ys, ym),
            target_bottom(leaf, ts[k], ys, ym),
        ),
{
    assert(ts.take(k + 1).drop_last() =~= ts.take(k));
}

proof fn lemma_gates_step<T>(gs: Seq<crate::leaf::MeasuredText<T>>, k: int, ym: u64)
    requires
        0 <= k < gs.len(),
    ensures
        gates_stack(gs.take(k + 1), ym) == gates_stack(gs.take(k), ym) + gs[k].height + ym,
        gates_max_width(gs.take(k + 1)) == imax(gates_max_width(gs.take(k)), gs[k].width as int),
{
    assert(gs.take(k + 1).drop_last() =~= gs.take(k));
}

impl<T, S> DrawableBroadcastLeafPattern<T, S> {
    /// Room above and below the midline, the start of the output gate stack above the
    /// midline, and the widest output gate.
    fn vertical_spans(&self, ys: u64, ym: u64) -> (r: (u64, u64, u64, u64))
        requires
            text_ok(self.message),
            match self.origin {
                DrawableBroadcastLeafPatternOrigin::Empty => true,
                DrawableBroadcastLeafPatternOrigin::InputOutsideGate(g) => text_ok(g),
                DrawableBroadcastLeafPatternOrigin::Lifeline(_, a) => opt_text_ok(a.preamble)
                    && opt_text_ok(a.postamble),
            },
            forall|i: int|
                0 <= i < self.lifeline_targets@.len() ==> target_ok(#[trigger] self.lifeline_targets@[i].1),
            self.output_outside_gates_targets@.len() <= MAX_DIM,
            forall|i: int|
                0 <= i < self.output_outside_gates_targets@.len() ==> text_ok(
                    #[trigger] self.output_outside_gates_targets@[i],
                ),
            ys <= MAX_DIM,
            ym <= MAX_DIM,
        ensures
            r.0 as int == leaf_y_top(*self, ym),
            r.1 as int == leaf_y_bottom(*self, ys, ym),
            r.2 as int == gates_half(*self, ym),
            r.3 as int == gates_max_width(self.output_outside_gates_targets@),
            r.0 as int + r.1 as int <= LEAF_HEIGHT_BOUND,
            r.3 <= MAX_DIM,
    {
        let mut y_top: u64 = self.message.height + ym;
        let mut y_bot: u64 = ym;
        let mut under_emission: u64 = 0;
        let mut origin_lf: Option<usize> = None;
        match &self.origin {
            DrawableBroadcastLeafPatternOrigin::Empty => {},
            DrawableBroadcastLeafPatternOrigin::InputOutsideGate(g) => {
                y_top = max64(y_top, g.height / 2);
                y_bot = max64(y_bot, g.height / 2);
            },
            DrawableBroadcastLeafPatternOrigin::Lifeline(o, a) => {
                let (_pw, ph, _qw, qh) = a.get_size_around_midline();
                y_top = max64(y_top, ph);
                y_bot = max64(y_bot, qh);
                under_emission = max64(qh + 1, 2 * ym);
                origin_lf = Some(*o);
            },
        }
        let ts = Ghost(self.lifeline_targets@);
        let tn = self.lifeline_targets.len();
        let mut k: usize = 0;
        while k < tn
            invariant
                k <= tn,
                tn == ts@.len(),
                ts@ == self.lifeline_targets@,
                forall|i: int| 0 <= i < ts@.len() ==> target_ok(#[trigger] ts@[i].1),
                ys <= MAX_DIM,
                ym <= MAX_DIM,
                under_emission as int == space_under_emission(*self, ym),
                under_emission <= 2 * MAX_DIM,
                origin_lf == match self.origin {
                    DrawableBroadcastLeafPatternOrigin::Lifeline(o, _) => Some(o),
                    _ => None,
                },
                y_top as int == imax(
                    imax(self.message.height + ym, origin_top(*self)),
                    targets_top(*self, ts@.take(k as int)),
                ),
                y_bot as int == imax(
                    imax(ym as int, origin_bottom(*self)),
                    targets_bottom(*self, ts@.take(k as int), ys, ym),
                ),
                y_top <= 6 * MAX_DIM,
                y_bot <= 6 * MAX_DIM,
            decreases tn - k,
        {
            let t = self.lifeline_targets[k].0;
            let (_pw, ph, _qw, qh) = self.lifeline_targets[k].1.get_size_around_midline();
            assert(target_ok(ts@[k as int].1));
            let mut up_top = ph;
            let mut up_bot = qh;
            if origin_lf == Some(t) {
                up_top = 0;
                up_bot = under_emission + ys + ph + qh + ym;
            }
            y_top = max64(y_top, up_top);
            y_bot = max64(y_bot, up_bot);
            proof {
                lemma_targets_step(*self, ts@, k as int, ys, ym);
            }
            k = k + 1;
        }
        assert(ts@.take(tn as int) =~= ts@);
        let gs = Ghost(self.output_outside_gates_targets@);
        let gn = self.output_outside_gates_targets.len();
        let mut out_w: u64 = 0;
        let mut shift: u64 = 0;
        if gn > 0 {
            let mut stacked: u64 = ym;
            let mut i: usize = 0;
            assert(gs@.take(0) =~= Seq::<crate::leaf::MeasuredText<T>>::empty());
            while i < gn
                invariant
                    i <= gn,
                    gn == gs@.len(),
                    gn <= MAX_DIM,
                    gs@ == self.output_outside_gates_targets@,
                    forall|j: int| 0 <= j < gs@.len() ==> text_ok(#[trigger] gs@[j]),
                    ym <= MAX_DIM,
                    stacked as int == gates_stack(gs@.take(i as int), ym),
                    out_w as int == gates_max_width(gs@.take(i as int)),
                    stacked <= ym + i * 0x200_0000,
                    out_w <= MAX_DIM,
                decreases gn - i,
            {
                let g = &self.output_outside_gates_targets[i];
                assert(text_ok(gs@[i as int]));
                assert(i * 0x200_0000 <= 0x100_0000 * 0x200_0000) by (nonlinear_arith)
                    requires
                        i <= 0x100_0000,
                ;
                out_w = max64(out_w, g.width);
                stacked = stacked + g.height + ym;
                proof {
                    lemma_gates_step(gs@, i as int, ym);
                }
                i = i + 1;
            }
            assert(gs@.take(gn as int) =~= gs@);
            shift = stacked / 2;
            y_top = max64(y_top, shift);
            y_bot = max64(y_bot, shift);
        }
        (y_top, y_bot, shift, out_w)
    }
}


proof fn lemma_base_bounded<T, S>(leaf: DrawableBroadcastLeafPattern<T, S>, all: Seq<usize>, xm: u64)
    requires
        leaf_wf(leaf, all),
        xm <= MAX_DIM,
    ensures
        reqs_bounded(base_reqs(leaf, leaf.lifeline_targets@, all, xm), 0x300_0000),
{
    let ts = leaf.lifeline_targets@;
    assert forall|p: int| 0 <= p < all.len() implies (#[trigger] base_reqs(leaf, ts, all, xm)[p] matches Some(r)
        ==> r.on_the_left <= 3 * MAX_DIM && r.on_the_right <= 3 * MAX_DIM) by {
        lemma_find_target_range(ts, all[p]);
        let k = find_target(ts, all[p]);
        if k >= 0 {
            assert(target_ok(ts[k].1));
        }
    }
}

impl<T, S> DrawableBroadcastLeafPattern<T, S> {
    /// Where the message goes, and the anchor's requirement that its room is measured from.
    fn message_placement(
        &self,
        all: &Vec<usize>,
        base: &Vec<Option<LifelineRequiredHorizontalSpaceInDiagram>>,
        xm: u64,
    ) -> (r: (MessageDrawingLocation, LifelineRequiredHorizontalSpaceInDiagram))
        requires
            leaf_wf(*self, all@),
            xm <= MAX_DIM,
            base@ == base_reqs(*self, self.lifeline_targets@, all@, xm),
        ensures
            r.0 == message_location(*self, all@),
            r.1 == anchor_prev(*self, all@, xm),
            all@.contains(r.0.anchor_lifeline),
            base@[pos(all@, r.0.anchor_lifeline)] is Some,
            r.1.on_the_left <= 3 * MAX_DIM,
            r.1.on_the_right <= 3 * MAX_DIM,
    {
        let ts = Ghost(self.lifeline_targets@);
        let tn = self.lifeline_targets.len();
        proof {
            lemma_base_bounded(*self, all@, xm);
        }
        match &self.origin {
            DrawableBroadcastLeafPatternOrigin::Lifeline(o, a) => {
                let po = position_of(all, *o);
                let mut all_left = true;
                let mut k: usize = 0;
                while k < tn
                    invariant
                        k <= tn,
                        tn == ts@.len(),
                        ts@ == self.lifeline_targets@,
                        leaf_wf(*self, all@),
                        po as int == pos(all@, *o),
                        all_left == forall|i: int| 0 <= i < k ==> pos(all@, #[trigger] ts@[i].0) <= pos(all@, *o),
                    decreases tn - k,
                {
                    assert(all@.contains(ts@[k as int].0));
                    let q = position_of(all, self.lifeline_targets[k].0);
                    if q > po {
                        all_left = false;
                    }
                    k = k + 1;
                }
                let on_left = tn > 0 && all_left && self.output_outside_gates_targets.len() == 0;
                let (pw, _ph, qw, _qh) = a.get_size_around_midline();
                let half = (max64(pw, qw) + xm) / 2;
                proof {
                    assert(base@[po as int] == base_req_at(*self, ts@, *o, xm));
                    lemma_find_target_range(ts@, *o);
                    let kk = find_target(ts@, *o);
                    if kk >= 0 {
                        assert(target_ok(ts@[kk].1));
                    }
                }
                (MessageDrawingLocation::new(*o, on_left), LifelineRequiredHorizontalSpaceInDiagram::new(half, half))
            },
            _ => {
                let mut best = self.lifeline_targets[0].0;
                assert(all@.contains(ts@[0].0));
                let mut best_pos = position_of(all, best);
                let mut bi: usize = 0;
                let mut k: usize = 1;
                assert(ts@.take(1).len() == 1);
                while k < tn
                    invariant
                        1 <= k <= tn,
                        tn == ts@.len(),
                        ts@ == self.lifeline_targets@,
                        leaf_wf(*self, all@),
                        bi < k,
                        ts@[bi as int].0 == best,
                        best_pos as int == pos(all@, best),
                        best == leftmost(ts@.take(k as int), all@),
                    decreases tn - k,
                {
                    assert(all@.contains(ts@[k as int].0));
                    let q = position_of(all, self.lifeline_targets[k].0);
                    proof {
                        assert(ts@.take(k + 1).drop_last() =~= ts@.take(k as int));
                    }
                    if q < best_pos {
                        best = self.lifeline_targets[k].0;
                        best_pos = q;
                        bi = k;
                    }
                    k = k + 1;
                }
                assert(ts@.take(tn as int) =~= ts@);
                proof {
                    lemma_find_target_present(ts@, bi as int);
                    assert(all@.contains(best));
                    assert(base@[best_pos as int] == base_req_at(*self, ts@, best, xm));
                }
                let prev = match base[best_pos] {
                    Some(x) => x,
                    None => LifelineRequiredHorizontalSpaceInDiagram::new_empty(),
                };
                (MessageDrawingLocation::new(best, true), prev)
            },
        }
    }

    /// Resolves the leaf's geometry against the diagram's lifelines, in their
    /// left-to-right order.
    pub fn get_intermediate_information(
        &self,
        all_lifelines_in_diagram: &Vec<usize>,
        y_margin_between_seq_operands: u64,
        x_margin_between_items: u64,
        y_margin_between_items: u64,
    ) -> (r: BroadcastLeafPatternIntermediateInformation)
        requires
            leaf_wf(*self, all_lifelines_in_diagram@),
            y_margin_between_seq_operands <= MAX_DIM,
            x_margin_between_items <= MAX_DIM,
            y_margin_between_items <= MAX_DIM,
        ensures
            r@ == leaf_geometry(
                *self,
                all_lifelines_in_diagram@,
                y_margin_between_seq_operands,
                x_margin_between_items,
                y_margin_between_items,
            ),
            reqs_bounded(r@.reqs, LEAF_REQ_BOUND),
            r@.reqs.len() == all_lifelines_in_diagram@.len(),
            r@.involved.len() == all_lifelines_in_diagram@.len(),
            forall|p: int| 0 <= p < r@.involved.len() && #[trigger] r@.involved[p] ==> r@.reqs[p] is Some,
            r.y_space_top_to_bottom <= LEAF_HEIGHT_BOUND,
            r.input_gate_width <= MAX_DIM,
            r.output_gates_max_width <= MAX_DIM,
    {
        let all = all_lifelines_in_diagram;
        let xm = x_margin_between_items;
        let ym = y_margin_between_items;
        let ys = y_margin_between_seq_operands;
        let (mut reqs, involved) = self.base_requirements(all, xm);
        let (y_top, y_bot, gates_shift, out_w) = self.vertical_spans(ys, ym);
        let (loc, prev) = self.message_placement(all, &reqs, xm);
        let ghost base = reqs@;
        proof {
            lemma_base_bounded(*self, all@, xm);
        }
        let ia = position_of(all, loc.anchor_lifeline);
        let cur = match reqs[ia] {
            Some(x) => x,
            None => LifelineRequiredHorizontalSpaceInDiagram::new_empty(),
        };
        let w = self.message.width;
        let x_shift: i64;
        if loc.draw_message_on_left {
            x_shift = 0 - ((prev.on_the_left + (w + 1) / 2 + xm) as i64);
            if ia > 0 {
                let nb = match reqs[ia - 1] {
                    Some(x) => x,
                    None => LifelineRequiredHorizontalSpaceInDiagram::new_empty(),
                };
                let mut a = cur;
                a.update_to_max(LifelineRequiredHorizontalSpaceInDiagram::new(prev.on_the_left + xm + (w + 1) / 2, prev.on_the_right));
                reqs.set(ia, Some(a));
                reqs.set(ia - 1, Some(LifelineRequiredHorizontalSpaceInDiagram::new(nb.on_the_left, nb.on_the_right + xm + (w + 1) / 2)));
            } else {
                let mut a = cur;
                a.update_to_max(LifelineRequiredHorizontalSpaceInDiagram::new(prev.on_the_left + xm + w, prev.on_the_right));
                reqs.set(ia, Some(a));
            }
        } else {
            x_shift = (prev.on_the_right + (w + 1) / 2 + xm) as i64;
            if ia < all.len() - 1 {
                let nb = match reqs[ia + 1] {
                    Some(x) => x,
                    None => LifelineRequiredHorizontalSpaceInDiagram::new_empty(),
                };
                let mut a = cur;
                a.update_to_max(LifelineRequiredHorizontalSpaceInDiagram::new(prev.on_the_left, prev.on_the_right + xm + (w + 1) / 2));
                reqs.set(ia, Some(a));
                reqs.set(ia + 1, Some(LifelineRequiredHorizontalSpaceInDiagram::new(nb.on_the_left + xm + (w + 1) / 2, nb.on_the_right)));
            } else {
                let mut a = cur;
                a.update_to_max(LifelineRequiredHorizontalSpaceInDiagram::new(prev.on_the_left, prev.on_the_right + xm + w));
                reqs.set(ia, Some(a));
            }
        }
        let (rsue, in_w) = match &self.origin {
            DrawableBroadcastLeafPatternOrigin::Lifeline(o, a) => {
                let (_pw, _ph, _qw, qh) = a.get_size_around_midline();
                (Some((*o, max64(qh + 1, 2 * ym))), 0)
            },
            DrawableBroadcastLeafPatternOrigin::InputOutsideGate(g) => (None, g.width),
            DrawableBroadcastLeafPatternOrigin::Empty => (None, 0),
        };
        let r = BroadcastLeafPatternIntermediateInformation {
            y_space_top_to_bottom: y_top + y_bot,
            y_space_top_to_midline: y_top,
            message_drawing_location: (loc, x_shift),
            involved_lifelines: involved,
            lifelines_horizontal_requirements: reqs,
            required_space_under_emission: rsue,
            input_gate_width: in_w,
            output_gates_max_width: out_w,
            y_shift_above_midline_for_output_gates: gates_shift,
        };
        proof {
            assert(r@.reqs =~= leaf_reqs(*self, all@, xm));
            assert forall|p: int| 0 <= p < r@.reqs.len() implies (#[trigger] r@.reqs[p] matches Some(q)
                ==> q.on_the_left <= LEAF_REQ_BOUND && q.on_the_right <= LEAF_REQ_BOUND) by {
                assert(base[p] matches Some(q) ==> q.on_the_left <= 3 * MAX_DIM && q.on_the_right <= 3 * MAX_DIM);
            }
            assert forall|p: int| 0 <= p < r@.involved.len() && #[trigger] r@.involved[p] implies r@.reqs[p] is Some by {
                lemma_find_target_range(self.lifeline_targets@, all@[p]);
                assert(base[p] is Some);
            }
        }
        r
    }
}


/// How far below the leaf's midline a target's own midline lies: a reception on the
/// sending lifeline goes under the room kept for the emission, one operand margin
/// lower, and below its own preamble; any other target shares the leaf's midline.
pub open spec fn target_midline_shift<T>(
    required_space_under_emission: Option<(usize, u64)>,
    target_lifeline: usize,
    action: TargetLifelineBroadcastDrawInstruction<T>,
    ys: u64,
) -> int {
    match required_space_under_emission {
        Some((o, req)) => if o == target_lifeline {
            req + ys + target_sizes(action).1
        } else {
            0
        },
        None => 0,
    }
}

impl BroadcastLeafPatternIntermediateInformation {
    /// The vertical offset, from the leaf's midline, of the midline of the reception
    /// drawn on `target_lifeline`.
    pub fn get_target_midline_shift<T>(
        &self,
        target_lifeline: usize,
        action: &TargetLifelineBroadcastDrawInstruction<T>,
        y_margin_between_seq_operands: u64,
    ) -> (r: u64)
        requires
            target_ok(*action),
            y_margin_between_seq_operands <= MAX_DIM,
            self.required_space_under_emission matches Some((_, req)) ==> req <= 2 * MAX_DIM,
        ensures
            r as int == target_midline_shift(
                self.required_space_under_emission,
                target_lifeline,
                *action,
                y_margin_between_seq_operands,
            ),
    {
        match self.required_space_under_emission {
            Some((o, req)) => {
                if o == target_lifeline {
                    let (_pw, ph, _qw, _qh) = action.get_size_around_midline();
                    req + y_margin_between_seq_operands + ph
                } else {
                    0
                }
            },
            None => 0,
        }
    }
}


/// The two ends of a leaf drawn as one continuous arrow: a lifeline, or `None` for
/// the input gate (origin) or the output gate (target).
#[derive(Clone, Copy, Debug, PartialEq, Eq, Structural)]
pub struct ContinuousArrow {
    pub origin: Option<usize>,
    pub target: Option<usize>,
}

/// A leaf is drawn as one arrow from its origin to its target exactly when it has an
/// origin, a single target (one lifeline, or the output gates alone), and that target
/// is not the origin's own lifeline; otherwise each end gets its own short arrow.
pub open spec fn continuous_arrow<T, S>(leaf: DrawableBroadcastLeafPattern<T, S>) -> Option<ContinuousArrow> {
    let ts = leaf.lifeline_targets@;
    let n_gates: int = if leaf.output_outside_gates_targets@.len() > 0 { 1 } else { 0 };
    let target = if ts.len() > 0 { Some(ts[0].0) } else { None };
    let origin = match leaf.origin {
        DrawableBroadcastLeafPatternOrigin::Lifeline(o, _) => Some(o),
        _ => None,
    };
    if ts.len() + n_gates != 1 || leaf.origin is Empty {
        None
    } else if origin is Some && target is Some && origin == target {
        None
    } else {
        Some(ContinuousArrow { origin, target })
    }
}

impl<T, S> DrawableBroadcastLeafPattern<T, S> {
    pub fn get_continuous_arrow(&self) -> (r: Option<ContinuousArrow>)
        ensures
            r == continuous_arrow(*self),
    {
        let gates: usize = if self.output_outside_gates_targets.len() > 0 { 1 } else { 0 };
        let n = self.lifeline_targets.len();
        if n > 1 || n + gates != 1 {
            return None;
        }
        let target = if n > 0 { Some(self.lifeline_targets[0].0) } else { None };
        let origin = match &self.origin {
            DrawableBroadcastLeafPatternOrigin::Empty => {
                return None;
            },
            DrawableBroadcastLeafPatternOrigin::Lifeline(o, _) => Some(*o),
            DrawableBroadcastLeafPatternOrigin::InputOutsideGate(_) => None,
        };
        match (origin, target) {
            (Some(o), Some(t)) => {
                if o == t {
                    return None;
                }
            },
            _ => {},
        }
        Some(ContinuousArrow { origin, target })
    }

    /// Whether the short arrow into target lifeline `target` comes from its left: for
    /// the origin's own lifeline, from the side the message is written on; for another
    /// target, from the left when the origin lifeline stands left of it; from a gate
    /// or from nowhere, always from the left.
    pub fn target_arrow_from_left(
        &self,
        target: usize,
        message_on_left: bool,
        origin_x: u64,
        target_x: u64,
    ) -> (r: bool)
        ensures
            r == match self.origin {
                DrawableBroadcastLeafPatternOrigin::Lifeline(o, _) => if o == target {
                    message_on_left
                } else {
                    origin_x < target_x
                },
                _ => true,
            },
    {
        match &self.origin {
            DrawableBroadcastLeafPatternOrigin::Lifeline(o, _) => {
                if *o == target {
                    message_on_left
                } else {
                    origin_x < target_x
                }
            },
            _ => true,
        }
    }
}

} // verus!

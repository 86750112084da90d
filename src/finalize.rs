use vstd::prelude::*;

use crate::extract::{
    extract_intermediate_drawing_information_rec, info_wf, leaf_views, operator_views, tree_wf, walk,
    CompleteBroadcastLeafPatternDrawInstruction, CompleteOperatorDrawInstruction, DrawableInteraction,
    LeafInstructionView, OperatorInstructionView,
};
use crate::horizontal::{req_max, LifelineRequiredHorizontalSpaceInDiagram, MAX_DIM};
use crate::leaf::{text_ok, MeasuredText};
use crate::leaf_info::{imax, req_or_empty, sym, LEAF_REQ_BOUND};

verus! {

/// Most lifelines one diagram may hold.
pub const MAX_LIFELINES: usize = 0x10_0000;

/// Each lifeline's requirement once its header is centred on it.
pub open spec fn widened_reqs<T>(
    reqs: Seq<Option<LifelineRequiredHorizontalSpaceInDiagram>>,
    headers: Seq<MeasuredText<T>>,
) -> Seq<LifelineRequiredHorizontalSpaceInDiagram> {
    Seq::new(reqs.len(), |p: int| req_max(req_or_empty(reqs[p]), sym(((headers[p].width + 1) / 2) as int)))
}

pub open spec fn headers_height<T>(headers: Seq<MeasuredText<T>>) -> int
    decreases headers.len(),
{
    if headers.len() == 0 {
        0
    } else {
        imax(headers_height(headers.drop_last()), headers.last().height as int)
    }
}

/// Width taken by the first `k` lifelines: each its left room, its right room, a margin.
pub open spec fn lanes_width(fr: Seq<LifelineRequiredHorizontalSpaceInDiagram>, m: u64, k: int) -> int
    decreases k,
{
    if k <= 0 {
        0
    } else {
        lanes_width(fr, m, k - 1) + fr[k - 1].on_the_left + fr[k - 1].on_the_right + m
    }
}

/// The diagram's absolute geometry.
pub struct DiagramGeometry<T, S, C> {
    pub width: int,
    pub height: int,
    pub y_shift_to_absolute: int,
    pub left_side_of_diagram_x_pos: int,
    pub right_side_of_diagram_x_pos: int,
    pub lifelines: Seq<usize>,
    pub lifelines_horizontal_positions: Seq<int>,
    pub lifelines_headers: Seq<MeasuredText<T>>,
    pub patterns_to_draw: Seq<LeafInstructionView<T, S>>,
    pub operators_to_draw: Seq<OperatorInstructionView<T, C>>,
}

/// Lays the term out below the headers, one margin from the top, then places the
/// lifelines from left to right: border, input gates and a margin (the diagram's
/// left side), then for each lifeline its left room, the lifeline, its right room and
/// a margin (the last of these margins ends at the diagram's right side); then the
/// output gates and the border.
pub open spec fn diagram_geometry<T, S, C>(
    all: Seq<usize>,
    headers: Seq<MeasuredText<T>>,
    t: DrawableInteraction<T, S, C>,
    ys: u64,
    m: u64,
    bp: u64,
) -> DiagramGeometry<T, S, C> {
    let w = walk(t, all, m as int, 0, ys, m);
    let hh = headers_height(headers);
    let fr = widened_reqs(w.info.reqs, headers);
    let start = bp + w.info.max_input_gate_width + m;
    let right = start + lanes_width(fr, m, all.len() as int);
    DiagramGeometry {
        width: right + w.info.max_output_gate_width + bp,
        height: 2 * bp + hh + w.ypos + m,
        y_shift_to_absolute: bp + hh,
        left_side_of_diagram_x_pos: bp + w.info.max_input_gate_width + m,
        right_side_of_diagram_x_pos: right,
        lifelines: all,
        lifelines_horizontal_positions: Seq::new(
            all.len(),
            |p: int| start + lanes_width(fr, m, p) + fr[p].on_the_left,
        ),
        lifelines_headers: headers,
        patterns_to_draw: w.leaves,
        operators_to_draw: w.operators,
    }
}

/// Everything needed to paint the diagram, in absolute pixel coordinates.
pub struct CompleteInteractionDrawInstruction<T, S, C> {
    pub width: u64,
    pub height: u64,
    /// added to the relative vertical positions of the instructions
    pub y_shift_to_absolute: u64,
    /// input gates are drawn left of this
    pub left_side_of_diagram_x_pos: u64,
    /// output gates are drawn right of this
    pub right_side_of_diagram_x_pos: u64,
    /// the lifelines, left to right
    pub lifelines: Vec<usize>,
    /// by position: distance from the image's left side to the lifeline
    pub lifelines_horizontal_positions: Vec<u64>,
    /// by position
    pub lifelines_headers: Vec<MeasuredText<T>>,
    pub patterns_to_draw: Vec<CompleteBroadcastLeafPatternDrawInstruction<T, S>>,
    pub operators_to_draw: Vec<CompleteOperatorDrawInstruction<T, C>>,
}

impl<T, S, C> View for CompleteInteractionDrawInstruction<T, S, C> {
    type V = DiagramGeometry<T, S, C>;

    open spec fn view(&self) -> DiagramGeometry<T, S, C> {
        DiagramGeometry {
            width: self.width as int,
            height: self.height as int,
            y_shift_to_absolute: self.y_shift_to_absolute as int,
            left_side_of_diagram_x_pos: self.left_side_of_diagram_x_pos as int,
            right_side_of_diagram_x_pos: self.right_side_of_diagram_x_pos as int,
            lifelines: self.lifelines@,
            lifelines_horizontal_positions: self.lifelines_horizontal_positions@.map_values(|x: u64| x as int),
            lifelines_headers: self.lifelines_headers@,
            patterns_to_draw: leaf_views(self.patterns_to_draw@),
            operators_to_draw: operator_views(self.operators_to_draw@),
        }
    }
}

/// What a diagram must satisfy to be laid out: distinct lifelines, one header per
/// lifeline, measured items under `MAX_DIM`, and a body whose height fits.
pub open spec fn diagram_wf<T, S, C>(
    all: Seq<usize>,
    headers: Seq<MeasuredText<T>>,
    t: DrawableInteraction<T, S, C>,
    ys: u64,
    m: u64,
    bp: u64,
) -> bool {
    &&& tree_wf(t, all)
    &&& all.no_duplicates()
    &&& all.len() <= MAX_LIFELINES
    &&& headers.len() == all.len()
    &&& forall|p: int| 0 <= p < headers.len() ==> text_ok(#[trigger] headers[p])
    &&& ys <= MAX_DIM
    &&& m <= MAX_DIM
    &&& bp <= MAX_DIM
    &&& walk(t, all, m as int, 0, ys, m).ypos + 4 * MAX_DIM <= u64::MAX
}

proof fn lemma_lanes_step(fr: Seq<LifelineRequiredHorizontalSpaceInDiagram>, m: u64, k: int)
    requires
        0 <= k,
    ensures
        lanes_width(fr, m, k + 1) == lanes_width(fr, m, k) + fr[k].on_the_left + fr[k].on_the_right + m,
{
}

/// Turns the term into absolute geometry and ordered draw instructions.
/// `all_lifelines_in_diagram` gives the lifelines from left to right, and
/// `lifelines_headers` their header texts in the same order.
pub fn extract_drawing_information<T, S, C>(
    all_lifelines_in_diagram: Vec<usize>,
    lifelines_headers: Vec<MeasuredText<T>>,
    int_repr: DrawableInteraction<T, S, C>,
    y_margin_between_seq_operands: u64,
    margin_between_items: u64,
    border_padding: u64,
) -> (r: CompleteInteractionDrawInstruction<T, S, C>)
    requires
        diagram_wf(
            all_lifelines_in_diagram@,
            lifelines_headers@,
            int_repr,
            y_margin_between_seq_operands,
            margin_between_items,
            border_padding,
        ),
    ensures
        r@ == diagram_geometry(
            all_lifelines_in_diagram@,
            lifelines_headers@,
            int_repr,
            y_margin_between_seq_operands,
            margin_between_items,
            border_padding,
        ),
{
    let ghost t0 = int_repr;
    let ys = y_margin_between_seq_operands;
    let m = margin_between_items;
    let bp = border_padding;
    let all = all_lifelines_in_diagram;
    let headers = lifelines_headers;
    let n = all.len();
    let mut patterns_to_draw: Vec<CompleteBroadcastLeafPatternDrawInstruction<T, S>> = Vec::new();
    let mut operators_to_draw: Vec<CompleteOperatorDrawInstruction<T, C>> = Vec::new();
    let mut relative_y_pos: u64 = m;
    let info = extract_intermediate_drawing_information_rec(
        &all,
        int_repr,
        &mut relative_y_pos,
        0,
        &mut patterns_to_draw,
        &mut operators_to_draw,
        ys,
        m,
    );
    let ghost w = walk(t0, all@, m as int, 0, ys, m);
    assert(leaf_views(patterns_to_draw@) =~= w.leaves);
    assert(operator_views(operators_to_draw@) =~= w.operators);
    let mut header_height: u64 = 0;
    let mut fr: Vec<LifelineRequiredHorizontalSpaceInDiagram> = Vec::new();
    let mut p: usize = 0;
    while p < n
        invariant
            p <= n,
            n == all@.len(),
            n == headers@.len(),
            info_wf(info@, n as nat),
            forall|q: int| 0 <= q < headers@.len() ==> text_ok(#[trigger] headers@[q]),
            header_height as int == headers_height(headers@.take(p as int)),
            header_height <= MAX_DIM,
            fr@ == widened_reqs(info@.reqs, headers@).take(p as int),
        decreases n - p,
    {
        let h = &headers[p];
        assert(text_ok(headers@[p as int]));
        let half = (h.width + 1) / 2;
        let mut req = match info.lfs_horizontal_reqs[p] {
            Some(x) => x,
            None => LifelineRequiredHorizontalSpaceInDiagram::new_empty(),
        };
        req.update_to_max(LifelineRequiredHorizontalSpaceInDiagram::new(half, half));
        fr.push(req);
        if h.height > header_height {
            header_height = h.height;
        }
        proof {
            assert(headers@.take(p + 1).drop_last() =~= headers@.take(p as int));
            assert(fr@ =~= widened_reqs(info@.reqs, headers@).take(p + 1));
        }
        p = p + 1;
    }
    assert(headers@.take(n as int) =~= headers@);
    assert(fr@ =~= widened_reqs(info@.reqs, headers@));
    let y_shift_to_absolute = bp + header_height;
    let height = 2 * bp + header_height + relative_y_pos + m;
    let left_side_of_diagram_x_pos = bp + info.max_input_gate_width + m;
    let start = left_side_of_diagram_x_pos;
    let mut x = start;
    let mut positions: Vec<u64> = Vec::new();
    let mut p: usize = 0;
    while p < n
        invariant
            p <= n,
            n == all@.len(),
            n <= MAX_LIFELINES,
            fr@.len() == n,
            info_wf(info@, n as nat),
            fr@ == widened_reqs(info@.reqs, headers@),
            headers@.len() == n,
            forall|q: int| 0 <= q < headers@.len() ==> text_ok(#[trigger] headers@[q]),
            start <= 4 * MAX_DIM,
            x as int == start + lanes_width(fr@, m, p as int),
            x <= start + p * 0x2000_0000,
            m <= MAX_DIM,
            positions@.len() == p,
            forall|q: int|
                0 <= q < p ==> positions@[q] as int == start + lanes_width(fr@, m, q) + fr@[q].on_the_left,
        decreases n - p,
    {
        let r = fr[p];
        proof {
            assert(text_ok(headers@[p as int]));
            assert(info@.reqs[p as int] matches Some(q) ==> q.on_the_left <= LEAF_REQ_BOUND && q.on_the_right
                <= LEAF_REQ_BOUND);
            assert(r.on_the_left <= LEAF_REQ_BOUND && r.on_the_right <= LEAF_REQ_BOUND);
            assert(p * 0x2000_0000 <= 0x10_0000 * 0x2000_0000) by (nonlinear_arith)
                requires
                    p <= 0x10_0000,
            ;
            lemma_lanes_step(fr@, m, p as int);
        }
        x = x + r.on_the_left;
        positions.push(x);
        x = x + r.on_the_right + m;
        p = p + 1;
    }
    let right_side_of_diagram_x_pos = x;
    let width = x + info.max_output_gate_width + bp;
    let r = CompleteInteractionDrawInstruction {
        width,
        height,
        y_shift_to_absolute,
        left_side_of_diagram_x_pos,
        right_side_of_diagram_x_pos,
        lifelines: all,
        lifelines_horizontal_positions: positions,
        lifelines_headers: headers,
        patterns_to_draw,
        operators_to_draw,
    };
    assert(r@.lifelines_horizontal_positions =~= diagram_geometry(
        all@,
        headers@,
        t0,
        ys,
        m,
        bp,
    ).lifelines_horizontal_positions);
    r
}

} // verus!

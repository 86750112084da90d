use vstd::prelude::*;

use crate::extract::{
    first_true_from, nest_inc, tree_wf, walk, walk_operands, walk_rank, DrawableInteraction, LeafInstructionView,
    RecInfo,
};
use crate::finalize::{diagram_geometry, lanes_width, widened_reqs, DiagramGeometry};
use crate::horizontal::{opt_req_max, LifelineRequiredHorizontalSpaceInDiagram, MAX_DIM};
use crate::leaf::{
    prepost_sizes, target_sizes, DrawableBroadcastLeafPattern, DrawableBroadcastLeafPatternOrigin, MeasuredText,
    TargetLifelineBroadcastDrawInstruction,
};
use crate::leaf_info::{
    base_req_at, base_reqs, find_target, half_width, imax, leaf_geometry, leaf_involved, leaf_reqs, leaf_wf,
    leaf_y_bottom, leaf_y_top, leftmost, message_location, min_side, pos, space_under_emission, sym,
    target_midline_shift, targets_bottom,
};
use crate::operator::operator_costs;

verus! {

/// Leaves of `ls` lie within `[lo, hi]`, one after the other without overlap, each at
/// least two margins high.
pub open spec fn leaves_laid_out<T, S>(ls: Seq<LeafInstructionView<T, S>>, lo: int, hi: int, m: u64) -> bool {
    &&& forall|i: int|
        0 <= i < ls.len() ==> lo <= (#[trigger] ls[i]).relative_y_pos && ls[i].relative_y_pos
            + ls[i].geometry.y_space_top_to_bottom <= hi && ls[i].geometry.y_space_top_to_bottom >= 2 * m
    &&& forall|i: int, j: int|
        0 <= i < j < ls.len() ==> (#[trigger] ls[i]).relative_y_pos + ls[i].geometry.y_space_top_to_bottom
            <= (#[trigger] ls[j]).relative_y_pos
}

proof fn lemma_laid_out_concat<T, S>(
    a: Seq<LeafInstructionView<T, S>>,
    b: Seq<LeafInstructionView<T, S>>,
    lo: int,
    mid: int,
    hi: int,
    m: u64,
)
    requires
        leaves_laid_out(a, lo, mid, m),
        leaves_laid_out(b, mid, hi, m),
        lo <= mid <= hi,
    ensures
        leaves_laid_out(a + b, lo, hi, m),
{
    let c = a + b;
    assert forall|i: int| 0 <= i < c.len() implies lo <= (#[trigger] c[i]).relative_y_pos && c[i].relative_y_pos
        + c[i].geometry.y_space_top_to_bottom <= hi && c[i].geometry.y_space_top_to_bottom >= 2 * m by {
        if i < a.len() {
            assert(c[i] == a[i]);
        } else {
            assert(c[i] == b[i - a.len()]);
        }
    }
    assert forall|i: int, j: int| 0 <= i < j < c.len() implies (#[trigger] c[i]).relative_y_pos
        + c[i].geometry.y_space_top_to_bottom <= (#[trigger] c[j]).relative_y_pos by {
        if j < a.len() {
            assert(c[i] == a[i] && c[j] == a[j]);
        } else if i >= a.len() {
            assert(c[i] == b[i - a.len()] && c[j] == b[j - a.len()]);
        } else {
            assert(c[i] == a[i] && c[j] == b[j - a.len()]);
        }
    }
}

proof fn lemma_walk_laid_out<T, S, C>(t: DrawableInteraction<T, S, C>, all: Seq<usize>, y: int, nest: u32, ys: u64, m: u64)
    ensures
        leaves_laid_out(walk(t, all, y, nest, ys, m).leaves, y, walk(t, all, y, nest, ys, m).ypos, m),
    decreases t, walk_rank(t),
{
    match t {
        DrawableInteraction::Leaf(Some(l)) => {
            let g = leaf_geometry(l, all, ys, m, m);
            assert(leaf_y_top(l, m) >= l.message.height + m);
            assert(leaf_y_bottom(l, ys, m) >= m);
            let ls = walk(t, all, y, nest, ys, m).leaves;
            assert(ls[0].geometry == g);
        },
        DrawableInteraction::Leaf(None) => {},
        DrawableInteraction::Operator(op, subs) => {
            let c = operator_costs(op.kind, m, m);
            let inner_nest = if c.2 { nest_inc(nest) } else { nest };
            lemma_operands_laid_out(t, all, y + c.0, inner_nest, c.1 as u64, ys, m, subs@.len() as int);
            let acc = walk_operands(t, all, y + c.0, inner_nest, c.1 as u64, ys, m, subs@.len() as int);
            assert(c.0 >= 0);
            assert forall|i: int| 0 <= i < acc.leaves.len() implies y <= (#[trigger] acc.leaves[i]).relative_y_pos by {
                assert(y + c.0 <= acc.leaves[i].relative_y_pos);
            }
        },
    }
}

proof fn lemma_operands_laid_out<T, S, C>(
    t: DrawableInteraction<T, S, C>,
    all: Seq<usize>,
    y1: int,
    nest: u32,
    s: u64,
    ys: u64,
    m: u64,
    k: int,
)
    ensures
        leaves_laid_out(
            walk_operands(t, all, y1, nest, s, ys, m, k).leaves,
            y1,
            walk_operands(t, all, y1, nest, s, ys, m, k).ypos,
            m,
        ),
        walk_operands(t, all, y1, nest, s, ys, m, k).ypos >= y1,
    decreases t, k,
{
    match t {
        DrawableInteraction::Operator(_, subs) => {
            if k > 0 && k <= subs@.len() {
                lemma_operands_laid_out(t, all, y1, nest, s, ys, m, k - 1);
                let prev = walk_operands(t, all, y1, nest, s, ys, m, k - 1);
                lemma_walk_laid_out(subs@[k - 1], all, prev.ypos, nest, ys, m);
                crate::extract::lemma_walk_mono(subs@[k - 1], all, prev.ypos, nest, ys, m);
                let w = walk(subs@[k - 1], all, prev.ypos, nest, ys, m);
                let cur = walk_operands(t, all, y1, nest, s, ys, m, k);
                assert(cur.ypos >= w.ypos);
                assert(leaves_laid_out(w.leaves, prev.ypos, cur.ypos, m));
                lemma_laid_out_concat(prev.leaves, w.leaves, y1, prev.ypos, cur.ypos, m);
            }
        },
        _ => {},
    }
}

/// Leaves are placed in document order, one below the other: for any two leaves, the
/// one that comes first in pre-order ends at or above the top of the other, so their
/// vertical ranges never overlap. With a positive margin every leaf has positive
/// height, hence strictly increasing positions.
pub proof fn lemma_leaves_follow_document_order<T, S, C>(
    t: DrawableInteraction<T, S, C>,
    all: Seq<usize>,
    y: int,
    nest: u32,
    ys: u64,
    m: u64,
)
    ensures
        ({
            let w = walk(t, all, y, nest, ys, m);
            &&& forall|i: int, j: int|
                0 <= i < j < w.leaves.len() ==> (#[trigger] w.leaves[i]).relative_y_pos
                    + w.leaves[i].geometry.y_space_top_to_bottom <= (#[trigger] w.leaves[j]).relative_y_pos
            &&& m > 0 ==> forall|i: int, j: int|
                0 <= i < j < w.leaves.len() ==> (#[trigger] w.leaves[i]).relative_y_pos
                    < (#[trigger] w.leaves[j]).relative_y_pos
            &&& forall|i: int|
                0 <= i < w.leaves.len() ==> y <= (#[trigger] w.leaves[i]).relative_y_pos
                    && w.leaves[i].relative_y_pos + w.leaves[i].geometry.y_space_top_to_bottom <= w.ypos
        }),
{
    lemma_walk_laid_out(t, all, y, nest, ys, m);
    let w = walk(t, all, y, nest, ys, m);
    assert forall|i: int, j: int| m > 0 && 0 <= i < j < w.leaves.len() implies (#[trigger] w.leaves[i]).relative_y_pos
        < (#[trigger] w.leaves[j]).relative_y_pos by {
        assert(w.leaves[i].geometry.y_space_top_to_bottom >= 2 * m);
    }
}


proof fn lemma_leftmost_member<T>(ts: Seq<(usize, TargetLifelineBroadcastDrawInstruction<T>)>, all: Seq<usize>)
    requires
        ts.len() >= 1,
    ensures
        exists|i: int| 0 <= i < ts.len() && ts[i].0 == leftmost(ts, all),
    decreases ts.len(),
{
    if ts.len() == 1 {
        assert(ts[0].0 == leftmost(ts, all));
    } else {
        lemma_leftmost_member(ts.drop_last(), all);
        let i = choose|i: int| 0 <= i < ts.drop_last().len() && ts.drop_last()[i].0 == leftmost(ts.drop_last(), all);
        if leftmost(ts, all) == ts.last().0 {
            assert(ts[ts.len() - 1].0 == leftmost(ts, all));
        } else {
            assert(ts[i].0 == leftmost(ts, all));
        }
    }
}

proof fn lemma_leaf_info_shape<T, S>(leaf: DrawableBroadcastLeafPattern<T, S>, all: Seq<usize>, xm: u64)
    requires
        leaf_wf(leaf, all),
    ensures
        leaf_reqs(leaf, all, xm).len() == all.len(),
        leaf_involved(leaf, all).len() == all.len(),
        forall|p: int|
            0 <= p < all.len() && #[trigger] leaf_involved(leaf, all)[p] ==> leaf_reqs(leaf, all, xm)[p] is Some,
{
    let base = base_reqs(leaf, leaf.lifeline_targets@, all, xm);
    let loc = message_location(leaf, all);
    match leaf.origin {
        DrawableBroadcastLeafPatternOrigin::Lifeline(o, _) => {},
        _ => {
            lemma_leftmost_member(leaf.lifeline_targets@, all);
            let i = choose|i: int| 0 <= i < leaf.lifeline_targets@.len() && leaf.lifeline_targets@[i].0 == leftmost(leaf.lifeline_targets@, all);
            assert(all.contains(leaf.lifeline_targets@[i].0));
        },
    }
    assert(all.contains(loc.anchor_lifeline));
    let j = all.index_of(loc.anchor_lifeline);
    assert(0 <= j < all.len());
    assert forall|p: int| 0 <= p < all.len() && #[trigger] leaf_involved(leaf, all)[p] implies leaf_reqs(
        leaf,
        all,
        xm,
    )[p] is Some by {
        assert(base[p] == base_req_at(leaf, leaf.lifeline_targets@, all[p], xm));
        assert(base[p] is Some);
    }
}

/// The shape of what a subterm hands up: one entry per lifeline, and a requirement on
/// every lifeline it names.
pub open spec fn info_shaped(i: RecInfo, n: nat) -> bool {
    &&& i.involved.len() == n
    &&& i.reqs.len() == n
    &&& forall|p: int| 0 <= p < n && #[trigger] i.involved[p] ==> i.reqs[p] is Some
}

proof fn lemma_walk_info_shape<T, S, C>(t: DrawableInteraction<T, S, C>, all: Seq<usize>, y: int, nest: u32, ys: u64, m: u64)
    requires
        tree_wf(t, all),
    ensures
        info_shaped(walk(t, all, y, nest, ys, m).info, all.len()),
    decreases t, walk_rank(t),
{
    match t {
        DrawableInteraction::Leaf(Some(l)) => {
            lemma_leaf_info_shape(l, all, m);
            let i = walk(t, all, y, nest, ys, m).info;
            assert(i.involved == leaf_involved(l, all));
            assert(i.reqs == leaf_reqs(l, all, m));
            assert forall|p: int| 0 <= p < all.len() && #[trigger] i.involved[p] implies i.reqs[p] is Some by {
                assert(leaf_involved(l, all)[p]);
            }
        },
        DrawableInteraction::Leaf(None) => {},
        DrawableInteraction::Operator(op, subs) => {
            let c = operator_costs(op.kind, m, m);
            let inner_nest = if c.2 { nest_inc(nest) } else { nest };
            lemma_operands_info_shape(t, all, y + c.0, inner_nest, c.1 as u64, ys, m, subs@.len() as int);
            let acc = walk_operands(t, all, y + c.0, inner_nest, c.1 as u64, ys, m, subs@.len() as int);
            lemma_first_true_is_true(acc.info.involved, 0);
        },
    }
}

proof fn lemma_operands_info_shape<T, S, C>(
    t: DrawableInteraction<T, S, C>,
    all: Seq<usize>,
    y1: int,
    nest: u32,
    s: u64,
    ys: u64,
    m: u64,
    k: int,
)
    requires
        tree_wf(t, all),
    ensures
        info_shaped(walk_operands(t, all, y1, nest, s, ys, m, k).info, all.len()),
    decreases t, k,
{
    match t {
        DrawableInteraction::Operator(_, subs) => {
            if k > 0 && k <= subs@.len() {
                lemma_operands_info_shape(t, all, y1, nest, s, ys, m, k - 1);
                let prev = walk_operands(t, all, y1, nest, s, ys, m, k - 1);
                assert(tree_wf(subs@[k - 1], all));
                lemma_walk_info_shape(subs@[k - 1], all, prev.ypos, nest, ys, m);
            }
        },
        _ => {},
    }
}

/// Two sibling subterms under an operator that draws no label combine by per-side
/// maximum on every lifeline: where they ask `a` and `b` of the same lifeline, the
/// operator asks `max(a, b)`, never `a + b`.
pub proof fn lemma_siblings_merge_by_maximum<T, S, C>(
    t: DrawableInteraction<T, S, C>,
    all: Seq<usize>,
    y: int,
    nest: u32,
    ys: u64,
    m: u64,
)
    requires
        t matches DrawableInteraction::Operator(op, subs) && subs@.len() == 2 && !(op.kind is Framed),
        tree_wf(t, all),
        m <= MAX_DIM,
    ensures
        ({
            let op = t->Operator_0;
            let subs = t->Operator_1;
            let c = operator_costs(op.kind, m, m);
            let w1 = walk(subs@[0], all, y + c.0, nest, ys, m);
            let w2 = walk(subs@[1], all, w1.ypos + c.1, nest, ys, m);
            forall|p: int|
                0 <= p < all.len() ==> #[trigger] walk(t, all, y, nest, ys, m).info.reqs[p] == opt_req_max(
                    w1.info.reqs[p],
                    w2.info.reqs[p],
                )
        }),
{
    let op = t->Operator_0;
    let subs = t->Operator_1;
    let c = operator_costs(op.kind, m, m);
    let s = c.1 as u64;
    let y1 = y + c.0;
    let a0 = walk_operands(t, all, y1, nest, s, ys, m, 0);
    let a1 = walk_operands(t, all, y1, nest, s, ys, m, 1);
    let a2 = walk_operands(t, all, y1, nest, s, ys, m, 2);
    let w1 = walk(subs@[0], all, y1, nest, ys, m);
    assert(tree_wf(subs@[0], all));
    assert(tree_wf(subs@[1], all));
    lemma_walk_info_shape(subs@[0], all, y1, nest, ys, m);
    assert(a1.ypos == w1.ypos + c.1);
    let w2 = walk(subs@[1], all, a1.ypos, nest, ys, m);
    lemma_walk_info_shape(subs@[1], all, a1.ypos, nest, ys, m);
    lemma_operands_info_shape(t, all, y1, nest, s, ys, m, 2);
    assert forall|p: int| 0 <= p < all.len() implies #[trigger] walk(t, all, y, nest, ys, m).info.reqs[p] == opt_req_max(
        w1.info.reqs[p],
        w2.info.reqs[p],
    ) by {
        assert(a1.info.reqs[p] == opt_req_max(None, w1.info.reqs[p]));
        let lm = first_true_from(a2.info.involved, 0);
        if lm >= 0 {
            crate::layout_laws::lemma_first_true_is_true(a2.info.involved, 0);
        }
    }
}

proof fn lemma_first_true_is_true(s: Seq<bool>, i: int)
    ensures
        first_true_from(s, i) >= 0 ==> 0 <= first_true_from(s, i) < s.len() && s[first_true_from(s, i)],
    decreases s.len() - i,
{
    if 0 <= i < s.len() && !s[i] {
        lemma_first_true_is_true(s, i + 1);
    }
}

/// A message sent by lifeline `x` to `x` alone: the reception's midline lies below the
/// sender's midline by strictly more than the sender's postamble plus the operand margin, the
/// reception fits in the leaf, and `x` is asked the larger of the two actions' needs
/// (raised to the minimum), not their sum.
pub proof fn lemma_self_message_offsetting<T, S>(
    leaf: DrawableBroadcastLeafPattern<T, S>,
    all: Seq<usize>,
    ys: u64,
    xm: u64,
    ym: u64,
)
    requires
        leaf.origin matches DrawableBroadcastLeafPatternOrigin::Lifeline(x, _) && leaf.lifeline_targets@.len()
            == 1 && leaf.lifeline_targets@[0].0 == x,
        all.contains(leaf.origin->Lifeline_0),
        leaf_wf(leaf, all),
        ym <= MAX_DIM,
    ensures
        ({
            let x = leaf.origin->Lifeline_0;
            let a = leaf.origin->Lifeline_1;
            let act = leaf.lifeline_targets@[0].1;
            let g = leaf_geometry(leaf, all, ys, xm, ym);
            let shift = target_midline_shift(g.required_space_under_emission, x, act, ys);
            &&& shift > prepost_sizes(a).3 + ys
            &&& shift + target_sizes(act).3 <= g.y_space_top_to_bottom - g.y_space_top_to_midline
            &&& base_reqs(leaf, leaf.lifeline_targets@, all, xm)[pos(all, x)] == Some(
                sym(
                    imax(
                        imax(half_width(target_sizes(act), xm), half_width(prepost_sizes(a), xm)),
                        min_side(xm),
                    ),
                ),
            )
        }),
{
    let x = leaf.origin->Lifeline_0;
    let ts = leaf.lifeline_targets@;
    assert(ts.drop_last().len() == 0);
    assert(targets_bottom(leaf, ts.drop_last(), ys, ym) == 0);
    let j = all.index_of(x);
    assert(0 <= j < all.len() && all[j] == x);
    assert(find_target(ts, x) == 0);
    let a = leaf.origin->Lifeline_1;
    let act = ts[0].1;
    let g = leaf_geometry(leaf, all, ys, xm, ym);
    let shift = target_midline_shift(g.required_space_under_emission, x, act, ys);
    assert(g.required_space_under_emission == Some((x, space_under_emission(leaf, ym) as u64)));
    assert(shift > prepost_sizes(a).3 + ys);
    assert(targets_bottom(leaf, ts, ys, ym) >= shift + target_sizes(act).3);
}

/// Extraction and finalisation are functions of the term, the lifelines, their
/// headers and the margins: two runs on the same inputs give the same coordinates
/// and instructions.
pub proof fn lemma_layout_is_deterministic<T, S, C>(
    all: Seq<usize>,
    headers: Seq<MeasuredText<T>>,
    t: DrawableInteraction<T, S, C>,
    ys: u64,
    m: u64,
    bp: u64,
    first: DiagramGeometry<T, S, C>,
    second: DiagramGeometry<T, S, C>,
)
    requires
        first == diagram_geometry(all, headers, t, ys, m, bp),
        second == diagram_geometry(all, headers, t, ys, m, bp),
    ensures
        first == second,
{
}


proof fn lemma_lanes_monotone(fr: Seq<LifelineRequiredHorizontalSpaceInDiagram>, m: u64, k: int, j: int)
    requires
        0 <= k <= j,
    ensures
        lanes_width(fr, m, k) <= lanes_width(fr, m, j),
    decreases j,
{
    if j > k {
        lemma_lanes_monotone(fr, m, k, j - 1);
    }
}

/// Lifelines stand left to right in the given order, and the room each one needs on
/// its right ends, one margin apart, before the room that any later one needs on its
/// left begins: what is drawn beside two lifelines never overlaps horizontally.
pub proof fn lemma_lifeline_rooms_do_not_overlap<T, S, C>(
    all: Seq<usize>,
    headers: Seq<MeasuredText<T>>,
    t: DrawableInteraction<T, S, C>,
    ys: u64,
    m: u64,
    bp: u64,
    p: int,
    q: int,
)
    requires
        0 <= p < q < all.len(),
    ensures
        ({
            let g = diagram_geometry(all, headers, t, ys, m, bp);
            let fr = widened_reqs(walk(t, all, m as int, 0, ys, m).info.reqs, headers);
            &&& g.lifelines_horizontal_positions[p] + fr[p].on_the_right + m <= g.lifelines_horizontal_positions[q]
                - fr[q].on_the_left
            &&& g.lifelines_horizontal_positions[p] < g.lifelines_horizontal_positions[q] || m == 0
        }),
{
    let fr = widened_reqs(walk(t, all, m as int, 0, ys, m).info.reqs, headers);
    lemma_lanes_monotone(fr, m, p + 1, q);
}


/// A framed operator reserves, left of the leftmost lifeline that its operands name,
/// at least its label's width plus two margins; with no lifeline named it reserves
/// nothing.
pub proof fn lemma_frame_label_reserved_on_leftmost<T, S, C>(
    t: DrawableInteraction<T, S, C>,
    all: Seq<usize>,
    y: int,
    nest: u32,
    ys: u64,
    m: u64,
)
    requires
        t matches DrawableInteraction::Operator(op, _) && op.kind is Framed,
        tree_wf(t, all),
        m <= MAX_DIM,
    ensures
        ({
            let w = walk(t, all, y, nest, ys, m);
            let label = t->Operator_0.kind->Framed_0;
            let lm = first_true_from(w.info.involved, 0);
            lm >= 0 ==> {
                &&& 0 <= lm < all.len()
                &&& w.info.involved[lm]
                &&& w.info.reqs[lm] matches Some(r) && r.on_the_left >= label.width + 2 * m
            }
        }),
{
    let op = t->Operator_0;
    let subs = t->Operator_1;
    let c = operator_costs(op.kind, m, m);
    let inner_nest = nest_inc(nest);
    lemma_operands_info_shape(t, all, y + c.0, inner_nest, c.1 as u64, ys, m, subs@.len() as int);
    let acc = walk_operands(t, all, y + c.0, inner_nest, c.1 as u64, ys, m, subs@.len() as int);
    lemma_first_true_is_true(acc.info.involved, 0);
}


/// Headers centred on their lifelines never overlap: any two lifelines stand at least
/// half of each header's width, plus a margin, apart.
pub proof fn lemma_headers_do_not_overlap<T, S, C>(
    all: Seq<usize>,
    headers: Seq<MeasuredText<T>>,
    t: DrawableInteraction<T, S, C>,
    ys: u64,
    m: u64,
    bp: u64,
    p: int,
    q: int,
)
    requires
        0 <= p < q < all.len(),
        headers.len() == all.len(),
        tree_wf(t, all),
    ensures
        ({
            let g = diagram_geometry(all, headers, t, ys, m, bp);
            2 * (g.lifelines_horizontal_positions[q] - g.lifelines_horizontal_positions[p]) >= headers[p].width
                + headers[q].width + 2 * m
        }),
{
    lemma_walk_info_shape(t, all, m as int, 0, ys, m);
    lemma_lifeline_rooms_do_not_overlap(all, headers, t, ys, m, bp, p, q);
}

} // verus!

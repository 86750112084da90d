use vstd::prelude::*;

use crate::horizontal::{max_u64, reqs_bounded, reqs_merge, LifelineRequiredHorizontalSpaceInDiagram, MAX_DIM};
use crate::leaf::DrawableBroadcastLeafPattern;
use crate::leaf_info::{imax, leaf_geometry, leaf_wf, BroadcastLeafPatternIntermediateInformation, LeafGeometry, LEAF_REQ_BOUND};
use crate::operator::{operator_costs, operator_wf, DrawableOperator};

verus! {

/// An interaction term whose leaves and operators have been turned into drawables.
/// A leaf that draws nothing (an empty interaction) is `Leaf(None)`.
pub enum DrawableInteraction<T, S, C> {
    Leaf(Option<DrawableBroadcastLeafPattern<T, S>>),
    Operator(DrawableOperator<T, C>, Vec<DrawableInteraction<T, S, C>>),
}

/// Every leaf and operator of the term is fit for layout against `all`.
pub open spec fn tree_wf<T, S, C>(t: DrawableInteraction<T, S, C>, all: Seq<usize>) -> bool
    decreases t,
{
    match t {
        DrawableInteraction::Leaf(None) => all.no_duplicates(),
        DrawableInteraction::Leaf(Some(l)) => leaf_wf(l, all),
        DrawableInteraction::Operator(op, subs) => all.no_duplicates() && operator_wf(op) && forall|i: int|
            0 <= i < subs@.len() ==> tree_wf(#[trigger] subs@[i], all),
    }
}

/// What a subterm hands up to its parent: the widest gates, the lifelines it names
/// and what it asks of each lifeline, by position in the diagram.
pub struct RecInfo {
    pub max_input_gate_width: int,
    pub max_output_gate_width: int,
    pub involved: Seq<bool>,
    pub reqs: Seq<Option<LifelineRequiredHorizontalSpaceInDiagram>>,
}

pub open spec fn empty_info(n: nat) -> RecInfo {
    RecInfo {
        max_input_gate_width: 0,
        max_output_gate_width: 0,
        involved: Seq::new(n, |i: int| false),
        reqs: Seq::new(n, |i: int| None),
    }
}

/// Sibling results combine by maximum, never by sum.
pub open spec fn merge_info(a: RecInfo, b: RecInfo) -> RecInfo {
    RecInfo {
        max_input_gate_width: imax(a.max_input_gate_width, b.max_input_gate_width),
        max_output_gate_width: imax(a.max_output_gate_width, b.max_output_gate_width),
        involved: Seq::new(a.involved.len(), |i: int| a.involved[i] || b.involved[i]),
        reqs: reqs_merge(a.reqs, b.reqs),
    }
}

pub struct LeafInstructionView<T, S> {
    pub pattern: DrawableBroadcastLeafPattern<T, S>,
    pub geometry: LeafGeometry,
    pub relative_y_pos: int,
}

pub struct OperatorInstructionView<T, C> {
    pub drawable_op: DrawableOperator<T, C>,
    pub enclosed_lfs_reqs: Seq<Option<LifelineRequiredHorizontalSpaceInDiagram>>,
    pub nest_depth: u32,
    pub separators: Seq<int>,
}

/// The outcome of walking one subterm from vertical position `ypos` onward.
pub struct Walk<T, S, C> {
    pub ypos: int,
    pub leaves: Seq<LeafInstructionView<T, S>>,
    pub operators: Seq<OperatorInstructionView<T, C>>,
    pub info: RecInfo,
}

/// The outcome of walking the first operands of an operator.
pub struct OperandsWalk<T, S, C> {
    pub ypos: int,
    pub leaves: Seq<LeafInstructionView<T, S>>,
    pub operators: Seq<OperatorInstructionView<T, C>>,
    pub separators: Seq<int>,
    pub info: RecInfo,
}

pub open spec fn walk_rank<T, S, C>(t: DrawableInteraction<T, S, C>) -> nat {
    match t {
        DrawableInteraction::Operator(_, subs) => subs@.len() + 1,
        _ => 0,
    }
}

pub open spec fn nest_inc(n: u32) -> u32 {
    if n < u32::MAX { (n + 1) as u32 } else { n }
}

/// Index of the first `true`, or -1.
pub open spec fn first_true_from(s: Seq<bool>, i: int) -> int
    decreases s.len() - i,
{
    if i >= s.len() || i < 0 {
        -1
    } else if s[i] {
        i
    } else {
        first_true_from(s, i + 1)
    }
}

/// The operands of the operator at the root of `t`, walked up to the `k`-th: between
/// two operands one full spacing `s`, after each a half of it, where a separator lies.
pub open spec fn walk_operands<T, S, C>(
    t: DrawableInteraction<T, S, C>,
    all: Seq<usize>,
    y1: int,
    nest: u32,
    s: u64,
    ys: u64,
    m: u64,
    k: int,
) -> OperandsWalk<T, S, C>
    decreases t, k,
{
    match t {
        DrawableInteraction::Operator(_, subs) => {
            if k <= 0 || k > subs@.len() {
                OperandsWalk {
                    ypos: y1,
                    leaves: seq![],
                    operators: seq![],
                    separators: seq![],
                    info: empty_info(all.len()),
                }
            } else {
                let prev = walk_operands(t, all, y1, nest, s, ys, m, k - 1);
                let w = walk(subs@[k - 1], all, prev.ypos, nest, ys, m);
                let y_sep = w.ypos + s / 2;
                OperandsWalk {
                    ypos: if k < subs@.len() { y_sep + (s - s / 2) } else { y_sep },
                    leaves: prev.leaves + w.leaves,
                    operators: prev.operators + w.operators,
                    separators: prev.separators.push(y_sep),
                    info: merge_info(prev.info, w.info),
                }
            }
        },
        _ => OperandsWalk {
            ypos: y1,
            leaves: seq![],
            operators: seq![],
            separators: seq![],
            info: empty_info(all.len()),
        },
    }
}

/// The depth-first, document-order walk of a term from vertical position `y`: each
/// leaf is placed at the cursor and moves it down by its height; an operator moves it
/// by its top padding, walks its operands, takes the maximum of their requirements,
/// widens its leftmost enclosed lifeline for its label, and records its separators.
pub open spec fn walk<T, S, C>(
    t: DrawableInteraction<T, S, C>,
    all: Seq<usize>,
    y: int,
    nest: u32,
    ys: u64,
    m: u64,
) -> Walk<T, S, C>
    decreases t, walk_rank(t),
{
    match t {
        DrawableInteraction::Leaf(None) => Walk {
            ypos: y,
            leaves: seq![],
            operators: seq![],
            info: empty_info(all.len()),
        },
        DrawableInteraction::Leaf(Some(l)) => {
            let g = leaf_geometry(l, all, ys, m, m);
            Walk {
                ypos: y + g.y_space_top_to_bottom,
                leaves: seq![LeafInstructionView { pattern: l, geometry: g, relative_y_pos: y }],
                operators: seq![],
                info: RecInfo {
                    max_input_gate_width: g.input_gate_width,
                    max_output_gate_width: g.output_gates_max_width,
                    involved: g.involved,
                    reqs: g.reqs,
                },
            }
        },
        DrawableInteraction::Operator(op, subs) => {
            let c = operator_costs(op.kind, m, m);
            let inner_nest = if c.2 { nest_inc(nest) } else { nest };
            let acc = walk_operands(t, all, y + c.0, inner_nest, c.1 as u64, ys, m, subs@.len() as int);
            let lm = first_true_from(acc.info.involved, 0);
            let reqs = if lm >= 0 {
                let r = acc.info.reqs[lm]->0;
                acc.info.reqs.update(
                    lm,
                    Some(LifelineRequiredHorizontalSpaceInDiagram {
                        on_the_left: max_u64(r.on_the_left, c.3 as u64),
                        on_the_right: r.on_the_right,
                    }),
                )
            } else {
                acc.info.reqs
            };
            let enclosed = Seq::new(
                all.len(),
                |p: int|
                    if acc.info.involved[p] {
                        reqs[p]
                    } else {
                        None
                    },
            );
            Walk {
                ypos: acc.ypos,
                leaves: acc.leaves,
                operators: acc.operators.push(
                    OperatorInstructionView {
                        drawable_op: op,
                        enclosed_lfs_reqs: enclosed,
                        nest_depth: nest,
                        separators: seq![y] + acc.separators,
                    },
                ),
                info: RecInfo { reqs: reqs, ..acc.info },
            }
        },
    }
}


pub(crate) proof fn lemma_walk_mono<T, S, C>(t: DrawableInteraction<T, S, C>, all: Seq<usize>, y: int, nest: u32, ys: u64, m: u64)
    ensures
        walk(t, all, y, nest, ys, m).ypos >= y,
    decreases t, walk_rank(t),
{
    match t {
        DrawableInteraction::Operator(op, subs) => {
            let c = operator_costs(op.kind, m, m);
            let inner_nest = if c.2 { nest_inc(nest) } else { nest };
            lemma_operands_mono(t, all, y + c.0, inner_nest, c.1 as u64, ys, m, subs@.len() as int);
        },
        _ => {},
    }
}

pub(crate) proof fn lemma_operands_mono<T, S, C>(
    t: DrawableInteraction<T, S, C>,
    all: Seq<usize>,
    y1: int,
    nest: u32,
    s: u64,
    ys: u64,
    m: u64,
    k: int,
)
    ensures
        walk_operands(t, all, y1, nest, s, ys, m, k).ypos >= y1,
        k >= 1 && k <= walk_rank(t) - 1 ==> walk_operands(t, all, y1, nest, s, ys, m, k).ypos >= walk_operands(
            t,
            all,
            y1,
            nest,
            s,
            ys,
            m,
            k - 1,
        ).ypos,
    decreases t, k,
{
    match t {
        DrawableInteraction::Operator(_, subs) => {
            if k > 0 && k <= subs@.len() {
                lemma_operands_mono(t, all, y1, nest, s, ys, m, k - 1);
                let prev = walk_operands(t, all, y1, nest, s, ys, m, k - 1);
                lemma_walk_mono(subs@[k - 1], all, prev.ypos, nest, ys, m);
            }
        },
        _ => {},
    }
}

pub(crate) proof fn lemma_operands_chain<T, S, C>(
    t: DrawableInteraction<T, S, C>,
    all: Seq<usize>,
    y1: int,
    nest: u32,
    s: u64,
    ys: u64,
    m: u64,
    k: int,
    j: int,
)
    requires
        0 <= k <= j,
        j <= walk_rank(t) - 1,
    ensures
        walk_operands(t, all, y1, nest, s, ys, m, k).ypos <= walk_operands(t, all, y1, nest, s, ys, m, j).ypos,
    decreases j,
{
    if j > k {
        lemma_operands_chain(t, all, y1, nest, s, ys, m, k, j - 1);
        lemma_operands_mono(t, all, y1, nest, s, ys, m, j);
    }
}

/// An instruction to draw one leaf, at a vertical position relative to the top of the
/// diagram's body.
pub struct CompleteBroadcastLeafPatternDrawInstruction<T, S> {
    pub pattern: DrawableBroadcastLeafPattern<T, S>,
    pub intermediate_info: BroadcastLeafPatternIntermediateInformation,
    pub relative_y_pos: u64,
}

impl<T, S> View for CompleteBroadcastLeafPatternDrawInstruction<T, S> {
    type V = LeafInstructionView<T, S>;

    open spec fn view(&self) -> LeafInstructionView<T, S> {
        LeafInstructionView {
            pattern: self.pattern,
            geometry: self.intermediate_info@,
            relative_y_pos: self.relative_y_pos as int,
        }
    }
}

impl<T, S> CompleteBroadcastLeafPatternDrawInstruction<T, S> {
    pub fn new(
        pattern: DrawableBroadcastLeafPattern<T, S>,
        intermediate_info: BroadcastLeafPatternIntermediateInformation,
        relative_y_pos: u64,
    ) -> (r: Self)
        ensures
            r.pattern == pattern,
            r.intermediate_info == intermediate_info,
            r.relative_y_pos == relative_y_pos,
    {
        CompleteBroadcastLeafPatternDrawInstruction { pattern, intermediate_info, relative_y_pos }
    }
}

pub open spec fn u64s_as_ints(s: Seq<u64>) -> Seq<int> {
    s.map_values(|x: u64| x as int)
}

/// An instruction to draw one operator: the requirements of the lifelines it encloses
/// (by position, `None` for the others), its nesting depth, and the vertical positions
/// of its top, its separators and its bottom.
pub struct CompleteOperatorDrawInstruction<T, C> {
    pub drawable_op: DrawableOperator<T, C>,
    pub enclosed_lfs_reqs: Vec<Option<LifelineRequiredHorizontalSpaceInDiagram>>,
    pub nest_depth: u32,
    pub horizontal_seps_relative_vertical_positions: Vec<u64>,
}

impl<T, C> View for CompleteOperatorDrawInstruction<T, C> {
    type V = OperatorInstructionView<T, C>;

    open spec fn view(&self) -> OperatorInstructionView<T, C> {
        OperatorInstructionView {
            drawable_op: self.drawable_op,
            enclosed_lfs_reqs: self.enclosed_lfs_reqs@,
            nest_depth: self.nest_depth,
            separators: u64s_as_ints(self.horizontal_seps_relative_vertical_positions@),
        }
    }
}

impl<T, C> CompleteOperatorDrawInstruction<T, C> {
    pub fn new(
        drawable_op: DrawableOperator<T, C>,
        enclosed_lfs_reqs: Vec<Option<LifelineRequiredHorizontalSpaceInDiagram>>,
        nest_depth: u32,
        horizontal_seps_relative_vertical_positions: Vec<u64>,
    ) -> (r: Self)
        ensures
            r.drawable_op == drawable_op,
            r.enclosed_lfs_reqs == enclosed_lfs_reqs,
            r.nest_depth == nest_depth,
            r.horizontal_seps_relative_vertical_positions == horizontal_seps_relative_vertical_positions,
    {
        CompleteOperatorDrawInstruction {
            drawable_op,
            enclosed_lfs_reqs,
            nest_depth,
            horizontal_seps_relative_vertical_positions,
        }
    }
}

pub open spec fn leaf_views<T, S>(s: Seq<CompleteBroadcastLeafPatternDrawInstruction<T, S>>) -> Seq<LeafInstructionView<T, S>> {
    s.map_values(|x: CompleteBroadcastLeafPatternDrawInstruction<T, S>| x@)
}

pub open spec fn operator_views<T, C>(s: Seq<CompleteOperatorDrawInstruction<T, C>>) -> Seq<OperatorInstructionView<T, C>> {
    s.map_values(|x: CompleteOperatorDrawInstruction<T, C>| x@)
}

/// What a subterm hands up to its parent during extraction.
pub struct InteractionIntermediateInformation {
    pub max_input_gate_width: u64,
    pub max_output_gate_width: u64,
    /// by position in the diagram
    pub involved_lifelines: Vec<bool>,
    /// by position in the diagram
    pub lfs_horizontal_reqs: Vec<Option<LifelineRequiredHorizontalSpaceInDiagram>>,
}

impl View for InteractionIntermediateInformation {
    type V = RecInfo;

    open spec fn view(&self) -> RecInfo {
        RecInfo {
            max_input_gate_width: self.max_input_gate_width as int,
            max_output_gate_width: self.max_output_gate_width as int,
            involved: self.involved_lifelines@,
            reqs: self.lfs_horizontal_reqs@,
        }
    }
}

/// The shape that every subterm's information keeps: one entry per diagram
/// lifeline, bounded requirements, and a requirement on every lifeline it names.
pub open spec fn info_wf(i: RecInfo, n: nat) -> bool {
    &&& i.involved.len() == n
    &&& i.reqs.len() == n
    &&& reqs_bounded(i.reqs, LEAF_REQ_BOUND)
    &&& forall|p: int| 0 <= p < n && #[trigger] i.involved[p] ==> i.reqs[p] is Some
    &&& 0 <= i.max_input_gate_width <= MAX_DIM
    &&& 0 <= i.max_output_gate_width <= MAX_DIM
}

impl InteractionIntermediateInformation {
    pub fn new(
        max_input_gate_width: u64,
        max_output_gate_width: u64,
        involved_lifelines: Vec<bool>,
        lfs_horizontal_reqs: Vec<Option<LifelineRequiredHorizontalSpaceInDiagram>>,
    ) -> (r: Self)
        ensures
            r.max_input_gate_width == max_input_gate_width,
            r.max_output_gate_width == max_output_gate_width,
            r.involved_lifelines == involved_lifelines,
            r.lfs_horizontal_reqs == lfs_horizontal_reqs,
    {
        InteractionIntermediateInformation {
            max_input_gate_width,
            max_output_gate_width,
            involved_lifelines,
            lfs_horizontal_reqs,
        }
    }
}

fn copy_flags(v: &Vec<bool>) -> (r: Vec<bool>)
    ensures
        r@ == v@,
{
    let mut r: Vec<bool> = Vec::new();
    let mut i: usize = 0;
    while i < v.len()
        invariant
            i <= v@.len(),
            r@ == v@.take(i as int),
        decreases v@.len() - i,
    {
        r.push(v[i]);
        i = i + 1;
        assert(r@ =~= v@.take(i as int));
    }
    assert(v@.take(v@.len() as int) =~= v@);
    r
}

fn copy_reqs(v: &Vec<Option<LifelineRequiredHorizontalSpaceInDiagram>>) -> (r: Vec<Option<LifelineRequiredHorizontalSpaceInDiagram>>)
    ensures
        r@ == v@,
{
    let mut r: Vec<Option<LifelineRequiredHorizontalSpaceInDiagram>> = Vec::new();
    let mut i: usize = 0;
    while i < v.len()
        invariant
            i <= v@.len(),
            r@ == v@.take(i as int),
        decreases v@.len() - i,
    {
        r.push(v[i]);
        i = i + 1;
        assert(r@ =~= v@.take(i as int));
    }
    assert(v@.take(v@.len() as int) =~= v@);
    r
}


fn empty_information(n: usize) -> (r: InteractionIntermediateInformation)
    ensures
        r@ == empty_info(n as nat),
{
    let mut involved: Vec<bool> = Vec::new();
    let mut reqs: Vec<Option<LifelineRequiredHorizontalSpaceInDiagram>> = Vec::new();
    let mut i: usize = 0;
    while i < n
        invariant
            i <= n,
            involved@ == Seq::new(i as nat, |j: int| false),
            reqs@ == Seq::new(i as nat, |j: int| None::<LifelineRequiredHorizontalSpaceInDiagram>),
        decreases n - i,
    {
        involved.push(false);
        reqs.push(None);
        i = i + 1;
        assert(involved@ =~= Seq::new(i as nat, |j: int| false));
        assert(reqs@ =~= Seq::new(i as nat, |j: int| None::<LifelineRequiredHorizontalSpaceInDiagram>));
    }
    InteractionIntermediateInformation::new(0, 0, involved, reqs)
}

fn or_flags(a: &mut Vec<bool>, b: &Vec<bool>)
    requires
        old(a)@.len() == b@.len(),
    ensures
        final(a)@ == Seq::new(old(a)@.len(), |j: int| old(a)@[j] || b@[j]),
{
    let n = a.len();
    let ghost a0 = a@;
    let mut i: usize = 0;
    while i < n
        invariant
            i <= n,
            n == a@.len(),
            n == b@.len(),
            n == a0.len(),
            a0 == old(a)@,
            forall|j: int| #![trigger a@[j]] 0 <= j < i ==> a@[j] == (a0[j] || b@[j]),
            forall|j: int| #![trigger a@[j]] i <= j < n ==> a@[j] == a0[j],
        decreases n - i,
    {
        let ai = a[i];
        let bi = b[i];
        let ghost before = a@;
        a.set(i, ai || bi);
        assert(a@ == before.update(i as int, ai || bi));
        assert(a@[i as int] == (a0[i as int] || b@[i as int]));
        i = i + 1;
    }
    assert(a@ =~= Seq::new(old(a)@.len(), |j: int| old(a)@[j] || b@[j]));
}

fn first_involved(v: &Vec<bool>) -> (r: Option<usize>)
    ensures
        match r {
            Some(i) => first_true_from(v@, 0) == i as int && i < v@.len() && v@[i as int],
            None => first_true_from(v@, 0) == -1,
        },
{
    let mut i: usize = 0;
    while i < v.len()
        invariant
            i <= v@.len(),
            first_true_from(v@, 0) == first_true_from(v@, i as int),
        decreases v@.len() - i,
    {
        if v[i] {
            return Some(i);
        }
        i = i + 1;
    }
    None
}

/// Walks the term in document order from the vertical position `*ypos`: appends an
/// instruction for each leaf that draws something and for each operator, moves
/// `*ypos` past the term, and returns what the term asks of the lifelines.
pub fn extract_intermediate_drawing_information_rec<T, S, C>(
    all_lifelines_in_diagram: &Vec<usize>,
    int_repr: DrawableInteraction<T, S, C>,
    ypos: &mut u64,
    nest_shift: u32,
    encountered_leaves: &mut Vec<CompleteBroadcastLeafPatternDrawInstruction<T, S>>,
    encountered_operators: &mut Vec<CompleteOperatorDrawInstruction<T, C>>,
    y_margin_between_seq_operands: u64,
    margin_between_items: u64,
) -> (r: InteractionIntermediateInformation)
    requires
        tree_wf(int_repr, all_lifelines_in_diagram@),
        y_margin_between_seq_operands <= MAX_DIM,
        margin_between_items <= MAX_DIM,
        walk(
            int_repr,
            all_lifelines_in_diagram@,
            *old(ypos) as int,
            nest_shift,
            y_margin_between_seq_operands,
            margin_between_items,
        ).ypos <= u64::MAX,
    ensures
        ({
            let w = walk(
                int_repr,
                all_lifelines_in_diagram@,
                *old(ypos) as int,
                nest_shift,
                y_margin_between_seq_operands,
                margin_between_items,
            );
            &&& *final(ypos) as int == w.ypos
            &&& leaf_views(final(encountered_leaves)@) == leaf_views(old(encountered_leaves)@) + w.leaves
            &&& operator_views(final(encountered_operators)@) == operator_views(old(encountered_operators)@)
                + w.operators
            &&& r@ == w.info
        }),
        info_wf(r@, all_lifelines_in_diagram@.len()),
    decreases int_repr,
{
    let all = all_lifelines_in_diagram;
    let ys = y_margin_between_seq_operands;
    let m = margin_between_items;
    let n = all.len();
    let ghost t0 = int_repr;
    let ghost y0 = *ypos as int;
    let ghost old_leaves = leaf_views(encountered_leaves@);
    let ghost old_ops = operator_views(encountered_operators@);
    match int_repr {
        DrawableInteraction::Leaf(None) => {
            assert(all@.no_duplicates());
            empty_information(n)
        },
        DrawableInteraction::Leaf(Some(l)) => {
            let info = l.get_intermediate_information(all, ys, m, m);
            let rec = InteractionIntermediateInformation::new(
                info.input_gate_width,
                info.output_gates_max_width,
                copy_flags(&info.involved_lifelines),
                copy_reqs(&info.lifelines_horizontal_requirements),
            );
            let h = info.y_space_top_to_bottom;
            let y = *ypos;
            encountered_leaves.push(CompleteBroadcastLeafPatternDrawInstruction::new(l, info, y));
            *ypos = y + h;
            assert(leaf_views(encountered_leaves@) =~= old_leaves + walk(t0, all@, y0, nest_shift, ys, m).leaves);
            assert(operator_views(encountered_operators@) =~= old_ops + walk(t0, all@, y0, nest_shift, ys, m).operators);
            rec
        },
        DrawableInteraction::Operator(op, subs) => {
            let ghost osubs = subs@;
            let mut seps: Vec<u64> = Vec::new();
            seps.push(*ypos);
            let oi = op.get_intermediate_information(m, m);
            let ghost c = operator_costs(op.kind, m, m);
            let sp = oi.required_vertical_space_between_operands;
            let rec_nest = if oi.requires_nest_shift {
                if nest_shift < u32::MAX { nest_shift + 1 } else { nest_shift }
            } else {
                nest_shift
            };
            let ghost y1 = y0 + c.0;
            let num = subs.len();
            proof {
                lemma_operands_mono(t0, all@, y1, rec_nest, sp, ys, m, 0);
                lemma_operands_chain(t0, all@, y1, rec_nest, sp, ys, m, 0, num as int);
                assert(walk_operands(t0, all@, y1, rec_nest, sp, ys, m, 0).ypos == y1);
            }
            *ypos = *ypos + oi.required_vertical_space_at_the_top;
            let mut acc = empty_information(n);
            let mut subs = subs;
            let mut k: usize = 0;
            assert(leaf_views(encountered_leaves@) =~= old_leaves + seq![]);
            assert(operator_views(encountered_operators@) =~= old_ops + seq![]);
            assert(u64s_as_ints(seps@) =~= seq![y0] + Seq::<int>::empty());
            while k < num
                invariant
                    k <= num,
                    num == osubs.len(),
                    t0 == int_repr,
                    t0 matches DrawableInteraction::Operator(_, s0) && s0@ == osubs,
                    subs@ == osubs.subrange(k as int, num as int),
                    n == all@.len(),
                    all@.no_duplicates(),
                    forall|i: int| 0 <= i < osubs.len() ==> tree_wf(#[trigger] osubs[i], all@),
                    ys <= MAX_DIM,
                    m <= MAX_DIM,
                    sp as int == c.1,
                    walk_operands(t0, all@, y1, rec_nest, sp, ys, m, num as int).ypos <= u64::MAX,
                    ({
                        let a = walk_operands(t0, all@, y1, rec_nest, sp, ys, m, k as int);
                        &&& *ypos as int == a.ypos
                        &&& leaf_views(encountered_leaves@) == old_leaves + a.leaves
                        &&& operator_views(encountered_operators@) == old_ops + a.operators
                        &&& u64s_as_ints(seps@) == seq![y0] + a.separators
                        &&& acc@ == a.info
                    }),
                    info_wf(acc@, n as nat),
                decreases num - k,
            {
                let child = subs.remove(0);
                assert(child == osubs[k as int]);
                let ghost a = walk_operands(t0, all@, y1, rec_nest, sp, ys, m, k as int);
                let ghost wc = walk(child, all@, *ypos as int, rec_nest, ys, m);
                proof {
                    lemma_operands_chain(t0, all@, y1, rec_nest, sp, ys, m, k as int + 1, num as int);
                    lemma_walk_mono(child, all@, *ypos as int, rec_nest, ys, m);
                    let s0 = t0->Operator_1;
                    assert(s0@ == osubs);
                    assert(decreases_to!(s0 => s0[k as int]));
                    assert(decreases_to!(t0 => s0));
                    assert(decreases_to!(t0 => child));
                }
                let sub = extract_intermediate_drawing_information_rec(
                    all,
                    child,
                    ypos,
                    rec_nest,
                    encountered_leaves,
                    encountered_operators,
                    ys,
                    m,
                );
                let ghost before = acc@;
                acc.max_input_gate_width = if sub.max_input_gate_width > acc.max_input_gate_width {
                    sub.max_input_gate_width
                } else {
                    acc.max_input_gate_width
                };
                acc.max_output_gate_width = if sub.max_output_gate_width > acc.max_output_gate_width {
                    sub.max_output_gate_width
                } else {
                    acc.max_output_gate_width
                };
                or_flags(&mut acc.involved_lifelines, &sub.involved_lifelines);
                LifelineRequiredHorizontalSpaceInDiagram::update_all_to_max(
                    &mut acc.lfs_horizontal_reqs,
                    sub.lfs_horizontal_reqs,
                );
                *ypos = *ypos + sp / 2;
                let ghost seps_before = seps@;
                seps.push(*ypos);
                assert(u64s_as_ints(seps@) =~= u64s_as_ints(seps_before).push(*ypos as int));
                if k < num - 1 {
                    *ypos = *ypos + (sp - sp / 2);
                }
                proof {
                    let a2 = walk_operands(t0, all@, y1, rec_nest, sp, ys, m, k + 1);
                    assert(a2.separators == a.separators.push(wc.ypos + sp / 2));
                    assert(seps@.last() as int == wc.ypos + sp / 2);
                    assert(u64s_as_ints(seps@).last() == wc.ypos + sp / 2);
                    assert(a2.info.involved =~= acc@.involved);
                    assert(acc@ == a2.info);
                    assert(leaf_views(encountered_leaves@) =~= old_leaves + a2.leaves);
                    assert(operator_views(encountered_operators@) =~= old_ops + a2.operators);
                    assert(u64s_as_ints(seps@) =~= seq![y0] + a2.separators);
                    assert forall|p: int| 0 <= p < n && #[trigger] acc@.involved[p] implies acc@.reqs[p] is Some by {
                        assert(before.involved[p] ==> before.reqs[p] is Some);
                    }
                    assert forall|p: int| 0 <= p < acc@.reqs.len() implies (#[trigger] acc@.reqs[p] matches Some(r)
                        ==> r.on_the_left <= LEAF_REQ_BOUND && r.on_the_right <= LEAF_REQ_BOUND) by {
                        assert(before.reqs[p] matches Some(r) ==> r.on_the_left <= LEAF_REQ_BOUND && r.on_the_right <= LEAF_REQ_BOUND);
                        assert(sub@.reqs[p] matches Some(r) ==> r.on_the_left <= LEAF_REQ_BOUND && r.on_the_right <= LEAF_REQ_BOUND);
                    }
                }
                k = k + 1;
            }
            let ghost a = walk_operands(t0, all@, y1, rec_nest, sp, ys, m, num as int);
            let ghost acc_reqs = acc.lfs_horizontal_reqs@;
            match first_involved(&acc.involved_lifelines) {
                Some(lm) => {
                    let cur = match acc.lfs_horizontal_reqs[lm] {
                        Some(x) => x,
                        None => LifelineRequiredHorizontalSpaceInDiagram::new_empty(),
                    };
                    let left = if oi.required_horizontal_space_at_left_most_lifeline > cur.on_the_left {
                        oi.required_horizontal_space_at_left_most_lifeline
                    } else {
                        cur.on_the_left
                    };
                    acc.lfs_horizontal_reqs.set(lm, Some(LifelineRequiredHorizontalSpaceInDiagram::new(left, cur.on_the_right)));
                },
                None => {},
            }
            let mut enclosed: Vec<Option<LifelineRequiredHorizontalSpaceInDiagram>> = Vec::new();
            let mut i: usize = 0;
            while i < n
                invariant
                    i <= n,
                    n == all@.len(),
                    acc.involved_lifelines@.len() == n,
                    acc.lfs_horizontal_reqs@.len() == n,
                    enclosed@.len() == i,
                    forall|j: int| 0 <= j < i ==> enclosed@[j] == if acc.involved_lifelines@[j] {
                        acc.lfs_horizontal_reqs@[j]
                    } else {
                        None
                    },
                decreases n - i,
            {
                if acc.involved_lifelines[i] {
                    enclosed.push(acc.lfs_horizontal_reqs[i]);
                } else {
                    enclosed.push(None);
                }
                i = i + 1;
            }
            let ghost wt = walk(t0, all@, y0, nest_shift, ys, m);
            let ghost ops_before = encountered_operators@;
            let instr = CompleteOperatorDrawInstruction::new(op, enclosed, nest_shift, seps);
            assert(instr@.enclosed_lfs_reqs =~= wt.operators.last().enclosed_lfs_reqs);
            assert(instr@ == wt.operators.last());
            encountered_operators.push(instr);
            assert(operator_views(encountered_operators@) =~= operator_views(ops_before).push(instr@));
            proof {
                assert(acc.lfs_horizontal_reqs@ =~= wt.info.reqs);
                assert(acc@ == wt.info);
                assert(enclosed@ =~= wt.operators.last().enclosed_lfs_reqs);
                assert(operator_views(encountered_operators@) =~= old_ops + wt.operators);
                assert forall|p: int| 0 <= p < n && #[trigger] acc@.involved[p] implies acc@.reqs[p] is Some by {
                    assert(a.info.involved[p] ==> a.info.reqs[p] is Some);
                }
                assert forall|p: int| 0 <= p < acc@.reqs.len() implies (#[trigger] acc@.reqs[p] matches Some(r)
                    ==> r.on_the_left <= LEAF_REQ_BOUND && r.on_the_right <= LEAF_REQ_BOUND) by {
                    assert(a.info.reqs[p] matches Some(r) ==> r.on_the_left <= LEAF_REQ_BOUND && r.on_the_right <= LEAF_REQ_BOUND);
                }
            }
            acc
        },
    }
}

} // verus!

use vstd::prelude::*;

use crate::extract::{tree_wf, walk, walk_operands, DrawableInteraction};
use crate::finalize::{
    diagram_geometry, diagram_wf, extract_drawing_information, CompleteInteractionDrawInstruction, MAX_LIFELINES,
};
use crate::horizontal::MAX_DIM;
use crate::internal_representation::{CommonIoInteractionInterface, InteractionInternalRepresentation};
use crate::leaf::{opt_text_ok, target_ok, text_ok, DrawableBroadcastLeafPattern, DrawableBroadcastLeafPatternOrigin, MeasuredText, TargetLifelineBroadcastDrawInstruction};
use crate::leaf_info::leaf_wf;
use crate::operator::{operator_costs, DrawableOperator, DrawableOperatorKind};

verus! {

/// What an application supplies to have its interactions laid out: the order of its
/// lifelines, their headers, which lifelines a pattern involves, drawables for its
/// patterns and operators, and the margins.
pub trait ContextAwareInteractionDrawingInstructionsExtractor<CioII: CommonIoInteractionInterface, T, S, C> {
    /// The order of lifelines, left to right.
    fn lifelines_compare(&self, l1: usize, l2: usize) -> std::cmp::Ordering;

    fn get_involved_lifelines(&self, pattern: &CioII::InteractionLeafPatternType) -> Vec<usize>;

    fn get_lifeline_header(&self, l: usize) -> MeasuredText<T>;

    /// `None` for a pattern that draws nothing, such as the empty interaction.
    fn to_drawable_pattern(&self, pattern: &CioII::InteractionLeafPatternType) -> Option<DrawableBroadcastLeafPattern<T, S>>;

    fn to_drawable_operator(&self, op: &CioII::InteractionOperatorType) -> DrawableOperator<T, C>;

    fn get_y_margin_between_seq_operands(&self) -> u64;

    fn get_margin_between_items(&self) -> u64;

    fn get_border_padding(&self) -> u64;
}

fn add_distinct(acc: &mut Vec<usize>, l: usize)
    requires
        old(acc)@.no_duplicates(),
    ensures
        final(acc)@.no_duplicates(),
        final(acc)@.to_set() == old(acc)@.to_set().insert(l),
{
    let mut i: usize = 0;
    while i < acc.len()
        invariant
            i <= acc@.len(),
            acc@ == old(acc)@,
            acc@.no_duplicates(),
            forall|j: int| 0 <= j < i ==> acc@[j] != l,
        decreases acc@.len() - i,
    {
        if acc[i] == l {
            assert(acc@.to_set() =~= acc@.to_set().insert(l));
            return;
        }
        i = i + 1;
    }
    let ghost before = acc@;
    acc.push(l);
    assert(acc@.no_duplicates()) by {
        assert forall|a: int, b: int| 0 <= a < acc@.len() && 0 <= b < acc@.len() && a != b implies acc@[a] != acc@[b] by {
            if a < before.len() && b < before.len() {
                assert(before[a] != before[b]);
            }
        }
    }
    assert(acc@.to_set() =~= before.to_set().insert(l)) by {
        assert forall|x: usize| #[trigger] acc@.to_set().contains(x) == before.to_set().insert(l).contains(x) by {
            if acc@.contains(x) {
                let k = choose|k: int| 0 <= k < acc@.len() && acc@[k] == x;
                if k < before.len() {
                    assert(before[k] == x);
                }
            }
            if before.contains(x) {
                let k = choose|k: int| 0 <= k < before.len() && before[k] == x;
                assert(acc@[k] == x);
            }
            if x == l {
                assert(acc@[before.len() as int] == l);
            }
        }
    }
}

/// Adds to `acc` the lifelines of `lfs` that it lacks: afterwards it holds exactly
/// both, each once.
pub fn union_distinct(acc: &mut Vec<usize>, lfs: &Vec<usize>)
    requires
        old(acc)@.no_duplicates(),
    ensures
        final(acc)@.no_duplicates(),
        final(acc)@.to_set() == old(acc)@.to_set().union(lfs@.to_set()),
{
    let ghost start = acc@.to_set();
    let mut i: usize = 0;
    assert(lfs@.take(0).to_set() =~= Set::<usize>::empty());
    assert(start.union(Set::empty()) =~= start);
    while i < lfs.len()
        invariant
            i <= lfs@.len(),
            acc@.no_duplicates(),
            acc@.to_set() == start.union(lfs@.take(i as int).to_set()),
        decreases lfs@.len() - i,
    {
        add_distinct(acc, lfs[i]);
        proof {
            assert(lfs@.take(i + 1) =~= lfs@.take(i as int).push(lfs@[i as int]));
            lemma_push_to_set(lfs@.take(i as int), lfs@[i as int]);
            assert(acc@.to_set() =~= start.union(lfs@.take(i + 1).to_set()));
        }
        i = i + 1;
    }
    assert(lfs@.take(lfs@.len() as int) =~= lfs@);
}

/// Adds to `acc` every lifeline that the context names for a leaf pattern of the term,
/// each once (through `union_distinct`); what the context names is its own.
pub fn get_all_involved_lifelines_rec<
    CioII: CommonIoInteractionInterface,
    T,
    S,
    C,
    X: ContextAwareInteractionDrawingInstructionsExtractor<CioII, T, S, C>,
>(context: &X, int_repr: &InteractionInternalRepresentation<CioII>, acc: &mut Vec<usize>)
    requires
        old(acc)@.no_duplicates(),
    ensures
        final(acc)@.no_duplicates(),
        old(acc)@.to_set().subset_of(final(acc)@.to_set()),
    decreases int_repr,
{
    match int_repr {
        InteractionInternalRepresentation::LeafPattern(leaf) => {
            let lfs = context.get_involved_lifelines(leaf);
            union_distinct(acc, &lfs);
        },
        InteractionInternalRepresentation::Operator(_, subs) => {
            let ghost start = acc@.to_set();
            let mut i: usize = 0;
            while i < subs.len()
                invariant
                    i <= subs@.len(),
                    acc@.no_duplicates(),
                    start.subset_of(acc@.to_set()),
                    *int_repr == InteractionInternalRepresentation::<CioII>::Operator(int_repr->Operator_0, *subs),
                decreases subs@.len() - i,
            {
                proof {
                    let s0 = (*int_repr)->Operator_1;
                    assert(decreases_to!(s0 => s0[i as int]));
                    assert(decreases_to!(*int_repr => s0));
                }
                get_all_involved_lifelines_rec(context, &subs[i], acc);
                i = i + 1;
            }
        },
    }
}

proof fn lemma_push_to_set(s: Seq<usize>, x: usize)
    ensures
        s.push(x).to_set() == s.to_set().insert(x),
{
    assert forall|y: usize| #[trigger] s.push(x).to_set().contains(y) == s.to_set().insert(x).contains(y) by {
        if s.push(x).contains(y) {
            let k = choose|k: int| 0 <= k < s.push(x).len() && s.push(x)[k] == y;
            if k < s.len() {
                assert(s[k] == y);
            }
        }
        if s.contains(y) {
            let k = choose|k: int| 0 <= k < s.len() && s[k] == y;
            assert(s.push(x)[k] == y);
        }
        if y == x {
            assert(s.push(x)[s.len() as int] == x);
        }
    }
    assert(s.push(x).to_set() =~= s.to_set().insert(x));
}

/// `cmp[i][j]` is how item `i` compares with item `j`. The table orders items when no
/// item comes before itself and coming before is transitive.
pub open spec fn comparisons_order(cmp: Seq<Vec<std::cmp::Ordering>>) -> bool {
    &&& forall|a: int| 0 <= a < cmp.len() ==> (#[trigger] cmp[a])@[a] != std::cmp::Ordering::Less
    &&& forall|a: int, b: int, c: int|
        #![trigger cmp[a]@[b], cmp[b]@[c]]
        0 <= a < cmp.len() && 0 <= b < cmp.len() && 0 <= c < cmp.len() && cmp[a]@[b] == std::cmp::Ordering::Less
            && cmp[b]@[c] == std::cmp::Ordering::Less ==> cmp[a]@[c] == std::cmp::Ordering::Less
}

/// The items `0..n` listed so that none comes before an item listed earlier: each is
/// inserted before the first listed item that it comes before.
pub fn order_by_comparisons(cmp: &Vec<Vec<std::cmp::Ordering>>) -> (r: Vec<usize>)
    requires
        forall|i: int| 0 <= i < cmp@.len() ==> (#[trigger] cmp@[i])@.len() == cmp@.len(),
    ensures
        r@.len() == cmp@.len(),
        r@.no_duplicates(),
        forall|k: int| 0 <= k < r@.len() ==> r@[k] < cmp@.len(),
        forall|p: usize| p < cmp@.len() ==> r@.contains(p),
        comparisons_order(cmp@) ==> forall|i: int, j: int|
            0 <= i < j < r@.len() ==> cmp@[r@[j] as int]@[r@[i] as int] != std::cmp::Ordering::Less,
{
    let n = cmp.len();
    let mut sorted: Vec<usize> = Vec::new();
    let mut x: usize = 0;
    while x < n
        invariant
            x <= n,
            n == cmp@.len(),
            forall|i: int| 0 <= i < cmp@.len() ==> (#[trigger] cmp@[i])@.len() == cmp@.len(),
            sorted@.len() == x,
            sorted@.no_duplicates(),
            forall|k: int| 0 <= k < sorted@.len() ==> sorted@[k] < x,
            forall|p: usize| p < x ==> sorted@.contains(p),
            comparisons_order(cmp@) ==> forall|i: int, j: int|
                0 <= i < j < sorted@.len() ==> cmp@[sorted@[j] as int]@[sorted@[i] as int]
                    != std::cmp::Ordering::Less,
        decreases n - x,
    {
        let mut j: usize = 0;
        let mut found = false;
        while j < sorted.len() && !found
            invariant
                j <= sorted@.len(),
                n == cmp@.len(),
                x < n,
                forall|i: int| 0 <= i < cmp@.len() ==> (#[trigger] cmp@[i])@.len() == cmp@.len(),
                forall|k: int| 0 <= k < sorted@.len() ==> sorted@[k] < x,
                found ==> j < sorted@.len() && cmp@[x as int]@[sorted@[j as int] as int] == std::cmp::Ordering::Less,
                forall|k: int| 0 <= k < j ==> cmp@[x as int]@[sorted@[k] as int] != std::cmp::Ordering::Less,
            decreases sorted@.len() - j + (if found { 0int } else { 1int }),
        {
            match cmp[x][sorted[j]] {
                std::cmp::Ordering::Less => {
                    found = true;
                },
                _ => {
                    j = j + 1;
                },
            }
        }
        let ghost before = sorted@;
        sorted.insert(j, x);
        proof {
            assert(sorted@ =~= before.insert(j as int, x));
            assert forall|a: int, b: int| 0 <= a < sorted@.len() && 0 <= b < sorted@.len() && a != b implies sorted@[a]
                != sorted@[b] by {
                if a != j && b != j {
                    let a2 = if a < j { a } else { a - 1 };
                    let b2 = if b < j { b } else { b - 1 };
                    assert(before[a2] != before[b2]);
                } else if a == j {
                    let b2 = if b < j { b } else { b - 1 };
                    assert(before[b2] < x);
                } else {
                    let a2 = if a < j { a } else { a - 1 };
                    assert(before[a2] < x);
                }
            }
            assert forall|p: usize| p < x + 1 implies sorted@.contains(p) by {
                if p == x {
                    assert(sorted@[j as int] == x);
                } else {
                    assert(before.contains(p));
                    let k = choose|k: int| 0 <= k < before.len() && before[k] == p;
                    if k < j {
                        assert(sorted@[k] == p);
                    } else {
                        assert(sorted@[k + 1] == p);
                    }
                }
            }
            assert forall|k: int| 0 <= k < sorted@.len() implies sorted@[k] < x + 1 by {
                if k < j {
                    assert(before[k] < x);
                } else if k > j {
                    assert(before[k - 1] < x);
                }
            }
            if comparisons_order(cmp@) {
                assert forall|a: int, b: int| 0 <= a < b < sorted@.len() implies cmp@[sorted@[b] as int]@[sorted@[a] as int]
                    != std::cmp::Ordering::Less by {
                    if b < j {
                        assert(sorted@[a] == before[a] && sorted@[b] == before[b]);
                    } else if a > j {
                        assert(sorted@[a] == before[a - 1] && sorted@[b] == before[b - 1]);
                    } else if b == j {
                        assert(sorted@[a] == before[a]);
                    } else if a == j {
                        let y = before[b - 1];
                        let z = before[j as int];
                        assert(sorted@[b] == y);
                        assert(y < x && z < x);
                        if cmp@[y as int]@[x as int] == std::cmp::Ordering::Less {
                            assert(cmp@[x as int]@[z as int] == std::cmp::Ordering::Less);
                            assert(cmp@[y as int]@[z as int] == std::cmp::Ordering::Less);
                            if b - 1 > j {
                                assert(cmp@[before[b - 1] as int]@[before[j as int] as int] != std::cmp::Ordering::Less);
                            } else {
                                assert(y == z);
                            }
                        }
                    } else {
                        assert(a < j && j < b);
                        assert(sorted@[a] == before[a] && sorted@[b] == before[b - 1]);
                    }
                }
            }
        }
        x = x + 1;
    }
    sorted
}

/// The lifelines in the context's left-to-right order, as `order_by_comparisons` lists
/// them from the context's answers.
pub fn sort_lifelines<CioII: CommonIoInteractionInterface, T, S, C, X: ContextAwareInteractionDrawingInstructionsExtractor<CioII, T, S, C>>(
    context: &X,
    lifelines: &Vec<usize>,
) -> (r: Vec<usize>)
    requires
        lifelines@.no_duplicates(),
    ensures
        r@.no_duplicates(),
        r@.to_set() == lifelines@.to_set(),
        r@.len() == lifelines@.len(),
{
    let n = lifelines.len();
    let mut cmp: Vec<Vec<std::cmp::Ordering>> = Vec::new();
    let mut i: usize = 0;
    while i < n
        invariant
            i <= n,
            n == lifelines@.len(),
            cmp@.len() == i,
            forall|k: int| 0 <= k < i ==> (#[trigger] cmp@[k])@.len() == n,
        decreases n - i,
    {
        let mut row: Vec<std::cmp::Ordering> = Vec::new();
        let mut j: usize = 0;
        while j < n
            invariant
                j <= n,
                i < n,
                n == lifelines@.len(),
                row@.len() == j,
            decreases n - j,
        {
            row.push(context.lifelines_compare(lifelines[i], lifelines[j]));
            j = j + 1;
        }
        cmp.push(row);
        i = i + 1;
    }
    let order = order_by_comparisons(&cmp);
    let mut r: Vec<usize> = Vec::new();
    let mut k: usize = 0;
    while k < n
        invariant
            k <= n,
            n == lifelines@.len(),
            order@.len() == n,
            order@.no_duplicates(),
            forall|q: int| 0 <= q < n ==> order@[q] < n,
            forall|p: usize| p < n ==> order@.contains(p),
            r@.len() == k,
            forall|q: int| 0 <= q < k ==> r@[q] == lifelines@[order@[q] as int],
        decreases n - k,
    {
        r.push(lifelines[order[k]]);
        k = k + 1;
    }
    proof {
        assert forall|a: int, b: int| 0 <= a < n && 0 <= b < n && a != b implies r@[a] != r@[b] by {
            assert(order@[a] != order@[b]);
        }
        assert forall|y: usize| #[trigger] r@.to_set().contains(y) == lifelines@.to_set().contains(y) by {
            if r@.contains(y) {
                let q = choose|q: int| 0 <= q < r@.len() && r@[q] == y;
                assert(lifelines@[order@[q] as int] == y);
            }
            if lifelines@.contains(y) {
                let p = choose|p: int| 0 <= p < lifelines@.len() && lifelines@[p] == y;
                assert(order@.contains(p as usize));
                let q = choose|q: int| 0 <= q < n && order@[q] == p as usize;
                assert(r@[q] == y);
            }
        }
        assert(r@.to_set() =~= lifelines@.to_set());
    }
    r
}

/// The drawable term has the term's shape: a leaf where it has a leaf, an operator
/// over as many operands, each of the same shape, where it has an operator.
pub open spec fn same_shape<CioII: CommonIoInteractionInterface, T, S, C>(
    t: InteractionInternalRepresentation<CioII>,
    d: DrawableInteraction<T, S, C>,
) -> bool
    decreases t,
{
    match t {
        InteractionInternalRepresentation::LeafPattern(_) => d is Leaf,
        InteractionInternalRepresentation::Operator(_, subs) => match d {
            DrawableInteraction::Operator(_, dsubs) => subs@.len() == dsubs@.len() && forall|i: int|
                0 <= i < subs@.len() ==> same_shape(#[trigger] subs@[i], dsubs@[i]),
            _ => false,
        },
    }
}

/// The term with each leaf and operator turned into its drawable through the context.
pub fn to_drawable_interaction<
    CioII: CommonIoInteractionInterface,
    T,
    S,
    C,
    X: ContextAwareInteractionDrawingInstructionsExtractor<CioII, T, S, C>,
>(context: &X, int_repr: &InteractionInternalRepresentation<CioII>) -> (r: DrawableInteraction<T, S, C>)
    ensures
        same_shape(*int_repr, r),
    decreases int_repr,
{
    match int_repr {
        InteractionInternalRepresentation::LeafPattern(leaf) => DrawableInteraction::Leaf(context.to_drawable_pattern(leaf)),
        InteractionInternalRepresentation::Operator(op, subs) => {
            let mut drawables: Vec<DrawableInteraction<T, S, C>> = Vec::new();
            let mut i: usize = 0;
            while i < subs.len()
                invariant
                    i <= subs@.len(),
                    *int_repr == InteractionInternalRepresentation::<CioII>::Operator(int_repr->Operator_0, *subs),
                    drawables@.len() == i,
                    forall|k: int| 0 <= k < i ==> same_shape(#[trigger] subs@[k], drawables@[k]),
                decreases subs@.len() - i,
            {
                proof {
                    let s0 = (*int_repr)->Operator_1;
                    assert(decreases_to!(s0 => s0[i as int]));
                    assert(decreases_to!(*int_repr => s0));
                }
                drawables.push(to_drawable_interaction(context, &subs[i]));
                i = i + 1;
            }
            DrawableInteraction::Operator(context.to_drawable_operator(op), drawables)
        },
    }
}

fn contains_lifeline(all: &Vec<usize>, l: usize) -> (r: bool)
    ensures
        r == all@.contains(l),
{
    let mut i: usize = 0;
    while i < all.len()
        invariant
            i <= all@.len(),
            forall|j: int| 0 <= j < i ==> all@[j] != l,
        decreases all@.len() - i,
    {
        if all[i] == l {
            return true;
        }
        i = i + 1;
    }
    false
}

fn text_within<T>(t: &MeasuredText<T>) -> (r: bool)
    ensures
        r == text_ok(*t),
{
    t.width <= MAX_DIM && t.height <= MAX_DIM
}

fn opt_text_within<T>(t: &Option<MeasuredText<T>>) -> (r: bool)
    ensures
        r == opt_text_ok(*t),
{
    match t {
        Some(x) => text_within(x),
        None => true,
    }
}

fn target_within<T>(t: &TargetLifelineBroadcastDrawInstruction<T>) -> (r: bool)
    ensures
        r == target_ok(*t),
{
    match t {
        TargetLifelineBroadcastDrawInstruction::TwoParts(a) => opt_text_within(&a.preamble) && opt_text_within(&a.postamble),
        TargetLifelineBroadcastDrawInstruction::Centered(a) => text_within(&a.content),
    }
}

/// Whether the leaf can be laid out against the lifelines `all` (which have no repeats).
pub fn check_leaf<T, S>(leaf: &DrawableBroadcastLeafPattern<T, S>, all: &Vec<usize>) -> (r: bool)
    requires
        all@.no_duplicates(),
    ensures
        r == leaf_wf(*leaf, all@),
{
    let ts = &leaf.lifeline_targets;
    let origin_ok = match &leaf.origin {
        DrawableBroadcastLeafPatternOrigin::Empty => ts.len() > 0,
        DrawableBroadcastLeafPatternOrigin::InputOutsideGate(g) => ts.len() > 0 && text_within(g),
        DrawableBroadcastLeafPatternOrigin::Lifeline(o, a) => contains_lifeline(all, *o) && opt_text_within(&a.preamble)
            && opt_text_within(&a.postamble),
    };
    if !text_within(&leaf.message) || !origin_ok {
        return false;
    }
    let mut i: usize = 0;
    while i < ts.len()
        invariant
            i <= ts@.len(),
            ts@ == leaf.lifeline_targets@,
            forall|a: int, b: int| 0 <= a < b < i ==> ts@[a].0 != ts@[b].0,
            forall|a: int| 0 <= a < i ==> all@.contains(#[trigger] ts@[a].0) && target_ok(ts@[a].1),
        decreases ts@.len() - i,
    {
        if !contains_lifeline(all, ts[i].0) || !target_within(&ts[i].1) {
            proof {
                let k = i as int;
                assert(!(all@.contains(leaf.lifeline_targets@[k].0) && target_ok(leaf.lifeline_targets@[k].1)));
            }
            return false;
        }
        let mut j: usize = 0;
        while j < i
            invariant
                j <= i < ts@.len(),
                ts@ == leaf.lifeline_targets@,
                forall|a: int| 0 <= a < j ==> ts@[a].0 != ts@[i as int].0,
            decreases i - j,
        {
            if ts[j].0 == ts[i].0 {
                proof {
                    let a = j as int;
                    let b = i as int;
                    assert(0 <= a < b < leaf.lifeline_targets@.len() && leaf.lifeline_targets@[a].0
                        == leaf.lifeline_targets@[b].0);
                }
                return false;
            }
            j = j + 1;
        }
        i = i + 1;
    }
    let gs = &leaf.output_outside_gates_targets;
    if gs.len() > MAX_DIM as usize {
        return false;
    }
    let mut k: usize = 0;
    while k < gs.len()
        invariant
            k <= gs@.len(),
            gs@ == leaf.output_outside_gates_targets@,
            forall|a: int| 0 <= a < k ==> text_ok(#[trigger] gs@[a]),
        decreases gs@.len() - k,
    {
        if !text_within(&gs[k]) {
            proof {
                let q = k as int;
                assert(!text_ok(leaf.output_outside_gates_targets@[q]));
            }
            return false;
        }
        k = k + 1;
    }
    true
}

/// Whether every leaf and operator of the term can be laid out against `all`.
pub fn check_tree<T, S, C>(t: &DrawableInteraction<T, S, C>, all: &Vec<usize>) -> (r: bool)
    requires
        all@.no_duplicates(),
    ensures
        r == tree_wf(*t, all@),
    decreases t,
{
    match t {
        DrawableInteraction::Leaf(None) => true,
        DrawableInteraction::Leaf(Some(l)) => check_leaf(l, all),
        DrawableInteraction::Operator(op, subs) => {
            let op_ok = match &op.kind {
                DrawableOperatorKind::Framed(label) => text_within(label),
                DrawableOperatorKind::CoRegionLike(_) => true,
            };
            if !op_ok {
                return false;
            }
            let mut i: usize = 0;
            while i < subs.len()
                invariant
                    all@.no_duplicates(),
                    *t == DrawableInteraction::<T, S, C>::Operator(t->Operator_0, *subs),
                    forall|j: int| 0 <= j < i ==> tree_wf(#[trigger] subs@[j], all@),
                decreases subs@.len() - i,
            {
                proof {
                    let s0 = (*t)->Operator_1;
                    assert(decreases_to!(s0 => s0[i as int]));
                    assert(decreases_to!(*t => s0));
                }
                if !check_tree(&subs[i], all) {
                    proof {
                        let k = i as int;
                        assert(!tree_wf(subs@[k], all@));
                    }
                    return false;
                }
                i = i + 1;
            }
            true
        },
    }
}


/// Where the walk of the term from `y` ends, provided that it stays at or under
/// `limit`; `None` otherwise.
pub fn body_extent<T, S, C>(
    all: &Vec<usize>,
    t: &DrawableInteraction<T, S, C>,
    y: u64,
    nest: u32,
    ys: u64,
    m: u64,
    limit: u64,
) -> (r: Option<u64>)
    requires
        tree_wf(*t, all@),
        ys <= MAX_DIM,
        m <= MAX_DIM,
    ensures
        r matches Some(v) ==> v as int == walk(*t, all@, y as int, nest, ys, m).ypos && v <= limit,
        r is None <==> walk(*t, all@, y as int, nest, ys, m).ypos > limit,
    decreases t,
{
    proof {
        crate::extract::lemma_walk_mono(*t, all@, y as int, nest, ys, m);
    }
    match t {
        DrawableInteraction::Leaf(None) => if y <= limit { Some(y) } else { None },
        DrawableInteraction::Leaf(Some(l)) => {
            let info = l.get_intermediate_information(all, ys, m, m);
            if info.y_space_top_to_bottom <= limit && y <= limit - info.y_space_top_to_bottom {
                Some(y + info.y_space_top_to_bottom)
            } else {
                None
            }
        },
        DrawableInteraction::Operator(op, subs) => {
            let ghost t0 = *t;
            let oi = op.get_intermediate_information(m, m);
            let ghost c = operator_costs(op.kind, m, m);
            let sp = oi.required_vertical_space_between_operands;
            let inner_nest = if oi.requires_nest_shift {
                if nest < u32::MAX { nest + 1 } else { nest }
            } else {
                nest
            };
            let ghost y1 = y + c.0;
            let num = subs.len();
            proof {
                crate::extract::lemma_operands_mono(t0, all@, y1, inner_nest, sp, ys, m, num as int);
                assert(walk(t0, all@, y as int, nest, ys, m).ypos == walk_operands(
                    t0,
                    all@,
                    y1,
                    inner_nest,
                    sp,
                    ys,
                    m,
                    num as int,
                ).ypos);
            }
            if oi.required_vertical_space_at_the_top > limit || y > limit - oi.required_vertical_space_at_the_top {
                return None;
            }
            let mut cur = y + oi.required_vertical_space_at_the_top;
            let mut k: usize = 0;
            while k < num
                invariant
                    k <= num,
                    num == subs@.len(),
                    t0 == *t,
                    t0 == DrawableInteraction::<T, S, C>::Operator(t->Operator_0, *subs),
                    all@.no_duplicates(),
                    forall|i: int| 0 <= i < subs@.len() ==> tree_wf(#[trigger] subs@[i], all@),
                    ys <= MAX_DIM,
                    m <= MAX_DIM,
                    sp as int == c.1,
                    cur as int == walk_operands(t0, all@, y1, inner_nest, sp, ys, m, k as int).ypos,
                    cur <= limit,
                    walk(t0, all@, y as int, nest, ys, m).ypos == walk_operands(
                        t0,
                        all@,
                        y1,
                        inner_nest,
                        sp,
                        ys,
                        m,
                        num as int,
                    ).ypos,
                decreases num - k,
            {
                proof {
                    let s0 = t0->Operator_1;
                    assert(decreases_to!(s0 => s0[k as int]));
                    assert(decreases_to!(t0 => s0));
                }
                let ghost next = walk_operands(t0, all@, y1, inner_nest, sp, ys, m, k + 1);
                proof {
                    crate::extract::lemma_operands_chain(t0, all@, y1, inner_nest, sp, ys, m, k + 1, num as int);
                    assert(next.ypos >= walk(subs@[k as int], all@, cur as int, inner_nest, ys, m).ypos);
                }
                let after = match body_extent(all, &subs[k], cur, inner_nest, ys, m, limit) {
                    Some(v) => v,
                    None => {
                        return None;
                    },
                };
                let half = sp / 2;
                let rest = if k < num - 1 { sp - sp / 2 } else { 0 };
                if half > limit || after > limit - half || rest > limit - (after + half) {
                    assert(next.ypos == after + half + rest);
                    return None;
                }
                cur = after + half + rest;
                k = k + 1;
            }
            Some(cur)
        },
    }
}

/// Whether no lifeline occurs twice.
pub fn check_distinct(all: &Vec<usize>) -> (r: bool)
    ensures
        r == all@.no_duplicates(),
{
    let mut i: usize = 0;
    while i < all.len()
        invariant
            i <= all@.len(),
            forall|a: int, b: int| 0 <= a < b < i ==> all@[a] != all@[b],
        decreases all@.len() - i,
    {
        let mut j: usize = 0;
        while j < i
            invariant
                j <= i < all@.len(),
                forall|a: int| 0 <= a < j ==> all@[a] != all@[i as int],
            decreases i - j,
        {
            if all[j] == all[i] {
                proof {
                    let a = j as int;
                    let b = i as int;
                    assert(a != b && all@[a] == all@[b]);
                }
                return false;
            }
            j = j + 1;
        }
        i = i + 1;
    }
    proof {
        assert forall|a: int, b: int| 0 <= a < all@.len() && 0 <= b < all@.len() && a != b implies all@[a] != all@[b] by {
            if a < b {
                assert(all@[a] != all@[b]);
            } else {
                assert(all@[b] != all@[a]);
            }
        }
    }
    true
}

/// Whether every header stays under `MAX_DIM`.
pub fn check_headers<T>(headers: &Vec<MeasuredText<T>>) -> (r: bool)
    ensures
        r == forall|p: int| 0 <= p < headers@.len() ==> text_ok(#[trigger] headers@[p]),
{
    let mut i: usize = 0;
    while i < headers.len()
        invariant
            i <= headers@.len(),
            forall|p: int| 0 <= p < i ==> text_ok(#[trigger] headers@[p]),
        decreases headers@.len() - i,
    {
        if !text_within(&headers[i]) {
            proof {
                let q = i as int;
                assert(!text_ok(headers@[q]));
            }
            return false;
        }
        i = i + 1;
    }
    true
}

/// Lays the diagram out exactly when it can be: its lifelines distinct and not too
/// many, one header each, every item under `MAX_DIM`, and its height within 64-bit
/// coordinates; `None` otherwise.
pub fn lay_out_checked<T, S, C>(
    all_lifelines_in_diagram: Vec<usize>,
    lifelines_headers: Vec<MeasuredText<T>>,
    int_repr: DrawableInteraction<T, S, C>,
    y_margin_between_seq_operands: u64,
    margin_between_items: u64,
    border_padding: u64,
) -> (r: Option<CompleteInteractionDrawInstruction<T, S, C>>)
    ensures
        r is Some <==> diagram_wf(
            all_lifelines_in_diagram@,
            lifelines_headers@,
            int_repr,
            y_margin_between_seq_operands,
            margin_between_items,
            border_padding,
        ),
        r matches Some(g) ==> g@ == diagram_geometry(
            all_lifelines_in_diagram@,
            lifelines_headers@,
            int_repr,
            y_margin_between_seq_operands,
            margin_between_items,
            border_padding,
        ),
{
    let ys = y_margin_between_seq_operands;
    let m = margin_between_items;
    let bp = border_padding;
    if ys > MAX_DIM || m > MAX_DIM || bp > MAX_DIM || all_lifelines_in_diagram.len() > MAX_LIFELINES
        || lifelines_headers.len() != all_lifelines_in_diagram.len() {
        return None;
    }
    if !check_distinct(&all_lifelines_in_diagram) || !check_headers(&lifelines_headers) {
        return None;
    }
    if !check_tree(&int_repr, &all_lifelines_in_diagram) {
        return None;
    }
    match body_extent(&all_lifelines_in_diagram, &int_repr, m, 0, ys, m, u64::MAX - 4 * MAX_DIM) {
        Some(_) => {},
        None => {
            return None;
        },
    }
    Some(extract_drawing_information(all_lifelines_in_diagram, lifelines_headers, int_repr, ys, m, bp))
}

/// Lays the term out with the context's lifelines, headers, drawables and margins:
/// the lifelines that the context names for the leaves, in the order that its answers
/// give (`sort_lifelines`), with their headers, handed to `lay_out_checked`.
pub fn extract_drawing_information_in_context<
    CioII: CommonIoInteractionInterface,
    T,
    S,
    C,
    X: ContextAwareInteractionDrawingInstructionsExtractor<CioII, T, S, C>,
>(context: &X, int_repr: &InteractionInternalRepresentation<CioII>) -> (r: Option<CompleteInteractionDrawInstruction<T, S, C>>)
    ensures
        r matches Some(g) ==> g@.lifelines.no_duplicates() && g@.lifelines_headers.len() == g@.lifelines.len(),
        r matches Some(g) ==> exists|t: DrawableInteraction<T, S, C>, ys: u64, m: u64, bp: u64|
            diagram_wf(g@.lifelines, g@.lifelines_headers, t, ys, m, bp) && g@ == diagram_geometry(
                g@.lifelines,
                g@.lifelines_headers,
                t,
                ys,
                m,
                bp,
            ),
{
    let mut involved: Vec<usize> = Vec::new();
    get_all_involved_lifelines_rec(context, int_repr, &mut involved);
    let all = sort_lifelines(context, &involved);
    let mut headers: Vec<MeasuredText<T>> = Vec::new();
    let mut i: usize = 0;
    while i < all.len()
        invariant
            i <= all@.len(),
            headers@.len() == i,
        decreases all@.len() - i,
    {
        headers.push(context.get_lifeline_header(all[i]));
        i = i + 1;
    }
    let tree = to_drawable_interaction(context, int_repr);
    let ys = context.get_y_margin_between_seq_operands();
    let m = context.get_margin_between_items();
    let bp = context.get_border_padding();
    let ghost t0 = tree;
    let ghost all0 = all@;
    let ghost headers0 = headers@;
    let r = lay_out_checked(all, headers, tree, ys, m, bp);
    proof {
        if r is Some {
            let g = r->0;
            assert(g@.lifelines == all0 && g@.lifelines_headers == headers0);
            assert(diagram_wf(g@.lifelines, g@.lifelines_headers, t0, ys, m, bp) && g@ == diagram_geometry(
                g@.lifelines,
                g@.lifelines_headers,
                t0,
                ys,
                m,
                bp,
            ));
        }
    }
    r
}

} // verus!

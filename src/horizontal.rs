use vstd::prelude::*;

verus! {

/// Largest width or height, in pixels, of any measured item that the layout accepts.
/// Rasters are addressed with 32-bit coordinates, so no legible item comes near it.
pub const MAX_DIM: u64 = 0x100_0000;

pub open spec fn max_u64(a: u64, b: u64) -> u64 {
    if a >= b { a } else { b }
}

/// The room that a lifeline needs strictly to its left and strictly to its right.
#[derive(Clone, Copy, Debug, PartialEq, Eq, Structural)]
pub struct LifelineRequiredHorizontalSpaceInDiagram {
    pub on_the_left: u64,
    pub on_the_right: u64,
}

/// The per-side maximum of two requirements.
pub open spec fn req_max(
    a: LifelineRequiredHorizontalSpaceInDiagram,
    b: LifelineRequiredHorizontalSpaceInDiagram,
) -> LifelineRequiredHorizontalSpaceInDiagram {
    LifelineRequiredHorizontalSpaceInDiagram {
        on_the_left: max_u64(a.on_the_left, b.on_the_left),
        on_the_right: max_u64(a.on_the_right, b.on_the_right),
    }
}

/// Merging two optional requirements: an absent one imposes nothing.
pub open spec fn opt_req_max(
    a: Option<LifelineRequiredHorizontalSpaceInDiagram>,
    b: Option<LifelineRequiredHorizontalSpaceInDiagram>,
) -> Option<LifelineRequiredHorizontalSpaceInDiagram> {
    match (a, b) {
        (None, None) => None,
        (Some(x), None) => Some(x),
        (None, Some(y)) => Some(y),
        (Some(x), Some(y)) => Some(req_max(x, y)),
    }
}

/// Position-wise merge of two requirement maps of equal length.
pub open spec fn reqs_merge(
    a: Seq<Option<LifelineRequiredHorizontalSpaceInDiagram>>,
    b: Seq<Option<LifelineRequiredHorizontalSpaceInDiagram>>,
) -> Seq<Option<LifelineRequiredHorizontalSpaceInDiagram>> {
    Seq::new(a.len(), |i: int| opt_req_max(a[i], b[i]))
}

/// Every requirement present in `m` is at most `bound` on both sides.
pub open spec fn reqs_bounded(
    m: Seq<Option<LifelineRequiredHorizontalSpaceInDiagram>>,
    bound: u64,
) -> bool {
    forall|i: int|
        0 <= i < m.len() ==> (#[trigger] m[i] matches Some(r) ==> r.on_the_left <= bound
            && r.on_the_right <= bound)
}

impl LifelineRequiredHorizontalSpaceInDiagram {
    pub fn new(on_the_left: u64, on_the_right: u64) -> (r: Self)
        ensures
            r.on_the_left == on_the_left,
            r.on_the_right == on_the_right,
    {
        LifelineRequiredHorizontalSpaceInDiagram { on_the_left, on_the_right }
    }

    pub fn new_empty() -> (r: Self)
        ensures
            r.on_the_left == 0,
            r.on_the_right == 0,
    {
        LifelineRequiredHorizontalSpaceInDiagram { on_the_left: 0, on_the_right: 0 }
    }

    /// Raises each side to the other requirement's side where that is larger.
    pub fn update_to_max(&mut self, other: Self)
        ensures
            *final(self) == req_max(*old(self), other),
    {
        if other.on_the_left > self.on_the_left {
            self.on_the_left = other.on_the_left;
        }
        if other.on_the_right > self.on_the_right {
            self.on_the_right = other.on_the_right;
        }
    }

    /// Merges `req2` into `req1` position by position, keeping the per-side maximum
    /// where both hold a requirement: siblings never add up.
    pub fn update_all_to_max(
        req1: &mut Vec<Option<LifelineRequiredHorizontalSpaceInDiagram>>,
        req2: Vec<Option<LifelineRequiredHorizontalSpaceInDiagram>>,
    )
        requires
            old(req1)@.len() == req2@.len(),
        ensures
            final(req1)@ == reqs_merge(old(req1)@, req2@),
    {
        let n = req1.len();
        let mut i: usize = 0;
        while i < n
            invariant
                n == req1@.len(),
                n == req2@.len(),
                i <= n,
                forall|j: int| 0 <= j < i ==> req1@[j] == opt_req_max(old(req1)@[j], req2@[j]),
                forall|j: int| i <= j < n ==> req1@[j] == old(req1)@[j],
            decreases n - i,
        {
            let merged = match (req1[i], req2[i]) {
                (None, None) => None,
                (Some(x), None) => Some(x),
                (None, Some(y)) => Some(y),
                (Some(x), Some(y)) => {
                    let mut z = x;
                    z.update_to_max(y);
                    Some(z)
                },
            };
            req1.set(i, merged);
            i = i + 1;
        }
        assert(req1@ =~= reqs_merge(old(req1)@, req2@));
    }
}

} // verus!

use vstd::prelude::*;

use crate::horizontal::MAX_DIM;
use crate::leaf::{text_ok, MeasuredText};

verus! {

/// How an operator is drawn: as a labelled frame around its operands, or as small
/// brackets on some lifelines (none at all if the set is empty).
pub enum DrawableOperatorKind<T> {
    Framed(MeasuredText<T>),
    CoRegionLike(Vec<usize>),
}

/// An operator ready for layout, with the frame colour `C` of the renderer.
pub struct DrawableOperator<T, C> {
    pub frame_color: C,
    pub kind: DrawableOperatorKind<T>,
}

impl<T, C> DrawableOperator<T, C> {
    pub fn new(frame_color: C, kind: DrawableOperatorKind<T>) -> (r: Self)
        ensures
            r.frame_color == frame_color,
            r.kind == kind,
    {
        DrawableOperator { frame_color, kind }
    }
}

pub open spec fn operator_wf<T, C>(op: DrawableOperator<T, C>) -> bool {
    op.kind matches DrawableOperatorKind::Framed(t) ==> text_ok(t)
}

/// Top padding, spacing between operands, nesting indent, room left of the leftmost
/// enclosed lifeline.
pub struct OperatorIntermediateInformation {
    pub required_vertical_space_at_the_top: u64,
    pub required_vertical_space_between_operands: u64,
    pub requires_nest_shift: bool,
    pub required_horizontal_space_at_left_most_lifeline: u64,
}

/// What an operator costs: an empty co-region one margin, a non-empty one two
/// margins (room for its ticks), neither indents; a frame its label's height on top,
/// two margins between operands, an indent, and its label's width plus two margins
/// left of the leftmost enclosed lifeline.
pub open spec fn operator_costs<T>(kind: DrawableOperatorKind<T>, ym: u64, xm: u64) -> (int, int, bool, int) {
    match kind {
        DrawableOperatorKind::CoRegionLike(lfs) => if lfs@.len() == 0 {
            (ym as int, ym as int, false, 0)
        } else {
            (2 * ym, 2 * ym, false, 0)
        },
        DrawableOperatorKind::Framed(t) => (t.height as int, 2 * ym, true, t.width + 2 * xm),
    }
}

impl<T, C> DrawableOperator<T, C> {
    pub fn get_intermediate_information(
        &self,
        y_margin_between_items: u64,
        x_margin_between_items: u64,
    ) -> (r: OperatorIntermediateInformation)
        requires
            operator_wf(*self),
            y_margin_between_items <= MAX_DIM,
            x_margin_between_items <= MAX_DIM,
        ensures
            (
                r.required_vertical_space_at_the_top as int,
                r.required_vertical_space_between_operands as int,
                r.requires_nest_shift,
                r.required_horizontal_space_at_left_most_lifeline as int,
            ) == operator_costs(self.kind, y_margin_between_items, x_margin_between_items),
    {
        let ym = y_margin_between_items;
        let xm = x_margin_between_items;
        match &self.kind {
            DrawableOperatorKind::CoRegionLike(lfs) => {
                if lfs.len() == 0 {
                    OperatorIntermediateInformation {
                        required_vertical_space_at_the_top: ym,
                        required_vertical_space_between_operands: ym,
                        requires_nest_shift: false,
                        required_horizontal_space_at_left_most_lifeline: 0,
                    }
                } else {
                    OperatorIntermediateInformation {
                        required_vertical_space_at_the_top: 2 * ym,
                        required_vertical_space_between_operands: 2 * ym,
                        requires_nest_shift: false,
                        required_horizontal_space_at_left_most_lifeline: 0,
                    }
                }
            },
            DrawableOperatorKind::Framed(t) => OperatorIntermediateInformation {
                required_vertical_space_at_the_top: t.height,
                required_vertical_space_between_operands: 2 * ym,
                requires_nest_shift: true,
                required_horizontal_space_at_left_most_lifeline: t.width + 2 * xm,
            },
        }
    }
}

} // verus!

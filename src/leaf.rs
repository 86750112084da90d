use vstd::prelude::*;

use crate::horizontal::MAX_DIM;

verus! {

/// A piece of text (of the renderer's own type `T`) with its measured extent in pixels.
pub struct MeasuredText<T> {
    pub content: T,
    pub width: u64,
    pub height: u64,
}

impl<T> MeasuredText<T> {
    pub fn new(content: T, width: u64, height: u64) -> (r: Self)
        ensures
            r.content == content,
            r.width == width,
            r.height == height,
    {
        MeasuredText { content, width, height }
    }
}

pub open spec fn opt_width<T>(t: Option<MeasuredText<T>>) -> u64 {
    match t {
        Some(x) => x.width,
        None => 0,
    }
}

pub open spec fn opt_height<T>(t: Option<MeasuredText<T>>) -> u64 {
    match t {
        Some(x) => x.height,
        None => 0,
    }
}

pub open spec fn text_ok<T>(t: MeasuredText<T>) -> bool {
    t.width <= MAX_DIM && t.height <= MAX_DIM
}

pub open spec fn opt_text_ok<T>(t: Option<MeasuredText<T>>) -> bool {
    t matches Some(x) ==> text_ok(x)
}

/// An action drawn as an optional text above the arrow and an optional text below it.
pub struct PrePostAmbleDrawableActionItem<T> {
    pub preamble: Option<MeasuredText<T>>,
    pub postamble: Option<MeasuredText<T>>,
}

/// Width above, height above, width below, height below the midline.
pub open spec fn prepost_sizes<T>(a: PrePostAmbleDrawableActionItem<T>) -> (u64, u64, u64, u64) {
    (opt_width(a.preamble), opt_height(a.preamble), opt_width(a.postamble), opt_height(a.postamble))
}

impl<T> PrePostAmbleDrawableActionItem<T> {
    pub fn new(preamble: Option<MeasuredText<T>>, postamble: Option<MeasuredText<T>>) -> (r: Self)
        ensures
            r.preamble == preamble,
            r.postamble == postamble,
    {
        PrePostAmbleDrawableActionItem { preamble, postamble }
    }

    pub fn get_size_around_midline(&self) -> (r: (u64, u64, u64, u64))
        ensures
            r == prepost_sizes(*self),
    {
        let (pre_w, pre_h) = match &self.preamble {
            Some(p) => (p.width, p.height),
            None => (0, 0),
        };
        let (post_w, post_h) = match &self.postamble {
            Some(p) => (p.width, p.height),
            None => (0, 0),
        };
        (pre_w, pre_h, post_w, post_h)
    }
}

/// An action drawn as one text centred on the midline.
pub struct CenteredDrawableActionItem<T> {
    pub content: MeasuredText<T>,
}

pub open spec fn centered_sizes<T>(a: CenteredDrawableActionItem<T>) -> (u64, u64, u64, u64) {
    (a.content.width, a.content.height / 2, a.content.width, a.content.height / 2)
}

impl<T> CenteredDrawableActionItem<T> {
    pub fn new(content: MeasuredText<T>) -> (r: Self)
        ensures
            r.content == content,
    {
        CenteredDrawableActionItem { content }
    }

    pub fn get_size_around_midline(&self) -> (r: (u64, u64, u64, u64))
        ensures
            r == centered_sizes(*self),
    {
        let h = self.content.height / 2;
        (self.content.width, h, self.content.width, h)
    }
}

/// How the reception of a message is drawn on one target lifeline.
pub enum TargetLifelineBroadcastDrawInstruction<T> {
    TwoParts(PrePostAmbleDrawableActionItem<T>),
    Centered(CenteredDrawableActionItem<T>),
}

pub open spec fn target_sizes<T>(t: TargetLifelineBroadcastDrawInstruction<T>) -> (u64, u64, u64, u64) {
    match t {
        TargetLifelineBroadcastDrawInstruction::TwoParts(a) => prepost_sizes(a),
        TargetLifelineBroadcastDrawInstruction::Centered(a) => centered_sizes(a),
    }
}

pub open spec fn target_ok<T>(t: TargetLifelineBroadcastDrawInstruction<T>) -> bool {
    match t {
        TargetLifelineBroadcastDrawInstruction::TwoParts(a) => opt_text_ok(a.preamble)
            && opt_text_ok(a.postamble),
        TargetLifelineBroadcastDrawInstruction::Centered(a) => text_ok(a.content),
    }
}

impl<T> TargetLifelineBroadcastDrawInstruction<T> {
    pub fn get_size_around_midline(&self) -> (r: (u64, u64, u64, u64))
        ensures
            r == target_sizes(*self),
    {
        match self {
            TargetLifelineBroadcastDrawInstruction::TwoParts(a) => a.get_size_around_midline(),
            TargetLifelineBroadcastDrawInstruction::Centered(a) => a.get_size_around_midline(),
        }
    }
}

/// Where a broadcast comes from.
pub enum DrawableBroadcastLeafPatternOrigin<T> {
    Empty,
    Lifeline(usize, PrePostAmbleDrawableActionItem<T>),
    InputOutsideGate(MeasuredText<T>),
}

/// One communication event ready for layout: its message, line style `S`, origin,
/// lifeline targets (each lifeline at most once) and output gates.
pub struct DrawableBroadcastLeafPattern<T, S> {
    pub message: MeasuredText<T>,
    pub line_style: S,
    pub origin: DrawableBroadcastLeafPatternOrigin<T>,
    pub lifeline_targets: Vec<(usize, TargetLifelineBroadcastDrawInstruction<T>)>,
    pub output_outside_gates_targets: Vec<MeasuredText<T>>,
}

impl<T, S> DrawableBroadcastLeafPattern<T, S> {
    pub fn new(
        message: MeasuredText<T>,
        line_style: S,
        origin: DrawableBroadcastLeafPatternOrigin<T>,
        lifeline_targets: Vec<(usize, TargetLifelineBroadcastDrawInstruction<T>)>,
        output_outside_gates_targets: Vec<MeasuredText<T>>,
    ) -> (r: Self)
        ensures
            r.message == message,
            r.line_style == line_style,
            r.origin == origin,
            r.lifeline_targets == lifeline_targets,
            r.output_outside_gates_targets == output_outside_gates_targets,
    {
        DrawableBroadcastLeafPattern {
            message,
            line_style,
            origin,
            lifeline_targets,
            output_outside_gates_targets,
        }
    }
}

/// Where the message text goes: beside which lifeline, and on which side of it.
#[derive(Clone, Copy, Debug, PartialEq, Eq, Structural)]
pub struct MessageDrawingLocation {
    pub anchor_lifeline: usize,
    /// drawn on the left of the anchor if true, on its right otherwise
    pub draw_message_on_left: bool,
}

impl MessageDrawingLocation {
    pub fn new(anchor_lifeline: usize, draw_message_on_left: bool) -> (r: MessageDrawingLocation)
        ensures
            r.anchor_lifeline == anchor_lifeline,
            r.draw_message_on_left == draw_message_on_left,
    {
        MessageDrawingLocation { anchor_lifeline, draw_message_on_left }
    }
}

} // verus!

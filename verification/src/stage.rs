//! The per-frame render pass ordering of the deferred renderer.

use vstd::prelude::*;

verus! {

/// The sequential stages a frame of deferred rendering moves through while
/// its command buffer is built. A frame starts `Stopped`, records geometry
/// during `Albedo`, applies global illumination during `Ambient`, may then
/// accumulate any number of `Point` lights, may then draw `Unlit` geometry,
/// and returns to `Stopped` when the frame is submitted.
#[derive(Clone, Copy, Debug, PartialEq, Eq, Structural)]
pub enum RenderStage {
    Stopped,
    Albedo,
    Ambient,
    Point,
    Unlit,
}

/// The legal transitions between render stages: geometry may only be
/// recorded at the start of a frame, lighting only after geometry, unlit
/// geometry only after lighting, and a frame may only be submitted after
/// lighting has been applied. `Albedo`, `Point` and `Unlit` may repeat, so
/// several objects or lights can be recorded in a row.
pub open spec fn stage_can_enter(cur: RenderStage, new_stage: RenderStage) -> bool {
    match new_stage {
        RenderStage::Stopped => cur == RenderStage::Ambient || cur == RenderStage::Point
            || cur == RenderStage::Unlit,
        RenderStage::Albedo => cur == RenderStage::Stopped || cur == RenderStage::Albedo,
        RenderStage::Ambient => cur == RenderStage::Albedo,
        RenderStage::Point => cur == RenderStage::Ambient || cur == RenderStage::Point,
        RenderStage::Unlit => cur == RenderStage::Ambient || cur == RenderStage::Point
            || cur == RenderStage::Unlit,
    }
}

impl RenderStage {
    /// Whether the renderer may move from this stage to `new_stage`.
    pub fn can_enter(self, new_stage: RenderStage) -> (r: bool)
        ensures
            r == stage_can_enter(self, new_stage),
    {
        match new_stage {
            RenderStage::Stopped => match self {
                RenderStage::Ambient | RenderStage::Point | RenderStage::Unlit => true,
                _ => false,
            },
            RenderStage::Albedo => match self {
                RenderStage::Stopped | RenderStage::Albedo => true,
                _ => false,
            },
            RenderStage::Ambient => match self {
                RenderStage::Albedo => true,
                _ => false,
            },
            RenderStage::Point => match self {
                RenderStage::Ambient | RenderStage::Point => true,
                _ => false,
            },
            RenderStage::Unlit => match self {
                RenderStage::Ambient | RenderStage::Point | RenderStage::Unlit => true,
                _ => false,
            },
        }
    }

    /// Advances this stage to `new_stage`. Stages must be entered in the
    /// order that `stage_can_enter` lays down; entering a stage out of
    /// order is a caller error, so callers test `can_enter` first.
    pub fn update(&mut self, new_stage: RenderStage)
        requires
            stage_can_enter(*old(self), new_stage),
        ensures
            *final(self) == new_stage,
    {
        *self = new_stage;
    }
}

/// Helper for the ordering theorem below: wherever a legal trace that began
/// at `Stopped` sits in a lighting stage, ambient lighting has already been
/// applied at some earlier point of the trace.
proof fn lemma_lighting_after_ambient(t: Seq<RenderStage>, j: int)
    requires
        0 <= j < t.len(),
        t.first() == RenderStage::Stopped,
        forall|i: int| 0 <= i < t.len() - 1 ==> stage_can_enter(t[i], #[trigger] t[i + 1]),
        t[j] == RenderStage::Ambient || t[j] == RenderStage::Point || t[j]
            == RenderStage::Unlit,
    ensures
        exists|i: int| 0 <= i <= j && t[i] == RenderStage::Ambient,
    decreases j,
{
    if t[j] != RenderStage::Ambient {
        assert(stage_can_enter(t[j - 1], t[(j - 1) + 1]));
        lemma_lighting_after_ambient(t, j - 1);
    }
}

/// Ordering theorem of the deferred renderer: every legal trace of stages
/// that starts at `Stopped` and later submits (returns to `Stopped`) has
/// recorded geometry and applied ambient lighting, in that order, before
/// the frame was submitted. A frame can never reach the screen with its
/// G-buffer unpopulated or unlit.
pub proof fn lemma_submitted_frame_was_lit(t: Seq<RenderStage>)
    requires
        t.len() >= 2,
        t.first() == RenderStage::Stopped,
        t.last() == RenderStage::Stopped,
        forall|i: int| 0 <= i < t.len() - 1 ==> stage_can_enter(t[i], #[trigger] t[i + 1]),
    ensures
        exists|a: int, b: int|
            0 < a < b < t.len() && t[a] == RenderStage::Albedo && t[b] == RenderStage::Ambient,
{
    let last = t.len() - 1;
    assert(stage_can_enter(t[last - 1], t[(last - 1) + 1]));
    lemma_lighting_after_ambient(t, last - 1);
    let b = choose|b: int| 0 <= b <= last - 1 && t[b] == RenderStage::Ambient;
    assert(t[b] == RenderStage::Ambient);
    assert(b > 0) by {
        assert(t[0] == RenderStage::Stopped);
    }
    assert(stage_can_enter(t[b - 1], t[(b - 1) + 1]));
    assert(t[b - 1] == RenderStage::Albedo);
    assert(b - 1 > 0) by {
        assert(t[0] == RenderStage::Stopped);
    }
    assert(0 < b - 1 < b < t.len() && t[b - 1] == RenderStage::Albedo && t[b]
        == RenderStage::Ambient);
}

/// Ordering theorem of the deferred renderer, second half: within one
/// frame, geometry recording never resumes once lighting has begun. In
/// any legal trace, after a lighting stage (`Ambient`, `Point` or
/// `Unlit`), the `Albedo` stage cannot recur until the frame has been
/// submitted (`Stopped`).
pub proof fn lemma_no_geometry_after_lighting(t: Seq<RenderStage>, a: int, b: int)
    requires
        0 <= a < b < t.len(),
        forall|i: int| 0 <= i < t.len() - 1 ==> stage_can_enter(t[i], #[trigger] t[i + 1]),
        t[a] == RenderStage::Ambient || t[a] == RenderStage::Point || t[a]
            == RenderStage::Unlit,
        forall|k: int| a < k <= b ==> t[k] != RenderStage::Stopped,
    ensures
        t[b] != RenderStage::Albedo,
    decreases b - a,
{
    if t[b] == RenderStage::Albedo {
        assert(stage_can_enter(t[b - 1], t[(b - 1) + 1]));
        if b - 1 > a {
            assert(t[b - 1] != RenderStage::Stopped);
            lemma_no_geometry_after_lighting(t, a, b - 1);
        }
    }
}

} // verus!

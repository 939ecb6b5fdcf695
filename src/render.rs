use crate::state::{apply, MsgView, Progress, State, StateView};
use vstd::prelude::*;

verus! {

/// Length units per pixel in which text is measured.
pub const SCALE: u64 = 1024;

/// The progress bar of one frame.
#[derive(Clone, Copy, Debug, PartialEq, Eq, Structural)]
pub enum BarPlan {
    /// No bar.
    Hidden,
    /// A full-width bar whose alpha follows the time `millis / 1000` seconds
    /// (elapsed time scaled by the speed).
    Pulse { millis: u128 },
    /// A bar `width` units wide, from the left edge.
    Fill { width: u64 },
}

/// A new width, in pixels, and the new left edge that keeps the right edge in place.
#[derive(Clone, Copy, Debug, PartialEq, Eq, Structural)]
pub struct Resize {
    pub width: u64,
    pub x: i64,
}

/// What one frame draws, apart from the fixed background.
#[derive(Clone, Copy, Debug, PartialEq, Eq, Structural)]
pub struct RenderPlan {
    /// Where the text starts, in units from the left edge.
    pub text_x: u64,
    /// The window must grow to hold the text.
    pub resize: Option<Resize>,
    pub bar: BarPlan,
}

/// Units that margin, text and margin take side by side.
pub open spec fn required_units(margin: nat, text_width: nat) -> nat {
    margin + text_width + margin
}

/// The resize that a frame `frame_width` pixels wide, with its left edge at
/// `x`, needs to hold the text: none where it fits; else the smallest width
/// in whole pixels that holds it, with the left edge moved by as much as the
/// frame grew.
pub open spec fn resize_of(margin: nat, text_width: nat, frame_width: nat, x: int) -> Option<
    (nat, int),
> {
    let need = required_units(margin, text_width) as int;
    let scale = SCALE as int;
    if need > frame_width * scale {
        let w = (need + scale - 1) / scale;
        Some((w as nat, x - (w - frame_width)))
    } else {
        None
    }
}

/// The filled part, in units, of a bar across `frame_width` pixels at
/// `current` of `max`: none for a `max` of 0, the whole bar where `current`
/// passes `max`, the part `current / max` rounded down otherwise.
pub open spec fn fill_units(current: nat, max: nat, frame_width: nat) -> nat {
    let full = frame_width * (SCALE as nat);
    if max == 0 {
        0
    } else if current >= max {
        full
    } else {
        ((full * current) as int / max as int) as nat
    }
}

/// The bar for a state, a frame width and the time since start.
pub open spec fn bar_of(st: StateView, frame_width: nat, elapsed_ms: nat) -> BarPlan {
    match st.progress {
        Progress::Hidden => BarPlan::Hidden,
        Progress::Indeterminate => BarPlan::Pulse {
            millis: (elapsed_ms * st.indeterminate_speed) as u128,
        },
        Progress::Determinate => BarPlan::Fill {
            width: fill_units(
                st.progress_current as nat,
                st.progress_max as nat,
                frame_width,
            ) as u64,
        },
    }
}

pub open spec fn resize_view(r: Option<Resize>) -> Option<(nat, int)> {
    match r {
        Some(z) => Some((z.width as nat, z.x as int)),
        None => None,
    }
}

/// In determinate mode, setting the maximum to 50 and then the current value
/// to 25 fills exactly half of the bar, whatever the frame width and the time.
pub proof fn lemma_half_fill(st: StateView, frame_width: nat, elapsed_ms: nat)
    requires
        st.progress == Progress::Determinate,
    ensures
        ({
            let after = apply(apply(st, MsgView::ProgressMax(50)), MsgView::ProgressCurrent(25));
            &&& bar_of(after, frame_width, elapsed_ms) == (BarPlan::Fill {
                width: fill_units(25, 50, frame_width) as u64,
            })
            &&& fill_units(25, 50, frame_width) * 2 == frame_width * SCALE
        }),
{
    let full = frame_width * (SCALE as nat);
    assert((full * 25) as int / 50 == full / 2) by (nonlinear_arith);
    assert(full % 2 == 0);
}

/// The filled width of a determinate bar, in units.
pub fn fill_width(current: u64, max: u64, frame_width: u32) -> (r: u64)
    ensures
        r == fill_units(current as nat, max as nat, frame_width as nat),
        r <= frame_width * SCALE,
{
    let full = frame_width as u64 * SCALE;
    if max == 0 {
        0
    } else if current >= max {
        full
    } else {
        assert(full as int * current as int <= 0xffff_ffff_ffff * 0xffff_ffff_ffff_ffff)
            by (nonlinear_arith)
            requires
                full <= 0xffff_ffff_ffff,
                current <= 0xffff_ffff_ffff_ffff,
        ;
        let w = (full as u128 * current as u128) / max as u128;
        assert(w <= full) by (nonlinear_arith)
            requires
                w as int == (full as int * current as int) / max as int,
                current < max,
                max > 0,
        ;
        w as u64
    }
}

/// The resize needed to hold the text, if any.
pub fn plan_resize(margin: u32, text_width: u32, frame_width: u32, x: i32) -> (r: Option<Resize>)
    ensures
        resize_view(r) == resize_of(margin as nat, text_width as nat, frame_width as nat, x as int),
{
    let need = margin as u64 + text_width as u64 + margin as u64;
    if need > frame_width as u64 * SCALE {
        let w = (need + SCALE - 1) / SCALE;
        assert(w >= frame_width) by (nonlinear_arith)
            requires
                w as int == (need as int + 1023) / 1024,
                need as int > frame_width as int * 1024,
        ;
        Some(Resize { width: w, x: x as i64 - (w - frame_width as u64) as i64 })
    } else {
        None
    }
}

/// The progress bar of one frame.
pub fn plan_bar(st: &State, frame_width: u32, elapsed_ms: u64) -> (r: BarPlan)
    ensures
        r == bar_of(st@, frame_width as nat, elapsed_ms as nat),
{
    match st.progress {
        Progress::Hidden => BarPlan::Hidden,
        Progress::Indeterminate => {
            assert(elapsed_ms as int * st.indeterminate_speed as int <= 0xffff_ffff_ffff_ffff
                * 0xffff_ffff) by (nonlinear_arith)
                requires
                    elapsed_ms <= 0xffff_ffff_ffff_ffff,
                    st.indeterminate_speed <= 0xffff_ffff,
            ;
            let millis = elapsed_ms as u128 * st.indeterminate_speed as u128;
            BarPlan::Pulse { millis }
        },
        Progress::Determinate => BarPlan::Fill {
            width: fill_width(st.progress_current, st.progress_max, frame_width),
        },
    }
}

/// Plans one frame from a snapshot of the state, the margin and the measured
/// text width (both in units), the frame's width in pixels and its left
/// edge, and the milliseconds since start.
pub fn render(
    st: &State,
    margin: u32,
    text_width: u32,
    frame_width: u32,
    x: i32,
    elapsed_ms: u64,
) -> (r: RenderPlan)
    ensures
        r.text_x == margin,
        resize_view(r.resize) == resize_of(
            margin as nat,
            text_width as nat,
            frame_width as nat,
            x as int,
        ),
        r.bar == bar_of(st@, frame_width as nat, elapsed_ms as nat),
{
    RenderPlan {
        text_x: margin as u64,
        resize: plan_resize(margin, text_width, frame_width, x),
        bar: plan_bar(st, frame_width, elapsed_ms),
    }
}

} // verus!

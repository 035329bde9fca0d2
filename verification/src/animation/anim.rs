//! The interface of animations. Time is counted in nanoseconds.
use vstd::prelude::*;
use crate::audio::DURATION_MAX_NANOS;

verus! {

/// An animation of a visual element, driven by the passing time.
pub trait Animation {
    /// Whether `tick_nanos` more nanoseconds can be added to the time the
    /// animation has run.
    spec fn accepts_tick(&self, tick_nanos: u128) -> bool;

    /// Lets `tick_nanos` nanoseconds pass.
    fn update(&mut self, tick_nanos: u128)
        requires
            old(self).accepts_tick(tick_nanos),
    ;

    /// Brings the animation to its end at once.
    fn force_over(&mut self);

    /// Starts the animation again from its beginning.
    fn reset(&mut self);

    /// Whether the animation is still running towards an end.
    fn is_animing(&self) -> bool;

    /// Whether the animation has no progress and no end (a decoration that
    /// cannot be forced over or reset meaningfully). Unless an animation
    /// says otherwise, it is not.
    fn is_indeterminate(&self) -> (r: bool)
        default_ensures
            !r,
    {
        false
    }
}

/// An animation that can be stored among animations of other kinds.
pub trait AnyAnimation: Animation {}


/// The running time of an animation of length `anim_time` after
/// `tick_nanos` more nanoseconds: it grows with the ticks and stops at the
/// end of the animation.
pub fn advance_run_time(run_time: u128, tick_nanos: u128, anim_time: u128) -> (r: u128)
    requires
        run_time + tick_nanos <= DURATION_MAX_NANOS,
    ensures
        r == (if run_time + tick_nanos < anim_time { run_time + tick_nanos } else { anim_time as int }),
{
    let t = run_time + tick_nanos;
    if t < anim_time {
        t
    } else {
        anim_time
    }
}

} // verus!

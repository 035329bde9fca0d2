//! Full-screen effects that run without end: the error warning, the
//! glitch and the heartbeat. Each counts the time it has run, in
//! nanoseconds.
use vstd::prelude::*;
use crate::animation::anim::{Animation, AnyAnimation};
use crate::audio::DURATION_MAX_NANOS;

verus! {

/// The scrolling red warning of a system error.
pub struct EffectError {
    pub run_time: u128,
}

/// Pixels of the screen shifted and recoloured at random.
pub struct EffectGlitch {
    pub run_time: u128,
}

/// Rings that pulse out from the centre like a heartbeat.
pub struct EffectHeartBeat {
    pub run_time: u128,
}

impl Default for EffectError {
    fn default() -> (r: Self)
        ensures
            r.run_time == 0,
    {
        EffectError { run_time: 0 }
    }
}

impl Default for EffectGlitch {
    fn default() -> (r: Self)
        ensures
            r.run_time == 0,
    {
        EffectGlitch { run_time: 0 }
    }
}

impl Default for EffectHeartBeat {
    fn default() -> (r: Self)
        ensures
            r.run_time == 0,
    {
        EffectHeartBeat { run_time: 0 }
    }
}

impl Animation for EffectError {
    open spec fn accepts_tick(&self, tick_nanos: u128) -> bool {
        self.run_time + tick_nanos <= DURATION_MAX_NANOS
    }

    fn update(&mut self, tick_nanos: u128)
        ensures
            final(self).run_time == old(self).run_time + tick_nanos,
    {
        self.run_time = self.run_time + tick_nanos;
    }

    fn force_over(&mut self)
        ensures
            final(self).run_time == old(self).run_time,
    {
    }

    fn reset(&mut self)
        ensures
            final(self).run_time == 0,
    {
        self.run_time = 0;
    }

    fn is_animing(&self) -> (r: bool)
        ensures
            !r,
    {
        false
    }

    fn is_indeterminate(&self) -> (r: bool)
        ensures
            r,
    {
        true
    }
}

impl AnyAnimation for EffectError {}

impl Animation for EffectGlitch {
    open spec fn accepts_tick(&self, tick_nanos: u128) -> bool {
        self.run_time + tick_nanos <= DURATION_MAX_NANOS
    }

    fn update(&mut self, tick_nanos: u128)
        ensures
            final(self).run_time == old(self).run_time + tick_nanos,
    {
        self.run_time = self.run_time + tick_nanos;
    }

    fn force_over(&mut self)
        ensures
            final(self).run_time == old(self).run_time,
    {
    }

    fn reset(&mut self)
        ensures
            final(self).run_time == 0,
    {
        self.run_time = 0;
    }

    fn is_animing(&self) -> (r: bool)
        ensures
            !r,
    {
        false
    }

    fn is_indeterminate(&self) -> (r: bool)
        ensures
            r,
    {
        true
    }
}

impl AnyAnimation for EffectGlitch {}

impl Animation for EffectHeartBeat {
    open spec fn accepts_tick(&self, tick_nanos: u128) -> bool {
        self.run_time + tick_nanos <= DURATION_MAX_NANOS
    }

    fn update(&mut self, tick_nanos: u128)
        ensures
            final(self).run_time == old(self).run_time + tick_nanos,
    {
        self.run_time = self.run_time + tick_nanos;
    }

    fn force_over(&mut self)
        ensures
            final(self).run_time == old(self).run_time,
    {
    }

    fn reset(&mut self)
        ensures
            final(self).run_time == 0,
    {
        self.run_time = 0;
    }

    fn is_animing(&self) -> (r: bool)
        ensures
            !r,
    {
        false
    }

    fn is_indeterminate(&self) -> (r: bool)
        ensures
            r,
    {
        true
    }
}

impl AnyAnimation for EffectHeartBeat {}

// ---------------------------------------------------------------------------
// The layout of the error warning

/// The text that scrolls along each banner of the warning.
pub const BANNER: &'static str = "    CRITICAL SYSTEM ERROR >>> MALFUNCTION DETECTED <<<    ";

/// The rows between two banners, besides the three rows of a banner.
pub const BANNER_ROW_SPACING: u16 = 4;

/// The first rows of the banners in an area of `height` rows: one banner
/// every seven rows from the top, as long as its three rows fit.
pub open spec fn banner_starts(height: int) -> Seq<u16> {
    Seq::new((if height >= 3 { (height - 3) / 7 + 1 } else { 0 }) as nat, |k: int| (7 * k) as u16)
}

impl EffectError {
    /// The first rows, counted from the top of the area, of the banners
    /// drawn in an area of `height` rows.
    pub fn banner_rows(height: u16) -> (r: Vec<u16>)
        requires
            height < 65530,
        ensures
            r@ == banner_starts(height as int),
    {
        let mut r: Vec<u16> = Vec::new();
        let stride: u16 = 3 + BANNER_ROW_SPACING;
        let mut block_start: u16 = 0;
        while block_start + 2 < height
            invariant
                stride == 7,
                height < 65530,
                block_start as int == 7 * r@.len(),
                7 * r@.len() <= height + 4,
                r@.len() > 0 ==> 7 * (r@.len() - 1) + 2 < height,
                r@ == Seq::new(r@.len(), |k: int| (7 * k) as u16),
            decreases height + 7 - block_start,
        {
            r.push(block_start);
            block_start = block_start.saturating_add(stride);
            assert(r@ =~= Seq::new(r@.len(), |k: int| (7 * k) as u16));
        }
        assert(r@.len() == (if height >= 3 { (height - 3) / 7 + 1 } else { 0 }));
        r
    }

    /// The character of the scrolling text at column `x` when the text has
    /// moved `scroll` columns to the right.
    pub fn banner_char(x: u16, scroll: i32) -> (r: char)
        requires
            i32::MIN <= x - scroll <= i32::MAX,
        ensures
            r == BANNER@[(x - scroll) % (BANNER@.len() as int)],
    {
        proof {
            reveal_strlit("    CRITICAL SYSTEM ERROR >>> MALFUNCTION DETECTED <<<    ");
        }
        let chars = crate::script::text::str_chars(BANNER);
        let len: i64 = chars.len() as i64;
        let d: i64 = x as i64 - scroll as i64;
        let m: i64 = d % len;
        let pos: i64 = if m < 0 { m + len } else { m };
        assert(pos == (x - scroll) % (BANNER@.len() as int));
        chars[pos as usize]
    }

    /// Whether `c` is drawn highlighted in the banner.
    pub fn is_alert_char(c: char) -> (r: bool)
        ensures
            r == (c == '!' || c == '>' || c == '<'),
    {
        c == '!' || c == '>' || c == '<'
    }
}

} // verus!

//! Audio tracks and the plans that scripts hand to them: what a track is
//! told to do when music, ambience or a voice is set or stopped.
use vstd::prelude::*;
use crate::script::text::same_text;
use crate::script::command_executor::ExecuteStatus;
use crate::script::context::{GlobalTableError, ScriptContext, global_table, global_table_error, set_effect};
use crate::script::value::{ScriptValue, ValueV};

verus! {

/// The audio tracks of the game.
#[derive(Clone, Copy, Hash, PartialEq, Eq, Debug, Structural)]
pub enum Tracks {
    Bgm,
    Voice,
    /// Ambient sound, apart from the music and the voices.
    EnvEffect,
    MainMenuBgm,
    Effect,
    Effect1,
    Effect2,
}

/// The name of a track.
pub open spec fn track_name(t: Tracks) -> Seq<char> {
    match t {
        Tracks::Bgm => "Bgm"@,
        Tracks::Voice => "Voice"@,
        Tracks::EnvEffect => "EnvEffect"@,
        Tracks::MainMenuBgm => "MainMenuBgm"@,
        Tracks::Effect => "Effect"@,
        Tracks::Effect1 => "Effect1"@,
        Tracks::Effect2 => "Effect2"@,
    }
}

impl Tracks {
    /// The name of the track: the name of its variant.
    pub fn name(&self) -> (r: &'static str)
        ensures
            r@ == track_name(*self),
    {
        match self {
            Tracks::Bgm => "Bgm",
            Tracks::Voice => "Voice",
            Tracks::EnvEffect => "EnvEffect",
            Tracks::MainMenuBgm => "MainMenuBgm",
            Tracks::Effect => "Effect",
            Tracks::Effect1 => "Effect1",
            Tracks::Effect2 => "Effect2",
        }
    }
}

/// The longest duration, in nanoseconds.
pub const DURATION_MAX_NANOS: u128 = 18446744073709551615999999999u128;

/// The pause after a fade-out before the next step: the fade plus 50 ms,
/// at most the longest duration.
pub open spec fn fade_wait(fade_nanos: int) -> int {
    if fade_nanos + 50_000_000 > DURATION_MAX_NANOS { DURATION_MAX_NANOS as int } else { fade_nanos + 50_000_000 }
}

fn fade_wait_of(fade_nanos: u128) -> (r: u128)
    requires
        fade_nanos <= DURATION_MAX_NANOS,
    ensures
        r == fade_wait(fade_nanos as int),
{
    if fade_nanos > DURATION_MAX_NANOS - 50_000_000 {
        DURATION_MAX_NANOS
    } else {
        fade_nanos + 50_000_000
    }
}

/// One queued step of a track. Durations are in nanoseconds.
#[derive(Clone, Copy, Debug, PartialEq, Eq, Structural)]
pub enum AudioStep {
    /// Fade what plays out.
    FadeOut(u128),
    /// Wait.
    Wait(u128),
    /// Stop.
    Stop,
    /// Fade the new source in.
    FadeIn(u128),
    /// Play the new source at full volume.
    Play,
}

/// What a track is told to do.
#[derive(Debug, PartialEq, Eq)]
pub enum TrackPlan {
    /// Nothing.
    Keep,
    /// Stop at once.
    StopNow,
    /// Stop at once, then play the new source.
    Restart,
    /// Queue these steps.
    Queue(Vec<AudioStep>),
    /// Cross-fade from what plays to the new source over this time.
    Transition(u128),
}

/// The steps that fade a track out and stop it.
pub open spec fn fade_out_stop_steps(fade_nanos: int) -> Seq<AudioStep> {
    seq![AudioStep::FadeOut(fade_nanos as u128), AudioStep::Wait(fade_wait(fade_nanos) as u128), AudioStep::Stop]
}

/// The steps that fade a track out and then bring in the new source with
/// `last`.
pub open spec fn fade_over_steps(fade_nanos: int, last: AudioStep) -> Seq<AudioStep> {
    seq![AudioStep::FadeOut(fade_nanos as u128), AudioStep::Wait(fade_wait(fade_nanos) as u128), last]
}

/// Stopping a track: at once when there is no fade, otherwise by fading
/// out, waiting for the fade and stopping.
pub open spec fn stop_plan(fade_nanos: int, r: TrackPlan) -> bool {
    if fade_nanos == 0 {
        r is StopNow
    } else {
        r matches TrackPlan::Queue(v) && v@ == fade_out_stop_steps(fade_nanos)
    }
}

fn stop_with_fade(fade_nanos: u128) -> (r: TrackPlan)
    requires
        fade_nanos <= DURATION_MAX_NANOS,
    ensures
        stop_plan(fade_nanos as int, r),
{
    if fade_nanos == 0 {
        TrackPlan::StopNow
    } else {
        let w = fade_wait_of(fade_nanos);
        let v = vec![AudioStep::FadeOut(fade_nanos), AudioStep::Wait(w), AudioStep::Stop];
        TrackPlan::Queue(v)
    }
}

/// Setting a new source on a track: at once when there is no fade,
/// otherwise by fading the old out, waiting, and fading the new in.
pub open spec fn replace_plan(fade_nanos: int, r: TrackPlan) -> bool {
    if fade_nanos == 0 {
        r is Restart
    } else {
        r matches TrackPlan::Queue(v) && v@ == fade_over_steps(fade_nanos, AudioStep::FadeIn(fade_nanos as u128))
    }
}

fn replace_with_fade(fade_nanos: u128) -> (r: TrackPlan)
    requires
        fade_nanos <= DURATION_MAX_NANOS,
    ensures
        replace_plan(fade_nanos as int, r),
{
    if fade_nanos == 0 {
        TrackPlan::Restart
    } else {
        let w = fade_wait_of(fade_nanos);
        let v = vec![AudioStep::FadeOut(fade_nanos), AudioStep::Wait(w), AudioStep::FadeIn(fade_nanos)];
        TrackPlan::Queue(v)
    }
}

/// The mode of a music change whose script name is `"fade_in"`.
pub const FADE_IN: &'static str = "fade_in";

/// The mode of a music change whose script name is `"fade_out"`.
pub const FADE_OUT: &'static str = "fade_out";

/// The mode of a music change whose script name is `"transition"`.
pub const TRANSITION: &'static str = "transition";

/// The background music.
pub struct VBgm;

impl VBgm {
    /// What the music track is told when the music stops with a fade of
    /// `fade_nanos` nanoseconds.
    pub fn stop(fade_nanos: u128) -> (r: TrackPlan)
        requires
            fade_nanos <= DURATION_MAX_NANOS,
        ensures
            stop_plan(fade_nanos as int, r),
    {
        stop_with_fade(fade_nanos)
    }

    /// What the music track is told when new music is set in the mode
    /// `fade_type` with a fade of `fade_nanos` nanoseconds: for
    /// `"fade_in"` the old music fades out and the new fades in; for
    /// `"fade_out"` the old fades out and the new plays at once; for
    /// `"transition"` the two cross-fade; for anything else the new music
    /// is queued to play.
    pub fn play_plan(fade_type: &str, fade_nanos: u128) -> (r: TrackPlan)
        requires
            fade_nanos <= DURATION_MAX_NANOS,
        ensures
            fade_type@ == FADE_IN@ ==> (r matches TrackPlan::Queue(v) && v@ == fade_over_steps(
                fade_nanos as int,
                AudioStep::FadeIn(fade_nanos),
            )),
            fade_type@ == FADE_OUT@ ==> (r matches TrackPlan::Queue(v) && v@ == fade_over_steps(
                fade_nanos as int,
                AudioStep::Play,
            )),
            fade_type@ == TRANSITION@ ==> r == TrackPlan::Transition(fade_nanos),
            fade_type@ != FADE_IN@ && fade_type@ != FADE_OUT@ && fade_type@ != TRANSITION@ ==> (r
                matches TrackPlan::Queue(v) && v@ == seq![AudioStep::Play]),
    {
        let w = fade_wait_of(fade_nanos);
        proof {
            reveal_strlit("fade_in");
            reveal_strlit("fade_out");
            reveal_strlit("transition");
            assert(FADE_IN@.len() == 7 && FADE_OUT@.len() == 8 && TRANSITION@.len() == 10);
        }
        if same_text(fade_type, FADE_IN) {
            TrackPlan::Queue(vec![AudioStep::FadeOut(fade_nanos), AudioStep::Wait(w), AudioStep::FadeIn(fade_nanos)])
        } else if same_text(fade_type, FADE_OUT) {
            TrackPlan::Queue(vec![AudioStep::FadeOut(fade_nanos), AudioStep::Wait(w), AudioStep::Play])
        } else if same_text(fade_type, TRANSITION) {
            TrackPlan::Transition(fade_nanos)
        } else {
            TrackPlan::Queue(vec![AudioStep::Play])
        }
    }
}

/// The ambient sound.
pub struct VEnvEffect;

impl VEnvEffect {
    /// What the ambience track is told when the ambience stops with a fade
    /// of `fade_nanos` nanoseconds.
    pub fn stop(fade_nanos: u128) -> (r: TrackPlan)
        requires
            fade_nanos <= DURATION_MAX_NANOS,
        ensures
            stop_plan(fade_nanos as int, r),
    {
        stop_with_fade(fade_nanos)
    }

    /// What the ambience track is told when its source is set to `path`:
    /// an empty path stops it; another replaces what plays.
    pub fn set_plan(path: &str, fade_nanos: u128) -> (r: TrackPlan)
        requires
            fade_nanos <= DURATION_MAX_NANOS,
        ensures
            path@.len() == 0 ==> stop_plan(fade_nanos as int, r),
            path@.len() != 0 ==> replace_plan(fade_nanos as int, r),
    {
        if path.is_empty() {
            Self::stop(fade_nanos)
        } else {
            replace_with_fade(fade_nanos)
        }
    }
}

/// The voice of the current line.
pub struct VVoice;

impl VVoice {
    /// What the voice track is told when a voice is set to `path`: an
    /// empty path stops it; another replaces what plays.
    pub fn set_plan(path: &str, fade_nanos: u128) -> (r: TrackPlan)
        requires
            fade_nanos <= DURATION_MAX_NANOS,
        ensures
            path@.len() == 0 ==> stop_plan(fade_nanos as int, r),
            path@.len() != 0 ==> replace_plan(fade_nanos as int, r),
    {
        if path.is_empty() {
            stop_with_fade(fade_nanos)
        } else {
            replace_with_fade(fade_nanos)
        }
    }
}


impl VBgm {
    /// Records the path of new music in the script: runs
    /// `set bgm.m_source "<path>"`.
    pub fn record_source(ctx: &mut ScriptContext, path: &str) -> (r: ExecuteStatus)
        ensures
            exists|args: Seq<ScriptValue>|
                args.len() == 1 && args[0]@ == ValueV::Str(path@) && set_effect(
                    *old(ctx),
                    *final(ctx),
                    "bgm.m_source"@,
                    args,
                    false,
                    r,
                ),
    {
        let args = vec![ScriptValue::String(path.to_string())];
        let r = ctx.execute_set("bgm.m_source", args.as_slice(), false);
        assert(args@.len() == 1 && args@[0]@ == ValueV::Str(path@));
        r
    }
}

impl VEnvEffect {
    /// Records the path of new ambience in `env_effect.m_source`: nil for
    /// an empty path; an error when there is no `env_effect` table.
    pub fn record_source(ctx: &mut ScriptContext, path: &str) -> (r: Result<(), GlobalTableError>)
        ensures
            final(ctx).globals@ == old(ctx).globals@,
            match global_table(*old(ctx), "env_effect"@) {
                Some(id) => r is Ok && final(ctx).tables@ == old(ctx).tables@.insert(
                    id,
                    old(ctx).tables@[id].insert(
                        "m_source"@,
                        if path@.len() == 0 { ValueV::Nil } else { ValueV::Str(path@) },
                    ),
                ),
                None => r matches Err(e) && global_table_error(*old(ctx), "env_effect"@, e)
                    && final(ctx).tables@ == old(ctx).tables@,
            },
    {
        if path.is_empty() {
            ctx.set_table_member("env_effect", "m_source", ScriptValue::Nil)
        } else {
            ctx.set_table_member("env_effect", "m_source", ScriptValue::String(path.to_string()))
        }
    }

    /// Clears `env_effect.m_source` to the empty text when the ambience is
    /// stopped; an error when there is no `env_effect` table.
    pub fn clear_source(ctx: &mut ScriptContext) -> (r: Result<(), GlobalTableError>)
        ensures
            final(ctx).globals@ == old(ctx).globals@,
            match global_table(*old(ctx), "env_effect"@) {
                Some(id) => r is Ok && final(ctx).tables@ == old(ctx).tables@.insert(
                    id,
                    old(ctx).tables@[id].insert("m_source"@, ValueV::Str(""@)),
                ),
                None => r matches Err(e) && global_table_error(*old(ctx), "env_effect"@, e)
                    && final(ctx).tables@ == old(ctx).tables@,
            },
    {
        ctx.set_table_member("env_effect", "m_source", ScriptValue::String(String::from_str("")))
    }
}


/// How a track is set up: whether it loops, and its default fade in
/// nanoseconds (its other settings keep their defaults).
#[derive(Clone, Copy, Debug, PartialEq, Eq, Structural)]
pub struct TrackSetup {
    pub looped: bool,
    pub default_fade_nanos: u128,
}

/// The tracks the game creates when it starts, each with its setup.
pub open spec fn startup_track_list() -> Seq<(Tracks, TrackSetup)> {
    seq![
        (Tracks::Bgm, TrackSetup { looped: true, default_fade_nanos: 400_000_000 }),
        (Tracks::Voice, TrackSetup { looped: false, default_fade_nanos: 10_000_000 }),
        (Tracks::EnvEffect, TrackSetup { looped: true, default_fade_nanos: 200_000_000 }),
        (Tracks::MainMenuBgm, TrackSetup { looped: true, default_fade_nanos: 800_000_000 }),
    ]
}

/// The tracks the game creates when it starts: the music and the
/// ambience loop with fades of 400 and 200 ms, voices play once with a
/// 10 ms fade, and the main-menu music loops with an 800 ms fade.
pub fn startup_tracks() -> (r: Vec<(Tracks, TrackSetup)>)
    ensures
        r@ == startup_track_list(),
        forall|i: int| 0 <= i < r@.len() ==> (#[trigger] r@[i]).1.looped == !(r@[i].0 is Voice),
{
    proof {
        startup_music_loops_and_voices_do_not();
    }
    let r = vec![
        (Tracks::Bgm, TrackSetup { looped: true, default_fade_nanos: 400_000_000 }),
        (Tracks::Voice, TrackSetup { looped: false, default_fade_nanos: 10_000_000 }),
        (Tracks::EnvEffect, TrackSetup { looped: true, default_fade_nanos: 200_000_000 }),
        (Tracks::MainMenuBgm, TrackSetup { looped: true, default_fade_nanos: 800_000_000 }),
    ];
    assert(r@ =~= startup_track_list());
    r
}

/// Whether the track `t` is among those created at start.
pub open spec fn created_at_start(t: Tracks) -> bool {
    exists|i: int| 0 <= i < startup_track_list().len() && #[trigger] startup_track_list()[i].0 == t
}

/// The tracks created at start: each of the music of play, the voices,
/// the ambience and the music of the main menu once, and no other; every
/// one of them loops except the voices, which play once.
pub proof fn startup_music_loops_and_voices_do_not()
    ensures
        forall|i: int|
            0 <= i < startup_track_list().len() ==> (#[trigger] startup_track_list()[i]).1.looped == !(
            startup_track_list()[i].0 is Voice),
        forall|i: int, j: int|
            0 <= i < j < startup_track_list().len() ==> #[trigger] startup_track_list()[i].0
                != #[trigger] startup_track_list()[j].0,
        forall|t: Tracks| #[trigger] created_at_start(t) <==> (t is Bgm || t is Voice || t is EnvEffect || t is MainMenuBgm),
{
    let l = startup_track_list();
    assert forall|t: Tracks|
        (t is Bgm || t is Voice || t is EnvEffect || t is MainMenuBgm) implies #[trigger] created_at_start(t) by {
        if t is Bgm {
            assert(l[0].0 == t);
        } else if t is Voice {
            assert(l[1].0 == t);
        } else if t is EnvEffect {
            assert(l[2].0 == t);
        } else {
            assert(l[3].0 == t);
        }
    }
}

} // verus!

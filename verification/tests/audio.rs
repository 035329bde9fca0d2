use tmj::audio::{startup_tracks, TrackSetup};
use tmj::audio::{AudioStep, TrackPlan, Tracks, VBgm, VEnvEffect, VVoice, DURATION_MAX_NANOS};

const MS: u128 = 1_000_000;

#[test]
fn track_names_are_variant_names() {
    assert_eq!(Tracks::Bgm.name(), "Bgm");
    assert_eq!(Tracks::EnvEffect.name(), "EnvEffect");
    assert_eq!(Tracks::MainMenuBgm.name(), "MainMenuBgm");
    assert_eq!(Tracks::Effect2.name(), "Effect2");
}

#[test]
fn music_stops_at_once_without_a_fade() {
    assert_eq!(VBgm::stop(0), TrackPlan::StopNow);
}

#[test]
fn music_fades_out_then_stops() {
    assert_eq!(
        VBgm::stop(1000 * MS),
        TrackPlan::Queue(vec![AudioStep::FadeOut(1000 * MS), AudioStep::Wait(1050 * MS), AudioStep::Stop])
    );
}

#[test]
fn fade_wait_saturates_at_the_longest_duration() {
    assert_eq!(
        VEnvEffect::stop(DURATION_MAX_NANOS),
        TrackPlan::Queue(vec![
            AudioStep::FadeOut(DURATION_MAX_NANOS),
            AudioStep::Wait(DURATION_MAX_NANOS),
            AudioStep::Stop
        ])
    );
}

#[test]
fn music_modes() {
    let d = 400 * MS;
    assert_eq!(
        VBgm::play_plan("fade_in", d),
        TrackPlan::Queue(vec![AudioStep::FadeOut(d), AudioStep::Wait(450 * MS), AudioStep::FadeIn(d)])
    );
    assert_eq!(
        VBgm::play_plan("fade_out", d),
        TrackPlan::Queue(vec![AudioStep::FadeOut(d), AudioStep::Wait(450 * MS), AudioStep::Play])
    );
    assert_eq!(VBgm::play_plan("transition", d), TrackPlan::Transition(d));
    assert_eq!(VBgm::play_plan("other", d), TrackPlan::Queue(vec![AudioStep::Play]));
}

#[test]
fn ambience_and_voice_plans() {
    assert_eq!(VEnvEffect::set_plan("", 0), TrackPlan::StopNow);
    assert_eq!(VEnvEffect::set_plan("rain.ogg", 0), TrackPlan::Restart);
    assert_eq!(
        VVoice::set_plan("line.ogg", 200 * MS),
        TrackPlan::Queue(vec![AudioStep::FadeOut(200 * MS), AudioStep::Wait(250 * MS), AudioStep::FadeIn(200 * MS)])
    );
    assert_eq!(
        VVoice::set_plan("", 200 * MS),
        TrackPlan::Queue(vec![AudioStep::FadeOut(200 * MS), AudioStep::Wait(250 * MS), AudioStep::Stop])
    );
}

#[test]
fn startup_tracks_and_their_fades() {
    let t = startup_tracks();
    assert_eq!(t.len(), 4);
    assert_eq!(t[0], (Tracks::Bgm, TrackSetup { looped: true, default_fade_nanos: 400 * MS }));
    assert_eq!(t[1], (Tracks::Voice, TrackSetup { looped: false, default_fade_nanos: 10 * MS }));
    assert_eq!(t[3], (Tracks::MainMenuBgm, TrackSetup { looped: true, default_fade_nanos: 800 * MS }));
}

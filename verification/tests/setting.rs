use tmj::audio::Tracks;
use tmj::script::value::{Decimal, ScriptValue};
use tmj::setting::{GameSetting, GameSettingFile};

fn dec(mantissa: i64, scale: u32) -> Decimal {
    Decimal { mantissa, scale }
}

#[test]
fn defaults_are_full_volume() {
    let s = GameSetting::default();
    assert_eq!(s.get_number("bgm_volume"), Some(dec(1, 0)));
    assert_eq!(s.to_file(), GameSettingFile::default());
}

#[test]
fn applying_a_volume_sets_its_tracks() {
    let mut s = GameSetting::default();
    let v = s.apply_field("bgm_volume".to_string(), ScriptValue::Float(dec(5, 1))).unwrap();
    assert_eq!(v, vec![(Tracks::Bgm, dec(5, 1))]);
    let v = s.apply_field("effect_volume".to_string(), ScriptValue::Int(3)).unwrap();
    assert_eq!(v, vec![(Tracks::Effect, dec(1, 0)), (Tracks::Effect1, dec(1, 0)), (Tracks::Effect2, dec(1, 0))]);
    let v = s.apply_field("env_volume".to_string(), ScriptValue::Float(dec(-2, 0))).unwrap();
    assert_eq!(v, vec![(Tracks::EnvEffect, dec(0, 0))]);
    let v = s.apply_field("other".to_string(), ScriptValue::Int(0)).unwrap();
    assert!(v.is_empty());
    assert_eq!(s.get_number("effect_volume"), Some(dec(3, 0)));
}

#[test]
fn a_setting_that_is_not_a_number_is_refused() {
    let mut s = GameSetting::default();
    let e = s.apply_field("bgm_volume".to_string(), ScriptValue::String("loud".to_string())).unwrap_err();
    assert_eq!(e, "bgm_volume must be number");
    assert_eq!(s.get_number("bgm_volume"), None);
    assert_eq!(s.apply_setting().unwrap_err(), "bgm_volume must be number");
    assert_eq!(s.to_file().bgm_volume, dec(1, 0));
}

#[test]
fn applying_all_settings() {
    let s = GameSetting::from_file(GameSettingFile {
        bgm_volume: dec(25, 2),
        env_volume: dec(1, 0),
        effect_volume: dec(12, 1),
    });
    let mut v = s.apply_setting().unwrap();
    v.sort_by_key(|(t, _)| format!("{:?}", t));
    assert_eq!(
        v,
        vec![
            (Tracks::Bgm, dec(25, 2)),
            (Tracks::Effect, dec(1, 0)),
            (Tracks::Effect1, dec(1, 0)),
            (Tracks::Effect2, dec(1, 0)),
            (Tracks::EnvEffect, dec(1, 0)),
        ]
    );
}

#[test]
fn settings_file_round_trip() {
    let f = GameSettingFile { bgm_volume: dec(3, 1), env_volume: dec(7, 1), effect_volume: dec(0, 0) };
    assert_eq!(GameSetting::from_file(f).to_file(), f);
}

use tmj::animation::anim::advance_run_time;
use tmj::animation::anim::Animation;
use tmj::animation::effect::{EffectError, EffectGlitch, EffectHeartBeat, BANNER};

#[test]
fn effects_count_time_and_never_end() {
    let mut e = EffectError::default();
    e.update(16_000_000);
    e.update(4_000_000);
    assert_eq!(e.run_time, 20_000_000);
    e.force_over();
    assert_eq!(e.run_time, 20_000_000);
    assert!(!e.is_animing());
    assert!(e.is_indeterminate());
    e.reset();
    assert_eq!(e.run_time, 0);

    let mut g = EffectGlitch::default();
    g.update(5);
    assert_eq!(g.run_time, 5);
    assert!(g.is_indeterminate() && !g.is_animing());
    let mut h = EffectHeartBeat::default();
    h.update(7);
    h.reset();
    assert_eq!(h.run_time, 0);
    assert!(h.is_indeterminate() && !h.is_animing());
}

#[test]
fn banners_every_seven_rows() {
    assert_eq!(EffectError::banner_rows(0), Vec::<u16>::new());
    assert_eq!(EffectError::banner_rows(2), Vec::<u16>::new());
    assert_eq!(EffectError::banner_rows(3), vec![0]);
    assert_eq!(EffectError::banner_rows(9), vec![0]);
    assert_eq!(EffectError::banner_rows(10), vec![0, 7]);
    assert_eq!(EffectError::banner_rows(23), vec![0, 7, 14]);
    assert_eq!(EffectError::banner_rows(24), vec![0, 7, 14, 21]);
}

#[test]
fn banner_text_scrolls_right() {
    let chars: Vec<char> = BANNER.chars().collect();
    assert_eq!(EffectError::banner_char(4, 0), 'C');
    assert_eq!(EffectError::banner_char(5, 1), 'C');
    assert_eq!(EffectError::banner_char(0, 1), chars[chars.len() - 1]);
    assert_eq!(EffectError::banner_char(3, -2), 'R');
    assert!(EffectError::is_alert_char('>'));
    assert!(EffectError::is_alert_char('!'));
    assert!(!EffectError::is_alert_char('C'));
}

#[test]
fn run_time_stops_at_the_end() {
    assert_eq!(advance_run_time(0, 10, 100), 10);
    assert_eq!(advance_run_time(95, 10, 100), 100);
    assert_eq!(advance_run_time(90, 10, 100), 100);
    assert_eq!(advance_run_time(0, 0, 0), 0);
}

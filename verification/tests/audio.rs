use good_web_game::audio::dummy_audio;
use good_web_game::audio::{AudioContext, Sound, Source};

#[test]
fn sounds_get_fresh_handles() {
    let mut ctx = AudioContext::new();
    assert!(!ctx.contains(Sound(0)));
    let a = ctx.load(&[1, 2, 3]);
    let b = ctx.load(&[]);
    assert_eq!(a, Sound(0));
    assert_eq!(b, Sound(1));
    assert_ne!(a, b);
    assert!(ctx.contains(a));
    assert!(ctx.contains(b));
    assert!(!ctx.contains(Sound(2)));
}

#[test]
fn pause_and_resume_keep_the_sounds() {
    let mut ctx = AudioContext::default();
    let a = ctx.load(&[0; 4]);
    ctx.pause();
    ctx.resume();
    assert!(ctx.contains(a));
    assert_eq!(ctx.load(&[1]), Sound(1));
}

#[test]
fn silent_sounds_are_loaded_at_once() {
    let mut ctx = dummy_audio::AudioContext::new();
    ctx.pause();
    ctx.resume();
    let mut s = dummy_audio::Sound::load(&mut ctx, &[9, 9]);
    assert!(s.is_loaded());
    s.stop(&mut ctx);
    assert!(s.is_loaded());
}

#[test]
fn stopping_a_sound_keeps_it_registered() {
    let mut ctx = AudioContext::new();
    let a = ctx.load(&[1]);
    let b = ctx.load(&[2]);
    assert!(ctx.stop(a).is_ok());
    assert!(ctx.contains(a));
    assert!(ctx.contains(b));
    assert_eq!(ctx.load(&[3]), Sound(2));
}

#[test]
fn sources_play_once_at_the_default_volume_and_get_fresh_sounds() {
    let mut ctx = AudioContext::new();
    let mut a = Source::from_bytes(&mut ctx, &[1, 2], 1.0f32).unwrap();
    let b = Source::from_bytes(&mut ctx, &[3], 1.0f32).unwrap();
    assert_eq!(a.get_sound(), Sound(0));
    assert_eq!(b.get_sound(), Sound(1));
    assert!(!a.repeat());
    assert_eq!(a.volume(), 1.0);
    a.set_repeat(true);
    assert!(a.repeat());
    assert!(a.set_volume(&mut ctx, 0.5).is_ok());
    assert_eq!(a.volume(), 0.5);
    assert!(a.play(&mut ctx).is_ok());
    assert!(a.stop(&mut ctx).is_ok());
    assert!(ctx.contains(a.get_sound()));
    assert!(ctx.contains(b.get_sound()));
}

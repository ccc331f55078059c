use good_web_game::conf::Conf;
use good_web_game::error::GameError;

#[test]
fn default_conf() {
    let c = Conf::default();
    assert!(c.physical_root_dir.is_none());
    assert!(c.cache.is_none());
    assert_eq!(c.quad_conf.window_title, "An easy, good game");
    assert_eq!(c.quad_conf.window_width, 800);
    assert_eq!(c.quad_conf.window_height, 600);
    assert!(!c.quad_conf.high_dpi);
    assert!(!c.quad_conf.fullscreen);
    assert_eq!(c.quad_conf.sample_count, 1);
    assert!(!c.quad_conf.window_resizable);
}

#[test]
fn builders_set_one_field_each() {
    let c = Conf::default()
        .physical_root_dir(Some(std::path::PathBuf::from("assets")))
        .cache(Some(&[1u8, 2, 3][..]))
        .window_title("Astroblasto".to_string())
        .window_width(1024)
        .window_height(768)
        .high_dpi(true)
        .fullscreen(true)
        .sample_count(4)
        .window_resizable(true);
    assert_eq!(c.physical_root_dir, Some(std::path::PathBuf::from("assets")));
    assert_eq!(c.cache, Some(&[1u8, 2, 3][..]));
    assert_eq!(c.quad_conf.window_title, "Astroblasto");
    assert_eq!(c.quad_conf.window_width, 1024);
    assert_eq!(c.quad_conf.window_height, 768);
    assert!(c.quad_conf.high_dpi);
    assert!(c.quad_conf.fullscreen);
    assert_eq!(c.quad_conf.sample_count, 4);
    assert!(c.quad_conf.window_resizable);
}

#[test]
fn a_builder_leaves_the_other_fields() {
    let c = Conf::default().window_width(320);
    assert_eq!(c.quad_conf.window_width, 320);
    assert_eq!(c.quad_conf.window_height, 600);
    assert_eq!(c.quad_conf.window_title, "An easy, good game");
}

#[test]
fn io_errors_become_game_errors() {
    let e = GameError::from(std::io::Error::new(std::io::ErrorKind::NotFound, "gone"));
    match e {
        GameError::IOError(inner) => assert_eq!(inner.kind(), std::io::ErrorKind::NotFound),
        _ => panic!("expected an IOError"),
    }
}

use glap::config::{Config, Theme, start_folder};
use glap::utils::Color;

#[test]
fn default_config_sets_nothing() {
    let c = Config::default();
    assert!(c.music_folder.is_none());
    assert!(c.dont_filter_unplayable.is_none());
    assert!(c.theme.is_none());
    let t = Theme::default();
    assert!(t.foreground.is_none() && t.background.is_none());
    assert!(t.controls.is_none() && t.playbar.is_none());
}

#[test]
fn music_folder_overrides_audio_folder() {
    let m = Some("/my/music".to_string());
    let a = Some("/home/me/Music".to_string());
    assert_eq!(start_folder(m.clone(), a.clone()), m);
    assert_eq!(start_folder(None, a.clone()), a);
    assert_eq!(start_folder(None, None), None);
}

#[test]
fn theme_colors_are_read() {
    let t = Theme {
        foreground: Some("White".to_string()),
        background: None,
        controls: Some("#ff0000".to_string()),
        playbar: Some("42".to_string()),
    };
    let c = t.colors();
    assert_eq!(c.foreground, Some(Color::White));
    assert_eq!(c.background, None);
    assert_eq!(c.controls, Some(Color::Rgb(255, 0, 0)));
    assert_eq!(c.playbar, Some(Color::Indexed(42)));
}

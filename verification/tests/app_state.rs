use glap::app::{
    App, DeviceAction, Focused, Input, LoaderAction, Page, RepeatState, Response, Status,
    build_queue,
};

fn s(x: &str) -> String {
    x.to_string()
}

fn press(app: &mut App, input: Input) -> Response {
    app.handle_input(input, None, &vec![])
}

fn playing_app() -> App {
    let mut app = App::default();
    app.audio_created = true;
    app.has_device = true;
    app.playing = true;
    app.focused = Focused::Nothing;
    app
}

#[test]
fn default_state() {
    let app = App::default();
    assert_eq!(app.page, Page::Player);
    assert_eq!(app.focused, Focused::Explorer);
    assert_eq!(app.repeat_state, RepeatState::Off);
    assert!(!app.exit && !app.playing && !app.audio_created && !app.loading && !app.has_device);
    assert_eq!(app.status, Status::Blank);
    assert!(app.queue.is_empty());
    assert_eq!(app.audio_path, "");
}

#[test]
fn quit_exits_on_every_page() {
    let mut app = App::default();
    let r = press(&mut app, Input::Quit);
    assert!(app.exit);
    assert!(r.to_explorer);
    let mut app = App::default();
    app.page = Page::About;
    let r = press(&mut app, Input::Quit);
    assert!(app.exit);
    assert_eq!(r, Response { device: DeviceAction::Keep, to_explorer: false });
}

#[test]
fn about_page_and_back() {
    let mut app = playing_app();
    press(&mut app, Input::ShowAbout);
    assert_eq!(app.page, Page::About);
    let r = press(&mut app, Input::Space);
    assert_eq!(r.device, DeviceAction::Keep);
    assert!(app.playing);
    press(&mut app, Input::ShowPlayer);
    assert_eq!(app.page, Page::Player);
}

#[test]
fn space_pauses_and_resumes() {
    let mut app = playing_app();
    assert_eq!(press(&mut app, Input::Space).device, DeviceAction::Pause);
    assert!(!app.playing);
    assert_eq!(press(&mut app, Input::Space).device, DeviceAction::Resume);
    assert!(app.playing);
    let mut idle = App::default();
    assert_eq!(press(&mut idle, Input::Space).device, DeviceAction::Keep);
    assert!(!idle.playing);
}

#[test]
fn tab_toggles_the_explorer() {
    let mut app = App::default();
    let r = press(&mut app, Input::Tab);
    assert_eq!(app.focused, Focused::Nothing);
    assert!(!r.to_explorer);
    let r = press(&mut app, Input::Tab);
    assert_eq!(app.focused, Focused::Explorer);
    assert!(r.to_explorer);
    app.focused = Focused::Repeat;
    press(&mut app, Input::Tab);
    assert_eq!(app.focused, Focused::Explorer);
}

#[test]
fn arrows_move_between_controls() {
    let mut app = playing_app();
    press(&mut app, Input::Right);
    assert_eq!(app.focused, Focused::Forward);
    press(&mut app, Input::Right);
    assert_eq!(app.focused, Focused::Repeat);
    press(&mut app, Input::Right);
    assert_eq!(app.focused, Focused::Repeat);
    press(&mut app, Input::Left);
    press(&mut app, Input::Left);
    assert_eq!(app.focused, Focused::Play);
    press(&mut app, Input::Left);
    assert_eq!(app.focused, Focused::Back);
    press(&mut app, Input::Up);
    assert_eq!(app.focused, Focused::Playbar);
    press(&mut app, Input::Up);
    assert_eq!(app.focused, Focused::Playbar);
    assert_eq!(press(&mut app, Input::Left).device, DeviceAction::Back2s);
    assert_eq!(press(&mut app, Input::Right).device, DeviceAction::Forward2s);
    press(&mut app, Input::Down);
    assert_eq!(app.focused, Focused::Play);
    press(&mut app, Input::Down);
    assert_eq!(app.focused, Focused::Play);
    app.focused = Focused::Nothing;
    press(&mut app, Input::Left);
    assert_eq!(app.focused, Focused::Back);
}

#[test]
fn playbar_needs_a_song() {
    let mut app = App::default();
    app.focused = Focused::Playbar;
    assert_eq!(press(&mut app, Input::Left).device, DeviceAction::Keep);
    assert_eq!(press(&mut app, Input::Right).device, DeviceAction::Keep);
}

#[test]
fn focus_lost_clears_focus() {
    let mut app = App::default();
    let r = press(&mut app, Input::FocusLost);
    assert_eq!(app.focused, Focused::Nothing);
    assert!(!r.to_explorer);
}

#[test]
fn enter_on_explorer_chooses_a_file() {
    let mut app = App::default();
    let r = app.handle_input(Input::Enter, Some(s("/music/a.mp3")), &vec![]);
    assert_eq!(app.audio_path, "/music/a.mp3");
    assert!(app.should_make_new_device);
    assert!(r.to_explorer);
    let mut app = App::default();
    app.handle_input(Input::Enter, None, &vec![]);
    assert!(!app.should_make_new_device);
}

#[test]
fn enter_on_controls() {
    let mut app = playing_app();
    app.focused = Focused::Back;
    app.playing = false;
    assert_eq!(press(&mut app, Input::Enter).device, DeviceAction::Restart);
    assert!(app.playing);
    app.focused = Focused::Play;
    assert_eq!(press(&mut app, Input::Enter).device, DeviceAction::Pause);
    assert!(!app.playing);
    app.focused = Focused::Forward;
    assert_eq!(press(&mut app, Input::Enter).device, DeviceAction::Keep);
    app.repeat_state = RepeatState::RepeatOne;
    assert_eq!(press(&mut app, Input::Enter).device, DeviceAction::Restart);
    app.repeat_state = RepeatState::RepeatAll;
    assert_eq!(press(&mut app, Input::Enter).device, DeviceAction::MarkFinished);
}

#[test]
fn repeat_button_cycles_and_builds_queue() {
    let mut app = playing_app();
    app.focused = Focused::Repeat;
    app.audio_path = s("c");
    let listing = vec![s(".."), s("a"), s("b"), s("c"), s("d")];
    app.handle_input(Input::Enter, None, &listing);
    assert_eq!(app.repeat_state, RepeatState::RepeatAll);
    assert_eq!(app.queue, vec![s("b"), s("c"), s("d"), s("a")]);
    assert_eq!(app.que_idx, 0);
    app.handle_input(Input::Enter, None, &listing);
    assert_eq!(app.repeat_state, RepeatState::RepeatOne);
    app.handle_input(Input::Enter, None, &listing);
    assert_eq!(app.repeat_state, RepeatState::Off);
}

#[test]
fn queue_without_current_is_the_listing_tail() {
    let listing = vec![s(".."), s("a"), s("b")];
    assert_eq!(build_queue(&listing, &s("z")), vec![s("a"), s("b")]);
    assert_eq!(build_queue(&vec![s("..")], &s("z")), Vec::<String>::new());
    assert_eq!(build_queue(&listing, &s("b")), vec![s("a"), s("b")]);
}

#[test]
fn loader_spawns_then_joins() {
    let mut app = App::default();
    assert_eq!(app.loader_step(false, false), LoaderAction::Wait);
    app.should_make_new_device = true;
    app.audio_path = s("/m/song.flac");
    assert_eq!(app.loader_step(false, true), LoaderAction::Spawn);
    assert!(app.loading);
    assert_eq!(app.status, Status::Parsing);
    assert_eq!(app.loader_step(false, true), LoaderAction::Wait);
    assert_eq!(app.loader_step(true, true), LoaderAction::Join);
    assert!(!app.loading);
    assert!(app.finish_loading(Ok(())));
    assert!(app.audio_created && app.playing && !app.should_make_new_device && app.has_device);
    assert_eq!(app.status, Status::Loaded { path: s("/m/song.flac") });
}

#[test]
fn failed_load_reports_the_error() {
    let mut app = App::default();
    app.should_make_new_device = true;
    app.audio_path = s("x.ogg");
    assert_eq!(app.loader_step(false, false), LoaderAction::Spawn);
    assert_eq!(app.status, Status::Blank);
    assert!(!app.finish_loading(Err(s("bad"))));
    assert!(!app.audio_created && !app.should_make_new_device);
    assert_eq!(app.status, Status::LoadFailed { path: s("x.ogg"), error: s("bad") });
}

#[test]
fn song_end_by_repeat_mode() {
    let mut app = playing_app();
    assert_eq!(app.playback_step(false), DeviceAction::Keep);
    assert_eq!(app.playback_step(true), DeviceAction::Pause);
    app.repeat_state = RepeatState::RepeatOne;
    assert_eq!(app.playback_step(true), DeviceAction::Restart);
    let mut idle = App::default();
    assert_eq!(idle.playback_step(true), DeviceAction::Keep);
}

#[test]
fn repeat_all_goes_round_the_queue() {
    let mut app = playing_app();
    app.repeat_state = RepeatState::RepeatAll;
    app.queue = vec![s("a"), s("b"), s("c")];
    app.que_idx = 0;
    let mut played = vec![];
    for _ in 0..5 {
        assert_eq!(app.playback_step(true), DeviceAction::Keep);
        assert!(app.should_make_new_device && !app.audio_created);
        played.push(app.audio_path.clone());
        app.finish_loading(Ok(()));
    }
    assert_eq!(played, vec![s("a"), s("b"), s("c"), s("a"), s("b")]);
    assert_eq!(app.que_idx, 2);
}

#[test]
fn safety_checks() {
    let mut app = App::default();
    app.focused = Focused::Back;
    assert_eq!(app.device_for(Input::Enter), DeviceAction::Restart);
    assert!(!app.input_is_safe(Input::Enter, &vec![]));
    assert!(app.input_is_safe(Input::Tab, &vec![]));
    app.has_device = true;
    assert!(app.input_is_safe(Input::Enter, &vec![]));
    app.focused = Focused::Repeat;
    assert!(!app.input_is_safe(Input::Enter, &vec![]));
    app.audio_path = s("a");
    assert!(!app.input_is_safe(Input::Enter, &vec![s(".."), s("a")]));
    assert!(app.input_is_safe(Input::Enter, &vec![s(".."), s("b"), s("a")]));
    let mut app = playing_app();
    app.repeat_state = RepeatState::RepeatAll;
    assert!(!app.playback_is_safe(true));
    assert!(app.playback_is_safe(false));
    app.queue = vec![s("a")];
    assert!(app.playback_is_safe(true));
    app.repeat_state = RepeatState::Off;
    app.has_device = false;
    assert!(!app.playback_is_safe(true));
}

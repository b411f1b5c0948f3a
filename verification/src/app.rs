use vstd::prelude::*;
use vstd::arithmetic::div_mod::{lemma_add_mod_noop_right, lemma_small_mod};

verus! {

/// The page on screen.
#[derive(Clone, Copy, Debug, PartialEq, Eq, Structural)]
pub enum Page {
    About,
    Player,
}

/// The part of the player page that has the keyboard focus.
#[derive(Clone, Copy, Debug, PartialEq, Eq, Structural)]
pub enum Focused {
    Explorer,
    Nothing,
    Back,
    Play,
    Forward,
    Repeat,
    Playbar,
}

/// What happens when a song ends: stop, go on through the folder, or play
/// the same song again.
#[derive(Clone, Copy, Debug, PartialEq, Eq, Structural)]
pub enum RepeatState {
    Off,
    RepeatAll,
    RepeatOne,
}

/// A terminal event, as the player tells them apart: the keys it reacts to
/// (pressed with exactly the modifiers named), the loss of focus, and
/// anything else.
#[derive(Clone, Copy, Debug, PartialEq, Eq, Structural)]
pub enum Input {
    /// Ctrl+Q.
    Quit,
    /// Ctrl+P.
    ShowPlayer,
    /// Ctrl+A.
    ShowAbout,
    Space,
    Tab,
    Up,
    Down,
    Left,
    Right,
    Enter,
    FocusLost,
    Other,
}

/// What the sound device is to do.
#[derive(Clone, Copy, Debug, PartialEq, Eq, Structural)]
pub enum DeviceAction {
    Keep,
    Pause,
    Resume,
    /// Move the song back to its start.
    Restart,
    Back2s,
    Forward2s,
    /// Mark the song as played to its end.
    MarkFinished,
}

/// The answer to an input: what the device does, and whether the file
/// explorer gets the event as well.
#[derive(Clone, Copy, Debug, PartialEq, Eq, Structural)]
pub struct Response {
    pub device: DeviceAction,
    pub to_explorer: bool,
}

/// What becomes of the thread that decodes the chosen file.
#[derive(Clone, Copy, Debug, PartialEq, Eq, Structural)]
pub enum LoaderAction {
    Wait,
    /// Start decoding `audio_path` in a new thread.
    Spawn,
    /// Collect the result of the finished thread.
    Join,
}

/// The line shown above the play bar.
#[derive(Debug, PartialEq)]
pub enum Status {
    Blank,
    /// The chosen file is being decoded.
    Parsing,
    /// Decoding `path` failed with `error`.
    LoadFailed { path: String, error: String },
    /// `path` was decoded and is playing.
    Loaded { path: String },
}

/// The status line as text values.
pub enum StatusView {
    Blank,
    Parsing,
    LoadFailed(Seq<char>, Seq<char>),
    Loaded(Seq<char>),
}

impl View for Status {
    type V = StatusView;

    open spec fn view(&self) -> StatusView {
        match self {
            Status::Blank => StatusView::Blank,
            Status::Parsing => StatusView::Parsing,
            Status::LoadFailed { path, error } => StatusView::LoadFailed(path@, error@),
            Status::Loaded { path } => StatusView::Loaded(path@),
        }
    }
}

/// The text of each path in a list.
pub open spec fn path_views(v: Seq<String>) -> Seq<Seq<char>> {
    v.map_values(|s: String| s@)
}

/// The state of the player as plain values.
pub struct AppModel {
    pub page: Page,
    pub exit: bool,
    pub focused: Focused,
    pub playing: bool,
    pub status: StatusView,
    pub loading: bool,
    pub audio_path: Seq<char>,
    pub should_make_new_device: bool,
    pub audio_created: bool,
    pub has_device: bool,
    pub repeat_state: RepeatState,
    pub queue: Seq<Seq<char>>,
    pub que_idx: nat,
}

/// The state of the player: what is on screen, what is focused, the file
/// chosen, whether a sound device plays it, and the queue that "repeat all"
/// walks through.
pub struct App {
    pub page: Page,
    pub exit: bool,
    pub focused: Focused,
    pub playing: bool,
    pub status: Status,
    /// A decoding thread has been started and not yet collected.
    pub loading: bool,
    pub audio_path: String,
    pub should_make_new_device: bool,
    pub audio_created: bool,
    /// A sound device has been made (it stays once made).
    pub has_device: bool,
    pub repeat_state: RepeatState,
    pub queue: Vec<String>,
    pub que_idx: usize,
}

impl View for App {
    type V = AppModel;

    open spec fn view(&self) -> AppModel {
        AppModel {
            page: self.page,
            exit: self.exit,
            focused: self.focused,
            playing: self.playing,
            status: self.status@,
            loading: self.loading,
            audio_path: self.audio_path@,
            should_make_new_device: self.should_make_new_device,
            audio_created: self.audio_created,
            has_device: self.has_device,
            repeat_state: self.repeat_state,
            queue: path_views(self.queue@),
            que_idx: self.que_idx as nat,
        }
    }
}

/// The text of an optional path.
pub open spec fn option_view(o: Option<String>) -> Option<Seq<char>> {
    match o {
        Some(s) => Some(s@),
        None => None,
    }
}

/// The outcome of decoding, with the error as text.
pub open spec fn outcome_view(o: Result<(), String>) -> Result<(), Seq<char>> {
    match o {
        Ok(_) => Ok(()),
        Err(e) => Err(e@),
    }
}

/// The index of the first entry of `s` equal to `x`.
pub open spec fn first_index_of(s: Seq<Seq<char>>, x: Seq<char>) -> Option<int>
    decreases s.len(),
{
    if s.len() == 0 {
        None
    } else if s[0] == x {
        Some(0)
    } else {
        match first_index_of(s.drop_first(), x) {
            Some(i) => Some(i + 1),
            None => None,
        }
    }
}

/// `s` rotated left by `k`: its entries from index `k` on, then the first `k`.
pub open spec fn rotate_left(s: Seq<Seq<char>>, k: int) -> Seq<Seq<char>> {
    s.subrange(k, s.len() as int) + s.subrange(0, k)
}

/// The queue that "repeat all" plays: the folder listing without its first
/// entry (the parent directory), rotated so that the entry before `current`
/// comes first and `current` second.
pub open spec fn repeat_queue(listing: Seq<Seq<char>>, current: Seq<char>) -> Seq<Seq<char>> {
    let tail = listing.drop_first();
    match first_index_of(tail, current) {
        Some(i) => rotate_left(tail, i - 1),
        None => tail,
    }
}

/// The queue can be built from `listing`: the listing is not empty, and
/// `current` is not its second entry.
pub open spec fn queue_source_ok(listing: Seq<Seq<char>>, current: Seq<char>) -> bool {
    &&& listing.len() >= 1
    &&& !(listing.len() >= 2 && listing[1] == current)
}

/// The focus after the left arrow.
pub open spec fn left_of(f: Focused) -> Focused {
    match f {
        Focused::Play => Focused::Back,
        Focused::Forward => Focused::Play,
        Focused::Repeat => Focused::Forward,
        Focused::Nothing => Focused::Back,
        _ => f,
    }
}

/// The focus after the right arrow.
pub open spec fn right_of(f: Focused) -> Focused {
    match f {
        Focused::Back => Focused::Play,
        Focused::Play => Focused::Forward,
        Focused::Forward => Focused::Repeat,
        Focused::Nothing => Focused::Forward,
        _ => f,
    }
}

impl AppModel {
    /// The queue index does not stand past the queue, and a song counts as
    /// loaded only while there is a sound device.
    pub open spec fn well_formed(self) -> bool {
        &&& self.que_idx <= self.queue.len()
        &&& self.audio_created ==> self.has_device
    }

    /// The focus after `input` on the player page.
    pub open spec fn focus_after(self, input: Input) -> Focused {
        match input {
            Input::Tab => if self.focused == Focused::Explorer {
                Focused::Nothing
            } else {
                Focused::Explorer
            },
            Input::Up => match self.focused {
                Focused::Playbar | Focused::Explorer => self.focused,
                _ => Focused::Playbar,
            },
            Input::Down => if self.focused == Focused::Playbar {
                Focused::Play
            } else {
                self.focused
            },
            Input::Left => left_of(self.focused),
            Input::Right => right_of(self.focused),
            Input::FocusLost => Focused::Nothing,
            _ => self.focused,
        }
    }

    /// The state after Enter on the player page.
    pub open spec fn after_enter(
        self,
        selected: Option<Seq<char>>,
        listing: Seq<Seq<char>>,
    ) -> AppModel {
        match self.focused {
            Focused::Explorer => match selected {
                Some(p) => AppModel { audio_path: p, should_make_new_device: true, ..self },
                None => self,
            },
            Focused::Play => if self.audio_created {
                AppModel { playing: !self.playing, ..self }
            } else {
                self
            },
            Focused::Back => AppModel { playing: true, ..self },
            Focused::Repeat => match self.repeat_state {
                RepeatState::Off => AppModel {
                    repeat_state: RepeatState::RepeatAll,
                    queue: repeat_queue(listing, self.audio_path),
                    que_idx: 0,
                    ..self
                },
                RepeatState::RepeatAll => AppModel { repeat_state: RepeatState::RepeatOne, ..self },
                RepeatState::RepeatOne => AppModel { repeat_state: RepeatState::Off, ..self },
            },
            _ => self,
        }
    }

    /// The state after `input` on the player page.
    pub open spec fn player_after(
        self,
        input: Input,
        selected: Option<Seq<char>>,
        listing: Seq<Seq<char>>,
    ) -> AppModel {
        match input {
            Input::Space => if self.audio_created {
                AppModel { playing: !self.playing, ..self }
            } else {
                self
            },
            Input::Enter => self.after_enter(selected, listing),
            Input::ShowAbout => AppModel { page: Page::About, ..self },
            _ => AppModel { focused: self.focus_after(input), ..self },
        }
    }

    /// The state after `input`. `selected` is the file the explorer points
    /// at, if it points at a file; `listing` is the explorer's folder
    /// listing.
    pub open spec fn after_input(
        self,
        input: Input,
        selected: Option<Seq<char>>,
        listing: Seq<Seq<char>>,
    ) -> AppModel {
        let s = if input == Input::Quit {
            AppModel { exit: true, ..self }
        } else {
            self
        };
        match s.page {
            Page::About => if input == Input::ShowPlayer {
                AppModel { page: Page::Player, ..s }
            } else {
                s
            },
            Page::Player => s.player_after(input, selected, listing),
        }
    }

    /// Pause a playing song, resume a paused one.
    pub open spec fn toggle_action(self) -> DeviceAction {
        if self.playing {
            DeviceAction::Pause
        } else {
            DeviceAction::Resume
        }
    }

    /// What the device does on `input`.
    pub open spec fn device_for_input(self, input: Input) -> DeviceAction {
        if self.page != Page::Player {
            DeviceAction::Keep
        } else {
            match input {
                Input::Space => if self.audio_created {
                    self.toggle_action()
                } else {
                    DeviceAction::Keep
                },
                Input::Left => if self.focused == Focused::Playbar && self.audio_created {
                    DeviceAction::Back2s
                } else {
                    DeviceAction::Keep
                },
                Input::Right => if self.focused == Focused::Playbar && self.audio_created {
                    DeviceAction::Forward2s
                } else {
                    DeviceAction::Keep
                },
                Input::Enter => match self.focused {
                    Focused::Play => if self.audio_created {
                        self.toggle_action()
                    } else {
                        DeviceAction::Keep
                    },
                    Focused::Back => DeviceAction::Restart,
                    Focused::Forward => match self.repeat_state {
                        RepeatState::Off => DeviceAction::Keep,
                        RepeatState::RepeatOne => DeviceAction::Restart,
                        RepeatState::RepeatAll => DeviceAction::MarkFinished,
                    },
                    _ => DeviceAction::Keep,
                },
                _ => DeviceAction::Keep,
            }
        }
    }

    /// The answer to `input`: the explorer gets every event on the player
    /// page that leaves the focus on it.
    pub open spec fn response_to(self, input: Input) -> Response {
        Response {
            device: self.device_for_input(input),
            to_explorer: self.page == Page::Player && (match input {
                Input::Space | Input::Enter | Input::ShowAbout => self.focused,
                _ => self.focus_after(input),
            }) == Focused::Explorer,
        }
    }

    /// `input` does not make the player fail: an action on the device needs
    /// a device, and Enter on the repeat button, while repeat is off, needs a
    /// listing from which the queue can be built.
    pub open spec fn input_ok(self, input: Input, listing: Seq<Seq<char>>) -> bool {
        &&& self.device_for_input(input) != DeviceAction::Keep ==> self.has_device
        &&& (self.page == Page::Player && input == Input::Enter && self.focused == Focused::Repeat
            && self.repeat_state == RepeatState::Off) ==> queue_source_ok(listing, self.audio_path)
    }

    /// What becomes of the decoding thread; `finished` tells whether a
    /// running one has finished.
    pub open spec fn loader_action(self, finished: bool) -> LoaderAction {
        if !self.should_make_new_device {
            LoaderAction::Wait
        } else if !self.loading {
            LoaderAction::Spawn
        } else if finished {
            LoaderAction::Join
        } else {
            LoaderAction::Wait
        }
    }

    /// The state after the loader step; `announce` shows the parsing status
    /// when a thread starts.
    pub open spec fn after_loader(self, finished: bool, announce: bool) -> AppModel {
        match self.loader_action(finished) {
            LoaderAction::Spawn => AppModel {
                loading: true,
                status: if announce {
                    StatusView::Parsing
                } else {
                    self.status
                },
                ..self
            },
            LoaderAction::Join => AppModel { loading: false, ..self },
            LoaderAction::Wait => self,
        }
    }

    /// The state once the decoding thread's result is in: `Ok` when the file
    /// was decoded, else the error's text.
    pub open spec fn after_load(self, outcome: Result<(), Seq<char>>) -> AppModel {
        match outcome {
            Ok(_) => AppModel {
                status: StatusView::Loaded(self.audio_path),
                audio_created: true,
                has_device: true,
                playing: true,
                should_make_new_device: false,
                ..self
            },
            Err(e) => AppModel {
                status: StatusView::LoadFailed(self.audio_path, e),
                should_make_new_device: false,
                ..self
            },
        }
    }

    /// The queue entry that "repeat all" plays next.
    pub open spec fn next_queue_index(self) -> nat {
        if self.que_idx == self.queue.len() {
            0
        } else {
            self.que_idx
        }
    }

    /// The end of the song `finished` is reached while a device plays.
    pub open spec fn song_ended(self, finished: bool) -> bool {
        self.audio_created && finished
    }

    /// What the device does once per frame; `finished` is the device's
    /// finished flag.
    pub open spec fn playback_action(self, finished: bool) -> DeviceAction {
        if self.song_ended(finished) {
            match self.repeat_state {
                RepeatState::Off => DeviceAction::Pause,
                RepeatState::RepeatOne => DeviceAction::Restart,
                RepeatState::RepeatAll => DeviceAction::Keep,
            }
        } else {
            DeviceAction::Keep
        }
    }

    /// The state after the playback step: under "repeat all", a finished
    /// song makes the next queue entry the file to load.
    pub open spec fn after_playback(self, finished: bool) -> AppModel {
        if self.song_ended(finished) && self.repeat_state == RepeatState::RepeatAll {
            AppModel {
                audio_path: self.queue[self.next_queue_index() as int],
                que_idx: self.next_queue_index() + 1,
                should_make_new_device: true,
                audio_created: false,
                ..self
            }
        } else {
            self
        }
    }

    /// The playback step does not fail: an action on the device needs a
    /// device, and under "repeat all" a finished song needs a non-empty queue
    /// and an index within it or at its end.
    pub open spec fn playback_ok(self, finished: bool) -> bool {
        &&& self.playback_action(finished) != DeviceAction::Keep ==> self.has_device
        &&& (self.song_ended(finished) && self.repeat_state == RepeatState::RepeatAll) ==> (
        self.queue.len() > 0 && self.que_idx <= self.queue.len())
    }
}

/// The first index, from `from` on, of an entry of `s` equal to `x`, given
/// that none before `from` is.
proof fn lemma_first_index_of(s: Seq<Seq<char>>, x: Seq<char>, m: int)
    requires
        0 <= m <= s.len(),
        forall|k: int| 0 <= k < m ==> s[k] != x,
    ensures
        m < s.len() && s[m] == x ==> first_index_of(s, x) == Some(m),
        m == s.len() ==> first_index_of(s, x) == None::<int>,
    decreases m,
{
    if m > 0 {
        lemma_first_index_of(s.drop_first(), x, m - 1);
    }
}

proof fn lemma_path_views_push(v: Seq<String>, s: String)
    ensures
        path_views(v.push(s)) == path_views(v).push(s@),
{
    assert(path_views(v.push(s)) =~= path_views(v).push(s@));
}

/// Builds the "repeat all" queue from the explorer's `listing`. Paths are
/// compared by their text, so the caller hands them in one normal form.
pub fn build_queue(listing: &Vec<String>, current: &String) -> (r: Vec<String>)
    requires
        queue_source_ok(path_views(listing@), current@),
    ensures
        path_views(r@) == repeat_queue(path_views(listing@), current@),
{
    let ghost lv = path_views(listing@);
    let ghost tail = lv.drop_first();
    let n = listing.len();
    let mut j: usize = 1;
    let mut found = false;
    while j < n && !found
        invariant
            1 <= j <= n,
            n == listing@.len(),
            lv == path_views(listing@),
            tail == lv.drop_first(),
            queue_source_ok(lv, current@),
            forall|k: int| 1 <= k < j ==> lv[k] != current@,
            found ==> j < n && lv[j as int] == current@,
        decreases n - j + (if found { 0int } else { 1int }),
    {
        if listing[j] == *current {
            found = true;
        } else {
            j += 1;
        }
    }
    proof {
        lemma_first_index_of(tail, current@, (j - 1) as int);
    }
    let mut r: Vec<String> = Vec::new();
    if !found {
        let mut k: usize = 1;
        while k < n
            invariant
                1 <= k <= n,
                n == listing@.len(),
                lv == path_views(listing@),
                path_views(r@) == lv.subrange(1, k as int),
            decreases n - k,
        {
            let entry = listing[k].clone();
            proof {
                lemma_path_views_push(r@, entry);
                assert(lv[k as int] == entry@);
            }
            r.push(entry);
            assert(path_views(r@) =~= lv.subrange(1, k + 1));
            k += 1;
        }
        assert(tail =~= lv.subrange(1, n as int));
    } else {
        // `current` stands at `j` in the listing, at `j - 1` in its tail: the
        // tail is rotated left by `j - 2`, so it starts at listing index `j - 1`.
        let start = j - 1;
        let mut k: usize = start;
        while k < n
            invariant
                2 <= j < n,
                start == j - 1,
                start <= k <= n,
                n == listing@.len(),
                lv == path_views(listing@),
                path_views(r@) == lv.subrange(start as int, k as int),
            decreases n - k,
        {
            let entry = listing[k].clone();
            proof {
                lemma_path_views_push(r@, entry);
                assert(lv[k as int] == entry@);
            }
            r.push(entry);
            assert(path_views(r@) =~= lv.subrange(start as int, k + 1));
            k += 1;
        }
        let mut k: usize = 1;
        while k < start
            invariant
                2 <= j < n,
                start == j - 1,
                1 <= k <= start,
                n == listing@.len(),
                lv == path_views(listing@),
                path_views(r@) == lv.subrange(start as int, n as int) + lv.subrange(1, k as int),
            decreases start - k,
        {
            let entry = listing[k].clone();
            proof {
                lemma_path_views_push(r@, entry);
                assert(lv[k as int] == entry@);
            }
            r.push(entry);
            assert(path_views(r@) =~= lv.subrange(start as int, n as int) + lv.subrange(
                1,
                k + 1,
            ));
            k += 1;
        }
        assert(rotate_left(tail, (j - 2) as int) =~= lv.subrange(start as int, n as int)
            + lv.subrange(1, start as int));
    }
    r
}

impl Default for App {
    /// The player page, with the explorer focused, nothing chosen, nothing
    /// playing and repeat off.
    fn default() -> (r: Self)
        ensures
            r@ == (AppModel {
                page: Page::Player,
                exit: false,
                focused: Focused::Explorer,
                playing: false,
                status: StatusView::Blank,
                loading: false,
                audio_path: Seq::empty(),
                should_make_new_device: false,
                audio_created: false,
                has_device: false,
                repeat_state: RepeatState::Off,
                queue: Seq::empty(),
                que_idx: 0,
            }),
    {
        let r = App {
            page: Page::Player,
            exit: false,
            focused: Focused::Explorer,
            playing: false,
            status: Status::Blank,
            loading: false,
            audio_path: String::new(),
            should_make_new_device: false,
            audio_created: false,
            has_device: false,
            repeat_state: RepeatState::Off,
            queue: Vec::new(),
            que_idx: 0,
        };
        assert(path_views(r.queue@) =~= Seq::<Seq<char>>::empty());
        r
    }
}

impl App {
    /// Reacts to one terminal event. `selected_file` is the path the file
    /// explorer points at when that entry is a file; `listing` is the
    /// explorer's folder listing, parent entry first.
    pub fn handle_input(
        &mut self,
        input: Input,
        selected_file: Option<String>,
        listing: &Vec<String>,
    ) -> (r: Response)
        requires
            old(self)@.input_ok(input, path_views(listing@)),
        ensures
            final(self)@ == old(self)@.after_input(
                input,
                option_view(selected_file),
                path_views(listing@),
            ),
            r == old(self)@.response_to(input),
    {
        if input == Input::Quit {
            self.exit = true;
        }
        match self.page {
            Page::About => {
                if input == Input::ShowPlayer {
                    self.page = Page::Player;
                }
                Response { device: DeviceAction::Keep, to_explorer: false }
            },
            Page::Player => {
                let mut device = DeviceAction::Keep;
                match input {
                    Input::Space => {
                        if self.audio_created {
                            if self.playing {
                                device = DeviceAction::Pause;
                                self.playing = false;
                            } else {
                                device = DeviceAction::Resume;
                                self.playing = true;
                            }
                        }
                    },
                    Input::Tab => {
                        if self.focused == Focused::Explorer {
                            self.focused = Focused::Nothing;
                        } else {
                            self.focused = Focused::Explorer;
                        }
                    },
                    Input::Up => match self.focused {
                        Focused::Playbar => {},
                        Focused::Explorer => {},
                        _ => self.focused = Focused::Playbar,
                    },
                    Input::Down => {
                        if self.focused == Focused::Playbar {
                            self.focused = Focused::Play;
                        }
                    },
                    Input::Left => match self.focused {
                        Focused::Play => self.focused = Focused::Back,
                        Focused::Forward => self.focused = Focused::Play,
                        Focused::Repeat => self.focused = Focused::Forward,
                        Focused::Nothing => self.focused = Focused::Back,
                        Focused::Playbar => {
                            if self.audio_created {
                                device = DeviceAction::Back2s;
                            }
                        },
                        _ => {},
                    },
                    Input::Right => match self.focused {
                        Focused::Back => self.focused = Focused::Play,
                        Focused::Play => self.focused = Focused::Forward,
                        Focused::Forward => self.focused = Focused::Repeat,
                        Focused::Nothing => self.focused = Focused::Forward,
                        Focused::Playbar => {
                            if self.audio_created {
                                device = DeviceAction::Forward2s;
                            }
                        },
                        _ => {},
                    },
                    Input::Enter => match self.focused {
                        Focused::Explorer => {
                            if let Some(path) = selected_file {
                                self.audio_path = path;
                                self.should_make_new_device = true;
                            }
                        },
                        Focused::Play => {
                            if self.audio_created {
                                if self.playing {
                                    device = DeviceAction::Pause;
                                    self.playing = false;
                                } else {
                                    device = DeviceAction::Resume;
                                    self.playing = true;
                                }
                            }
                        },
                        Focused::Back => {
                            device = DeviceAction::Restart;
                            self.playing = true;
                        },
                        Focused::Forward => match self.repeat_state {
                            RepeatState::Off => {},
                            RepeatState::RepeatOne => device = DeviceAction::Restart,
                            RepeatState::RepeatAll => device = DeviceAction::MarkFinished,
                        },
                        Focused::Repeat => match self.repeat_state {
                            RepeatState::Off => {
                                self.repeat_state = RepeatState::RepeatAll;
                                self.queue = build_queue(listing, &self.audio_path);
                                self.que_idx = 0;
                            },
                            RepeatState::RepeatAll => self.repeat_state = RepeatState::RepeatOne,
                            RepeatState::RepeatOne => self.repeat_state = RepeatState::Off,
                        },
                        _ => {},
                    },
                    Input::ShowAbout => self.page = Page::About,
                    Input::FocusLost => self.focused = Focused::Nothing,
                    _ => {},
                }
                Response { device, to_explorer: self.focused == Focused::Explorer }
            },
        }
    }

    /// What the device does on `input`.
    pub fn device_for(&self, input: Input) -> (r: DeviceAction)
        ensures
            r == self@.device_for_input(input),
    {
        if self.page != Page::Player {
            return DeviceAction::Keep;
        }
        let toggle = if self.playing {
            DeviceAction::Pause
        } else {
            DeviceAction::Resume
        };
        match input {
            Input::Space => if self.audio_created {
                toggle
            } else {
                DeviceAction::Keep
            },
            Input::Left => if self.focused == Focused::Playbar && self.audio_created {
                DeviceAction::Back2s
            } else {
                DeviceAction::Keep
            },
            Input::Right => if self.focused == Focused::Playbar && self.audio_created {
                DeviceAction::Forward2s
            } else {
                DeviceAction::Keep
            },
            Input::Enter => match self.focused {
                Focused::Play => if self.audio_created {
                    toggle
                } else {
                    DeviceAction::Keep
                },
                Focused::Back => DeviceAction::Restart,
                Focused::Forward => match self.repeat_state {
                    RepeatState::Off => DeviceAction::Keep,
                    RepeatState::RepeatOne => DeviceAction::Restart,
                    RepeatState::RepeatAll => DeviceAction::MarkFinished,
                },
                _ => DeviceAction::Keep,
            },
            _ => DeviceAction::Keep,
        }
    }

    /// Whether `handle_input` can take `input` with `listing` without
    /// failing.
    pub fn input_is_safe(&self, input: Input, listing: &Vec<String>) -> (r: bool)
        ensures
            r == self@.input_ok(input, path_views(listing@)),
    {
        if self.device_for(input) != DeviceAction::Keep && !self.has_device {
            return false;
        }
        if self.page == Page::Player && input == Input::Enter && self.focused == Focused::Repeat
            && self.repeat_state == RepeatState::Off {
            let n = listing.len();
            let ghost lv = path_views(listing@);
            if n == 0 {
                return false;
            }
            if n >= 2 {
                assert(lv[1] == listing@[1]@);
                if listing[1] == self.audio_path {
                    return false;
                }
            }
        }
        true
    }

    /// Whether `playback_step` can take `finished` without failing.
    pub fn playback_is_safe(&self, finished: bool) -> (r: bool)
        ensures
            r == self@.playback_ok(finished),
    {
        let ended = self.audio_created && finished;
        if ended && self.repeat_state != RepeatState::RepeatAll && !self.has_device {
            return false;
        }
        if ended && self.repeat_state == RepeatState::RepeatAll {
            return self.queue.len() > 0 && self.que_idx <= self.queue.len();
        }
        true
    }

    /// Decides about the decoding thread at the start of a frame. `finished`
    /// tells whether a running thread has finished; `announce_parsing` shows
    /// the parsing status when a thread starts.
    pub fn loader_step(&mut self, finished: bool, announce_parsing: bool) -> (r: LoaderAction)
        ensures
            r == old(self)@.loader_action(finished),
            final(self)@ == old(self)@.after_loader(finished, announce_parsing),
    {
        if !self.should_make_new_device {
            LoaderAction::Wait
        } else if !self.loading {
            self.loading = true;
            if announce_parsing {
                self.status = Status::Parsing;
            }
            LoaderAction::Spawn
        } else if finished {
            self.loading = false;
            LoaderAction::Join
        } else {
            LoaderAction::Wait
        }
    }

    /// Takes in the result of the decoding thread; returns whether a sound
    /// device is to be made for the decoded file and started.
    pub fn finish_loading(&mut self, outcome: Result<(), String>) -> (r: bool)
        ensures
            final(self)@ == old(self)@.after_load(outcome_view(outcome)),
            r == outcome is Ok,
    {
        let r = match outcome {
            Ok(()) => {
                self.status = Status::Loaded { path: self.audio_path.clone() };
                self.audio_created = true;
                self.has_device = true;
                self.playing = true;
                true
            },
            Err(error) => {
                self.status = Status::LoadFailed { path: self.audio_path.clone(), error };
                false
            },
        };
        self.should_make_new_device = false;
        r
    }

    /// Decides about the playing song once per frame; `finished` is the
    /// device's finished flag.
    pub fn playback_step(&mut self, finished: bool) -> (r: DeviceAction)
        requires
            old(self)@.playback_ok(finished),
        ensures
            r == old(self)@.playback_action(finished),
            final(self)@ == old(self)@.after_playback(finished),
    {
        if self.audio_created && finished {
            match self.repeat_state {
                RepeatState::Off => DeviceAction::Pause,
                RepeatState::RepeatAll => {
                    if self.que_idx == self.queue.len() {
                        self.que_idx = 0;
                        self.audio_path = self.queue[0].clone();
                    } else {
                        self.audio_path = self.queue[self.que_idx].clone();
                    }
                    self.que_idx += 1;
                    self.should_make_new_device = true;
                    self.audio_created = false;
                    DeviceAction::Keep
                },
                RepeatState::RepeatOne => DeviceAction::Restart,
            }
        } else {
            DeviceAction::Keep
        }
    }
}

/// Ctrl+Q makes the player quit, on every page and in every state.
pub proof fn law_quit_always_exits(
    m: AppModel,
    selected: Option<Seq<char>>,
    listing: Seq<Seq<char>>,
)
    ensures
        m.after_input(Input::Quit, selected, listing).exit,
{
}

/// On the about page every input but Ctrl+Q and Ctrl+P is ignored: the
/// state stays, the device keeps playing, the explorer gets nothing.
pub proof fn law_about_page_ignores_input(
    m: AppModel,
    input: Input,
    selected: Option<Seq<char>>,
    listing: Seq<Seq<char>>,
)
    requires
        m.page == Page::About,
        input != Input::Quit,
        input != Input::ShowPlayer,
    ensures
        m.after_input(input, selected, listing) == m,
        m.response_to(input) == (Response { device: DeviceAction::Keep, to_explorer: false }),
{
}

/// Tab opens and closes the explorer: from the explorer or from no focus,
/// two presses give back the same state.
pub proof fn law_tab_twice(m: AppModel, selected: Option<Seq<char>>, listing: Seq<Seq<char>>)
    requires
        m.page == Page::Player,
        m.focused == Focused::Explorer || m.focused == Focused::Nothing,
    ensures
        m.after_input(Input::Tab, selected, listing).after_input(Input::Tab, selected, listing)
            == m,
{
}

/// The left and right arrows undo each other on the control buttons, and
/// moving between buttons leaves the device alone.
pub proof fn law_arrows_undo_each_other(
    m: AppModel,
    selected: Option<Seq<char>>,
    listing: Seq<Seq<char>>,
)
    requires
        m.page == Page::Player,
    ensures
        (m.focused == Focused::Play || m.focused == Focused::Forward || m.focused
            == Focused::Repeat) ==> m.after_input(Input::Left, selected, listing).after_input(
            Input::Right,
            selected,
            listing,
        ) == m && m.response_to(Input::Left).device == DeviceAction::Keep,
        (m.focused == Focused::Back || m.focused == Focused::Play || m.focused
            == Focused::Forward) ==> m.after_input(Input::Right, selected, listing).after_input(
            Input::Left,
            selected,
            listing,
        ) == m && m.response_to(Input::Right).device == DeviceAction::Keep,
{
}

/// With a song loaded, Space pauses a playing song and resumes a paused
/// one; pressing it twice gives back the same state, with the two device
/// actions undoing each other.
pub proof fn law_space_twice(m: AppModel, selected: Option<Seq<char>>, listing: Seq<Seq<char>>)
    requires
        m.page == Page::Player,
        m.audio_created,
    ensures
        ({
            let once = m.after_input(Input::Space, selected, listing);
            &&& once.playing == !m.playing
            &&& m.response_to(Input::Space).device == (if m.playing {
                DeviceAction::Pause
            } else {
                DeviceAction::Resume
            })
            &&& once.response_to(Input::Space).device == (if m.playing {
                DeviceAction::Resume
            } else {
                DeviceAction::Pause
            })
            &&& once.after_input(Input::Space, selected, listing) == m
        }),
{
}

/// The repeat button cycles off, repeat all, repeat one and off again:
/// three presses give back the same repeat mode, and turning "repeat all"
/// on starts its queue from the front.
pub proof fn law_repeat_button_cycles(
    m: AppModel,
    selected: Option<Seq<char>>,
    listing: Seq<Seq<char>>,
)
    requires
        m.page == Page::Player,
        m.focused == Focused::Repeat,
        m.input_ok(Input::Enter, listing),
    ensures
        ({
            let one = m.after_input(Input::Enter, selected, listing);
            let two = one.after_input(Input::Enter, selected, listing);
            let three = two.after_input(Input::Enter, selected, listing);
            &&& three.repeat_state == m.repeat_state
            &&& m.repeat_state == RepeatState::Off ==> one.repeat_state == RepeatState::RepeatAll
                && one.que_idx == 0 && one.queue == repeat_queue(listing, m.audio_path)
            &&& m.repeat_state == RepeatState::RepeatAll ==> one.repeat_state
                == RepeatState::RepeatOne
            &&& m.repeat_state == RepeatState::RepeatOne ==> one.repeat_state == RepeatState::Off
        }),
{
}

/// The index that `first_index_of` gives points at an entry equal to `x`.
proof fn lemma_first_index_of_found(s: Seq<Seq<char>>, x: Seq<char>)
    ensures
        first_index_of(s, x) matches Some(i) ==> 0 <= i < s.len() && s[i] == x,
    decreases s.len(),
{
    if s.len() > 0 && s[0] != x {
        lemma_first_index_of_found(s.drop_first(), x);
    }
}

/// The "repeat all" queue holds the folder's entries but the first, each
/// once, in their order turned around so that the song playing stands
/// second.
pub proof fn law_repeat_queue_shape(listing: Seq<Seq<char>>, current: Seq<char>)
    requires
        queue_source_ok(listing, current),
    ensures
        repeat_queue(listing, current).len() == listing.len() - 1,
        repeat_queue(listing, current).to_multiset() == listing.drop_first().to_multiset(),
        listing.drop_first().contains(current) ==> repeat_queue(listing, current)[1] == current,
{
    let tail = listing.drop_first();
    lemma_first_index_of_found(tail, current);
    match first_index_of(tail, current) {
        Some(i) => {
            assert(i >= 1);
            let k = i - 1;
            let a = tail.subrange(0, k);
            let b = tail.subrange(k, tail.len() as int);
            assert(tail =~= a + b);
            vstd::seq_lib::lemma_multiset_commutative(a, b);
            vstd::seq_lib::lemma_multiset_commutative(b, a);
            assert(rotate_left(tail, k)[1] == tail[i]);
        },
        None => {
            if tail.contains(current) {
                let j = choose|j: int| 0 <= j < tail.len() && tail[j] == current;
                lemma_first_index_of(tail, current, 0);
                lemma_first_index_none(tail, current, j);
            }
        },
    }
}

/// `first_index_of` finds an entry equal to `x` when there is one.
proof fn lemma_first_index_none(s: Seq<Seq<char>>, x: Seq<char>, j: int)
    requires
        0 <= j < s.len(),
        s[j] == x,
    ensures
        first_index_of(s, x) is Some,
    decreases s.len(),
{
    if s[0] != x {
        lemma_first_index_none(s.drop_first(), x, j - 1);
    }
}

/// Under "repeat all", every finished song makes the next entry of the
/// queue the one to load, going round to the front after the last.
pub proof fn law_repeat_all_next_song(m: AppModel)
    requires
        m.well_formed(),
        m.queue.len() > 0,
        m.audio_created,
        m.repeat_state == RepeatState::RepeatAll,
    ensures
        m.after_playback(true).audio_path == m.queue[(m.que_idx % m.queue.len()) as int],
        m.after_playback(true).que_idx == m.que_idx % m.queue.len() + 1,
        m.after_playback(true).should_make_new_device,
        m.playback_action(true) == DeviceAction::Keep,
{
    if m.que_idx < m.queue.len() {
        lemma_small_mod(m.que_idx, m.queue.len());
    } else {
        vstd::arithmetic::div_mod::lemma_mod_self_0(m.queue.len() as int);
    }
}

/// The player after `k` songs played to their end under "repeat all", each
/// next one loaded without error.
pub open spec fn after_songs(m: AppModel, k: nat) -> AppModel
    decreases k,
{
    if k == 0 {
        m
    } else {
        after_songs(m.after_playback(true).after_load(Ok(())), (k - 1) as nat)
    }
}

/// Under "repeat all" the songs of the queue come one after the other,
/// round and round: the `k`-th song to end is followed by queue entry
/// `que_idx + k - 1`, counted round the queue.
pub proof fn law_repeat_all_goes_round(m: AppModel, k: nat)
    requires
        m.well_formed(),
        m.queue.len() > 0,
        m.audio_created,
        m.repeat_state == RepeatState::RepeatAll,
        k >= 1,
    ensures
        after_songs(m, k).audio_path == m.queue[(m.que_idx + k - 1) % m.queue.len() as int],
        after_songs(m, k).well_formed(),
        after_songs(m, k).audio_created,
        after_songs(m, k).queue == m.queue,
    decreases k,
{
    let len = m.queue.len();
    let m1 = m.after_playback(true).after_load(Ok(()));
    law_repeat_all_next_song(m);
    vstd::arithmetic::div_mod::lemma_mod_bound(m.que_idx as int, len as int);
    if k > 1 {
        law_repeat_all_goes_round(m1, (k - 1) as nat);
        // (q % len + 1 + k - 2) % len == (q + k - 1) % len
        lemma_add_mod_noop_right((k - 1) as int, m.que_idx as int, len as int);
        assert((m1.que_idx + (k - 1) - 1) == (k - 1) + (m.que_idx as int % len as int));
    }
}

/// Every step keeps the queue index within the queue, and keeps a song
/// counted as loaded only while there is a sound device; so the end of a
/// song asks the device to act only when there is one.
pub proof fn law_steps_keep_well_formed(
    m: AppModel,
    input: Input,
    selected: Option<Seq<char>>,
    listing: Seq<Seq<char>>,
    finished: bool,
    announce: bool,
    outcome: Result<(), Seq<char>>,
)
    requires
        m.well_formed(),
    ensures
        m.input_ok(input, listing) ==> m.after_input(input, selected, listing).well_formed(),
        m.after_loader(finished, announce).well_formed(),
        m.after_load(outcome).well_formed(),
        m.playback_ok(finished) ==> m.after_playback(finished).well_formed(),
        m.playback_action(finished) != DeviceAction::Keep ==> m.has_device,
{
    if m.input_ok(input, listing) && m.page == Page::Player && input == Input::Enter
        && m.focused == Focused::Repeat && m.repeat_state == RepeatState::Off {
        law_repeat_queue_shape(listing, m.audio_path);
    }
}

/// A decoding thread is started only when none is running, and a file
/// decoded without error plays at once.
pub proof fn law_one_loader_at_a_time(m: AppModel, finished: bool, announce: bool)
    ensures
        m.loading ==> m.loader_action(finished) != LoaderAction::Spawn,
        m.loader_action(finished) == LoaderAction::Spawn ==> m.after_loader(
            finished,
            announce,
        ).loading,
        m.after_load(Ok(())).audio_created && m.after_load(Ok(())).playing,
        !m.after_load(Ok(())).should_make_new_device,
{
}

/// With a song loaded, Enter on the play button does what Space does: it
/// pauses a playing song and resumes a paused one, and pressed twice it
/// gives back the same state. With no song loaded it does nothing.
pub proof fn law_play_button_toggles(
    m: AppModel,
    selected: Option<Seq<char>>,
    listing: Seq<Seq<char>>,
)
    requires
        m.page == Page::Player,
        m.focused == Focused::Play,
    ensures
        m.audio_created ==> ({
            let once = m.after_input(Input::Enter, selected, listing);
            &&& once.playing == !m.playing
            &&& once == m.after_input(Input::Space, selected, listing)
            &&& once == (AppModel { playing: !m.playing, ..m })
            &&& m.response_to(Input::Enter) == (Response {
                device: if m.playing {
                    DeviceAction::Pause
                } else {
                    DeviceAction::Resume
                },
                to_explorer: false,
            })
            &&& once.after_input(Input::Enter, selected, listing) == m
        }),
        !m.audio_created ==> m.after_input(Input::Enter, selected, listing) == m
            && m.response_to(Input::Enter) == (Response {
            device: DeviceAction::Keep,
            to_explorer: false,
        }),
{
}

/// Enter on the back button moves the song to its start and plays it;
/// nothing else changes.
pub proof fn law_back_button_restarts(
    m: AppModel,
    selected: Option<Seq<char>>,
    listing: Seq<Seq<char>>,
)
    requires
        m.page == Page::Player,
        m.focused == Focused::Back,
    ensures
        m.after_input(Input::Enter, selected, listing) == (AppModel { playing: true, ..m }),
        m.response_to(Input::Enter) == (Response {
            device: DeviceAction::Restart,
            to_explorer: false,
        }),
{
}

/// Enter on the forward button leaves the state alone and, by the repeat
/// mode, does nothing (off), starts the song again (repeat one) or marks it
/// played to its end so that the next one comes (repeat all).
pub proof fn law_forward_button(m: AppModel, selected: Option<Seq<char>>, listing: Seq<Seq<char>>)
    requires
        m.page == Page::Player,
        m.focused == Focused::Forward,
    ensures
        m.after_input(Input::Enter, selected, listing) == m,
        m.repeat_state == RepeatState::Off ==> m.response_to(Input::Enter).device
            == DeviceAction::Keep,
        m.repeat_state == RepeatState::RepeatOne ==> m.response_to(Input::Enter).device
            == DeviceAction::Restart,
        m.repeat_state == RepeatState::RepeatAll ==> m.response_to(Input::Enter).device
            == DeviceAction::MarkFinished,
{
}

/// On the play bar the left and right arrows move a loaded song two seconds
/// back and forward, and the focus stays on the bar.
pub proof fn law_playbar_seeks(m: AppModel, selected: Option<Seq<char>>, listing: Seq<Seq<char>>)
    requires
        m.page == Page::Player,
        m.focused == Focused::Playbar,
    ensures
        m.after_input(Input::Left, selected, listing) == m,
        m.after_input(Input::Right, selected, listing) == m,
        m.response_to(Input::Left).device == (if m.audio_created {
            DeviceAction::Back2s
        } else {
            DeviceAction::Keep
        }),
        m.response_to(Input::Right).device == (if m.audio_created {
            DeviceAction::Forward2s
        } else {
            DeviceAction::Keep
        }),
{
}

/// How the arrows move the focus on the player page: up from the buttons
/// (or from no focus) to the play bar, down from the play bar to the play
/// button, left and right along back, play, forward and repeat (from no
/// focus to back and forward); the explorer keeps the focus under the
/// arrows, and losing the terminal's focus leaves nothing focused.
pub proof fn law_focus_moves(m: AppModel, selected: Option<Seq<char>>, listing: Seq<Seq<char>>)
    requires
        m.page == Page::Player,
    ensures
        m.focused != Focused::Explorer ==> m.after_input(Input::Up, selected, listing).focused
            == Focused::Playbar,
        m.focused == Focused::Playbar ==> m.after_input(Input::Down, selected, listing).focused
            == Focused::Play,
        m.focused != Focused::Playbar ==> m.after_input(Input::Down, selected, listing) == m,
        m.focused == Focused::Explorer ==> m.after_input(Input::Up, selected, listing) == m
            && m.after_input(Input::Left, selected, listing) == m && m.after_input(
            Input::Right,
            selected,
            listing,
        ) == m,
        m.focused == Focused::Nothing ==> m.after_input(Input::Left, selected, listing).focused
            == Focused::Back && m.after_input(Input::Right, selected, listing).focused
            == Focused::Forward,
        m.focused == Focused::Back ==> m.after_input(Input::Left, selected, listing) == m,
        m.focused == Focused::Repeat ==> m.after_input(Input::Right, selected, listing) == m,
        m.focused == Focused::Play ==> m.after_input(Input::Left, selected, listing).focused
            == Focused::Back && m.after_input(Input::Right, selected, listing).focused
            == Focused::Forward,
        m.after_input(Input::FocusLost, selected, listing) == (AppModel {
            focused: Focused::Nothing,
            ..m
        }),
{
}

/// The explorer sees an input exactly when, on the player page, the focus
/// is on it once the player has handled the input: arrows, Enter and every
/// other key go to it while it is focused, Tab away from it and the loss of
/// the terminal's focus do not; on the about page it sees nothing.
pub proof fn law_explorer_gets_input(
    m: AppModel,
    input: Input,
    selected: Option<Seq<char>>,
    listing: Seq<Seq<char>>,
)
    ensures
        m.page == Page::Player ==> m.response_to(input).to_explorer == (m.after_input(
            input,
            selected,
            listing,
        ).focused == Focused::Explorer),
        m.page == Page::About ==> !m.response_to(input).to_explorer,
        m.page == Page::Player && m.focused == Focused::Explorer && input != Input::Tab && input
            != Input::FocusLost ==> m.response_to(input).to_explorer,
{
}

/// A failed load changes only the status line, which names the file and
/// the error, and the pending-load flag: a song that was playing goes on
/// playing and can still be paused.
pub proof fn law_failed_load_keeps_song(m: AppModel, e: Seq<char>)
    ensures
        m.after_load(Err(e)) == (AppModel {
            status: StatusView::LoadFailed(m.audio_path, e),
            should_make_new_device: false,
            ..m
        }),
        m.after_load(Err(e)).audio_created == m.audio_created,
        m.after_load(Err(e)).playing == m.playing,
        m.after_load(Err(e)).has_device == m.has_device,
{
}

/// A successful load shows the file as loaded, counts it as playing on a
/// device, and clears the pending-load flag; nothing else changes.
pub proof fn law_successful_load_plays(m: AppModel)
    ensures
        m.after_load(Ok(())) == (AppModel {
            status: StatusView::Loaded(m.audio_path),
            audio_created: true,
            has_device: true,
            playing: true,
            should_make_new_device: false,
            ..m
        }),
{
}

/// At the end of a song the device pauses (repeat off), starts it again
/// (repeat one) or keeps going while the next entry is loaded (repeat all);
/// before the end, or with no song loaded, nothing happens.
pub proof fn law_song_end(m: AppModel, finished: bool)
    ensures
        !(m.audio_created && finished) ==> m.playback_action(finished) == DeviceAction::Keep
            && m.after_playback(finished) == m,
        m.audio_created && finished && m.repeat_state == RepeatState::Off ==> m.playback_action(
            finished,
        ) == DeviceAction::Pause && m.after_playback(finished) == m,
        m.audio_created && finished && m.repeat_state == RepeatState::RepeatOne
            ==> m.playback_action(finished) == DeviceAction::Restart && m.after_playback(finished)
            == m,
        m.audio_created && finished && m.repeat_state == RepeatState::RepeatAll
            ==> m.playback_action(finished) == DeviceAction::Keep && !m.after_playback(
            finished,
        ).audio_created && m.after_playback(finished).should_make_new_device,
{
}

/// The loader starts a thread for a chosen file when none runs, collects a
/// running one once it has finished, and otherwise waits.
pub proof fn law_loader_steps(m: AppModel, finished: bool, announce: bool)
    ensures
        !m.should_make_new_device ==> m.loader_action(finished) == LoaderAction::Wait
            && m.after_loader(finished, announce) == m,
        m.should_make_new_device && !m.loading ==> m.loader_action(finished)
            == LoaderAction::Spawn && m.after_loader(finished, announce) == (AppModel {
            loading: true,
            status: if announce {
                StatusView::Parsing
            } else {
                m.status
            },
            ..m
        }),
        m.should_make_new_device && m.loading && finished ==> m.loader_action(finished)
            == LoaderAction::Join && m.after_loader(finished, announce) == (AppModel {
            loading: false,
            ..m
        }),
        m.should_make_new_device && m.loading && !finished ==> m.loader_action(finished)
            == LoaderAction::Wait && m.after_loader(finished, announce) == m,
{
}

/// Ctrl+A shows the about page and Ctrl+P the player page again, with
/// nothing else changed; Ctrl+Q only sets the exit flag; an input the
/// player does not know changes nothing.
pub proof fn law_pages_and_quit(m: AppModel, selected: Option<Seq<char>>, listing: Seq<Seq<char>>)
    ensures
        m.page == Page::Player ==> m.after_input(Input::ShowAbout, selected, listing) == (AppModel {
            page: Page::About,
            ..m
        }),
        m.page == Page::About ==> m.after_input(Input::ShowPlayer, selected, listing) == (AppModel {
            page: Page::Player,
            ..m
        }),
        m.after_input(Input::Quit, selected, listing) == (AppModel { exit: true, ..m }),
        m.after_input(Input::Other, selected, listing) == m,
        m.response_to(Input::Quit).device == DeviceAction::Keep,
        m.response_to(Input::Other).device == DeviceAction::Keep,
        m.page == Page::Player ==> m.after_input(Input::ShowPlayer, selected, listing) == m,
{
}

/// Enter on the explorer chooses the file it points at, if it points at
/// one: that file becomes the one to load, and nothing else changes; the
/// sound device is left alone.
pub proof fn law_enter_chooses_file(
    m: AppModel,
    selected: Option<Seq<char>>,
    listing: Seq<Seq<char>>,
)
    requires
        m.page == Page::Player,
        m.focused == Focused::Explorer,
    ensures
        selected matches Some(p) ==> m.after_input(Input::Enter, selected, listing) == (AppModel {
            audio_path: p,
            should_make_new_device: true,
            ..m
        }),
        selected is None ==> m.after_input(Input::Enter, selected, listing) == m,
        m.response_to(Input::Enter) == (Response { device: DeviceAction::Keep, to_explorer: true }),
{
}

/// With no song loaded, Space changes nothing and leaves the device alone.
pub proof fn law_space_without_song(
    m: AppModel,
    selected: Option<Seq<char>>,
    listing: Seq<Seq<char>>,
)
    requires
        m.page == Page::Player,
        !m.audio_created,
    ensures
        m.after_input(Input::Space, selected, listing) == m,
        m.response_to(Input::Space).device == DeviceAction::Keep,
{
}

} // verus!

//! The client as a whole: what each key asks for, and what each answer changes.
//!
//! No key changes the queue or the library. A press becomes a request, and the
//! screen follows when the player answers; only where this terminal is looking
//! moves at once.
//!
//! Times are readings of one monotonic clock, in nanoseconds.
use vstd::prelude::*;

use super::browser::{
    playable_ids,
    section_at,
    slot,
    spec_section_at,
    spec_slot,
    Browser,
    Showing,
};
use super::queue::Queue;
use crate::double::{clamp_unit, unit};
use crate::i18n::{self, Key, Language};
use crate::ipc::{Event, PlayMode, Request, Section, Snapshot, Stage, Transport};
use crate::player::protocol::RepeatMode;
use crate::player::state::{elapsed, since};
use crate::text;

verus! {

/// How often the clock on screen ticks, in milliseconds.
pub const FRAME_MS: u64 = 100;

/// The shortest time between two frames of the spectrum: a twenty-fourth of a
/// second.
pub const SPECTRUM_FRAME: u64 = 1_000_000_000 / 24;

/// How long a notice stays on screen: four seconds.
pub const MESSAGE_FOR: u64 = 4_000_000_000;

/// How many bands the spectrum has.
pub const BANDS: usize = 96;

/// How far an arrow key seeks, in milliseconds.
pub const SEEK_STEP: u64 = 5_000;

/// Whether the spectrum may be drawn again, at most twenty-four times a second.
pub fn spectrum_redraw_due(last: &mut u64, now: u64) -> (r: bool)
    ensures
        r == (elapsed(*old(last), now) >= SPECTRUM_FRAME),
        *final(last) == if r {
            now
        } else {
            *old(last)
        },
{
    if since(*last, now) < SPECTRUM_FRAME {
        return false;
    }
    *last = now;
    true
}

/// Which list the pane shows.
#[derive(Debug, Clone, Copy, PartialEq, Eq, Structural)]
pub enum Pane {
    Browser,
    Queue,
}

impl Default for Pane {
    fn default() -> (r: Self)
        ensures
            r == Pane::Browser,
    {
        Pane::Browser
    }
}

/// Something to tell the person at the keyboard.
#[derive(Debug)]
pub struct Notice {
    pub text: String,
    pub at: u64,
    /// Whether something is wrong, rather than done.
    pub bad: bool,
}

impl Notice {
    pub fn good(text: &str, now: u64) -> (r: Self)
        ensures
            told(Some(r), text@, false, now),
    {
        Notice { text: text.to_owned(), at: now, bad: false }
    }

    pub fn bad(text: &str, now: u64) -> (r: Self)
        ensures
            told(Some(r), text@, true, now),
    {
        Notice { text: text.to_owned(), at: now, bad: true }
    }
}

/// Whether a notice says `t`, at `now`.
pub open spec fn told(notice: Option<Notice>, t: Seq<char>, bad: bool, now: u64) -> bool {
    notice matches Some(n) && n.text@ == t && n.bad == bad && n.at == now
}

pub struct App {
    pub snap: Snapshot,
    pub stage: Stage,
    pub browser: Browser,
    pub queue: Queue,
    pub pane: Pane,
    /// The last thing worth saying, until it fades.
    pub message: Option<Notice>,
    pub refreshing_library: bool,
    /// Whether leaving takes the player along.
    pub quit_daemon: bool,
    /// The last frame of the spectrum: the bits of each level. Zero is silence.
    pub bars: Vec<u32>,
}

/// A frame of silence.
pub open spec fn silent(bars: Seq<u32>) -> bool {
    bars.len() == BANDS && forall|i: int| 0 <= i < bars.len() ==> bars[i] == 0
}

/// A frame of silence.
pub fn silence() -> (r: Vec<u32>)
    ensures
        silent(r@),
{
    let mut out: Vec<u32> = Vec::new();
    while out.len() < BANDS
        invariant
            out@.len() <= BANDS,
            forall|i: int| 0 <= i < out@.len() ==> out@[i] == 0,
        decreases BANDS - out@.len(),
    {
        out.push(0);
    }
    out
}

impl Default for App {
    fn default() -> (r: Self)
        ensures
            r.snap.is_blank(),
            r.stage is Connecting,
            r.browser.is_fresh(),
            r.queue.is_fresh(),
            r.pane == Pane::Browser,
            r.message is None,
            !r.refreshing_library,
            !r.quit_daemon,
            silent(r.bars@),
    {
        App {
            snap: Snapshot::default(),
            stage: Stage::Connecting,
            browser: Browser::default(),
            queue: Queue::default(),
            pane: Pane::Browser,
            message: None,
            refreshing_library: false,
            quit_daemon: false,
            bars: silence(),
        }
    }
}

/// A key.
#[derive(Debug, Clone, Copy, PartialEq, Eq, Structural)]
pub enum KeyCode {
    Char(char),
    Backspace,
    Enter,
    Left,
    Right,
    Up,
    Down,
    Home,
    PageUp,
    PageDown,
    Tab,
    BackTab,
    Esc,
    /// Any key that means nothing here.
    Other,
}

/// A press of a key.
#[derive(Debug, Clone, Copy, PartialEq, Eq, Structural)]
pub struct KeyEvent {
    pub code: KeyCode,
    pub control: bool,
}

/// What the volume on screen comes to less and plus one step, by the bits of the
/// two numbers. They may lie outside the range a volume has.
#[derive(Debug, Clone, Copy, PartialEq, Eq, Structural)]
pub struct Steps {
    pub down: u64,
    pub up: u64,
}

/// Whether `l1` is `l0` with one more request, of which `p` holds.
pub open spec fn sent_one(
    l0: Seq<Request>,
    l1: Seq<Request>,
    p: spec_fn(Request) -> bool,
) -> bool {
    l1.len() == l0.len() + 1 && l1.drop_last() == l0 && p(l1.last())
}

/// Whether a request asks for the list the browser is meant to show.
pub open spec fn asks_to_browse(b: Browser, r: Request) -> bool {
    &&& r matches Request::Browse { view, query, sort, reverse, offset, limit }
    &&& view == b.view
    &&& query@ == b.spec_filter()
    &&& (sort, reverse) == b.spec_sort()
    &&& offset == 0
    &&& limit == 0
}

/// Whether one request was sent, for the list the browser is meant to show.
pub open spec fn browsed(l0: Seq<Request>, l1: Seq<Request>, b: Browser) -> bool {
    sent_one(l0, l1, |r: Request| asks_to_browse(b, r))
}

/// Whether one request was sent, for a search.
pub open spec fn searched_for(
    l0: Seq<Request>,
    l1: Seq<Request>,
    b: Browser,
    q: Seq<char>,
    at: int,
) -> bool {
    sent_one(
        l0,
        l1,
        |r: Request|
            r matches Request::Search { query, filter, offset } && query@ == q && filter == b.kinds
                && offset == at,
    )
}

/// Off, then all, then one.
pub open spec fn repeat_after(mode: RepeatMode) -> RepeatMode {
    match mode {
        RepeatMode::Off => RepeatMode::All,
        RepeatMode::All => RepeatMode::One,
        RepeatMode::One => RepeatMode::Off,
    }
}

/// Off, then all, then one.
pub fn next_repeat(mode: RepeatMode) -> (r: RepeatMode)
    ensures
        r == repeat_after(mode),
{
    match mode {
        RepeatMode::Off => RepeatMode::All,
        RepeatMode::All => RepeatMode::One,
        RepeatMode::One => RepeatMode::Off,
    }
}

/// Three presses go through every repeat mode and back.
pub proof fn repeat_goes_round(mode: RepeatMode)
    ensures
        repeat_after(repeat_after(repeat_after(mode))) == mode,
        repeat_after(mode) != mode,
{
}

/// The position `delta` away, kept at or above the beginning.
pub open spec fn sought(position: int, delta: int) -> int {
    if position + delta < 0 {
        0
    } else if position + delta > u64::MAX {
        u64::MAX as int
    } else {
        position + delta
    }
}

impl App {
    /// This, looking at a section of the library from the top.
    pub open spec fn at_library(self, view: Section) -> App {
        App {
            browser: Browser { view, showing: Showing::Library, cursor: 0, offset: 0, ..self.browser },
            ..self
        }
    }

    /// Whether `self` is `o` looking at what the catalogue last answered.
    pub open spec fn at_catalog(self, o: App) -> bool {
        &&& self.browser.rows@ == o.browser.found@
        &&& self.browser.total == o.browser.found@.len()
        &&& self == App {
            browser: Browser {
                showing: Showing::Catalog { searching: false },
                rows: self.browser.rows,
                total: self.browser.total,
                cursor: 0,
                offset: 0,
                ..o.browser
            },
            ..o
        }
    }

    /// Whether `self` is `o` without what the catalogue answered.
    pub open spec fn forgot(self, o: App) -> bool {
        &&& self.browser.found@.len() == 0
        &&& self.browser.rows@.len() == 0
        &&& self == App {
            browser: Browser {
                found: self.browser.found,
                rows: self.browser.rows,
                total: 0,
                ..o.browser
            },
            ..o
        }
    }

    /// Whether asking the catalogue what is typed turns `o` into `self`.
    pub open spec fn asked(self, o: App, l0: Seq<Request>, l1: Seq<Request>) -> bool {
        let query = text::trimmed(o.browser.spec_filter());
        if query.len() == 0 {
            self.forgot(o) && l1 == l0
        } else {
            &&& self.browser.found@.len() == 0
            &&& self.browser.rows@.len() == 0
            &&& self == App {
                browser: Browser {
                    showing: Showing::Catalog { searching: true },
                    found: self.browser.found,
                    rows: self.browser.rows,
                    total: 0,
                    cursor: 0,
                    offset: 0,
                    more: false,
                    paging: false,
                    ..o.browser
                },
                ..o
            }
            &&& searched_for(l0, l1, o.browser, query, 0)
        }
    }

    /// Whether asking for more results, where they are wanted, turns `o` into
    /// `self`.
    pub open spec fn paged(self, o: App, l0: Seq<Request>, l1: Seq<Request>) -> bool {
        let query = text::trimmed(o.browser.spec_filter());
        if o.pane == Pane::Browser && o.browser.spec_wants_more() && query.len() > 0 {
            &&& self == App { browser: Browser { paging: true, ..o.browser }, ..o }
            &&& searched_for(l0, l1, o.browser, query, o.browser.rows@.len() as int)
        } else {
            self == o && l1 == l0
        }
    }

    /// This with the cursor of the pane on screen moved.
    pub open spec fn cursor_moved(self, delta: int) -> App {
        match self.pane {
            Pane::Browser => App { browser: self.browser.moved(delta), ..self },
            Pane::Queue => App { queue: self.queue.moved(delta), ..self },
        }
    }

    /// Where on the tab strip this is: the sections, the catalogue, the queue.
    pub open spec fn spec_place(self) -> int {
        if self.pane == Pane::Queue {
            5
        } else if self.browser.showing is Catalog {
            4
        } else {
            spec_slot(self.browser.view)
        }
    }

    /// Whether going to a place on the tab strip turns `o` into `self`.
    pub open spec fn went_to(
        self,
        o: App,
        place: int,
        l0: Seq<Request>,
        l1: Seq<Request>,
    ) -> bool {
        let here = App { pane: Pane::Browser, ..o };
        if place == 5 {
            self == App { pane: Pane::Queue, ..o } && l1 == l0
        } else if place == 4 {
            self.at_catalog(here) && l1 == l0
        } else {
            self == here.at_library(spec_section_at(place)) && browsed(l0, l1, self.browser)
        }
    }

    /// Whether pressing Enter on a row turns `o` into `self`.
    pub open spec fn activated(
        self,
        o: App,
        l0: Seq<Request>,
        l1: Seq<Request>,
        now: u64,
    ) -> bool {
        let b = o.browser;
        if o.pane == Pane::Queue {
            self == o && l1 == l0.push(Request::JumpTo { index: o.queue.cursor })
        } else if b.cursor >= b.rows@.len() {
            self == o && l1 == l0
        } else {
            let e = b.rows@[b.cursor as int];
            match e.spec_page_target() {
                Some((kind, id)) => {
                    &&& self.browser.rows@.len() == 0
                    &&& self.browser.showing matches Showing::Page { title, subtitle, loading }
                    &&& title@ == e.spec_title()
                    &&& subtitle@ == e.spec_subtitle()
                    &&& loading
                    &&& self == App {
                        browser: Browser {
                            showing: self.browser.showing,
                            rows: self.browser.rows,
                            from_catalog: b.showing is Catalog,
                            cursor: 0,
                            offset: 0,
                            ..b
                        },
                        ..o
                    }
                    &&& sent_one(
                        l0,
                        l1,
                        |r: Request|
                            r matches Request::Open { kind: k, id: i } && k == kind && i@ == id,
                    )
                },
                None => {
                    let ids = playable_ids(b.rows@);
                    if ids.len() == 0 {
                        &&& told(self.message, "Nothing here can be streamed"@, true, now)
                        &&& self == App { message: self.message, ..o }
                        &&& l1 == l0
                    } else {
                        &&& self == o
                        &&& sent_one(
                            l0,
                            l1,
                            |r: Request|
                                r matches Request::Play { ids: i, index, start } && text::views(i@)
                                    == ids && index == playable_ids(b.rows@.take(b.above())).len()
                                    && start == PlayMode::InOrder,
                        )
                    }
                },
            }
        }
    }

    /// Whether queueing the selected row turns `o` into `self`.
    pub open spec fn queued(
        self,
        o: App,
        next: bool,
        l0: Seq<Request>,
        l1: Seq<Request>,
        now: u64,
    ) -> bool {
        let b = o.browser;
        &&& self == App { message: self.message, ..o }
        &&& if b.cursor >= b.rows@.len() {
            self == o && l1 == l0
        } else {
            let e = b.rows@[b.cursor as int];
            match e.spec_catalog_id() {
                None => {
                    &&& l1 == l0
                    &&& told(
                        self.message,
                        if e is Song {
                            "Apple cannot stream this one"@
                        } else {
                            "Open it first — only songs can be queued"@
                        },
                        true,
                        now,
                    )
                },
                Some(id) => {
                    &&& sent_one(
                        l0,
                        l1,
                        |r: Request|
                            r matches Request::Enqueue { ids, next: n } && text::views(ids@)
                                == seq![id] && n == next,
                    )
                    &&& told(
                        self.message,
                        if next {
                            "Playing next: "@ + e.spec_title()
                        } else {
                            "Added to the queue: "@ + e.spec_title()
                        },
                        false,
                        now,
                    )
                },
            }
        }
    }

    /// Whether going back turns `o` into `self`: out of a page first, to where
    /// it was opened from, then out of a filter.
    pub open spec fn went_back(self, o: App, l0: Seq<Request>, l1: Seq<Request>) -> bool {
        if o.browser.showing is Page {
            if o.browser.from_catalog {
                &&& self.at_catalog(
                    App { browser: Browser { from_catalog: false, ..o.browser }, ..o },
                )
                &&& l1 == l0
            } else {
                self == o.at_library(o.browser.view) && browsed(l0, l1, self.browser)
            }
        } else if o.browser.spec_filter().len() > 0 {
            self.cleared_filter(o) && browsed(l0, l1, self.browser)
        } else {
            self == o && l1 == l0
        }
    }

    /// Whether `self` is `o` with the filter on screen cleared, looked at from
    /// the top.
    pub open spec fn cleared_filter(self, o: App) -> bool {
        let kept = self.browser.filters.get(o.browser.spec_filter_slot());
        &&& kept@.len() == 0
        &&& self == App {
            browser: Browser { cursor: 0, offset: 0, ..o.browser.with_filter(kept) },
            ..o
        }
    }

    /// Whether moving the selected row of the queue turns `o` into `self`.
    pub open spec fn reordered(
        self,
        o: App,
        delta: int,
        l0: Seq<Request>,
        l1: Seq<Request>,
    ) -> bool {
        match o.queue.spec_swap_target(delta) {
            Some(to) => {
                &&& self == App {
                    queue: Queue { cursor: to as usize, following: false, ..o.queue },
                    ..o
                }
                &&& l1 == l0.push(Request::MoveInQueue { from: o.queue.cursor, to: to as usize })
            },
            None => self == o && l1 == l0,
        }
    }

    /// Whether a key pressed while the filter is open turns `o` into `self`.
    pub open spec fn typed(self, o: App, code: KeyCode, l0: Seq<Request>, l1: Seq<Request>) -> bool {
        let b = o.browser;
        let kept = self.browser.filters.get(b.spec_filter_slot());
        match code {
            KeyCode::Esc => if b.showing is Catalog {
                // The question is withdrawn, and its answer with it.
                &&& kept@.len() == 0
                &&& self.forgot(
                    App { browser: Browser { typing: false, ..b.with_filter(kept) }, ..o },
                )
                &&& l1 == l0
            } else {
                &&& self.cleared_filter(App { browser: Browser { typing: false, ..b }, ..o })
                &&& browsed(l0, l1, self.browser)
            },
            KeyCode::Enter => {
                let closed = App { browser: Browser { typing: false, ..b }, ..o };
                if b.showing is Catalog {
                    self.asked(closed, l0, l1)
                } else {
                    self == closed && l1 == l0
                }
            },
            KeyCode::Char(_) | KeyCode::Backspace => {
                &&& kept@ == match code {
                    KeyCode::Char(c) => b.spec_filter().push(c),
                    _ => if b.spec_filter().len() > 0 {
                        b.spec_filter().drop_last()
                    } else {
                        b.spec_filter()
                    },
                }
                &&& if b.showing is Catalog {
                    self == App { browser: b.with_filter(kept), ..o } && l1 == l0
                } else {
                    &&& self == App {
                        browser: Browser { cursor: 0, offset: 0, ..b.with_filter(kept) },
                        ..o
                    }
                    &&& browsed(l0, l1, self.browser)
                }
            },
            _ => self == o && l1 == l0,
        }
    }

    /// Whether `self` is `o` with the volume set, held between nothing and all.
    /// It is adopted at once: nothing ever reports it back.
    pub open spec fn set_volume(
        self,
        o: App,
        bits: u64,
        l0: Seq<Request>,
        l1: Seq<Request>,
    ) -> bool {
        let volume = unit(bits);
        &&& self == App { snap: Snapshot { volume, ..o.snap }, ..o }
        &&& l1 == l0.push(Request::Transport(Transport::SetVolume { volume }))
    }

    /// Whether a press of `key` at `now` turns `o` into `self`, with what was
    /// sent. `keep` says whether the client goes on running.
    pub open spec fn pressed(
        self,
        o: App,
        key: KeyEvent,
        l0: Seq<Request>,
        l1: Seq<Request>,
        keep: bool,
        language: Language,
        steps: Steps,
        now: u64,
    ) -> bool {
        let code = key.code;
        let in_browser = o.pane == Pane::Browser;
        let in_queue = o.pane == Pane::Queue;
        let same = self == o;
        let press = |t: Transport| same && l1 == l0.push(Request::Transport(t));
        let idle = same && l1 == l0;
        if key.control && code == KeyCode::Char('c') {
            !keep && idle
        } else if o.stage is SignedOut && code == KeyCode::Enter {
            keep && same && l1 == l0.push(Request::SignIn)
        } else if o.browser.typing {
            keep && self.typed(o, code, l0, l1)
        } else if code == KeyCode::Char('q') {
            !keep && self == App { quit_daemon: true, ..o } && l1 == l0
        } else {
            &&& keep
            &&& match code {
                KeyCode::Char(' ') => press(Transport::PlayPause),
                KeyCode::Char('z') => press(Transport::Previous),
                KeyCode::Char('b') => press(Transport::Next),
                KeyCode::Left => press(
                    Transport::Seek {
                        position_ms: sought(o.snap.position_ms as int, -(SEEK_STEP as int)) as u64,
                    },
                ),
                KeyCode::Right => press(
                    Transport::Seek {
                        position_ms: sought(o.snap.position_ms as int, SEEK_STEP as int) as u64,
                    },
                ),
                KeyCode::Char('s') => press(Transport::SetShuffle { shuffle: !o.snap.shuffle }),
                KeyCode::Char('r') => press(
                    Transport::SetRepeat { mode: repeat_after(o.snap.repeat) },
                ),
                KeyCode::Char('R') => if o.stage is Ready {
                    &&& told(
                        self.message,
                        i18n::sentence(language, Key::RefreshingLibrary),
                        false,
                        now,
                    )
                    &&& self == App { refreshing_library: true, message: self.message, ..o }
                    &&& l1 == l0.push(Request::Refresh)
                } else {
                    idle
                },
                KeyCode::Char('-') | KeyCode::Char('_') => self.set_volume(o, steps.down, l0, l1),
                KeyCode::Char('=') | KeyCode::Char('+') => self.set_volume(o, steps.up, l0, l1),
                KeyCode::Tab => self.went_to(o, (o.spec_place() + 1) % 6, l0, l1),
                KeyCode::BackTab => self.went_to(o, (o.spec_place() + 5) % 6, l0, l1),
                KeyCode::Char('1') => self.went_to(o, 0, l0, l1),
                KeyCode::Char('2') => self.went_to(o, 1, l0, l1),
                KeyCode::Char('3') => self.went_to(o, 2, l0, l1),
                KeyCode::Char('4') => self.went_to(o, 3, l0, l1),
                KeyCode::Char('5') => {
                    // Straight into the box: this is only pressed to search.
                    let shown = App { browser: Browser { typing: false, ..self.browser }, ..self };
                    self.browser.typing && shown.went_to(o, 4, l0, l1)
                },
                KeyCode::Char('6') => self.went_to(o, 5, l0, l1),
                KeyCode::Char('/') => if in_browser {
                    self == App { browser: Browser { typing: true, ..o.browser }, ..o } && l1 == l0
                } else {
                    idle
                },
                KeyCode::Esc => self.went_back(o, l0, l1),
                KeyCode::Up => self == o.cursor_moved(-1) && l1 == l0,
                KeyCode::Down => self.paged(o.cursor_moved(1), l0, l1),
                KeyCode::PageUp => self == o.cursor_moved(-10) && l1 == l0,
                KeyCode::PageDown => self.paged(o.cursor_moved(10), l0, l1),
                KeyCode::Home => if in_queue {
                    self == App { queue: o.queue.followed(), ..o } && l1 == l0
                } else {
                    idle
                },
                KeyCode::Enter => self.activated(o, l0, l1, now),
                KeyCode::Char('t') => if o.browser.showing is Catalog {
                    let cycled = App {
                        browser: Browser { kinds: o.browser.kinds.spec_next(), ..o.browser },
                        ..o
                    };
                    if text::trimmed(o.browser.spec_filter()).len() > 0 {
                        self.asked(cycled, l0, l1)
                    } else {
                        self == cycled && l1 == l0
                    }
                } else {
                    idle
                },
                KeyCode::Char('o') => if in_browser {
                    self.resorted(o, l0, l1, now)
                } else {
                    idle
                },
                KeyCode::Char('O') => if in_browser {
                    let (by, turned) = o.browser.spec_sort();
                    &&& self == App {
                        browser: Browser {
                            sorts: o.browser.sorts.with(o.browser.view, (by, !turned)),
                            cursor: 0,
                            offset: 0,
                            ..o.browser
                        },
                        ..o
                    }
                    &&& browsed(l0, l1, self.browser)
                } else {
                    idle
                },
                KeyCode::Char('j') => if in_browser {
                    self.queued(o, true, l0, l1, now)
                } else {
                    idle
                },
                KeyCode::Char('l') => if in_browser {
                    self.queued(o, false, l0, l1, now)
                } else {
                    idle
                },
                KeyCode::Char('i') | KeyCode::Char('k') => if in_queue {
                    self.reordered(
                        o,
                        if code == KeyCode::Char('i') {
                            -1
                        } else {
                            1
                        },
                        l0,
                        l1,
                    )
                } else {
                    &&& told(
                        self.message,
                        "Reordering lives in the queue — press 6"@,
                        true,
                        now,
                    )
                    &&& self == App { message: self.message, ..o }
                    &&& l1 == l0
                },
                KeyCode::Char('d') => if in_queue {
                    same && l1 == l0.push(Request::RemoveFromQueue { index: o.queue.cursor })
                } else {
                    idle
                },
                _ => idle,
            }
        }
    }

    /// Whether stepping to the next key to sort by turns `o` into `self`.
    pub open spec fn resorted(
        self,
        o: App,
        l0: Seq<Request>,
        l1: Seq<Request>,
        now: u64,
    ) -> bool {
        let keys = crate::sort::SortBy::spec_for_view(o.browser.view);
        let (by, turned) = o.browser.spec_sort();
        if keys.len() >= 2 {
            &&& self == App {
                browser: Browser {
                    sorts: o.browser.sorts.with(
                        o.browser.view,
                        (super::browser::next_key(keys, by), turned),
                    ),
                    cursor: 0,
                    offset: 0,
                    ..o.browser
                },
                ..o
            }
            &&& browsed(l0, l1, self.browser)
        } else {
            &&& told(self.message, "Nothing else to sort these by"@, true, now)
            &&& self == App { message: self.message, ..o }
            &&& l1 == l0
        }
    }

    /// Ask for what the browser is meant to show.
    pub fn browse(&self, link: &mut Vec<Request>)
        ensures
            browsed(old(link)@, final(link)@, self.browser),
    {
        let (sort, reverse) = self.browser.sort();
        let ghost l0 = link@;
        link.push(
            Request::Browse {
                view: self.browser.view,
                query: self.browser.filter().to_owned(),
                sort,
                reverse,
                offset: 0,
                limit: 0,
            },
        );
        assert(link@.drop_last() =~= l0);
    }

    /// Look at a section of the library.
    pub fn show_library(&mut self, view: Section, link: &mut Vec<Request>)
        ensures
            *final(self) == old(self).at_library(view),
            browsed(old(link)@, final(link)@, final(self).browser),
    {
        self.browser.view = view;
        self.browser.showing = Showing::Library;
        self.browser.reset();
        self.browse(link);
    }

    /// Look at the catalogue. Nothing is fetched, and what was answered before
    /// is still there.
    pub fn show_catalog(&mut self)
        ensures
            final(self).at_catalog(*old(self)),
    {
        self.browser.showing = Showing::Catalog { searching: false };
        self.browser.restore_found();
        self.browser.reset();
    }

    /// Ask the catalogue what is typed.
    pub fn search(&mut self, link: &mut Vec<Request>)
        ensures
            final(self).asked(*old(self), old(link)@, final(link)@),
    {
        let query = text::trim(self.browser.filter());
        if query.as_str().is_empty() {
            self.browser.forget_found();
            return;
        }
        self.browser.showing = Showing::Catalog { searching: true };
        self.browser.forget_found();
        self.browser.reset();
        self.browser.more = false;
        self.browser.paging = false;
        let ghost l0 = link@;
        link.push(Request::Search { query, filter: self.browser.kinds, offset: 0 });
        assert(link@.drop_last() =~= l0);
    }

    /// Ask for more results, if the cursor has come close enough to the end.
    pub fn maybe_page(&mut self, link: &mut Vec<Request>)
        ensures
            final(self).paged(*old(self), old(link)@, final(link)@),
    {
        if self.pane == Pane::Browser && self.browser.wants_more() {
            self.page(link);
        }
    }

    /// Ask for more results of the search on screen. Marked before the request
    /// goes, so that it is not asked for twice.
    fn page(&mut self, link: &mut Vec<Request>)
        ensures
            ({
                let o = *old(self);
                let query = text::trimmed(o.browser.spec_filter());
                if query.len() > 0 {
                    &&& *final(self) == (App {
                        browser: Browser { paging: true, ..o.browser },
                        ..o
                    })
                    &&& searched_for(
                        old(link)@,
                        final(link)@,
                        o.browser,
                        query,
                        o.browser.rows@.len() as int,
                    )
                } else {
                    *final(self) == o && final(link)@ == old(link)@
                }
            }),
    {
        let query = text::trim(self.browser.filter());
        if query.as_str().is_empty() {
            return;
        }
        self.browser.paging = true;
        let ghost l0 = link@;
        link.push(
            Request::Search { query, filter: self.browser.kinds, offset: self.browser.rows.len() },
        );
        assert(link@.drop_last() =~= l0);
    }

    /// Move the cursor of the pane on screen.
    pub fn pane_cursor(&mut self, delta: isize)
        ensures
            *final(self) == old(self).cursor_moved(delta as int),
    {
        match self.pane {
            Pane::Browser => self.browser.move_cursor(delta),
            Pane::Queue => self.queue.move_cursor(delta),
        }
    }

    fn place(&self) -> (r: usize)
        ensures
            r == self.spec_place(),
            r < 6,
    {
        if self.pane == Pane::Queue {
            5
        } else if self.browser.showing.is_catalog() {
            4
        } else {
            slot(self.browser.view)
        }
    }

    /// Go to a place on the tab strip.
    pub fn go_to(&mut self, place: usize, link: &mut Vec<Request>)
        requires
            place < 6,
        ensures
            final(self).went_to(*old(self), place as int, old(link)@, final(link)@),
    {
        self.pane = Pane::Browser;
        if place == 5 {
            self.pane = Pane::Queue;
        } else if place == 4 {
            self.show_catalog();
        } else {
            self.show_library(section_at(place), link);
        }
    }

    /// Go one place on.
    pub fn next_tab(&mut self, link: &mut Vec<Request>)
        ensures
            final(self).went_to(
                *old(self),
                (old(self).spec_place() + 1) % 6,
                old(link)@,
                final(link)@,
            ),
    {
        let to: usize = (self.place() + 1) % 6;
        self.go_to(to, link);
    }

    /// Go one place back.
    pub fn prev_tab(&mut self, link: &mut Vec<Request>)
        ensures
            final(self).went_to(
                *old(self),
                (old(self).spec_place() + 5) % 6,
                old(link)@,
                final(link)@,
            ),
    {
        let to: usize = (self.place() + 5) % 6;
        self.go_to(to, link);
    }

    /// Play the selected row, or open the page it leads to.
    pub fn activate(&mut self, link: &mut Vec<Request>, now: u64)
        ensures
            final(self).activated(*old(self), old(link)@, final(link)@, now),
    {
        let ghost l0 = link@;
        if self.pane == Pane::Queue {
            link.push(Request::JumpTo { index: self.queue.cursor });
            return;
        }
        let came_from_catalog = self.browser.showing.is_catalog();
        let entry = match self.browser.selected() {
            Some(e) => e,
            None => return,
        };
        if let Some((kind, id)) = entry.page_target() {
            let title = entry.title().to_owned();
            let subtitle = entry.subtitle();
            self.browser.showing = Showing::Page { title, subtitle, loading: true };
            self.browser.from_catalog = came_from_catalog;
            self.browser.rows = Vec::new();
            self.browser.reset();
            link.push(Request::Open { kind, id });
            assert(link@.drop_last() =~= l0);
            return;
        }
        let (ids, index) = self.browser.queue_from_here();
        if ids.is_empty() {
            assert(playable_ids(self.browser.rows@) =~= Seq::<Seq<char>>::empty());
            self.message = Some(Notice::bad("Nothing here can be streamed", now));
            return;
        }
        assert(text::views(ids@).len() > 0);
        link.push(Request::Play { ids, index, start: PlayMode::InOrder });
        assert(link@.drop_last() =~= l0);
    }

    /// Put the selected song in the queue, right behind the current one or at
    /// the end.
    pub fn enqueue(&mut self, link: &mut Vec<Request>, next: bool, now: u64)
        ensures
            final(self).queued(*old(self), next, old(link)@, final(link)@, now),
    {
        let entry = match self.browser.selected() {
            Some(e) => e,
            None => return,
        };
        let id = match entry.catalog_id() {
            Some(id) => id.to_owned(),
            None => {
                let why = if entry.opens_a_page() {
                    "Open it first — only songs can be queued"
                } else {
                    "Apple cannot stream this one"
                };
                self.message = Some(Notice::bad(why, now));
                return;
            },
        };
        let mut done = if next { "Playing next: " } else { "Added to the queue: " }.to_owned();
        done.append(entry.title());
        let ghost l0 = link@;
        let ghost sent = id;
        let mut ids: Vec<String> = Vec::new();
        ids.push(id);
        assert(text::views(ids@) =~= seq![sent@]);
        link.push(Request::Enqueue { ids, next });
        assert(link@.drop_last() =~= l0);
        self.message = Some(Notice::good(done.as_str(), now));
    }

    /// Out of a page first, then out of a filter.
    pub fn back(&mut self, link: &mut Vec<Request>)
        ensures
            final(self).went_back(*old(self), old(link)@, final(link)@),
    {
        if matches!(self.browser.showing, Showing::Page { .. }) {
            if self.browser.from_catalog {
                self.browser.from_catalog = false;
                self.show_catalog();
                return;
            }
            let view = self.browser.view;
            self.show_library(view, link);
            return;
        }
        if !self.browser.filter().is_empty() {
            *self.browser.filter_mut() = String::new();
            self.browser.reset();
            self.browse(link);
        }
    }

    /// Whether `self` is `o` without anything of the account.
    pub open spec fn signed_out_of(self, o: App) -> bool {
        &&& self.snap.is_blank()
        &&& self.snap.volume == o.snap.volume
        &&& self.browser.is_fresh()
        &&& self.browser.view == o.browser.view
        &&& self.browser.kinds == o.browser.kinds
        &&& self.browser.sorts == o.browser.sorts
        &&& self.queue.is_fresh()
        &&& self.pane == Pane::Browser
        &&& self.message is None
        &&& !self.refreshing_library
        &&& silent(self.bars@)
        &&& self.quit_daemon == o.quit_daemon
    }

    /// Forget everything of the account. The loudness and what was chosen on
    /// screen stay.
    pub fn clear_account_state(&mut self)
        ensures
            final(self).signed_out_of(*old(self)),
            final(self).stage == old(self).stage,
    {
        self.snap = Snapshot::blank(self.snap.volume);
        self.browser.clear_account_state();
        self.queue = Queue::default();
        self.pane = Pane::Browser;
        self.message = None;
        self.refreshing_library = false;
        self.bars = silence();
    }

    /// Whether results of a search turn `o` into `self`. They are kept whatever
    /// is on screen, and shown only where the catalogue is.
    pub open spec fn found_out(
        self,
        o: App,
        query: String,
        entries: Vec<crate::entry::Entry>,
        offset: usize,
        more: bool,
    ) -> bool {
        if query@ != text::trimmed(o.browser.filters.catalog@) {
            // The answer to a question that was withdrawn.
            self == o
        } else {
            let b = Browser { more, paging: false, ..o.browser };
            let shown = o.browser.showing is Catalog;
            if offset == 0 {
                if shown {
                    &&& self.browser.rows@ == entries@
                    &&& self == App {
                        browser: Browser {
                            found: entries,
                            rows: self.browser.rows,
                            total: entries@.len() as usize,
                            showing: Showing::Catalog { searching: false },
                            cursor: 0,
                            offset: 0,
                            ..b
                        },
                        ..o
                    }
                } else {
                    self == App { browser: Browser { found: entries, ..b }, ..o }
                }
            } else {
                // A page goes under what is there, and the cursor stays.
                &&& self.browser.found@ == o.browser.found@ + entries@
                &&& if shown {
                    &&& self.browser.rows@ == self.browser.found@
                    &&& self == App {
                        browser: Browser {
                            found: self.browser.found,
                            rows: self.browser.rows,
                            total: self.browser.found@.len() as usize,
                            ..b
                        },
                        ..o
                    }
                } else {
                    self == App { browser: Browser { found: self.browser.found, ..b }, ..o }
                }
            }
        }
    }

    /// Whether an answer of the player, heard at `now`, turns `o` into `self`.
    pub open spec fn heard(
        self,
        o: App,
        event: Event,
        l0: Seq<Request>,
        l1: Seq<Request>,
        now: u64,
    ) -> bool {
        match event {
            Event::Snapshot(snap) => {
                &&& l1 == l0
                &&& self == App { snap, bars: self.bars, ..o }
                &&& if snap.playing {
                    self.bars == o.bars
                } else {
                    silent(self.bars@)
                }
            },
            Event::Queue { items, position } => {
                &&& l1 == l0
                &&& self == App { queue: self.queue, ..o }
                &&& self.queue == Queue {
                    items,
                    position,
                    cursor: super::queue::within(
                        if o.queue.following {
                            position as int
                        } else {
                            o.queue.cursor as int
                        },
                        items@.len() as int,
                    ) as usize,
                    ..o.queue
                }
            },
            Event::Stage(stage) => {
                &&& l1 == l0
                &&& self.stage == stage
                &&& if stage is SignedOut {
                    self.signed_out_of(o)
                } else {
                    self == App { stage, ..o }
                }
            },
            // A late answer of the library must not overwrite what the
            // catalogue answered.
            Event::Rows { entries, total } => {
                &&& l1 == l0
                &&& self == if o.browser.showing is Catalog {
                    o
                } else {
                    App { browser: o.browser.with_rows(entries, total), ..o }
                }
            },
            Event::Results { query, entries, offset, more } => {
                l1 == l0 && self.found_out(o, query, entries, offset, more)
            },
            Event::Page { header, entries } => {
                &&& l1 == l0
                &&& self.browser.showing matches Showing::Page { title, subtitle, loading }
                &&& title@ == header.spec_title()
                &&& subtitle@ == header.spec_subtitle()
                &&& !loading
                &&& self == App {
                    browser: Browser {
                        showing: self.browser.showing,
                        rows: entries,
                        total: 0,
                        cursor: 0,
                        offset: 0,
                        ..o.browser
                    },
                    ..o
                }
            },
            Event::Discover(_) => self == o && l1 == l0,
            Event::LibraryChanged => {
                &&& self == App { refreshing_library: false, message: None, ..o }
                &&& if o.stage is Ready && o.browser.showing is Library {
                    browsed(l0, l1, o.browser)
                } else {
                    l1 == l0
                }
            },
            Event::LibraryRefreshing { refreshing } => {
                &&& l1 == l0
                &&& self == App { refreshing_library: refreshing, ..o }
            },
            Event::Error { detail } => {
                &&& l1 == l0
                &&& told(self.message, detail@, true, now)
                &&& self == App { message: self.message, ..o }
            },
        }
    }

    /// Take results of a search.
    fn take_results(
        &mut self,
        query: String,
        entries: Vec<crate::entry::Entry>,
        offset: usize,
        more: bool,
    )
        ensures
            final(self).found_out(*old(self), query, entries, offset, more),
    {
        if !text::same(query.as_str(), self.browser.catalog_query().as_str()) {
            return;
        }
        self.browser.more = more;
        self.browser.paging = false;
        let showing = self.browser.showing.is_catalog();
        if offset == 0 {
            self.browser.keep_found(entries, showing);
            if showing {
                self.browser.showing = Showing::Catalog { searching: false };
                self.browser.reset();
            }
        } else {
            self.browser.extend(entries, showing);
        }
    }

    /// Take an answer of the player.
    #[verifier::rlimit(60)]
    pub fn on_event(&mut self, event: Event, link: &mut Vec<Request>, now: u64)
        ensures
            final(self).heard(*old(self), event, old(link)@, final(link)@, now),
    {
        match event {
            Event::Snapshot(snap) => {
                if !snap.playing {
                    self.bars = silence();
                }
                self.snap = snap;
            },
            Event::Queue { items, position } => self.queue.replace(items, position),
            Event::Stage(stage) => {
                if matches!(stage, Stage::SignedOut) {
                    self.clear_account_state();
                }
                self.stage = stage;
            },
            Event::Rows { entries, total } => {
                if !self.browser.showing.is_catalog() {
                    self.browser.replace(entries, total);
                }
            },
            Event::Results { query, entries, offset, more } => {
                self.take_results(query, entries, offset, more);
            },
            Event::Page { header, entries } => {
                self.browser.showing = Showing::Page {
                    title: header.title().to_owned(),
                    subtitle: header.subtitle(),
                    loading: false,
                };
                self.browser.replace(entries, 0);
                self.browser.reset();
            },
            Event::Discover(_) => {},
            Event::LibraryChanged => {
                self.refreshing_library = false;
                self.message = None;
                if matches!(self.stage, Stage::Ready) && matches!(
                    self.browser.showing,
                    Showing::Library
                ) {
                    self.browse(link);
                }
            },
            Event::LibraryRefreshing { refreshing } => {
                self.refreshing_library = refreshing;
            },
            Event::Error { detail } => {
                self.message = Some(Notice::bad(detail.as_str(), now));
            },
        }
    }

    /// Whether a tick of the clock at `now` turns `o` into `self`, with `draw`
    /// saying whether anything has to be drawn again.
    pub open spec fn ticked(self, o: App, now: u64, draw: bool) -> bool {
        let faded = o.message matches Some(n) && elapsed(n.at, now) > MESSAGE_FOR;
        &&& draw == (faded || o.snap.playing)
        &&& self == App {
            message: if faded {
                None
            } else {
                o.message
            },
            snap: Snapshot { position_ms: o.ticked_position(), ..o.snap },
            ..o
        }
    }

    /// The position the clock shows one tick on: it runs while playing and
    /// stops at the end of the track.
    pub open spec fn ticked_position(self) -> u64 {
        let p = self.snap.position_ms;
        let next = if p + FRAME_MS <= u64::MAX {
            (p + FRAME_MS) as u64
        } else {
            u64::MAX
        };
        let end = if self.snap.duration_ms > p {
            self.snap.duration_ms
        } else {
            p
        };
        if !self.snap.playing {
            p
        } else if next < end {
            next
        } else {
            end
        }
    }

    /// One tick of the clock: a notice fades after its time, and the position
    /// runs on. Answers whether anything has to be drawn again.
    pub fn tick(&mut self, now: u64) -> (r: bool)
        ensures
            ({
                let o = *old(self);
                let faded = o.message matches Some(n) && elapsed(n.at, now) > MESSAGE_FOR;
                &&& r == (faded || o.snap.playing)
                &&& *final(self) == (App {
                    message: if faded {
                        None
                    } else {
                        o.message
                    },
                    snap: Snapshot { position_ms: o.ticked_position(), ..o.snap },
                    ..o
                })
            }),
            final(self).ticked(*old(self), now, r),
    {
        let faded = match &self.message {
            Some(n) => since(n.at, now) > MESSAGE_FOR,
            None => false,
        };
        if faded {
            self.message = None;
        }
        if self.snap.playing {
            let p: u64 = self.snap.position_ms;
            let next: u64 = p.saturating_add(FRAME_MS);
            let end: u64 = if self.snap.duration_ms > p {
                self.snap.duration_ms
            } else {
                p
            };
            self.snap.position_ms = if next < end {
                next
            } else {
                end
            };
        }
        faded || self.snap.playing
    }

    /// Take a frame of the spectrum. It counts only while something plays, for
    /// what is heard may come from elsewhere. Answers whether it is to be
    /// drawn.
    pub fn take_bars(&mut self, bars: Vec<u32>, last_draw: &mut u64, now: u64) -> (r: bool)
        ensures
            *final(self) == if old(self).snap.playing {
                App { bars, ..*old(self) }
            } else {
                *old(self)
            },
            r == (old(self).snap.playing && elapsed(*old(last_draw), now) >= SPECTRUM_FRAME),
            *final(last_draw) == if r {
                now
            } else {
                *old(last_draw)
            },
    {
        if !self.snap.playing {
            return false;
        }
        self.bars = bars;
        spectrum_redraw_due(last_draw, now)
    }

    /// What is said on screen, and whether something is wrong: the notice, else
    /// that the library is being refreshed.
    pub fn shown_message(&self, language: Language) -> (r: Option<(&str, bool)>)
        ensures
            match self.message {
                Some(n) => r matches Some((t, bad)) && t@ == n.text@ && bad == n.bad,
                None => if self.refreshing_library {
                    r matches Some((t, bad)) && t@ == i18n::sentence(
                        language,
                        Key::RefreshingLibrary,
                    ) && !bad
                } else {
                    r is None
                },
            },
    {
        match &self.message {
            Some(n) => Some((n.text.as_str(), n.bad)),
            None => if self.refreshing_library {
                Some((i18n::t(language, Key::RefreshingLibrary), false))
            } else {
                None
            },
        }
    }
}

impl Browser {
    /// This browser showing these rows, with the cursor kept among them.
    pub open spec fn with_rows(self, rows: Vec<crate::entry::Entry>, total: usize) -> Browser {
        Browser {
            rows,
            total,
            cursor: super::queue::within(self.cursor as int, rows@.len() as int) as usize,
            ..self
        }
    }
}

/// Move the selected row of the queue.
pub fn reorder(link: &mut Vec<Request>, app: &mut App, delta: isize)
    ensures
        final(app).reordered(*old(app), delta as int, old(link)@, final(link)@),
{
    if let Some(to) = app.queue.swap_target(delta) {
        link.push(Request::MoveInQueue { from: app.queue.cursor, to });
        app.queue.cursor_to(to);
    }
}

/// Seek by one step, from where the clock on screen has got to.
fn seek(link: &mut Vec<Request>, app: &App, forward: bool)
    ensures
        final(link)@ == old(link)@.push(
            Request::Transport(
                Transport::Seek {
                    position_ms: sought(
                        app.snap.position_ms as int,
                        if forward {
                            SEEK_STEP as int
                        } else {
                            -(SEEK_STEP as int)
                        },
                    ) as u64,
                },
            ),
        ),
{
    let at: u64 = app.snap.position_ms;
    let to: u64 = if forward {
        at.saturating_add(SEEK_STEP)
    } else {
        at.saturating_sub(SEEK_STEP)
    };
    link.push(Request::Transport(Transport::Seek { position_ms: to }));
}

/// Set the volume to what one step leads to. Adopted, not awaited: nothing ever
/// reports it back, and the next press steps from here.
fn volume(link: &mut Vec<Request>, app: &mut App, bits: u64)
    ensures
        final(app).set_volume(*old(app), bits, old(link)@, final(link)@),
{
    let volume: u64 = clamp_unit(bits);
    link.push(Request::Transport(Transport::SetVolume { volume }));
    app.snap.volume = volume;
}

/// A key pressed while the filter is open. Over the library every edit asks
/// again; over the catalogue only Enter does.
pub fn typing(code: KeyCode, link: &mut Vec<Request>, app: &mut App)
    ensures
        final(app).typed(*old(app), code, old(link)@, final(link)@),
{
    match code {
        KeyCode::Char(c) => {
            app.browser.filter_mut().push(c);
        },
        KeyCode::Backspace => {
            let shorter = text::drop_last_char(app.browser.filter());
            *app.browser.filter_mut() = shorter;
        },
        KeyCode::Esc => {
            *app.browser.filter_mut() = String::new();
            app.browser.typing = false;
            if app.browser.showing.is_catalog() {
                app.browser.forget_found();
            } else {
                app.browser.reset();
                app.browse(link);
            }
            return;
        },
        KeyCode::Enter => {
            app.browser.typing = false;
            if app.browser.showing.is_catalog() {
                app.search(link);
            }
            return;
        },
        _ => return,
    }
    if !app.browser.showing.is_catalog() {
        app.browser.reset();
        app.browse(link);
    }
}

/// Take a press of a key. Answers whether the client goes on running.
pub fn on_key(
    key: KeyEvent,
    link: &mut Vec<Request>,
    app: &mut App,
    language: Language,
    steps: Steps,
    now: u64,
) -> (r: bool)
    ensures
        final(app).pressed(*old(app), key, old(link)@, final(link)@, r, language, steps, now),
{
    // Before everything, the filter included: it works whatever is going on.
    if key.control && key.code == KeyCode::Char('c') {
        return false;
    }
    let code = key.code;
    if matches!(app.stage, Stage::SignedOut) && code == KeyCode::Enter {
        link.push(Request::SignIn);
        return true;
    }
    // While the filter is open a letter is a letter.
    if app.browser.typing {
        typing(code, link, app);
        return true;
    }
    match code {
        KeyCode::Char(c) => on_char(c, link, app, language, steps, now),
        KeyCode::Left => {
            seek(link, app, false);
            true
        },
        KeyCode::Right => {
            seek(link, app, true);
            true
        },
        KeyCode::Tab => {
            app.next_tab(link);
            true
        },
        KeyCode::BackTab => {
            app.prev_tab(link);
            true
        },
        KeyCode::Esc => {
            app.back(link);
            true
        },
        KeyCode::Up => {
            app.pane_cursor(-1);
            true
        },
        KeyCode::Down => {
            app.pane_cursor(1);
            app.maybe_page(link);
            true
        },
        KeyCode::PageUp => {
            app.pane_cursor(-10);
            true
        },
        KeyCode::PageDown => {
            app.pane_cursor(10);
            app.maybe_page(link);
            true
        },
        KeyCode::Home => {
            if app.pane == Pane::Queue {
                app.queue.follow();
            }
            true
        },
        KeyCode::Enter => {
            app.activate(link, now);
            true
        },
        KeyCode::Backspace | KeyCode::Other => true,
    }
}

/// A letter, with the filter closed.
fn on_char(
    c: char,
    link: &mut Vec<Request>,
    app: &mut App,
    language: Language,
    steps: Steps,
    now: u64,
) -> (r: bool)
    requires
        !old(app).browser.typing,
    ensures
        forall|control: bool|
            !(control && c == 'c') ==> #[trigger] final(app).pressed(
                *old(app),
                (KeyEvent { code: KeyCode::Char(c), control }),
                old(link)@,
                final(link)@,
                r,
                language,
                steps,
                now,
            ),
{
    let in_browser = app.pane == Pane::Browser;
    match c {
        ' ' => link.push(Request::Transport(Transport::PlayPause)),
        'z' => link.push(Request::Transport(Transport::Previous)),
        'b' => link.push(Request::Transport(Transport::Next)),
        's' => link.push(
            Request::Transport(Transport::SetShuffle { shuffle: !app.snap.shuffle }),
        ),
        'r' => link.push(
            Request::Transport(Transport::SetRepeat { mode: next_repeat(app.snap.repeat) }),
        ),
        'R' => if matches!(app.stage, Stage::Ready) {
            link.push(Request::Refresh);
            app.refreshing_library = true;
            app.message = Some(Notice::good(i18n::t(language, Key::RefreshingLibrary), now));
        },
        '-' | '_' => volume(link, app, steps.down),
        '=' | '+' => volume(link, app, steps.up),
        '1' => app.go_to(0, link),
        '2' => app.go_to(1, link),
        '3' => app.go_to(2, link),
        '4' => app.go_to(3, link),
        '5' => {
            app.go_to(4, link);
            app.browser.typing = true;
        },
        '6' => app.go_to(5, link),
        '/' => if in_browser {
            app.browser.typing = true;
        },
        't' => if app.browser.showing.is_catalog() {
            app.browser.cycle_kinds();
            if !text::is_blank(app.browser.filter()) {
                app.search(link);
            }
        },
        'o' => if in_browser {
            if app.browser.cycle_sort() {
                app.browser.reset();
                app.browse(link);
            } else {
                app.message = Some(Notice::bad("Nothing else to sort these by", now));
            }
        },
        'O' => if in_browser {
            app.browser.flip_sort();
            app.browser.reset();
            app.browse(link);
        },
        'j' => if in_browser {
            app.enqueue(link, true, now);
        },
        'l' => if in_browser {
            app.enqueue(link, false, now);
        },
        'i' => if in_browser {
            app.message = Some(Notice::bad("Reordering lives in the queue — press 6", now));
        } else {
            reorder(link, app, -1);
        },
        'k' => if in_browser {
            app.message = Some(Notice::bad("Reordering lives in the queue — press 6", now));
        } else {
            reorder(link, app, 1);
        },
        'd' => if !in_browser {
            link.push(Request::RemoveFromQueue { index: app.queue.cursor });
        },
        'q' => {
            app.quit_daemon = true;
            return false;
        },
        _ => {},
    }
    true
}

/// What a client says when it attaches: it subscribes first, and then asks for
/// everything, which is only told again when it changes.
pub fn greeting() -> (r: Vec<Request>)
    ensures
        r@ == seq![Request::Subscribe, Request::Stage, Request::Snapshot, Request::Queue],
{
    let r = vec![Request::Subscribe, Request::Stage, Request::Snapshot, Request::Queue];
    assert(r@ =~= seq![Request::Subscribe, Request::Stage, Request::Snapshot, Request::Queue]);
    r
}

/// What may happen while the client waits for the player to quit.
#[derive(Debug)]
pub enum Awaited {
    Heard(Event),
    /// The connection ended.
    Gone,
    /// The wait is over.
    Late,
}

/// How the wait for the player to quit goes on.
#[derive(Debug, PartialEq, Eq)]
pub enum Waiting {
    GoOn,
    /// The player went away, as it was asked to.
    Done,
    /// It did not, and this is why.
    Refused(String),
}

/// How the wait for the player to quit goes on. A refusal is an error; anything
/// else it says is not the answer.
pub fn wait_for_quit(what: Awaited) -> (r: Waiting)
    ensures
        match what {
            Awaited::Heard(Event::Error { detail }) => r matches Waiting::Refused(d) && d@
                == detail@,
            Awaited::Heard(_) => r is GoOn,
            Awaited::Gone => r is Done,
            Awaited::Late => r matches Waiting::Refused(d) && d@ == "the daemon did not answer"@,
        },
{
    match what {
        Awaited::Heard(Event::Error { detail }) => Waiting::Refused(detail),
        Awaited::Heard(_) => Waiting::GoOn,
        Awaited::Gone => Waiting::Done,
        Awaited::Late => Waiting::Refused("the daemon did not answer".to_owned()),
    }
}

/// The language a key stands for in the first-run picker.
pub fn pick_language(code: KeyCode) -> (r: Option<Language>)
    ensures
        r == match code {
            KeyCode::Char('1') | KeyCode::Char('e') | KeyCode::Char('E') => Some(
                Language::English,
            ),
            KeyCode::Char('2') | KeyCode::Char('s') | KeyCode::Char('S') => Some(
                Language::Spanish,
            ),
            _ => None,
        },
{
    match code {
        KeyCode::Char('1') | KeyCode::Char('e') | KeyCode::Char('E') => Some(Language::English),
        KeyCode::Char('2') | KeyCode::Char('s') | KeyCode::Char('S') => Some(Language::Spanish),
        _ => None,
    }
}

/// No key changes the queue or what is playing: that is the player's to say.
#[verifier::rlimit(60)]
pub proof fn no_key_edits_the_queue(
    before: App,
    after: App,
    key: KeyEvent,
    l0: Seq<Request>,
    l1: Seq<Request>,
    keep: bool,
    language: Language,
    steps: Steps,
    now: u64,
)
    requires
        after.pressed(before, key, l0, l1, keep, language, steps, now),
    ensures
        after.queue.items == before.queue.items,
        after.queue.position == before.queue.position,
        after.snap == (Snapshot { volume: after.snap.volume, ..before.snap }),
        after.stage == before.stage,
{
}

/// A press sends at most one request, behind those that were sent before.
pub proof fn a_key_sends_at_most_one_request(
    before: App,
    after: App,
    key: KeyEvent,
    l0: Seq<Request>,
    l1: Seq<Request>,
    keep: bool,
    language: Language,
    steps: Steps,
    now: u64,
)
    requires
        after.pressed(before, key, l0, l1, keep, language, steps, now),
    ensures
        l0.len() <= l1.len() <= l0.len() + 1,
        l1.take(l0.len() as int) == l0,
{
    assert(l1.take(l0.len() as int) =~= l0) by {
        if l1.len() == l0.len() + 1 {
            assert(l1.drop_last() =~= l1.take(l0.len() as int));
            assert(l1.drop_last() =~= l0);
        } else {
            assert(l1 =~= l0);
        }
    }
}

/// While the filter is open no letter quits, and none edits the queue: it is
/// text.
pub proof fn typing_takes_every_letter(
    before: App,
    after: App,
    c: char,
    l0: Seq<Request>,
    l1: Seq<Request>,
    keep: bool,
    language: Language,
    steps: Steps,
    now: u64,
)
    requires
        before.browser.typing,
        after.pressed(
            before,
            (KeyEvent { code: KeyCode::Char(c), control: false }),
            l0,
            l1,
            keep,
            language,
            steps,
            now,
        ),
    ensures
        keep,
        after.quit_daemon == before.quit_daemon,
        after.queue == before.queue,
        after.browser.filters.get(before.browser.spec_filter_slot())@
            == before.browser.spec_filter().push(c),
{
}

/// Going once round the tab strip comes back, in either direction.
pub proof fn the_tabs_go_round(place: int)
    requires
        0 <= place < 6,
    ensures
        ((place + 1) % 6 + 5) % 6 == place,
        0 <= (place + 1) % 6 < 6,
{
}

/// Going to a place on the tab strip arrives there.
pub proof fn going_to_a_place_arrives(
    before: App,
    after: App,
    place: int,
    l0: Seq<Request>,
    l1: Seq<Request>,
)
    requires
        0 <= place < 6,
        after.went_to(before, place, l0, l1),
    ensures
        after.spec_place() == place,
{
}

/// A key for the player tells it what the key stands for, and changes nothing
/// here: play or pause, the song before or behind, shuffle turned round, the
/// next repeat mode, and five seconds back or on.
pub proof fn a_key_for_the_player_tells_it(
    before: App,
    after: App,
    key: KeyEvent,
    l0: Seq<Request>,
    l1: Seq<Request>,
    keep: bool,
    language: Language,
    steps: Steps,
    now: u64,
)
    requires
        after.pressed(before, key, l0, l1, keep, language, steps, now),
        !key.control,
        !before.browser.typing,
        !(before.stage is SignedOut),
    ensures
        key.code == KeyCode::Char(' ') ==> after == before && l1 == l0.push(
            Request::Transport(Transport::PlayPause),
        ),
        key.code == KeyCode::Char('z') ==> after == before && l1 == l0.push(
            Request::Transport(Transport::Previous),
        ),
        key.code == KeyCode::Char('b') ==> after == before && l1 == l0.push(
            Request::Transport(Transport::Next),
        ),
        key.code == KeyCode::Char('s') ==> after == before && l1 == l0.push(
            Request::Transport(Transport::SetShuffle { shuffle: !before.snap.shuffle }),
        ),
        key.code == KeyCode::Char('r') && before.snap.repeat is Off ==> l1 == l0.push(
            Request::Transport(Transport::SetRepeat { mode: RepeatMode::All }),
        ),
        key.code == KeyCode::Char('r') && before.snap.repeat is All ==> l1 == l0.push(
            Request::Transport(Transport::SetRepeat { mode: RepeatMode::One }),
        ),
        key.code == KeyCode::Char('r') && before.snap.repeat is One ==> l1 == l0.push(
            Request::Transport(Transport::SetRepeat { mode: RepeatMode::Off }),
        ),
        key.code == KeyCode::Right && before.snap.position_ms <= u64::MAX - 5_000 ==> after
            == before && l1 == l0.push(
            Request::Transport(
                Transport::Seek { position_ms: (before.snap.position_ms + 5_000) as u64 },
            ),
        ),
        key.code == KeyCode::Left && before.snap.position_ms >= 5_000 ==> after == before && l1
            == l0.push(
            Request::Transport(
                Transport::Seek { position_ms: (before.snap.position_ms - 5_000) as u64 },
            ),
        ),
        key.code == KeyCode::Left && before.snap.position_ms < 5_000 ==> l1 == l0.push(
            Request::Transport(Transport::Seek { position_ms: 0 }),
        ),
{
}

/// Two keys end the client: one leaves the player running, the other ends it
/// too. No other key ends anything.
pub proof fn two_keys_end_the_client(
    before: App,
    after: App,
    key: KeyEvent,
    l0: Seq<Request>,
    l1: Seq<Request>,
    keep: bool,
    language: Language,
    steps: Steps,
    now: u64,
)
    requires
        after.pressed(before, key, l0, l1, keep, language, steps, now),
    ensures
        key.control && key.code == KeyCode::Char('c') ==> !keep && after == before && l1 == l0,
        !key.control && key.code == KeyCode::Char('q') && !before.browser.typing ==> !keep
            && after.quit_daemon && l1 == l0,
        key.code != KeyCode::Char('q') && !(key.control && key.code == KeyCode::Char('c')) ==> keep
            && after.quit_daemon == before.quit_daemon,
{
}

/// The cursor moves by one row or by ten, up or down, in the pane on screen.
pub proof fn a_key_moves_the_cursor(
    before: App,
    after: App,
    key: KeyEvent,
    l0: Seq<Request>,
    l1: Seq<Request>,
    keep: bool,
    language: Language,
    steps: Steps,
    now: u64,
)
    requires
        after.pressed(before, key, l0, l1, keep, language, steps, now),
        !key.control,
        !before.browser.typing,
    ensures
        key.code == KeyCode::Up && before.pane == Pane::Browser ==> after.browser.cursor
            == before.browser.moved(-1).cursor && after.queue == before.queue,
        key.code == KeyCode::Down && before.pane == Pane::Browser ==> after.browser.cursor
            == before.browser.moved(1).cursor && after.queue == before.queue,
        key.code == KeyCode::PageUp && before.pane == Pane::Browser ==> after.browser.cursor
            == before.browser.moved(-10).cursor,
        key.code == KeyCode::PageDown && before.pane == Pane::Browser ==> after.browser.cursor
            == before.browser.moved(10).cursor,
        key.code == KeyCode::Up && before.pane == Pane::Queue ==> after.queue == before.queue.moved(
            -1,
        ) && after.browser == before.browser,
        key.code == KeyCode::Down && before.pane == Pane::Queue ==> after.queue
            == before.queue.moved(1) && after.browser == before.browser,
        key.code == KeyCode::PageUp && before.pane == Pane::Queue ==> after.queue
            == before.queue.moved(-10),
        key.code == KeyCode::PageDown && before.pane == Pane::Queue ==> after.queue
            == before.queue.moved(10),
{
}

/// In the queue a key edits the selected row: it is taken out, or moved up or
/// down by one with the cursor on it; Enter plays it.
pub proof fn a_key_edits_the_selected_row(
    before: App,
    after: App,
    key: KeyEvent,
    l0: Seq<Request>,
    l1: Seq<Request>,
    keep: bool,
    language: Language,
    steps: Steps,
    now: u64,
)
    requires
        after.pressed(before, key, l0, l1, keep, language, steps, now),
        !key.control,
        !before.browser.typing,
        before.pane == Pane::Queue,
        !(before.stage is SignedOut),
        before.queue.cursor < before.queue.items@.len() <= usize::MAX,
    ensures
        key.code == KeyCode::Char('d') ==> l1 == l0.push(
            Request::RemoveFromQueue { index: before.queue.cursor },
        ) && after == before,
        key.code == KeyCode::Char('i') && before.queue.cursor > 0 ==> l1 == l0.push(
            Request::MoveInQueue {
                from: before.queue.cursor,
                to: (before.queue.cursor - 1) as usize,
            },
        ) && after.queue.cursor == before.queue.cursor - 1,
        key.code == KeyCode::Char('i') && before.queue.cursor == 0 ==> l1 == l0 && after == before,
        key.code == KeyCode::Char('k') && before.queue.cursor + 1 < before.queue.items@.len()
            ==> l1 == l0.push(
            Request::MoveInQueue {
                from: before.queue.cursor,
                to: (before.queue.cursor + 1) as usize,
            },
        ) && after.queue.cursor == before.queue.cursor + 1,
        key.code == KeyCode::Char('k') && before.queue.cursor + 1 == before.queue.items@.len()
            ==> l1 == l0 && after == before,
        key.code == KeyCode::Enter ==> l1 == l0.push(
            Request::JumpTo { index: before.queue.cursor },
        ) && after == before,
        key.code == KeyCode::Home ==> after.queue.following && l1 == l0,
{
}

/// A song that is queued from the browser goes right behind the current one or
/// to the end, under its own id; what does not stream is not queued.
pub proof fn a_selected_song_is_queued(
    before: App,
    after: App,
    key: KeyEvent,
    l0: Seq<Request>,
    l1: Seq<Request>,
    keep: bool,
    language: Language,
    steps: Steps,
    now: u64,
)
    requires
        after.pressed(before, key, l0, l1, keep, language, steps, now),
        !key.control,
        !before.browser.typing,
        before.pane == Pane::Browser,
        before.browser.cursor < before.browser.rows@.len(),
        key.code == KeyCode::Char('j') || key.code == KeyCode::Char('l'),
    ensures
        before.browser.rows@[before.browser.cursor as int].spec_catalog_id() matches Some(id) ==> {
            &&& l1.len() == l0.len() + 1
            &&& l1.last() matches Request::Enqueue { ids, next }
            &&& text::views(ids@) == seq![id]
            &&& next == (key.code == KeyCode::Char('j'))
            &&& after.message matches Some(n) && !n.bad
        },
        before.browser.rows@[before.browser.cursor as int].spec_catalog_id() is None ==> l1 == l0
            && (after.message matches Some(n) && n.bad),
        after.browser == before.browser && after.queue == before.queue,
{
}

/// Enter on a song plays the songs of the list that stream, starting with that
/// one; Enter on anything else opens its page.
pub proof fn enter_plays_or_opens(
    before: App,
    after: App,
    key: KeyEvent,
    l0: Seq<Request>,
    l1: Seq<Request>,
    keep: bool,
    language: Language,
    steps: Steps,
    now: u64,
)
    requires
        after.pressed(before, key, l0, l1, keep, language, steps, now),
        key.code == KeyCode::Enter,
        !before.browser.typing,
        !(before.stage is SignedOut),
        before.pane == Pane::Browser,
        before.browser.cursor < before.browser.rows@.len(),
    ensures
        ({
            let b = before.browser;
            let e = b.rows@[b.cursor as int];
            &&& e.spec_catalog_id() matches Some(id) ==> {
                &&& after == before
                &&& l1.len() == l0.len() + 1
                &&& l1.last() matches Request::Play { ids, index, start }
                &&& text::views(ids@) == playable_ids(b.rows@)
                &&& index < ids@.len() && ids@[index as int]@ == id
                &&& start == PlayMode::InOrder
            }
            &&& e.spec_page_target() matches Some((kind, id)) ==> {
                &&& l1.len() == l0.len() + 1
                &&& l1.last() matches Request::Open { kind: k, id: i }
                &&& k == kind && i@ == id
                &&& after.browser.showing is Page
                &&& after.browser.from_catalog == (before.browser.showing is Catalog)
            }
        }),
{
    let b = before.browser;
    let e = b.rows@[b.cursor as int];
    if e.spec_catalog_id() is Some {
        super::browser::the_selected_row_is_the_one_that_plays(b.rows@, b.cursor as int);
        let k = playable_ids(b.rows@.take(b.cursor as int)).len() as int;
        assert(e is Song);
        match l1.last() {
            Request::Play { ids, index, start } => {
                assert(text::views(ids@)[k] == ids@[k]@);
            },
            _ => {},
        }
    }
}

/// A number leads to a place, whatever was on screen, and the next and the one
/// before are reached with a key too.
pub proof fn a_number_leads_to_a_place(
    before: App,
    after: App,
    key: KeyEvent,
    l0: Seq<Request>,
    l1: Seq<Request>,
    keep: bool,
    language: Language,
    steps: Steps,
    now: u64,
)
    requires
        after.pressed(before, key, l0, l1, keep, language, steps, now),
        !key.control,
        !before.browser.typing,
        !(before.stage is SignedOut),
    ensures
        key.code == KeyCode::Char('1') ==> after.pane == Pane::Browser && after.browser.view
            == Section::Songs && after.browser.showing is Library,
        key.code == KeyCode::Char('2') ==> after.pane == Pane::Browser && after.browser.view
            == Section::Albums && after.browser.showing is Library,
        key.code == KeyCode::Char('3') ==> after.pane == Pane::Browser && after.browser.view
            == Section::Artists && after.browser.showing is Library,
        key.code == KeyCode::Char('4') ==> after.pane == Pane::Browser && after.browser.view
            == Section::Playlists && after.browser.showing is Library,
        key.code == KeyCode::Char('5') ==> after.pane == Pane::Browser
            && after.browser.showing is Catalog && after.browser.typing,
        key.code == KeyCode::Char('6') ==> after.pane == Pane::Queue && l1 == l0,
        key.code == KeyCode::Tab && before.spec_place() == 4 ==> after.pane == Pane::Queue,
        key.code == KeyCode::BackTab && before.pane == Pane::Queue ==> after.pane == Pane::Browser
            && after.browser.showing is Catalog,
{
}

/// What the player says of itself is taken over, and nothing else changes by it;
/// where it does not play, the spectrum is silent.
pub proof fn what_the_player_says_is_taken_over(
    before: App,
    after: App,
    snap: Snapshot,
    l0: Seq<Request>,
    l1: Seq<Request>,
    now: u64,
)
    requires
        after.heard(before, Event::Snapshot(snap), l0, l1, now),
    ensures
        after.snap == snap,
        after.browser == before.browser,
        after.queue == before.queue,
        after.stage == before.stage,
        after.pane == before.pane,
        after.message == before.message,
        snap.playing ==> after.bars == before.bars,
        !snap.playing ==> forall|i: int| 0 <= i < after.bars@.len() ==> after.bars@[i] == 0,
        l1 == l0,
{
}

/// A queue that comes in is taken over; the cursor follows the music until it is
/// moved by hand, and is kept among the items.
pub proof fn a_queue_is_taken_over(
    before: App,
    after: App,
    items: Vec<crate::ipc::QueueItem>,
    position: usize,
    l0: Seq<Request>,
    l1: Seq<Request>,
    now: u64,
)
    requires
        after.heard(before, (Event::Queue { items, position }), l0, l1, now),
        items@.len() > 0,
    ensures
        after.queue.items == items,
        after.queue.position == position,
        before.queue.following && position < items@.len() ==> after.queue.cursor == position,
        !before.queue.following && before.queue.cursor < items@.len() ==> after.queue.cursor
            == before.queue.cursor,
        after.queue.cursor < items@.len(),
        after.queue.following == before.queue.following,
        after.browser == before.browser && after.snap == before.snap,
{
}

/// Rows of the library are shown, but never over what the catalogue answered;
/// results are shown where the catalogue is on screen and its question is still
/// the one that was asked.
pub proof fn an_answer_is_shown_where_it_was_asked(
    before: App,
    after: App,
    entries: Vec<crate::entry::Entry>,
    total: usize,
    query: String,
    more: bool,
    l0: Seq<Request>,
    l1: Seq<Request>,
    now: u64,
)
    ensures
        after.heard(before, (Event::Rows { entries, total }), l0, l1, now)
            && !(before.browser.showing is Catalog) ==> after.browser.rows == entries
            && after.browser.total == total,
        after.heard(before, (Event::Rows { entries, total }), l0, l1, now)
            && before.browser.showing is Catalog ==> after == before,
        after.heard(before, (Event::Results { query, entries, offset: 0, more }), l0, l1, now)
            && query@ != text::trimmed(before.browser.filters.catalog@) ==> after == before,
        after.heard(before, (Event::Results { query, entries, offset: 0, more }), l0, l1, now)
            && query@ == text::trimmed(before.browser.filters.catalog@)
            && before.browser.showing is Catalog ==> after.browser.rows@ == entries@
            && after.browser.found == entries && after.browser.more == more
            && after.browser.cursor == 0,
        after.heard(before, (Event::Results { query, entries, offset: 0, more }), l0, l1, now)
            && query@ == text::trimmed(before.browser.filters.catalog@)
            && !(before.browser.showing is Catalog) ==> after.browser.rows == before.browser.rows
            && after.browser.found == entries,
        after.heard(before, (Event::Results { query, entries, offset: total, more }), l0, l1, now)
            && total > 0 && query@ == text::trimmed(before.browser.filters.catalog@)
            ==> after.browser.found@ == before.browser.found@ + entries@ && after.browser.cursor
            == before.browser.cursor,
{
}

/// A page that comes in is shown from its top, under its own name; an error is
/// said; and a stage is taken over.
pub proof fn what_else_comes_in_is_shown(
    before: App,
    after: App,
    header: crate::entry::Entry,
    entries: Vec<crate::entry::Entry>,
    detail: String,
    stage: Stage,
    l0: Seq<Request>,
    l1: Seq<Request>,
    now: u64,
)
    ensures
        after.heard(before, (Event::Page { header, entries }), l0, l1, now) ==> after.browser.rows
            == entries && after.browser.cursor == 0 && (after.browser.showing matches Showing::Page {
            title,
            subtitle,
            loading,
        } && title@ == header.spec_title() && subtitle@ == header.spec_subtitle() && !loading),
        after.heard(before, (Event::Error { detail }), l0, l1, now) ==> (after.message matches Some(
            n,
        ) && n.bad && n.text@ == detail@ && n.at == now) && after.browser == before.browser,
        after.heard(before, Event::Stage(stage), l0, l1, now) ==> after.stage == stage,
        after.heard(before, Event::Stage(stage), l0, l1, now) && !(stage is SignedOut)
            ==> after.browser == before.browser && after.queue == before.queue && after.snap
            == before.snap,
        after.heard(before, Event::Stage(stage), l0, l1, now) && stage is SignedOut
            ==> after.queue.items@.len() == 0 && after.browser.rows@.len() == 0
            && after.snap.title@.len() == 0 && after.snap.volume == before.snap.volume
            && after.message is None,
{
}

/// The clock runs a tenth of a second with each tick while something plays, not
/// past the end of the song, and stands otherwise; a notice fades after four
/// seconds and not before.
pub proof fn the_clock_runs_while_it_plays(before: App, after: App, now: u64, draw: bool)
    requires
        after.ticked(before, now, draw),
    ensures
        !before.snap.playing ==> after.snap.position_ms == before.snap.position_ms,
        before.snap.playing && before.snap.position_ms + 100 <= before.snap.duration_ms
            ==> after.snap.position_ms == before.snap.position_ms + 100,
        before.snap.playing && before.snap.position_ms <= before.snap.duration_ms
            < before.snap.position_ms + 100 ==> after.snap.position_ms == before.snap.duration_ms,
        after.snap.position_ms >= before.snap.position_ms,
        before.snap.playing ==> draw,
        before.message matches Some(n) ==> (elapsed(n.at, now) <= 4_000_000_000 ==> after.message
            == before.message),
        before.message matches Some(n) ==> (elapsed(n.at, now) > 4_000_000_000
            ==> after.message is None && draw),
        after.browser == before.browser && after.queue == before.queue && after.stage
            == before.stage,
{
}

/// Back leads out of a page to where it was opened, then out of a filter, and
/// then nowhere.
pub proof fn back_leads_to_where_it_was(
    before: App,
    after: App,
    l0: Seq<Request>,
    l1: Seq<Request>,
)
    requires
        after.went_back(before, l0, l1),
    ensures
        before.browser.showing is Page && before.browser.from_catalog
            ==> after.browser.showing is Catalog && after.browser.rows@ == before.browser.found@,
        before.browser.showing is Page && !before.browser.from_catalog
            ==> after.browser.showing is Library && after.browser.view == before.browser.view,
        !(before.browser.showing is Page) && before.browser.spec_filter().len() > 0
            ==> after.browser.spec_filter().len() == 0 && after.browser.showing
            == before.browser.showing,
        !(before.browser.showing is Page) && before.browser.spec_filter().len() == 0 ==> after
            == before && l1 == l0,
{
}

} // verus!

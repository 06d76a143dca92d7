//! Finding, starting and supervising the engine process.
//!
//! What reads directories, spawns the process and moves its lines is around
//! this; the rules it goes by are here.
use vstd::arithmetic::power2::pow2;
use vstd::prelude::*;

use super::protocol::Command;
use super::state::{elapsed, since};
use crate::paths;
use crate::text;

verus! {

/// The most commands of one kind that are sent in a second.
///
/// Above anything a person can produce and far below what hurts: a loop that
/// sends without end must not take the desktop with it.
pub const MAX_PER_SECOND: u32 = 250;

/// One second, in nanoseconds.
pub const SECOND: u64 = 1_000_000_000;

/// How many commands of one kind were sent in the second that began at
/// `started`.
#[derive(Debug, Clone, Copy, PartialEq, Eq, Structural)]
pub struct Window {
    pub started: u64,
    pub sent: u32,
    /// Whether the storm was already reported.
    pub warned: bool,
}

impl Window {
    pub open spec fn fresh(now: u64) -> Window {
        Window { started: now, sent: 0, warned: false }
    }

    /// This window after one more command at `now`. A second that has passed
    /// starts a new window; the count stops at its largest value.
    pub open spec fn counted(self, now: u64) -> Window {
        let w = if elapsed(self.started, now) >= SECOND {
            Window::fresh(now)
        } else {
            self
        };
        let sent = if w.sent < u32::MAX {
            (w.sent + 1) as u32
        } else {
            w.sent
        };
        Window { started: w.started, sent, warned: w.warned || sent > MAX_PER_SECOND }
    }
}

/// The window of one kind of command.
#[derive(Debug)]
pub struct Rate {
    pub name: String,
    pub window: Window,
}

/// The way to the engine: how much was sent lately, and the process group to
/// kill if it stops listening.
#[derive(Debug)]
pub struct Handle {
    pub rate: Vec<Rate>,
    pub pgid: Option<u32>,
}

/// What becomes of a command.
#[derive(Debug)]
pub enum Sent {
    /// It goes to the engine.
    Deliver(Command),
    /// It is over the ceiling. `report` says whether this is the first of its
    /// storm, which is worth a line in the log.
    Dropped { report: bool },
}

/// The window kept under `name`.
pub open spec fn window_named(rate: Seq<Rate>, name: Seq<char>) -> Option<Window>
    decreases rate.len(),
{
    if rate.len() == 0 {
        None
    } else {
        match window_named(rate.drop_last(), name) {
            Some(w) => Some(w),
            None => if rate.last().name@ == name {
                Some(rate.last().window)
            } else {
                None
            },
        }
    }
}

/// Whether no kind is kept twice.
pub open spec fn names_distinct(rate: Seq<Rate>) -> bool {
    forall|i: int, j: int|
        0 <= i < j < rate.len() ==> (#[trigger] rate[i]).name@ != (#[trigger] rate[j]).name@
}

proof fn window_named_at(rate: Seq<Rate>, name: Seq<char>)
    ensures
        match window_named(rate, name) {
            Some(w) => exists|i: int|
                0 <= i < rate.len() && (#[trigger] rate[i]).name@ == name && rate[i].window == w
                    && forall|j: int| 0 <= j < i ==> (#[trigger] rate[j]).name@ != name,
            None => forall|i: int| 0 <= i < rate.len() ==> (#[trigger] rate[i]).name@ != name,
        },
    decreases rate.len(),
{
    if rate.len() > 0 {
        let rest = rate.drop_last();
        window_named_at(rest, name);
        assert forall|i: int| 0 <= i < rest.len() implies rest[i] == #[trigger] rate[i] by {}
        if let Some(w) = window_named(rest, name) {
            let i = choose|i: int|
                0 <= i < rest.len() && (#[trigger] rest[i]).name@ == name && rest[i].window == w
                    && forall|j: int| 0 <= j < i ==> (#[trigger] rest[j]).name@ != name;
            assert(rate[i].name@ == name);
        } else if rate.last().name@ == name {
            assert(rate[rate.len() - 1].name@ == name);
        }
    }
}

proof fn windows_agree(a: Seq<Rate>, b: Seq<Rate>, name: Seq<char>)
    requires
        a.len() == b.len(),
        forall|i: int| 0 <= i < a.len() ==> (#[trigger] a[i]).name@ == (#[trigger] b[i]).name@,
        forall|i: int|
            0 <= i < a.len() && (#[trigger] a[i]).name@ == name ==> a[i].window == b[i].window,
    ensures
        window_named(a, name) == window_named(b, name),
    decreases a.len(),
{
    if a.len() > 0 {
        assert forall|i: int| 0 <= i < a.len() - 1 implies a.drop_last()[i] == #[trigger] a[i]
            && b.drop_last()[i] == b[i] by {}
        windows_agree(a.drop_last(), b.drop_last(), name);
        assert(a[a.len() - 1].name@ == b[b.len() - 1].name@);
    }
}

impl Handle {
    /// A handle through which nothing was sent yet.
    pub fn new(pgid: Option<u32>) -> (r: Self)
        ensures
            r.wf(),
            r.pgid == pgid,
            r.rate@.len() == 0,
    {
        Handle { rate: Vec::new(), pgid }
    }

    /// No kind of command is counted twice.
    pub open spec fn wf(self) -> bool {
        names_distinct(self.rate@)
    }

    /// The window of a kind of command at `now`, before another is sent.
    pub open spec fn window(self, name: Seq<char>, now: u64) -> Window {
        match window_named(self.rate@, name) {
            Some(w) => w,
            None => Window::fresh(now),
        }
    }

    /// Whether sending `cmd` at `now` turns `o` into `self`, with `r` saying what
    /// became of it.
    pub open spec fn has_sent(self, o: Self, cmd: Command, now: u64, r: Sent) -> bool {
        let w = o.window(cmd.spec_name(), now);
        let after = w.counted(now);
        &&& window_named(self.rate@, cmd.spec_name()) == Some(after)
        &&& forall|name: Seq<char>|
            name != cmd.spec_name() ==> #[trigger] window_named(self.rate@, name) == window_named(
                o.rate@,
                name,
            )
        &&& match r {
            Sent::Deliver(c) => after.sent <= MAX_PER_SECOND && c == cmd,
            Sent::Dropped { report } => after.sent > MAX_PER_SECOND && report == !(elapsed(
                w.started,
                now,
            ) < SECOND && w.warned),
        }
    }

    /// The target of a kill: the process group, as a negative number. Nothing
    /// where there is no process behind the handle.
    pub fn kill(&self) -> (r: Option<i64>)
        ensures
            r == match self.pgid {
                Some(p) => Some((-(p as int)) as i64),
                None => None::<i64>,
            },
    {
        match self.pgid {
            Some(p) => Some(-(p as i64)),
            None => None,
        }
    }

    /// Send a command, unless too many of its kind were sent this second.
    pub fn send(&mut self, cmd: Command, now: u64) -> (r: Sent)
        requires
            old(self).wf(),
        ensures
            final(self).wf(),
            final(self).pgid == old(self).pgid,
            ({
                let w = old(self).window(cmd.spec_name(), now);
                let after = w.counted(now);
                &&& window_named(final(self).rate@, cmd.spec_name()) == Some(after)
                &&& forall|name: Seq<char>|
                    name != cmd.spec_name() ==> #[trigger] window_named(final(self).rate@, name)
                        == window_named(old(self).rate@, name)
                &&& match r {
                    Sent::Deliver(c) => after.sent <= MAX_PER_SECOND && c == cmd,
                    Sent::Dropped { report } => after.sent > MAX_PER_SECOND && report == !(
                    elapsed(w.started, now) < SECOND && w.warned),
                }
            }),
            final(self).has_sent(*old(self), cmd, now, r),
    {
        let (allowed, report) = self.allow(cmd.name(), now);
        if allowed {
            Sent::Deliver(cmd)
        } else {
            Sent::Dropped { report }
        }
    }

    /// Count one command of this kind. Answers whether it is under the ceiling
    /// and, if it is not, whether it is the first of its storm.
    fn allow(&mut self, name: &str, now: u64) -> (r: (bool, bool))
        requires
            old(self).wf(),
        ensures
            final(self).wf(),
            final(self).pgid == old(self).pgid,
            ({
                let w = old(self).window(name@, now);
                let after = w.counted(now);
                &&& window_named(final(self).rate@, name@) == Some(after)
                &&& forall|other: Seq<char>|
                    other != name@ ==> #[trigger] window_named(final(self).rate@, other)
                        == window_named(old(self).rate@, other)
                &&& r.0 == (after.sent <= MAX_PER_SECOND)
                &&& r.1 == (!r.0 && !(elapsed(w.started, now) < SECOND && w.warned))
            }),
    {
        proof {
            window_named_at(self.rate@, name@);
        }
        let ghost before = self.rate@;
        let mut at: usize = 0;
        while at < self.rate.len() && !text::same(self.rate[at].name.as_str(), name)
            invariant
                at <= self.rate@.len(),
                self.rate@ == before,
                self.pgid == old(self).pgid,
                forall|j: int| 0 <= j < at ==> (#[trigger] before[j]).name@ != name@,
            decreases self.rate@.len() - at,
        {
            at += 1;
        }
        let mut w = if at < self.rate.len() {
            self.rate[at].window
        } else {
            Window { started: now, sent: 0, warned: false }
        };
        proof {
            assert(w == old(self).window(name@, now));
        }
        let ghost w0 = w;
        if since(w.started, now) >= SECOND {
            w = Window { started: now, sent: 0, warned: false };
        }
        let reported = w.warned;
        w.sent = w.sent.saturating_add(1);
        let allowed = w.sent <= MAX_PER_SECOND;
        if !allowed {
            w.warned = true;
        }
        assert(w == w0.counted(now));
        if at < self.rate.len() {
            let kept = self.rate[at].name.clone();
            self.rate.set(at, Rate { name: kept, window: w });
        } else {
            self.rate.push(Rate { name: name.to_owned(), window: w });
        }
        proof {
            let now_rate = self.rate@;
            window_named_at(now_rate, name@);
            if at < before.len() {
                assert(now_rate[at as int].name@ == name@);
                assert forall|other: Seq<char>| other != name@ implies #[trigger] window_named(
                    now_rate,
                    other,
                ) == window_named(before, other) by {
                    windows_agree(now_rate, before, other);
                }
            } else {
                assert(now_rate.drop_last() =~= before);
                assert(now_rate[at as int].name@ == name@);
                assert forall|other: Seq<char>| other != name@ implies #[trigger] window_named(
                    now_rate,
                    other,
                ) == window_named(before, other) by {}
            }
        }
        (allowed, !allowed && !reported)
    }
}

/// How many of the commands of one kind sent at `times` get through, starting
/// from `w`, and the window that is left.
pub open spec fn run(w: Window, times: Seq<u64>) -> (Window, nat)
    decreases times.len(),
{
    if times.len() == 0 {
        (w, 0)
    } else {
        let (before, n) = run(w, times.drop_last());
        let after = before.counted(times.last());
        (after, if after.sent <= MAX_PER_SECOND { n + 1 } else { n })
    }
}

/// However many commands of one kind are sent within a second, at most
/// [`MAX_PER_SECOND`] of them get through, and as many as were sent up to that.
pub proof fn a_storm_is_cut_off(start: u64, times: Seq<u64>)
    requires
        forall|i: int| 0 <= i < times.len() ==> elapsed(start, #[trigger] times[i]) < SECOND,
        times.len() < u32::MAX,
    ensures
        run(Window::fresh(start), times).1 == if times.len() <= MAX_PER_SECOND {
            times.len()
        } else {
            MAX_PER_SECOND as nat
        },
        run(Window::fresh(start), times).0.started == start,
        run(Window::fresh(start), times).0.sent == times.len(),
    decreases times.len(),
{
    if times.len() > 0 {
        let rest = times.drop_last();
        assert forall|i: int| 0 <= i < rest.len() implies elapsed(start, #[trigger] rest[i])
            < SECOND by {
            assert(rest[i] == times[i]);
        }
        a_storm_is_cut_off(start, rest);
        assert(times.last() == times[times.len() - 1]);
    }
}

/// How long to wait before the engine is started again, in seconds: twice as
/// long after each attempt, and never more than thirty.
pub open spec fn spec_restart_delay(attempt: nat) -> nat {
    if attempt < 5 {
        pow2(attempt)
    } else {
        30
    }
}

/// How long to wait before the engine is started again, in seconds.
pub fn restart_delay(attempt: u32) -> (r: u64)
    ensures
        r == spec_restart_delay(attempt as nat),
{
    proof {
        vstd::arithmetic::power2::lemma2_to64();
    }
    match attempt {
        0 => 1,
        1 => 2,
        2 => 4,
        3 => 8,
        4 => 16,
        _ => 30,
    }
}

/// The wait never shrinks from one attempt to the next and stays bounded.
pub proof fn the_wait_grows_and_stays_bounded(attempt: nat)
    ensures
        1 <= spec_restart_delay(attempt) <= 30,
        spec_restart_delay(attempt) <= spec_restart_delay(attempt + 1),
{
    vstd::arithmetic::power2::lemma2_to64();
    if attempt == 0 {
    } else if attempt == 1 {
    } else if attempt == 2 {
    } else if attempt == 3 {
    } else if attempt == 4 {
    }
}

/// The system's data directories: the variable's parts, else the two that are
/// meant when it is not set.
pub open spec fn spec_data_dirs(raw: Option<Seq<char>>) -> Seq<Seq<char>> {
    let list = match raw {
        Some(s) if s.len() > 0 => s,
        _ => "/usr/local/share:/usr/share"@,
    };
    text::split(list, ':').filter(|p: Seq<char>| p.len() > 0)
}

/// The system's data directories, in order of preference.
pub fn dirs_data_dirs(raw: Option<&str>) -> (r: Vec<String>)
    ensures
        text::views(r@) == spec_data_dirs(
            match raw {
                Some(s) => Some(s@),
                None => None,
            },
        ),
{
    let list = match raw {
        Some(s) => if s.is_empty() {
            "/usr/local/share:/usr/share"
        } else {
            s
        },
        None => "/usr/local/share:/usr/share",
    };
    let parts = text::split_on(list, ':');
    let ghost all = text::views(parts@);
    let ghost full = |p: Seq<char>| p.len() > 0;
    let mut out: Vec<String> = Vec::new();
    let mut i: usize = 0;
    proof {
        assert(all.take(0) =~= Seq::<Seq<char>>::empty());
        reveal(Seq::filter);
        assert(text::views(out@) =~= all.take(0).filter(full));
    }
    while i < parts.len()
        invariant
            i <= parts@.len(),
            all == text::views(parts@),
            full == (|p: Seq<char>| p.len() > 0),
            text::views(out@) == all.take(i as int).filter(full),
        decreases parts@.len() - i,
    {
        proof {
            text::filter_step(all, full, i as int);
        }
        if !parts[i].as_str().is_empty() {
            let ghost out0 = out@;
            out.push(parts[i].clone());
            proof {
                assert(text::views(out@) =~= text::views(out0).push(all[i as int]));
            }
        }
        i += 1;
    }
    assert(all.take(i as int) =~= all);
    out
}

/// The user's data directory, which is `~/.local/share` by default.
pub fn dirs_data_home(xdg: &Option<String>, home: &Option<String>) -> (r: Option<String>)
    ensures
        text::opt_view(r) == paths::base_dir(
            text::opt_view(*xdg),
            text::opt_view(*home),
            ".local/share"@,
        ),
{
    paths::xdg(xdg, home, ".local/share")
}

/// Where the engine may be, in the order it is looked for.
pub open spec fn spec_candidates(
    named: Option<Seq<char>>,
    data_home: Option<Seq<char>>,
    data_dirs: Seq<Seq<char>>,
    dev: Option<Seq<char>>,
) -> Seq<Seq<char>> {
    let first = match named {
        Some(p) => seq![p],
        None => Seq::empty(),
    };
    let home = match data_home {
        Some(h) => seq![paths::under(h, "vinilo/sidecar"@)],
        None => Seq::empty(),
    };
    let last = match dev {
        Some(d) => seq![paths::under(d, "sidecar"@)],
        None => Seq::empty(),
    };
    first + home + data_dirs.map_values(|d: Seq<char>| paths::under(d, "vinilo/sidecar"@)) + last
}

/// Where the engine may be: the place that is named, the user's install, the
/// system's, and the build tree.
pub fn candidates(
    named: Option<&str>,
    data_home: Option<&str>,
    data_dirs: &Vec<String>,
    dev: Option<&str>,
) -> (r: Vec<String>)
    ensures
        text::views(r@) == spec_candidates(
            match named {
                Some(s) => Some(s@),
                None => None,
            },
            match data_home {
                Some(s) => Some(s@),
                None => None,
            },
            text::views(data_dirs@),
            match dev {
                Some(s) => Some(s@),
                None => None,
            },
        ),
{
    let mut out: Vec<String> = Vec::new();
    if let Some(p) = named {
        out.push(p.to_owned());
    }
    if let Some(h) = data_home {
        out.push(paths::join(h, "vinilo/sidecar"));
    }
    let ghost head = text::views(out@);
    let ghost dirs = text::views(data_dirs@).map_values(
        |d: Seq<char>| paths::under(d, "vinilo/sidecar"@),
    );
    let mut i: usize = 0;
    while i < data_dirs.len()
        invariant
            i <= data_dirs@.len(),
            dirs == text::views(data_dirs@).map_values(
                |d: Seq<char>| paths::under(d, "vinilo/sidecar"@),
            ),
            text::views(out@) =~= head + dirs.take(i as int),
        decreases data_dirs@.len() - i,
    {
        let ghost out0 = out@;
        out.push(paths::join(data_dirs[i].as_str(), "vinilo/sidecar"));
        proof {
            assert(text::views(out@) =~= text::views(out0).push(dirs[i as int]));
        }
        i += 1;
    }
    let ghost out0 = out@;
    if let Some(d) = dev {
        out.push(paths::join(d, "sidecar"));
        proof {
            assert(text::views(out@) =~= text::views(out0).push(paths::under(d@, "sidecar"@)));
        }
    }
    proof {
        assert(dirs.take(i as int) =~= dirs);
        assert(text::views(out@) =~= spec_candidates(
            match named {
                Some(s) => Some(s@),
                None => None,
            },
            match data_home {
                Some(s) => Some(s@),
                None => None,
            },
            text::views(data_dirs@),
            match dev {
                Some(s) => Some(s@),
                None => None,
            },
        ));
    }
    out
}

/// The engine's directory: the first candidate at which its program was found.
/// Where there is none, the sentence to show, which names every place that was
/// looked at and the way to install it.
pub fn locate(candidates: &Vec<String>, found: &Vec<bool>) -> (r: Result<String, String>)
    requires
        candidates@.len() == found@.len(),
    ensures
        match r {
            Ok(dir) => exists|i: int|
                text::is_first(found@, |b: bool| b, i) && dir@ == (#[trigger] candidates@[i])@,
            Err(why) => text::nowhere(found@, |b: bool| b) && why@
                == "sidecar not found (looked in: "@ + text::joined(
                text::views(candidates@),
                ", "@,
            ) + "). Run `make sidecar` to install it."@,
        },
{
    let mut i: usize = 0;
    while i < found.len()
        invariant
            i <= found@.len() == candidates@.len(),
            forall|j: int| 0 <= j < i ==> !(#[trigger] found@[j]),
        decreases found@.len() - i,
    {
        if found[i] {
            proof {
                assert(text::is_first(found@, |b: bool| b, i as int));
                assert(candidates@[i as int]@ == candidates@[i as int]@);
            }
            return Ok(candidates[i].clone());
        }
        i += 1;
    }
    let mut why = "sidecar not found (looked in: ".to_owned();
    why.append(text::join(candidates, ", ").as_str());
    why.append("). Run `make sidecar` to install it.");
    Err(why)
}

/// Where the browser that runs the engine is, inside the engine's directory.
pub fn electron_path(sidecar: &str) -> (r: String)
    ensures
        r@ == paths::under(sidecar@, "node_modules/electron/dist/electron"@),
{
    paths::join(sidecar, "node_modules/electron/dist/electron")
}

/// The browser's path if it is there, else the sentence to show.
pub fn electron_binary(sidecar: &str, present: bool) -> (r: Result<String, String>)
    ensures
        ({
            let path = paths::under(sidecar@, "node_modules/electron/dist/electron"@);
            match r {
                Ok(p) => present && p@ == path,
                Err(why) => !present && why@ == "Electron not installed at "@ + path
                    + ". Run `make sidecar`."@,
            }
        }),
{
    let path = electron_path(sidecar);
    if present {
        return Ok(path);
    }
    let mut why = "Electron not installed at ".to_owned();
    why.append(path.as_str());
    why.append(". Run `make sidecar`.");
    Err(why)
}

/// What a line on the engine's error stream is.
#[derive(Debug, PartialEq, Eq)]
pub enum LogLine {
    /// The engine speaking.
    Engine(String),
    Blank,
    /// The browser talking to itself.
    Browser,
}

/// What a line on the engine's error stream is.
pub fn log_line(line: &str) -> (r: LogLine)
    ensures
        match text::after_prefix(line@, "[sidecar] "@) {
            Some(msg) => r matches LogLine::Engine(m) && m@ == msg,
            None => if text::trimmed(line@).len() == 0 {
                r is Blank
            } else {
                r is Browser
            },
        },
{
    match text::strip_prefix(line, "[sidecar] ") {
        Some(msg) => LogLine::Engine(msg),
        None => if text::is_blank(line) {
            LogLine::Blank
        } else {
            LogLine::Browser
        },
    }
}

/// The wait doubles from one second on, and is half a minute from the sixth
/// attempt on.
pub proof fn the_wait_doubles(attempt: nat)
    ensures
        spec_restart_delay(0) == 1,
        attempt < 4 ==> spec_restart_delay(attempt + 1) == 2 * spec_restart_delay(attempt),
        attempt >= 5 ==> spec_restart_delay(attempt) == 30,
{
    vstd::arithmetic::power2::lemma2_to64();
}

/// Another second starts a count anew, so a command after it gets through
/// however many were sent before; within the second every command counts.
pub proof fn another_second_counts_anew(w: Window, now: u64)
    ensures
        elapsed(w.started, now) >= 1_000_000_000 ==> w.counted(now).sent == 1 && w.counted(
            now,
        ).started == now && !w.counted(now).warned,
        elapsed(w.started, now) < 1_000_000_000 && w.sent < u32::MAX ==> w.counted(now).sent
            == w.sent + 1 && w.counted(now).started == w.started,
        elapsed(w.started, now) < 1_000_000_000 && w.warned ==> w.counted(now).warned,
        w.counted(now).sent > 250 ==> w.counted(now).warned,
        elapsed(w.started, now) < 1_000_000_000 && !w.warned && w.sent < 250 ==> !w.counted(
            now,
        ).warned,
{
}

/// The engine is looked for where it is named first, then where the user
/// installed it, then where the system did, and in the build tree last.
pub proof fn the_engine_is_looked_for_in_order(
    named: Seq<char>,
    home: Seq<char>,
    dirs: Seq<Seq<char>>,
    dev: Seq<char>,
    i: int,
)
    requires
        0 <= i < dirs.len(),
    ensures
        ({
            let all = spec_candidates(Some(named), Some(home), dirs, Some(dev));
            &&& all.len() == dirs.len() + 3
            &&& all[0] == named
            &&& all[1] == paths::under(home, "vinilo/sidecar"@)
            &&& all[i + 2] == paths::under(dirs[i], "vinilo/sidecar"@)
            &&& all.last() == paths::under(dev, "sidecar"@)
        }),
        spec_candidates(None, Some(home), dirs, Some(dev))[0] == paths::under(
            home,
            "vinilo/sidecar"@,
        ),
        spec_candidates(None, None, dirs, None)[i] == paths::under(dirs[i], "vinilo/sidecar"@),
        spec_candidates(None, None, Seq::empty(), None).len() == 0,
{
}

/// The data directories are the parts of the variable that are not empty, and
/// the two usual ones where it is not set or empty.
pub proof fn the_data_directories_are_the_variables(a: Seq<char>, b: Seq<char>)
    requires
        a.len() > 0,
        b.len() > 0,
        forall|i: int| 0 <= i < a.len() ==> #[trigger] a[i] != ':',
        forall|i: int| 0 <= i < b.len() ==> #[trigger] b[i] != ':',
    ensures
        spec_data_dirs(Some(a)) == seq![a],
        spec_data_dirs(Some(a.push(':') + b)) == seq![a, b],
        spec_data_dirs(None) == seq!["/usr/local/share"@, "/usr/share"@],
        spec_data_dirs(Some(Seq::empty())) == spec_data_dirs(None),
{
    text::a_text_is_cut_at_its_separators(a, ':', b);
    text::a_text_is_cut_at_its_separators(b, ':', Seq::empty());
    two_stay(a, b);
    reveal_strlit("/usr/local/share:/usr/share");
    reveal_strlit("/usr/local/share");
    reveal_strlit("/usr/share");
    let x = "/usr/local/share"@;
    let y = "/usr/share"@;
    assert(x.push(':') + y =~= "/usr/local/share:/usr/share"@);
    text::a_text_is_cut_at_its_separators(x, ':', y);
    text::a_text_is_cut_at_its_separators(y, ':', Seq::empty());
    two_stay(x, y);
}

proof fn two_stay(a: Seq<char>, b: Seq<char>)
    requires
        a.len() > 0,
        b.len() > 0,
    ensures
        seq![a].filter(|p: Seq<char>| p.len() > 0) == seq![a],
        (seq![a] + seq![b]).filter(|p: Seq<char>| p.len() > 0) == seq![a, b],
{
    reveal(Seq::filter);
    reveal_with_fuel(Seq::filter, 3);
    let f = |p: Seq<char>| p.len() > 0;
    assert(seq![a].drop_last() =~= Seq::<Seq<char>>::empty());
    assert(seq![a].filter(f) =~= seq![a]);
    let both = seq![a] + seq![b];
    assert(both.drop_last() =~= seq![a]);
    assert(both.last() == b);
    assert(both.filter(f) =~= seq![a, b]);
}

/// A command gets through as it is, the first of its kind always, and so do two
/// hundred and fifty of them within a second; the next is dropped, which is
/// reported once, and no other kind is held up by it.
pub proof fn a_command_gets_through_unless_there_are_too_many(
    before: Handle,
    after: Handle,
    cmd: Command,
    now: u64,
    r: Sent,
    name: Seq<char>,
)
    requires
        after.has_sent(before, cmd, now, r),
    ensures
        r matches Sent::Deliver(c) ==> c == cmd,
        window_named(before.rate@, cmd.spec_name()) is None ==> r is Deliver,
        window_named(before.rate@, cmd.spec_name()) matches Some(w) ==> (elapsed(w.started, now)
            >= 1_000_000_000 ==> r is Deliver),
        window_named(before.rate@, cmd.spec_name()) matches Some(w) ==> (elapsed(w.started, now)
            < 1_000_000_000 && w.sent < 250 ==> r is Deliver),
        window_named(before.rate@, cmd.spec_name()) matches Some(w) ==> (elapsed(w.started, now)
            < 1_000_000_000 && w.sent == 250 && !w.warned ==> (r matches Sent::Dropped { report }
            && report)),
        window_named(before.rate@, cmd.spec_name()) matches Some(w) ==> (elapsed(w.started, now)
            < 1_000_000_000 && w.sent > 250 && w.warned ==> (r matches Sent::Dropped { report }
            && !report)),
        name != cmd.spec_name() ==> window_named(after.rate@, name) == window_named(
            before.rate@,
            name,
        ),
{
}

} // verus!

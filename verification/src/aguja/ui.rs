//! What is on the screen: lines of styled text, cell by cell.
//!
//! Colours are names here. What they look like on a given terminal, and every
//! fraction that a meter shows, is decided where the lines are painted.
use vstd::prelude::*;

use crate::ipc::{Snapshot, Stage};
use crate::player::protocol::RepeatMode;
use crate::text;

verus! {

/// What a piece of text is painted in.
#[derive(Debug, Clone, Copy, PartialEq, Eq, Structural)]
pub enum Ink {
    Plain,
    Accent,
    Bright,
    Muted,
    Dim,
    /// The accent on its way to muted.
    Fading,
    /// A cell of the spectrum: `eighths` of it filled, in row `row` of `rows`
    /// from below.
    Bar { row: usize, rows: usize, eighths: usize },
}

#[derive(Debug, Clone, Copy, PartialEq, Eq, Structural)]
pub struct Style {
    pub ink: Ink,
    pub bold: bool,
    pub reversed: bool,
}

/// A piece of text in one style.
#[derive(Debug, PartialEq, Eq)]
pub struct Span {
    pub text: String,
    pub style: Style,
}

/// What is read and seen of a line.
pub open spec fn drawn(line: Seq<Span>) -> Seq<(Seq<char>, Style)> {
    line.map_values(|s: Span| (s.text@, s.style))
}

/// What is read and seen of several lines.
pub open spec fn all_drawn(lines: Seq<Vec<Span>>) -> Seq<Seq<(Seq<char>, Style)>> {
    lines.map_values(|l: Vec<Span>| drawn(l@))
}

pub open spec fn in_ink(ink: Ink) -> Style {
    Style { ink, bold: false, reversed: false }
}

pub open spec fn in_bold(ink: Ink) -> Style {
    Style { ink, bold: true, reversed: false }
}

pub fn inked(ink: Ink) -> (r: Style)
    ensures
        r == in_ink(ink),
{
    Style { ink, bold: false, reversed: false }
}

pub fn bold(ink: Ink) -> (r: Style)
    ensures
        r == in_bold(ink),
{
    Style { ink, bold: true, reversed: false }
}

/// Put one more piece behind a line.
pub fn write_span(line: &mut Vec<Span>, t: &str, style: Style)
    ensures
        drawn(final(line)@) == drawn(old(line)@).push((t@, style)),
{
    let ghost line0 = line@;
    line.push(Span { text: t.to_owned(), style });
    assert(drawn(line@) =~= drawn(line0).push((t@, style)));
}

/// Put one more line behind the others.
pub fn add_line(lines: &mut Vec<Vec<Span>>, line: Vec<Span>)
    ensures
        all_drawn(final(lines)@) == all_drawn(old(lines)@).push(drawn(line@)),
{
    let ghost lines0 = lines@;
    let ghost l = line@;
    lines.push(line);
    assert(all_drawn(lines@) =~= all_drawn(lines0).push(drawn(l)));
}

/// How many characters a line has.
pub open spec fn line_width(line: Seq<(Seq<char>, Style)>) -> nat
    decreases line.len(),
{
    if line.len() == 0 {
        0
    } else {
        line_width(line.drop_last()) + line.last().0.len()
    }
}

/// How many characters a line has, as far as they can be counted.
pub fn width_of(line: &Vec<Span>) -> (r: usize)
    ensures
        r == if line_width(drawn(line@)) <= usize::MAX {
            line_width(drawn(line@)) as int
        } else {
            usize::MAX as int
        },
{
    let mut n: usize = 0;
    let mut i: usize = 0;
    assert(drawn(line@).take(0) =~= Seq::<(Seq<char>, Style)>::empty());
    while i < line.len()
        invariant
            i <= line@.len(),
            n == if line_width(drawn(line@).take(i as int)) <= usize::MAX {
                line_width(drawn(line@).take(i as int)) as int
            } else {
                usize::MAX as int
            },
        decreases line@.len() - i,
    {
        proof {
            text::take_step(drawn(line@), i as int);
            assert(drawn(line@).take(i + 1).drop_last() =~= drawn(line@).take(i as int));
        }
        n = n.saturating_add(line[i].text.as_str().unicode_len());
        i += 1;
    }
    assert(drawn(line@).take(i as int) =~= drawn(line@));
    n
}

/// What is left of `width` after `used`, or `least` where that is more.
pub open spec fn room(width: int, used: int, least: int) -> int {
    if width - used > least {
        width - used
    } else {
        least
    }
}

/// `t` cut to `width` characters and padded out to them. A text that is cut
/// ends in an ellipsis.
pub open spec fn fitted(t: Seq<char>, width: int) -> Seq<char> {
    if width == 0 {
        Seq::empty()
    } else if t.len() <= width {
        t + text::repeated(' ', width - t.len())
    } else {
        t.take(width - 1) + "…"@
    }
}

/// Cut `t` to `width` characters and pad it out, so that a column stays one.
pub fn fit(t: &str, width: usize) -> (r: String)
    ensures
        r@ == fitted(t@, width as int),
{
    if width == 0 {
        return String::new();
    }
    let v = text::chars(t);
    if v.len() <= width {
        let mut out = t.to_owned();
        out.append(text::repeat(' ', width - v.len()).as_str());
        out
    } else {
        let mut out = text::slice(&v, 0, width - 1);
        assert(out@ =~= t@.take(width - 1));
        out.append("…");
        out
    }
}

/// Every text takes exactly its column. One that fits is followed by spaces
/// alone; one that is cut keeps its beginning.
pub proof fn a_text_takes_its_column(t: Seq<char>, width: int)
    requires
        0 <= width,
    ensures
        fitted(t, width).len() == width,
        t.len() <= width ==> t.is_prefix_of(fitted(t, width)) && forall|i: int|
            t.len() <= i < width ==> #[trigger] fitted(t, width)[i] == ' ',
        t.len() > width > 0 ==> t.take(width - 1).is_prefix_of(fitted(t, width)),
{
    reveal_strlit("…");
    if t.len() <= width {
        assert(fitted(t, width).subrange(0, t.len() as int) =~= t);
    } else if width > 0 {
        assert(fitted(t, width).subrange(0, width - 1) =~= t.take(width - 1));
    }
}

/// `n` in two digits at least.
pub open spec fn two_digits(n: nat) -> Seq<char> {
    if n < 10 {
        "0"@ + text::decimal(n)
    } else {
        text::decimal(n)
    }
}

/// A time as minutes and seconds, with hours where there are any.
pub open spec fn spec_clock(ms: nat) -> Seq<char> {
    let total = ms / 1000;
    let h = total / 3600;
    let m = (total % 3600) / 60;
    let s = total % 60;
    if h > 0 {
        text::decimal(h) + ":"@ + two_digits(m) + ":"@ + two_digits(s)
    } else {
        text::decimal(m) + ":"@ + two_digits(s)
    }
}

fn pad2(n: u64) -> (r: String)
    ensures
        r@ == two_digits(n as nat),
{
    let mut out = if n < 10 { "0".to_owned() } else { String::new() };
    out.append(text::number(n).as_str());
    proof {
        if n >= 10 {
            assert(Seq::<char>::empty() + text::decimal(n as nat) =~= text::decimal(n as nat));
        }
    }
    out
}

/// A time as minutes and seconds, with hours where there are any.
pub fn clock(ms: u64) -> (r: String)
    ensures
        r@ == spec_clock(ms as nat),
{
    let total: u64 = ms / 1000;
    let h: u64 = total / 3600;
    let m: u64 = (total % 3600) / 60;
    let s: u64 = total % 60;
    let mut out = if h > 0 {
        let mut o = text::number(h);
        o.append(":");
        o.append(pad2(m).as_str());
        o
    } else {
        text::number(m)
    };
    out.append(":");
    out.append(pad2(s).as_str());
    out
}

/// What the client says while there is nothing to play.
pub open spec fn spec_stage_text(stage: Stage) -> Seq<char> {
    match stage {
        Stage::Connecting => "Starting the playback engine…"@,
        Stage::SignedOut => "[Enter] Sign in to Apple Music"@,
        Stage::Broken { detail } => "Playback unavailable: "@ + detail@,
        Stage::Ready => Seq::empty(),
    }
}

/// What the client says while there is nothing to play.
pub fn stage_text(stage: &Stage) -> (r: String)
    ensures
        r@ == spec_stage_text(*stage),
{
    match stage {
        Stage::Connecting => "Starting the playback engine…".to_owned(),
        Stage::SignedOut => "[Enter] Sign in to Apple Music".to_owned(),
        Stage::Broken { detail } => {
            let mut out = "Playback unavailable: ".to_owned();
            out.append(detail.as_str());
            out
        },
        Stage::Ready => String::new(),
    }
}

/// How much of the height the spectrum may take: a sixth, and from two rows to
/// six.
pub const SPECTRUM_SHARE: u16 = 6;

pub open spec fn spec_spectrum_rows(height: int) -> int {
    if height / 6 < 2 {
        2
    } else if height / 6 > 6 {
        6
    } else {
        height / 6
    }
}

/// How tall the spectrum is in a window of this height.
pub fn spectrum_rows(height: u16) -> (r: usize)
    ensures
        r == spec_spectrum_rows(height as int),
{
    let share: u16 = height / SPECTRUM_SHARE;
    if share < 2 {
        2
    } else if share > 6 {
        6
    } else {
        share as usize
    }
}

/// What the player is doing, as a sign.
pub open spec fn spec_glyph(snap: Snapshot) -> Seq<char> {
    if snap.busy {
        "◌"@
    } else if snap.playing {
        "▶"@
    } else {
        "❚❚"@
    }
}

/// What the player is doing, as a word. Loading is its own answer, not a kind
/// of paused.
pub open spec fn spec_state_word(snap: Snapshot) -> Seq<char> {
    if snap.busy {
        "Loading"@
    } else if snap.playing {
        "Playing"@
    } else {
        "Paused"@
    }
}

/// What the player is doing, as a sign.
pub fn glyph(snap: &Snapshot) -> (r: &'static str)
    ensures
        r@ == spec_glyph(*snap),
{
    if snap.busy {
        "◌"
    } else if snap.playing {
        "▶"
    } else {
        "❚❚"
    }
}

/// What the player is doing, as a word.
pub fn state_word(snap: &Snapshot) -> (r: &'static str)
    ensures
        r@ == spec_state_word(*snap),
{
    if snap.busy {
        "Loading"
    } else if snap.playing {
        "Playing"
    } else {
        "Paused"
    }
}

pub open spec fn spec_repeat_text(mode: RepeatMode) -> Seq<char> {
    match mode {
        RepeatMode::Off => "off"@,
        RepeatMode::All => "all"@,
        RepeatMode::One => "one"@,
    }
}

/// What a repeat mode is called.
pub fn repeat_text(mode: RepeatMode) -> (r: &'static str)
    ensures
        r@ == spec_repeat_text(mode),
{
    match mode {
        RepeatMode::Off => "off",
        RepeatMode::All => "all",
        RepeatMode::One => "one",
    }
}

/// The filled part of a meter.
pub fn meter(filled: usize, glyph: char) -> (r: String)
    ensures
        r@ == text::repeated(glyph, filled as int),
{
    text::repeat(glyph, filled)
}

/// The rest of a meter of `width` cells.
pub fn rest(filled: usize, width: usize, glyph: char) -> (r: String)
    requires
        filled <= width,
    ensures
        r@ == text::repeated(glyph, width - filled),
{
    text::repeat(glyph, width - filled)
}

/// A meter and its rest always fill the width.
pub proof fn a_meter_and_its_rest_fill_the_width(filled: int, width: int, on: char, off: char)
    requires
        0 <= filled <= width,
    ensures
        text::repeated(on, filled).len() + text::repeated(off, width - filled).len() == width,
{
}

/// How many cells the volume meter has: one to a step of the keys.
pub const VOL: usize = 20;

/// One line with `left` at one end and `right` at the other, and a space
/// between them at least.
pub open spec fn at_ends(
    left: Seq<(Seq<char>, Style)>,
    right: Seq<(Seq<char>, Style)>,
    width: int,
) -> Seq<(Seq<char>, Style)> {
    left.push(
        (
            text::repeated(' ', room(width, (line_width(left) + line_width(right)) as int, 1)),
            in_ink(Ink::Plain),
        ),
    ) + right
}

/// One line with `left` at one end and `right` at the other.
fn ends(left: Vec<Span>, right: Vec<Span>, width: usize) -> (r: Vec<Span>)
    ensures
        drawn(r@) == at_ends(drawn(left@), drawn(right@), width as int),
{
    let used: usize = width_of(&left).saturating_add(width_of(&right));
    let gap: usize = if width > used && width - used > 1 {
        width - used
    } else {
        1
    };
    let ghost l = drawn(left@);
    let ghost rt = drawn(right@);
    let mut out = left;
    let mut right = right;
    write_span(&mut out, text::repeat(' ', gap).as_str(), inked(Ink::Plain));
    let ghost mid = out@;
    out.append(&mut right);
    assert(drawn(out@) =~= drawn(mid) + rt);
    out
}

/// What the now-playing band says of the track, above and below the spectrum.
/// `seek` and `volume` are how many cells of the two meters are filled.
pub open spec fn spec_now_playing(
    snap: Snapshot,
    stage: Stage,
    spectrum: Seq<Seq<(Seq<char>, Style)>>,
    width: int,
    seek: int,
    volume: int,
) -> Seq<Seq<(Seq<char>, Style)>> {
    let name = seq![("CLI"@, in_bold(Ink::Accent)), ("mat"@, in_ink(Ink::Fading))];
    let blank = Seq::<(Seq<char>, Style)>::empty();
    if !(stage is Ready) {
        seq![name, seq![(spec_stage_text(stage), in_ink(Ink::Muted))]]
    } else if snap.title@.len() == 0 {
        seq![name, seq![("Nothing playing"@, in_ink(Ink::Muted))]]
    } else {
        let title = seq![
            (snap.title@, in_bold(Ink::Bright)),
            ("  —  "@, in_ink(Ink::Dim)),
            (snap.artist@, in_ink(Ink::Muted)),
        ];
        let album = seq![(snap.album@, in_ink(Ink::Dim))];
        let seek_line = seq![
            (text::repeated('━', seek), in_ink(Ink::Accent)),
            (text::repeated('─', width - seek), in_ink(Ink::Dim)),
        ];
        let state = at_ends(
            seq![
                (spec_glyph(snap), in_ink(Ink::Accent)),
                ("  "@, in_ink(Ink::Plain)),
                (spec_state_word(snap), in_ink(Ink::Muted)),
            ],
            seq![
                (
                    spec_clock(snap.position_ms as nat) + " / "@ + spec_clock(
                        snap.duration_ms as nat,
                    ),
                    in_ink(Ink::Dim),
                ),
            ],
            width,
        );
        let modes = seq![
            ("shuffle "@, in_ink(Ink::Dim)),
            (
                if snap.shuffle {
                    "on"@
                } else {
                    "off"@
                },
                in_ink(
                    if snap.shuffle {
                        Ink::Accent
                    } else {
                        Ink::Dim
                    },
                ),
            ),
            ("   repeat "@, in_ink(Ink::Dim)),
            (
                spec_repeat_text(snap.repeat),
                in_ink(
                    if snap.repeat is Off {
                        Ink::Dim
                    } else {
                        Ink::Accent
                    },
                ),
            ),
            ("   vol "@, in_ink(Ink::Dim)),
            (text::repeated('█', volume), in_ink(Ink::Accent)),
            (text::repeated('░', VOL - volume), in_ink(Ink::Dim)),
        ];
        seq![name, title, album, blank] + spectrum + seq![blank, seek_line, state, modes]
    }
}

/// The now-playing band.
#[verifier::rlimit(40)]
pub fn now_playing(
    snap: &Snapshot,
    stage: &Stage,
    spectrum: Vec<Vec<Span>>,
    width: usize,
    seek: usize,
    volume: usize,
) -> (r: Vec<Vec<Span>>)
    requires
        seek <= width,
        volume <= VOL,
    ensures
        all_drawn(r@) == spec_now_playing(
            *snap,
            *stage,
            all_drawn(spectrum@),
            width as int,
            seek as int,
            volume as int,
        ),
{
    let ghost bars = all_drawn(spectrum@);
    let mut band: Vec<Vec<Span>> = Vec::new();
    let mut name: Vec<Span> = Vec::new();
    write_span(&mut name, "CLI", bold(Ink::Accent));
    write_span(&mut name, "mat", inked(Ink::Fading));
    assert(drawn(name@) =~= seq![("CLI"@, in_bold(Ink::Accent)), ("mat"@, in_ink(Ink::Fading))]);
    add_line(&mut band, name);
    if !matches!(stage, Stage::Ready) {
        let mut line: Vec<Span> = Vec::new();
        write_span(&mut line, stage_text(stage).as_str(), inked(Ink::Muted));
        assert(drawn(line@) =~= seq![(spec_stage_text(*stage), in_ink(Ink::Muted))]);
        add_line(&mut band, line);
        assert(all_drawn(band@) =~= spec_now_playing(
            *snap,
            *stage,
            bars,
            width as int,
            seek as int,
            volume as int,
        ));
        return band;
    }
    if snap.title.as_str().is_empty() {
        let mut line: Vec<Span> = Vec::new();
        write_span(&mut line, "Nothing playing", inked(Ink::Muted));
        assert(drawn(line@) =~= seq![("Nothing playing"@, in_ink(Ink::Muted))]);
        add_line(&mut band, line);
        assert(all_drawn(band@) =~= spec_now_playing(
            *snap,
            *stage,
            bars,
            width as int,
            seek as int,
            volume as int,
        ));
        return band;
    }
    let mut title: Vec<Span> = Vec::new();
    write_span(&mut title, snap.title.as_str(), bold(Ink::Bright));
    write_span(&mut title, "  —  ", inked(Ink::Dim));
    write_span(&mut title, snap.artist.as_str(), inked(Ink::Muted));
    assert(drawn(title@) =~= seq![
        (snap.title@, in_bold(Ink::Bright)),
        ("  —  "@, in_ink(Ink::Dim)),
        (snap.artist@, in_ink(Ink::Muted)),
    ]);
    add_line(&mut band, title);
    let mut album: Vec<Span> = Vec::new();
    write_span(&mut album, snap.album.as_str(), inked(Ink::Dim));
    assert(drawn(album@) =~= seq![(snap.album@, in_ink(Ink::Dim))]);
    add_line(&mut band, album);
    let blank: Vec<Span> = Vec::new();
    assert(drawn(blank@) =~= Seq::<(Seq<char>, Style)>::empty());
    add_line(&mut band, blank);
    let ghost head = all_drawn(band@);
    let mut spectrum = spectrum;
    let ghost band0 = band@;
    let ghost bars0 = spectrum@;
    band.append(&mut spectrum);
    assert(all_drawn(band@) =~= all_drawn(band0) + bars);
    let blank: Vec<Span> = Vec::new();
    assert(drawn(blank@) =~= Seq::<(Seq<char>, Style)>::empty());
    add_line(&mut band, blank);
    let mut line: Vec<Span> = Vec::new();
    write_span(&mut line, meter(seek, '━').as_str(), inked(Ink::Accent));
    write_span(&mut line, rest(seek, width, '─').as_str(), inked(Ink::Dim));
    assert(drawn(line@) =~= seq![
        (text::repeated('━', seek as int), in_ink(Ink::Accent)),
        (text::repeated('─', width - seek), in_ink(Ink::Dim)),
    ]);
    add_line(&mut band, line);
    add_line(&mut band, state_line(snap, width));
    add_line(&mut band, modes_line(snap, volume));
    assert(all_drawn(band@) =~= spec_now_playing(
        *snap,
        *stage,
        bars,
        width as int,
        seek as int,
        volume as int,
    ));
    band
}

/// The state at one end, the clock at the other.
fn state_line(snap: &Snapshot, width: usize) -> (r: Vec<Span>)
    ensures
        drawn(r@) == at_ends(
            seq![
                (spec_glyph(*snap), in_ink(Ink::Accent)),
                ("  "@, in_ink(Ink::Plain)),
                (spec_state_word(*snap), in_ink(Ink::Muted)),
            ],
            seq![
                (
                    spec_clock(snap.position_ms as nat) + " / "@ + spec_clock(
                        snap.duration_ms as nat,
                    ),
                    in_ink(Ink::Dim),
                ),
            ],
            width as int,
        ),
{
    let mut left: Vec<Span> = Vec::new();
    write_span(&mut left, glyph(snap), inked(Ink::Accent));
    write_span(&mut left, "  ", inked(Ink::Plain));
    write_span(&mut left, state_word(snap), inked(Ink::Muted));
    assert(drawn(left@) =~= seq![
        (spec_glyph(*snap), in_ink(Ink::Accent)),
        ("  "@, in_ink(Ink::Plain)),
        (spec_state_word(*snap), in_ink(Ink::Muted)),
    ]);
    let mut times = clock(snap.position_ms);
    times.append(" / ");
    times.append(clock(snap.duration_ms).as_str());
    let mut right: Vec<Span> = Vec::new();
    write_span(&mut right, times.as_str(), inked(Ink::Dim));
    assert(drawn(right@) =~= seq![
        (
            spec_clock(snap.position_ms as nat) + " / "@ + spec_clock(snap.duration_ms as nat),
            in_ink(Ink::Dim),
        ),
    ]);
    ends(left, right, width)
}

/// Shuffle, repeat and the volume.
fn modes_line(snap: &Snapshot, volume: usize) -> (r: Vec<Span>)
    requires
        volume <= VOL,
    ensures
        drawn(r@) == seq![
            ("shuffle "@, in_ink(Ink::Dim)),
            (
                if snap.shuffle {
                    "on"@
                } else {
                    "off"@
                },
                in_ink(
                    if snap.shuffle {
                        Ink::Accent
                    } else {
                        Ink::Dim
                    },
                ),
            ),
            ("   repeat "@, in_ink(Ink::Dim)),
            (
                spec_repeat_text(snap.repeat),
                in_ink(
                    if snap.repeat is Off {
                        Ink::Dim
                    } else {
                        Ink::Accent
                    },
                ),
            ),
            ("   vol "@, in_ink(Ink::Dim)),
            (text::repeated('█', volume as int), in_ink(Ink::Accent)),
            (text::repeated('░', VOL - volume), in_ink(Ink::Dim)),
        ],
{
    let mut line: Vec<Span> = Vec::new();
    write_span(&mut line, "shuffle ", inked(Ink::Dim));
    if snap.shuffle {
        write_span(&mut line, "on", inked(Ink::Accent));
    } else {
        write_span(&mut line, "off", inked(Ink::Dim));
    }
    write_span(&mut line, "   repeat ", inked(Ink::Dim));
    let on = !matches!(snap.repeat, RepeatMode::Off);
    write_span(
        &mut line,
        repeat_text(snap.repeat),
        inked(
            if on {
                Ink::Accent
            } else {
                Ink::Dim
            },
        ),
    );
    write_span(&mut line, "   vol ", inked(Ink::Dim));
    write_span(&mut line, meter(volume, '█').as_str(), inked(Ink::Accent));
    write_span(&mut line, rest(volume, VOL, '░').as_str(), inked(Ink::Dim));
    line
}

/// Which part of the analysed bands a column of the screen shows.
pub open spec fn column_bounds(c: int, bands: int, width: int) -> (int, int) {
    let from = c * bands / width;
    let to = (c + 1) * bands / width;
    let to = if to > from {
        to
    } else {
        from + 1
    };
    (
        from,
        if to < bands {
            to
        } else {
            bands
        },
    )
}

/// Whether a level, given by its bits, is a number above zero. Those order as
/// their bits do.
pub open spec fn sounds(level: u32) -> bool {
    0 < level <= 0x7F80_0000
}

/// The loudest of some levels, given by their bits; silence where none sounds.
pub open spec fn loudest(levels: Seq<u32>) -> u32
    decreases levels.len(),
{
    if levels.len() == 0 {
        0
    } else {
        let before = loudest(levels.drop_last());
        if sounds(levels.last()) && levels.last() > before {
            levels.last()
        } else {
            before
        }
    }
}

/// The loudest of some levels is one of them, and no level that sounds is
/// louder; where none sounds it is silence.
pub proof fn the_peak_survives(levels: Seq<u32>)
    ensures
        forall|i: int| 0 <= i < levels.len() && sounds(levels[i]) ==> levels[i] <= loudest(levels),
        loudest(levels) == 0 || (sounds(loudest(levels)) && levels.contains(loudest(levels))),
    decreases levels.len(),
{
    if levels.len() > 0 {
        let rest = levels.drop_last();
        the_peak_survives(rest);
        assert forall|i: int| 0 <= i < levels.len() && sounds(levels[i]) implies levels[i]
            <= loudest(levels) by {
            if i < levels.len() - 1 {
                assert(rest[i] == levels[i]);
            }
        }
        if loudest(levels) == levels.last() {
            assert(levels[levels.len() - 1] == loudest(levels));
        } else if loudest(rest) != 0 {
            let k = choose|k: int| 0 <= k < rest.len() && rest[k] == loudest(rest);
            assert(levels[k] == loudest(levels));
        }
    }
}

/// Whether column `c` shows the peak of its part of the bands, which is never
/// nothing.
pub open spec fn shows_peak(levels: Seq<u32>, width: int, c: int, peak: u32) -> bool {
    let (from, to) = column_bounds(c, levels.len() as int, width);
    &&& 0 <= from < to <= levels.len()
    &&& peak == loudest(levels.subrange(from, to))
}

/// Fold the analysed bands into the columns on screen: each shows the peak of
/// its part, for an average would flatten every spectrum into one hump. Levels
/// are given by their bits; one that is no number above zero is silence.
pub fn columns(levels: &Vec<u32>, width: usize) -> (r: Vec<u32>)
    requires
        width * levels@.len() <= usize::MAX,
        levels@.len() < usize::MAX,
    ensures
        if width == 0 || levels@.len() == 0 {
            r@.len() == 0
        } else {
            &&& r@.len() == width
            &&& forall|c: int|
                0 <= c < width ==> shows_peak(levels@, width as int, c, #[trigger] r@[c])
        },
{
    let mut out: Vec<u32> = Vec::new();
    if width == 0 || levels.len() == 0 {
        return out;
    }
    let n: usize = levels.len();
    let mut c: usize = 0;
    while c < width
        invariant
            c <= width,
            0 < width,
            n == levels@.len(),
            0 < n < usize::MAX,
            width * n <= usize::MAX,
            out@.len() == c,
            forall|k: int|
                0 <= k < c ==> shows_peak(levels@, width as int, k, #[trigger] out@[k]),
        decreases width - c,
    {
        proof {
            assert(c * n <= width * n) by (nonlinear_arith)
                requires
                    c <= width,
            ;
            assert((c + 1) * n <= width * n) by (nonlinear_arith)
                requires
                    c + 1 <= width,
            ;
            assert(0 <= c * n / (width as int) < n) by (nonlinear_arith)
                requires
                    0 <= c < width,
                    0 < n,
            ;
            assert((c + 1) * n / (width as int) <= n) by (nonlinear_arith)
                requires
                    0 < c + 1 <= width,
                    0 < n,
            ;
            assert(c * n / (width as int) <= (c + 1) * n / (width as int)) by (nonlinear_arith)
                requires
                    0 <= c,
                    0 < width,
                    0 < n,
            ;
        }
        let from: usize = c * n / width;
        let far: usize = (c + 1) * n / width;
        let to: usize = if far > from {
            far
        } else {
            from + 1
        };
        let mut peak: u32 = 0;
        let mut i: usize = from;
        assert(levels@.subrange(from as int, from as int) =~= Seq::<u32>::empty());
        while i < to
            invariant
                from <= i <= to <= n == levels@.len(),
                peak == loudest(levels@.subrange(from as int, i as int)),
            decreases to - i,
        {
            proof {
                let s = levels@.subrange(from as int, i + 1);
                assert(s.drop_last() =~= levels@.subrange(from as int, i as int));
                assert(s.last() == levels@[i as int]);
            }
            if levels[i] > peak && levels[i] <= 0x7F80_0000 {
                peak = levels[i];
            }
            i += 1;
        }
        assert(column_bounds(c as int, n as int, width as int) == (from as int, to as int));
        assert(shows_peak(levels@, width as int, c as int, peak));
        out.push(peak);
        c += 1;
    }
    out
}

/// Whether anything is heard in a frame.
pub fn any_sound(levels: &Vec<u32>) -> (r: bool)
    ensures
        r == exists|i: int| 0 <= i < levels@.len() && sounds(#[trigger] levels@[i]),
{
    let mut i: usize = 0;
    while i < levels.len()
        invariant
            i <= levels@.len(),
            forall|j: int| 0 <= j < i ==> !sounds(#[trigger] levels@[j]),
        decreases levels@.len() - i,
    {
        if levels[i] > 0 && levels[i] <= 0x7F80_0000 {
            return true;
        }
        i += 1;
    }
    false
}

/// How many eighths of a cell are filled in row `row` from below by a bar of
/// `height` eighths.
pub open spec fn eighths_in(height: int, row: int) -> int {
    let over = if height > row * 8 {
        height - row * 8
    } else {
        0
    };
    if over < 8 {
        over
    } else {
        8
    }
}

/// The sign for a cell with `eighths` filled. An empty one is a space, not a
/// stub.
pub open spec fn step_sign(eighths: int) -> Seq<char> {
    if eighths <= 0 {
        " "@
    } else if eighths == 1 {
        "▁"@
    } else if eighths == 2 {
        "▂"@
    } else if eighths == 3 {
        "▃"@
    } else if eighths == 4 {
        "▄"@
    } else if eighths == 5 {
        "▅"@
    } else if eighths == 6 {
        "▆"@
    } else if eighths == 7 {
        "▇"@
    } else {
        "█"@
    }
}

fn sign(eighths: usize) -> (r: &'static str)
    ensures
        r@ == step_sign(eighths as int),
{
    match eighths {
        0 => " ",
        1 => "▁",
        2 => "▂",
        3 => "▃",
        4 => "▄",
        5 => "▅",
        6 => "▆",
        7 => "▇",
        _ => "█",
    }
}

/// A cell of the spectrum.
pub open spec fn cell(height: int, row: int, rows: int) -> (Seq<char>, Style) {
    let e = eighths_in(height, row);
    (
        step_sign(e),
        in_ink(
            if e == 0 {
                Ink::Plain
            } else {
                Ink::Bar { row: row as usize, rows: rows as usize, eighths: e as usize }
            },
        ),
    )
}

/// The bars of the spectrum, `rows` tall, top row first: one column to each
/// height, which is in eighths of a cell.
pub fn bars(heights: &Vec<usize>, rows: usize) -> (r: Vec<Vec<Span>>)
    requires
        rows * 8 <= usize::MAX,
    ensures
        r@.len() == rows,
        forall|i: int|
            0 <= i < rows ==> (#[trigger] r@[i])@.len() == heights@.len() && forall|c: int|
                0 <= c < heights@.len() ==> #[trigger] drawn(r@[i]@)[c] == cell(
                    heights@[c] as int,
                    rows - 1 - i,
                    rows as int,
                ),
{
    let mut out: Vec<Vec<Span>> = Vec::new();
    let mut i: usize = 0;
    while i < rows
        invariant
            i <= rows,
            rows * 8 <= usize::MAX,
            out@.len() == i,
            forall|k: int|
                0 <= k < i ==> (#[trigger] out@[k])@.len() == heights@.len() && forall|c: int|
                    0 <= c < heights@.len() ==> #[trigger] drawn(out@[k]@)[c] == cell(
                        heights@[c] as int,
                        rows - 1 - k,
                        rows as int,
                    ),
        decreases rows - i,
    {
        let row: usize = rows - 1 - i;
        let floor: usize = row * 8;
        let mut line: Vec<Span> = Vec::new();
        let mut c: usize = 0;
        while c < heights.len()
            invariant
                c <= heights@.len(),
                line@.len() == c,
                row < rows,
                floor == row * 8,
                forall|k: int|
                    0 <= k < c ==> #[trigger] drawn(line@)[k] == cell(
                        heights@[k] as int,
                        row as int,
                        rows as int,
                    ),
            decreases heights@.len() - c,
        {
            let over: usize = heights[c].saturating_sub(floor);
            let e: usize = if over < 8 {
                over
            } else {
                8
            };
            let style = if e == 0 {
                inked(Ink::Plain)
            } else {
                inked(Ink::Bar { row, rows, eighths: e })
            };
            let ghost line0 = line@;
            write_span(&mut line, sign(e), style);
            proof {
                assert(drawn(line@).len() == line@.len());
                assert forall|k: int| 0 <= k < c + 1 implies #[trigger] drawn(line@)[k] == cell(
                    heights@[k] as int,
                    row as int,
                    rows as int,
                ) by {
                    if k < c {
                        assert(drawn(line@)[k] == drawn(line0)[k]);
                    }
                }
            }
            c += 1;
        }
        out.push(line);
        i += 1;
    }
    out
}

/// A full bar fills every row, and silence none.
pub proof fn a_full_bar_fills_every_row(rows: int, row: int)
    requires
        0 <= row < rows,
    ensures
        eighths_in(rows * 8, row) == 8,
        eighths_in(0, row) == 0,
{
}

/// A time is said in minutes and seconds, the seconds in two digits, and in
/// hours where there are any: what is said adds up to the time.
pub proof fn a_clock_says_the_time(h: nat, m: nat, s: nat, rest: nat)
    requires
        m < 60,
        s < 60,
        rest < 1000,
    ensures
        spec_clock((m * 60 + s) * 1000 + rest) == text::decimal(m) + ":"@ + two_digits(s),
        h > 0 ==> spec_clock((h * 3600 + m * 60 + s) * 1000 + rest) == text::decimal(h) + ":"@
            + two_digits(m) + ":"@ + two_digits(s),
        s < 10 ==> two_digits(s) == "0"@ + text::decimal(s),
        s >= 10 ==> two_digits(s) == text::decimal(s),
{
    let a = (m * 60 + s) * 1000 + rest;
    assert(a / 1000 == m * 60 + s);
    let b = (h * 3600 + m * 60 + s) * 1000 + rest;
    assert(b / 1000 == h * 3600 + m * 60 + s);
    assert((h * 3600 + m * 60 + s) / 3600 == h);
    assert((h * 3600 + m * 60 + s) % 3600 == m * 60 + s);
    assert((h * 3600 + m * 60 + s) % 60 == s);
}

/// What is said of the player is loading before anything else, then playing,
/// then paused; the sign says the same as the word.
pub proof fn the_sign_says_what_the_word_says(snap: Snapshot)
    ensures
        snap.busy ==> spec_state_word(snap) == "Loading"@ && spec_glyph(snap) == "◌"@,
        !snap.busy && snap.playing ==> spec_state_word(snap) == "Playing"@ && spec_glyph(snap)
            == "▶"@,
        !snap.busy && !snap.playing ==> spec_state_word(snap) == "Paused"@ && spec_glyph(snap)
            == "❚❚"@,
{
}

/// The spectrum is a sixth of the window, but two rows at least and six at most.
pub proof fn the_spectrum_is_a_sixth_of_the_window(height: int)
    requires
        0 <= height,
    ensures
        2 <= spec_spectrum_rows(height) <= 6,
        12 <= height < 42 ==> spec_spectrum_rows(height) == height / 6,
{
}

/// The now-playing band says the song, its artist and its album, how far it is,
/// and the modes; without a song it says that nothing plays, and before the
/// player is ready why not.
pub proof fn the_band_says_what_plays(
    snap: Snapshot,
    stage: Stage,
    spectrum: Seq<Seq<(Seq<char>, Style)>>,
    width: int,
    seek: int,
    volume: int,
)
    ensures
        ({
            let band = spec_now_playing(snap, stage, spectrum, width, seek, volume);
            let n = spectrum.len() as int;
            &&& stage is Ready && snap.title@.len() > 0 ==> {
                &&& band[1][0].0 == snap.title@
                &&& band[1][2].0 == snap.artist@
                &&& band[2][0].0 == snap.album@
                &&& band.len() == spectrum.len() + 8
                &&& band[n + 5][0].0 == text::repeated('━', seek)
                &&& band[n + 5][1].0 == text::repeated('─', width - seek)
                &&& band[n + 6].last().0 == spec_clock(snap.position_ms as nat)
                    + " / "@ + spec_clock(snap.duration_ms as nat)
                &&& band[n + 7][1].0 == if snap.shuffle {
                    "on"@
                } else {
                    "off"@
                }
                &&& band[n + 7][3].0 == spec_repeat_text(snap.repeat)
                &&& band[n + 7][5].0 == text::repeated('█', volume)
            }
            &&& stage is Ready && snap.title@.len() == 0 ==> band[1][0].0 == "Nothing playing"@
            &&& stage is SignedOut ==> band[1][0].0 == "[Enter] Sign in to Apple Music"@
            &&& stage is Connecting ==> band[1][0].0 == "Starting the playback engine…"@
        }),
{
}

/// A taller bar fills a cell no less, and a bar fills as many eighths in all its
/// rows as it is high.
pub proof fn a_bar_is_as_high_as_it_is(height: int, row: int)
    requires
        0 <= height,
        0 <= row,
    ensures
        0 <= eighths_in(height, row) <= 8,
        eighths_in(height, row) <= eighths_in(height + 1, row),
        8 * row <= height <= 8 * row + 8 ==> eighths_in(height, row) == height - 8 * row,
        height <= 8 * row ==> eighths_in(height, row) == 0,
        height >= 8 * row + 8 ==> eighths_in(height, row) == 8,
{
}

/// The columns cover the bands: the first begins with the first band, the last
/// ends with the last, and each begins where the one before ended or shares its
/// band.
pub proof fn the_columns_cover_the_bands(c: int, bands: int, width: int)
    requires
        0 < bands,
        0 <= c < width,
    ensures
        column_bounds(0, bands, width).0 == 0,
        column_bounds(width - 1, bands, width).1 == bands,
        bands >= width ==> column_bounds(c, bands, width).1 == column_bounds(
            c + 1,
            bands,
            width,
        ).0,
{
    assert(0 * bands / width == 0) by (nonlinear_arith)
        requires
            width > 0,
    ;
    assert((width - 1 + 1) * bands / width == bands) by (nonlinear_arith)
        requires
            width > 0,
    ;
    assert((width - 1) * bands / width < bands) by (nonlinear_arith)
        requires
            width > 0,
            bands > 0,
    ;
    if bands >= width {
        assert((c + 1) * bands / width >= c * bands / width + 1) by (nonlinear_arith)
            requires
                width > 0,
                bands >= width,
                c >= 0,
        ;
        assert((c + 1) * bands / width <= bands) by (nonlinear_arith)
            requires
                width > 0,
                bands > 0,
                c + 1 <= width,
        ;
    }
}

/// A cell that nothing reaches is blank, one that is filled is full, and one in
/// between is neither.
pub proof fn a_cell_shows_how_full_it_is(height: int, row: int, rows: int)
    requires
        0 <= height,
        0 <= row < rows,
    ensures
        height <= 8 * row ==> cell(height, row, rows).0 == " "@ && cell(height, row, rows).1.ink
            is Plain,
        height >= 8 * row + 8 ==> cell(height, row, rows).0 == "█"@,
        height == 8 * row + 4 ==> cell(height, row, rows).0 == "▄"@,
        height > 8 * row ==> cell(height, row, rows).1.ink is Bar,
{
}

} // verus!

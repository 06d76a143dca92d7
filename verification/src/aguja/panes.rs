//! The panes: the tab strip, the search box, the lists, and the row of hints.
use vstd::prelude::*;

use super::app::Pane;
use super::browser::{section_name, spec_section_name, Browser, Showing};
use super::queue::Queue;
use super::ui::{
    add_line,
    all_drawn,
    bold,
    clock,
    drawn,
    fit,
    fitted,
    in_bold,
    in_ink,
    inked,
    line_width,
    room,
    spec_clock,
    spec_spectrum_rows,
    spectrum_rows,
    width_of,
    write_span,
    Ink,
    Span,
    Style,
};
use crate::entry::Entry;
use crate::i18n::Language;
use crate::ipc::{QueueItem, Section};
use crate::text;

verus! {

/// A tab: its name, loud where it is on and in small letters where it is not.
pub open spec fn spec_tab(name: Seq<char>, on: bool) -> (Seq<char>, Style) {
    if on {
        (name, in_bold(Ink::Accent))
    } else {
        (text::ascii_lower(name), in_ink(Ink::Dim))
    }
}

fn tab(line: &mut Vec<Span>, name: &str, on: bool)
    ensures
        drawn(final(line)@) == drawn(old(line)@).push(spec_tab(name@, on)),
{
    if on {
        write_span(line, name, bold(Ink::Accent));
    } else {
        write_span(line, text::to_ascii_lower(name).as_str(), inked(Ink::Dim));
    }
}

/// The gap between two tabs.
pub open spec fn gap() -> (Seq<char>, Style) {
    ("   "@, in_ink(Ink::Plain))
}

/// The tabs: the four sections, the catalogue and the queue.
pub open spec fn tabs(b: Browser, in_queue: bool) -> Seq<(Seq<char>, Style)> {
    let catalog = b.showing is Catalog;
    let on = |s: Section| !in_queue && !catalog && s == b.view;
    seq![
        spec_tab(spec_section_name(Section::Songs), on(Section::Songs)),
        gap(),
        spec_tab(spec_section_name(Section::Albums), on(Section::Albums)),
        gap(),
        spec_tab(spec_section_name(Section::Artists), on(Section::Artists)),
        gap(),
        spec_tab(spec_section_name(Section::Playlists), on(Section::Playlists)),
        gap(),
        spec_tab("APPLE MUSIC"@, !in_queue && catalog),
        gap(),
        spec_tab("QUEUE"@, in_queue),
    ]
}

/// What a tab says about its list: how many are queued, what the catalogue was
/// asked for, or what the section is ordered by and which way it runs.
pub open spec fn tail(b: Browser, queue: Option<usize>, language: Language) -> Seq<char> {
    match queue {
        Some(n) => "["@ + text::decimal(n as nat) + "]"@,
        None => if b.showing is Catalog {
            "["@ + b.kinds.spec_label() + "]"@
        } else {
            let (by, turned) = b.spec_sort();
            "["@ + (if turned != by.spec_descends() {
                "↑ "@
            } else {
                "↓ "@
            }) + text::lowercase(by.spec_label(language)) + "]"@
        },
    }
}

/// The line above the list: the name of the page that is open, else the tabs
/// and, at the far end of a rule, what the list is.
pub open spec fn spec_header(
    b: Browser,
    queue: Option<usize>,
    width: int,
    language: Language,
) -> Seq<(Seq<char>, Style)> {
    match b.showing {
        Showing::Page { title, subtitle, loading } => {
            let name = seq![(text::uppercase(title@), in_bold(Ink::Muted))];
            let sub = if subtitle@.len() > 0 {
                seq![("   "@ + subtitle@, in_ink(Ink::Dim))]
            } else {
                Seq::empty()
            };
            let load = if loading {
                seq![("   opening…"@, in_ink(Ink::Dim))]
            } else {
                Seq::empty()
            };
            name + sub + load
        },
        _ => {
            let left = tabs(b, queue is Some);
            let right = tail(b, queue, language);
            let rule = room(width, (line_width(left) + right.len() + 2) as int, 1);
            left.push((" "@ + text::repeated('─', rule) + " "@, in_ink(Ink::Dim))).push(
                (right, in_ink(Ink::Muted)),
            )
        },
    }
}

/// What a tab says about its list.
fn tail_text(b: &Browser, queue: Option<usize>, language: Language) -> (r: String)
    ensures
        r@ == tail(*b, queue, language),
{
    let mut out = "[".to_owned();
    match queue {
        Some(n) => out.append(text::number(n as u64).as_str()),
        None => if b.showing.is_catalog() {
            out.append(b.kinds.label());
        } else {
            let (by, turned) = b.sort();
            out.append(
                if turned != by.descends_by_default() {
                    "↑ "
                } else {
                    "↓ "
                },
            );
            out.append(text::lower(by.label(language)).as_str());
        },
    }
    out.append("]");
    out
}

/// `width - used`, and one at least.
fn rule_of(width: usize, used: usize) -> (r: usize)
    ensures
        r == room(width as int, used as int, 1),
{
    if width > used && width - used > 1 {
        width - used
    } else {
        1
    }
}

/// The line above the list.
pub fn header(b: &Browser, queue: Option<usize>, width: usize, language: Language) -> (r: Vec<Span>)
    ensures
        drawn(r@) == spec_header(*b, queue, width as int, language),
{
    let mut line: Vec<Span> = Vec::new();
    if let Showing::Page { title, subtitle, loading } = &b.showing {
        write_span(&mut line, text::upper(title.as_str()).as_str(), bold(Ink::Muted));
        if !subtitle.as_str().is_empty() {
            let mut s = "   ".to_owned();
            s.append(subtitle.as_str());
            write_span(&mut line, s.as_str(), inked(Ink::Dim));
        }
        if *loading {
            write_span(&mut line, "   opening…", inked(Ink::Dim));
        }
        assert(drawn(line@) =~= spec_header(*b, queue, width as int, language));
        return line;
    }
    let in_queue = queue.is_some();
    let catalog = b.showing.is_catalog();
    let plain = inked(Ink::Plain);
    tab(
        &mut line,
        section_name(Section::Songs),
        !in_queue && !catalog && b.view == Section::Songs,
    );
    write_span(&mut line, "   ", plain);
    tab(
        &mut line,
        section_name(Section::Albums),
        !in_queue && !catalog && b.view == Section::Albums,
    );
    write_span(&mut line, "   ", plain);
    tab(
        &mut line,
        section_name(Section::Artists),
        !in_queue && !catalog && b.view == Section::Artists,
    );
    write_span(&mut line, "   ", plain);
    tab(
        &mut line,
        section_name(Section::Playlists),
        !in_queue && !catalog && b.view == Section::Playlists,
    );
    write_span(&mut line, "   ", plain);
    tab(&mut line, "APPLE MUSIC", !in_queue && catalog);
    write_span(&mut line, "   ", plain);
    tab(&mut line, "QUEUE", in_queue);
    assert(drawn(line@) =~= tabs(*b, in_queue));
    let right = tail_text(b, queue, language);
    let used: usize = width_of(&line).saturating_add(right.as_str().unicode_len()).saturating_add(2);
    let mut rule = " ".to_owned();
    rule.append(text::repeat('─', rule_of(width, used)).as_str());
    rule.append(" ");
    write_span(&mut line, rule.as_str(), inked(Ink::Dim));
    write_span(&mut line, right.as_str(), inked(Ink::Muted));
    line
}

/// How many rows the search box takes: none where it is not shown.
pub fn search_height(b: &Browser) -> (r: u16)
    ensures
        r == if b.typing || b.spec_filter().len() > 0 {
            3int
        } else {
            0
        },
{
    if b.typing || !b.filter().is_empty() {
        3
    } else {
        0
    }
}

pub open spec fn box_label(b: Browser) -> Seq<char> {
    if b.showing is Catalog {
        " search Apple Music "@
    } else {
        " filter the library "@
    }
}

/// `a - b`, or nothing.
pub open spec fn minus(a: int, b: int) -> int {
    if a > b {
        a - b
    } else {
        0
    }
}

/// The search box: a border that says what typing will do, and the text with
/// the caret behind it.
pub open spec fn spec_search_box(b: Browser, width: int) -> Seq<Seq<(Seq<char>, Style)>> {
    let label = box_label(b);
    let inner = minus(width, 2);
    let space = minus(width, 4);
    let typed = if b.spec_filter().len() > space {
        b.spec_filter().take(space)
    } else {
        b.spec_filter()
    };
    seq![
        seq![
            (
                "┌"@ + text::repeated(
                    '─',
                    if inner < 2 {
                        inner
                    } else {
                        2
                    },
                ),
                in_ink(Ink::Dim),
            ),
            (label, in_ink(Ink::Muted)),
            (
                text::repeated('─', minus(inner, (2 + label.len()) as int)) + "┐"@,
                in_ink(Ink::Dim),
            ),
        ],
        seq![
            ("│ "@, in_ink(Ink::Dim)),
            (typed, in_ink(Ink::Bright)),
            (
                if b.typing {
                    "▌"@
                } else {
                    " "@
                },
                in_ink(Ink::Accent),
            ),
            (text::repeated(' ', space - typed.len()), in_ink(Ink::Plain)),
            ("│"@, in_ink(Ink::Dim)),
        ],
        seq![("└"@ + text::repeated('─', inner) + "┘"@, in_ink(Ink::Dim))],
    ]
}

/// The search box.
pub fn search_box(b: &Browser, width: usize) -> (r: Vec<Vec<Span>>)
    ensures
        all_drawn(r@) == spec_search_box(*b, width as int),
{
    let label = if b.showing.is_catalog() {
        " search Apple Music "
    } else {
        " filter the library "
    };
    let inner: usize = width.saturating_sub(2);
    let lead: usize = if inner < 2 {
        inner
    } else {
        2
    };
    let rule: usize = inner.saturating_sub(2).saturating_sub(label.unicode_len());
    let mut lines: Vec<Vec<Span>> = Vec::new();

    let mut top: Vec<Span> = Vec::new();
    let mut corner = "┌".to_owned();
    corner.append(text::repeat('─', lead).as_str());
    write_span(&mut top, corner.as_str(), inked(Ink::Dim));
    write_span(&mut top, label, inked(Ink::Muted));
    let mut end = text::repeat('─', rule);
    end.append("┐");
    write_span(&mut top, end.as_str(), inked(Ink::Dim));

    let space: usize = width.saturating_sub(4);
    let v = text::chars(b.filter());
    let n: usize = if v.len() > space {
        space
    } else {
        v.len()
    };
    let typed = text::slice(&v, 0, n);
    assert(typed@ =~= if b.spec_filter().len() > space {
        b.spec_filter().take(space as int)
    } else {
        b.spec_filter()
    });
    let mut middle: Vec<Span> = Vec::new();
    write_span(&mut middle, "│ ", inked(Ink::Dim));
    write_span(&mut middle, typed.as_str(), inked(Ink::Bright));
    write_span(
        &mut middle,
        if b.typing {
            "▌"
        } else {
            " "
        },
        inked(Ink::Accent),
    );
    write_span(&mut middle, text::repeat(' ', space - n).as_str(), inked(Ink::Plain));
    write_span(&mut middle, "│", inked(Ink::Dim));

    let mut bottom: Vec<Span> = Vec::new();
    let mut floor = "└".to_owned();
    floor.append(text::repeat('─', inner).as_str());
    floor.append("┘");
    write_span(&mut bottom, floor.as_str(), inked(Ink::Dim));

    proof {
        let want = spec_search_box(*b, width as int);
        assert(drawn(top@) =~= want[0]);
        assert(drawn(middle@) =~= want[1]);
        assert(drawn(bottom@) =~= want[2]);
    }
    add_line(&mut lines, top);
    add_line(&mut lines, middle);
    add_line(&mut lines, bottom);
    assert(all_drawn(lines@) =~= spec_search_box(*b, width as int));
    lines
}

/// What an empty pane says. An empty catalogue that was asked nothing invites a
/// question; one that was asked says that nothing matches.
pub open spec fn spec_empty_text(b: Browser) -> Seq<char> {
    match b.showing {
        Showing::Page { loading: true, .. } => "Opening…"@,
        Showing::Catalog { searching: true } => "Searching Apple Music…"@,
        Showing::Catalog { .. } => if b.spec_filter().len() == 0 {
            "Press / to search Apple Music"@
        } else {
            "Nothing on Apple Music matches"@
        },
        _ => if b.spec_filter().len() > 0 {
            "Nothing matches"@
        } else {
            "Nothing here"@
        },
    }
}

/// What an empty pane says.
pub fn empty_text(b: &Browser) -> (r: &'static str)
    ensures
        r@ == spec_empty_text(*b),
{
    match &b.showing {
        Showing::Page { loading: true, .. } => "Opening…",
        Showing::Catalog { searching: true } => "Searching Apple Music…",
        Showing::Catalog { .. } => if b.filter().is_empty() {
            "Press / to search Apple Music"
        } else {
            "Nothing on Apple Music matches"
        },
        _ => if b.filter().is_empty() {
            "Nothing here"
        } else {
            "Nothing matches"
        },
    }
}

/// `ink`, turned round where a row is selected.
pub open spec fn row_style(ink: Ink, selected: bool) -> Style {
    Style { ink, bold: false, reversed: selected }
}

/// A row of the browser: a mark where it leads somewhere, its title, and where
/// there is width for it its second line.
pub open spec fn spec_row(e: Entry, selected: bool, width: int) -> Seq<(Seq<char>, Style)> {
    let opens = !(e is Song);
    let sub = if width > 40 {
        width / 3
    } else {
        0
    };
    // The mark is as wide as its bytes here: four, or two for the blank one.
    let mark: int = if opens {
        4
    } else {
        2
    };
    let quiet = row_style(Ink::Muted, selected);
    let first = seq![
        (
            if opens {
                "▸ "@
            } else {
                "  "@
            },
            quiet,
        ),
        (fitted(e.spec_title(), minus(width, mark + sub + 1)), row_style(Ink::Bright, selected)),
    ];
    if sub > 0 {
        first.push((fitted(e.spec_subtitle(), sub), quiet))
    } else {
        first
    }
}

/// A row of the browser.
pub fn row(e: &Entry, selected: bool, width: usize) -> (r: Vec<Span>)
    ensures
        drawn(r@) == spec_row(*e, selected, width as int),
{
    let opens = e.opens_a_page();
    let sub: usize = if width > 40 {
        width / 3
    } else {
        0
    };
    let mark: usize = if opens {
        4
    } else {
        2
    };
    let quiet = Style { ink: Ink::Muted, bold: false, reversed: selected };
    let mut line: Vec<Span> = Vec::new();
    write_span(
        &mut line,
        if opens {
            "▸ "
        } else {
            "  "
        },
        quiet,
    );
    let space: usize = width.saturating_sub(mark + sub + 1);
    write_span(
        &mut line,
        fit(e.title(), space).as_str(),
        Style { ink: Ink::Bright, bold: false, reversed: selected },
    );
    if sub > 0 {
        write_span(&mut line, fit(e.subtitle().as_str(), sub).as_str(), quiet);
    }
    assert(drawn(line@) =~= spec_row(*e, selected, width as int));
    line
}

/// How many of `len` rows are seen from `offset` on in `height` rows.
pub open spec fn seen(len: int, offset: int, height: int) -> int {
    if offset >= len {
        0
    } else if len - offset < height {
        len - offset
    } else {
        height
    }
}

/// The rows of the browser that are seen, scrolled so that the cursor is among
/// them; where there are none, what an empty pane says.
pub fn render(b: &mut Browser, width: usize, height: usize) -> (r: Vec<Vec<Span>>)
    ensures
        if old(b).rows@.len() == 0 {
            &&& *final(b) == *old(b)
            &&& all_drawn(r@) == seq![seq![(spec_empty_text(*old(b)), in_ink(Ink::Dim))]]
        } else {
            &&& *final(b) == (Browser {
                offset: super::queue::scrolled(
                    old(b).offset as int,
                    old(b).cursor as int,
                    old(b).rows@.len() as int,
                    height as int,
                ) as usize,
                ..*old(b)
            })
            &&& r@.len() == seen(old(b).rows@.len() as int, final(b).offset as int, height as int)
            &&& forall|i: int|
                0 <= i < r@.len() ==> drawn((#[trigger] r@[i])@) == spec_row(
                    old(b).rows@[final(b).offset + i],
                    final(b).offset + i == old(b).cursor,
                    width as int,
                )
        },
{
    let mut lines: Vec<Vec<Span>> = Vec::new();
    if b.rows.is_empty() {
        let mut line: Vec<Span> = Vec::new();
        write_span(&mut line, empty_text(b), inked(Ink::Dim));
        assert(drawn(line@) =~= seq![(spec_empty_text(*b), in_ink(Ink::Dim))]);
        add_line(&mut lines, line);
        assert(all_drawn(lines@) =~= seq![seq![(spec_empty_text(*b), in_ink(Ink::Dim))]]);
        return lines;
    }
    b.scroll(height);
    let mut i: usize = b.offset;
    let mut n: usize = 0;
    while n < height && i < b.rows.len()
        invariant
            i == b.offset + n,
            n <= height,
            n == 0 || i <= b.rows@.len(),
            lines@.len() == n,
            forall|k: int|
                0 <= k < n ==> drawn((#[trigger] lines@[k])@) == spec_row(
                    b.rows@[b.offset + k],
                    b.offset + k == b.cursor,
                    width as int,
                ),
        decreases height - n,
    {
        lines.push(row(&b.rows[i], i == b.cursor, width));
        i += 1;
        n += 1;
    }
    lines
}

/// `t` with blanks in front, up to `width` characters.
pub open spec fn right_aligned(t: Seq<char>, width: int) -> Seq<char> {
    text::repeated(' ', minus(width, t.len() as int)) + t
}

fn align_right(t: &str, width: usize) -> (r: String)
    ensures
        r@ == right_aligned(t@, width as int),
{
    let mut out = text::repeat(' ', width.saturating_sub(t.unicode_len()));
    out.append(t);
    out
}

/// How wide the artist column of the queue is, where there is one.
pub const ARTIST: usize = 22;

/// What stands in front of a queued track: a mark where it is the playing one,
/// and its number.
pub open spec fn queue_number(index: int, playing: bool) -> Seq<char> {
    (if playing {
        "▸"@
    } else {
        " "@
    }) + " "@ + right_aligned(text::decimal((index + 1) as nat), 3) + "  "@
}

/// A row of the queue. Everything but the title has a fixed width, so that the
/// title is what gives way in a narrow window.
pub open spec fn spec_queue_row(
    index: int,
    item: QueueItem,
    playing: bool,
    selected: bool,
    width: int,
) -> Seq<(Seq<char>, Style)> {
    let number = queue_number(index, playing);
    let time = spec_clock(item.duration_ms as nat);
    let fixed = number.len() + time.len() + 2;
    let artist = if width > fixed + 24 {
        ARTIST as int
    } else {
        0
    };
    let base = row_style(
        if playing {
            Ink::Accent
        } else {
            Ink::Bright
        },
        selected,
    );
    let quiet = row_style(
        if playing {
            Ink::Accent
        } else {
            Ink::Muted
        },
        selected,
    );
    let first = seq![
        (number, quiet),
        (fitted(item.title@, minus(width, fixed + artist)), base),
    ];
    let middle = if artist > 0 {
        first.push((fitted(item.artist@, artist), quiet))
    } else {
        first
    };
    middle.push((right_aligned(time, 5) + " "@, quiet))
}

/// A row of the queue.
pub fn queue_row(
    index: usize,
    item: &QueueItem,
    playing: bool,
    selected: bool,
    width: usize,
) -> (r: Vec<Span>)
    requires
        index < u64::MAX,
    ensures
        drawn(r@) == spec_queue_row(index as int, *item, playing, selected, width as int),
{
    let mut number = if playing { "▸" } else { " " }.to_owned();
    number.append(" ");
    number.append(align_right(text::number(index as u64 + 1).as_str(), 3).as_str());
    number.append("  ");
    let time = clock(item.duration_ms);
    let fixed: usize = number.as_str().unicode_len().saturating_add(
        time.as_str().unicode_len(),
    ).saturating_add(2);
    let artist: usize = if width > fixed.saturating_add(24) {
        ARTIST
    } else {
        0
    };
    let title: usize = width.saturating_sub(fixed.saturating_add(artist));
    let base = Style {
        ink: if playing {
            Ink::Accent
        } else {
            Ink::Bright
        },
        bold: false,
        reversed: selected,
    };
    let quiet = Style {
        ink: if playing {
            Ink::Accent
        } else {
            Ink::Muted
        },
        bold: false,
        reversed: selected,
    };
    let mut line: Vec<Span> = Vec::new();
    write_span(&mut line, number.as_str(), quiet);
    write_span(&mut line, fit(item.title.as_str(), title).as_str(), base);
    if artist > 0 {
        write_span(&mut line, fit(item.artist.as_str(), artist).as_str(), quiet);
    }
    let mut end = align_right(time.as_str(), 5);
    end.append(" ");
    write_span(&mut line, end.as_str(), quiet);
    assert(drawn(line@) =~= spec_queue_row(
        index as int,
        *item,
        playing,
        selected,
        width as int,
    ));
    line
}

/// The rows of the queue that are seen, scrolled so that the cursor is among
/// them.
pub fn render_queue(q: &mut Queue, width: usize, height: usize) -> (r: Vec<Vec<Span>>)
    ensures
        if old(q).items@.len() == 0 {
            &&& *final(q) == *old(q)
            &&& all_drawn(r@) == seq![seq![("Nothing queued"@, in_ink(Ink::Dim))]]
        } else {
            &&& *final(q) == (Queue {
                offset: super::queue::scrolled(
                    old(q).offset as int,
                    old(q).cursor as int,
                    old(q).items@.len() as int,
                    height as int,
                ) as usize,
                ..*old(q)
            })
            &&& r@.len() == seen(old(q).items@.len() as int, final(q).offset as int, height as int)
            &&& forall|i: int|
                0 <= i < r@.len() ==> drawn((#[trigger] r@[i])@) == spec_queue_row(
                    final(q).offset + i,
                    old(q).items@[final(q).offset + i],
                    final(q).offset + i == old(q).position,
                    final(q).offset + i == old(q).cursor,
                    width as int,
                )
        },
{
    let mut lines: Vec<Vec<Span>> = Vec::new();
    if q.items.is_empty() {
        let mut line: Vec<Span> = Vec::new();
        write_span(&mut line, "Nothing queued", inked(Ink::Dim));
        assert(drawn(line@) =~= seq![("Nothing queued"@, in_ink(Ink::Dim))]);
        add_line(&mut lines, line);
        assert(all_drawn(lines@) =~= seq![seq![("Nothing queued"@, in_ink(Ink::Dim))]]);
        return lines;
    }
    q.scroll(height);
    let mut i: usize = q.offset;
    let mut n: usize = 0;
    while n < height && i < q.items.len()
        invariant
            i == q.offset + n,
            n <= height,
            n == 0 || i <= q.items@.len(),
            lines@.len() == n,
            forall|k: int|
                0 <= k < n ==> drawn((#[trigger] lines@[k])@) == spec_queue_row(
                    q.offset + k,
                    q.items@[q.offset + k],
                    q.offset + k == q.position,
                    q.offset + k == q.cursor,
                    width as int,
                ),
        decreases height - n,
    {
        lines.push(queue_row(i, &q.items[i], i == q.position, i == q.cursor, width));
        i += 1;
        n += 1;
    }
    lines
}

/// A key and what it does.
pub struct Hint {
    pub key: &'static str,
    pub what: &'static str,
}

/// How much width a hint takes.
pub open spec fn hint_cost(h: Hint) -> int {
    (h.key@.len() + h.what@.len() + 6) as int
}

/// A hint as it is drawn.
pub open spec fn hint_spans(h: Hint) -> Seq<(Seq<char>, Style)> {
    seq![
        ("["@, in_ink(Ink::Dim)),
        (h.key@, in_bold(Ink::Muted)),
        ("]"@, in_ink(Ink::Dim)),
        (" "@ + h.what@ + "   "@, in_ink(Ink::Dim)),
    ]
}

/// How much width hints take one after the other.
pub open spec fn hints_cost(hints: Seq<Hint>) -> int
    decreases hints.len(),
{
    if hints.len() == 0 {
        0
    } else {
        hints_cost(hints.drop_last()) + hint_cost(hints.last())
    }
}

/// Hints as they are drawn one after the other.
pub open spec fn hints_line(hints: Seq<Hint>) -> Seq<(Seq<char>, Style)>
    decreases hints.len(),
{
    if hints.len() == 0 {
        Seq::empty()
    } else {
        hints_line(hints.drop_last()) + hint_spans(hints.last())
    }
}

/// How many of `hints`, from the first on, there is room for: the first that
/// does not fit before what is reserved ends them.
pub open spec fn kept_hints(hints: Seq<Hint>, width: int, reserved: int) -> int
    decreases hints.len(),
{
    if hints.len() == 0 {
        0
    } else {
        let kept = kept_hints(hints.drop_last(), width, reserved);
        if kept == hints.len() - 1 && hints_cost(hints) + reserved <= width {
            kept + 1
        } else {
            kept
        }
    }
}

/// The hints that are always there: how to leave.
pub open spec fn leaving() -> (Hint, Hint) {
    (Hint { key: "Ctrl+C", what: "hide" }, Hint { key: "q", what: "quit" })
}

/// The hints that go with what is on screen, the most useful first.
pub open spec fn hints_for(pane: Pane, typing: bool, catalog: bool) -> Seq<Hint> {
    if typing && catalog {
        seq![
            Hint { key: "↵", what: "search Apple Music" },
            Hint { key: "esc", what: "cancel" },
            Hint { key: "⌫", what: "back" },
        ]
    } else if typing {
        seq![
            Hint { key: "↵", what: "done" },
            Hint { key: "esc", what: "clear" },
            Hint { key: "⌫", what: "back" },
        ]
    } else if pane == Pane::Browser {
        seq![
            Hint { key: "space", what: "play/pause" },
            Hint { key: "↑↓", what: "move" },
            Hint { key: "↵", what: "play/open" },
            Hint { key: "⇥", what: "tabs" },
            Hint { key: "R", what: "refresh" },
            Hint { key: "/", what: "filter" },
            Hint { key: "oO", what: "order" },
            Hint { key: "t", what: "types" },
            Hint { key: "jl", what: "next/last" },
            Hint { key: "esc", what: "back" },
        ]
    } else {
        seq![
            Hint { key: "space", what: "play/pause" },
            Hint { key: "↑↓", what: "move" },
            Hint { key: "↵", what: "play" },
            Hint { key: "⇥", what: "tabs" },
            Hint { key: "d", what: "remove" },
            Hint { key: "ik", what: "reorder" },
            Hint { key: "-=", what: "volume" },
        ]
    }
}

/// The row of hints: as many of the useful ones as there is room for, and
/// always how to leave.
pub open spec fn spec_key_hints(
    width: int,
    pane: Pane,
    typing: bool,
    catalog: bool,
) -> Seq<(Seq<char>, Style)> {
    let (hide, quit) = leaving();
    let hints = hints_for(pane, typing, catalog);
    let kept = kept_hints(hints, width, hint_cost(hide) + hint_cost(quit));
    hints_line(hints.take(kept)) + hint_spans(hide) + hint_spans(quit)
}

fn cost(h: &Hint) -> (r: usize)
    ensures
        r == if hint_cost(*h) <= usize::MAX {
            hint_cost(*h)
        } else {
            usize::MAX as int
        },
{
    h.key.unicode_len().saturating_add(h.what.unicode_len()).saturating_add(6)
}

fn write_hint(line: &mut Vec<Span>, h: &Hint)
    ensures
        drawn(final(line)@) == drawn(old(line)@) + hint_spans(*h),
{
    let ghost line0 = drawn(line@);
    write_span(line, "[", inked(Ink::Dim));
    write_span(line, h.key, bold(Ink::Muted));
    write_span(line, "]", inked(Ink::Dim));
    let mut what = " ".to_owned();
    what.append(h.what);
    what.append("   ");
    write_span(line, what.as_str(), inked(Ink::Dim));
    assert(drawn(line@) =~= line0 + hint_spans(*h));
}

fn hints(pane: Pane, typing: bool, catalog: bool) -> (r: Vec<Hint>)
    ensures
        r@ == hints_for(pane, typing, catalog),
{
    let r = if typing && catalog {
        vec![
            Hint { key: "↵", what: "search Apple Music" },
            Hint { key: "esc", what: "cancel" },
            Hint { key: "⌫", what: "back" },
        ]
    } else if typing {
        vec![
            Hint { key: "↵", what: "done" },
            Hint { key: "esc", what: "clear" },
            Hint { key: "⌫", what: "back" },
        ]
    } else if pane == Pane::Browser {
        vec![
            Hint { key: "space", what: "play/pause" },
            Hint { key: "↑↓", what: "move" },
            Hint { key: "↵", what: "play/open" },
            Hint { key: "⇥", what: "tabs" },
            Hint { key: "R", what: "refresh" },
            Hint { key: "/", what: "filter" },
            Hint { key: "oO", what: "order" },
            Hint { key: "t", what: "types" },
            Hint { key: "jl", what: "next/last" },
            Hint { key: "esc", what: "back" },
        ]
    } else {
        vec![
            Hint { key: "space", what: "play/pause" },
            Hint { key: "↑↓", what: "move" },
            Hint { key: "↵", what: "play" },
            Hint { key: "⇥", what: "tabs" },
            Hint { key: "d", what: "remove" },
            Hint { key: "ik", what: "reorder" },
            Hint { key: "-=", what: "volume" },
        ]
    };
    assert(r@ =~= hints_for(pane, typing, catalog));
    r
}

/// The row of hints.
pub fn key_hints(width: usize, pane: Pane, typing: bool, catalog: bool) -> (r: Vec<Span>)
    ensures
        drawn(r@) == spec_key_hints(width as int, pane, typing, catalog),
{
    let hide = Hint { key: "Ctrl+C", what: "hide" };
    let quit = Hint { key: "q", what: "quit" };
    proof {
        reveal_strlit("Ctrl+C");
        reveal_strlit("hide");
        reveal_strlit("q");
        reveal_strlit("quit");
    }
    let reserved: usize = cost(&hide).saturating_add(cost(&quit));
    let keys = hints(pane, typing, catalog);
    let ghost keep = hint_cost(hide) + hint_cost(quit);
    let mut line: Vec<Span> = Vec::new();
    let mut used: usize = 0;
    let mut kept: usize = 0;
    let mut i: usize = 0;
    proof {
        assert(keys@.take(0) =~= Seq::<Hint>::empty());
        assert(drawn(line@) =~= Seq::<(Seq<char>, Style)>::empty());
    }
    while i < keys.len()
        invariant
            kept <= i <= keys@.len(),
            reserved == keep,
            keep > 0,
            kept == kept_hints(keys@.take(i as int), width as int, keep),
            drawn(line@) == hints_line(keys@.take(kept as int)),
            used == hints_cost(keys@.take(kept as int)),
        decreases keys@.len() - i,
    {
        proof {
            text::take_step(keys@, i as int);
            assert(keys@.take(i + 1).drop_last() =~= keys@.take(i as int));
        }
        let c: usize = cost(&keys[i]);
        if kept == i && width >= reserved && used <= width - reserved && c <= width - reserved
            - used {
            write_hint(&mut line, &keys[i]);
            used += c;
            kept += 1;
        }
        i += 1;
    }
    assert(keys@.take(i as int) =~= keys@);
    write_hint(&mut line, &hide);
    write_hint(&mut line, &quit);
    line
}

/// How the window is divided.
#[derive(Debug, Clone, Copy, PartialEq, Eq, Structural)]
pub struct Plan {
    /// The part inside the margins.
    pub x: u16,
    pub y: u16,
    pub width: u16,
    pub height: u16,
    /// How many rows of the band the spectrum takes.
    pub spectrum: usize,
    /// The heights of the parts from the top; the list takes what is left
    /// above the hints.
    pub band: u16,
    pub note: u16,
    pub tabs: u16,
    pub search: u16,
    pub hints: u16,
}

/// Divide the window: two cells of margin on either side and one above and
/// below, the now-playing band, the notice where there is one, the tabs, the
/// search box where it is shown, the list, and the hints. The queue has no
/// search box, for there is nothing to filter in it.
pub fn draw(
    x: u16,
    y: u16,
    width: u16,
    height: u16,
    pane: Pane,
    b: &Browser,
    has_message: bool,
) -> (r: Plan)
    requires
        x <= u16::MAX - 2,
        y < u16::MAX,
    ensures
        r.x == x + 2,
        r.y == y + 1,
        r.width == minus(width as int, 4),
        r.height == minus(height as int, 2),
        r.spectrum == spec_spectrum_rows(r.height as int),
        r.band == 8 + r.spectrum,
        r.note == if has_message {
            2int
        } else {
            0
        },
        r.tabs == 2,
        r.search == if pane == Pane::Browser && (b.typing || b.spec_filter().len() > 0) {
            3int
        } else {
            0
        },
        r.hints == 1,
{
    let inner: u16 = height.saturating_sub(2);
    let rows: usize = spectrum_rows(inner);
    Plan {
        x: x + 2,
        y: y + 1,
        width: width.saturating_sub(4),
        height: inner,
        spectrum: rows,
        band: 8 + rows as u16,
        note: if has_message {
            2
        } else {
            0
        },
        tabs: 2,
        search: match pane {
            Pane::Browser => search_height(b),
            Pane::Queue => 0,
        },
        hints: 1,
    }
}

/// How to leave is always shown, however narrow the window.
pub proof fn leaving_is_always_shown(width: int, pane: Pane, typing: bool, catalog: bool)
    ensures
        ({
            let line = spec_key_hints(width, pane, typing, catalog);
            let (hide, quit) = leaving();
            let tail = hint_spans(hide) + hint_spans(quit);
            tail.is_suffix_of(line)
        }),
{
    let line = spec_key_hints(width, pane, typing, catalog);
    let (hide, quit) = leaving();
    let tail = hint_spans(hide) + hint_spans(quit);
    assert(line.subrange(line.len() - tail.len(), line.len() as int) =~= tail);
}

/// No hint is shown once a more useful one was lost: those that are kept are
/// the first ones, all of them fit, and the next would not.
pub proof fn the_least_useful_hints_are_lost(hints: Seq<Hint>, width: int, reserved: int)
    requires
        0 <= reserved <= width,
    ensures
        ({
            let kept = kept_hints(hints, width, reserved);
            &&& 0 <= kept <= hints.len()
            &&& hints_cost(hints.take(kept)) + reserved <= width
            &&& kept < hints.len() ==> hints_cost(hints.take(kept + 1)) + reserved > width
        }),
    decreases hints.len(),
{
    if hints.len() > 0 {
        let before = hints.drop_last();
        the_least_useful_hints_are_lost(before, width, reserved);
        let kept = kept_hints(before, width, reserved);
        assert(hints.take(kept) =~= before.take(kept));
        if kept < before.len() {
            assert(hints.take(kept + 1) =~= before.take(kept + 1));
        } else {
            assert(hints.take(kept + 1) =~= hints);
        }
    } else {
        assert(hints.take(0) =~= hints);
    }
}

/// Two lines drawn one after the other are as wide as both.
proof fn widths_add(a: Seq<(Seq<char>, Style)>, b: Seq<(Seq<char>, Style)>)
    ensures
        line_width(a + b) == line_width(a) + line_width(b),
    decreases b.len(),
{
    if b.len() == 0 {
        assert(a + b =~= a);
    } else {
        assert((a + b).drop_last() =~= a + b.drop_last());
        widths_add(a, b.drop_last());
    }
}

/// A hint takes the width that is counted for it.
proof fn a_hint_takes_its_cost(h: Hint)
    ensures
        line_width(hint_spans(h)) == hint_cost(h),
{
    reveal_strlit("[");
    reveal_strlit("]");
    reveal_strlit(" ");
    reveal_strlit("   ");
    reveal_with_fuel(line_width, 5);
}

/// Hints take the width that is counted for them.
proof fn hints_take_their_cost(hints: Seq<Hint>)
    ensures
        line_width(hints_line(hints)) == hints_cost(hints),
    decreases hints.len(),
{
    if hints.len() > 0 {
        hints_take_their_cost(hints.drop_last());
        widths_add(hints_line(hints.drop_last()), hint_spans(hints.last()));
        a_hint_takes_its_cost(hints.last());
    }
}

/// Where there is room for how to leave, the row of hints is never wider than
/// the window.
pub proof fn the_hints_fit(width: int, pane: Pane, typing: bool, catalog: bool)
    requires
        hint_cost(leaving().0) + hint_cost(leaving().1) <= width,
    ensures
        line_width(spec_key_hints(width, pane, typing, catalog)) <= width,
{
    let (hide, quit) = leaving();
    let reserved = hint_cost(hide) + hint_cost(quit);
    let hints = hints_for(pane, typing, catalog);
    let kept = kept_hints(hints, width, reserved);
    the_least_useful_hints_are_lost(hints, width, reserved);
    hints_take_their_cost(hints.take(kept));
    a_hint_takes_its_cost(hide);
    a_hint_takes_its_cost(quit);
    widths_add(hints_line(hints.take(kept)), hint_spans(hide));
    widths_add(hints_line(hints.take(kept)) + hint_spans(hide), hint_spans(quit));
}

/// One tab is on: the section on screen, the catalogue, or the queue.
pub proof fn one_tab_is_on(b: Browser, in_queue: bool)
    ensures
        in_queue ==> tabs(b, in_queue)[10] == ("QUEUE"@, in_bold(Ink::Accent)) && tabs(
            b,
            in_queue,
        )[8].1 == in_ink(Ink::Dim) && tabs(b, in_queue)[0].1 == in_ink(Ink::Dim),
        !in_queue && b.showing is Catalog ==> tabs(b, in_queue)[8] == (
            "APPLE MUSIC"@,
            in_bold(Ink::Accent),
        ) && tabs(b, in_queue)[10].1 == in_ink(Ink::Dim) && tabs(b, in_queue)[0].1 == in_ink(
            Ink::Dim,
        ),
        !in_queue && !(b.showing is Catalog) && b.view == Section::Songs ==> tabs(b, in_queue)[0]
            == ("SONGS"@, in_bold(Ink::Accent)) && tabs(b, in_queue)[2].1 == in_ink(Ink::Dim),
        !in_queue && !(b.showing is Catalog) && b.view == Section::Albums ==> tabs(b, in_queue)[2]
            == ("ALBUMS"@, in_bold(Ink::Accent)) && tabs(b, in_queue)[0].1 == in_ink(Ink::Dim),
        !in_queue && !(b.showing is Catalog) && b.view == Section::Artists ==> tabs(b, in_queue)[4]
            == ("ARTISTS"@, in_bold(Ink::Accent)),
        !in_queue && !(b.showing is Catalog) && b.view == Section::Playlists ==> tabs(
            b,
            in_queue,
        )[6] == ("PLAYLISTS"@, in_bold(Ink::Accent)),
{
}

/// A row says its title first and its second line where there is width for it,
/// and is turned round where it is selected; what leads somewhere is marked.
pub proof fn a_row_says_its_title(e: Entry, selected: bool, width: int)
    requires
        width > 0,
    ensures
        spec_row(e, selected, width).len() == if width > 40 {
            3int
        } else {
            2int
        },
        e is Song ==> spec_row(e, selected, width)[0].0 == "  "@,
        !(e is Song) ==> spec_row(e, selected, width)[0].0 == "▸ "@,
        forall|i: int|
            0 <= i < spec_row(e, selected, width).len() ==> (#[trigger] spec_row(
                e,
                selected,
                width,
            )[i]).1.reversed == selected,
        width > 40 && e.spec_subtitle().len() <= width / 3 ==> e.spec_subtitle().is_prefix_of(
            spec_row(e, selected, width)[2].0,
        ),
        e is Song && 2 <= width <= 40 && e.spec_title().len() + 3 <= width
            ==> e.spec_title().is_prefix_of(spec_row(e, selected, width)[1].0),
{
    let sub = width / 3;
    if width > 40 {
        super::ui::a_text_takes_its_column(e.spec_subtitle(), sub);
    } else {
        let mark: int = if e is Song {
            2
        } else {
            4
        };
        super::ui::a_text_takes_its_column(e.spec_title(), minus(width, mark + 0 + 1));
    }
}

/// A queued track is numbered from one, and marked where it plays.
pub proof fn a_queued_track_is_numbered_from_one(index: int, playing: bool)
    requires
        0 <= index < 9,
    ensures
        queue_number(index, playing).len() == 7,
        playing ==> queue_number(index, playing)[0] == '▸',
        !playing ==> queue_number(index, playing)[0] == ' ',
        queue_number(index, playing)[4] == text::digit(index + 1),
{
    reveal_strlit("▸");
    reveal_strlit(" ");
    reveal_strlit("  ");
    reveal_with_fuel(text::decimal, 2);
    let d = text::decimal((index + 1) as nat);
    assert(d.len() == 1 && d[0] == text::digit(index + 1));
    let blanks = text::repeated(' ', 2);
    assert(blanks.len() == 2);
    let mark = if playing {
        "▸"@
    } else {
        " "@
    };
    assert(queue_number(index, playing) == mark + " "@ + (blanks + d) + "  "@);
}

/// An empty pane says why it is empty.
pub proof fn an_empty_pane_says_why(b: Browser)
    ensures
        b.showing is Library && b.spec_filter().len() == 0 ==> spec_empty_text(b)
            == "Nothing here"@,
        b.showing is Library && b.spec_filter().len() > 0 ==> spec_empty_text(b)
            == "Nothing matches"@,
        b.showing matches Showing::Catalog { searching } ==> (searching ==> spec_empty_text(b)
            == "Searching Apple Music…"@),
        b.showing matches Showing::Catalog { searching } ==> (!searching && b.spec_filter().len()
            == 0 ==> spec_empty_text(b) == "Press / to search Apple Music"@),
        b.showing matches Showing::Catalog { searching } ==> (!searching && b.spec_filter().len()
            > 0 ==> spec_empty_text(b) == "Nothing on Apple Music matches"@),
        b.showing matches Showing::Page { title, subtitle, loading } ==> (loading
            ==> spec_empty_text(b) == "Opening…"@),
{
}

/// As many rows are seen as fit, and no more than there are.
pub proof fn as_many_rows_are_seen_as_fit(len: int, offset: int, height: int)
    requires
        0 <= offset,
        0 <= len,
        0 <= height,
    ensures
        0 <= seen(len, offset, height) <= height,
        offset + height <= len ==> seen(len, offset, height) == height,
        offset <= len < offset + height ==> seen(len, offset, height) == len - offset,
        offset >= len ==> seen(len, offset, height) == 0,
{
}

/// An arrow says which way a list runs: down from the front, or from the newest
/// where it is ordered by a date, and up where it was turned round.
pub proof fn an_arrow_says_which_way_a_list_runs(b: Browser, language: Language)
    requires
        !(b.showing is Catalog),
    ensures
        ({
            let (by, turned) = b.spec_sort();
            &&& turned == by.spec_descends() ==> tail(b, None, language) == "["@ + "↓ "@
                + text::lowercase(by.spec_label(language)) + "]"@
            &&& turned != by.spec_descends() ==> tail(b, None, language) == "["@ + "↑ "@
                + text::lowercase(by.spec_label(language)) + "]"@
        }),
        forall|n: usize| #[trigger] tail(b, Some(n), language) == "["@ + text::decimal(n as nat)
            + "]"@,
{
}

/// A row of the queue says its number, its title, its artist where there is
/// width for it, and its length; it is turned round where it is selected and
/// loud where it plays.
pub proof fn a_queue_row_says_its_track(
    index: int,
    item: QueueItem,
    playing: bool,
    selected: bool,
    width: int,
)
    requires
        width >= 0,
    ensures
        ({
            let row = spec_queue_row(index, item, playing, selected, width);
            &&& row[0].0 == queue_number(index, playing)
            &&& row[1].1.ink == if playing {
                Ink::Accent
            } else {
                Ink::Bright
            }
            &&& row.len() == 3 || row.len() == 4
            &&& row.len() == 4 ==> row[2].0 == fitted(item.artist@, 22)
            &&& row.last().0 == right_aligned(spec_clock(item.duration_ms as nat), 5) + " "@
            &&& forall|i: int| 0 <= i < row.len() ==> (#[trigger] row[i]).1.reversed == selected
        }),
{
}

/// An open page is headed by its name in capitals, what is said of it, and that
/// it is being opened while it is.
pub proof fn a_page_is_headed_by_its_name(
    b: Browser,
    queue: Option<usize>,
    width: int,
    language: Language,
)
    ensures
        b.showing matches Showing::Page { title, subtitle, loading } ==> {
            let line = spec_header(b, queue, width, language);
            &&& line[0].0 == text::uppercase(title@)
            &&& subtitle@.len() > 0 ==> line[1].0 == "   "@ + subtitle@
            &&& loading ==> line.last().0 == "   opening…"@
            &&& !loading && subtitle@.len() == 0 ==> line.len() == 1
        },
{
}

/// The search box shows what is typed for the list on screen, as far as it fits,
/// with the caret behind it while it is typed.
pub proof fn the_box_shows_what_is_typed(b: Browser, width: int)
    requires
        width > 4,
    ensures
        spec_search_box(b, width).len() == 3,
        b.spec_filter().len() <= width - 4 ==> spec_search_box(b, width)[1][1].0 == b.spec_filter(),
        b.spec_filter().len() > width - 4 ==> spec_search_box(b, width)[1][1].0
            == b.spec_filter().take(width - 4),
        b.typing ==> spec_search_box(b, width)[1][2].0 == "▌"@,
        !b.typing ==> spec_search_box(b, width)[1][2].0 == " "@,
        b.showing is Catalog ==> spec_search_box(b, width)[0][1].0 == " search Apple Music "@,
        !(b.showing is Catalog) ==> spec_search_box(b, width)[0][1].0 == " filter the library "@,
{
}

} // verus!

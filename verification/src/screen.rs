//! The text of the menu screens: box lines, menu entries and the header,
//! as coloured segments the terminal front end writes out one after the
//! other. Widths follow `format!`'s padding (counted in characters) and the
//! byte lengths the layout computes from.

use vstd::prelude::*;
use crate::text::{ascii_lower, push_char, strings_view, trim, trim_seq};
use crate::diagnostics::DiagnosticEvent;
use crate::wrap::{wrap_text, wrap_text_spec};
use crate::fmt::{decimal_of, push_decimal};
use crate::tui::{INNER, BAR, TITLE, REPO, Options, Status, Page, menu_step_spec, MenuStep, MenuAction, OptionToggle};

verus! {

/// The colours the screens use.
#[derive(Debug, Clone, Copy, PartialEq, Eq, Structural)]
pub enum Color {
    Cyan,
    DarkCyan,
    White,
    Grey,
    DarkGrey,
    Green,
    Red,
    Yellow,
}

/// A run of text in one colour.
#[derive(Debug, Clone)]
pub struct Segment {
    pub color: Color,
    pub text: String,
}

/// A segment taken by its colour and characters.
pub open spec fn seg_view(s: Segment) -> (Color, Seq<char>) {
    (s.color, s.text@)
}

/// The segments of a line, each by its view.
pub open spec fn line_view(l: Seq<Segment>) -> Seq<(Color, Seq<char>)> {
    l.map_values(|s: Segment| seg_view(s))
}

/// The byte length `str::len` reports for a text.
pub open spec fn str_bytes(s: Seq<char>) -> usize {
    vstd::utf8::encode_utf8(s).len() as usize
}

/// `a - b`, or 0 where `b` is larger (`usize::saturating_sub`).
pub open spec fn sat_sub(a: int, b: int) -> nat {
    if a >= b {
        (a - b) as nat
    } else {
        0
    }
}

/// `n` copies of `c`.
pub open spec fn repeat_spec(c: char, n: nat) -> Seq<char> {
    Seq::new(n, |i: int| c)
}

/// `format!("{:<w$}", s)`: `s` followed by spaces up to `w` characters.
pub open spec fn pad_right_spec(s: Seq<char>, w: nat) -> Seq<char> {
    s + repeat_spec(' ', sat_sub(w as int, s.len() as int))
}

/// `format!("{:^w$}", s)`: `s` centred in `w` characters, the odd space on the right.
pub open spec fn pad_center_spec(s: Seq<char>, w: nat) -> Seq<char> {
    let p = sat_sub(w as int, s.len() as int);
    repeat_spec(' ', p / 2) + s + repeat_spec(' ', (p - p / 2) as nat)
}

/// Appends `n` copies of `c`.
pub fn push_repeat(out: &mut String, c: char, n: usize)
    ensures
        final(out)@ == old(out)@ + repeat_spec(c, n as nat),
{
    let mut i: usize = 0;
    while i < n
        invariant
            i <= n,
            out@ == old(out)@ + repeat_spec(c, i as nat),
        decreases n - i,
    {
        push_char(out, c);
        assert(repeat_spec(c, (i + 1) as nat) =~= repeat_spec(c, i as nat).push(c));
        assert(old(out)@ + repeat_spec(c, (i + 1) as nat) =~= old(out)@ + repeat_spec(c, i as nat) + seq![c]);
        i = i + 1;
    }
}

/// `n` copies of `c` as a string.
pub fn repeat_char(c: char, n: usize) -> (r: String)
    ensures
        r@ == repeat_spec(c, n as nat),
{
    let mut s = String::new();
    push_repeat(&mut s, c, n);
    assert(Seq::<char>::empty() + repeat_spec(c, n as nat) =~= repeat_spec(c, n as nat));
    s
}

/// Pads `s` on the right with spaces to `w` characters.
pub fn pad_right(s: &str, w: usize) -> (r: String)
    ensures
        r@ == pad_right_spec(s@, w as nat),
{
    let n = s.unicode_len();
    let mut out = String::from_str(s);
    let fill = if w >= n {
        w - n
    } else {
        0
    };
    push_repeat(&mut out, ' ', fill);
    out
}

/// Centres `s` in `w` characters.
pub fn pad_center(s: &str, w: usize) -> (r: String)
    ensures
        r@ == pad_center_spec(s@, w as nat),
{
    let n = s.unicode_len();
    let p = if w >= n {
        w - n
    } else {
        0
    };
    let mut out = repeat_char(' ', p / 2);
    out.append(s);
    push_repeat(&mut out, ' ', p - p / 2);
    out
}

fn segment(color: Color, text: String) -> (r: Segment)
    ensures
        seg_view(r) == (color, text@),
{
    Segment { color, text }
}

fn segment_str(color: Color, text: &str) -> (r: Segment)
    ensures
        seg_view(r) == (color, text@),
{
    Segment { color, text: String::from_str(text) }
}

/// The top edge of a box, with `title` centred in it when there is one.
pub open spec fn top_line_spec(title: Seq<char>) -> Seq<char> {
    if title.len() == 0 {
        "\u{2554}"@ + repeat_spec('\u{2550}', BAR as nat) + "\u{2557}"@
    } else {
        let label = " "@ + title + " "@;
        let pad = sat_sub(BAR as int, str_bytes(label) as int);
        "\u{2554}"@ + repeat_spec('\u{2550}', pad / 2) + label + repeat_spec('\u{2550}', (pad - pad / 2) as nat)
            + "\u{2557}"@
    }
}

/// The top edge of a box.
pub fn top_line(title: &str) -> (r: String)
    ensures
        r@ == top_line_spec(title@),
{
    let mut s = String::from_str("\u{2554}");
    if title.unicode_len() == 0 {
        push_repeat(&mut s, '\u{2550}', BAR);
    } else {
        let mut label = String::from_str(" ");
        label.append(title);
        label.append(" ");
        let len = label.as_str().len();
        let pad = if BAR >= len {
            BAR - len
        } else {
            0
        };
        push_repeat(&mut s, '\u{2550}', pad / 2);
        s.append(label.as_str());
        push_repeat(&mut s, '\u{2550}', pad - pad / 2);
    }
    s.append("\u{2557}");
    s
}

/// The bottom edge of a box.
pub fn bottom_line() -> (r: String)
    ensures
        r@ == "\u{255A}"@ + repeat_spec('\u{2550}', BAR as nat) + "\u{255D}"@,
{
    let mut s = String::from_str("\u{255A}");
    push_repeat(&mut s, '\u{2550}', BAR);
    s.append("\u{255D}");
    s
}

/// A separator across a box, with `title` centred in it when there is one.
pub open spec fn sep_line_spec(title: Seq<char>) -> Seq<char> {
    if title.len() == 0 {
        "\u{255F}"@ + repeat_spec('\u{2500}', BAR as nat) + "\u{2562}"@
    } else {
        let pad = sat_sub(BAR as int, str_bytes(title) as int);
        "\u{255F}"@ + repeat_spec('\u{2500}', pad / 2) + title + repeat_spec('\u{2500}', (pad - pad / 2) as nat)
            + "\u{2562}"@
    }
}

/// A separator across a box.
pub fn sep_line(title: &str) -> (r: String)
    ensures
        r@ == sep_line_spec(title@),
{
    let mut s = String::from_str("\u{255F}");
    if title.unicode_len() == 0 {
        push_repeat(&mut s, '\u{2500}', BAR);
    } else {
        let len = title.len();
        let pad = if BAR >= len {
            BAR - len
        } else {
            0
        };
        push_repeat(&mut s, '\u{2500}', pad / 2);
        s.append(title);
        push_repeat(&mut s, '\u{2500}', pad - pad / 2);
    }
    s.append("\u{2562}");
    s
}

/// One entry of a menu page.
#[derive(Debug, Clone)]
pub enum Entry {
    /// An empty line.
    Blank,
    /// A section heading.
    Section(&'static str),
    /// A line of text in a colour.
    Note(String, Color),
    /// A key and what it does; highlighted entries are drawn in green.
    Item(String, String, bool),
    /// A key with an on/off state.
    Toggle(&'static str, &'static str, bool),
    /// The quit key.
    Quit,
}

/// A line of text framed by the box edges.
pub open spec fn framed_spec(text: Seq<char>, color: Color) -> Seq<(Color, Seq<char>)> {
    seq![(Color::Cyan, "\u{2551} "@), (color, pad_right_spec(text, INNER as nat)), (Color::Cyan, " \u{2551}"@)]
}

/// The segments of a key entry: the key in `key_color`, then the text.
pub open spec fn keyed_spec(key: Seq<char>, key_color: Color, text: Seq<char>, text_color: Color) -> Seq<(Color, Seq<char>)> {
    let shown = "["@ + key + "]"@;
    let width = sat_sub(INNER as int, str_bytes(shown) + 3);
    seq![
        (Color::Cyan, "\u{2551}   "@),
        (key_color, shown),
        (text_color, " "@ + pad_right_spec(text, width)),
        (Color::Cyan, " \u{2551}"@),
    ]
}

/// The segments an entry is drawn as.
pub open spec fn entry_spec(e: Entry) -> Seq<(Color, Seq<char>)> {
    match e {
        Entry::Blank => framed_spec(Seq::empty(), Color::White),
        Entry::Section(t) => framed_spec("  "@ + t@, Color::Cyan),
        Entry::Note(t, c) => framed_spec(t@, c),
        Entry::Item(k, t, hi) => keyed_spec(k@, Color::Yellow, t@, if hi {
            Color::Green
        } else {
            Color::White
        }),
        Entry::Toggle(k, t, on) => {
            let shown = "["@ + k@ + "]"@;
            let width = sat_sub(INNER as int, str_bytes(shown) + 9);
            seq![
                (Color::Cyan, "\u{2551}   "@),
                (Color::Yellow, shown + " "@),
                (if on {
                    Color::Green
                } else {
                    Color::DarkGrey
                }, if on {
                    "[ON ]"@
                } else {
                    "[OFF]"@
                }),
                (Color::White, " "@ + pad_right_spec(t@, width)),
                (Color::Cyan, " \u{2551}"@),
            ]
        },
        Entry::Quit => keyed_spec("Q"@, Color::Red, "Quit"@, Color::DarkGrey),
    }
}

fn framed(text: &str, color: Color) -> (r: Vec<Segment>)
    ensures
        line_view(r@) == framed_spec(text@, color),
{
    let mut v: Vec<Segment> = Vec::new();
    v.push(segment_str(Color::Cyan, "\u{2551} "));
    v.push(segment(color, pad_right(text, INNER)));
    v.push(segment_str(Color::Cyan, " \u{2551}"));
    assert(line_view(v@) =~= framed_spec(text@, color));
    v
}

fn keyed(key: &str, key_color: Color, text: &str, text_color: Color) -> (r: Vec<Segment>)
    ensures
        line_view(r@) == keyed_spec(key@, key_color, text@, text_color),
{
    let mut shown = String::from_str("[");
    shown.append(key);
    shown.append("]");
    let len = shown.as_str().len();
    let a = if INNER >= len {
        INNER - len
    } else {
        0
    };
    let width = if a >= 3 {
        a - 3
    } else {
        0
    };
    let mut body = String::from_str(" ");
    let padded = pad_right(text, width);
    body.append(padded.as_str());
    let mut v: Vec<Segment> = Vec::new();
    v.push(segment_str(Color::Cyan, "\u{2551}   "));
    v.push(segment(key_color, shown));
    v.push(segment(text_color, body));
    v.push(segment_str(Color::Cyan, " \u{2551}"));
    assert(line_view(v@) =~= keyed_spec(key@, key_color, text@, text_color));
    v
}

/// The segments of a menu entry.
pub fn entry_line(e: &Entry) -> (r: Vec<Segment>)
    ensures
        line_view(r@) == entry_spec(*e),
{
    match e {
        Entry::Blank => {
            let r = framed("", Color::White);
            proof {
                reveal_strlit("");
            }
            r
        },
        Entry::Section(t) => {
            let mut s = String::from_str("  ");
            s.append(t);
            framed(s.as_str(), Color::Cyan)
        },
        Entry::Note(t, c) => framed(t.as_str(), *c),
        Entry::Item(k, t, hi) => keyed(k.as_str(), Color::Yellow, t.as_str(), if *hi {
            Color::Green
        } else {
            Color::White
        }),
        Entry::Toggle(k, t, on) => {
            let mut shown = String::from_str("[");
            shown.append(k);
            shown.append("]");
            let len = shown.as_str().len();
            let a = if INNER >= len {
                INNER - len
            } else {
                0
            };
            let width = if a >= 9 {
                a - 9
            } else {
                0
            };
            let mut key_part = String::new();
            key_part.append(shown.as_str());
            key_part.append(" ");
            let mut body = String::from_str(" ");
            let padded = pad_right(t, width);
            body.append(padded.as_str());
            let mut v: Vec<Segment> = Vec::new();
            v.push(segment_str(Color::Cyan, "\u{2551}   "));
            v.push(segment(Color::Yellow, key_part));
            if *on {
                v.push(segment_str(Color::Green, "[ON ]"));
            } else {
                v.push(segment_str(Color::DarkGrey, "[OFF]"));
            }
            v.push(segment(Color::White, body));
            v.push(segment_str(Color::Cyan, " \u{2551}"));
            assert(line_view(v@) =~= entry_spec(*e));
            v
        },
        Entry::Quit => keyed("Q", Color::Red, "Quit", Color::DarkGrey),
    }
}

/// An entry taken by its kind, its two texts, its flag and its colour.
pub open spec fn entry_view(e: Entry) -> (nat, Seq<char>, Seq<char>, bool, Color) {
    match e {
        Entry::Blank => (0, Seq::empty(), Seq::empty(), false, Color::White),
        Entry::Section(t) => (1, t@, Seq::empty(), false, Color::Cyan),
        Entry::Note(t, c) => (2, t@, Seq::empty(), false, c),
        Entry::Item(k, t, hi) => (3, k@, t@, hi, Color::White),
        Entry::Toggle(k, t, on) => (4, k@, t@, on, Color::White),
        Entry::Quit => (5, Seq::empty(), Seq::empty(), false, Color::White),
    }
}

/// The entries of a page, each by its view.
pub open spec fn entries_view(es: Seq<Entry>) -> Seq<(nat, Seq<char>, Seq<char>, bool, Color)> {
    es.map_values(|e: Entry| entry_view(e))
}

/// Views of the entry kinds, for writing pages down.
pub open spec fn blank() -> (nat, Seq<char>, Seq<char>, bool, Color) {
    (0, Seq::empty(), Seq::empty(), false, Color::White)
}

pub open spec fn section(t: Seq<char>) -> (nat, Seq<char>, Seq<char>, bool, Color) {
    (1, t, Seq::empty(), false, Color::Cyan)
}

pub open spec fn note(t: Seq<char>, c: Color) -> (nat, Seq<char>, Seq<char>, bool, Color) {
    (2, t, Seq::empty(), false, c)
}

pub open spec fn item(k: Seq<char>, t: Seq<char>) -> (nat, Seq<char>, Seq<char>, bool, Color) {
    (3, k, t, false, Color::White)
}

pub open spec fn toggle(k: Seq<char>, t: Seq<char>, on: bool) -> (nat, Seq<char>, Seq<char>, bool, Color) {
    (4, k, t, on, Color::White)
}

pub open spec fn quit() -> (nat, Seq<char>, Seq<char>, bool, Color) {
    (5, Seq::empty(), Seq::empty(), false, Color::White)
}

/// The names of the options that differ from a plain install, in menu order.
pub open spec fn active_toggles_spec(o: Options) -> Seq<Seq<char>> {
    let a1: Seq<Seq<char>> = if !o.toast { seq!["NoToast"@] } else { seq![] };
    let a2: Seq<Seq<char>> = if o.dry_run { seq!["DryRun"@] } else { seq![] };
    let a3: Seq<Seq<char>> = if o.verbose { seq!["Verbose"@] } else { seq![] };
    let a4: Seq<Seq<char>> = if !o.hdr { seq!["NoHDR"@] } else { seq![] };
    let a5: Seq<Seq<char>> = if !o.sdr { seq!["NoSDR"@] } else { seq![] };
    let a6: Seq<Seq<char>> = if o.per_user { seq!["PerUser"@] } else { seq![] };
    let a7: Seq<Seq<char>> = if o.generic_default { seq!["GenericDef"@] } else { seq![] };
    a1 + a2 + a3 + a4 + a5 + a6 + a7
}

/// The names of the active toggles the main menu lists.
pub fn active_toggles(o: &Options) -> (r: Vec<&'static str>)
    ensures
        r@.map_values(|s: &'static str| s@) == active_toggles_spec(*o),
{
    let mut v: Vec<&'static str> = Vec::new();
    if !o.toast {
        v.push("NoToast");
    }
    if o.dry_run {
        v.push("DryRun");
    }
    if o.verbose {
        v.push("Verbose");
    }
    if !o.hdr {
        v.push("NoHDR");
    }
    if !o.sdr {
        v.push("NoSDR");
    }
    if o.per_user {
        v.push("PerUser");
    }
    if o.generic_default {
        v.push("GenericDef");
    }
    assert(v@.map_values(|s: &'static str| s@) =~= active_toggles_spec(*o));
    v
}

/// The label of the main menu's Advanced entry.
pub open spec fn advanced_label_spec(o: Options) -> Seq<char> {
    let a = active_toggles_spec(o);
    if a.len() == 0 {
        "Advanced Options (None active)"@
    } else {
        "Advanced Options ("@ + crate::text::join_seqs(a, ", "@) + ")"@
    }
}

/// The main menu's Advanced entry: its label, and whether any toggle is active.
pub fn advanced_label(o: &Options) -> (r: (String, bool))
    ensures
        r.0@ == advanced_label_spec(*o),
        r.1 == (active_toggles_spec(*o).len() > 0),
{
    let names = active_toggles(o);
    if names.len() == 0 {
        return (String::from_str("Advanced Options (None active)"), false);
    }
    let mut owned: Vec<String> = Vec::new();
    let mut i: usize = 0;
    while i < names.len()
        invariant
            i <= names.len(),
            owned@.len() == i,
            forall|j: int| 0 <= j < i ==> #[trigger] owned@[j]@ == names@[j]@,
        decreases names.len() - i,
    {
        owned.push(String::from_str(names[i]));
        i = i + 1;
    }
    assert(crate::text::strings_view(owned@) =~= names@.map_values(|s: &'static str| s@));
    let joined = crate::text::join_strings(&owned, ", ");
    let mut s = String::from_str("Advanced Options (");
    s.append(joined.as_str());
    s.append(")");
    (s, true)
}

/// The title of the separator under the header of a page.
pub open spec fn page_title_spec(page: Page) -> Seq<char> {
    match page {
        Page::Main => " MAIN MENU "@,
        Page::Maintenance => " MAINTENANCE "@,
        Page::Maintenance2 => " DDC/CI STUDIO "@,
        Page::ServiceDiagnostics => " SERVICE DIAGNOSTICS "@,
        Page::Advanced => " ADVANCED OPTIONS (Toggles) "@,
        Page::IccStudio => " ICC STUDIO "@,
        Page::IccStudioTuning => " ICC STUDIO (Tuning) "@,
        Page::IccTags => " ICC TAGS "@,
        Page::IccTags2 => " ICC TAGS (Page 2) "@,
    }
}

/// The title of the separator under the header of each page.
pub fn page_title(page: Page) -> (r: &'static str)
    ensures
        r@ == page_title_spec(page),
{
    match page {
        Page::Main => " MAIN MENU ",
        Page::Maintenance => " MAINTENANCE ",
        Page::Maintenance2 => " DDC/CI STUDIO ",
        Page::ServiceDiagnostics => " SERVICE DIAGNOSTICS ",
        Page::Advanced => " ADVANCED OPTIONS (Toggles) ",
        Page::IccStudio => " ICC STUDIO ",
        Page::IccStudioTuning => " ICC STUDIO (Tuning) ",
        Page::IccTags => " ICC TAGS ",
        Page::IccTags2 => " ICC TAGS (Page 2) ",
    }
}

/// The colour of a diagnostics event by its level.
pub open spec fn level_color(level: Seq<char>) -> Color {
    if level == "ERROR"@ {
        Color::Red
    } else if level == "WARN"@ {
        Color::Yellow
    } else {
        Color::White
    }
}

/// How an event is shown: `  <time> [<source>:<level>] <event>`, then
/// `: <details>` when the details are not blank.
pub open spec fn event_line_spec(e: DiagnosticEvent) -> Seq<char> {
    let head = "  "@ + e.timestamp@ + " ["@ + e.source@ + ":"@ + e.level@ + "] "@ + e.event@;
    if trim_seq(e.details@).len() > 0 {
        head + ": "@ + e.details@
    } else {
        head
    }
}

/// Lines of text, each a note in colour `c`.
pub open spec fn notes_of(lines: Seq<Seq<char>>, c: Color) -> Seq<(nat, Seq<char>, Seq<char>, bool, Color)> {
    lines.map_values(|l: Seq<char>| note(l, c))
}

/// The events, each wrapped to the box's inner width less two and drawn
/// in the colour of its level.
pub open spec fn event_notes(events: Seq<DiagnosticEvent>) -> Seq<(nat, Seq<char>, Seq<char>, bool, Color)>
    decreases events.len(),
{
    if events.len() == 0 {
        Seq::empty()
    } else {
        let e = events.last();
        event_notes(events.drop_last()) + notes_of(
            wrap_text_spec(event_line_spec(e), (INNER - 2) as nat),
            level_color(e.level@),
        )
    }
}

/// The recent-events section: the events, a hint when there are none, or
/// the error met reading the log.
pub open spec fn recent_events_spec(events: Result<Seq<DiagnosticEvent>, Seq<char>>) -> Seq<(nat, Seq<char>, Seq<char>, bool, Color)> {
    match events {
        Err(msg) => seq![note("  Could not read diagnostics log: "@ + msg, Color::Red)],
        Ok(es) => if es.len() == 0 {
            seq![
                note(
                    "  No diagnostics yet. Trigger Apply/Refresh or wait for service events."@,
                    Color::DarkGrey,
                ),
            ]
        } else {
            event_notes(es)
        },
    }
}

/// The service summary line and its colour.
pub open spec fn service_summary_spec(installed: bool, running: bool) -> (nat, Seq<char>, Seq<char>, bool, Color) {
    note(
        "  Service: "@ + (if installed {
            "installed"@
        } else {
            "missing"@
        }) + " / "@ + (if running {
            "running"@
        } else {
            "stopped"@
        }),
        if installed && running {
            Color::Green
        } else {
            Color::Yellow
        },
    )
}

/// The entries of the service diagnostics page. `latency` is the latency
/// summary line, when latency is recorded, with the number of failed
/// applies it counts; `events` the recent events or the error met reading
/// them.
pub open spec fn service_diagnostics_spec(
    installed: bool,
    running: bool,
    latest_success: Option<Seq<char>>,
    latency: Option<(Seq<char>, u64)>,
    events: Result<Seq<DiagnosticEvent>, Seq<char>>,
) -> Seq<(nat, Seq<char>, Seq<char>, bool, Color)> {
    let last = note(
        "  Last successful apply: "@ + match latest_success {
            Some(t) => t,
            None => "none recorded"@,
        },
        Color::White,
    );
    let lat: Seq<(nat, Seq<char>, Seq<char>, bool, Color)> = match latency {
        Some((t, failures)) => seq![
            note(t, if failures > 0 {
                Color::Yellow
            } else {
                Color::Green
            }),
        ],
        None => Seq::empty(),
    };
    seq![blank(), section("SUMMARY"@), service_summary_spec(installed, running), last] + lat + seq![
        blank(),
        section("RECENT EVENTS"@),
    ] + recent_events_spec(events) + seq![
        blank(),
        section("ACTIONS"@),
        item("1"@, "Refresh this page"@),
        item("2"@, "Open state folder"@),
        item("3"@, "Clear diagnostics log"@),
        item("4"@, "Check service status"@),
        item("5"@, "Run conflict detector"@),
        blank(),
        section("NAVIGATION"@),
        item("B"@, "Back to Maintenance"@),
        item("Z"@, "Back to Main Menu"@),
        quit(),
        blank(),
    ]
}

fn event_line(e: &DiagnosticEvent) -> (r: String)
    ensures
        r@ == event_line_spec(*e),
{
    let mut line = String::from_str("  ");
    line.append(e.timestamp.as_str());
    line.append(" [");
    line.append(e.source.as_str());
    line.append(":");
    line.append(e.level.as_str());
    line.append("] ");
    line.append(e.event.as_str());
    let t = trim(e.details.as_str());
    if !t.as_str().is_empty() {
        line.append(": ");
        line.append(e.details.as_str());
    }
    line
}

fn level_color_of(level: &str) -> (r: Color)
    ensures
        r == level_color(level@),
{
    if crate::text::str_equals(level, "ERROR") {
        Color::Red
    } else if crate::text::str_equals(level, "WARN") {
        Color::Yellow
    } else {
        Color::White
    }
}

fn push_notes(v: &mut Vec<Entry>, lines: &Vec<String>, c: Color)
    ensures
        entries_view(final(v)@) == entries_view(old(v)@) + notes_of(strings_view(lines@), c),
{
    let ghost base = entries_view(v@);
    let mut j: usize = 0;
    while j < lines.len()
        invariant
            j <= lines.len(),
            entries_view(v@) == base + notes_of(strings_view(lines@).subrange(0, j as int), c),
        decreases lines.len() - j,
    {
        let ghost before = v@;
        v.push(Entry::Note(lines[j].clone(), c));
        proof {
            assert(entries_view(v@) =~= entries_view(before) + seq![note(lines@[j as int]@, c)]);
            assert(notes_of(strings_view(lines@).subrange(0, j + 1), c) =~= notes_of(
                strings_view(lines@).subrange(0, j as int),
                c,
            ) + seq![note(lines@[j as int]@, c)]);
        }
        j = j + 1;
    }
    proof {
        assert(strings_view(lines@).subrange(0, lines@.len() as int) =~= strings_view(lines@));
    }
}

fn push_event_notes(v: &mut Vec<Entry>, events: &Vec<DiagnosticEvent>)
    ensures
        entries_view(final(v)@) == entries_view(old(v)@) + event_notes(events@),
{
    let ghost base = entries_view(v@);
    let mut i: usize = 0;
    proof {
        assert(events@.subrange(0, 0) =~= Seq::<DiagnosticEvent>::empty());
        assert(base + event_notes(Seq::<DiagnosticEvent>::empty()) =~= base);
    }
    while i < events.len()
        invariant
            i <= events.len(),
            entries_view(v@) == base + event_notes(events@.subrange(0, i as int)),
        decreases events.len() - i,
    {
        let e = &events[i];
        let line = event_line(e);
        let wrapped = wrap_text(line.as_str(), INNER - 2);
        let c = level_color_of(e.level.as_str());
        push_notes(v, &wrapped, c);
        proof {
            let pre = events@.subrange(0, i + 1);
            assert(pre.drop_last() =~= events@.subrange(0, i as int));
            assert(pre.last() == events@[i as int]);
        }
        i = i + 1;
    }
    proof {
        assert(events@.subrange(0, events@.len() as int) =~= events@);
    }
}

fn note_entry(t: String, c: Color) -> (r: Entry)
    ensures
        entry_view(r) == note(t@, c),
{
    Entry::Note(t, c)
}

/// The entries of the service diagnostics page: the service state, the
/// last successful apply, the latency summary line (given with the number
/// of failed applies it counts, when latency is recorded), the recent
/// events (or the error met reading them), and the page's keys.
pub fn service_diagnostics_entries(
    installed: bool,
    running: bool,
    latest_success: &Option<String>,
    latency: &Option<(String, u64)>,
    events: &Result<Vec<DiagnosticEvent>, String>,
) -> (r: Vec<Entry>)
    ensures
        entries_view(r@) == service_diagnostics_spec(
            installed,
            running,
            match latest_success {
                Some(t) => Some(t@),
                None => None,
            },
            match latency {
                Some(l) => Some((l.0@, l.1)),
                None => None,
            },
            match events {
                Ok(es) => Ok(es@),
                Err(m) => Err(m@),
            },
        ),
{
    let mut service = String::from_str("  Service: ");
    service.append(if installed {
        "installed"
    } else {
        "missing"
    });
    service.append(" / ");
    service.append(if running {
        "running"
    } else {
        "stopped"
    });
    let mut last = String::from_str("  Last successful apply: ");
    match latest_success {
        Some(t) => last.append(t.as_str()),
        None => last.append("none recorded"),
    }
    let mut v: Vec<Entry> = Vec::new();
    v.push(Entry::Blank);
    v.push(Entry::Section("SUMMARY"));
    v.push(note_entry(service, if installed && running {
        Color::Green
    } else {
        Color::Yellow
    }));
    v.push(note_entry(last, Color::White));
    match latency {
        Some((t, failures)) => {
            v.push(note_entry(t.clone(), if *failures > 0 {
                Color::Yellow
            } else {
                Color::Green
            }));
        },
        None => {},
    }
    v.push(Entry::Blank);
    v.push(Entry::Section("RECENT EVENTS"));
    let ghost head = entries_view(v@);
    match events {
        Err(m) => {
            let mut msg = String::from_str("  Could not read diagnostics log: ");
            msg.append(m.as_str());
            v.push(note_entry(msg, Color::Red));
        },
        Ok(es) => {
            if es.len() == 0 {
                v.push(
                    note_entry(
                        String::from_str(
                            "  No diagnostics yet. Trigger Apply/Refresh or wait for service events.",
                        ),
                        Color::DarkGrey,
                    ),
                );
            } else {
                push_event_notes(&mut v, es);
            }
        },
    }
    let ghost mid = entries_view(v@);
    let tail = vec![
        Entry::Blank,
        Entry::Section("ACTIONS"),
        it("1", "Refresh this page"),
        it("2", "Open state folder"),
        it("3", "Clear diagnostics log"),
        it("4", "Check service status"),
        it("5", "Run conflict detector"),
        Entry::Blank,
        Entry::Section("NAVIGATION"),
        it("B", "Back to Maintenance"),
        it("Z", "Back to Main Menu"),
        Entry::Quit,
        Entry::Blank,
    ];
    let ghost tail_view = entries_view(tail@);
    let mut tail = tail;
    v.append(&mut tail);
    proof {
        assert(entries_view(v@) =~= mid + tail_view);
    }
    v
}

/// The entries of the main menu.
pub open spec fn main_entries(o: Options) -> Seq<(nat, Seq<char>, Seq<char>, bool, Color)> {
    seq![
        blank(),
        section("INSTALL OPTIONS"@),
        item("1"@, "Default Install (Profile + Service)"@),
        item("2"@, "Profile Only (Install ICC without service)"@),
        item("3"@, "Service Only (Install service only)"@),
        blank(),
        section("UNINSTALL"@),
        item("4"@, "Remove Service (Keep profile)"@),
        item("5"@, "Remove Profile Only"@),
        item("6"@, "Full Uninstall (Remove everything)"@),
        blank(),
        section("MORE"@),
        item("M"@, "Maintenance (Diagnostics & refresh tools)"@),
        item("D"@, "DDC/CI Studio (Direct monitor controls)"@),
        item("I"@, "ICC Studio (Presets, tuning, and on-the-fly optimize)"@),
        blank(),
        (3, "A"@, advanced_label_spec(o), active_toggles_spec(o).len() > 0, Color::White),
        blank(),
        quit(),
        blank(),
    ]
}

/// The entries of the maintenance page.
pub open spec fn maintenance_entries() -> Seq<(nat, Seq<char>, Seq<char>, bool, Color)> {
    seq![
        blank(),
        section("PROFILE"@),
        item("1"@, "Refresh (Re-apply profile now)"@),
        item("2"@, "Reinstall (Clean reinstall everything)"@),
        blank(),
        section("DIAGNOSTICS"@),
        item("3"@, "Detect Monitors"@),
        item("4"@, "Service Diagnostics (Recent apply history)"@),
        item("5"@, "Recheck Service (Stop + Start)"@),
        item("6"@, "Check Applicability + Conflict Detector"@),
        item("7"@, "Test Toast Notification"@),
        blank(),
        section("FORCE REFRESH"@),
        item("8"@, "Force Refresh Color Profile"@),
        item("9"@, "Force Refresh Color Management"@),
        blank(),
        section("DDC/CI"@),
        item("0"@, "Set DDC Brightness (Test)"@),
        item("A"@, "Safe Recovery Rollback (Last known good)"@),
        blank(),
        section("NAVIGATION"@),
        item("N"@, "Open DDC/CI Studio"@),
        item("B"@, "Back to Main Menu"@),
        quit(),
        blank(),
    ]
}

/// The entries of the DDC/CI studio page, for the given target label.
pub open spec fn ddc_studio_entries(target: Seq<char>) -> Seq<(nat, Seq<char>, Seq<char>, bool, Color)> {
    seq![
        blank(),
        note("  Target: "@ + target, Color::Green),
        blank(),
        section("READ"@),
        item("1"@, "View VCP Version"@),
        item("2"@, "Read Color Preset (VCP 0x14)"@),
        item("4"@, "Read Display Mode (VCP 0xDC)"@),
        item("A"@, "Read Brightness (VCP 0x10)"@),
        item("C"@, "Read Custom VCP (Any code)"@),
        blank(),
        section("WRITE"@),
        item("3"@, "Cycle Color Preset (sRGB\u{2192}6500K\u{2192}9300K\u{2192}User1)"@),
        item("5"@, "Set Display Mode (VCP 0xDC)"@),
        item("B"@, "Set Brightness (VCP 0x10)"@),
        item("D"@, "Write Custom VCP (Any code/value)"@),
        item("E"@, "DDC Guardrails (Limits + confirmations)"@),
        blank(),
        section("RESET"@),
        item("6"@, "Reset Brightness + Contrast (VCP 0x06)"@),
        item("7"@, "Reset Color (VCP 0x0A)"@),
        blank(),
        section("INFO"@),
        item("8"@, "List Physical Monitors (DDC)"@),
        blank(),
        section("TARGET"@),
        item("9"@, "Select Target Monitor"@),
        item("0"@, "Reset Target (use config default)"@),
        blank(),
        section("NAVIGATION"@),
        item("P"@, "\u{2190} Previous Page (Maintenance)"@),
        item("Z"@, "Back to Main Menu"@),
        quit(),
        blank(),
    ]
}

/// The entries of the advanced options page.
pub open spec fn advanced_entries(o: Options) -> Seq<(nat, Seq<char>, Seq<char>, bool, Color)> {
    seq![
        blank(),
        section("NOTIFICATIONS"@),
        toggle("1"@, "Toast Notifications (Show reapply alerts)"@, o.toast),
        blank(),
        section("TESTING"@),
        toggle("2"@, "Dry Run (Simulate without changes)"@, o.dry_run),
        toggle("3"@, "Verbose Logging (Detailed output)"@, o.verbose),
        blank(),
        section("COLOR MODE"@),
        toggle("4"@, "HDR Mode (Advanced color association)"@, o.hdr),
        toggle("5"@, "SDR Mode (Standard color association)"@, o.sdr),
        blank(),
        section("INSTALL MODE"@),
        toggle("6"@, "Per-User Install (User scope, not system)"@, o.per_user),
        toggle("7"@, "Generic Default (Legacy default profile API)"@, o.generic_default),
        blank(),
        section("DDC/CI BRIGHTNESS"@),
        toggle("8"@, "Auto-Set Brightness on Reapply"@, o.ddc_brightness),
        item("9"@, "Brightness Value: "@ + decimal_of(o.ddc_brightness_value as nat) + " (press to select)"@),
        blank(),
        note("  These toggles affect main menu install options"@, Color::DarkGrey),
        blank(),
        section("NAVIGATION"@),
        item("B"@, "Back to Main Menu"@),
        quit(),
        blank(),
    ]
}

fn it(k: &str, t: &str) -> (r: Entry)
    ensures
        entry_view(r) == item(k@, t@),
{
    Entry::Item(String::from_str(k), String::from_str(t), false)
}

/// The entries of the main menu.
pub fn main_menu_entries(o: &Options) -> (r: Vec<Entry>)
    ensures
        entries_view(r@) == main_entries(*o),
{
    let (label, active) = advanced_label(o);
    let v = vec![
        Entry::Blank,
        Entry::Section("INSTALL OPTIONS"),
        it("1", "Default Install (Profile + Service)"),
        it("2", "Profile Only (Install ICC without service)"),
        it("3", "Service Only (Install service only)"),
        Entry::Blank,
        Entry::Section("UNINSTALL"),
        it("4", "Remove Service (Keep profile)"),
        it("5", "Remove Profile Only"),
        it("6", "Full Uninstall (Remove everything)"),
        Entry::Blank,
        Entry::Section("MORE"),
        it("M", "Maintenance (Diagnostics & refresh tools)"),
        it("D", "DDC/CI Studio (Direct monitor controls)"),
        it("I", "ICC Studio (Presets, tuning, and on-the-fly optimize)"),
        Entry::Blank,
        Entry::Item(String::from_str("A"), label, active),
        Entry::Blank,
        Entry::Quit,
        Entry::Blank,
    ];
    assert(entries_view(v@) =~= main_entries(*o));
    v
}

/// The entries of the maintenance page.
pub fn maintenance_menu_entries() -> (r: Vec<Entry>)
    ensures
        entries_view(r@) == maintenance_entries(),
{
    let v = vec![
        Entry::Blank,
        Entry::Section("PROFILE"),
        it("1", "Refresh (Re-apply profile now)"),
        it("2", "Reinstall (Clean reinstall everything)"),
        Entry::Blank,
        Entry::Section("DIAGNOSTICS"),
        it("3", "Detect Monitors"),
        it("4", "Service Diagnostics (Recent apply history)"),
        it("5", "Recheck Service (Stop + Start)"),
        it("6", "Check Applicability + Conflict Detector"),
        it("7", "Test Toast Notification"),
        Entry::Blank,
        Entry::Section("FORCE REFRESH"),
        it("8", "Force Refresh Color Profile"),
        it("9", "Force Refresh Color Management"),
        Entry::Blank,
        Entry::Section("DDC/CI"),
        it("0", "Set DDC Brightness (Test)"),
        it("A", "Safe Recovery Rollback (Last known good)"),
        Entry::Blank,
        Entry::Section("NAVIGATION"),
        it("N", "Open DDC/CI Studio"),
        it("B", "Back to Main Menu"),
        Entry::Quit,
        Entry::Blank,
    ];
    assert(entries_view(v@) =~= maintenance_entries());
    v
}

/// The entries of the DDC/CI studio page for the current target's label.
pub fn ddc_studio_menu_entries(target_label: &str) -> (r: Vec<Entry>)
    ensures
        entries_view(r@) == ddc_studio_entries(target_label@),
{
    let mut t = String::from_str("  Target: ");
    t.append(target_label);
    let v = vec![
        Entry::Blank,
        Entry::Note(t, Color::Green),
        Entry::Blank,
        Entry::Section("READ"),
        it("1", "View VCP Version"),
        it("2", "Read Color Preset (VCP 0x14)"),
        it("4", "Read Display Mode (VCP 0xDC)"),
        it("A", "Read Brightness (VCP 0x10)"),
        it("C", "Read Custom VCP (Any code)"),
        Entry::Blank,
        Entry::Section("WRITE"),
        it("3", "Cycle Color Preset (sRGB\u{2192}6500K\u{2192}9300K\u{2192}User1)"),
        it("5", "Set Display Mode (VCP 0xDC)"),
        it("B", "Set Brightness (VCP 0x10)"),
        it("D", "Write Custom VCP (Any code/value)"),
        it("E", "DDC Guardrails (Limits + confirmations)"),
        Entry::Blank,
        Entry::Section("RESET"),
        it("6", "Reset Brightness + Contrast (VCP 0x06)"),
        it("7", "Reset Color (VCP 0x0A)"),
        Entry::Blank,
        Entry::Section("INFO"),
        it("8", "List Physical Monitors (DDC)"),
        Entry::Blank,
        Entry::Section("TARGET"),
        it("9", "Select Target Monitor"),
        it("0", "Reset Target (use config default)"),
        Entry::Blank,
        Entry::Section("NAVIGATION"),
        it("P", "\u{2190} Previous Page (Maintenance)"),
        it("Z", "Back to Main Menu"),
        Entry::Quit,
        Entry::Blank,
    ];
    assert(entries_view(v@) =~= ddc_studio_entries(target_label@));
    v
}

/// The entries of the advanced options page.
pub fn advanced_menu_entries(o: &Options) -> (r: Vec<Entry>)
    ensures
        entries_view(r@) == advanced_entries(*o),
{
    let mut value = String::from_str("Brightness Value: ");
    push_decimal(&mut value, o.ddc_brightness_value as u64);
    value.append(" (press to select)");
    let v = vec![
        Entry::Blank,
        Entry::Section("NOTIFICATIONS"),
        Entry::Toggle("1", "Toast Notifications (Show reapply alerts)", o.toast),
        Entry::Blank,
        Entry::Section("TESTING"),
        Entry::Toggle("2", "Dry Run (Simulate without changes)", o.dry_run),
        Entry::Toggle("3", "Verbose Logging (Detailed output)", o.verbose),
        Entry::Blank,
        Entry::Section("COLOR MODE"),
        Entry::Toggle("4", "HDR Mode (Advanced color association)", o.hdr),
        Entry::Toggle("5", "SDR Mode (Standard color association)", o.sdr),
        Entry::Blank,
        Entry::Section("INSTALL MODE"),
        Entry::Toggle("6", "Per-User Install (User scope, not system)", o.per_user),
        Entry::Toggle("7", "Generic Default (Legacy default profile API)", o.generic_default),
        Entry::Blank,
        Entry::Section("DDC/CI BRIGHTNESS"),
        Entry::Toggle("8", "Auto-Set Brightness on Reapply", o.ddc_brightness),
        Entry::Item(String::from_str("9"), value, false),
        Entry::Blank,
        Entry::Note(String::from_str("  These toggles affect main menu install options"), Color::DarkGrey),
        Entry::Blank,
        Entry::Section("NAVIGATION"),
        it("B", "Back to Main Menu"),
        Entry::Quit,
        Entry::Blank,
    ];
    assert(entries_view(v@) =~= advanced_entries(*o));
    v
}

/// The key press an entry advertises: the lowercase of an item's or a
/// toggle's one-character key, or `q` for the quit entry.
pub open spec fn shown_key(e: (nat, Seq<char>, Seq<char>, bool, Color)) -> Option<char> {
    if (e.0 == 3 || e.0 == 4) && e.1.len() == 1 {
        Some(crate::text::ascii_lower(e.1[0]))
    } else if e.0 == 5 {
        Some('q')
    } else {
        None
    }
}

/// Every key a page shows does something on that page.
pub open spec fn shown_keys_answered(page: Page, es: Seq<(nat, Seq<char>, Seq<char>, bool, Color)>) -> bool {
    forall|i: int|
        0 <= i < es.len() ==> match #[trigger] shown_key(es[i]) {
            Some(k) => menu_step_spec(page, k) != MenuStep::Stay,
            None => true,
        }
}

/// The menu and the key handling agree: every key the main, maintenance,
/// DDC/CI studio and advanced pages show is a key that page answers to.
pub proof fn law_shown_keys_answered(o: Options, target: Seq<char>)
    ensures
        shown_keys_answered(Page::Main, main_entries(o)),
        shown_keys_answered(Page::Maintenance, maintenance_entries()),
        shown_keys_answered(Page::Maintenance2, ddc_studio_entries(target)),
        shown_keys_answered(Page::Advanced, advanced_entries(o)),
{
    reveal_strlit("0");
    reveal_strlit("1");
    reveal_strlit("2");
    reveal_strlit("3");
    reveal_strlit("4");
    reveal_strlit("5");
    reveal_strlit("6");
    reveal_strlit("7");
    reveal_strlit("8");
    reveal_strlit("9");
    reveal_strlit("A");
    reveal_strlit("B");
    reveal_strlit("C");
    reveal_strlit("D");
    reveal_strlit("E");
    reveal_strlit("I");
    reveal_strlit("M");
    reveal_strlit("N");
    reveal_strlit("P");
    reveal_strlit("Z");
    let m = main_entries(o);
    assert forall|i: int| 0 <= i < m.len() implies match #[trigger] shown_key(m[i]) {
        Some(k) => menu_step_spec(Page::Main, k) != MenuStep::Stay,
        None => true,
    } by {}
    let n = maintenance_entries();
    assert forall|i: int| 0 <= i < n.len() implies match #[trigger] shown_key(n[i]) {
        Some(k) => menu_step_spec(Page::Maintenance, k) != MenuStep::Stay,
        None => true,
    } by {}
    let d = ddc_studio_entries(target);
    assert forall|i: int| 0 <= i < d.len() implies match #[trigger] shown_key(d[i]) {
        Some(k) => menu_step_spec(Page::Maintenance2, k) != MenuStep::Stay,
        None => true,
    } by {}
    let a = advanced_entries(o);
    assert forall|i: int| 0 <= i < a.len() implies match #[trigger] shown_key(a[i]) {
        Some(k) => menu_step_spec(Page::Advanced, k) != MenuStep::Stay,
        None => true,
    } by {}
}

/// The lines of a screen, each by the views of its segments.
pub open spec fn lines_view(ls: Seq<Vec<Segment>>) -> Seq<Seq<(Color, Seq<char>)>> {
    ls.map_values(|l: Vec<Segment>| line_view(l@))
}

/// The farewell message.
pub open spec fn thank_you() -> Seq<char> {
    "Thank you for using LG UltraGear Auto-Dimming Fix!"@
}

/// The farewell screen: a box holding the thanks and the project's home.
pub open spec fn goodbye_spec() -> Seq<Seq<(Color, Seq<char>)>> {
    let bar = repeat_spec('\u{2550}', 68);
    let empty = seq![(Color::Cyan, "  \u{2551}"@ + repeat_spec(' ', 68) + "\u{2551}"@)];
    seq![
        seq![(Color::White, Seq::<char>::empty())],
        seq![(Color::Cyan, "  \u{2554}"@ + bar + "\u{2557}"@)],
        empty,
        seq![(Color::Cyan, "  \u{2551} "@), (Color::White, pad_right_spec(thank_you(), 66)), (Color::Cyan, " \u{2551}"@)],
        empty,
        seq![(Color::Cyan, "  \u{2551} "@), (Color::DarkGrey, pad_right_spec(REPO@, 66)), (Color::Cyan, " \u{2551}"@)],
        empty,
        seq![(Color::Cyan, "  \u{255A}"@ + bar + "\u{255D}"@)],
        seq![(Color::White, Seq::<char>::empty())],
    ]
}

fn one(color: Color, text: String) -> (r: Vec<Segment>)
    ensures
        line_view(r@) == seq![(color, text@)],
{
    let v = vec![segment(color, text)];
    assert(line_view(v@) =~= seq![(color, text@)]);
    v
}

fn boxed_empty_line() -> (r: Vec<Segment>)
    ensures
        line_view(r@) == seq![(Color::Cyan, "  \u{2551}"@ + repeat_spec(' ', 68) + "\u{2551}"@)],
{
    let mut s = String::from_str("  \u{2551}");
    push_repeat(&mut s, ' ', 68);
    s.append("\u{2551}");
    one(Color::Cyan, s)
}

fn boxed_text_line(text: &str, color: Color) -> (r: Vec<Segment>)
    ensures
        line_view(r@) == seq![(Color::Cyan, "  \u{2551} "@), (color, pad_right_spec(text@, 66)), (Color::Cyan, " \u{2551}"@)],
{
    let v = vec![
        segment_str(Color::Cyan, "  \u{2551} "),
        segment(color, pad_right(text, 66)),
        segment_str(Color::Cyan, " \u{2551}"),
    ];
    assert(line_view(v@) =~= seq![(Color::Cyan, "  \u{2551} "@), (color, pad_right_spec(text@, 66)), (Color::Cyan, " \u{2551}"@)]);
    v
}

/// The farewell screen shown when the menu is left.
pub fn goodbye_lines() -> (r: Vec<Vec<Segment>>)
    ensures
        lines_view(r@) == goodbye_spec(),
{
    let mut top = String::from_str("  \u{2554}");
    push_repeat(&mut top, '\u{2550}', 68);
    top.append("\u{2557}");
    let mut bottom = String::from_str("  \u{255A}");
    push_repeat(&mut bottom, '\u{2550}', 68);
    bottom.append("\u{255D}");
    let v = vec![
        one(Color::White, String::new()),
        one(Color::Cyan, top),
        boxed_empty_line(),
        boxed_text_line("Thank you for using LG UltraGear Auto-Dimming Fix!", Color::White),
        boxed_empty_line(),
        boxed_text_line(REPO, Color::DarkGrey),
        boxed_empty_line(),
        one(Color::Cyan, bottom),
        one(Color::White, String::new()),
    ];
    assert(lines_view(v@) =~= goodbye_spec());
    v
}

/// The header's colour-profile status.
pub open spec fn profile_status_spec(installed: bool) -> (Seq<char>, Color) {
    if installed {
        ("\u{25CF} Installed"@, Color::Green)
    } else {
        ("\u{25CB} Not Installed"@, Color::Red)
    }
}

/// The header's service status.
pub open spec fn service_status_spec(installed: bool, running: bool) -> (Seq<char>, Color) {
    if installed {
        if running {
            ("\u{25CF} Running"@, Color::Green)
        } else {
            ("\u{25CB} Stopped"@, Color::Yellow)
        }
    } else {
        ("\u{25CB} Not Installed"@, Color::Red)
    }
}

/// The header's monitor status.
pub open spec fn monitor_status_spec(count: usize) -> (Seq<char>, Color) {
    if count > 0 {
        ("\u{25CF} "@ + decimal_of(count as nat) + " monitor(s) detected"@, Color::Green)
    } else {
        ("\u{25CB} None detected"@, Color::Red)
    }
}

/// The header's HDR or SDR mode status.
pub open spec fn mode_status_spec(enabled: bool) -> (Seq<char>, Color) {
    if enabled {
        ("\u{25CF} Enabled"@, Color::Green)
    } else {
        ("\u{25CB} Disabled"@, Color::Yellow)
    }
}

/// A status line of the header: its label, then the value in its colour.
pub open spec fn status_line_spec(label: Seq<char>, value: (Seq<char>, Color)) -> Seq<(Color, Seq<char>)> {
    let prefix = "  "@ + label + " "@;
    seq![
        (Color::Cyan, "\u{2551} "@),
        (Color::Grey, prefix),
        (value.1, pad_right_spec(value.0, sat_sub(INNER as int, str_bytes(prefix) as int))),
        (Color::Cyan, " \u{2551}"@),
    ]
}

fn status_line(label: &str, value: String, color: Color) -> (r: Vec<Segment>)
    ensures
        line_view(r@) == status_line_spec(label@, (value@, color)),
{
    let mut prefix = String::from_str("  ");
    prefix.append(label);
    prefix.append(" ");
    let len = prefix.as_str().len();
    let width = if INNER >= len {
        INNER - len
    } else {
        0
    };
    let padded = pad_right(value.as_str(), width);
    let v = vec![
        segment_str(Color::Cyan, "\u{2551} "),
        segment(Color::Grey, prefix),
        segment(color, padded),
        segment_str(Color::Cyan, " \u{2551}"),
    ];
    assert(line_view(v@) =~= status_line_spec(label@, (value@, color)));
    v
}

/// The header of every page: the title box, the version line and the
/// current status of the installation.
pub open spec fn header_spec(st: Status, version: Seq<char>) -> Seq<Seq<(Color, Seq<char>)>> {
    seq![
        seq![(Color::Cyan, top_line_spec(TITLE@))],
        seq![
            (Color::Cyan, "\u{2551} "@),
            (Color::DarkGrey, pad_center_spec("Version "@ + version + "  \u{2502}  "@ + REPO@, INNER as nat)),
            (Color::Cyan, " \u{2551}"@),
        ],
        seq![(Color::DarkCyan, sep_line_spec(Seq::empty()))],
        framed_spec(Seq::empty(), Color::White),
        framed_spec("\u{250C}\u{2500} CURRENT STATUS "@ + repeat_spec('\u{2500}', 51) + "\u{2510}"@, Color::DarkCyan),
        status_line_spec("Color Profile:"@, profile_status_spec(st.profile_installed)),
        status_line_spec("Service:      "@, service_status_spec(st.service_installed, st.service_running)),
        status_line_spec("LG UltraGear: "@, monitor_status_spec(st.monitor_count)),
        status_line_spec("HDR Mode:     "@, mode_status_spec(st.hdr_enabled)),
        status_line_spec("SDR Mode:     "@, mode_status_spec(st.sdr_enabled)),
        framed_spec("\u{2514}"@ + repeat_spec('\u{2500}', (INNER - 2) as nat) + "\u{2518}"@, Color::DarkCyan),
        framed_spec(Seq::empty(), Color::White),
    ]
}

/// The header of every page, for the installation status and the tool's version.
pub fn header_lines(st: &Status, version: &str) -> (r: Vec<Vec<Segment>>)
    ensures
        lines_view(r@) == header_spec(*st, version@),
{
    let mut version_line = String::from_str("Version ");
    version_line.append(version);
    version_line.append("  \u{2502}  ");
    version_line.append(REPO);
    let centred = vec![
        segment_str(Color::Cyan, "\u{2551} "),
        segment(Color::DarkGrey, pad_center(version_line.as_str(), INNER)),
        segment_str(Color::Cyan, " \u{2551}"),
    ];
    assert(line_view(centred@) =~= seq![
        (Color::Cyan, "\u{2551} "@),
        (Color::DarkGrey, pad_center_spec("Version "@ + version@ + "  \u{2502}  "@ + REPO@, INNER as nat)),
        (Color::Cyan, " \u{2551}"@),
    ]);
    // The status label "─ CURRENT STATUS " is 19 bytes long.
    let mut status_top = String::from_str("\u{250C}\u{2500} CURRENT STATUS ");
    push_repeat(&mut status_top, '\u{2500}', INNER - 2 - 19);
    status_top.append("\u{2510}");
    let mut status_bottom = String::from_str("\u{2514}");
    push_repeat(&mut status_bottom, '\u{2500}', INNER - 2);
    status_bottom.append("\u{2518}");
    let (p, pc) = if st.profile_installed {
        ("\u{25CF} Installed", Color::Green)
    } else {
        ("\u{25CB} Not Installed", Color::Red)
    };
    let (sv, sc) = if st.service_installed {
        if st.service_running {
            ("\u{25CF} Running", Color::Green)
        } else {
            ("\u{25CB} Stopped", Color::Yellow)
        }
    } else {
        ("\u{25CB} Not Installed", Color::Red)
    };
    let (mv, mc) = if st.monitor_count > 0 {
        let mut m = String::from_str("\u{25CF} ");
        push_decimal(&mut m, st.monitor_count as u64);
        m.append(" monitor(s) detected");
        (m, Color::Green)
    } else {
        (String::from_str("\u{25CB} None detected"), Color::Red)
    };
    let (hv, hc) = if st.hdr_enabled {
        ("\u{25CF} Enabled", Color::Green)
    } else {
        ("\u{25CB} Disabled", Color::Yellow)
    };
    let (dv, dc) = if st.sdr_enabled {
        ("\u{25CF} Enabled", Color::Green)
    } else {
        ("\u{25CB} Disabled", Color::Yellow)
    };
    let empty1 = entry_line(&Entry::Blank);
    let empty2 = entry_line(&Entry::Blank);
    let v = vec![
        one(Color::Cyan, top_line(TITLE)),
        centred,
        one(Color::DarkCyan, sep_line("")),
        empty1,
        framed(status_top.as_str(), Color::DarkCyan),
        status_line("Color Profile:", String::from_str(p), pc),
        status_line("Service:      ", String::from_str(sv), sc),
        status_line("LG UltraGear: ", mv, mc),
        status_line("HDR Mode:     ", String::from_str(hv), hc),
        status_line("SDR Mode:     ", String::from_str(dv), dc),
        framed(status_bottom.as_str(), Color::DarkCyan),
        empty2,
    ];
    proof {
        reveal_strlit("");
    }
    assert(lines_view(v@) =~= header_spec(*st, version@));
    v
}

/// The entries of a pick-one submenu: each choice under its uppercased key,
/// the current one marked with an arrow and drawn in green, then the hint.
pub open spec fn submenu_entries_spec(cs: Seq<(char, Seq<char>, bool)>) -> Seq<(nat, Seq<char>, Seq<char>, bool, Color)> {
    seq![blank()] + cs.map_values(
        |c: (char, Seq<char>, bool)|
            (3nat, seq![crate::text::ascii_upper(c.0)], if c.2 {
                c.1 + " \u{25C4}"@
            } else {
                c.1
            }, c.2, Color::White),
    ) + seq![blank(), note("  Press Esc to cancel"@, Color::DarkGrey), blank()]
}

/// The entries of a pick-one submenu.
pub fn submenu_entries(choices: &Vec<crate::tui::MenuChoice>) -> (r: Vec<Entry>)
    ensures
        entries_view(r@) == submenu_entries_spec(crate::tui::choices_view(choices@)),
{
    let mut v: Vec<Entry> = Vec::new();
    v.push(Entry::Blank);
    let mut i: usize = 0;
    while i < choices.len()
        invariant
            i <= choices.len(),
            v@.len() == i + 1,
            entry_view(v@[0]) == blank(),
            forall|j: int| 0 <= j < i ==> #[trigger] entry_view(v@[j + 1]) == submenu_entries_spec(
                crate::tui::choices_view(choices@),
            )[j + 1],
        decreases choices.len() - i,
    {
        let c = &choices[i];
        let mut key = String::new();
        push_char(&mut key, crate::text::to_ascii_upper(c.key));
        let mut label = String::from_str(c.label.as_str());
        if c.current {
            label.append(" \u{25C4}");
        }
        v.push(Entry::Item(key, label, c.current));
        i = i + 1;
    }
    v.push(Entry::Blank);
    v.push(Entry::Note(String::from_str("  Press Esc to cancel"), Color::DarkGrey));
    v.push(Entry::Blank);
    proof {
        let sp = submenu_entries_spec(crate::tui::choices_view(choices@));
        let n = choices@.len();
        assert(sp.len() == n + 4);
        assert(entries_view(v@).len() == n + 4);
        assert forall|j: int| 0 <= j < n + 4 implies entries_view(v@)[j] == sp[j] by {
            if j == 0 {
            } else if j <= n {
                assert(entry_view(v@[(j - 1) + 1]) == sp[(j - 1) + 1]);
            } else {
            }
        }
    }
    assert(entries_view(v@) =~= submenu_entries_spec(crate::tui::choices_view(choices@)));
    v
}

/// The text of a line: its segments one after the other.
pub open spec fn line_text(l: Seq<(Color, Seq<char>)>) -> Seq<char>
    decreases l.len(),
{
    if l.len() == 0 {
        Seq::empty()
    } else {
        line_text(l.drop_last()) + l.last().1
    }
}

/// The text of a screen without colours: each line followed by a newline.
pub open spec fn screen_text(ls: Seq<Seq<(Color, Seq<char>)>>) -> Seq<char>
    decreases ls.len(),
{
    if ls.len() == 0 {
        Seq::empty()
    } else {
        screen_text(ls.drop_last()) + line_text(ls.last()) + seq!['\n']
    }
}

/// The plain text of a screen, for output without colours.
pub fn render_plain(lines: &Vec<Vec<Segment>>) -> (r: String)
    ensures
        r@ == screen_text(lines_view(lines@)),
{
    let mut out = String::new();
    let mut i: usize = 0;
    while i < lines.len()
        invariant
            i <= lines.len(),
            out@ == screen_text(lines_view(lines@.subrange(0, i as int))),
        decreases lines.len() - i,
    {
        let line = &lines[i];
        let ghost before = out@;
        let mut j: usize = 0;
        while j < line.len()
            invariant
                j <= line.len(),
                out@ == before + line_text(line_view(line@.subrange(0, j as int))),
            decreases line.len() - j,
        {
            out.append(line[j].text.as_str());
            proof {
                let t = line_view(line@.subrange(0, j + 1));
                assert(t.drop_last() =~= line_view(line@.subrange(0, j as int)));
                assert(t.last() == seg_view(line@[j as int]));
            }
            j = j + 1;
        }
        push_char(&mut out, '\n');
        proof {
            assert(line@.subrange(0, line@.len() as int) =~= line@);
            let ls = lines_view(lines@.subrange(0, i + 1));
            assert(ls.drop_last() =~= lines_view(lines@.subrange(0, i as int)));
            assert(ls.last() == line_view(lines@[i as int]@));
        }
        i = i + 1;
    }
    assert(lines@.subrange(0, lines@.len() as int) =~= lines@);
    out
}

/// The entry of `es` whose text starts with `label` is a key entry that
/// takes `step` on `page`.
pub open spec fn labelled_entry_does(
    es: Seq<(nat, Seq<char>, Seq<char>, bool, Color)>,
    page: Page,
    label: Seq<char>,
    step: MenuStep,
) -> bool {
    exists|i: int|
        0 <= i < es.len() && (es[i].0 == 3 || es[i].0 == 4) && label.is_prefix_of(#[trigger] es[i].2) && (
        shown_key(es[i]) matches Some(k) && menu_step_spec(page, k) == step)
}

/// What the labelled entries of the main page do, by what their labels say.
pub open spec fn main_labels() -> Seq<(Seq<char>, MenuStep)> {
    seq![
        ("Default Install (Profile + Service)"@, MenuStep::Run(MenuAction::DefaultInstall)),
        ("Profile Only (Install ICC without service)"@, MenuStep::Run(MenuAction::ProfileOnly)),
        ("Service Only (Install service only)"@, MenuStep::Run(MenuAction::ServiceOnly)),
        ("Remove Service (Keep profile)"@, MenuStep::Run(MenuAction::RemoveService)),
        ("Remove Profile Only"@, MenuStep::Run(MenuAction::RemoveProfile)),
        ("Full Uninstall (Remove everything)"@, MenuStep::Run(MenuAction::FullUninstall)),
        ("Maintenance (Diagnostics & refresh tools)"@, MenuStep::Goto(Page::Maintenance)),
        ("DDC/CI Studio (Direct monitor controls)"@, MenuStep::Goto(Page::Maintenance2)),
        ("ICC Studio (Presets, tuning, and on-the-fly optimize)"@, MenuStep::Goto(Page::IccStudio)),
        ("Advanced Options"@, MenuStep::Goto(Page::Advanced)),
    ]
}

proof fn lemma_main_labels(o: Options)
    ensures
        forall|j: int| 0 <= j < main_labels().len() ==> labelled_entry_does(main_entries(o), Page::Main, main_labels()[j].0, main_labels()[j].1),
{
    reveal_strlit("1");
    reveal_strlit("2");
    reveal_strlit("3");
    reveal_strlit("4");
    reveal_strlit("5");
    reveal_strlit("6");
    reveal_strlit("A");
    reveal_strlit("D");
    reveal_strlit("I");
    reveal_strlit("M");
    let es = main_entries(o);
    let t = main_labels();
    assert forall|j: int| 0 <= j < t.len() implies labelled_entry_does(es, Page::Main, t[j].0, t[j].1) by {
        if j == 0 {
            assert(t[j].0.is_prefix_of(es[2].2));
            assert(shown_key(es[2]) == Some(ascii_lower('1')));
        } else if j == 1 {
            assert(t[j].0.is_prefix_of(es[3].2));
            assert(shown_key(es[3]) == Some(ascii_lower('2')));
        } else if j == 2 {
            assert(t[j].0.is_prefix_of(es[4].2));
            assert(shown_key(es[4]) == Some(ascii_lower('3')));
        } else if j == 3 {
            assert(t[j].0.is_prefix_of(es[7].2));
            assert(shown_key(es[7]) == Some(ascii_lower('4')));
        } else if j == 4 {
            assert(t[j].0.is_prefix_of(es[8].2));
            assert(shown_key(es[8]) == Some(ascii_lower('5')));
        } else if j == 5 {
            assert(t[j].0.is_prefix_of(es[9].2));
            assert(shown_key(es[9]) == Some(ascii_lower('6')));
        } else if j == 6 {
            assert(t[j].0.is_prefix_of(es[12].2));
            assert(shown_key(es[12]) == Some(ascii_lower('M')));
        } else if j == 7 {
            assert(t[j].0.is_prefix_of(es[13].2));
            assert(shown_key(es[13]) == Some(ascii_lower('D')));
        } else if j == 8 {
            assert(t[j].0.is_prefix_of(es[14].2));
            assert(shown_key(es[14]) == Some(ascii_lower('I')));
        } else if j == 9 {
            lemma_advanced_label_prefix(o);
            assert(t[j].0.is_prefix_of(es[16].2));
            assert(shown_key(es[16]) == Some(ascii_lower('A')));
        }
    }
}

/// What the labelled entries of the maintenance page do, by what their labels say.
pub open spec fn maintenance_labels() -> Seq<(Seq<char>, MenuStep)> {
    seq![
        ("Refresh (Re-apply profile now)"@, MenuStep::Run(MenuAction::Refresh)),
        ("Reinstall (Clean reinstall everything)"@, MenuStep::Run(MenuAction::Reinstall)),
        ("Detect Monitors"@, MenuStep::Run(MenuAction::Detect)),
        ("Service Diagnostics (Recent apply history)"@, MenuStep::Goto(Page::ServiceDiagnostics)),
        ("Recheck Service (Stop + Start)"@, MenuStep::Run(MenuAction::RecheckService)),
        ("Check Applicability + Conflict Detector"@, MenuStep::Run(MenuAction::CheckApplicability)),
        ("Test Toast Notification"@, MenuStep::Run(MenuAction::TestToast)),
        ("Force Refresh Color Profile"@, MenuStep::Run(MenuAction::ForceRefreshProfile)),
        ("Force Refresh Color Management"@, MenuStep::Run(MenuAction::ForceRefreshColorManagement)),
        ("Set DDC Brightness (Test)"@, MenuStep::Run(MenuAction::SetDdcBrightness)),
        ("Safe Recovery Rollback (Last known good)"@, MenuStep::Run(MenuAction::SafeRecovery)),
        ("Open DDC/CI Studio"@, MenuStep::Goto(Page::Maintenance2)),
        ("Back to Main Menu"@, MenuStep::Goto(Page::Main)),
    ]
}

proof fn lemma_maintenance_labels()
    ensures
        forall|j: int| 0 <= j < maintenance_labels().len() ==> labelled_entry_does(maintenance_entries(), Page::Maintenance, maintenance_labels()[j].0, maintenance_labels()[j].1),
{
    reveal_strlit("0");
    reveal_strlit("1");
    reveal_strlit("2");
    reveal_strlit("3");
    reveal_strlit("4");
    reveal_strlit("5");
    reveal_strlit("6");
    reveal_strlit("7");
    reveal_strlit("8");
    reveal_strlit("9");
    reveal_strlit("A");
    reveal_strlit("B");
    reveal_strlit("N");
    let es = maintenance_entries();
    let t = maintenance_labels();
    assert forall|j: int| 0 <= j < t.len() implies labelled_entry_does(es, Page::Maintenance, t[j].0, t[j].1) by {
        if j == 0 {
            assert(t[j].0.is_prefix_of(es[2].2));
            assert(shown_key(es[2]) == Some(ascii_lower('1')));
        } else if j == 1 {
            assert(t[j].0.is_prefix_of(es[3].2));
            assert(shown_key(es[3]) == Some(ascii_lower('2')));
        } else if j == 2 {
            assert(t[j].0.is_prefix_of(es[6].2));
            assert(shown_key(es[6]) == Some(ascii_lower('3')));
        } else if j == 3 {
            assert(t[j].0.is_prefix_of(es[7].2));
            assert(shown_key(es[7]) == Some(ascii_lower('4')));
        } else if j == 4 {
            assert(t[j].0.is_prefix_of(es[8].2));
            assert(shown_key(es[8]) == Some(ascii_lower('5')));
        } else if j == 5 {
            assert(t[j].0.is_prefix_of(es[9].2));
            assert(shown_key(es[9]) == Some(ascii_lower('6')));
        } else if j == 6 {
            assert(t[j].0.is_prefix_of(es[10].2));
            assert(shown_key(es[10]) == Some(ascii_lower('7')));
        } else if j == 7 {
            assert(t[j].0.is_prefix_of(es[13].2));
            assert(shown_key(es[13]) == Some(ascii_lower('8')));
        } else if j == 8 {
            assert(t[j].0.is_prefix_of(es[14].2));
            assert(shown_key(es[14]) == Some(ascii_lower('9')));
        } else if j == 9 {
            assert(t[j].0.is_prefix_of(es[17].2));
            assert(shown_key(es[17]) == Some(ascii_lower('0')));
        } else if j == 10 {
            assert(t[j].0.is_prefix_of(es[18].2));
            assert(shown_key(es[18]) == Some(ascii_lower('A')));
        } else if j == 11 {
            assert(t[j].0.is_prefix_of(es[21].2));
            assert(shown_key(es[21]) == Some(ascii_lower('N')));
        } else if j == 12 {
            assert(t[j].0.is_prefix_of(es[22].2));
            assert(shown_key(es[22]) == Some(ascii_lower('B')));
        }
    }
}

/// What the labelled entries of the DDC/CI studio page do, by what their labels say.
pub open spec fn ddc_studio_labels() -> Seq<(Seq<char>, MenuStep)> {
    seq![
        ("View VCP Version"@, MenuStep::Run(MenuAction::DdcVcpVersion)),
        ("Read Color Preset (VCP 0x14)"@, MenuStep::Run(MenuAction::DdcReadColorPreset)),
        ("Read Display Mode (VCP 0xDC)"@, MenuStep::Run(MenuAction::DdcReadDisplayMode)),
        ("Read Brightness (VCP 0x10)"@, MenuStep::Run(MenuAction::DdcReadBrightness)),
        ("Read Custom VCP (Any code)"@, MenuStep::Run(MenuAction::DdcReadCustomVcp)),
        ("Cycle Color Preset (sRGB\u{2192}6500K\u{2192}9300K\u{2192}User1)"@, MenuStep::Run(MenuAction::DdcChooseColorPreset)),
        ("Set Display Mode (VCP 0xDC)"@, MenuStep::Run(MenuAction::DdcChooseDisplayMode)),
        ("Set Brightness (VCP 0x10)"@, MenuStep::Run(MenuAction::DdcSetBrightness)),
        ("Write Custom VCP (Any code/value)"@, MenuStep::Run(MenuAction::DdcWriteCustomVcp)),
        ("DDC Guardrails (Limits + confirmations)"@, MenuStep::Run(MenuAction::DdcConfigureGuardrails)),
        ("Reset Brightness + Contrast (VCP 0x06)"@, MenuStep::Run(MenuAction::DdcResetBrightnessContrast)),
        ("Reset Color (VCP 0x0A)"@, MenuStep::Run(MenuAction::DdcResetColor)),
        ("List Physical Monitors (DDC)"@, MenuStep::Run(MenuAction::DdcListMonitors)),
        ("Select Target Monitor"@, MenuStep::Run(MenuAction::DdcSelectMonitor)),
        ("Reset Target (use config default)"@, MenuStep::Run(MenuAction::DdcUseConfigTarget)),
        ("\u{2190} Previous Page (Maintenance)"@, MenuStep::Goto(Page::Maintenance)),
        ("Back to Main Menu"@, MenuStep::Goto(Page::Main)),
    ]
}

proof fn lemma_ddc_studio_labels(target: Seq<char>)
    ensures
        forall|j: int| 0 <= j < ddc_studio_labels().len() ==> labelled_entry_does(ddc_studio_entries(target), Page::Maintenance2, ddc_studio_labels()[j].0, ddc_studio_labels()[j].1),
{
    reveal_strlit("0");
    reveal_strlit("1");
    reveal_strlit("2");
    reveal_strlit("3");
    reveal_strlit("4");
    reveal_strlit("5");
    reveal_strlit("6");
    reveal_strlit("7");
    reveal_strlit("8");
    reveal_strlit("9");
    reveal_strlit("A");
    reveal_strlit("B");
    reveal_strlit("C");
    reveal_strlit("D");
    reveal_strlit("E");
    reveal_strlit("P");
    reveal_strlit("Z");
    let es = ddc_studio_entries(target);
    let t = ddc_studio_labels();
    assert forall|j: int| 0 <= j < t.len() implies labelled_entry_does(es, Page::Maintenance2, t[j].0, t[j].1) by {
        if j == 0 {
            assert(t[j].0.is_prefix_of(es[4].2));
            assert(shown_key(es[4]) == Some(ascii_lower('1')));
        } else if j == 1 {
            assert(t[j].0.is_prefix_of(es[5].2));
            assert(shown_key(es[5]) == Some(ascii_lower('2')));
        } else if j == 2 {
            assert(t[j].0.is_prefix_of(es[6].2));
            assert(shown_key(es[6]) == Some(ascii_lower('4')));
        } else if j == 3 {
            assert(t[j].0.is_prefix_of(es[7].2));
            assert(shown_key(es[7]) == Some(ascii_lower('A')));
        } else if j == 4 {
            assert(t[j].0.is_prefix_of(es[8].2));
            assert(shown_key(es[8]) == Some(ascii_lower('C')));
        } else if j == 5 {
            assert(t[j].0.is_prefix_of(es[11].2));
            assert(shown_key(es[11]) == Some(ascii_lower('3')));
        } else if j == 6 {
            assert(t[j].0.is_prefix_of(es[12].2));
            assert(shown_key(es[12]) == Some(ascii_lower('5')));
        } else if j == 7 {
            assert(t[j].0.is_prefix_of(es[13].2));
            assert(shown_key(es[13]) == Some(ascii_lower('B')));
        } else if j == 8 {
            assert(t[j].0.is_prefix_of(es[14].2));
            assert(shown_key(es[14]) == Some(ascii_lower('D')));
        } else if j == 9 {
            assert(t[j].0.is_prefix_of(es[15].2));
            assert(shown_key(es[15]) == Some(ascii_lower('E')));
        } else if j == 10 {
            assert(t[j].0.is_prefix_of(es[18].2));
            assert(shown_key(es[18]) == Some(ascii_lower('6')));
        } else if j == 11 {
            assert(t[j].0.is_prefix_of(es[19].2));
            assert(shown_key(es[19]) == Some(ascii_lower('7')));
        } else if j == 12 {
            assert(t[j].0.is_prefix_of(es[22].2));
            assert(shown_key(es[22]) == Some(ascii_lower('8')));
        } else if j == 13 {
            assert(t[j].0.is_prefix_of(es[25].2));
            assert(shown_key(es[25]) == Some(ascii_lower('9')));
        } else if j == 14 {
            assert(t[j].0.is_prefix_of(es[26].2));
            assert(shown_key(es[26]) == Some(ascii_lower('0')));
        } else if j == 15 {
            assert(t[j].0.is_prefix_of(es[29].2));
            assert(shown_key(es[29]) == Some(ascii_lower('P')));
        } else if j == 16 {
            assert(t[j].0.is_prefix_of(es[30].2));
            assert(shown_key(es[30]) == Some(ascii_lower('Z')));
        }
    }
}

/// What the labelled entries of the advanced options page do, by what their labels say.
pub open spec fn advanced_labels() -> Seq<(Seq<char>, MenuStep)> {
    seq![
        ("Toast Notifications (Show reapply alerts)"@, MenuStep::Toggle(OptionToggle::Toast)),
        ("Dry Run (Simulate without changes)"@, MenuStep::Toggle(OptionToggle::DryRun)),
        ("Verbose Logging (Detailed output)"@, MenuStep::Toggle(OptionToggle::Verbose)),
        ("HDR Mode (Advanced color association)"@, MenuStep::Toggle(OptionToggle::Hdr)),
        ("SDR Mode (Standard color association)"@, MenuStep::Toggle(OptionToggle::Sdr)),
        ("Per-User Install (User scope, not system)"@, MenuStep::Toggle(OptionToggle::PerUser)),
        ("Generic Default (Legacy default profile API)"@, MenuStep::Toggle(OptionToggle::GenericDefault)),
        ("Auto-Set Brightness on Reapply"@, MenuStep::Toggle(OptionToggle::DdcBrightness)),
        ("Brightness Value: "@, MenuStep::Run(MenuAction::ChooseBrightnessValue)),
        ("Back to Main Menu"@, MenuStep::Goto(Page::Main)),
    ]
}

proof fn lemma_advanced_labels(o: Options)
    ensures
        forall|j: int| 0 <= j < advanced_labels().len() ==> labelled_entry_does(advanced_entries(o), Page::Advanced, advanced_labels()[j].0, advanced_labels()[j].1),
{
    reveal_strlit("1");
    reveal_strlit("2");
    reveal_strlit("3");
    reveal_strlit("4");
    reveal_strlit("5");
    reveal_strlit("6");
    reveal_strlit("7");
    reveal_strlit("8");
    reveal_strlit("9");
    reveal_strlit("B");
    let es = advanced_entries(o);
    let t = advanced_labels();
    assert forall|j: int| 0 <= j < t.len() implies labelled_entry_does(es, Page::Advanced, t[j].0, t[j].1) by {
        if j == 0 {
            assert(t[j].0.is_prefix_of(es[2].2));
            assert(shown_key(es[2]) == Some(ascii_lower('1')));
        } else if j == 1 {
            assert(t[j].0.is_prefix_of(es[5].2));
            assert(shown_key(es[5]) == Some(ascii_lower('2')));
        } else if j == 2 {
            assert(t[j].0.is_prefix_of(es[6].2));
            assert(shown_key(es[6]) == Some(ascii_lower('3')));
        } else if j == 3 {
            assert(t[j].0.is_prefix_of(es[9].2));
            assert(shown_key(es[9]) == Some(ascii_lower('4')));
        } else if j == 4 {
            assert(t[j].0.is_prefix_of(es[10].2));
            assert(shown_key(es[10]) == Some(ascii_lower('5')));
        } else if j == 5 {
            assert(t[j].0.is_prefix_of(es[13].2));
            assert(shown_key(es[13]) == Some(ascii_lower('6')));
        } else if j == 6 {
            assert(t[j].0.is_prefix_of(es[14].2));
            assert(shown_key(es[14]) == Some(ascii_lower('7')));
        } else if j == 7 {
            assert(t[j].0.is_prefix_of(es[17].2));
            assert(shown_key(es[17]) == Some(ascii_lower('8')));
        } else if j == 8 {
            lemma_prefix_of_concat(
                "Brightness Value: "@,
                decimal_of(o.ddc_brightness_value as nat) + " (press to select)"@,
            );
            assert(es[18].2 =~= "Brightness Value: "@ + (decimal_of(o.ddc_brightness_value as nat)
                + " (press to select)"@));
            assert(t[j].0.is_prefix_of(es[18].2));
            assert(shown_key(es[18]) == Some(ascii_lower('9')));
        } else if j == 9 {
            assert(t[j].0.is_prefix_of(es[23].2));
            assert(shown_key(es[23]) == Some(ascii_lower('B')));
        }
    }
}

/// Every key a page shows does what the label beside it says: on the main,
/// maintenance, DDC/CI studio and advanced pages, the entry labelled with
/// each label of the page's table (for instance `Remove Service (Keep
/// profile)` on the main page) has a key whose step is the one that label
/// names (`Run(RemoveService)`).
pub proof fn law_labels_name_steps(o: Options, target: Seq<char>)
    ensures
        forall|j: int| 0 <= j < main_labels().len() ==> labelled_entry_does(main_entries(o), Page::Main, main_labels()[j].0, main_labels()[j].1),
        forall|j: int| 0 <= j < maintenance_labels().len() ==> labelled_entry_does(maintenance_entries(), Page::Maintenance, maintenance_labels()[j].0, maintenance_labels()[j].1),
        forall|j: int| 0 <= j < ddc_studio_labels().len() ==> labelled_entry_does(ddc_studio_entries(target), Page::Maintenance2, ddc_studio_labels()[j].0, ddc_studio_labels()[j].1),
        forall|j: int| 0 <= j < advanced_labels().len() ==> labelled_entry_does(advanced_entries(o), Page::Advanced, advanced_labels()[j].0, advanced_labels()[j].1),
{
    lemma_main_labels(o);
    lemma_maintenance_labels();
    lemma_ddc_studio_labels(target);
    lemma_advanced_labels(o);
}

proof fn lemma_prefix_of_concat(a: Seq<char>, b: Seq<char>)
    ensures
        a.is_prefix_of(a + b),
{
    assert((a + b).subrange(0, a.len() as int) =~= a);
}

proof fn lemma_advanced_label_prefix(o: Options)
    ensures
        "Advanced Options"@.is_prefix_of(advanced_label_spec(o)),
{
    reveal_strlit("Advanced Options");
    reveal_strlit("Advanced Options (None active)");
    reveal_strlit("Advanced Options (");
    let l = advanced_label_spec(o);
    if active_toggles_spec(o).len() == 0 {
        assert(l.subrange(0, 16) =~= "Advanced Options"@);
    } else {
        let j = crate::text::join_seqs(active_toggles_spec(o), ", "@);
        assert(l == "Advanced Options ("@ + j + ")"@);
        assert(l.subrange(0, 16) =~= "Advanced Options"@);
    }
}

} // verus!

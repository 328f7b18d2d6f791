//! The diagnostics log: one event per line, five tab-separated fields
//! (timestamp, source, level, event, details).

use vstd::prelude::*;
use crate::text::{str_equals, chars_of, string_from_range, trim_range, trim_seq, is_ws, trim_start_seq, trim_end_seq};

verus! {

/// One event of the diagnostics log.
#[derive(Debug, Clone, PartialEq, Eq)]
pub struct DiagnosticEvent {
    pub timestamp: String,
    pub source: String,
    pub level: String,
    pub event: String,
    pub details: String,
}

/// The five fields of an event, as character sequences.
pub type EventFields = (Seq<char>, Seq<char>, Seq<char>, Seq<char>, Seq<char>);

impl View for DiagnosticEvent {
    type V = EventFields;

    open spec fn view(&self) -> EventFields {
        (self.timestamp@, self.source@, self.level@, self.event@, self.details@)
    }
}

/// A tab, carriage return or line feed becomes a space.
pub open spec fn blank_control(c: char) -> char {
    if c == '\t' || c == '\r' || c == '\n' {
        ' '
    } else {
        c
    }
}

/// A log field: tabs and line breaks replaced by spaces, then trimmed.
pub open spec fn sanitized_field(s: Seq<char>) -> Seq<char> {
    trim_seq(s.map_values(|c: char| blank_control(c)))
}

/// Makes `value` safe to store as one field of a log line.
pub fn sanitize_log_field(value: &str) -> (r: String)
    ensures
        r@ == sanitized_field(value@),
{
    let v = chars_of(value);
    let mut m: Vec<char> = Vec::new();
    let mut i: usize = 0;
    while i < v.len()
        invariant
            i <= v.len(),
            v@ == value@,
            m@ == v@.subrange(0, i as int).map_values(|c: char| blank_control(c)),
        decreases v.len() - i,
    {
        let c = v[i];
        let d = if c == '\t' || c == '\r' || c == '\n' {
            ' '
        } else {
            c
        };
        m.push(d);
        assert(v@.subrange(0, i + 1).map_values(|c: char| blank_control(c)) =~= v@.subrange(
            0,
            i as int,
        ).map_values(|c: char| blank_control(c)).push(d));
        i = i + 1;
    }
    assert(v@.subrange(0, v@.len() as int) =~= v@);
    let (a, b) = trim_range(&m, 0, m.len());
    assert(m@.subrange(0, m@.len() as int) =~= m@);
    string_from_range(&m, a, b)
}

/// The line written for an event: the five fields joined by tabs, every
/// field but the timestamp sanitized.
pub open spec fn diagnostic_line(
    timestamp: Seq<char>,
    source: Seq<char>,
    level: Seq<char>,
    event: Seq<char>,
    details: Seq<char>,
) -> Seq<char> {
    timestamp + seq!['\t'] + sanitized_field(source) + seq!['\t'] + sanitized_field(level) + seq![
        '\t',
    ] + sanitized_field(event) + seq!['\t'] + sanitized_field(details)
}

/// The log line for an event stamped `timestamp` (the part of appending an
/// event that decides what is written).
pub fn format_diagnostic_line(
    timestamp: &str,
    source: &str,
    level: &str,
    event: &str,
    details: &str,
) -> (r: String)
    ensures
        r@ == diagnostic_line(timestamp@, source@, level@, event@, details@),
{
    let mut out = String::from_str(timestamp);
    out.append("\t");
    out.append(sanitize_log_field(source).as_str());
    out.append("\t");
    out.append(sanitize_log_field(level).as_str());
    out.append("\t");
    out.append(sanitize_log_field(event).as_str());
    out.append("\t");
    out.append(sanitize_log_field(details).as_str());
    proof {
        reveal_strlit("\t");
    }
    out
}

/// The position of the first `c` in `s`.
pub open spec fn first_index_of(s: Seq<char>, c: char) -> Option<int>
    decreases s.len(),
{
    if s.len() == 0 {
        None
    } else if s[0] == c {
        Some(0)
    } else {
        match first_index_of(s.subrange(1, s.len() as int), c) {
            Some(i) => Some(i + 1),
            None => None,
        }
    }
}

/// The pieces `str::splitn(n, sep)` yields: at most `n`, the last one holding the rest.
pub open spec fn splitn_seq(s: Seq<char>, n: nat, sep: char) -> Seq<Seq<char>>
    decreases n,
{
    if n <= 1 {
        seq![s]
    } else {
        match first_index_of(s, sep) {
            None => seq![s],
            Some(i) => seq![s.subrange(0, i)] + splitn_seq(s.subrange(i + 1, s.len() as int), (n - 1) as nat, sep),
        }
    }
}

/// The event a log line holds: its first five tab-separated fields, the
/// last one running to the end of the line; `None` when it has fewer.
pub open spec fn parse_line_spec(line: Seq<char>) -> Option<EventFields> {
    let p = splitn_seq(line, 5, '\t');
    if p.len() == 5 {
        Some((p[0], p[1], p[2], p[3], p[4]))
    } else {
        None
    }
}

proof fn lemma_first_index_bounds(s: Seq<char>, c: char)
    ensures
        first_index_of(s, c) matches Some(i) ==> 0 <= i < s.len() && s[i] == c,
    decreases s.len(),
{
    if s.len() > 0 && s[0] != c {
        lemma_first_index_bounds(s.subrange(1, s.len() as int), c);
    }
}

proof fn lemma_first_index_shift(s: Seq<char>, c: char, k: int)
    requires
        0 <= k <= s.len(),
        forall|j: int| 0 <= j < k ==> s[j] != c,
    ensures
        first_index_of(s, c) == (match first_index_of(s.subrange(k, s.len() as int), c) {
            Some(i) => Some(i + k),
            None => None,
        }),
    decreases k,
{
    if k == 0 {
        assert(s.subrange(0, s.len() as int) =~= s);
    } else {
        let t = s.subrange(1, s.len() as int);
        lemma_first_index_shift(t, c, k - 1);
        assert(t.subrange(k - 1, t.len() as int) =~= s.subrange(k, s.len() as int));
    }
}

/// The first `c` in `chars[from..to]`, as a position in `chars`.
fn find_char(chars: &Vec<char>, from: usize, to: usize, c: char) -> (r: Option<usize>)
    requires
        from <= to <= chars.len(),
    ensures
        match first_index_of(chars@.subrange(from as int, to as int), c) {
            Some(i) => r == Some((i + from) as usize),
            None => r is None,
        },
        r matches Some(k) ==> from <= k < to && chars@[k as int] == c,
        first_index_of(chars@.subrange(from as int, to as int), c) matches Some(i) ==> 0 <= i < to
            - from,
{
    let ghost s = chars@.subrange(from as int, to as int);
    proof {
        lemma_first_index_bounds(s, c);
    }
    let mut i = from;
    while i < to
        invariant
            from <= i <= to <= chars.len(),
            s == chars@.subrange(from as int, to as int),
            forall|j: int| from <= j < i ==> chars@[j] != c,
        decreases to - i,
    {
        if chars[i] == c {
            proof {
                assert forall|j: int| 0 <= j < i - from implies s[j] != c by {
                    assert(s[j] == chars@[from + j]);
                }
                lemma_first_index_shift(s, c, i - from);
                let t = s.subrange(i - from, s.len() as int);
                assert(t[0] == chars@[i as int]);
            }
            return Some(i);
        }
        i = i + 1;
    }
    proof {
        assert forall|j: int| 0 <= j < s.len() implies s[j] != c by {
            assert(s[j] == chars@[from + j]);
        }
        lemma_first_index_shift(s, c, s.len() as int);
        assert(s.subrange(s.len() as int, s.len() as int) =~= Seq::<char>::empty());
    }
    None
}

/// Reads one log line back into an event; `None` for a line with fewer than
/// five fields.
#[verifier::rlimit(40)]
#[verifier::spinoff_prover]
pub fn parse_diagnostic_line(line: &str) -> (r: Option<DiagnosticEvent>)
    ensures
        match parse_line_spec(line@) {
            Some(f) => r is Some && r->0@ == f,
            None => r is None,
        },
{
    let v = chars_of(line);
    let n = v.len();
    let ghost s = v@;
    proof {
        assert(v@.subrange(0, n as int) =~= s);
    }
    let t1 = match find_char(&v, 0, n, '\t') {
        Some(t) => t,
        None => {
            return None;
        },
    };
    let ghost r1 = s.subrange(t1 + 1, n as int);
    let t2 = match find_char(&v, t1 + 1, n, '\t') {
        Some(t) => t,
        None => {
            proof {
                assert(splitn_seq(r1, 4, '\t') =~= seq![r1]);
                assert(splitn_seq(s, 5, '\t').len() == 2);
            }
            return None;
        },
    };
    let ghost r2 = s.subrange(t2 + 1, n as int);
    proof {
        assert(r1.subrange(t2 - t1, r1.len() as int) =~= r2);
        assert(r1.subrange(0, t2 - t1 - 1) =~= s.subrange(t1 + 1, t2 as int));
    }
    let t3 = match find_char(&v, t2 + 1, n, '\t') {
        Some(t) => t,
        None => {
            proof {
                assert(splitn_seq(r2, 3, '\t') =~= seq![r2]);
                assert(splitn_seq(r1, 4, '\t').len() == 2);
                assert(splitn_seq(s, 5, '\t').len() == 3);
            }
            return None;
        },
    };
    let ghost r3 = s.subrange(t3 + 1, n as int);
    proof {
        assert(r2.subrange(t3 - t2, r2.len() as int) =~= r3);
        assert(r2.subrange(0, t3 - t2 - 1) =~= s.subrange(t2 + 1, t3 as int));
    }
    let t4 = match find_char(&v, t3 + 1, n, '\t') {
        Some(t) => t,
        None => {
            proof {
                assert(splitn_seq(r3, 2, '\t') =~= seq![r3]);
                assert(splitn_seq(r2, 3, '\t').len() == 2);
                assert(splitn_seq(r1, 4, '\t').len() == 3);
                assert(splitn_seq(s, 5, '\t').len() == 4);
            }
            return None;
        },
    };
    let ghost r4 = s.subrange(t4 + 1, n as int);
    proof {
        assert(r3.subrange(t4 - t3, r3.len() as int) =~= r4);
        assert(r3.subrange(0, t4 - t3 - 1) =~= s.subrange(t3 + 1, t4 as int));
        assert(splitn_seq(r4, 1, '\t') == seq![r4]);
        assert(splitn_seq(r3, 2, '\t') =~= seq![s.subrange(t3 + 1, t4 as int), r4]);
        assert(splitn_seq(r2, 3, '\t') =~= seq![s.subrange(t2 + 1, t3 as int), s.subrange(t3 + 1, t4 as int), r4]);
        assert(splitn_seq(r1, 4, '\t') =~= seq![
            s.subrange(t1 + 1, t2 as int),
            s.subrange(t2 + 1, t3 as int),
            s.subrange(t3 + 1, t4 as int),
            r4,
        ]);
        assert(splitn_seq(s, 5, '\t') =~= seq![
            s.subrange(0, t1 as int),
            s.subrange(t1 + 1, t2 as int),
            s.subrange(t2 + 1, t3 as int),
            s.subrange(t3 + 1, t4 as int),
            r4,
        ]);
    }
    Some(
        DiagnosticEvent {
            timestamp: string_from_range(&v, 0, t1),
            source: string_from_range(&v, t1 + 1, t2),
            level: string_from_range(&v, t2 + 1, t3),
            event: string_from_range(&v, t3 + 1, t4),
            details: string_from_range(&v, t4 + 1, n),
        },
    )
}


proof fn lemma_trim_start_absent(x: Seq<char>, c: char)
    requires
        forall|i: int| 0 <= i < x.len() ==> x[i] != c,
    ensures
        forall|i: int| 0 <= i < trim_start_seq(x).len() ==> trim_start_seq(x)[i] != c,
    decreases x.len(),
{
    if x.len() > 0 && is_ws(x[0]) {
        let t = x.subrange(1, x.len() as int);
        assert forall|i: int| 0 <= i < t.len() implies t[i] != c by {
            assert(t[i] == x[i + 1]);
        }
        lemma_trim_start_absent(t, c);
        assert(trim_start_seq(x) == trim_start_seq(t));
    } else {
        assert(trim_start_seq(x) == x);
    }
}

proof fn lemma_trim_end_absent(x: Seq<char>, c: char)
    requires
        forall|i: int| 0 <= i < x.len() ==> x[i] != c,
    ensures
        forall|i: int| 0 <= i < trim_end_seq(x).len() ==> trim_end_seq(x)[i] != c,
    decreases x.len(),
{
    if x.len() > 0 && is_ws(x[x.len() - 1]) {
        let t = x.subrange(0, x.len() - 1);
        assert forall|i: int| 0 <= i < t.len() implies t[i] != c by {
            assert(t[i] == x[i]);
        }
        lemma_trim_end_absent(t, c);
        assert(trim_end_seq(x) == trim_end_seq(t));
    } else {
        assert(trim_end_seq(x) == x);
    }
}

/// A sanitized field holds no tab, carriage return or line feed, so it
/// always stays one field of one line.
pub proof fn law_sanitized_field_has_no_separators(s: Seq<char>)
    ensures
        forall|i: int|
            0 <= i < sanitized_field(s).len() ==> {
                let c = #[trigger] sanitized_field(s)[i];
                c != '\t' && c != '\r' && c != '\n'
            },
{
    let m = s.map_values(|c: char| blank_control(c));
    assert forall|i: int| 0 <= i < m.len() implies m[i] != '\t' && m[i] != '\r' && m[i] != '\n' by {
        assert(m[i] == blank_control(s[i]));
    }
    lemma_trim_start_absent(m, '\t');
    lemma_trim_end_absent(trim_start_seq(m), '\t');
    lemma_trim_start_absent(m, '\r');
    lemma_trim_end_absent(trim_start_seq(m), '\r');
    lemma_trim_start_absent(m, '\n');
    lemma_trim_end_absent(trim_start_seq(m), '\n');
}

proof fn lemma_first_index_at(a: Seq<char>, c: char, b: Seq<char>)
    requires
        forall|i: int| 0 <= i < a.len() ==> a[i] != c,
    ensures
        first_index_of(a + seq![c] + b, c) == Some(a.len() as int),
        (a + seq![c] + b).subrange(0, a.len() as int) == a,
        (a + seq![c] + b).subrange(a.len() as int + 1, (a + seq![c] + b).len() as int) == b,
{
    let s = a + seq![c] + b;
    assert forall|j: int| 0 <= j < a.len() implies s[j] != c by {
        assert(s[j] == a[j]);
    }
    lemma_first_index_shift(s, c, a.len() as int);
    let t = s.subrange(a.len() as int, s.len() as int);
    assert(t[0] == c);
    assert(s.subrange(0, a.len() as int) =~= a);
    assert(s.subrange(a.len() as int + 1, s.len() as int) =~= b);
}

/// `s` holds no tab.
pub open spec fn no_tab(s: Seq<char>) -> bool {
    forall|i: int| 0 <= i < s.len() ==> s[i] != '\t'
}

proof fn lemma_sanitized_no_tab(s: Seq<char>)
    ensures
        no_tab(sanitized_field(s)),
{
    law_sanitized_field_has_no_separators(s);
    let a = sanitized_field(s);
    assert forall|i: int| 0 <= i < a.len() implies a[i] != '\t' by {
        let _ = a[i];
    }
}

proof fn lemma_splitn_cons(x: Seq<char>, rest: Seq<char>, n: nat)
    requires
        no_tab(x),
        n >= 2,
    ensures
        splitn_seq(x + seq!['\t'] + rest, n, '\t') == seq![x] + splitn_seq(rest, (n - 1) as nat, '\t'),
{
    lemma_first_index_at(x, '\t', rest);
}

/// Reading back a written line gives the event that was written: the
/// timestamp as it was, the other fields sanitized. (The timestamp is one
/// the tool makes, which holds no tab.)
pub proof fn law_diagnostic_line_roundtrip(
    timestamp: Seq<char>,
    source: Seq<char>,
    level: Seq<char>,
    event: Seq<char>,
    details: Seq<char>,
)
    requires
        no_tab(timestamp),
    ensures
        parse_line_spec(diagnostic_line(timestamp, source, level, event, details)) == Some(
            (
                timestamp,
                sanitized_field(source),
                sanitized_field(level),
                sanitized_field(event),
                sanitized_field(details),
            ),
        ),
{
    let a = sanitized_field(source);
    let b = sanitized_field(level);
    let e = sanitized_field(event);
    let d = sanitized_field(details);
    lemma_sanitized_no_tab(source);
    lemma_sanitized_no_tab(level);
    lemma_sanitized_no_tab(event);
    let r3 = e + seq!['\t'] + d;
    let r2 = b + seq!['\t'] + r3;
    let r1 = a + seq!['\t'] + r2;
    let line = timestamp + seq!['\t'] + r1;
    assert(line =~= diagnostic_line(timestamp, source, level, event, details));
    lemma_splitn_cons(timestamp, r1, 5);
    lemma_splitn_cons(a, r2, 4);
    lemma_splitn_cons(b, r3, 3);
    lemma_splitn_cons(e, d, 2);
    assert(splitn_seq(d, 1, '\t') == seq![d]);
    assert(splitn_seq(line, 5, '\t') =~= seq![timestamp, a, b, e, d]);
}


/// The events the log lines hold, newest (last line) first; lines that
/// are not events are skipped.
pub open spec fn events_newest_first(lines: Seq<Seq<char>>) -> Seq<EventFields>
    decreases lines.len(),
{
    if lines.len() == 0 {
        Seq::empty()
    } else {
        let rest = events_newest_first(lines.subrange(1, lines.len() as int));
        match parse_line_spec(lines[0]) {
            Some(e) => rest.push(e),
            None => rest,
        }
    }
}

/// The first `k` elements of `s`, or all of them when there are fewer.
pub open spec fn take_upto<A>(s: Seq<A>, k: nat) -> Seq<A> {
    if s.len() <= k {
        s
    } else {
        s.subrange(0, k as int)
    }
}

/// The lines as character sequences.
pub open spec fn lines_view(lines: Seq<String>) -> Seq<Seq<char>> {
    lines.map_values(|l: String| l@)
}

/// The events as field tuples.
pub open spec fn events_view(events: Seq<DiagnosticEvent>) -> Seq<EventFields> {
    events.map_values(|e: DiagnosticEvent| e@)
}

/// The newest `limit` events of the log, newest first, from the log's lines
/// in file order.
pub fn read_recent_diagnostic_events(log_lines: &Vec<String>, limit: usize) -> (r: Vec<
    DiagnosticEvent,
>)
    ensures
        events_view(r@) == take_upto(events_newest_first(lines_view(log_lines@)), limit as nat),
{
    let n = log_lines.len();
    let ghost lv = lines_view(log_lines@);
    let mut out: Vec<DiagnosticEvent> = Vec::new();
    let mut i = n;
    proof {
        assert(lv.subrange(n as int, n as int) =~= Seq::<Seq<char>>::empty());
        assert(events_view(out@) =~= Seq::<EventFields>::empty());
    }
    while i > 0
        invariant
            i <= n == log_lines.len(),
            lv == lines_view(log_lines@),
            events_view(out@) == take_upto(events_newest_first(lv.subrange(i as int, n as int)), limit as nat),
        decreases i,
    {
        i = i - 1;
        let ghost prev = events_newest_first(lv.subrange(i + 1, n as int));
        proof {
            let t = lv.subrange(i as int, n as int);
            assert(t.subrange(1, t.len() as int) =~= lv.subrange(i + 1, n as int));
            assert(t[0] == log_lines@[i as int]@);
        }
        if out.len() < limit {
            let parsed = parse_diagnostic_line(log_lines[i].as_str());
            match parsed {
                Some(e) => {
                    let ghost before = out@;
                    out.push(e);
                    proof {
                        assert(events_view(out@) =~= events_view(before).push(e@));
                    }
                },
                None => {},
            }
        } else {
            proof {
                let cur = events_newest_first(lv.subrange(i as int, n as int));
                assert(take_upto(cur, limit as nat) =~= take_upto(prev, limit as nat));
            }
        }
    }
    proof {
        assert(lv.subrange(0, n as int) =~= lv);
    }
    out
}

/// The timestamp of the first event named `apply_success`, if any.
pub open spec fn first_success_timestamp(events: Seq<EventFields>) -> Option<Seq<char>>
    decreases events.len(),
{
    if events.len() == 0 {
        None
    } else if events[0].3 == "apply_success"@ {
        Some(events[0].0)
    } else {
        first_success_timestamp(events.subrange(1, events.len() as int))
    }
}

proof fn lemma_first_success_skip(events: Seq<EventFields>, k: int)
    requires
        0 <= k <= events.len(),
        forall|j: int| 0 <= j < k ==> events[j].3 != "apply_success"@,
    ensures
        first_success_timestamp(events) == first_success_timestamp(events.subrange(k, events.len() as int)),
    decreases k,
{
    if k == 0 {
        assert(events.subrange(0, events.len() as int) =~= events);
    } else {
        let t = events.subrange(1, events.len() as int);
        lemma_first_success_skip(t, k - 1);
        assert(t.subrange(k - 1, t.len() as int) =~= events.subrange(k, events.len() as int));
    }
}

/// The time of the most recent successful apply among the newest 200 events.
pub fn latest_success_timestamp(log_lines: &Vec<String>) -> (r: Option<String>)
    ensures
        match first_success_timestamp(take_upto(events_newest_first(lines_view(log_lines@)), 200)) {
            Some(t) => r is Some && r->0@ == t,
            None => r is None,
        },
{
    let events = read_recent_diagnostic_events(log_lines, 200);
    let ghost ev = events_view(events@);
    let mut i: usize = 0;
    while i < events.len()
        invariant
            i <= events.len(),
            ev == events_view(events@),
            ev == take_upto(events_newest_first(lines_view(log_lines@)), 200),
            forall|j: int| 0 <= j < i ==> ev[j].3 != "apply_success"@,
        decreases events.len() - i,
    {
        if str_equals(events[i].event.as_str(), "apply_success") {
            proof {
                lemma_first_success_skip(ev, i as int);
                assert(ev[i as int] == events@[i as int]@);
            }
            return Some(events[i].timestamp.clone());
        }
        assert(ev[i as int] == events@[i as int]@);
        i = i + 1;
    }
    proof {
        lemma_first_success_skip(ev, ev.len() as int);
    }
    None
}

} // verus!

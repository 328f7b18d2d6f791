//! Apply-latency statistics read from the diagnostics log: sample count,
//! success and failure counts, total and 95th-percentile latency.

use vstd::prelude::*;
use vstd::relations::{sorted_by, total_ordering};
use crate::text::{chars_of, is_ws, is_whitespace};
use crate::numparse::{parse_uint_range, parse_uint_spec};
use crate::diagnostics::{
    DiagnosticEvent, EventFields, events_newest_first, events_view, lines_view, read_recent_diagnostic_events,
    take_upto,
};
use crate::text::str_equals;

verus! {

broadcast use {vstd::seq_lib::group_to_multiset_ensures, vstd::multiset::group_multiset_axioms};

/// The pieces of `s` between whitespace characters, empty pieces included.
pub open spec fn ws_pieces(s: Seq<char>) -> Seq<Seq<char>>
    decreases s.len(),
{
    if s.len() == 0 {
        seq![Seq::<char>::empty()]
    } else {
        let prev = ws_pieces(s.subrange(0, s.len() - 1));
        let c = s[s.len() - 1];
        if is_ws(c) {
            prev.push(Seq::<char>::empty())
        } else {
            prev.update(prev.len() - 1, prev[prev.len() - 1].push(c))
        }
    }
}

/// Whether a `success=` value counts as a success.
pub open spec fn is_truthy(v: Seq<char>) -> bool {
    v == seq!['1'] || v == seq!['t', 'r', 'u', 'e'] || v == seq!['y', 'e', 's']
}

/// Whether `w` starts with `ms=`.
pub open spec fn has_ms_prefix(w: Seq<char>) -> bool {
    w.len() >= 3 && w[0] == 'm' && w[1] == 's' && w[2] == '='
}

/// Whether `w` starts with `success=`.
pub open spec fn has_success_prefix(w: Seq<char>) -> bool {
    w.len() >= 8 && w[0] == 's' && w[1] == 'u' && w[2] == 'c' && w[3] == 'c' && w[4] == 'e' && w[5]
        == 's' && w[6] == 's' && w[7] == '='
}

/// One token of a latency event's details: `ms=<n>` sets the latency (an
/// unreadable number clears it), `success=<v>` sets the outcome.
pub open spec fn latency_step(st: (Option<u64>, bool), w: Seq<char>) -> (Option<u64>, bool) {
    if has_ms_prefix(w) {
        (
            match parse_uint_spec(w.subrange(3, w.len() as int), 10, u64::MAX as nat) {
                Ok(v) => Some(v as u64),
                Err(_) => None,
            },
            st.1,
        )
    } else if has_success_prefix(w) {
        (st.0, is_truthy(w.subrange(8, w.len() as int)))
    } else {
        st
    }
}

/// The tokens read in order, starting from no latency and success.
pub open spec fn latency_fold(pieces: Seq<Seq<char>>) -> (Option<u64>, bool)
    decreases pieces.len(),
{
    if pieces.len() == 0 {
        (None, true)
    } else {
        latency_step(latency_fold(pieces.subrange(0, pieces.len() - 1)), pieces[pieces.len() - 1])
    }
}

/// The sample a latency event's details give: its latency and outcome, when
/// a latency was read.
pub open spec fn latency_sample(details: Seq<char>) -> Option<(u64, bool)> {
    let st = latency_fold(ws_pieces(details));
    match st.0 {
        Some(ms) => Some((ms, st.1)),
        None => None,
    }
}

fn has_prefix_chars(chars: &Vec<char>, from: usize, to: usize, p: &[char]) -> (r: bool)
    requires
        from <= to <= chars.len(),
    ensures
        r == (to - from >= p@.len() && chars@.subrange(from as int, from + p@.len()) == p@),
{
    if to - from < p.len() {
        return false;
    }
    let mut i: usize = 0;
    while i < p.len()
        invariant
            i <= p.len(),
            from + p.len() <= to <= chars.len(),
            forall|j: int| 0 <= j < i ==> chars@[from + j] == p@[j],
        decreases p.len() - i,
    {
        if chars[from + i] != p[i] {
            assert(chars@.subrange(from as int, from + p@.len())[i as int] != p@[i as int]);
            return false;
        }
        i = i + 1;
    }
    assert(chars@.subrange(from as int, from + p@.len()) =~= p@);
    true
}

fn latency_step_range(chars: &Vec<char>, from: usize, to: usize, st: (Option<u64>, bool)) -> (r: (
    Option<u64>,
    bool,
))
    requires
        from <= to <= chars.len(),
    ensures
        r == latency_step(st, chars@.subrange(from as int, to as int)),
{
    let ghost w = chars@.subrange(from as int, to as int);
    if has_prefix_chars(chars, from, to, &['m', 's', '=']) {
        assert(w[0] == 'm' && w[1] == 's' && w[2] == '=');
        assert(chars@.subrange(from + 3, to as int) =~= w.subrange(3, w.len() as int));
        let ms = match parse_uint_range(chars, from + 3, to, 10, 0xffff_ffff_ffff_ffffu64) {
            Ok(v) => Some(v),
            Err(_) => None,
        };
        (ms, st.1)
    } else if has_prefix_chars(chars, from, to, &['s', 'u', 'c', 'c', 'e', 's', 's', '=']) {
        proof {
            if w.len() >= 3 {
                assert(!(w[0] == 'm' && w[1] == 's' && w[2] == '=')) by {
                    if w[0] == 'm' && w[1] == 's' && w[2] == '=' {
                        assert(chars@.subrange(from as int, from + 3) =~= seq!['m', 's', '=']);
                    }
                }
            }
            assert(w[0] == 's' && w[1] == 'u' && w[2] == 'c' && w[3] == 'c' && w[4] == 'e' && w[5] == 's'
                && w[6] == 's' && w[7] == '=');
        }
        assert(chars@.subrange(from + 8, to as int) =~= w.subrange(8, w.len() as int));
        let n = to - (from + 8);
        let v0 = from + 8;
        let truthy = (n == 1 && chars[v0] == '1') || (n == 4 && chars[v0] == 't' && chars[v0 + 1] == 'r'
            && chars[v0 + 2] == 'u' && chars[v0 + 3] == 'e') || (n == 3 && chars[v0] == 'y' && chars[v0
            + 1] == 'e' && chars[v0 + 2] == 's');
        proof {
            let v = w.subrange(8, w.len() as int);
            if n == 1 {
                assert(v[0] == chars@[v0 as int]);
                if chars@[v0 as int] == '1' {
                    assert(v =~= seq!['1']);
                }
            }
            if n == 4 {
                assert(v[0] == chars@[v0 as int] && v[1] == chars@[v0 + 1] && v[2] == chars@[v0 + 2] && v[3]
                    == chars@[v0 + 3]);
                if truthy {
                    assert(v =~= seq!['t', 'r', 'u', 'e']);
                }
            }
            if n == 3 {
                assert(v[0] == chars@[v0 as int] && v[1] == chars@[v0 + 1] && v[2] == chars@[v0 + 2]);
                if truthy {
                    assert(v =~= seq!['y', 'e', 's']);
                }
            }
            if is_truthy(v) {
                if v == seq!['1'] {
                    assert(v[0] == '1');
                } else if v == seq!['t', 'r', 'u', 'e'] {
                    assert(v[0] == 't' && v[1] == 'r' && v[2] == 'u' && v[3] == 'e');
                } else {
                    assert(v[0] == 'y' && v[1] == 'e' && v[2] == 's');
                }
            }
        }
        (st.0, truthy)
    } else {
        proof {
            if has_ms_prefix(w) {
                assert(chars@.subrange(from as int, from + 3) =~= seq!['m', 's', '=']);
            }
            if has_success_prefix(w) {
                assert(chars@.subrange(from as int, from + 8) =~= seq!['s', 'u', 'c', 'c', 'e', 's', 's', '=']);
            }
        }
        st
    }
}

/// `ws_pieces` always yields at least one piece.
pub proof fn lemma_ws_pieces_nonempty(s: Seq<char>)
    ensures
        ws_pieces(s).len() >= 1,
    decreases s.len(),
{
    if s.len() > 0 {
        lemma_ws_pieces_nonempty(s.subrange(0, s.len() - 1));
    }
}

/// One step of `ws_pieces`: how the pieces of `s[..i + 1]` follow from those of `s[..i]`.
pub proof fn lemma_ws_pieces_step(s: Seq<char>, i: int)
    requires
        0 <= i < s.len(),
    ensures
        ws_pieces(s.subrange(0, i + 1)) == (if is_ws(s[i]) {
            ws_pieces(s.subrange(0, i)).push(Seq::<char>::empty())
        } else {
            let p = ws_pieces(s.subrange(0, i));
            p.update(p.len() - 1, p[p.len() - 1].push(s[i]))
        }),
{
    let t = s.subrange(0, i + 1);
    assert(t.subrange(0, t.len() - 1) =~= s.subrange(0, i));
    assert(t[t.len() - 1] == s[i]);
}

proof fn lemma_latency_fold_push(pieces: Seq<Seq<char>>, p: Seq<char>)
    ensures
        latency_fold(pieces.push(p)) == latency_step(latency_fold(pieces), p),
{
    let q = pieces.push(p);
    assert(q.subrange(0, q.len() - 1) =~= pieces);
}

/// The latency sample in an event's details, as `latency_sample` reads it.
pub fn latency_sample_of(details: &str) -> (r: Option<(u64, bool)>)
    ensures
        r == latency_sample(details@),
{
    let v = chars_of(details);
    let n = v.len();
    let mut st: (Option<u64>, bool) = (None, true);
    let mut start: usize = 0;
    let mut i: usize = 0;
    let ghost mut done: Seq<Seq<char>> = Seq::empty();
    proof {
        assert(v@.subrange(0, 0) =~= Seq::<char>::empty());
        assert(ws_pieces(Seq::<char>::empty()) =~= seq![Seq::<char>::empty()]);
        assert(done.push(v@.subrange(0, 0)) =~= seq![Seq::<char>::empty()]);
    }
    while i < n
        invariant
            n == v.len(),
            start <= i <= n,
            ws_pieces(v@.subrange(0, i as int)) == done.push(v@.subrange(start as int, i as int)),
            st == latency_fold(done),
        decreases n - i,
    {
        proof {
            lemma_ws_pieces_step(v@, i as int);
        }
        if is_whitespace(v[i]) {
            st = latency_step_range(&v, start, i, st);
            proof {
                lemma_latency_fold_push(done, v@.subrange(start as int, i as int));
                done = done.push(v@.subrange(start as int, i as int));
                assert(v@.subrange(i + 1, i + 1) =~= Seq::<char>::empty());
            }
            start = i + 1;
        } else {
            proof {
                let p = done.push(v@.subrange(start as int, i as int));
                assert(v@.subrange(start as int, i as int).push(v@[i as int]) =~= v@.subrange(start as int, i + 1));
                assert(p.update(p.len() - 1, p[p.len() - 1].push(v@[i as int])) =~= done.push(
                    v@.subrange(start as int, i + 1),
                ));
            }
        }
        i = i + 1;
    }
    st = latency_step_range(&v, start, n, st);
    proof {
        lemma_latency_fold_push(done, v@.subrange(start as int, n as int));
        assert(v@.subrange(0, n as int) =~= details@);
    }
    match st.0 {
        Some(ms) => Some((ms, st.1)),
        None => None,
    }
}


/// The order `<=` on latencies.
pub open spec fn u64_leq() -> spec_fn(u64, u64) -> bool {
    |a: u64, b: u64| a <= b
}

/// `s` in ascending order.
pub open spec fn ascending(s: Seq<u64>) -> bool {
    forall|i: int, j: int| 0 <= i < j < s.len() ==> s[i] <= s[j]
}

proof fn lemma_u64_leq_total()
    ensures
        total_ordering(u64_leq()),
{
}

/// The values of `v` in ascending order.
pub fn sorted_copy(v: &Vec<u64>) -> (r: Vec<u64>)
    ensures
        r@ == v@.sort_by(u64_leq()),
{
    let mut r: Vec<u64> = Vec::new();
    let mut i: usize = 0;
    proof {
        assert(v@.subrange(0, 0) =~= Seq::<u64>::empty());
        assert(r@ =~= Seq::<u64>::empty());
    }
    while i < v.len()
        invariant
            i <= v.len(),
            ascending(r@),
            r@.to_multiset() =~= v@.subrange(0, i as int).to_multiset(),
        decreases v.len() - i,
    {
        let x = v[i];
        let mut p: usize = 0;
        while p < r.len() && r[p] <= x
            invariant
                p <= r.len(),
                forall|j: int| 0 <= j < p ==> r@[j] <= x,
            decreases r.len() - p,
        {
            p = p + 1;
        }
        let ghost old_r = r@;
        r.insert(p, x);
        proof {
            assert forall|a: int, b: int| 0 <= a < b < r@.len() implies r@[a] <= r@[b] by {
                if b < p {
                    assert(r@[a] == old_r[a] && r@[b] == old_r[b]);
                } else if b == p {
                    assert(r@[a] == old_r[a]);
                } else if a < p {
                    assert(r@[a] == old_r[a] && r@[b] == old_r[b - 1]);
                } else if a == p {
                    assert(old_r[p as int] > x);
                    assert(r@[b] == old_r[b - 1]);
                } else {
                    assert(r@[a] == old_r[a - 1] && r@[b] == old_r[b - 1]);
                }
            }
            assert(r@.remove(p as int) =~= old_r);
            assert(r@[p as int] == x);
            assert(r@.to_multiset().count(x) > 0);
            assert(r@.to_multiset() =~= old_r.to_multiset().insert(x));
            assert(v@.subrange(0, i + 1) =~= v@.subrange(0, i as int).push(x));
        }
        i = i + 1;
    }
    proof {
        assert(v@.subrange(0, v@.len() as int) =~= v@);
        lemma_u64_leq_total();
        v@.lemma_sort_by_ensures(u64_leq());
        assert(sorted_by(r@, u64_leq()));
        vstd::seq_lib::lemma_sorted_unique(r@, v@.sort_by(u64_leq()), u64_leq());
    }
    r
}


/// The latency samples of the events, in the events' order: every event
/// named `apply_latency` whose details give a latency.
pub open spec fn latency_samples(events: Seq<EventFields>) -> Seq<(u64, bool)>
    decreases events.len(),
{
    if events.len() == 0 {
        Seq::empty()
    } else {
        let prev = latency_samples(events.subrange(0, events.len() - 1));
        let e = events[events.len() - 1];
        if e.3 == "apply_latency"@ {
            match latency_sample(e.4) {
                Some(x) => prev.push(x),
                None => prev,
            }
        } else {
            prev
        }
    }
}

/// `4 * window`, saturating at `usize::MAX`: how many recent events are read.
pub open spec fn events_to_read(window: usize) -> nat {
    if window * 4 > usize::MAX {
        usize::MAX as nat
    } else {
        (window * 4) as nat
    }
}

/// The samples the statistics cover: those among the newest
/// `events_to_read(window)` events, newest first, at most `window` of them
/// (at least one when there are any).
pub open spec fn window_samples(lines: Seq<Seq<char>>, window: usize) -> Seq<(u64, bool)> {
    let recent = take_upto(events_newest_first(lines), events_to_read(window));
    take_upto(latency_samples(recent), if window < 1 { 1 } else { window as nat })
}

/// How many samples were successes.
pub open spec fn ok_count(s: Seq<(u64, bool)>) -> nat
    decreases s.len(),
{
    if s.len() == 0 {
        0
    } else {
        ok_count(s.subrange(0, s.len() - 1)) + if s[s.len() - 1].1 {
            1nat
        } else {
            0nat
        }
    }
}

/// The sum of the samples' latencies.
pub open spec fn ms_total(s: Seq<(u64, bool)>) -> nat
    decreases s.len(),
{
    if s.len() == 0 {
        0
    } else {
        ms_total(s.subrange(0, s.len() - 1)) + (s[s.len() - 1].0 as nat)
    }
}

/// The latencies of the samples.
pub open spec fn latencies(s: Seq<(u64, bool)>) -> Seq<u64> {
    s.map_values(|x: (u64, bool)| x.0)
}

/// The rank of the 95th percentile among `n >= 1` sorted values:
/// `round((n - 1) * 0.95)`, halves rounded up.
pub open spec fn p95_rank(n: nat) -> int {
    ((n - 1) * 95 + 50) / 100
}

/// Apply-latency statistics over a window of samples. The mean is
/// `total_ms / samples` when there are samples.
#[derive(Debug, Clone, Copy, PartialEq, Eq, Structural)]
pub struct ApplyLatencyMetrics {
    pub samples: usize,
    pub success_count: usize,
    pub failure_count: usize,
    pub total_ms: u128,
    pub p95_ms: u64,
    pub last_ms: u64,
}

impl Default for ApplyLatencyMetrics {
    fn default() -> (r: Self)
        ensures
            r == (ApplyLatencyMetrics {
                samples: 0,
                success_count: 0,
                failure_count: 0,
                total_ms: 0,
                p95_ms: 0,
                last_ms: 0,
            }),
    {
        ApplyLatencyMetrics {
            samples: 0,
            success_count: 0,
            failure_count: 0,
            total_ms: 0,
            p95_ms: 0,
            last_ms: 0,
        }
    }
}

/// Latency statistics of the newest `window` apply-latency samples in the
/// diagnostics log (given as its lines, in file order).
#[verifier::rlimit(30)]
pub fn compute_apply_latency_metrics(log_lines: &Vec<String>, window: usize) -> (r: ApplyLatencyMetrics)
    ensures
        ({
            let vals = window_samples(lines_view(log_lines@), window);
            if vals.len() == 0 {
                r == ApplyLatencyMetrics {
                    samples: 0,
                    success_count: 0,
                    failure_count: 0,
                    total_ms: 0,
                    p95_ms: 0,
                    last_ms: 0,
                }
            } else {
                &&& r.samples == vals.len()
                &&& r.success_count == ok_count(vals)
                &&& r.failure_count == vals.len() - ok_count(vals)
                &&& r.total_ms == ms_total(vals)
                &&& r.last_ms == vals[0].0
                &&& r.p95_ms == latencies(vals).sort_by(u64_leq())[p95_rank(vals.len())]
            }
        }),
{
    let to_read = if window > usize::MAX / 4 {
        usize::MAX
    } else {
        window * 4
    };
    let events = read_recent_diagnostic_events(log_lines, to_read);
    let ghost ev = events_view(events@);
    let cap: usize = if window < 1 {
        1
    } else {
        window
    };
    let mut vals: Vec<(u64, bool)> = Vec::new();
    let mut i: usize = 0;
    proof {
        assert(ev.subrange(0, 0) =~= Seq::<EventFields>::empty());
    }
    while i < events.len()
        invariant
            i <= events.len(),
            ev == events_view(events@),
            cap >= 1,
            vals@ == take_upto(latency_samples(ev.subrange(0, i as int)), cap as nat),
        decreases events.len() - i,
    {
        let ghost prev = latency_samples(ev.subrange(0, i as int));
        proof {
            let t = ev.subrange(0, i + 1);
            assert(t.subrange(0, t.len() - 1) =~= ev.subrange(0, i as int));
            assert(t[t.len() - 1] == events@[i as int]@);
        }
        if vals.len() < cap && str_equals(events[i].event.as_str(), "apply_latency") {
            match latency_sample_of(events[i].details.as_str()) {
                Some(x) => {
                    vals.push(x);
                },
                None => {},
            }
        } else {
            proof {
                let cur = latency_samples(ev.subrange(0, i + 1));
                assert(take_upto(cur, cap as nat) =~= take_upto(prev, cap as nat));
            }
        }
        i = i + 1;
    }
    proof {
        assert(ev.subrange(0, ev.len() as int) =~= ev);
    }
    let ghost all = vals@;
    if vals.len() == 0 {
        return ApplyLatencyMetrics {
            samples: 0,
            success_count: 0,
            failure_count: 0,
            total_ms: 0,
            p95_ms: 0,
            last_ms: 0,
        };
    }
    let n = vals.len();
    let mut ok: usize = 0;
    let mut total: u128 = 0;
    let mut ms: Vec<u64> = Vec::new();
    let mut j: usize = 0;
    proof {
        assert(all.subrange(0, 0) =~= Seq::<(u64, bool)>::empty());
        assert(latencies(all.subrange(0, 0)) =~= ms@);
    }
    while j < n
        invariant
            j <= n == vals.len(),
            all == vals@,
            ok == ok_count(all.subrange(0, j as int)),
            ok <= j,
            total == ms_total(all.subrange(0, j as int)),
            total <= j * 0xffff_ffff_ffff_ffffu128,
            ms@ == latencies(all.subrange(0, j as int)),
        decreases n - j,
    {
        let (m, good) = vals[j];
        proof {
            let t = all.subrange(0, j + 1);
            assert(t.subrange(0, t.len() - 1) =~= all.subrange(0, j as int));
            assert(t[t.len() - 1] == (m, good));
            assert(latencies(t) =~= latencies(all.subrange(0, j as int)).push(m));
        }
        if good {
            ok = ok + 1;
        }
        total = total + m as u128;
        ms.push(m);
        j = j + 1;
    }
    proof {
        assert(all.subrange(0, n as int) =~= all);
    }
    let sorted = sorted_copy(&ms);
    assert((n as u128 - 1) * 95 <= 0xffff_ffff_ffff_ffffu128 * 95);
    let k128 = ((n as u128 - 1) * 95 + 50) / 100;
    assert(k128 <= n - 1);
    let k = k128 as usize;
    proof {
        let v = ms@;
        lemma_u64_leq_total();
        v.lemma_sort_by_ensures(u64_leq());
        assert(v.len() == v.to_multiset().len());
        assert(sorted@.len() == sorted@.to_multiset().len());
        assert(ms@.len() == n);
    }
    ApplyLatencyMetrics {
        samples: n,
        success_count: ok,
        failure_count: n - ok,
        total_ms: total,
        p95_ms: sorted[k],
        last_ms: vals[0].0,
    }
}

proof fn lemma_ok_count_bound(s: Seq<(u64, bool)>)
    ensures
        ok_count(s) <= s.len(),
    decreases s.len(),
{
    if s.len() > 0 {
        lemma_ok_count_bound(s.subrange(0, s.len() - 1));
    }
}

/// The statistics of a window are consistent: the successes and failures
/// add up to the samples, a window never holds more samples than it is wide
/// (at least one), and the 95th percentile is one of the sampled latencies.
pub proof fn law_latency_window(lines: Seq<Seq<char>>, window: usize)
    ensures
        ({
            let vals = window_samples(lines, window);
            &&& ok_count(vals) <= vals.len()
            &&& vals.len() <= (if window < 1 {
                1
            } else {
                window as nat
            })
            &&& vals.len() > 0 ==> {
                let p = latencies(vals).sort_by(u64_leq())[p95_rank(vals.len())];
                &&& latencies(vals).contains(p)
            }
        }),
{
    let vals = window_samples(lines, window);
    lemma_ok_count_bound(vals);
    if vals.len() > 0 {
        let l = latencies(vals);
        let sorted = l.sort_by(u64_leq());
        lemma_u64_leq_total();
        l.lemma_sort_by_ensures(u64_leq());
        let n = vals.len();
        assert(0 <= p95_rank(n) < n) by (nonlinear_arith)
            requires
                n >= 1,
        ;
        let p = sorted[p95_rank(n)];
        assert(sorted.len() == l.len()) by {
            l.lemma_sort_by_ensures(u64_leq());
            sorted.to_multiset_ensures();
            l.to_multiset_ensures();
        }
        assert(sorted.to_multiset().count(p) > 0) by {
            assert(sorted[p95_rank(n)] == p);
            assert(sorted.contains(p));
            sorted.to_multiset_ensures();
        }
        l.to_multiset_ensures();
        assert(l.contains(p));
    }
}

} // verus!

//! The tool's state records: DDC guardrails, automation settings, the
//! diagnostics log format, recovery and A/B-compare records.

use vstd::prelude::*;
use crate::numparse::{parse_u8_range, parse_u8_spec, strip_hex_prefix, hex_prefix_end};
use crate::text::{chars_of, trim_range, trim_seq, split_seq, lemma_split_step, join_seqs, lemma_split_nonempty};
use crate::fmt::hex2_of;

verus! {

/// The code a single comma-separated token names: hexadecimal when it reads
/// as hexadecimal, decimal otherwise; `None` for a blank or unreadable token.
pub open spec fn csv_token_code(part: Seq<char>) -> Option<u8> {
    let t = trim_seq(part);
    if t.len() == 0 {
        None
    } else {
        let n = strip_hex_prefix(t);
        match parse_u8_spec(n, 16) {
            Ok(b) => Some(b),
            Err(_) => match parse_u8_spec(n, 10) {
                Ok(b) => Some(b),
                Err(_) => None,
            },
        }
    }
}

/// The codes of a list of tokens, in order, unreadable tokens left out.
pub open spec fn codes_of(pieces: Seq<Seq<char>>) -> Seq<u8>
    decreases pieces.len(),
{
    if pieces.len() == 0 {
        Seq::empty()
    } else {
        let prev = codes_of(pieces.subrange(0, pieces.len() - 1));
        match csv_token_code(pieces[pieces.len() - 1]) {
            Some(b) => prev.push(b),
            None => prev,
        }
    }
}

proof fn lemma_codes_of_push(pieces: Seq<Seq<char>>, p: Seq<char>)
    ensures
        codes_of(pieces.push(p)) == (match csv_token_code(p) {
            Some(b) => codes_of(pieces).push(b),
            None => codes_of(pieces),
        }),
{
    let q = pieces.push(p);
    assert(q.subrange(0, q.len() - 1) =~= pieces);
}

fn csv_token_code_range(chars: &Vec<char>, from: usize, to: usize) -> (r: Option<u8>)
    requires
        from <= to <= chars.len(),
    ensures
        r == csv_token_code(chars@.subrange(from as int, to as int)),
{
    let (a, b) = trim_range(chars, from, to);
    if a == b {
        return None;
    }
    let n = hex_prefix_end(chars, a, b);
    match parse_u8_range(chars, n, b, 16) {
        Ok(v) => Some(v),
        Err(_) => match parse_u8_range(chars, n, b, 10) {
            Ok(v) => Some(v),
            Err(_) => None,
        },
    }
}

/// The VCP codes named in a comma-separated list such as `"04,0x06,DC"`.
/// Each token is trimmed; blank tokens and tokens that are neither
/// hexadecimal nor decimal bytes are skipped; hexadecimal is preferred.
pub fn risky_vcp_codes_from_csv(csv: &str) -> (r: Vec<u8>)
    ensures
        r@ == codes_of(split_seq(csv@, ',')),
{
    let v = chars_of(csv);
    let n = v.len();
    let mut out: Vec<u8> = Vec::new();
    let mut start: usize = 0;
    let mut i: usize = 0;
    let ghost mut done: Seq<Seq<char>> = Seq::empty();
    proof {
        assert(v@.subrange(0, 0) =~= Seq::<char>::empty());
        assert(split_seq(Seq::<char>::empty(), ',') =~= seq![Seq::<char>::empty()]);
        assert(v@.subrange(0, 0) =~= Seq::<char>::empty());
        assert(done.push(v@.subrange(0, 0)) =~= seq![Seq::<char>::empty()]);
    }
    while i < n
        invariant
            n == v.len(),
            start <= i <= n,
            split_seq(v@.subrange(0, i as int), ',') == done.push(v@.subrange(start as int, i as int)),
            out@ == codes_of(done),
        decreases n - i,
    {
        proof {
            lemma_split_step(v@, ',', i as int);
        }
        if v[i] == ',' {
            let code = csv_token_code_range(&v, start, i);
            proof {
                lemma_codes_of_push(done, v@.subrange(start as int, i as int));
                done = done.push(v@.subrange(start as int, i as int));
                assert(v@.subrange(i + 1, i + 1) =~= Seq::<char>::empty());
            }
            match code {
                Some(b) => out.push(b),
                None => {},
            }
            start = i + 1;
        } else {
            proof {
                let p = done.push(v@.subrange(start as int, i as int));
                assert(v@.subrange(start as int, i as int).push(v@[i as int]) =~= v@.subrange(
                    start as int,
                    i + 1,
                ));
                assert(p.update(p.len() - 1, p[p.len() - 1].push(v@[i as int])) =~= done.push(
                    v@.subrange(start as int, i + 1),
                ));
            }
        }
        i = i + 1;
    }
    let code = csv_token_code_range(&v, start, n);
    proof {
        lemma_codes_of_push(done, v@.subrange(start as int, n as int));
        assert(v@.subrange(0, n as int) =~= csv@);
    }
    match code {
        Some(b) => out.push(b),
        None => {},
    }
    out
}


/// Limits applied to DDC/CI writes: a brightness window and a confirmation
/// requirement for risky codes.
#[derive(Debug, Clone, Copy, PartialEq, Eq, Structural)]
pub struct DdcGuardrails {
    pub enabled: bool,
    pub min_brightness: u32,
    pub max_brightness: u32,
    pub confirm_risky_writes: bool,
}

/// The lower bound of the guardrail window, clamped to 0..=100.
pub open spec fn guard_min(g: DdcGuardrails) -> u32 {
    if g.min_brightness <= 100 {
        g.min_brightness
    } else {
        100
    }
}

/// The upper bound of the guardrail window: clamped to 100 and never below the lower bound.
pub open spec fn guard_max(g: DdcGuardrails) -> u32 {
    let m = if g.max_brightness <= 100 {
        g.max_brightness
    } else {
        100
    };
    if m >= guard_min(g) {
        m
    } else {
        guard_min(g)
    }
}

/// A guardrail record whose window lies inside 0..=100 and is not inverted.
pub open spec fn guardrails_valid(g: DdcGuardrails) -> bool {
    g.min_brightness <= g.max_brightness <= 100
}

impl Default for DdcGuardrails {
    fn default() -> (r: Self)
        ensures
            r == (DdcGuardrails {
                enabled: false,
                min_brightness: 15,
                max_brightness: 90,
                confirm_risky_writes: true,
            }),
    {
        DdcGuardrails {
            enabled: false,
            min_brightness: 15,
            max_brightness: 90,
            confirm_risky_writes: true,
        }
    }
}

impl DdcGuardrails {
    /// The same guardrails with the window clamped to 0..=100 and the upper
    /// bound raised to the lower one where it was below it.
    pub fn sanitized(self) -> (r: Self)
        ensures
            r.enabled == self.enabled,
            r.confirm_risky_writes == self.confirm_risky_writes,
            r.min_brightness == guard_min(self),
            r.max_brightness == guard_max(self),
    {
        let min = if self.min_brightness <= 100 {
            self.min_brightness
        } else {
            100
        };
        let capped = if self.max_brightness <= 100 {
            self.max_brightness
        } else {
            100
        };
        let max = if capped >= min {
            capped
        } else {
            min
        };
        DdcGuardrails {
            enabled: self.enabled,
            min_brightness: min,
            max_brightness: max,
            confirm_risky_writes: self.confirm_risky_writes,
        }
    }
}

/// Sanitizing always yields a valid window, leaves a valid record as it is,
/// and so sanitizing twice is the same as sanitizing once.
pub proof fn law_guardrails_sanitized(g: DdcGuardrails)
    ensures
        guardrails_valid(
            DdcGuardrails {
                min_brightness: guard_min(g),
                max_brightness: guard_max(g),
                ..g
            },
        ),
        guardrails_valid(g) ==> guard_min(g) == g.min_brightness && guard_max(g)
            == g.max_brightness,
        ({
            let s = DdcGuardrails { min_brightness: guard_min(g), max_brightness: guard_max(g), ..g };
            guard_min(s) == guard_min(g) && guard_max(s) == guard_max(g)
        }),
{
}

/// Tray quick-menu settings.
#[derive(Debug, Clone, PartialEq, Eq)]
pub struct TrayQuickConfig {
    pub enabled: bool,
    pub auto_start_with_watch: bool,
    pub tooltip: String,
    pub menu_refresh_ms: u64,
    pub brightness_step: u32,
    pub show_apply_action: bool,
    pub show_reader_toggle: bool,
    pub show_ab_toggle: bool,
    pub show_brightness_controls: bool,
    pub show_exit_action: bool,
}

impl Default for TrayQuickConfig {
    fn default() -> (r: Self)
        ensures
            !r.enabled,
            !r.auto_start_with_watch,
            r.tooltip@ == "LG UltraGear Quick Mode"@,
            r.menu_refresh_ms == 5000,
            r.brightness_step == 10,
            r.show_apply_action,
            r.show_reader_toggle,
            r.show_ab_toggle,
            r.show_brightness_controls,
            r.show_exit_action,
    {
        TrayQuickConfig {
            enabled: false,
            auto_start_with_watch: false,
            tooltip: String::from_str("LG UltraGear Quick Mode"),
            menu_refresh_ms: 5000,
            brightness_step: 10,
            show_apply_action: true,
            show_reader_toggle: true,
            show_ab_toggle: true,
            show_brightness_controls: true,
            show_exit_action: true,
        }
    }
}

impl TrayQuickConfig {
    /// The same settings with the brightness step clamped to 1..=100.
    pub fn sanitized(self) -> (r: Self)
        ensures
            r.brightness_step == (if self.brightness_step < 1 {
                1
            } else if self.brightness_step > 100 {
                100
            } else {
                self.brightness_step
            }),
            r == (TrayQuickConfig { brightness_step: r.brightness_step, ..self }),
    {
        let step = if self.brightness_step < 1 {
            1
        } else if self.brightness_step > 100 {
            100
        } else {
            self.brightness_step
        };
        TrayQuickConfig { brightness_step: step, ..self }
    }
}

/// The polling intervals of the ambient-light and app-rule automation (the
/// integer settings of those sections; their other settings hold floats
/// and stay with the front end).
#[derive(Debug, Clone, Copy, PartialEq, Eq, Structural)]
pub struct AutomationIntervals {
    /// How often the ambient sensor is polled.
    pub sensor_poll_interval_ms: u64,
    /// How long one sensor reading may take.
    pub sensor_timeout_ms: u64,
    /// How often the running applications are checked against the rules.
    pub app_rules_poll_interval_ms: u64,
}

impl Default for AutomationIntervals {
    /// The defaults: sensor polled every 4 s with a 1.5 s timeout, app
    /// rules checked every 3 s.
    fn default() -> (r: Self)
        ensures
            r == (AutomationIntervals {
                sensor_poll_interval_ms: 4000,
                sensor_timeout_ms: 1500,
                app_rules_poll_interval_ms: 3000,
            }),
    {
        AutomationIntervals { sensor_poll_interval_ms: 4000, sensor_timeout_ms: 1500, app_rules_poll_interval_ms: 3000 }
    }
}

impl AutomationIntervals {
    /// The intervals raised to their floors: sensor polling at least every
    /// 500 ms, a sensor timeout of at least 100 ms, app-rule polling at
    /// least every 500 ms.
    pub fn sanitized(self) -> (r: Self)
        ensures
            r.sensor_poll_interval_ms == (if self.sensor_poll_interval_ms < 500 {
                500
            } else {
                self.sensor_poll_interval_ms
            }),
            r.sensor_timeout_ms == (if self.sensor_timeout_ms < 100 {
                100
            } else {
                self.sensor_timeout_ms
            }),
            r.app_rules_poll_interval_ms == (if self.app_rules_poll_interval_ms < 500 {
                500
            } else {
                self.app_rules_poll_interval_ms
            }),
    {
        AutomationIntervals {
            sensor_poll_interval_ms: if self.sensor_poll_interval_ms < 500 {
                500
            } else {
                self.sensor_poll_interval_ms
            },
            sensor_timeout_ms: if self.sensor_timeout_ms < 100 {
                100
            } else {
                self.sensor_timeout_ms
            },
            app_rules_poll_interval_ms: if self.app_rules_poll_interval_ms < 500 {
                500
            } else {
                self.app_rules_poll_interval_ms
            },
        }
    }
}

/// Self-healing checks run by the service.
#[derive(Debug, Clone, Copy, PartialEq, Eq, Structural)]
pub struct HealthSelfHealConfig {
    pub enabled: bool,
    pub startup_self_heal: bool,
    pub wake_self_heal: bool,
    pub run_every_event: bool,
    pub verify_profile_presence: bool,
    pub regenerate_if_missing: bool,
    pub cleanup_stale_profiles: bool,
}

impl Default for HealthSelfHealConfig {
    fn default() -> (r: Self)
        ensures
            r == (HealthSelfHealConfig {
                enabled: true,
                startup_self_heal: true,
                wake_self_heal: true,
                run_every_event: true,
                verify_profile_presence: true,
                regenerate_if_missing: true,
                cleanup_stale_profiles: false,
            }),
    {
        HealthSelfHealConfig {
            enabled: true,
            startup_self_heal: true,
            wake_self_heal: true,
            run_every_event: true,
            verify_profile_presence: true,
            regenerate_if_missing: true,
            cleanup_stale_profiles: false,
        }
    }
}

/// Safety settings for risky DDC/CI writes.
#[derive(Debug, Clone, PartialEq, Eq)]
pub struct DdcSafetyConfig {
    pub rollback_timer_enabled: bool,
    pub rollback_timeout_ms: u64,
    pub keep_key: String,
    pub risky_vcp_codes: String,
    pub require_confirm_before_risky: bool,
}

impl Default for DdcSafetyConfig {
    fn default() -> (r: Self)
        ensures
            r.rollback_timer_enabled,
            r.rollback_timeout_ms == 15000,
            r.keep_key@ == "K"@,
            r.risky_vcp_codes@ == "04,06,0A,60,D6,DC,14"@,
            r.require_confirm_before_risky,
    {
        DdcSafetyConfig {
            rollback_timer_enabled: true,
            rollback_timeout_ms: 15000,
            keep_key: String::from_str("K"),
            risky_vcp_codes: String::from_str("04,06,0A,60,D6,DC,14"),
            require_confirm_before_risky: true,
        }
    }
}

impl DdcSafetyConfig {
    /// The same settings with the rollback timeout raised to at least one second.
    pub fn sanitized(self) -> (r: Self)
        ensures
            r.rollback_timeout_ms == (if self.rollback_timeout_ms < 1000 {
                1000
            } else {
                self.rollback_timeout_ms
            }),
            r == (DdcSafetyConfig { rollback_timeout_ms: r.rollback_timeout_ms, ..self }),
    {
        let t = if self.rollback_timeout_ms < 1000 {
            1000
        } else {
            self.rollback_timeout_ms
        };
        DdcSafetyConfig { rollback_timeout_ms: t, ..self }
    }
}

/// Whether writing `vcp_code` counts as risky under the configured code list.
pub fn is_risky_vcp_write(vcp_code: u8, safety: &DdcSafetyConfig) -> (r: bool)
    ensures
        r == codes_of(split_seq(safety.risky_vcp_codes@, ',')).contains(vcp_code),
{
    let codes = risky_vcp_codes_from_csv(safety.risky_vcp_codes.as_str());
    let mut i: usize = 0;
    while i < codes.len()
        invariant
            i <= codes.len(),
            codes@ == codes_of(split_seq(safety.risky_vcp_codes@, ',')),
            forall|j: int| 0 <= j < i ==> codes@[j] != vcp_code,
        decreases codes.len() - i,
    {
        if codes[i] == vcp_code {
            assert(codes@[i as int] == vcp_code);
            assert(codes@.contains(vcp_code));
            return true;
        }
        i = i + 1;
    }
    false
}

/// What the metrics collector records.
#[derive(Debug, Clone, Copy, PartialEq, Eq, Structural)]
pub struct MetricsConfig {
    pub enabled: bool,
    pub collect_latency: bool,
    pub collect_success_rate: bool,
    pub rolling_window: usize,
}

impl Default for MetricsConfig {
    fn default() -> (r: Self)
        ensures
            r == (MetricsConfig {
                enabled: true,
                collect_latency: true,
                collect_success_rate: true,
                rolling_window: 120,
            }),
    {
        MetricsConfig {
            enabled: true,
            collect_latency: true,
            collect_success_rate: true,
            rolling_window: 120,
        }
    }
}

impl MetricsConfig {
    /// The same settings with a rolling window of at least one sample.
    pub fn sanitized(self) -> (r: Self)
        ensures
            r == (MetricsConfig {
                rolling_window: if self.rolling_window < 1 {
                    1
                } else {
                    self.rolling_window
                },
                ..self
            }),
    {
        MetricsConfig {
            rolling_window: if self.rolling_window < 1 {
                1
            } else {
                self.rolling_window
            },
            ..self
        }
    }

    /// Whether an apply-latency event is to be recorded.
    pub fn records_latency(&self) -> (r: bool)
        ensures
            r == (self.enabled && self.collect_latency),
    {
        self.enabled && self.collect_latency
    }
}

/// The record of the last known good state: which snapshot to roll back to.
#[derive(Debug, Clone, PartialEq, Eq, Default)]
pub struct RecoveryState {
    pub created_at: String,
    pub snapshot_id: String,
    pub profile_name: String,
    pub ddc_brightness: Option<u32>,
    pub notes: String,
}

impl RecoveryState {
    /// The record marking a snapshot as last known good, at `created_at`,
    /// with the notes trimmed.
    pub fn last_good(
        created_at: String,
        snapshot_id: &str,
        profile_name: &str,
        ddc_brightness: Option<u32>,
        notes: &str,
    ) -> (r: RecoveryState)
        ensures
            r.created_at@ == created_at@,
            r.snapshot_id@ == snapshot_id@,
            r.profile_name@ == profile_name@,
            r.ddc_brightness == ddc_brightness,
            r.notes@ == trim_seq(notes@),
    {
        RecoveryState {
            created_at,
            snapshot_id: String::from_str(snapshot_id),
            profile_name: String::from_str(profile_name),
            ddc_brightness,
            notes: crate::text::trim(notes),
        }
    }
}

/// The snapshot a recovery record points to: none without a record or when
/// its snapshot id is empty.
pub fn last_good_snapshot_id(state: &Option<RecoveryState>) -> (r: Option<String>)
    ensures
        match state {
            Some(s) => if s.snapshot_id@.len() == 0 {
                r is None
            } else {
                r matches Some(id) && id@ == s.snapshot_id@
            },
            None => r is None,
        },
{
    match state {
        Some(s) => {
            if s.snapshot_id.as_str().unicode_len() == 0 {
                None
            } else {
                Some(String::from_str(s.snapshot_id.as_str()))
            }
        },
        None => None,
    }
}

/// The A/B comparison between the current profile and a baseline.
#[derive(Debug, Clone, PartialEq, Eq)]
pub struct AbCompareState {
    pub enabled: bool,
    pub current_side: String,
    pub profile_a_path: String,
    pub profile_b_path: String,
    pub profile_a_label: String,
    pub profile_b_label: String,
    pub last_switch_at: String,
}

impl Default for AbCompareState {
    fn default() -> (r: Self)
        ensures
            !r.enabled,
            r.current_side@ == "A"@,
            r.profile_a_path@.len() == 0,
            r.profile_b_path@.len() == 0,
            r.profile_a_label@ == "Current"@,
            r.profile_b_label@ == "Baseline"@,
            r.last_switch_at@.len() == 0,
    {
        AbCompareState {
            enabled: false,
            current_side: String::from_str("A"),
            profile_a_path: String::new(),
            profile_b_path: String::new(),
            profile_a_label: String::from_str("Current"),
            profile_b_label: String::from_str("Baseline"),
            last_switch_at: String::new(),
        }
    }
}

/// A snapshot label: trimmed, or `Snapshot` when blank.
pub open spec fn label_spec(label: Seq<char>) -> Seq<char> {
    if trim_seq(label).len() == 0 {
        "Snapshot"@
    } else {
        trim_seq(label)
    }
}

/// The label a snapshot is saved under.
pub fn trim_label(label: &str) -> (r: String)
    ensures
        r@ == label_spec(label@),
{
    let t = crate::text::trim(label);
    if t.as_str().unicode_len() == 0 {
        String::from_str("Snapshot")
    } else {
        t
    }
}

/// A snapshot kind: trimmed, or `manual` when blank.
pub fn snapshot_kind(kind: &str) -> (r: String)
    ensures
        r@ == (if trim_seq(kind@).len() == 0 {
            "manual"@
        } else {
            trim_seq(kind@)
        }),
{
    let t = crate::text::trim(kind);
    if t.as_str().unicode_len() == 0 {
        String::from_str("manual")
    } else {
        t
    }
}

/// A list of codes written the way the configuration writes them: two
/// uppercase hex digits each, separated by commas.
pub open spec fn codes_csv(codes: Seq<u8>) -> Seq<char> {
    join_seqs(codes.map_values(|c: u8| hex2_of(c)), ","@)
}

proof fn lemma_split_append(s: Seq<char>, b: Seq<char>, sep: char)
    requires
        forall|i: int| 0 <= i < b.len() ==> b[i] != sep,
    ensures
        split_seq(s + b, sep) == split_seq(s, sep).update(
            split_seq(s, sep).len() - 1,
            split_seq(s, sep).last() + b,
        ),
    decreases b.len(),
{
    lemma_split_nonempty(s, sep);
    if b.len() == 0 {
        assert(s + b =~= s);
        let p = split_seq(s, sep);
        assert(p.update(p.len() - 1, p.last() + b) =~= p);
    } else {
        let b0 = b.drop_last();
        let c = b.last();
        lemma_split_append(s, b0, sep);
        let t = s + b;
        assert(t.subrange(0, t.len() - 1) =~= s + b0);
        assert(t[t.len() - 1] == c);
        let p = split_seq(s, sep);
        let q = split_seq(s + b0, sep);
        assert(q.len() == p.len());
        assert(split_seq(t, sep) =~= p.update(p.len() - 1, p.last() + b)) by {
            assert(p.last() + b0 + seq![c] =~= p.last() + b);
            assert(q[q.len() - 1].push(c) =~= p.last() + b);
        }
    }
}

/// Writing codes as comma-separated two-digit hex and reading the list back
/// gives the same codes, in the same order.
pub proof fn law_csv_roundtrip(codes: Seq<u8>)
    ensures
        codes_of(split_seq(codes_csv(codes), ',')) == codes,
    decreases codes.len(),
{
    reveal_strlit(",");
    let parts = codes.map_values(|c: u8| hex2_of(c));
    if codes.len() == 0 {
        assert(codes_csv(codes) =~= Seq::<char>::empty());
        assert(split_seq(Seq::<char>::empty(), ',') =~= seq![Seq::<char>::empty()]);
        assert(seq![Seq::<char>::empty()].subrange(0, 0) =~= Seq::<Seq<char>>::empty());
        assert(trim_seq(Seq::<char>::empty()) =~= Seq::<char>::empty());
        assert(csv_token_code(Seq::<char>::empty()) is None);
        lemma_codes_of_push(Seq::<Seq<char>>::empty(), Seq::<char>::empty());
        assert(Seq::<Seq<char>>::empty().push(Seq::<char>::empty()) =~= seq![Seq::<char>::empty()]);
        assert(codes_of(seq![Seq::<char>::empty()]) =~= Seq::<u8>::empty());
        assert(codes =~= Seq::<u8>::empty());
    } else {
        let last = codes.last();
        let prev = codes.drop_last();
        crate::numparse::lemma_hex2_parses(last);
        let h = hex2_of(last);
        assert(forall|i: int| 0 <= i < h.len() ==> h[i] != ',');
        assert(csv_token_code(h) == Some(last));
        if codes.len() == 1 {
            assert(codes_csv(codes) == h);
            lemma_split_append(Seq::<char>::empty(), h, ',');
            assert(Seq::<char>::empty() + h =~= h);
            let e = split_seq(Seq::<char>::empty(), ',');
            assert(e =~= seq![Seq::<char>::empty()]);
            assert(split_seq(h, ',') =~= seq![h]);
            assert(seq![h].subrange(0, 0) =~= Seq::<Seq<char>>::empty());
            lemma_codes_of_push(Seq::<Seq<char>>::empty(), h);
            assert(Seq::<Seq<char>>::empty().push(h) =~= seq![h]);
            assert(codes_of(seq![h]) =~= seq![last]);
            assert(codes =~= seq![last]);
        } else {
            law_csv_roundtrip(prev);
            let a = codes_csv(prev);
            assert(parts.drop_last() =~= prev.map_values(|c: u8| hex2_of(c)));
            assert(codes_csv(codes) =~= a + seq![','] + h);
            lemma_split_append(a.push(','), h, ',');
            assert(a + seq![','] + h =~= a.push(',') + h);
            let t = a.push(',');
            assert(t.subrange(0, t.len() - 1) =~= a);
            lemma_split_nonempty(a, ',');
            let pa = split_seq(a, ',');
            assert(split_seq(t, ',') == pa.push(Seq::<char>::empty()));
            assert(split_seq(a.push(',') + h, ',') =~= pa.push(h)) by {
                assert(Seq::<char>::empty() + h =~= h);
            }
            lemma_codes_of_push(pa, h);
            assert(codes_of(pa.push(h)) == codes_of(pa).push(last));
            assert(codes =~= prev.push(last));
        }
    }
}

} // verus!

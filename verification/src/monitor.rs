//! Monitor identification: decoding WMI monitor records, matching them
//! against a name pattern, and summarizing advanced-colour (HDR) state.

use vstd::prelude::*;
use crate::text::{chars_of, push_char, string_from_range, trim, trim_seq, to_uppercase, upper_text, ascii_upper, contains_str, is_substring};

verus! {

/// A matched monitor with its friendly name and device instance path.
#[derive(Debug, Clone, PartialEq, Eq)]
pub struct MatchedMonitor {
    pub name: String,
    pub device_key: String,
    pub serial: String,
    pub manufacturer_id: String,
    pub product_code: String,
}

/// The five text fields of a matched monitor.
pub type MonitorFields = (Seq<char>, Seq<char>, Seq<char>, Seq<char>, Seq<char>);

impl View for MatchedMonitor {
    type V = MonitorFields;

    open spec fn view(&self) -> MonitorFields {
        (self.name@, self.device_key@, self.serial@, self.manufacturer_id@, self.product_code@)
    }
}

/// Pattern matching mode for monitor discovery.
#[derive(Debug, Clone, Copy, PartialEq, Eq, Structural)]
pub enum MonitorMatchMode {
    Substring,
    Regex,
}

/// Aggregate advanced-colour/HDR state over the active display paths.
#[derive(Debug, Clone, Copy, Default, PartialEq, Eq, Structural)]
pub struct AdvancedColorState {
    pub active_paths: u32,
    pub supported_paths: u32,
    pub enabled_paths: u32,
}

impl AdvancedColorState {
    /// Whether any active path has advanced colour enabled.
    pub fn any_enabled(self) -> (r: bool)
        ensures
            r == (self.enabled_paths > 0),
    {
        self.enabled_paths > 0
    }
}

/// Bit 0 of the advanced-colour flags: the path supports advanced colour.
pub fn advanced_color_supported(flags: u32) -> (r: bool)
    ensures
        r == (flags % 2 == 1),
{
    assert((flags & 1u32 != 0) == (flags % 2 == 1)) by (bit_vector);
    flags & 1 != 0
}

/// Bit 1 of the advanced-colour flags: advanced colour is enabled on the path.
pub fn advanced_color_enabled(flags: u32) -> (r: bool)
    ensures
        r == ((flags / 2) % 2 == 1),
{
    assert((flags & 2u32 != 0) == ((flags / 2) % 2 == 1)) by (bit_vector);
    flags & 2 != 0
}

/// How many of the paths report flags with bit `bit` (0 or 1) set; a path
/// whose flags could not be read (`None`) counts for neither.
pub open spec fn paths_with_bit(flags: Seq<Option<u32>>, bit: nat) -> nat
    decreases flags.len(),
{
    if flags.len() == 0 {
        0
    } else {
        paths_with_bit(flags.subrange(0, flags.len() - 1), bit) + match flags[flags.len() - 1] {
            Some(f) => if (if bit == 0 {
                f % 2
            } else {
                (f / 2) % 2
            }) == 1 {
                1nat
            } else {
                0nat
            },
            None => 0nat,
        }
    }
}

/// The advanced-colour state of the active display paths, given for each
/// path the flags it reported (`None` where the query for it failed).
pub fn summarize_advanced_color(path_flags: &Vec<Option<u32>>) -> (r: AdvancedColorState)
    requires
        path_flags.len() <= u32::MAX,
    ensures
        r.active_paths == path_flags.len(),
        r.supported_paths == paths_with_bit(path_flags@, 0),
        r.enabled_paths == paths_with_bit(path_flags@, 1),
{
    let mut state = AdvancedColorState {
        active_paths: path_flags.len() as u32,
        supported_paths: 0,
        enabled_paths: 0,
    };
    let mut i: usize = 0;
    proof {
        assert(path_flags@.subrange(0, 0) =~= Seq::<Option<u32>>::empty());
    }
    while i < path_flags.len()
        invariant
            i <= path_flags.len() <= u32::MAX,
            state.active_paths == path_flags.len(),
            state.supported_paths == paths_with_bit(path_flags@.subrange(0, i as int), 0),
            state.enabled_paths == paths_with_bit(path_flags@.subrange(0, i as int), 1),
            state.supported_paths <= i,
            state.enabled_paths <= i,
        decreases path_flags.len() - i,
    {
        proof {
            let t = path_flags@.subrange(0, i + 1);
            assert(t.subrange(0, t.len() - 1) =~= path_flags@.subrange(0, i as int));
            assert(t[t.len() - 1] == path_flags@[i as int]);
        }
        match path_flags[i] {
            Some(f) => {
                if advanced_color_supported(f) {
                    state.supported_paths = state.supported_paths + 1;
                }
                if advanced_color_enabled(f) {
                    state.enabled_paths = state.enabled_paths + 1;
                }
            },
            None => {},
        }
        i = i + 1;
    }
    proof {
        assert(path_flags@.subrange(0, path_flags@.len() as int) =~= path_flags@);
    }
    state
}

/// Whether any active display path has advanced colour (HDR) enabled.
pub fn is_any_display_hdr_enabled(path_flags: &Vec<Option<u32>>) -> (r: bool)
    requires
        path_flags.len() <= u32::MAX,
    ensures
        r == (paths_with_bit(path_flags@, 1) > 0),
{
    summarize_advanced_color(path_flags).any_enabled()
}

/// A UTF-16 unit that is a character by itself (not a surrogate).
pub open spec fn is_scalar_unit(u: u16) -> bool {
    u < 0xD800 || u > 0xDFFF
}

/// The units before the first zero.
pub open spec fn until_nul(raw: Seq<u16>) -> Seq<u16>
    decreases raw.len(),
{
    if raw.len() == 0 || raw[0] == 0 {
        Seq::empty()
    } else {
        seq![raw[0]] + until_nul(raw.subrange(1, raw.len() as int))
    }
}

/// Each unit read as a character on its own; surrogate units are dropped.
pub open spec fn units_to_chars(units: Seq<u16>) -> Seq<char>
    decreases units.len(),
{
    if units.len() == 0 {
        Seq::empty()
    } else {
        let prev = units_to_chars(units.subrange(0, units.len() - 1));
        let u = units[units.len() - 1];
        if is_scalar_unit(u) {
            prev.push(u as char)
        } else {
            prev
        }
    }
}

/// The text a NUL-terminated UTF-16 buffer decodes to.
pub open spec fn decoded_units(raw: Seq<u16>) -> Seq<char> {
    units_to_chars(until_nul(raw))
}

/// Calls `char::from_u32`: `Some` exactly for the Unicode scalar values
/// (below `0xD800`, or from `0xE000` to `0x10FFFF`), holding that value.
#[verifier::external_body]
fn char_from_u32(v: u32) -> (r: Option<char>)
    ensures
        r is Some <==> (v < 0xD800 || (0xE000 <= v && v <= 0x10FFFF)),
        r matches Some(c) ==> c == v as char,
{
    char::from_u32(v)
}

proof fn lemma_until_nul_prefix(raw: Seq<u16>, k: int)
    requires
        0 <= k <= raw.len(),
        forall|j: int| 0 <= j < k ==> raw[j] != 0,
        k == raw.len() || raw[k] == 0,
    ensures
        until_nul(raw) == raw.subrange(0, k),
    decreases k,
{
    if k == 0 {
        assert(raw.subrange(0, 0) =~= Seq::<u16>::empty());
    } else {
        let t = raw.subrange(1, raw.len() as int);
        lemma_until_nul_prefix(t, k - 1);
        assert(seq![raw[0]] + t.subrange(0, k - 1) =~= raw.subrange(0, k));
    }
}

/// Decodes a NUL-terminated buffer of UTF-16 units, one character per unit.
pub fn decode_units(raw: &[u16]) -> (r: String)
    ensures
        r@ == decoded_units(raw@),
{
    let mut k: usize = 0;
    while k < raw.len() && raw[k] != 0
        invariant
            k <= raw.len(),
            forall|j: int| 0 <= j < k ==> raw@[j] != 0,
        decreases raw.len() - k,
    {
        k = k + 1;
    }
    proof {
        lemma_until_nul_prefix(raw@, k as int);
    }
    let mut out = String::new();
    let mut i: usize = 0;
    proof {
        assert(raw@.subrange(0, 0) =~= Seq::<u16>::empty());
    }
    while i < k
        invariant
            i <= k <= raw.len(),
            out@ == units_to_chars(raw@.subrange(0, i as int)),
        decreases k - i,
    {
        let u = raw[i];
        proof {
            let t = raw@.subrange(0, i + 1);
            assert(t.subrange(0, t.len() - 1) =~= raw@.subrange(0, i as int));
            assert(t[t.len() - 1] == u);
        }
        match char_from_u32(u as u32) {
            Some(c) => {
                assert(c == u as char);
                push_char(&mut out, c);
            },
            None => {},
        }
        i = i + 1;
    }
    out
}

/// Decodes WMI's `UserFriendlyName` (UTF-16 units, NUL-terminated); no value
/// decodes to the empty string.
pub fn decode_friendly_name(raw: &Option<Vec<u16>>) -> (r: String)
    ensures
        r@ == match raw {
            Some(v) => decoded_units(v@),
            None => Seq::<char>::empty(),
        },
{
    match raw {
        Some(v) => decode_units(v.as_slice()),
        None => String::new(),
    }
}

/// Decodes a WMI UTF-16 text field and trims it.
pub fn decode_wmi_u16_text(raw: &Option<Vec<u16>>) -> (r: String)
    ensures
        r@ == trim_seq(
            match raw {
                Some(v) => decoded_units(v@),
                None => Seq::<char>::empty(),
            },
        ),
{
    let decoded = decode_friendly_name(raw);
    trim(decoded.as_str())
}


/// `s` with every trailing `_0` removed (`trim_end_matches("_0")`).
pub open spec fn strip_zero_suffixes(s: Seq<char>) -> Seq<char>
    decreases s.len(),
{
    if s.len() >= 2 && s[s.len() - 2] == '_' && s[s.len() - 1] == '0' {
        strip_zero_suffixes(s.subrange(0, s.len() - 2))
    } else {
        s
    }
}

/// The device key of a WMI instance name: the name without its trailing `_0`s.
pub fn device_key_of(instance_name: &str) -> (r: String)
    ensures
        r@ == strip_zero_suffixes(instance_name@),
{
    let v = chars_of(instance_name);
    let mut end = v.len();
    proof {
        assert(v@.subrange(0, end as int) =~= v@);
    }
    while end >= 2 && v[end - 2] == '_' && v[end - 1] == '0'
        invariant
            end <= v.len(),
            v@ == instance_name@,
            strip_zero_suffixes(v@) == strip_zero_suffixes(v@.subrange(0, end as int)),
        decreases end,
    {
        proof {
            let t = v@.subrange(0, end as int);
            assert(t[t.len() - 2] == v@[end - 2] && t[t.len() - 1] == v@[end - 1]);
            assert(t.subrange(0, t.len() - 2) =~= v@.subrange(0, end - 2));
        }
        end = end - 2;
    }
    proof {
        let t = v@.subrange(0, end as int);
        if t.len() >= 2 {
            assert(t[t.len() - 2] == v@[end - 2] && t[t.len() - 1] == v@[end - 1]);
        }
    }
    string_from_range(&v, 0, end)
}

#[verifier::external_type_specification]
#[verifier::external_body]
pub struct ExRegex(regex::Regex);

/// What building `pattern` as a case-insensitive regex reports: `None` when
/// it compiles, otherwise the error's text.
pub uninterp spec fn regex_compile_error(pattern: Seq<char>) -> Option<Seq<char>>;

/// Whether the case-insensitive regex built from `pattern` matches somewhere in `text`.
pub uninterp spec fn regex_matches(pattern: Seq<char>, text: Seq<char>) -> bool;

/// A compiled case-insensitive regular expression and the pattern it was
/// compiled from. Only `CaseInsensitiveRegex::compile` makes one.
pub struct CaseInsensitiveRegex {
    re: regex::Regex,
    pattern: String,
}

/// Calls `regex::RegexBuilder::new(pattern).case_insensitive(true).build()`;
/// an error is handed back as its display text. Whether it compiles, and the
/// error's text, depend on the pattern alone and are named
/// `regex_compile_error`.
#[verifier::external_body]
fn build_case_insensitive(pattern: &str) -> (r: Result<regex::Regex, String>)
    ensures
        match r {
            Ok(_) => regex_compile_error(pattern@) is None,
            Err(m) => regex_compile_error(pattern@) == Some(m@),
        },
{
    match regex::RegexBuilder::new(pattern).case_insensitive(true).build() {
        Ok(re) => Ok(re),
        Err(e) => Err(e.to_string()),
    }
}

/// Calls `regex::Regex::is_match` on the regex compiled from `re`'s pattern;
/// the answer is named `regex_matches` of that pattern and the text.
#[verifier::external_body]
fn regex_is_match(re: &CaseInsensitiveRegex, text: &str) -> (r: bool)
    ensures
        r == regex_matches(re.pattern_view(), text@),
{
    re.re.is_match(text)
}

impl CaseInsensitiveRegex {
    /// The pattern this regex was compiled from.
    pub closed spec fn pattern_view(&self) -> Seq<char> {
        self.pattern@
    }

    /// Compiles `pattern` case-insensitively; the error's text on failure.
    pub fn compile(pattern: &str) -> (r: Result<CaseInsensitiveRegex, String>)
        ensures
            match r {
                Ok(re) => regex_compile_error(pattern@) is None && re.pattern_view() == pattern@,
                Err(m) => regex_compile_error(pattern@) == Some(m@),
            },
    {
        match build_case_insensitive(pattern) {
            Ok(re) => Ok(CaseInsensitiveRegex { re, pattern: String::from_str(pattern) }),
            Err(m) => Err(m),
        }
    }

    /// Whether this regex matches somewhere in `text`.
    pub fn is_match(&self, text: &str) -> (r: bool)
        ensures
            r == regex_matches(self.pattern_view(), text@),
    {
        regex_is_match(self, text)
    }
}

/// Whether a monitor called `name` is selected by `pattern`: every name is
/// when the pattern is empty; otherwise by case-insensitive substring or
/// by case-insensitive regex.
pub open spec fn name_matches_spec(name: Seq<char>, pattern: Seq<char>, mode: MonitorMatchMode) -> bool {
    pattern.len() == 0 || match mode {
        MonitorMatchMode::Substring => is_substring(upper_text(pattern), upper_text(name)),
        MonitorMatchMode::Regex => regex_matches(pattern, name),
    }
}

/// Decides whether `name` matches `pattern`; in regex mode with a
/// non-empty pattern, by the compiled `regex` (no regex: no match).
pub fn monitor_name_matches(
    name: &str,
    pattern: &str,
    mode: MonitorMatchMode,
    regex: Option<&CaseInsensitiveRegex>,
) -> (r: bool)
    ensures
        r == (pattern@.len() == 0 || match mode {
            MonitorMatchMode::Substring => is_substring(upper_text(pattern@), upper_text(name@)),
            MonitorMatchMode::Regex => match regex {
                Some(re) => regex_matches(re.pattern_view(), name@),
                None => false,
            },
        }),
{
    if pattern.is_empty() {
        return true;
    }
    match mode {
        MonitorMatchMode::Substring => {
            let n = to_uppercase(name);
            let p = to_uppercase(pattern);
            contains_str(n.as_str(), p.as_str())
        },
        MonitorMatchMode::Regex => match regex {
            Some(re) => re.is_match(name),
            None => false,
        },
    }
}

/// A monitor record as WMI's `WmiMonitorID` class reports it.
#[derive(Debug, Clone)]
pub struct WmiMonitorId {
    pub user_friendly_name: Option<Vec<u16>>,
    pub instance_name: Option<String>,
    pub serial_number_id: Option<Vec<u16>>,
    pub manufacturer_name: Option<Vec<u16>>,
    pub product_code_id: Option<Vec<u16>>,
}

/// A WMI text field decoded; absent fields are empty.
pub open spec fn opt_decoded(o: Option<Vec<u16>>) -> Seq<char> {
    match o {
        Some(v) => decoded_units(v@),
        None => Seq::empty(),
    }
}

/// The monitor a WMI record yields: selected by name, and kept only when
/// its device key is not empty.
pub open spec fn matched_entry(m: WmiMonitorId, pattern: Seq<char>, mode: MonitorMatchMode) -> Option<MonitorFields> {
    let name = opt_decoded(m.user_friendly_name);
    let key = strip_zero_suffixes(
        match m.instance_name {
            Some(s) => s@,
            None => Seq::empty(),
        },
    );
    if name_matches_spec(name, pattern, mode) && key.len() > 0 {
        Some(
            (
                name,
                key,
                trim_seq(opt_decoded(m.serial_number_id)),
                trim_seq(opt_decoded(m.manufacturer_name)),
                trim_seq(opt_decoded(m.product_code_id)),
            ),
        )
    } else {
        None
    }
}

/// The monitors the records yield, in order.
pub open spec fn matched_list(ms: Seq<WmiMonitorId>, pattern: Seq<char>, mode: MonitorMatchMode) -> Seq<MonitorFields>
    decreases ms.len(),
{
    if ms.len() == 0 {
        Seq::empty()
    } else {
        let prev = matched_list(ms.subrange(0, ms.len() - 1), pattern, mode);
        match matched_entry(ms[ms.len() - 1], pattern, mode) {
            Some(f) => prev.push(f),
            None => prev,
        }
    }
}

/// Substring matching ignores the case of ASCII letters: two ASCII
/// patterns that differ only in the case of their letters select the same
/// monitors, in the same order (whatever the monitors' names hold).
pub proof fn law_match_ignores_ascii_case(ms: Seq<WmiMonitorId>, p1: Seq<char>, p2: Seq<char>)
    requires
        vstd::utf8::is_ascii_chars(p1),
        vstd::utf8::is_ascii_chars(p2),
        p1.map_values(|c: char| ascii_upper(c)) == p2.map_values(|c: char| ascii_upper(c)),
    ensures
        matched_list(ms, p1, MonitorMatchMode::Substring) == matched_list(ms, p2, MonitorMatchMode::Substring),
    decreases ms.len(),
{
    assert(p1.len() == p1.map_values(|c: char| ascii_upper(c)).len());
    assert(upper_text(p1) == upper_text(p2));
    if ms.len() > 0 {
        law_match_ignores_ascii_case(ms.subrange(0, ms.len() - 1), p1, p2);
    }
}

/// The matched monitors' fields.
pub open spec fn monitors_view(ms: Seq<MatchedMonitor>) -> Seq<MonitorFields> {
    ms.map_values(|m: MatchedMonitor| m@)
}

/// Why monitor discovery failed.
#[derive(Debug, Clone, PartialEq, Eq)]
pub enum MonitorError {
    /// The regex pattern did not compile; `message` is the compiler's text.
    InvalidRegex { pattern: String, message: String },
}

impl MonitorError {
    /// The error's text: `invalid regex pattern "<pattern>": <message>`.
    pub fn message(&self) -> (r: String)
        ensures
            match self {
                MonitorError::InvalidRegex { pattern, message } => r@ == "invalid regex pattern \""@
                    + pattern@ + "\": "@ + message@,
            },
    {
        match self {
            MonitorError::InvalidRegex { pattern, message } => {
                let mut out = String::from_str("invalid regex pattern \"");
                out.append(pattern.as_str());
                out.append("\": ");
                out.append(message.as_str());
                out
            },
        }
    }
}

/// Selects, among the connected monitors WMI reported, those whose friendly
/// name matches `pattern` in the given mode.
pub fn find_matching_monitors_with_mode(
    monitors: &Vec<WmiMonitorId>,
    pattern: &str,
    mode: MonitorMatchMode,
) -> (r: Result<Vec<MatchedMonitor>, MonitorError>)
    ensures
        match r {
            Ok(list) => !(mode == MonitorMatchMode::Regex && pattern@.len() > 0 && regex_compile_error(pattern@) is Some)
                && monitors_view(list@) == matched_list(monitors@, pattern@, mode),
            Err(MonitorError::InvalidRegex { pattern: p, message }) => mode == MonitorMatchMode::Regex && pattern@.len() > 0
                && p@ == pattern@ && regex_compile_error(pattern@) == Some(message@),
        },
{
    let compiled = if mode == MonitorMatchMode::Regex && !pattern.is_empty() {
        match CaseInsensitiveRegex::compile(pattern) {
            Ok(re) => Some(re),
            Err(m) => {
                return Err(MonitorError::InvalidRegex { pattern: String::from_str(pattern), message: m });
            },
        }
    } else {
        None
    };
    let mut out: Vec<MatchedMonitor> = Vec::new();
    let mut i: usize = 0;
    proof {
        assert(monitors@.subrange(0, 0) =~= Seq::<WmiMonitorId>::empty());
        assert(monitors_view(out@) =~= Seq::<MonitorFields>::empty());
    }
    while i < monitors.len()
        invariant
            i <= monitors.len(),
            mode == MonitorMatchMode::Regex && pattern@.len() > 0 ==> (compiled matches Some(re)
                && re.pattern_view() == pattern@),
            monitors_view(out@) == matched_list(monitors@.subrange(0, i as int), pattern@, mode),
        decreases monitors.len() - i,
    {
        let m = &monitors[i];
        proof {
            let t = monitors@.subrange(0, i + 1);
            assert(t.subrange(0, t.len() - 1) =~= monitors@.subrange(0, i as int));
            assert(t[t.len() - 1] == monitors@[i as int]);
        }
        let name = decode_friendly_name(&m.user_friendly_name);
        let selected = match &compiled {
            Some(re) => monitor_name_matches(name.as_str(), pattern, mode, Some(re)),
            None => monitor_name_matches(name.as_str(), pattern, mode, None),
        };
        if selected {
            let key = match &m.instance_name {
                Some(s) => device_key_of(s.as_str()),
                None => device_key_of(""),
            };
            proof {
                reveal_strlit("");
            }
            if !key.as_str().is_empty() {
                let mm = MatchedMonitor {
                    name,
                    device_key: key,
                    serial: decode_wmi_u16_text(&m.serial_number_id),
                    manufacturer_id: decode_wmi_u16_text(&m.manufacturer_name),
                    product_code: decode_wmi_u16_text(&m.product_code_id),
                };
                let ghost before = out@;
                out.push(mm);
                proof {
                    assert(monitors_view(out@) =~= monitors_view(before).push(mm@));
                }
            }
        }
        i = i + 1;
    }
    proof {
        assert(monitors@.subrange(0, monitors@.len() as int) =~= monitors@);
    }
    Ok(out)
}

/// Monitors whose friendly name contains `pattern`, ignoring case.
pub fn find_matching_monitors(monitors: &Vec<WmiMonitorId>, pattern: &str) -> (r: Result<
    Vec<MatchedMonitor>,
    MonitorError,
>)
    ensures
        r matches Ok(list) && monitors_view(list@) == matched_list(
            monitors@,
            pattern@,
            MonitorMatchMode::Substring,
        ),
{
    find_matching_monitors_with_mode(monitors, pattern, MonitorMatchMode::Substring)
}

/// Monitors whose friendly name matches `pattern` as a case-insensitive
/// regex; an error when the pattern does not compile.
pub fn find_matching_monitors_regex(monitors: &Vec<WmiMonitorId>, pattern: &str) -> (r: Result<
    Vec<MatchedMonitor>,
    MonitorError,
>)
    ensures
        match r {
            Ok(list) => !(pattern@.len() > 0 && regex_compile_error(pattern@) is Some)
                && monitors_view(list@) == matched_list(monitors@, pattern@, MonitorMatchMode::Regex),
            Err(MonitorError::InvalidRegex { pattern: p, message }) => pattern@.len() > 0 && p@
                == pattern@ && regex_compile_error(pattern@) == Some(message@),
        },
{
    find_matching_monitors_with_mode(monitors, pattern, MonitorMatchMode::Regex)
}

} // verus!

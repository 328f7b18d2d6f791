//! Decisions of the command-line and terminal front ends that do not touch
//! a device: argument parsing (hex bytes, VCP codes), colour preset names,
//! the DDC guardrail checks, the risky-write confirmation and rollback plan,
//! and the texts the front ends print for DDC readings.

use vstd::prelude::*;
use vstd::utf8::{decode_utf8, encode_utf8, valid_utf8};
use crate::text::{chars_of, eq_ignore_ascii_case, eq_ignore_ascii_case_spec, is_ws, is_whitespace, push_char, trim, trim_seq, ascii_lower};
use crate::numparse::{IntParseError, int_error_text, parse_u8_range, parse_u8_spec, hex_prefix_end, strip_hex_prefix};
use crate::text::trim_range;
use crate::fmt::{decimal_of, hex2_of, push_decimal, push_hex2};
use crate::state::{DdcGuardrails, DdcSafetyConfig, guard_min, guard_max, is_risky_vcp_write, codes_of};
use crate::text::split_seq;
use crate::monitor::MonitorMatchMode;
use crate::ddc::{
    VCP_BRIGHTNESS, VCP_FACTORY_RESET, VCP_RESET_BRIGHTNESS_CONTRAST, VCP_RESET_COLOR, VCP_INPUT_SOURCE,
    VCP_POWER_MODE,
};

verus! {

/// What `parse_hex_u8` returns: the text without one `0x`/`0X` prefix,
/// read as a hexadecimal byte.
pub open spec fn hex_u8_spec(s: Seq<char>) -> Result<u8, Seq<char>> {
    let t = strip_hex_prefix(s);
    match parse_u8_spec(t, 16) {
        Ok(v) => Ok(v),
        Err(e) => Err("Invalid hex byte '"@ + t + "': "@ + int_error_text(e)),
    }
}

/// Parses a hexadecimal byte, with or without a `0x`/`0X` prefix.
pub fn parse_hex_u8(s: &str) -> (r: Result<u8, String>)
    ensures
        match hex_u8_spec(s@) {
            Ok(v) => r == Ok::<u8, String>(v),
            Err(m) => r matches Err(e) && e@ == m,
        },
{
    let v = chars_of(s);
    let start = hex_prefix_end(&v, 0, v.len());
    proof {
        assert(v@.subrange(0, v@.len() as int) =~= s@);
    }
    match parse_u8_range(&v, start, v.len(), 16) {
        Ok(b) => Ok(b),
        Err(e) => {
            let mut msg = String::from_str("Invalid hex byte '");
            let mut i = start;
            while i < v.len()
                invariant
                    start <= i <= v.len(),
                    msg@ == "Invalid hex byte '"@ + v@.subrange(start as int, i as int),
                decreases v.len() - i,
            {
                push_char(&mut msg, v[i]);
                assert(v@.subrange(start as int, i + 1) =~= v@.subrange(start as int, i as int).push(v@[i as int]));
                i = i + 1;
            }
            msg.append("': ");
            let m = e.message();
            msg.append(m.as_str());
            Err(msg)
        },
    }
}

/// Whether a character is part of a hex payload (whitespace, `:` and `-`
/// separate bytes and are dropped).
pub open spec fn kept_in_payload(c: char) -> bool {
    !is_ws(c) && c != ':' && c != '-'
}

/// The payload with its separators dropped.
pub open spec fn hex_compact(s: Seq<char>) -> Seq<char>
    decreases s.len(),
{
    if s.len() == 0 {
        Seq::empty()
    } else {
        let p = hex_compact(s.drop_last());
        if kept_in_payload(s.last()) {
            p.push(s.last())
        } else {
            p
        }
    }
}

/// The error for a payload with an odd number of digits.
pub open spec fn odd_payload_message() -> Seq<char> {
    "hex payload must have an even number of digits"@
}

/// The text `std::str::Utf8Error` displays for the two bytes `b0`, `b1`
/// when they are not valid UTF-8.
pub uninterp spec fn utf8_error_text(b0: u8, b1: u8) -> Seq<char>;

/// Calls `std::str::from_utf8` on two bytes. As its documentation says, it
/// succeeds exactly when the bytes are valid UTF-8, and then gives the text
/// they encode; otherwise its error, whose display text is named
/// `utf8_error_text` (nothing more of that text is stated).
#[verifier::external_body]
fn str_from_utf8_pair(b0: u8, b1: u8) -> (r: Result<String, String>)
    ensures
        match r {
            Ok(s) => valid_utf8(seq![b0, b1]) && s@ == decode_utf8(seq![b0, b1]),
            Err(m) => !valid_utf8(seq![b0, b1]) && m@ == utf8_error_text(b0, b1),
        },
{
    match std::str::from_utf8(&[b0, b1]) {
        Ok(s) => Ok(s.to_string()),
        Err(e) => Err(e.to_string()),
    }
}

/// The error for a byte pair of a payload that is not valid UTF-8, given
/// the decoding error's text.
pub fn utf8_payload_error(text: &str) -> (r: String)
    ensures
        r@ == "invalid UTF-8 in hex payload: "@ + text@,
{
    let mut msg = String::from_str("invalid UTF-8 in hex payload: ");
    msg.append(text);
    msg
}

/// What one pair of payload bytes reads as: the text it encodes read as a
/// hexadecimal byte, or the error.
pub open spec fn hex_pair_spec(b0: u8, b1: u8) -> Result<u8, Seq<char>> {
    let p = seq![b0, b1];
    if !valid_utf8(p) {
        Err("invalid UTF-8 in hex payload: "@ + utf8_error_text(b0, b1))
    } else {
        let t = decode_utf8(p);
        match parse_u8_spec(t, 16) {
            Ok(b) => Ok(b),
            Err(e) => Err("invalid hex byte '"@ + t + "': "@ + int_error_text(e)),
        }
    }
}

/// The first `k` byte pairs of `b` read as hexadecimal bytes, or the error
/// of the first pair that is not one.
pub open spec fn hex_pairs(b: Seq<u8>, k: nat) -> Result<Seq<u8>, Seq<char>>
    decreases k,
{
    if k == 0 {
        Ok(Seq::empty())
    } else {
        match hex_pairs(b, (k - 1) as nat) {
            Err(e) => Err(e),
            Ok(bs) => match hex_pair_spec(b[2 * k - 2], b[2 * k - 1]) {
                Ok(x) => Ok(bs.push(x)),
                Err(e) => Err(e),
            },
        }
    }
}

/// What `parse_hex_bytes` returns for the payload `c` (separators already
/// dropped): nothing for an empty payload, an error for an odd number of
/// bytes, else its UTF-8 bytes read two at a time.
pub open spec fn hex_bytes_spec(c: Seq<char>) -> Result<Seq<u8>, Seq<char>> {
    let b = encode_utf8(c);
    if c.len() == 0 {
        Ok(Seq::empty())
    } else if b.len() % 2 == 1 {
        Err(odd_payload_message())
    } else {
        hex_pairs(b, b.len() / 2)
    }
}

/// Parses a hex payload such as `AA BB-CC:DD` into bytes. Whitespace, `:`
/// and `-` are dropped; the UTF-8 bytes of what is left are read two at a
/// time, each pair as the text it encodes.
pub fn parse_hex_bytes(input: &str) -> (r: Result<Vec<u8>, String>)
    ensures
        match hex_bytes_spec(hex_compact(input@)) {
            Ok(bs) => r matches Ok(v) && v@ == bs,
            Err(m) => r matches Err(e) && e@ == m,
        },
{
    let v = chars_of(input);
    let mut compact = String::new();
    let mut i: usize = 0;
    while i < v.len()
        invariant
            i <= v.len(),
            v@ == input@,
            compact@ == hex_compact(v@.subrange(0, i as int)),
        decreases v.len() - i,
    {
        let ch = v[i];
        proof {
            let t = v@.subrange(0, i + 1);
            assert(t.drop_last() =~= v@.subrange(0, i as int));
            assert(t.last() == ch);
        }
        if !is_whitespace(ch) && ch != ':' && ch != '-' {
            push_char(&mut compact, ch);
        }
        i = i + 1;
    }
    assert(v@.subrange(0, v@.len() as int) =~= input@);
    if compact.as_str().is_empty() {
        return Ok(Vec::new());
    }
    let bytes = compact.as_str().as_bytes();
    let n = bytes.len();
    assert(bytes@ == encode_utf8(compact@));
    if n % 2 == 1 {
        return Err(String::from_str("hex payload must have an even number of digits"));
    }
    let mut out: Vec<u8> = Vec::new();
    let mut k: usize = 0;
    while k < n / 2
        invariant
            n == bytes@.len(),
            n % 2 == 0,
            bytes@ == encode_utf8(hex_compact(input@)),
            compact@ == hex_compact(input@),
            compact@.len() > 0,
            k <= n / 2,
            hex_pairs(bytes@, k as nat) == Ok::<Seq<u8>, Seq<char>>(out@),
        decreases n / 2 - k,
    {
        let b0 = bytes[2 * k];
        let b1 = bytes[2 * k + 1];
        let pair = match str_from_utf8_pair(b0, b1) {
            Ok(t) => t,
            Err(text) => {
                proof {
                    lemma_hex_pairs_err_stable(bytes@, (k + 1) as nat, (n / 2) as nat);
                }
                return Err(utf8_payload_error(text.as_str()));
            },
        };
        let cs = chars_of(pair.as_str());
        proof {
            assert(cs@.subrange(0, cs@.len() as int) =~= cs@);
        }
        match parse_u8_range(&cs, 0, cs.len(), 16) {
            Ok(x) => {
                out.push(x);
            },
            Err(e) => {
                let mut msg = String::from_str("invalid hex byte '");
                msg.append(pair.as_str());
                msg.append("': ");
                let m = e.message();
                msg.append(m.as_str());
                proof {
                    lemma_hex_pairs_err_stable(bytes@, (k + 1) as nat, (n / 2) as nat);
                }
                return Err(msg);
            },
        }
        k = k + 1;
    }
    Ok(out)
}

proof fn lemma_hex_pairs_err_stable(c: Seq<u8>, k: nat, n: nat)
    requires
        k <= n,
        hex_pairs(c, k) is Err,
    ensures
        hex_pairs(c, n) == hex_pairs(c, k),
    decreases n - k,
{
    if k < n {
        lemma_hex_pairs_err_stable(c, k, (n - 1) as nat);
    }
}

/// The name of a VCP 0x14 colour preset value.
pub open spec fn preset_name(value: u32) -> Seq<char> {
    if value == 1 {
        "sRGB"@
    } else if value == 2 {
        "Native"@
    } else if value == 4 {
        "4000K"@
    } else if value == 5 {
        "5000K"@
    } else if value == 6 {
        "6500K"@
    } else if value == 8 {
        "7500K"@
    } else if value == 9 {
        "8200K"@
    } else if value == 10 {
        "9300K"@
    } else if value == 11 {
        "User 1"@
    } else if value == 12 {
        "User 2"@
    } else if value == 13 {
        "User 3"@
    } else {
        "Unknown"@
    }
}

/// Human-readable colour preset name of a VCP 0x14 value.
pub fn color_preset_name(value: u32) -> (r: &'static str)
    ensures
        r@ == preset_name(value),
{
    match value {
        1 => "sRGB",
        2 => "Native",
        4 => "4000K",
        5 => "5000K",
        6 => "6500K",
        8 => "7500K",
        9 => "8200K",
        10 => "9300K",
        11 => "User 1",
        12 => "User 2",
        13 => "User 3",
        _ => "Unknown",
    }
}

/// Regex matching is used when the command line or the configuration asks for it.
pub fn effective_regex(cli_regex: bool, config_regex: bool) -> (r: bool)
    ensures
        r == (cli_regex || config_regex),
{
    cli_regex || config_regex
}

/// The match mode for a regex switch.
pub fn monitor_match_mode(use_regex: bool) -> (r: MonitorMatchMode)
    ensures
        r == (if use_regex {
            MonitorMatchMode::Regex
        } else {
            MonitorMatchMode::Substring
        }),
{
    if use_regex {
        MonitorMatchMode::Regex
    } else {
        MonitorMatchMode::Substring
    }
}

fn push_range(out: &mut String, v: &Vec<char>, from: usize, to: usize)
    requires
        from <= to <= v.len(),
    ensures
        final(out)@ == old(out)@ + v@.subrange(from as int, to as int),
{
    let mut i = from;
    while i < to
        invariant
            from <= i <= to <= v.len(),
            out@ == old(out)@ + v@.subrange(from as int, i as int),
        decreases to - i,
    {
        push_char(out, v[i]);
        assert(old(out)@ + v@.subrange(from as int, i + 1) =~= old(out)@ + v@.subrange(from as int, i as int) + seq![v@[i as int]]);
        i = i + 1;
    }
}

/// An ASCII hexadecimal letter (`a`..=`f` or `A`..=`F`).
pub open spec fn is_hex_letter(c: char) -> bool {
    ('a' <= c <= 'f') || ('A' <= c <= 'F')
}

/// What `parse_vcp_code` returns: the trimmed text read as hexadecimal when
/// it has a `0x`/`0X` prefix or a hex letter, else as decimal and, failing
/// that, as hexadecimal.
pub open spec fn vcp_code_spec(text: Seq<char>) -> Result<u8, Seq<char>> {
    let t = trim_seq(text);
    if t.len() == 0 {
        Err("empty VCP code"@)
    } else if t.len() >= 2 && t[0] == '0' && (t[1] == 'x' || t[1] == 'X') {
        match parse_u8_spec(t.subrange(2, t.len() as int), 16) {
            Ok(v) => Ok(v),
            Err(e) => Err("invalid hex '"@ + t + "': "@ + int_error_text(e)),
        }
    } else if exists|i: int| 0 <= i < t.len() && is_hex_letter(#[trigger] t[i]) {
        match parse_u8_spec(t, 16) {
            Ok(v) => Ok(v),
            Err(e) => Err("invalid hex '"@ + t + "': "@ + int_error_text(e)),
        }
    } else {
        match parse_u8_spec(t, 10) {
            Ok(v) => Ok(v),
            Err(_) => match parse_u8_spec(t, 16) {
                Ok(v) => Ok(v),
                Err(e) => Err("invalid VCP code '"@ + t + "': "@ + int_error_text(e)),
            },
        }
    }
}

fn parse_error_message(head: &str, v: &Vec<char>, a: usize, b: usize, e: IntParseError) -> (r: String)
    requires
        a <= b <= v.len(),
    ensures
        r@ == head@ + v@.subrange(a as int, b as int) + "': "@ + int_error_text(e),
{
    let mut msg = String::from_str(head);
    push_range(&mut msg, v, a, b);
    msg.append("': ");
    let m = e.message();
    msg.append(m.as_str());
    msg
}

/// Parses a VCP code typed by the user: `DC`, `0xDC` or a decimal `220`.
pub fn parse_vcp_code(text: &str) -> (r: Result<u8, String>)
    ensures
        match vcp_code_spec(text@) {
            Ok(v) => r == Ok::<u8, String>(v),
            Err(m) => r matches Err(e) && e@ == m,
        },
{
    let v = chars_of(text);
    let (a, b) = trim_range(&v, 0, v.len());
    proof {
        assert(v@.subrange(0, v@.len() as int) =~= text@);
    }
    let ghost t = v@.subrange(a as int, b as int);
    if a == b {
        return Err(String::from_str("empty VCP code"));
    }
    if b - a >= 2 && v[a] == '0' && (v[a + 1] == 'x' || v[a + 1] == 'X') {
        assert(t[0] == v@[a as int] && t[1] == v@[a + 1]);
        assert(v@.subrange(a + 2, b as int) =~= t.subrange(2, t.len() as int));
        return match parse_u8_range(&v, a + 2, b, 16) {
            Ok(x) => Ok(x),
            Err(e) => Err(parse_error_message("invalid hex '", &v, a, b, e)),
        };
    }
    proof {
        if t.len() >= 2 {
            assert(t[0] == v@[a as int] && t[1] == v@[a + 1]);
        }
    }
    let mut letter = false;
    let mut i = a;
    while i < b
        invariant
            a <= i <= b <= v.len(),
            t == v@.subrange(a as int, b as int),
            letter <==> exists|j: int| 0 <= j < i - a && is_hex_letter(#[trigger] t[j]),
        decreases b - i,
    {
        let c = v[i];
        assert(t[i - a] == c);
        if ('a' <= c && c <= 'f') || ('A' <= c && c <= 'F') {
            letter = true;
        }
        i = i + 1;
    }
    if letter {
        return match parse_u8_range(&v, a, b, 16) {
            Ok(x) => Ok(x),
            Err(e) => Err(parse_error_message("invalid hex '", &v, a, b, e)),
        };
    }
    match parse_u8_range(&v, a, b, 10) {
        Ok(x) => Ok(x),
        Err(_) => match parse_u8_range(&v, a, b, 16) {
            Ok(x) => Ok(x),
            Err(e) => Err(parse_error_message("invalid VCP code '", &v, a, b, e)),
        },
    }
}

/// Why writing a VCP code is risky, for the codes that are.
pub open spec fn risky_reason_spec(vcp_code: u8) -> Option<Seq<char>> {
    if vcp_code == VCP_FACTORY_RESET {
        Some("factory reset affects most monitor settings"@)
    } else if vcp_code == VCP_RESET_BRIGHTNESS_CONTRAST {
        Some("reset restores brightness/contrast defaults"@)
    } else if vcp_code == VCP_RESET_COLOR {
        Some("reset restores color defaults"@)
    } else if vcp_code == VCP_POWER_MODE {
        Some("power mode can blank or power off the monitor"@)
    } else if vcp_code == VCP_INPUT_SOURCE {
        Some("input source switch can move away from this PC"@)
    } else {
        None
    }
}

/// Why writing `vcp_code` is risky, or `None` for an ordinary code.
pub fn ddc_risky_reason(vcp_code: u8) -> (r: Option<&'static str>)
    ensures
        match risky_reason_spec(vcp_code) {
            Some(m) => r matches Some(s) && s@ == m,
            None => r is None,
        },
{
    if vcp_code == VCP_FACTORY_RESET {
        Some("factory reset affects most monitor settings")
    } else if vcp_code == VCP_RESET_BRIGHTNESS_CONTRAST {
        Some("reset restores brightness/contrast defaults")
    } else if vcp_code == VCP_RESET_COLOR {
        Some("reset restores color defaults")
    } else if vcp_code == VCP_POWER_MODE {
        Some("power mode can blank or power off the monitor")
    } else if vcp_code == VCP_INPUT_SOURCE {
        Some("input source switch can move away from this PC")
    } else {
        None
    }
}

/// Whether the guardrails refuse writing `value` to `vcp_code`: only a
/// brightness outside the allowed window is refused, and only when enabled.
pub open spec fn guard_blocks(g: DdcGuardrails, vcp_code: u8, value: u32) -> bool {
    g.enabled && vcp_code == VCP_BRIGHTNESS && (value < guard_min(g) || value > guard_max(g))
}

/// The text of a blocked brightness write, after `head`.
pub open spec fn blocked_brightness_text(g: DdcGuardrails, value: u32) -> Seq<char> {
    "blocked brightness "@ + decimal_of(value as nat) + " (allowed "@ + decimal_of(guard_min(g) as nat) + ".."@
        + decimal_of(guard_max(g) as nat) + ")."@
}

fn blocked_brightness_message(head: &str, g: &DdcGuardrails, value: u32) -> (r: String)
    ensures
        r@ == head@ + blocked_brightness_text(*g, value),
{
    let s = g.sanitized();
    let mut msg = String::from_str(head);
    msg.append("blocked brightness ");
    push_decimal(&mut msg, value as u64);
    msg.append(" (allowed ");
    push_decimal(&mut msg, s.min_brightness as u64);
    msg.append("..");
    push_decimal(&mut msg, s.max_brightness as u64);
    msg.append(").");
    msg
}

/// Checks a DDC write against the guardrails before it is sent.
pub fn validate_guarded_ddc_write(guardrails: &DdcGuardrails, vcp_code: u8, value: u32) -> (r: Result<(), String>)
    ensures
        !guard_blocks(*guardrails, vcp_code, value) ==> r is Ok,
        guard_blocks(*guardrails, vcp_code, value) ==> (r matches Err(m) && m@ == "Guardrails "@
            + blocked_brightness_text(*guardrails, value)),
{
    let s = guardrails.sanitized();
    if guardrails.enabled && vcp_code == VCP_BRIGHTNESS {
        if value < s.min_brightness || value > s.max_brightness {
            return Err(blocked_brightness_message("Guardrails ", guardrails, value));
        }
    }
    Ok(())
}

/// Whether the `LG_DDC_ALLOW_RISKY` value (if set) lifts the risky-code block:
/// `1`, or `true` in any ASCII case.
pub open spec fn override_allowed_spec(value: Option<Seq<char>>) -> bool {
    match value {
        Some(v) => v == "1"@ || eq_ignore_ascii_case_spec(v, "true"@),
        None => false,
    }
}

/// Reads the override switch for risky VCP writes from its variable's value.
pub fn risky_override_allowed(value: Option<&str>) -> (r: bool)
    ensures
        r == override_allowed_spec(crate::paths::opt_str_view(value)),
{
    match value {
        Some(v) => crate::text::str_equals(v, "1") || eq_ignore_ascii_case(v, "true"),
        None => false,
    }
}

/// Why the command line refuses a DDC write, if it does: a brightness
/// outside the guardrail window, or a risky code while risky writes need
/// confirmation and no override is set.
pub open spec fn guardrail_error_spec(g: DdcGuardrails, vcp_code: u8, value: u32, allow_risky: bool) -> Option<Seq<char>> {
    if guard_blocks(g, vcp_code, value) {
        Some("DDC guardrails "@ + blocked_brightness_text(g, value))
    } else if g.confirm_risky_writes && risky_reason_spec(vcp_code) is Some && !allow_risky {
        Some("DDC guardrails blocked risky VCP 0x"@ + hex2_of(vcp_code) + ". Set LG_DDC_ALLOW_RISKY=1 to override."@)
    } else {
        None
    }
}

/// The command line's guardrail check of a DDC write.
pub fn ddc_guardrail_error(vcp_code: u8, value: u32, guardrails: &DdcGuardrails, allow_risky: bool) -> (r: Option<String>)
    ensures
        match guardrail_error_spec(*guardrails, vcp_code, value, allow_risky) {
            Some(m) => r matches Some(e) && e@ == m,
            None => r is None,
        },
{
    let s = guardrails.sanitized();
    if guardrails.enabled && vcp_code == VCP_BRIGHTNESS {
        if value < s.min_brightness || value > s.max_brightness {
            return Some(blocked_brightness_message("DDC guardrails ", guardrails, value));
        }
    }
    if guardrails.confirm_risky_writes && ddc_risky_reason(vcp_code).is_some() && !allow_risky {
        let mut msg = String::from_str("DDC guardrails blocked risky VCP 0x");
        push_hex2(&mut msg, vcp_code);
        msg.append(". Set LG_DDC_ALLOW_RISKY=1 to override.");
        return Some(msg);
    }
    None
}

/// Whether a typed answer confirms a risky write: `YES` or `yes`, ignoring
/// surrounding whitespace.
pub fn is_confirmation(answer: &str) -> (r: bool)
    ensures
        r == (trim_seq(answer@) == "YES"@ || trim_seq(answer@) == "yes"@),
{
    let t = trim(answer);
    crate::text::str_equals(t.as_str(), "YES") || crate::text::str_equals(t.as_str(), "yes")
}

/// The label of the DDC target: a chosen monitor by index and name, or the
/// configured match pattern.
pub open spec fn target_label_spec(target: Option<(usize, Seq<char>)>, config_match: Seq<char>) -> Seq<char> {
    match target {
        Some((idx, name)) => "#"@ + decimal_of(idx as nat) + " ("@ + name + ")"@,
        None => "config default ("@ + config_match + ")"@,
    }
}

/// Human-readable label of the current DDC target.
pub fn ddc_target_label(target: &Option<(usize, String)>, config_match: &str) -> (r: String)
    ensures
        r@ == target_label_spec(
            match target {
                Some((i, n)) => Some((*i, n@)),
                None => None,
            },
            config_match@,
        ),
{
    match target {
        Some((idx, name)) => {
            let mut s = String::from_str("#");
            push_decimal(&mut s, *idx as u64);
            s.append(" (");
            s.append(name.as_str());
            s.append(")");
            s
        },
        None => {
            let mut s = String::from_str("config default (");
            s.append(config_match);
            s.append(")");
            s
        },
    }
}

/// The major and minor MCCS version packed in a VCP 0xDF reading.
pub fn vcp_version_parts(current: u32) -> (r: (u32, u32))
    ensures
        r.0 == (current >> 8u32) & 0xFFu32,
        r.1 == current & 0xFFu32,
        r.0 == (current / 256) % 256,
        r.1 == current % 256,
{
    let major = (current >> 8u32) & 0xFFu32;
    let minor = current & 0xFFu32;
    assert(((current >> 8u32) & 0xFFu32) == (current / 256) % 256) by (bit_vector);
    assert((current & 0xFFu32) == current % 256) by (bit_vector);
    (major, minor)
}

/// What follows the keep prompt after a risky DDC write.
#[derive(Debug, Clone, Copy, PartialEq, Eq, Structural)]
pub enum KeepOutcome {
    /// The keep key was not pressed: the previous value is written back.
    RollBack(u32),
    /// The keep key was pressed: the write stays.
    Kept,
    /// The keep key was not pressed, but no previous value was read.
    Nothing,
}

/// Decides what follows the keep prompt, given whether the keep key was
/// pressed and the value read before the write.
pub fn keep_outcome(keep: bool, previous: Option<u32>) -> (r: KeepOutcome)
    ensures
        keep ==> r == KeepOutcome::Kept,
        !keep ==> r == match previous {
            Some(p) => KeepOutcome::RollBack(p),
            None => KeepOutcome::Nothing,
        },
{
    if keep {
        KeepOutcome::Kept
    } else {
        match previous {
            Some(p) => KeepOutcome::RollBack(p),
            None => KeepOutcome::Nothing,
        }
    }
}

/// A reading as a whole percentage of its maximum (0 when the maximum is 0).
pub fn brightness_percent(current: u32, max: u32) -> (r: u32)
    requires
        max > 0 ==> current * 100 <= u32::MAX,
    ensures
        r == (if max > 0 {
            (current * 100) / (max as int)
        } else {
            0
        }),
{
    if max > 0 {
        current * 100 / max
    } else {
        0
    }
}

/// The details of an apply-latency event: `ms=<n> success=<1|0> <details>`.
pub open spec fn latency_details_spec(ms: u64, success: bool, details: Seq<char>) -> Seq<char> {
    "ms="@ + decimal_of(ms as nat) + " success="@ + (if success {
        "1"@
    } else {
        "0"@
    }) + " "@ + trim_seq(details)
}

/// Formats the details of an apply-latency event.
pub fn latency_details(ms: u64, success: bool, details: &str) -> (r: String)
    ensures
        r@ == latency_details_spec(ms, success, details@),
{
    let mut s = String::from_str("ms=");
    push_decimal(&mut s, ms);
    s.append(" success=");
    s.append(if success {
        "1"
    } else {
        "0"
    });
    s.append(" ");
    let t = trim(details);
    s.append(t.as_str());
    s
}

/// The key that keeps a risky write: the first character of the configured
/// key, ASCII-lowercased, or `k` when none is configured.
pub open spec fn keep_key_spec(keep_key: Seq<char>) -> char {
    let t = trim_seq(keep_key);
    if t.len() > 0 {
        ascii_lower(t[0])
    } else {
        'k'
    }
}

/// The key that keeps a risky write.
pub fn keep_key_char(keep_key: &str) -> (r: char)
    ensures
        r == keep_key_spec(keep_key@),
{
    let t = trim(keep_key);
    if t.unicode_len() > 0 {
        crate::text::to_ascii_lower(t.get_char(0))
    } else {
        'k'
    }
}

/// The key shown to the user for keeping a risky write: the configured key
/// trimmed, or `K` when none is configured.
pub fn keep_key_label(keep_key: &str) -> (r: String)
    ensures
        r@ == (if trim_seq(keep_key@).len() > 0 {
            trim_seq(keep_key@)
        } else {
            "K"@
        }),
{
    let t = trim(keep_key);
    if t.unicode_len() > 0 {
        t
    } else {
        String::from_str("K")
    }
}

/// Whether a pressed key is the keep key (ignoring ASCII case).
pub fn is_keep_press(expected: char, pressed: char) -> (r: bool)
    ensures
        r == (ascii_lower(pressed) == expected),
{
    crate::text::to_ascii_lower(pressed) == expected
}

/// How a DDC write is carried out under the safety settings.
#[derive(Debug, Clone, Copy, PartialEq, Eq, Structural)]
pub struct WritePlan {
    /// The code is in the configured risky list.
    pub risky: bool,
    /// The current value is read first so that the write can be rolled back.
    pub capture_previous: bool,
}

/// Plans a DDC write of `vcp_code` under the safety settings.
pub fn plan_ddc_write(safety: &DdcSafetyConfig, vcp_code: u8) -> (r: WritePlan)
    ensures
        r.risky == codes_of(split_seq(safety.risky_vcp_codes@, ',')).contains(vcp_code),
        r.capture_previous == (r.risky && safety.rollback_timer_enabled),
{
    let risky = is_risky_vcp_write(vcp_code, safety);
    WritePlan { risky, capture_previous: risky && safety.rollback_timer_enabled }
}

/// Whether the user must confirm the write before it is sent.
pub fn needs_confirmation(plan: WritePlan, safety: &DdcSafetyConfig, interactive: bool) -> (r: bool)
    ensures
        r == (plan.risky && safety.require_confirm_before_risky && interactive),
{
    plan.risky && safety.require_confirm_before_risky && interactive
}

/// Whether, once the write is sent, the user is asked to keep it (and the
/// previous value is restored unless they do).
pub fn needs_keep_prompt(plan: WritePlan, previous: Option<u32>, interactive: bool) -> (r: bool)
    ensures
        r == (plan.capture_previous && interactive && previous is Some),
{
    plan.capture_previous && interactive && previous.is_some()
}

/// The diagnostics note of a rolled back write.
pub fn rollback_note(vcp_code: u8, value: u32, previous: u32) -> (r: String)
    ensures
        r@ == "rolled back 0x"@ + hex2_of(vcp_code) + " from "@ + decimal_of(value as nat) + " to "@ + decimal_of(
            previous as nat,
        ),
{
    let mut s = String::from_str("rolled back 0x");
    push_hex2(&mut s, vcp_code);
    s.append(" from ");
    push_decimal(&mut s, value as u64);
    s.append(" to ");
    push_decimal(&mut s, previous as u64);
    s
}

/// The diagnostics note of a risky write the user kept.
pub fn keep_note(vcp_code: u8, value: u32) -> (r: String)
    ensures
        r@ == "kept risky write 0x"@ + hex2_of(vcp_code) + "="@ + decimal_of(value as nat),
{
    let mut s = String::from_str("kept risky write 0x");
    push_hex2(&mut s, vcp_code);
    s.append("=");
    push_decimal(&mut s, value as u64);
    s
}

/// The guardrails after one choice of the guardrail menu: toggle enabled,
/// set the minimum or maximum (capped at 100, when a value was entered),
/// toggle risky-write confirmation, or reset; the result is sanitized.
pub open spec fn guardrail_choice_spec(g: DdcGuardrails, choice: usize, entered: Option<u32>) -> DdcGuardrails {
    let changed = if choice == 0 {
        DdcGuardrails { enabled: !g.enabled, ..g }
    } else if choice == 1 {
        match entered {
            Some(m) => DdcGuardrails { min_brightness: if m <= 100 { m } else { 100 }, ..g },
            None => g,
        }
    } else if choice == 2 {
        match entered {
            Some(m) => DdcGuardrails { max_brightness: if m <= 100 { m } else { 100 }, ..g },
            None => g,
        }
    } else if choice == 3 {
        DdcGuardrails { confirm_risky_writes: !g.confirm_risky_writes, ..g }
    } else if choice == 4 {
        DdcGuardrails { enabled: false, min_brightness: 15, max_brightness: 90, confirm_risky_writes: true }
    } else {
        g
    };
    DdcGuardrails { min_brightness: guard_min(changed), max_brightness: guard_max(changed), ..changed }
}

/// Applies one choice of the guardrail menu.
pub fn apply_guardrail_choice(g: DdcGuardrails, choice: usize, entered: Option<u32>) -> (r: DdcGuardrails)
    ensures
        r == guardrail_choice_spec(g, choice, entered),
{
    let mut n = g;
    if choice == 0 {
        n.enabled = !n.enabled;
    } else if choice == 1 {
        if let Some(m) = entered {
            n.min_brightness = if m <= 100 { m } else { 100 };
        }
    } else if choice == 2 {
        if let Some(m) = entered {
            n.max_brightness = if m <= 100 { m } else { 100 };
        }
    } else if choice == 3 {
        n.confirm_risky_writes = !n.confirm_risky_writes;
    } else if choice == 4 {
        n = DdcGuardrails::default();
    }
    n.sanitized()
}

/// Writing a byte as two uppercase hex digits (`{:02X}`) and reading it back
/// gives the byte again, both as a plain hex byte and as the `0x..` VCP code
/// the terminal prompts show.
pub proof fn law_hex_byte_roundtrip(b: u8)
    ensures
        hex_u8_spec(hex2_of(b)) == Ok::<u8, Seq<char>>(b),
        vcp_code_spec("0x"@ + hex2_of(b)) == Ok::<u8, Seq<char>>(b),
{
    crate::numparse::lemma_hex2_parses(b);
    let h = hex2_of(b);
    reveal_strlit("0x");
    let t = "0x"@ + h;
    assert(t.len() == 4 && t[0] == '0' && t[1] == 'x' && t[2] == h[0] && t[3] == h[1]);
    assert(crate::text::trim_start_seq(t) == t);
    assert(crate::text::trim_end_seq(t) == t);
    assert(t.subrange(2, 4) =~= h);
}

/// The command line and the terminal menu apply the same brightness window:
/// whatever the terminal check refuses, the command line refuses with the
/// same explanation, and whatever the command line lets through, the
/// terminal check lets through too.
pub proof fn law_guardrail_checks_agree(g: DdcGuardrails, vcp_code: u8, value: u32, allow_risky: bool)
    ensures
        guard_blocks(g, vcp_code, value) ==> guardrail_error_spec(g, vcp_code, value, allow_risky) == Some(
            "DDC guardrails "@ + blocked_brightness_text(g, value),
        ),
        guardrail_error_spec(g, vcp_code, value, allow_risky) is None ==> !guard_blocks(g, vcp_code, value),
        !guard_blocks(g, vcp_code, value) && (risky_reason_spec(vcp_code) is None || !g.confirm_risky_writes
            || allow_risky) ==> guardrail_error_spec(g, vcp_code, value, allow_risky) is None,
{
}

/// What the command line does with a DDC write it was asked for.
#[derive(Debug, Clone)]
pub enum CliWrite {
    /// The write is refused, with the reason shown to the user.
    Refused(String),
    /// Dry run: the write is only described.
    DryRun,
    /// The write is sent (through the risky-write safety net).
    Send,
}

/// The decision on a DDC write asked for on the command line: a brightness
/// given as a percentage must be at most 100, then the guardrails apply,
/// then a dry run only describes the write.
pub open spec fn cli_write_spec(
    vcp_code: u8,
    value: u32,
    percent: bool,
    g: DdcGuardrails,
    allow_risky: bool,
    dry_run: bool,
) -> Result<bool, Seq<char>> {
    if percent && value > 100 {
        Err("Brightness value must be 0\u{2013}100"@)
    } else {
        match guardrail_error_spec(g, vcp_code, value, allow_risky) {
            Some(m) => Err(m),
            None => Ok(dry_run),
        }
    }
}

/// Decides a DDC write asked for on the command line (`percent` for the
/// brightness command, whose value is a percentage).
pub fn cli_write_decision(
    vcp_code: u8,
    value: u32,
    percent: bool,
    guardrails: &DdcGuardrails,
    allow_risky: bool,
    dry_run: bool,
) -> (r: CliWrite)
    ensures
        match cli_write_spec(vcp_code, value, percent, *guardrails, allow_risky, dry_run) {
            Err(m) => r matches CliWrite::Refused(e) && e@ == m,
            Ok(true) => r is DryRun,
            Ok(false) => r is Send,
        },
{
    if percent && value > 100 {
        return CliWrite::Refused(String::from_str("Brightness value must be 0\u{2013}100"));
    }
    match ddc_guardrail_error(vcp_code, value, guardrails, allow_risky) {
        Some(m) => CliWrite::Refused(m),
        None => if dry_run {
            CliWrite::DryRun
        } else {
            CliWrite::Send
        },
    }
}

/// The VCP codes a write to which can reset or disconnect the monitor:
/// factory reset (0x04), reset brightness and contrast (0x06), reset colour
/// (0x0A), input source (0x60) and power mode (0xD6).
pub open spec fn is_disruptive_code(code: u8) -> bool {
    code == 0x04u8 || code == 0x06u8 || code == 0x0Au8 || code == 0x60u8 || code == 0xD6u8
}

/// The risky codes are exactly the disruptive ones, and with risky-write
/// confirmation on and no override, a write of any of them is refused with
/// the risky-code message (no brightness window applies to them); with
/// confirmation off or an override given, it passes the check. The known
/// VCP table marks exactly these codes as risky.
pub proof fn law_risky_codes(code: u8, g: DdcGuardrails, value: u32, allow_risky: bool)
    ensures
        risky_reason_spec(code) is Some <==> is_disruptive_code(code),
        is_disruptive_code(code) && g.confirm_risky_writes && !allow_risky ==> guardrail_error_spec(
            g,
            code,
            value,
            allow_risky,
        ) == Some("DDC guardrails blocked risky VCP 0x"@ + hex2_of(code) + ". Set LG_DDC_ALLOW_RISKY=1 to override."@),
        is_disruptive_code(code) && (!g.confirm_risky_writes || allow_risky) ==> guardrail_error_spec(
            g,
            code,
            value,
            allow_risky,
        ) is None,
        !is_disruptive_code(code) && code != 0x10u8 ==> guardrail_error_spec(g, code, value, allow_risky) is None,
        forall|i: int|
            0 <= i < crate::ddc::KNOWN_VCP_COUNT ==> (#[trigger] crate::ddc::known_vcp_entry(i)).2
                == is_disruptive_code(crate::ddc::known_vcp_entry(i).0),
{
}

/// `s` with its spaces left out.
pub open spec fn without_spaces(s: Seq<char>) -> Seq<char>
    decreases s.len(),
{
    if s.len() == 0 {
        s
    } else {
        let rest = without_spaces(s.drop_last());
        if s.last() == ' ' {
            rest
        } else {
            rest.push(s.last())
        }
    }
}

/// The preset names agree with the terminal's colour-preset menu: for
/// every value that menu offers, the name is the menu's label (up to
/// spaces, as `6500K` and `6500 K`); every other value is `Unknown`.
pub proof fn law_preset_names_match_menu(value: u32)
    ensures
        forall|j: int|
            0 <= j < crate::tui::color_preset_table().len() ==> without_spaces(
                preset_name(#[trigger] crate::tui::color_preset_table()[j].2),
            ) == without_spaces(crate::tui::color_preset_table()[j].1),
        (forall|j: int|
            0 <= j < crate::tui::color_preset_table().len() ==> #[trigger] crate::tui::color_preset_table()[j].2
                != value) ==> preset_name(value) == "Unknown"@,
{
    let t = crate::tui::color_preset_table();
    reveal_strlit("sRGB");
    reveal_strlit("Native");
    reveal_strlit("4000K");
    reveal_strlit("5000K");
    reveal_strlit("6500K");
    reveal_strlit("7500K");
    reveal_strlit("8200K");
    reveal_strlit("9300K");
    reveal_strlit("User 1");
    reveal_strlit("User 2");
    reveal_strlit("User 3");
    reveal_strlit("4000 K");
    reveal_strlit("5000 K");
    reveal_strlit("6500 K");
    reveal_strlit("7500 K");
    reveal_strlit("8200 K");
    reveal_strlit("9300 K");
    assert forall|j: int| 0 <= j < t.len() implies without_spaces(preset_name(#[trigger] t[j].2)) == without_spaces(
        t[j].1,
    ) by {
        reveal_with_fuel(without_spaces, 7);
    }
    if forall|j: int| 0 <= j < t.len() ==> #[trigger] t[j].2 != value {
        assert(t[0].2 != value && t[1].2 != value && t[2].2 != value && t[3].2 != value && t[4].2 != value);
        assert(t[5].2 != value && t[6].2 != value && t[7].2 != value && t[8].2 != value && t[9].2 != value);
        assert(t[10].2 != value);
    }
}

/// The guardrail menu's toggles flip their setting: choosing "Toggle
/// Guardrails Enabled" turns guardrails off when on and on when off, and
/// choosing it twice gives the setting back; the same for "Toggle Confirm
/// Risky Writes". Neither toggle touches the other setting.
pub proof fn law_guardrail_toggles(g: DdcGuardrails, e: Option<u32>, e2: Option<u32>)
    ensures
        guardrail_choice_spec(g, 0, e).enabled == !g.enabled,
        guardrail_choice_spec(g, 0, e).confirm_risky_writes == g.confirm_risky_writes,
        guardrail_choice_spec(guardrail_choice_spec(g, 0, e), 0, e2).enabled == g.enabled,
        guardrail_choice_spec(g, 3, e).confirm_risky_writes == !g.confirm_risky_writes,
        guardrail_choice_spec(g, 3, e).enabled == g.enabled,
        guardrail_choice_spec(guardrail_choice_spec(g, 3, e), 3, e2).confirm_risky_writes == g.confirm_risky_writes,
{
}

/// The guardrail menu's other choices: setting a limit to `m` makes it
/// `m` capped at 100 (the other limit kept, the upper never below the
/// lower), leaves both toggles alone, and entering nothing changes no
/// limit; "Reset to Defaults" gives the defaults (off, window 15..90,
/// risky-write confirmation on) whatever was set before.
pub proof fn law_guardrail_limits(g: DdcGuardrails, m: u32, e: Option<u32>)
    requires
        g.min_brightness <= g.max_brightness <= 100,
    ensures
        guardrail_choice_spec(g, 1, Some(m)).min_brightness == (if m <= 100 { m } else { 100 }),
        (if m <= 100 { m } else { 100 }) <= g.max_brightness ==> guardrail_choice_spec(g, 1, Some(m)).max_brightness
            == g.max_brightness,
        guardrail_choice_spec(g, 2, Some(m)).min_brightness == g.min_brightness,
        g.min_brightness <= m ==> guardrail_choice_spec(g, 2, Some(m)).max_brightness == (if m <= 100 {
            m
        } else {
            100
        }),
        guardrail_choice_spec(g, 1, None) == g,
        guardrail_choice_spec(g, 2, None) == g,
        guardrail_choice_spec(g, 1, Some(m)).enabled == g.enabled,
        guardrail_choice_spec(g, 2, Some(m)).confirm_risky_writes == g.confirm_risky_writes,
        guardrail_choice_spec(g, 4, e) == (DdcGuardrails {
            enabled: false,
            min_brightness: 15,
            max_brightness: 90,
            confirm_risky_writes: true,
        }),
        forall|c: usize| #![trigger guardrail_choice_spec(g, c, e)] c > 4 ==> guardrail_choice_spec(g, c, e) == g,
{
}

} // verus!

//! DDC/CI model: the MCCS VCP codes the tool knows, the records a monitor
//! read gives back, and the decisions taken on them (which physical monitor
//! a pattern selects, what name a monitor is shown under, how per-display
//! results add up).

use vstd::prelude::*;
use crate::monitor::{decode_units, decoded_units};
use crate::paths::opt_str_view;
use crate::text::{
    eq_ignore_ascii_case, eq_ignore_ascii_case_spec, is_substring, join_seqs, join_strings,
    strings_view, to_uppercase, trim, trim_seq, upper_text, contains_str,
};

verus! {

/// VCP code for Luminance (brightness), range 0..=100.
pub const VCP_BRIGHTNESS: u8 = 0x10;

/// VCP code for Contrast, range 0..=100.
pub const VCP_CONTRAST: u8 = 0x12;

/// VCP code for Select Color Preset.
pub const VCP_COLOR_PRESET: u8 = 0x14;

/// VCP code for Video Gain (Drive), red.
pub const VCP_RED_GAIN: u8 = 0x16;

/// VCP code for Video Gain (Drive), green.
pub const VCP_GREEN_GAIN: u8 = 0x18;

/// VCP code for Video Gain (Drive), blue.
pub const VCP_BLUE_GAIN: u8 = 0x1A;

/// VCP code for Input Source Select.
pub const VCP_INPUT_SOURCE: u8 = 0x60;

/// VCP code for Speaker Volume.
pub const VCP_VOLUME: u8 = 0x62;

/// VCP code for Display Mode (picture preset, monitor specific).
pub const VCP_DISPLAY_MODE: u8 = 0xDC;

/// VCP code for Power Mode.
pub const VCP_POWER_MODE: u8 = 0xD6;

/// VCP code for the VCP version (read only).
pub const VCP_VERSION: u8 = 0xDF;

/// VCP code: restore factory defaults.
pub const VCP_FACTORY_RESET: u8 = 0x04;

/// VCP code: restore factory luminance and contrast.
pub const VCP_RESET_BRIGHTNESS_CONTRAST: u8 = 0x06;

/// VCP code: restore factory colour defaults.
pub const VCP_RESET_COLOR: u8 = 0x0A;

/// The number of entries in the known-code table.
pub const KNOWN_VCP_COUNT: usize = 14;

/// Entry `i` of the known-code table: code, label and whether writing it is risky.
pub open spec fn known_vcp_entry(i: int) -> (u8, Seq<char>, bool) {
    if i == 0 {
        (VCP_BRIGHTNESS, "Brightness"@, false)
    } else if i == 1 {
        (VCP_CONTRAST, "Contrast"@, false)
    } else if i == 2 {
        (VCP_COLOR_PRESET, "Color Preset"@, false)
    } else if i == 3 {
        (VCP_RED_GAIN, "Red Gain"@, false)
    } else if i == 4 {
        (VCP_GREEN_GAIN, "Green Gain"@, false)
    } else if i == 5 {
        (VCP_BLUE_GAIN, "Blue Gain"@, false)
    } else if i == 6 {
        (VCP_INPUT_SOURCE, "Input Source"@, true)
    } else if i == 7 {
        (VCP_VOLUME, "Volume"@, false)
    } else if i == 8 {
        (VCP_POWER_MODE, "Power Mode"@, true)
    } else if i == 9 {
        (VCP_DISPLAY_MODE, "Display Mode"@, false)
    } else if i == 10 {
        (VCP_VERSION, "VCP Version"@, false)
    } else if i == 11 {
        (VCP_FACTORY_RESET, "Factory Reset"@, true)
    } else if i == 12 {
        (VCP_RESET_BRIGHTNESS_CONTRAST, "Reset Brightness/Contrast"@, true)
    } else {
        (VCP_RESET_COLOR, "Reset Color"@, true)
    }
}

/// A table entry taken by its view: the label as characters.
pub open spec fn entry_view(e: (u8, &'static str, bool)) -> (u8, Seq<char>, bool) {
    (e.0, e.1@, e.2)
}

/// The known VCP codes, each with its label and whether a write to it is risky.
pub fn known_vcp_codes() -> (r: &'static [(u8, &'static str, bool)])
    ensures
        r@.len() == KNOWN_VCP_COUNT,
        forall|i: int| 0 <= i < KNOWN_VCP_COUNT ==> entry_view(#[trigger] r@[i]) == known_vcp_entry(i),
{
    let table: &'static [(u8, &'static str, bool)] = &[
        (VCP_BRIGHTNESS, "Brightness", false),
        (VCP_CONTRAST, "Contrast", false),
        (VCP_COLOR_PRESET, "Color Preset", false),
        (VCP_RED_GAIN, "Red Gain", false),
        (VCP_GREEN_GAIN, "Green Gain", false),
        (VCP_BLUE_GAIN, "Blue Gain", false),
        (VCP_INPUT_SOURCE, "Input Source", true),
        (VCP_VOLUME, "Volume", false),
        (VCP_POWER_MODE, "Power Mode", true),
        (VCP_DISPLAY_MODE, "Display Mode", false),
        (VCP_VERSION, "VCP Version", false),
        (VCP_FACTORY_RESET, "Factory Reset", true),
        (VCP_RESET_BRIGHTNESS_CONTRAST, "Reset Brightness/Contrast", true),
        (VCP_RESET_COLOR, "Reset Color", true),
    ];
    table
}

/// Decodes a physical monitor's description: NUL-terminated UTF-16 units,
/// one character per unit.
pub fn decode_description(raw: &[u16; 128]) -> (r: String)
    ensures
        r@ == decoded_units(raw@),
{
    decode_units(raw.as_slice())
}

/// A brightness reading of one physical monitor.
#[derive(Debug, Clone)]
pub struct BrightnessInfo {
    /// Current brightness value (0..=max).
    pub current: u32,
    /// Maximum brightness value the monitor reports.
    pub max: u32,
    /// The monitor's display name.
    pub description: String,
}

/// A reading of one VCP feature.
#[derive(Debug, Clone, Copy, PartialEq, Eq, Structural)]
pub struct VcpValue {
    /// The VCP code that was read.
    pub code: u8,
    /// Current value.
    pub current: u32,
    /// Maximum value (continuous controls) or 0.
    pub max: u32,
    /// VCP type: 0 = set parameter (continuous), 1 = momentary.
    pub vcp_type: u32,
}

/// Whether one VCP code is supported on a monitor, and what it read.
#[derive(Debug, Clone, Copy)]
pub struct VcpCapability {
    pub code: u8,
    pub label: &'static str,
    pub risky: bool,
    pub supported: bool,
    pub current: Option<u32>,
    pub max: Option<u32>,
    pub vcp_type: Option<u32>,
}

/// The capabilities of one physical monitor.
#[derive(Debug, Clone)]
pub struct MonitorCapabilityMap {
    pub index: usize,
    pub name: String,
    pub capabilities: Vec<VcpCapability>,
}

/// `cap` is the capability record of table entry `i` given the reading of
/// that code (`None` where the monitor refused the read).
pub open spec fn capability_matches(cap: VcpCapability, i: int, reading: Option<VcpValue>) -> bool {
    &&& (cap.code, cap.label@, cap.risky) == known_vcp_entry(i)
    &&& match reading {
        Some(v) => cap.supported && cap.current == Some(v.current) && cap.max == Some(v.max)
            && cap.vcp_type == Some(v.vcp_type),
        None => !cap.supported && cap.current is None && cap.max is None && cap.vcp_type is None,
    }
}

/// The capability map of monitor `index`, from the readings of the known
/// codes taken in table order.
pub fn build_capability_map(index: usize, name: String, readings: &Vec<Option<VcpValue>>) -> (r: MonitorCapabilityMap)
    requires
        readings.len() == KNOWN_VCP_COUNT,
    ensures
        r.index == index,
        r.name@ == name@,
        r.capabilities@.len() == KNOWN_VCP_COUNT,
        forall|i: int| 0 <= i < KNOWN_VCP_COUNT ==> capability_matches(#[trigger] r.capabilities@[i], i, readings@[i]),
{
    let table = known_vcp_codes();
    let mut capabilities: Vec<VcpCapability> = Vec::new();
    let mut i: usize = 0;
    while i < table.len()
        invariant
            table@.len() == KNOWN_VCP_COUNT,
            forall|j: int| 0 <= j < KNOWN_VCP_COUNT ==> entry_view(#[trigger] table@[j]) == known_vcp_entry(j),
            readings.len() == KNOWN_VCP_COUNT,
            i <= table@.len(),
            capabilities@.len() == i,
            forall|j: int| 0 <= j < i ==> capability_matches(#[trigger] capabilities@[j], j, readings@[j]),
        decreases table.len() - i,
    {
        let (code, label, risky) = table[i];
        assert(entry_view(table@[i as int]) == known_vcp_entry(i as int));
        let cap = match readings[i] {
            Some(v) => VcpCapability {
                code,
                label,
                risky,
                supported: true,
                current: Some(v.current),
                max: Some(v.max),
                vcp_type: Some(v.vcp_type),
            },
            None => VcpCapability {
                code,
                label,
                risky,
                supported: false,
                current: None,
                max: None,
                vcp_type: None,
            },
        };
        capabilities.push(cap);
        i = i + 1;
    }
    MonitorCapabilityMap { index, name, capabilities }
}

/// The sum of the counts the displays reported; failed displays count nothing.
pub open spec fn ok_total(outcomes: Seq<Result<usize, String>>) -> nat
    decreases outcomes.len(),
{
    if outcomes.len() == 0 {
        0
    } else {
        ok_total(outcomes.drop_last()) + match outcomes.last() {
            Ok(n) => n as nat,
            Err(_) => 0,
        }
    }
}

/// How many physical monitors took a brightness write, from the outcome of
/// the write on each display (the monitors set on it, or why it failed).
pub fn set_brightness_all(outcomes: &Vec<Result<usize, String>>) -> (r: usize)
    requires
        ok_total(outcomes@) <= usize::MAX,
    ensures
        r == ok_total(outcomes@),
{
    let mut count: usize = 0;
    let mut i: usize = 0;
    while i < outcomes.len()
        invariant
            i <= outcomes.len(),
            ok_total(outcomes@) <= usize::MAX,
            count == ok_total(outcomes@.subrange(0, i as int)),
        decreases outcomes.len() - i,
    {
        proof {
            lemma_ok_total_prefix(outcomes@, i as int + 1);
            assert(outcomes@.subrange(0, i + 1).drop_last() =~= outcomes@.subrange(0, i as int));
        }
        match &outcomes[i] {
            Ok(n) => {
                count = count + *n;
            },
            Err(_) => {},
        }
        i = i + 1;
    }
    assert(outcomes@.subrange(0, outcomes@.len() as int) =~= outcomes@);
    count
}

proof fn lemma_ok_total_prefix(s: Seq<Result<usize, String>>, k: int)
    requires
        0 <= k <= s.len(),
    ensures
        ok_total(s.subrange(0, k)) <= ok_total(s),
    decreases s.len() - k,
{
    if k < s.len() {
        lemma_ok_total_prefix(s, k + 1);
        assert(s.subrange(0, k + 1).drop_last() =~= s.subrange(0, k));
    } else {
        assert(s.subrange(0, k) =~= s);
    }
}

/// The readings of every display that answered, in display order; displays
/// whose read failed contribute nothing.
pub open spec fn readings_of(per_display: Seq<Result<Vec<BrightnessInfo>, String>>) -> Seq<BrightnessInfo>
    decreases per_display.len(),
{
    if per_display.len() == 0 {
        Seq::empty()
    } else {
        readings_of(per_display.drop_last()) + match per_display.last() {
            Ok(v) => v@,
            Err(_) => Seq::<BrightnessInfo>::empty(),
        }
    }
}

/// The brightness readings of all monitors, from the result of the read on
/// each display.
pub fn get_brightness_all(per_display: Vec<Result<Vec<BrightnessInfo>, String>>) -> (r: Vec<BrightnessInfo>)
    ensures
        r@ == readings_of(per_display@),
{
    let ghost all = per_display@;
    assert(all.len() == per_display.len());
    let mut rest = per_display;
    let mut results: Vec<BrightnessInfo> = Vec::new();
    let mut k: usize = 0;
    while rest.len() > 0
        invariant
            k <= all.len() <= usize::MAX,
            rest@ == all.subrange(k as int, all.len() as int),
            results@ == readings_of(all.subrange(0, k as int)),
        decreases rest.len(),
    {
        let item = rest.remove(0);
        proof {
            assert(item == all[k as int]);
            assert(all.subrange(0, k + 1).drop_last() =~= all.subrange(0, k as int));
            assert(rest@ =~= all.subrange(k + 1, all.len() as int));
        }
        match item {
            Ok(mut infos) => {
                results.append(&mut infos);
            },
            Err(_) => {},
        }
        k = k + 1;
    }
    assert(all.subrange(0, all.len() as int) =~= all);
    results
}

/// The description dxva2 gives monitors it knows nothing about.
pub open spec fn generic_description() -> Seq<char> {
    "generic pnp monitor"@
}

/// Whether a DDC description is the generic placeholder (ignoring case and
/// surrounding whitespace), so that the GDI device string names the monitor better.
pub open spec fn is_generic_spec(desc: Seq<char>) -> bool {
    eq_ignore_ascii_case_spec(trim_seq(desc), generic_description())
}

/// The name a monitor is shown under: its DDC description, unless that is
/// the generic placeholder and the GDI device string is known and not blank.
pub open spec fn resolved_name(desc: Seq<char>, gdi_name: Option<Seq<char>>) -> Seq<char> {
    if !is_generic_spec(desc) {
        desc
    } else {
        match gdi_name {
            Some(g) => if trim_seq(g).len() > 0 {
                g
            } else {
                desc
            },
            None => desc,
        }
    }
}

/// Whether `desc` is the generic "Generic PnP Monitor" placeholder.
pub fn is_generic_description(desc: &str) -> (r: bool)
    ensures
        r == is_generic_spec(desc@),
{
    let t = trim(desc);
    eq_ignore_ascii_case(t.as_str(), "generic pnp monitor")
}

/// The best human-readable name of a physical monitor, given its DDC
/// description and the GDI device string of its display where one was found.
pub fn resolve_display_name(ddc_desc: &str, gdi_name: Option<&str>) -> (r: String)
    ensures
        r@ == resolved_name(ddc_desc@, opt_str_view(gdi_name)),
{
    if !is_generic_description(ddc_desc) {
        return String::from_str(ddc_desc);
    }
    match gdi_name {
        Some(g) => {
            let t = trim(g);
            if t.unicode_len() > 0 {
                String::from_str(g)
            } else {
                String::from_str(ddc_desc)
            }
        },
        None => String::from_str(ddc_desc),
    }
}

/// The physical monitor a pattern picked: its position among the physical
/// monitors and the name callers are shown.
#[derive(Debug, Clone)]
pub struct MonitorSelection {
    pub index: usize,
    pub description: String,
}

/// `pattern` occurs in `text` once both are uppercased.
pub open spec fn upper_contains(text: Seq<char>, pattern: Seq<char>) -> bool {
    is_substring(upper_text(pattern), upper_text(text))
}

/// The GDI device string of a display as an optional `&str`.
pub open spec fn gdi_view(g: Option<String>) -> Option<Seq<char>> {
    match g {
        Some(s) => Some(s@),
        None => None,
    }
}

/// Whether the GDI name at `i` is known and contains the pattern.
pub open spec fn gdi_hit(gdis: Seq<Option<String>>, pattern: Seq<char>, i: int) -> bool {
    match gdis[i] {
        Some(g) => upper_contains(g@, pattern),
        None => false,
    }
}

/// The first of the first `n` descriptions that contains the pattern.
pub open spec fn first_desc_hit(descs: Seq<String>, pattern: Seq<char>, n: nat) -> Option<int>
    decreases n,
{
    if n == 0 {
        None
    } else {
        match first_desc_hit(descs, pattern, (n - 1) as nat) {
            Some(i) => Some(i),
            None => if upper_contains(descs[n - 1]@, pattern) {
                Some(n - 1)
            } else {
                None
            },
        }
    }
}

/// The first of the first `n` GDI names that contains the pattern.
pub open spec fn first_gdi_hit(gdis: Seq<Option<String>>, pattern: Seq<char>, n: nat) -> Option<int>
    decreases n,
{
    if n == 0 {
        None
    } else {
        match first_gdi_hit(gdis, pattern, (n - 1) as nat) {
            Some(i) => Some(i),
            None => if gdi_hit(gdis, pattern, n - 1) {
                Some(n - 1)
            } else {
                None
            },
        }
    }
}

/// The names the monitors are shown under.
pub open spec fn shown_names(descs: Seq<String>, gdis: Seq<Option<String>>) -> Seq<Seq<char>> {
    Seq::new(descs.len(), |i: int| resolved_name(descs[i]@, gdi_view(gdis[i])))
}

/// The error when no physical monitor exists at all.
pub open spec fn no_monitor_message() -> Seq<char> {
    "No physical monitors found via DDC/CI"@
}

/// The error when monitors exist but none matches the pattern.
pub open spec fn no_match_message(pattern: Seq<char>, names: Seq<Seq<char>>) -> Seq<char> {
    "No DDC/CI monitor matched pattern '"@ + pattern + "'. Found: "@ + join_seqs(names, ", "@)
}

/// Which physical monitor a pattern selects: the first when the pattern is
/// empty, else the first whose DDC description contains it (ignoring case),
/// else the first whose GDI device string does, shown under that string.
pub open spec fn selection_spec(descs: Seq<String>, gdis: Seq<Option<String>>, pattern: Seq<char>) -> Result<(int, Seq<char>), Seq<char>> {
    if descs.len() == 0 {
        Err(no_monitor_message())
    } else if pattern.len() == 0 {
        Ok((0, descs[0]@))
    } else {
        match first_desc_hit(descs, pattern, descs.len()) {
            Some(i) => Ok((i, descs[i]@)),
            None => match first_gdi_hit(gdis, pattern, gdis.len()) {
                Some(i) => Ok((i, gdis[i]->Some_0@)),
                None => Err(no_match_message(pattern, shown_names(descs, gdis))),
            },
        }
    }
}

proof fn lemma_first_desc_stable(descs: Seq<String>, pattern: Seq<char>, k: nat, n: nat)
    requires
        k <= n,
        first_desc_hit(descs, pattern, k) is Some,
    ensures
        first_desc_hit(descs, pattern, n) == first_desc_hit(descs, pattern, k),
    decreases n - k,
{
    if k < n {
        lemma_first_desc_stable(descs, pattern, k, (n - 1) as nat);
    }
}

proof fn lemma_first_gdi_stable(gdis: Seq<Option<String>>, pattern: Seq<char>, k: nat, n: nat)
    requires
        k <= n,
        first_gdi_hit(gdis, pattern, k) is Some,
    ensures
        first_gdi_hit(gdis, pattern, n) == first_gdi_hit(gdis, pattern, k),
    decreases n - k,
{
    if k < n {
        lemma_first_gdi_stable(gdis, pattern, k, (n - 1) as nat);
    }
}

/// Picks the physical monitor `pattern` designates, from the DDC
/// description of each physical monitor and the GDI device string of its
/// display (`None` where GDI gave none).
pub fn select_monitor_by_pattern(
    descriptions: &Vec<String>,
    gdi_names: &Vec<Option<String>>,
    pattern: &str,
) -> (r: Result<MonitorSelection, String>)
    requires
        descriptions.len() == gdi_names.len(),
    ensures
        match selection_spec(descriptions@, gdi_names@, pattern@) {
            Ok((i, d)) => r matches Ok(sel) && sel.index == i && sel.description@ == d,
            Err(e) => r matches Err(m) && m@ == e,
        },
{
    let n = descriptions.len();
    if n == 0 {
        return Err(String::from_str("No physical monitors found via DDC/CI"));
    }
    if pattern.unicode_len() == 0 {
        return Ok(MonitorSelection { index: 0, description: descriptions[0].clone() });
    }
    let pat = to_uppercase(pattern);
    let mut i: usize = 0;
    while i < n
        invariant
            n == descriptions.len() == gdi_names.len(),
            i <= n,
            pat@ == upper_text(pattern@),
            pattern@.len() > 0,
            first_desc_hit(descriptions@, pattern@, i as nat) is None,
        decreases n - i,
    {
        let upper = to_uppercase(descriptions[i].as_str());
        if contains_str(upper.as_str(), pat.as_str()) {
            proof {
                assert(first_desc_hit(descriptions@, pattern@, (i + 1) as nat) == Some(i as int));
                lemma_first_desc_stable(descriptions@, pattern@, (i + 1) as nat, n as nat);
            }
            return Ok(MonitorSelection { index: i, description: descriptions[i].clone() });
        }
        i = i + 1;
    }
    let mut j: usize = 0;
    while j < n
        invariant
            n == descriptions.len() == gdi_names.len(),
            j <= n,
            pat@ == upper_text(pattern@),
            pattern@.len() > 0,
            first_desc_hit(descriptions@, pattern@, n as nat) is None,
            first_gdi_hit(gdi_names@, pattern@, j as nat) is None,
        decreases n - j,
    {
        match &gdi_names[j] {
            Some(name) => {
                let upper = to_uppercase(name.as_str());
                if contains_str(upper.as_str(), pat.as_str()) {
                    proof {
                        assert(gdi_hit(gdi_names@, pattern@, j as int));
                        assert(first_gdi_hit(gdi_names@, pattern@, (j + 1) as nat) == Some(j as int));
                        lemma_first_gdi_stable(gdi_names@, pattern@, (j + 1) as nat, n as nat);
                    }
                    return Ok(MonitorSelection { index: j, description: name.clone() });
                }
            },
            None => {},
        }
        j = j + 1;
    }
    let mut names: Vec<String> = Vec::new();
    let mut k: usize = 0;
    while k < n
        invariant
            n == descriptions.len() == gdi_names.len(),
            k <= n,
            names@.len() == k,
            forall|m: int| 0 <= m < k ==> #[trigger] names@[m]@ == resolved_name(
                descriptions@[m]@,
                gdi_view(gdi_names@[m]),
            ),
        decreases n - k,
    {
        let g: Option<&str> = match &gdi_names[k] {
            Some(x) => Some(x.as_str()),
            None => None,
        };
        assert(opt_str_view(g) == gdi_view(gdi_names@[k as int]));
        names.push(resolve_display_name(descriptions[k].as_str(), g));
        k = k + 1;
    }
    assert(strings_view(names@) =~= shown_names(descriptions@, gdi_names@));
    let joined = join_strings(&names, ", ");
    let mut msg = String::from_str("No DDC/CI monitor matched pattern '");
    msg.append(pattern);
    msg.append("'. Found: ");
    msg.append(joined.as_str());
    Err(msg)
}

proof fn lemma_first_desc_is(descs: Seq<String>, pattern: Seq<char>, n: nat, k: int)
    requires
        0 <= k < n <= descs.len(),
        is_substring(upper_text(pattern), upper_text(descs[k]@)),
        forall|j: int| 0 <= j < k ==> !is_substring(upper_text(pattern), upper_text(#[trigger] descs[j]@)),
    ensures
        first_desc_hit(descs, pattern, n) == Some(k),
    decreases n,
{
    if n > k + 1 {
        lemma_first_desc_is(descs, pattern, (n - 1) as nat, k);
    } else {
        lemma_first_desc_none(descs, pattern, k as nat);
    }
}

proof fn lemma_first_desc_none(descs: Seq<String>, pattern: Seq<char>, n: nat)
    requires
        n <= descs.len(),
        forall|j: int| 0 <= j < n ==> !is_substring(upper_text(pattern), upper_text(#[trigger] descs[j]@)),
    ensures
        first_desc_hit(descs, pattern, n) is None,
    decreases n,
{
    if n > 0 {
        lemma_first_desc_none(descs, pattern, (n - 1) as nat);
        assert(!is_substring(upper_text(pattern), upper_text(descs[n - 1]@)));
    }
}

proof fn lemma_first_gdi_is(gdis: Seq<Option<String>>, pattern: Seq<char>, n: nat, k: int)
    requires
        0 <= k < n <= gdis.len(),
        gdis[k] matches Some(g) && is_substring(upper_text(pattern), upper_text(g@)),
        forall|j: int|
            0 <= j < k ==> !(#[trigger] gdis[j] matches Some(g) && is_substring(upper_text(pattern), upper_text(g@))),
    ensures
        first_gdi_hit(gdis, pattern, n) == Some(k),
    decreases n,
{
    if n > k + 1 {
        lemma_first_gdi_is(gdis, pattern, (n - 1) as nat, k);
    } else {
        lemma_first_gdi_none(gdis, pattern, k as nat);
    }
}

proof fn lemma_first_gdi_none(gdis: Seq<Option<String>>, pattern: Seq<char>, n: nat)
    requires
        n <= gdis.len(),
        forall|j: int|
            0 <= j < n ==> !(#[trigger] gdis[j] matches Some(g) && is_substring(upper_text(pattern), upper_text(g@))),
    ensures
        first_gdi_hit(gdis, pattern, n) is None,
    decreases n,
{
    if n > 0 {
        lemma_first_gdi_none(gdis, pattern, (n - 1) as nat);
        assert(!(gdis[n - 1] matches Some(g) && is_substring(upper_text(pattern), upper_text(g@))));
    }
}

/// Monitor selection prefers DDC descriptions: when some monitor's DDC
/// description contains the pattern (ignoring case), the monitor selected
/// is the first such one, shown under its description, whatever the GDI
/// device names are.
pub proof fn law_selection_prefers_description(
    descs: Seq<String>,
    gdis: Seq<Option<String>>,
    pattern: Seq<char>,
    k: int,
)
    requires
        descs.len() == gdis.len(),
        pattern.len() > 0,
        0 <= k < descs.len(),
        is_substring(upper_text(pattern), upper_text(descs[k]@)),
        forall|j: int| 0 <= j < k ==> !is_substring(upper_text(pattern), upper_text(#[trigger] descs[j]@)),
    ensures
        selection_spec(descs, gdis, pattern) == Ok::<(int, Seq<char>), Seq<char>>((k, descs[k]@)),
{
    lemma_first_desc_is(descs, pattern, descs.len(), k);
}

/// The GDI device names are consulted only when no DDC description
/// contains the pattern: then the first monitor whose GDI name contains it
/// is selected, shown under that name.
pub proof fn law_selection_falls_back_to_gdi(
    descs: Seq<String>,
    gdis: Seq<Option<String>>,
    pattern: Seq<char>,
    k: int,
)
    requires
        descs.len() == gdis.len(),
        pattern.len() > 0,
        forall|j: int| 0 <= j < descs.len() ==> !is_substring(upper_text(pattern), upper_text(#[trigger] descs[j]@)),
        0 <= k < gdis.len(),
        gdis[k] matches Some(g) && is_substring(upper_text(pattern), upper_text(g@)),
        forall|j: int|
            0 <= j < k ==> !(#[trigger] gdis[j] matches Some(g) && is_substring(upper_text(pattern), upper_text(g@))),
    ensures
        selection_spec(descs, gdis, pattern) == Ok::<(int, Seq<char>), Seq<char>>((k, gdis[k]->Some_0@)),
{
    lemma_first_desc_none(descs, pattern, descs.len());
    lemma_first_gdi_is(gdis, pattern, gdis.len(), k);
}

/// Whatever is selected for a non-empty pattern contains the pattern,
/// ignoring case: in its DDC description, or else in its GDI name.
pub proof fn law_selected_monitor_matches(descs: Seq<String>, gdis: Seq<Option<String>>, pattern: Seq<char>)
    requires
        descs.len() == gdis.len(),
        pattern.len() > 0,
        selection_spec(descs, gdis, pattern) is Ok,
    ensures
        ({
            let (i, shown) = selection_spec(descs, gdis, pattern)->Ok_0;
            &&& 0 <= i < descs.len()
            &&& is_substring(upper_text(pattern), upper_text(shown))
            &&& (shown == descs[i]@ || (forall|j: int|
                0 <= j < descs.len() ==> !is_substring(upper_text(pattern), upper_text(#[trigger] descs[j]@))))
        }),
{
    lemma_first_desc_facts(descs, pattern, descs.len());
    lemma_first_gdi_facts(gdis, pattern, gdis.len());
}

proof fn lemma_first_desc_facts(descs: Seq<String>, pattern: Seq<char>, n: nat)
    requires
        n <= descs.len(),
    ensures
        first_desc_hit(descs, pattern, n) matches Some(i) ==> (0 <= i < n && is_substring(
            upper_text(pattern),
            upper_text(descs[i]@),
        )),
        first_desc_hit(descs, pattern, n) is None ==> forall|j: int|
            0 <= j < n ==> !is_substring(upper_text(pattern), upper_text(#[trigger] descs[j]@)),
    decreases n,
{
    if n > 0 {
        lemma_first_desc_facts(descs, pattern, (n - 1) as nat);
    }
}

proof fn lemma_first_gdi_facts(gdis: Seq<Option<String>>, pattern: Seq<char>, n: nat)
    requires
        n <= gdis.len(),
    ensures
        first_gdi_hit(gdis, pattern, n) matches Some(i) ==> (0 <= i < n && (gdis[i] matches Some(g)
            && is_substring(upper_text(pattern), upper_text(g@)))),
    decreases n,
{
    if n > 0 {
        lemma_first_gdi_facts(gdis, pattern, (n - 1) as nat);
    }
}

} // verus!

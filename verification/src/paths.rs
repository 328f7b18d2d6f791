//! Where the tool keeps its files. The environment values that decide the
//! roots (`ProgramData`, `WINDIR`) and the platform's path separator are
//! handed in by the caller.

use vstd::prelude::*;
use crate::text::{chars_of, push_char};

verus! {

/// The two separators a platform can have (`/` on Unix, `\` on Windows).
pub open spec fn is_platform_separator(sep: char) -> bool {
    sep == '/' || sep == '\\'
}

/// Whether `c` ends a path component on a platform whose separator is `sep`
/// (Windows accepts both slashes).
pub open spec fn ends_component(c: char, sep: char) -> bool {
    if sep == '\\' {
        c == '\\' || c == '/'
    } else {
        c == '/'
    }
}

/// An ASCII letter, the only characters a Windows drive can be named by.
pub open spec fn is_ascii_letter_spec(c: char) -> bool {
    ('a' <= c && c <= 'z') || ('A' <= c && c <= 'Z')
}

/// A bare Windows drive such as `C:`, onto which no separator is added.
pub open spec fn is_bare_drive(base: Seq<char>) -> bool {
    &&& base.len() == 2
    &&& base[1] == ':'
    &&& is_ascii_letter_spec(base[0])
}

/// A Windows path that starts with a drive prefix such as `C:`.
pub open spec fn has_drive(p: Seq<char>) -> bool {
    p.len() >= 2 && p[1] == ':' && is_ascii_letter_spec(p[0])
}

/// A path that starts at a root: with a separator of the platform.
pub open spec fn starts_with_sep(p: Seq<char>, sep: char) -> bool {
    p.len() > 0 && ends_component(p[0], sep)
}

/// A Windows path that starts with two separators, as the UNC (`\\server\share`),
/// device (`\\.\`) and verbatim (`\\?\`) prefixes do.
pub open spec fn starts_with_two_seps(p: Seq<char>) -> bool {
    p.len() >= 2 && ends_component(p[0], '\\') && ends_component(p[1], '\\')
}

/// A Windows path that starts with `\\?`, as the verbatim prefix `\\?\` does.
pub open spec fn has_verbatim_mark(p: Seq<char>) -> bool {
    p.len() >= 3 && p[0] == '\\' && p[1] == '\\' && p[2] == '?'
}

/// The joins this library models: every join on Unix; on Windows every
/// join except onto a verbatim base (`\\?\…`, whose joins are normalized),
/// of a name that starts with two separators (a UNC, device or verbatim
/// prefix of its own), or of a rooted name onto a base that starts with two
/// separators (which keeps that base's UNC or device prefix).
pub open spec fn join_modelled(base: Seq<char>, sep: char, name: Seq<char>) -> bool {
    sep == '/' || (!has_verbatim_mark(base) && !starts_with_two_seps(name) && !(starts_with_sep(name, sep)
        && starts_with_two_seps(base)))
}

/// `base` joined with `name`, as `PathBuf::join` does it:
/// - a name that starts at a root replaces the base; on Windows a rooted name
///   keeps the base's drive (if any), and a name with a drive replaces the base;
/// - otherwise a separator goes between them unless `base` is empty, already
///   ends with a separator, or is a bare Windows drive.
pub open spec fn join_spec(base: Seq<char>, sep: char, name: Seq<char>) -> Seq<char> {
    if sep == '\\' && has_drive(name) {
        name
    } else if starts_with_sep(name, sep) {
        if sep == '\\' && has_drive(base) {
            base.subrange(0, 2) + name
        } else {
            name
        }
    } else if base.len() == 0 || ends_component(base[base.len() - 1], sep) || (sep == '\\'
        && is_bare_drive(base)) {
        base + name
    } else {
        base.push(sep) + name
    }
}

/// A name that joining appends to the base rather than replacing it.
pub open spec fn appends_on_join(name: Seq<char>, sep: char) -> bool {
    !starts_with_sep(name, sep) && !(sep == '\\' && has_drive(name))
}

fn push_str_chars(out: &mut String, s: &str)
    ensures
        final(out)@ == old(out)@ + s@,
{
    let v = chars_of(s);
    let mut i: usize = 0;
    while i < v.len()
        invariant
            i <= v.len(),
            v@ == s@,
            out@ == old(out)@ + v@.subrange(0, i as int),
        decreases v.len() - i,
    {
        push_char(out, v[i]);
        assert(old(out)@ + v@.subrange(0, i + 1) =~= old(out)@ + v@.subrange(0, i as int) + seq![v@[i as int]]);
        i = i + 1;
    }
    assert(v@.subrange(0, v@.len() as int) =~= v@);
}

fn is_ascii_letter(c: char) -> (b: bool)
    ensures
        b == (('a' <= c && c <= 'z') || ('A' <= c && c <= 'Z')),
{
    ('a' <= c && c <= 'z') || ('A' <= c && c <= 'Z')
}

/// Joins `name` onto `base` as `PathBuf::join` does on the platform whose
/// separator is `sep`.
pub fn join_path(base: &str, sep: char, name: &str) -> (r: String)
    requires
        is_platform_separator(sep),
        join_modelled(base@, sep, name@),
    ensures
        r@ == join_spec(base@, sep, name@),
{
    let b = chars_of(base);
    let nm = chars_of(name);
    let n = b.len();
    let name_drive = nm.len() >= 2 && nm[1] == ':' && is_ascii_letter(nm[0]);
    if sep == '\\' && name_drive {
        return String::from_str(name);
    }
    let name_rooted = nm.len() > 0 && (if sep == '\\' {
        nm[0] == '\\' || nm[0] == '/'
    } else {
        nm[0] == '/'
    });
    if name_rooted {
        let mut out = String::new();
        if sep == '\\' && n >= 2 && b[1] == ':' && is_ascii_letter(b[0]) {
            push_char(&mut out, b[0]);
            push_char(&mut out, b[1]);
            proof {
                assert(out@ =~= base@.subrange(0, 2));
            }
        } else {
            proof {
                assert(out@ + name@ =~= name@);
            }
        }
        push_str_chars(&mut out, name);
        return out;
    }
    let need_sep = if n == 0 {
        false
    } else {
        let last = b[n - 1];
        let ends = if sep == '\\' {
            last == '\\' || last == '/'
        } else {
            last == '/'
        };
        let drive = sep == '\\' && n == 2 && b[1] == ':' && is_ascii_letter(b[0]);
        !ends && !drive
    };
    let mut out = String::new();
    push_str_chars(&mut out, base);
    if need_sep {
        push_char(&mut out, sep);
    }
    push_str_chars(&mut out, name);
    proof {
        assert(Seq::<char>::empty() + base@ =~= base@);
    }
    out
}

/// Whether the paths under the root `root` are modelled (`root_modelled`).
pub fn root_is_modelled(root: Option<&str>, sep: char) -> (r: bool)
    ensures
        r == root_modelled(opt_str_view(root), sep),
{
    match root {
        None => true,
        Some(p) => {
            if sep == '/' {
                return true;
            }
            let c = chars_of(p);
            !(c.len() >= 3 && c[0] == '\\' && c[1] == '\\' && c[2] == '?')
        },
    }
}

/// Whether joining `name` onto `base` is modelled (`join_modelled`).
pub fn join_is_modelled(base: &str, sep: char, name: &str) -> (r: bool)
    ensures
        r == join_modelled(base@, sep, name@),
{
    if sep == '/' {
        return true;
    }
    let b = chars_of(base);
    let n = chars_of(name);
    let is_sep = |c: char| -> (r: bool)
        ensures
            r == ends_component(c, '\\'),
        { c == '\\' || c == '/' };
    let base_mark = b.len() >= 3 && b[0] == '\\' && b[1] == '\\' && b[2] == '?';
    let name_two = n.len() >= 2 && is_sep(n[0]) && is_sep(n[1]);
    let base_two = b.len() >= 2 && is_sep(b[0]) && is_sep(b[1]);
    let name_rooted = n.len() > 0 && (if sep == '\\' {
        is_sep(n[0])
    } else {
        n[0] == '/'
    });
    !base_mark && !name_two && !(name_rooted && base_two)
}

/// `Some(s)` as the characters of `s`.
pub open spec fn opt_str_view(o: Option<&str>) -> Option<Seq<char>> {
    match o {
        Some(s) => Some(s@),
        None => None,
    }
}

/// The `ProgramData` root, `C:\ProgramData` when the variable is unset.
pub open spec fn program_data_root(program_data: Option<Seq<char>>) -> Seq<char> {
    match program_data {
        Some(p) => p,
        None => "C:\\ProgramData"@,
    }
}

/// The configuration directory under `ProgramData`.
pub open spec fn config_dir_spec(program_data: Option<Seq<char>>, sep: char) -> Seq<char> {
    join_spec(program_data_root(program_data), sep, "LG-UltraGear-Monitor"@)
}

/// The state directory inside the configuration directory.
pub open spec fn state_dir_spec(program_data: Option<Seq<char>>, sep: char) -> Seq<char> {
    join_spec(config_dir_spec(program_data, sep), sep, "state"@)
}

/// A name that starts with neither a separator nor a drive: joining it
/// appends it to the base.
pub open spec fn plain_name(n: Seq<char>) -> bool {
    n.len() > 0 && !ends_component(n[0], '\\') && !has_drive(n) && n[0] != '?'
}

/// The `ProgramData` or `WINDIR` values whose paths are modelled: all on
/// Unix; on Windows all but verbatim ones (starting with `\\?`).
pub open spec fn root_modelled(root: Option<Seq<char>>, sep: char) -> bool {
    match root {
        Some(r) => sep == '/' || !has_verbatim_mark(r),
        None => true,
    }
}

proof fn lemma_join_plain(base: Seq<char>, sep: char, name: Seq<char>)
    requires
        is_platform_separator(sep),
        plain_name(name),
        sep == '\\' ==> !has_verbatim_mark(base),
    ensures
        join_modelled(base, sep, name),
        appends_on_join(name, sep),
        sep == '\\' ==> !has_verbatim_mark(join_spec(base, sep, name)),
{
    let j = join_spec(base, sep, name);
    if base.len() >= 3 {
        assert(j[0] == base[0] && j[1] == base[1] && j[2] == base[2]);
    } else if base.len() == 2 {
        assert(j[0] == base[0] && j[1] == base[1]);
        if base.len() == 0 || ends_component(base[base.len() - 1], sep) || (sep == '\\' && is_bare_drive(base)) {
            assert(j[2] == name[0]);
        } else {
            assert(j[2] == sep);
        }
    } else if base.len() == 1 {
        if ends_component(base[0], sep) {
            assert(j[1] == name[0]);
        }
    }
}

proof fn lemma_names_plain()
    ensures
        plain_name("LG-UltraGear-Monitor"@),
        plain_name("config.toml"@),
        plain_name("lg-ultragear-dimming-fix.exe"@),
        plain_name("state"@),
        plain_name("snapshots"@),
        plain_name("diagnostics.log"@),
        plain_name("ddc_guardrails.toml"@),
        plain_name("last_good.toml"@),
        plain_name("ab_compare.toml"@),
        plain_name("automation.toml"@),
        plain_name("System32"@),
        plain_name("spool"@),
        plain_name("drivers"@),
        plain_name("color"@),
        !has_verbatim_mark("C:\\ProgramData"@),
        !has_verbatim_mark("C:\\Windows"@),
{
    reveal_strlit("LG-UltraGear-Monitor");
    reveal_strlit("config.toml");
    reveal_strlit("lg-ultragear-dimming-fix.exe");
    reveal_strlit("state");
    reveal_strlit("snapshots");
    reveal_strlit("diagnostics.log");
    reveal_strlit("ddc_guardrails.toml");
    reveal_strlit("last_good.toml");
    reveal_strlit("ab_compare.toml");
    reveal_strlit("automation.toml");
    reveal_strlit("System32");
    reveal_strlit("spool");
    reveal_strlit("drivers");
    reveal_strlit("color");
    reveal_strlit("C:\\ProgramData");
    reveal_strlit("C:\\Windows");
}

pub(crate) proof fn lemma_dirs_modelled(program_data: Option<Seq<char>>, sep: char)
    requires
        is_platform_separator(sep),
        root_modelled(program_data, sep),
    ensures
        sep == '\\' ==> !has_verbatim_mark(program_data_root(program_data)),
        sep == '\\' ==> !has_verbatim_mark(config_dir_spec(program_data, sep)),
        sep == '\\' ==> !has_verbatim_mark(state_dir_spec(program_data, sep)),
        sep == '\\' ==> !has_verbatim_mark(join_spec(state_dir_spec(program_data, sep), sep, "snapshots"@)),
        join_modelled(program_data_root(program_data), sep, "LG-UltraGear-Monitor"@),
        join_modelled(config_dir_spec(program_data, sep), sep, "state"@),
{
    lemma_names_plain();
    lemma_join_plain(program_data_root(program_data), sep, "LG-UltraGear-Monitor"@);
    lemma_join_plain(config_dir_spec(program_data, sep), sep, "state"@);
    lemma_join_plain(state_dir_spec(program_data, sep), sep, "snapshots"@);
}

/// The configuration directory: `<ProgramData>\LG-UltraGear-Monitor`, where
/// `program_data` is the value of the `ProgramData` variable, if set.
pub fn config_dir(program_data: Option<&str>, sep: char) -> (r: String)
    requires
        is_platform_separator(sep),
        root_modelled(opt_str_view(program_data), sep),
    ensures
        r@ == config_dir_spec(opt_str_view(program_data), sep),
{
    proof {
        lemma_names_plain();
        lemma_dirs_modelled(opt_str_view(program_data), sep);
    }
    match program_data {
        Some(p) => join_path(p, sep, "LG-UltraGear-Monitor"),
        None => join_path("C:\\ProgramData", sep, "LG-UltraGear-Monitor"),
    }
}

/// The configuration file, `config.toml` in the configuration directory.
pub fn config_path(program_data: Option<&str>, sep: char) -> (r: String)
    requires
        is_platform_separator(sep),
        root_modelled(opt_str_view(program_data), sep),
    ensures
        r@ == join_spec(config_dir_spec(opt_str_view(program_data), sep), sep, "config.toml"@),
{
    proof {
        lemma_names_plain();
        lemma_dirs_modelled(opt_str_view(program_data), sep);
    }
    let dir = config_dir(program_data, sep);
    join_path(&dir, sep, "config.toml")
}

/// The installed service binary in the configuration directory.
pub fn install_path(program_data: Option<&str>, sep: char) -> (r: String)
    requires
        is_platform_separator(sep),
        root_modelled(opt_str_view(program_data), sep),
    ensures
        r@ == join_spec(
            config_dir_spec(opt_str_view(program_data), sep),
            sep,
            "lg-ultragear-dimming-fix.exe"@,
        ),
{
    proof {
        lemma_names_plain();
        lemma_dirs_modelled(opt_str_view(program_data), sep);
    }
    let dir = config_dir(program_data, sep);
    join_path(&dir, sep, "lg-ultragear-dimming-fix.exe")
}

/// The state directory, `state` in the configuration directory.
pub fn state_dir(program_data: Option<&str>, sep: char) -> (r: String)
    requires
        is_platform_separator(sep),
        root_modelled(opt_str_view(program_data), sep),
    ensures
        r@ == state_dir_spec(opt_str_view(program_data), sep),
{
    proof {
        lemma_names_plain();
        lemma_dirs_modelled(opt_str_view(program_data), sep);
    }
    let dir = config_dir(program_data, sep);
    join_path(&dir, sep, "state")
}

/// The directory of saved profile snapshots.
pub fn snapshots_dir(program_data: Option<&str>, sep: char) -> (r: String)
    requires
        is_platform_separator(sep),
        root_modelled(opt_str_view(program_data), sep),
    ensures
        r@ == join_spec(state_dir_spec(opt_str_view(program_data), sep), sep, "snapshots"@),
{
    proof {
        lemma_names_plain();
        lemma_dirs_modelled(opt_str_view(program_data), sep);
    }
    let dir = state_dir(program_data, sep);
    join_path(&dir, sep, "snapshots")
}

/// The diagnostics event log.
pub fn diagnostics_log_path(program_data: Option<&str>, sep: char) -> (r: String)
    requires
        is_platform_separator(sep),
        root_modelled(opt_str_view(program_data), sep),
    ensures
        r@ == join_spec(state_dir_spec(opt_str_view(program_data), sep), sep, "diagnostics.log"@),
{
    proof {
        lemma_names_plain();
        lemma_dirs_modelled(opt_str_view(program_data), sep);
    }
    let dir = state_dir(program_data, sep);
    join_path(&dir, sep, "diagnostics.log")
}

/// The saved DDC guardrails.
pub fn guardrails_path(program_data: Option<&str>, sep: char) -> (r: String)
    requires
        is_platform_separator(sep),
        root_modelled(opt_str_view(program_data), sep),
    ensures
        r@ == join_spec(
            state_dir_spec(opt_str_view(program_data), sep),
            sep,
            "ddc_guardrails.toml"@,
        ),
{
    proof {
        lemma_names_plain();
        lemma_dirs_modelled(opt_str_view(program_data), sep);
    }
    let dir = state_dir(program_data, sep);
    join_path(&dir, sep, "ddc_guardrails.toml")
}

/// The last-known-good recovery record.
pub fn recovery_state_path(program_data: Option<&str>, sep: char) -> (r: String)
    requires
        is_platform_separator(sep),
        root_modelled(opt_str_view(program_data), sep),
    ensures
        r@ == join_spec(state_dir_spec(opt_str_view(program_data), sep), sep, "last_good.toml"@),
{
    proof {
        lemma_names_plain();
        lemma_dirs_modelled(opt_str_view(program_data), sep);
    }
    let dir = state_dir(program_data, sep);
    join_path(&dir, sep, "last_good.toml")
}

/// The A/B profile comparison record.
pub fn ab_compare_state_path(program_data: Option<&str>, sep: char) -> (r: String)
    requires
        is_platform_separator(sep),
        root_modelled(opt_str_view(program_data), sep),
    ensures
        r@ == join_spec(state_dir_spec(opt_str_view(program_data), sep), sep, "ab_compare.toml"@),
{
    proof {
        lemma_names_plain();
        lemma_dirs_modelled(opt_str_view(program_data), sep);
    }
    let dir = state_dir(program_data, sep);
    join_path(&dir, sep, "ab_compare.toml")
}

/// The automation settings file.
pub fn automation_config_path(program_data: Option<&str>, sep: char) -> (r: String)
    requires
        is_platform_separator(sep),
        root_modelled(opt_str_view(program_data), sep),
    ensures
        r@ == join_spec(state_dir_spec(opt_str_view(program_data), sep), sep, "automation.toml"@),
{
    proof {
        lemma_names_plain();
        lemma_dirs_modelled(opt_str_view(program_data), sep);
    }
    let dir = state_dir(program_data, sep);
    join_path(&dir, sep, "automation.toml")
}

/// The Windows colour store, `<WINDIR>\System32\spool\drivers\color`, where
/// `windir` is the value of the `WINDIR` variable, if set.
pub fn windows_color_directory(windir: Option<&str>, sep: char) -> (r: String)
    requires
        is_platform_separator(sep),
        root_modelled(opt_str_view(windir), sep),
    ensures
        r@ == join_spec(
            join_spec(
                join_spec(
                    join_spec(
                        match opt_str_view(windir) {
                            Some(w) => w,
                            None => "C:\\Windows"@,
                        },
                        sep,
                        "System32"@,
                    ),
                    sep,
                    "spool"@,
                ),
                sep,
                "drivers"@,
            ),
            sep,
            "color"@,
        ),
{
    let ghost w0 = match opt_str_view(windir) {
        Some(w) => w,
        None => "C:\\Windows"@,
    };
    proof {
        lemma_names_plain();
        lemma_join_plain(w0, sep, "System32"@);
        lemma_join_plain(join_spec(w0, sep, "System32"@), sep, "spool"@);
        lemma_join_plain(join_spec(join_spec(w0, sep, "System32"@), sep, "spool"@), sep, "drivers"@);
        lemma_join_plain(
            join_spec(join_spec(join_spec(w0, sep, "System32"@), sep, "spool"@), sep, "drivers"@),
            sep,
            "color"@,
        );
    }
    let root = match windir {
        Some(w) => join_path(w, sep, "System32"),
        None => join_path("C:\\Windows", sep, "System32"),
    };
    let spool = join_path(&root, sep, "spool");
    let drivers = join_path(&spool, sep, "drivers");
    join_path(&drivers, sep, "color")
}

/// Joining a name that starts with neither a root nor a drive never changes
/// the base: the base is a prefix of the joined path.
pub proof fn law_join_extends(base: Seq<char>, sep: char, name: Seq<char>)
    requires
        appends_on_join(name, sep),
    ensures
        base.is_prefix_of(join_spec(base, sep, name)),
{
    let j = join_spec(base, sep, name);
    assert(j.subrange(0, base.len() as int) =~= base);
}

/// The layout of the tool's files: the state directory lies inside the
/// configuration directory, and the configuration file, the installed
/// binary and every state file lie inside their directory.
pub proof fn law_config_layout(program_data: Option<Seq<char>>, sep: char)
    ensures
        config_dir_spec(program_data, sep).is_prefix_of(state_dir_spec(program_data, sep)),
        config_dir_spec(program_data, sep).is_prefix_of(join_spec(config_dir_spec(program_data, sep), sep, "config.toml"@)),
        config_dir_spec(program_data, sep).is_prefix_of(
            join_spec(config_dir_spec(program_data, sep), sep, "lg-ultragear-dimming-fix.exe"@),
        ),
        forall|name: Seq<char>|
            appends_on_join(name, sep) ==> #[trigger] state_dir_spec(program_data, sep).is_prefix_of(
                join_spec(state_dir_spec(program_data, sep), sep, name),
            ),
{
    lemma_names_plain();
    law_join_extends(config_dir_spec(program_data, sep), sep, "state"@);
    law_join_extends(config_dir_spec(program_data, sep), sep, "config.toml"@);
    law_join_extends(config_dir_spec(program_data, sep), sep, "lg-ultragear-dimming-fix.exe"@);
    assert forall|name: Seq<char>|
        appends_on_join(name, sep) implies #[trigger] state_dir_spec(program_data, sep).is_prefix_of(
        join_spec(state_dir_spec(program_data, sep), sep, name),
    ) by {
        law_join_extends(state_dir_spec(program_data, sep), sep, name);
    }
}

/// Different names joined onto the same directory give different paths:
/// the state files (`diagnostics.log`, `ddc_guardrails.toml`,
/// `last_good.toml`, `ab_compare.toml`, `automation.toml`) and the
/// `snapshots` directory are pairwise distinct paths in the state directory.
pub proof fn law_distinct_names_distinct_paths(dir: Seq<char>, sep: char, n1: Seq<char>, n2: Seq<char>)
    requires
        appends_on_join(n1, sep),
        appends_on_join(n2, sep),
        n1 != n2,
    ensures
        join_spec(dir, sep, n1) != join_spec(dir, sep, n2),
{
    let j1 = join_spec(dir, sep, n1);
    let j2 = join_spec(dir, sep, n2);
    let pre = if dir.len() == 0 || ends_component(dir[dir.len() - 1], sep) || (sep == '\\' && is_bare_drive(dir)) {
        dir
    } else {
        dir.push(sep)
    };
    assert(j1 == pre + n1);
    assert(j2 == pre + n2);
    if j1 == j2 {
        assert(n1 =~= j1.subrange(pre.len() as int, j1.len() as int));
        assert(n2 =~= j2.subrange(pre.len() as int, j2.len() as int));
    }
}

/// The state files and the snapshots directory are six distinct paths.
pub proof fn law_state_paths_distinct(program_data: Option<Seq<char>>, sep: char)
    ensures
        ({
            let d = state_dir_spec(program_data, sep);
            let ps = seq![
                join_spec(d, sep, "diagnostics.log"@),
                join_spec(d, sep, "ddc_guardrails.toml"@),
                join_spec(d, sep, "last_good.toml"@),
                join_spec(d, sep, "ab_compare.toml"@),
                join_spec(d, sep, "automation.toml"@),
                join_spec(d, sep, "snapshots"@),
            ];
            forall|i: int, j: int| 0 <= i < j < 6 ==> ps[i] != ps[j]
        }),
{
    lemma_names_plain();
    let d = state_dir_spec(program_data, sep);
    let ns = seq![
        "diagnostics.log"@,
        "ddc_guardrails.toml"@,
        "last_good.toml"@,
        "ab_compare.toml"@,
        "automation.toml"@,
        "snapshots"@,
    ];
    reveal_strlit("diagnostics.log");
    reveal_strlit("ddc_guardrails.toml");
    reveal_strlit("last_good.toml");
    reveal_strlit("ab_compare.toml");
    reveal_strlit("automation.toml");
    reveal_strlit("snapshots");
    assert forall|i: int, j: int| 0 <= i < j < 6 implies join_spec(d, sep, ns[i]) != join_spec(d, sep, ns[j]) by {
        assert(ns[i].len() != ns[j].len() || ns[i][0] != ns[j][0] || ns[i] != ns[j]);
        if ns[i] == ns[j] {
            assert(ns[i][0] == ns[j][0]);
        }
        law_distinct_names_distinct_paths(d, sep, ns[i], ns[j]);
    }
}

/// `path` is `dir`, one separator and `name`, where `name` is a single
/// component: so `dir` is the parent of `path` and `name` its file name.
pub open spec fn directly_in(path: Seq<char>, dir: Seq<char>, sep: char, name: Seq<char>) -> bool {
    &&& path == dir.push(sep) + name
    &&& name.len() > 0
    &&& forall|i: int| 0 <= i < name.len() ==> !ends_component(#[trigger] name[i], sep)
}

proof fn lemma_join_last(base: Seq<char>, sep: char, name: Seq<char>)
    requires
        appends_on_join(name, sep),
        name.len() > 0,
    ensures
        join_spec(base, sep, name).len() > 0,
        join_spec(base, sep, name).last() == name.last(),
{
}

proof fn lemma_join_directly(base: Seq<char>, sep: char, name: Seq<char>)
    requires
        is_platform_separator(sep),
        appends_on_join(name, sep),
        base.len() >= 1,
        !ends_component(base.last(), sep),
        base.last() != ':',
        name.len() > 0,
        forall|i: int| 0 <= i < name.len() ==> !ends_component(#[trigger] name[i], sep),
    ensures
        directly_in(join_spec(base, sep, name), base, sep, name),
{
}

/// The layout of the state files: the state directory is the
/// configuration directory joined with `state`; each state file
/// (`diagnostics.log`, `ddc_guardrails.toml`, `last_good.toml`,
/// `ab_compare.toml`, `automation.toml`) and the `snapshots` directory is
/// the state directory joined with its name, so its parent is the state
/// directory; and the six paths are pairwise distinct.
pub proof fn law_state_paths(program_data: Option<Seq<char>>, sep: char)
    requires
        is_platform_separator(sep),
    ensures
        directly_in(state_dir_spec(program_data, sep), config_dir_spec(program_data, sep), sep, "state"@),
        ({
            let d = state_dir_spec(program_data, sep);
            let ns = seq![
                "diagnostics.log"@,
                "ddc_guardrails.toml"@,
                "last_good.toml"@,
                "ab_compare.toml"@,
                "automation.toml"@,
                "snapshots"@,
            ];
            &&& forall|i: int| 0 <= i < 6 ==> directly_in(#[trigger] join_spec(d, sep, ns[i]), d, sep, ns[i])
            &&& forall|i: int, j: int| 0 <= i < j < 6 ==> join_spec(d, sep, ns[i]) != join_spec(d, sep, ns[j])
        }),
{
    lemma_names_plain();
    reveal_strlit("LG-UltraGear-Monitor");
    reveal_strlit("diagnostics.log");
    reveal_strlit("ddc_guardrails.toml");
    reveal_strlit("last_good.toml");
    reveal_strlit("ab_compare.toml");
    reveal_strlit("automation.toml");
    reveal_strlit("snapshots");
    reveal_strlit("state");
    let root = program_data_root(program_data);
    let c = config_dir_spec(program_data, sep);
    let d = state_dir_spec(program_data, sep);
    lemma_join_plain_appends("LG-UltraGear-Monitor"@, sep);
    lemma_join_last(root, sep, "LG-UltraGear-Monitor"@);
    lemma_join_plain_appends("state"@, sep);
    lemma_no_separator("state"@, sep);
    lemma_join_directly(c, sep, "state"@);
    lemma_join_last(c, sep, "state"@);
    let ns = seq![
        "diagnostics.log"@,
        "ddc_guardrails.toml"@,
        "last_good.toml"@,
        "ab_compare.toml"@,
        "automation.toml"@,
        "snapshots"@,
    ];
    assert forall|i: int| 0 <= i < 6 implies directly_in(#[trigger] join_spec(d, sep, ns[i]), d, sep, ns[i]) by {
        lemma_join_plain_appends(ns[i], sep);
        lemma_no_separator(ns[i], sep);
        lemma_join_directly(d, sep, ns[i]);
    }
    law_state_paths_distinct(program_data, sep);
    assert forall|i: int, j: int| 0 <= i < j < 6 implies join_spec(d, sep, ns[i]) != join_spec(d, sep, ns[j]) by {
        let ps = seq![
            join_spec(d, sep, "diagnostics.log"@),
            join_spec(d, sep, "ddc_guardrails.toml"@),
            join_spec(d, sep, "last_good.toml"@),
            join_spec(d, sep, "ab_compare.toml"@),
            join_spec(d, sep, "automation.toml"@),
            join_spec(d, sep, "snapshots"@),
        ];
        assert(ps[i] == join_spec(d, sep, ns[i]));
        assert(ps[j] == join_spec(d, sep, ns[j]));
    }
}

proof fn lemma_no_separator(name: Seq<char>, sep: char)
    requires
        is_platform_separator(sep),
        name == "config.toml"@ || name == "lg-ultragear-dimming-fix.exe"@ || name == "diagnostics.log"@ || name == "ddc_guardrails.toml"@ || name == "last_good.toml"@ || name
            == "ab_compare.toml"@ || name == "automation.toml"@ || name == "snapshots"@ || name == "state"@,
    ensures
        forall|i: int| 0 <= i < name.len() ==> !ends_component(#[trigger] name[i], sep),
{
    reveal_strlit("config.toml");
    reveal_strlit("lg-ultragear-dimming-fix.exe");
    reveal_strlit("diagnostics.log");
    reveal_strlit("ddc_guardrails.toml");
    reveal_strlit("last_good.toml");
    reveal_strlit("ab_compare.toml");
    reveal_strlit("automation.toml");
    reveal_strlit("snapshots");
    reveal_strlit("state");
}

/// The configuration file and the installed binary sit directly in the
/// configuration directory: each is that directory, one separator and its
/// file name (`config.toml`, `lg-ultragear-dimming-fix.exe`).
pub proof fn law_config_files(program_data: Option<Seq<char>>, sep: char)
    requires
        is_platform_separator(sep),
    ensures
        directly_in(
            join_spec(config_dir_spec(program_data, sep), sep, "config.toml"@),
            config_dir_spec(program_data, sep),
            sep,
            "config.toml"@,
        ),
        directly_in(
            join_spec(config_dir_spec(program_data, sep), sep, "lg-ultragear-dimming-fix.exe"@),
            config_dir_spec(program_data, sep),
            sep,
            "lg-ultragear-dimming-fix.exe"@,
        ),
{
    lemma_names_plain();
    reveal_strlit("LG-UltraGear-Monitor");
    let c = config_dir_spec(program_data, sep);
    lemma_join_plain_appends("LG-UltraGear-Monitor"@, sep);
    lemma_join_last(program_data_root(program_data), sep, "LG-UltraGear-Monitor"@);
    lemma_join_plain_appends("config.toml"@, sep);
    lemma_no_separator("config.toml"@, sep);
    lemma_join_directly(c, sep, "config.toml"@);
    lemma_join_plain_appends("lg-ultragear-dimming-fix.exe"@, sep);
    lemma_no_separator("lg-ultragear-dimming-fix.exe"@, sep);
    lemma_join_directly(c, sep, "lg-ultragear-dimming-fix.exe"@);
}

proof fn lemma_join_plain_appends(name: Seq<char>, sep: char)
    requires
        is_platform_separator(sep),
        plain_name(name),
    ensures
        appends_on_join(name, sep),
{
}

} // verus!

//! Escaping text for TOML basic strings and for XML character data.

use vstd::prelude::*;
use crate::text::{chars_of, push_char};

verus! {

/// How one character is written inside a TOML basic string (`"..."`).
pub open spec fn toml_escape_char(c: char) -> Seq<char> {
    if c == '\\' {
        seq!['\\', '\\']
    } else if c == '"' {
        seq!['\\', '"']
    } else if c == '\n' {
        seq!['\\', 'n']
    } else if c == '\r' {
        seq!['\\', 'r']
    } else if c == '\t' {
        seq!['\\', 't']
    } else {
        seq![c]
    }
}

/// `s` with every character written as `toml_escape_char` says.
pub open spec fn toml_escaped(s: Seq<char>) -> Seq<char>
    decreases s.len(),
{
    if s.len() == 0 {
        Seq::empty()
    } else {
        toml_escaped(s.subrange(0, s.len() - 1)) + toml_escape_char(s[s.len() - 1])
    }
}

/// How one character is written in XML text: the five predefined entities.
pub open spec fn xml_escape_char(c: char) -> Seq<char> {
    if c == '&' {
        seq!['&', 'a', 'm', 'p', ';']
    } else if c == '<' {
        seq!['&', 'l', 't', ';']
    } else if c == '>' {
        seq!['&', 'g', 't', ';']
    } else if c == '"' {
        seq!['&', 'q', 'u', 'o', 't', ';']
    } else if c == '\'' {
        seq!['&', 'a', 'p', 'o', 's', ';']
    } else {
        seq![c]
    }
}

/// `s` with every character written as `xml_escape_char` says.
pub open spec fn xml_escaped(s: Seq<char>) -> Seq<char>
    decreases s.len(),
{
    if s.len() == 0 {
        Seq::empty()
    } else {
        xml_escaped(s.subrange(0, s.len() - 1)) + xml_escape_char(s[s.len() - 1])
    }
}

fn push_all(out: &mut String, cs: &[char])
    ensures
        final(out)@ == old(out)@ + cs@,
{
    let mut i: usize = 0;
    while i < cs.len()
        invariant
            i <= cs.len(),
            out@ == old(out)@ + cs@.subrange(0, i as int),
        decreases cs.len() - i,
    {
        push_char(out, cs[i]);
        assert(old(out)@ + cs@.subrange(0, i + 1) =~= old(out)@ + cs@.subrange(0, i as int) + seq![cs@[i as int]]);
        i = i + 1;
    }
    assert(cs@.subrange(0, cs@.len() as int) =~= cs@);
}

/// Escapes a string for a TOML basic string: backslash, double quote,
/// newline, carriage return and tab become escape sequences.
pub fn escape_toml_string(s: &str) -> (r: String)
    ensures
        r@ == toml_escaped(s@),
{
    let v = chars_of(s);
    let mut out = String::new();
    let mut i: usize = 0;
    while i < v.len()
        invariant
            i <= v.len(),
            out@ == toml_escaped(v@.subrange(0, i as int)),
        decreases v.len() - i,
    {
        let c = v[i];
        let ghost before = out@;
        if c == '\\' {
            push_all(&mut out, &['\\', '\\']);
        } else if c == '"' {
            push_all(&mut out, &['\\', '"']);
        } else if c == '\n' {
            push_all(&mut out, &['\\', 'n']);
        } else if c == '\r' {
            push_all(&mut out, &['\\', 'r']);
        } else if c == '\t' {
            push_all(&mut out, &['\\', 't']);
        } else {
            push_char(&mut out, c);
        }
        proof {
            let t = v@.subrange(0, i + 1);
            assert(t.subrange(0, t.len() - 1) =~= v@.subrange(0, i as int));
            assert(t[t.len() - 1] == c);
            assert(out@ =~= before + toml_escape_char(c));
        }
        i = i + 1;
    }
    assert(v@.subrange(0, v@.len() as int) =~= s@);
    out
}

/// Escapes the XML special characters `& < > " '` as entities.
pub fn escape_xml(s: &str) -> (r: String)
    ensures
        r@ == xml_escaped(s@),
{
    let v = chars_of(s);
    let mut out = String::new();
    let mut i: usize = 0;
    while i < v.len()
        invariant
            i <= v.len(),
            out@ == xml_escaped(v@.subrange(0, i as int)),
        decreases v.len() - i,
    {
        let c = v[i];
        let ghost before = out@;
        if c == '&' {
            push_all(&mut out, &['&', 'a', 'm', 'p', ';']);
        } else if c == '<' {
            push_all(&mut out, &['&', 'l', 't', ';']);
        } else if c == '>' {
            push_all(&mut out, &['&', 'g', 't', ';']);
        } else if c == '"' {
            push_all(&mut out, &['&', 'q', 'u', 'o', 't', ';']);
        } else if c == '\'' {
            push_all(&mut out, &['&', 'a', 'p', 'o', 's', ';']);
        } else {
            push_char(&mut out, c);
        }
        proof {
            let t = v@.subrange(0, i + 1);
            assert(t.subrange(0, t.len() - 1) =~= v@.subrange(0, i as int));
            assert(t[t.len() - 1] == c);
            assert(out@ =~= before + xml_escape_char(c));
        }
        i = i + 1;
    }
    assert(v@.subrange(0, v@.len() as int) =~= s@);
    out
}

/// A character `escape_toml_string` rewrites.
pub open spec fn toml_special(c: char) -> bool {
    c == '\\' || c == '"' || c == '\n' || c == '\r' || c == '\t'
}

/// A character `escape_xml` rewrites.
pub open spec fn xml_special(c: char) -> bool {
    c == '&' || c == '<' || c == '>' || c == '"' || c == '\''
}

/// TOML escaping keeps a value on one line (no newline, carriage return or
/// tab is left in it) and leaves text without special characters as it is.
pub proof fn law_toml_escape(s: Seq<char>)
    ensures
        forall|i: int| 0 <= i < toml_escaped(s).len() ==> {
            let c = #[trigger] toml_escaped(s)[i];
            c != '\n' && c != '\r' && c != '\t'
        },
        (forall|i: int| 0 <= i < s.len() ==> !toml_special(#[trigger] s[i])) ==> toml_escaped(s) == s,
    decreases s.len(),
{
    if s.len() > 0 {
        let p = s.subrange(0, s.len() - 1);
        law_toml_escape(p);
        let e = toml_escaped(p);
        let t = toml_escape_char(s[s.len() - 1]);
        assert forall|i: int| 0 <= i < toml_escaped(s).len() implies {
            let c = #[trigger] toml_escaped(s)[i];
            c != '\n' && c != '\r' && c != '\t'
        } by {
            if i < e.len() {
                assert(toml_escaped(s)[i] == e[i]);
            } else {
                assert(toml_escaped(s)[i] == t[i - e.len()]);
            }
        }
        if forall|i: int| 0 <= i < s.len() ==> !toml_special(#[trigger] s[i]) {
            assert forall|i: int| 0 <= i < p.len() implies !toml_special(#[trigger] p[i]) by {
                assert(p[i] == s[i]);
            }
            assert(!toml_special(s[s.len() - 1]));
            assert(s =~= p.push(s[s.len() - 1]));
        }
    }
}

/// XML escaping leaves no `<`, `>`, `"` or `'` in the text, and leaves text
/// without special characters as it is.
pub proof fn law_xml_escape(s: Seq<char>)
    ensures
        forall|i: int| 0 <= i < xml_escaped(s).len() ==> {
            let c = #[trigger] xml_escaped(s)[i];
            c != '<' && c != '>' && c != '"' && c != '\''
        },
        (forall|i: int| 0 <= i < s.len() ==> !xml_special(#[trigger] s[i])) ==> xml_escaped(s) == s,
    decreases s.len(),
{
    if s.len() > 0 {
        let p = s.subrange(0, s.len() - 1);
        law_xml_escape(p);
        let e = xml_escaped(p);
        let t = xml_escape_char(s[s.len() - 1]);
        assert forall|i: int| 0 <= i < xml_escaped(s).len() implies {
            let c = #[trigger] xml_escaped(s)[i];
            c != '<' && c != '>' && c != '"' && c != '\''
        } by {
            if i < e.len() {
                assert(xml_escaped(s)[i] == e[i]);
            } else {
                assert(xml_escaped(s)[i] == t[i - e.len()]);
            }
        }
        if forall|i: int| 0 <= i < s.len() ==> !xml_special(#[trigger] s[i]) {
            assert forall|i: int| 0 <= i < p.len() implies !xml_special(#[trigger] p[i]) by {
                assert(p[i] == s[i]);
            }
            assert(!xml_special(s[s.len() - 1]));
            assert(s =~= p.push(s[s.len() - 1]));
        }
    }
}

} // verus!

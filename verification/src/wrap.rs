//! Word wrapping for the hint lines of the terminal prompts: words fill a
//! line up to a width counted in UTF-8 bytes, and a word longer than a line
//! is cut into chunks of that many bytes.

use vstd::prelude::*;
use vstd::utf8::{encode_utf8, valid_utf8, decode_utf8};
use crate::text::{chars_of, is_ws, is_whitespace, push_char, strings_view};
use crate::metrics::{ws_pieces, lemma_ws_pieces_step};

verus! {

/// What `String::from_utf8_lossy` makes of a byte sequence.
pub uninterp spec fn lossy_utf8(bytes: Seq<u8>) -> Seq<char>;

/// Calls `String::from_utf8_lossy`: the result depends on the bytes alone
/// and is named `lossy_utf8`; for valid UTF-8 it is the decoded text. How
/// invalid sequences are replaced is not stated.
#[verifier::external_body]
fn utf8_lossy(bytes: &[u8]) -> (r: String)
    ensures
        r@ == lossy_utf8(bytes@),
        valid_utf8(bytes@) ==> r@ == decode_utf8(bytes@),
{
    String::from_utf8_lossy(bytes).to_string()
}

/// The UTF-8 encoding of two texts one after the other is the encoding of
/// the first followed by that of the second.
pub proof fn lemma_encode_concat(a: Seq<char>, b: Seq<char>)
    ensures
        encode_utf8(a + b) == encode_utf8(a) + encode_utf8(b),
    decreases a.len(),
{
    if a.len() == 0 {
        assert(a + b =~= b);
        assert(encode_utf8(a) =~= Seq::<u8>::empty());
        assert(encode_utf8(a) + encode_utf8(b) =~= encode_utf8(b));
    } else {
        lemma_encode_concat(a.drop_first(), b);
        assert((a + b).drop_first() =~= a.drop_first() + b);
        assert((a + b)[0] == a[0]);
        assert(encode_utf8(a + b) =~= vstd::utf8::encode_scalar(a[0] as u32) + encode_utf8((a + b).drop_first()));
        assert(encode_utf8(a) =~= vstd::utf8::encode_scalar(a[0] as u32) + encode_utf8(a.drop_first()));
    }
}

/// A chunk of bytes read as text as `from_utf8_lossy` reads it: valid
/// UTF-8 is its decoded text; otherwise the lossy reading.
pub open spec fn chunk_text(b: Seq<u8>) -> Seq<char> {
    if valid_utf8(b) {
        decode_utf8(b)
    } else {
        lossy_utf8(b)
    }
}

/// Cuts `b` into pieces of `w` bytes (the last one shorter), each read as
/// text by `chunk_text`.
pub open spec fn chunks_spec(b: Seq<u8>, w: nat) -> Seq<Seq<char>>
    decreases b.len(),
{
    if w == 0 || b.len() == 0 {
        Seq::empty()
    } else if b.len() <= w {
        seq![chunk_text(b)]
    } else {
        seq![chunk_text(b.subrange(0, w as int))] + chunks_spec(b.subrange(w as int, b.len() as int), w)
    }
}

/// `s` cut into pieces of `w` characters (the last one shorter).
pub open spec fn char_chunks(s: Seq<char>, w: nat) -> Seq<Seq<char>>
    decreases s.len(),
{
    if w == 0 || s.len() == 0 {
        Seq::empty()
    } else if s.len() <= w {
        seq![s]
    } else {
        seq![s.subrange(0, w as int)] + char_chunks(s.subrange(w as int, s.len() as int), w)
    }
}

/// An ASCII word is cut into pieces of `w` of its own characters: each
/// chunk of its bytes reads back as exactly those characters.
pub proof fn law_ascii_chunks(word: Seq<char>, w: nat)
    requires
        vstd::utf8::is_ascii_chars(word),
    ensures
        chunks_spec(encode_utf8(word), w) == char_chunks(word, w),
    decreases word.len(),
{
    broadcast use vstd::utf8::encode_utf8_valid_utf8, vstd::utf8::encode_utf8_decode_utf8;

    let b = encode_utf8(word);
    vstd::utf8::is_ascii_chars_encode_utf8(word);
    if w == 0 || word.len() == 0 {
    } else if word.len() <= w {
    } else {
        let a = word.subrange(0, w as int);
        let c = word.subrange(w as int, word.len() as int);
        assert(word =~= a + c);
        assert(vstd::utf8::is_ascii_chars(a));
        assert(vstd::utf8::is_ascii_chars(c));
        vstd::utf8::is_ascii_chars_encode_utf8(a);
        lemma_encode_concat(a, c);
        assert(b.subrange(0, w as int) =~= encode_utf8(a));
        assert(b.subrange(w as int, b.len() as int) =~= encode_utf8(c));
        law_ascii_chunks(c, w);
    }
}

/// One word added to the lines so far (`out`) and the line being filled:
/// it goes on the current line when it fits after a space, else starts a
/// new line; a word wider than a line is cut into chunks of its own.
pub open spec fn wrap_word(st: (Seq<Seq<char>>, Seq<char>), word: Seq<char>, w: nat) -> (Seq<Seq<char>>, Seq<char>) {
    let wb = encode_utf8(word).len();
    let (out, line) = st;
    if line.len() == 0 {
        if wb <= w {
            (out, word)
        } else {
            (out + chunks_spec(encode_utf8(word), w), line)
        }
    } else if encode_utf8(line).len() + 1 + wb <= w {
        (out, line + seq![' '] + word)
    } else if wb <= w {
        (out.push(line), word)
    } else {
        (out.push(line) + chunks_spec(encode_utf8(word), w), Seq::empty())
    }
}

/// The words of the pieces (empty pieces skipped) wrapped in order.
pub open spec fn wrap_pieces(pieces: Seq<Seq<char>>, w: nat) -> (Seq<Seq<char>>, Seq<char>)
    decreases pieces.len(),
{
    if pieces.len() == 0 {
        (Seq::empty(), Seq::empty())
    } else {
        let st = wrap_pieces(pieces.drop_last(), w);
        let p = pieces.last();
        if p.len() == 0 {
            st
        } else {
            wrap_word(st, p, w)
        }
    }
}

/// The lines `input` wraps into at width `w`: its whitespace-separated
/// words filled into lines; a width of 0 leaves the text as one line, and
/// a text without words gives one empty line.
pub open spec fn wrap_text_spec(input: Seq<char>, w: nat) -> Seq<Seq<char>> {
    if w == 0 {
        seq![input]
    } else {
        let st = wrap_pieces(ws_pieces(input), w);
        let out = if st.1.len() > 0 {
            st.0.push(st.1)
        } else {
            st.0
        };
        if out.len() == 0 {
            seq![Seq::<char>::empty()]
        } else {
            out
        }
    }
}

fn push_chunks(out: &mut Vec<String>, word: &str, w: usize)
    requires
        w > 0,
    ensures
        strings_view(final(out)@) == strings_view(old(out)@) + chunks_spec(encode_utf8(word@), w as nat),
{
    let bytes = word.as_bytes();
    let ghost b = bytes@;
    assert(b == encode_utf8(word@));
    let n = bytes.len();
    let mut k: usize = 0;
    assert(b.subrange(0, n as int) =~= b);
    while k < n
        invariant
            w > 0,
            n == b.len(),
            bytes@ == b,
            b == encode_utf8(word@),
            k <= n,
            strings_view(out@) + chunks_spec(b.subrange(k as int, n as int), w as nat) == strings_view(old(out)@)
                + chunks_spec(b, w as nat),
        decreases n - k,
    {
        let end = if n - k <= w {
            n
        } else {
            k + w
        };
        let piece = vstd::slice::slice_subrange(bytes, k, end);
        let text = utf8_lossy(piece);
        let ghost before = strings_view(out@);
        out.push(text);
        proof {
            let rest = b.subrange(k as int, n as int);
            assert(strings_view(out@) =~= before.push(text@));
            if n - k <= w {
                assert(piece@ =~= rest);
                assert(chunks_spec(rest, w as nat) == seq![chunk_text(rest)]);
                assert(b.subrange(end as int, n as int) =~= Seq::<u8>::empty());
            } else {
                assert(piece@ =~= rest.subrange(0, w as int));
                assert(rest.subrange(w as int, rest.len() as int) =~= b.subrange(end as int, n as int));
            }
            assert(before + chunks_spec(rest, w as nat) =~= strings_view(out@) + chunks_spec(
                b.subrange(end as int, n as int),
                w as nat,
            ));
        }
        k = end;
    }
    assert(b.subrange(n as int, n as int) =~= Seq::<u8>::empty());
    assert(strings_view(out@) + Seq::<Seq<char>>::empty() =~= strings_view(out@));
}

fn add_word(out: &mut Vec<String>, line: &mut String, word: &String, w: usize)
    requires
        w > 0,
        encode_utf8(old(line)@).len() <= w,
        encode_utf8(word@).len() <= usize::MAX,
        word@.len() > 0,
    ensures
        (strings_view(final(out)@), final(line)@) == wrap_word((strings_view(old(out)@), old(line)@), word@, w as nat),
        encode_utf8(final(line)@).len() <= w,
{
    let wb = word.as_str().len();
    let lb = line.as_str().len();
    if line.as_str().unicode_len() == 0 {
        if wb <= w {
            *line = String::from_str(word.as_str());
        } else {
            push_chunks(out, word.as_str(), w);
        }
        return;
    }
    let fits = lb < w && wb <= w - lb - 1;
    if fits {
        line.append(" ");
        line.append(word.as_str());
        proof {
            lemma_encode_concat(old(line)@ + seq![' '], word@);
            lemma_encode_concat(old(line)@, seq![' ']);
            assert(" "@ == seq![' ']) by {
                reveal_strlit(" ");
            }
            assert(encode_utf8(seq![' ']).len() == 1) by {
                assert(vstd::utf8::is_ascii_chars(seq![' ']));
                vstd::utf8::is_ascii_chars_encode_utf8(seq![' ']);
            }
        }
    } else {
        let full = String::from_str(line.as_str());
        out.push(full);
        if wb <= w {
            *line = String::from_str(word.as_str());
        } else {
            *line = String::new();
            push_chunks(out, word.as_str(), w);
            proof {
                assert(encode_utf8(Seq::<char>::empty()) =~= Seq::<u8>::empty());
            }
        }
    }
}

proof fn lemma_slice_bytes(s: Seq<char>, a: int, b: int)
    requires
        0 <= a <= b <= s.len(),
    ensures
        encode_utf8(s.subrange(a, b)).len() <= encode_utf8(s).len(),
{
    assert(s =~= s.subrange(0, a) + s.subrange(a, b) + s.subrange(b, s.len() as int));
    lemma_encode_concat(s.subrange(0, a) + s.subrange(a, b), s.subrange(b, s.len() as int));
    lemma_encode_concat(s.subrange(0, a), s.subrange(a, b));
}

proof fn lemma_wrap_step(s: Seq<char>, i: int, w: nat)
    requires
        0 <= i < s.len(),
    ensures
        is_ws(s[i]) ==> ws_pieces(s.subrange(0, i + 1)).drop_last() == ws_pieces(s.subrange(0, i)),
        is_ws(s[i]) ==> ws_pieces(s.subrange(0, i + 1)).last() == Seq::<char>::empty(),
        !is_ws(s[i]) ==> ws_pieces(s.subrange(0, i + 1)).drop_last() == ws_pieces(s.subrange(0, i)).drop_last(),
        !is_ws(s[i]) ==> ws_pieces(s.subrange(0, i + 1)).last() == ws_pieces(s.subrange(0, i)).last().push(s[i]),
{
    lemma_ws_pieces_step(s, i);
    crate::metrics::lemma_ws_pieces_nonempty(s.subrange(0, i));
    let p = ws_pieces(s.subrange(0, i));
    if is_ws(s[i]) {
        assert(p.push(Seq::<char>::empty()).drop_last() =~= p);
    } else {
        let q = p.update(p.len() - 1, p[p.len() - 1].push(s[i]));
        assert(q.drop_last() =~= p.drop_last());
    }
}

proof fn lemma_wrap_pieces_last(pieces: Seq<Seq<char>>, w: nat)
    requires
        pieces.len() >= 1,
    ensures
        wrap_pieces(pieces, w) == (if pieces.last().len() == 0 {
            wrap_pieces(pieces.drop_last(), w)
        } else {
            wrap_word(wrap_pieces(pieces.drop_last(), w), pieces.last(), w)
        }),
{
}

/// Wraps `input` into lines of at most `max_width` bytes, cutting words
/// that are wider than a line.
#[verifier::spinoff_prover]
pub fn wrap_text(input: &str, max_width: usize) -> (r: Vec<String>)
    ensures
        strings_view(r@) == wrap_text_spec(input@, max_width as nat),
{
    if max_width == 0 {
        let v = vec![String::from_str(input)];
        assert(strings_view(v@) =~= seq![input@]);
        return v;
    }
    let byte_len = input.as_bytes().len();
    assert(encode_utf8(input@).len() == byte_len);
    let w = max_width;
    let v = chars_of(input);
    let mut out: Vec<String> = Vec::new();
    let mut line = String::new();
    let mut cur = String::new();
    let mut start: usize = 0;
    let mut i: usize = 0;
    proof {
        assert(v@.subrange(0, 0) =~= Seq::<char>::empty());
        assert(encode_utf8(Seq::<char>::empty()) =~= Seq::<u8>::empty());
        assert(strings_view(out@) =~= Seq::<Seq<char>>::empty());
        assert(ws_pieces(Seq::<char>::empty()).drop_last() =~= Seq::<Seq<char>>::empty());
    }
    while i < v.len()
        invariant
            w == max_width > 0,
            v@ == input@,
            encode_utf8(input@).len() <= usize::MAX,
            start <= i <= v.len(),
            cur@ == v@.subrange(start as int, i as int),
            cur@ == ws_pieces(v@.subrange(0, i as int)).last(),
            (strings_view(out@), line@) == wrap_pieces(ws_pieces(v@.subrange(0, i as int)).drop_last(), w as nat),
            encode_utf8(line@).len() <= w,
        decreases v.len() - i,
    {
        let c = v[i];
        proof {
            lemma_wrap_step(v@, i as int, w as nat);
            crate::metrics::lemma_ws_pieces_nonempty(v@.subrange(0, i as int));
            lemma_wrap_pieces_last(ws_pieces(v@.subrange(0, i as int)), w as nat);
        }
        if is_whitespace(c) {
            if cur.as_str().unicode_len() > 0 {
                proof {
                    lemma_slice_bytes(v@, start as int, i as int);
                }
                add_word(&mut out, &mut line, &cur, w);
            }
            cur = String::new();
            start = i + 1;
            proof {
                assert(v@.subrange(start as int, (i + 1) as int) =~= Seq::<char>::empty());
            }
        } else {
            push_char(&mut cur, c);
            proof {
                assert(v@.subrange(start as int, i + 1) =~= v@.subrange(start as int, i as int).push(c));
            }
        }
        i = i + 1;
    }
    proof {
        crate::metrics::lemma_ws_pieces_nonempty(v@);
        assert(v@.subrange(0, v@.len() as int) =~= v@);
        lemma_wrap_pieces_last(ws_pieces(v@), w as nat);
    }
    if cur.as_str().unicode_len() > 0 {
        proof {
            lemma_slice_bytes(v@, start as int, i as int);
        }
        add_word(&mut out, &mut line, &cur, w);
    }
    if line.as_str().unicode_len() > 0 {
        out.push(line);
    }
    if out.len() == 0 {
        out.push(String::new());
        assert(strings_view(out@) =~= seq![Seq::<char>::empty()]);
    }
    out
}

/// Lines of ASCII text, each of 1 to `w` characters (bytes).
pub open spec fn ascii_lines_within(lines: Seq<Seq<char>>, w: nat) -> bool {
    forall|i: int|
        0 <= i < lines.len() ==> 1 <= (#[trigger] lines[i]).len() <= w && vstd::utf8::is_ascii_chars(lines[i])
}

proof fn lemma_char_chunks_within(s: Seq<char>, w: nat)
    requires
        vstd::utf8::is_ascii_chars(s),
    ensures
        ascii_lines_within(char_chunks(s, w), w),
    decreases s.len(),
{
    if w > 0 && s.len() > w {
        let c = s.subrange(w as int, s.len() as int);
        assert(vstd::utf8::is_ascii_chars(c));
        assert(vstd::utf8::is_ascii_chars(s.subrange(0, w as int)));
        lemma_char_chunks_within(c, w);
        let r = char_chunks(s, w);
        assert forall|i: int| 0 <= i < r.len() implies 1 <= (#[trigger] r[i]).len() <= w
            && vstd::utf8::is_ascii_chars(r[i]) by {
            if i > 0 {
                assert(r[i] == char_chunks(c, w)[i - 1]);
            }
        }
    }
}

proof fn lemma_ws_pieces_ascii(s: Seq<char>)
    requires
        vstd::utf8::is_ascii_chars(s),
    ensures
        forall|k: int| 0 <= k < ws_pieces(s).len() ==> vstd::utf8::is_ascii_chars(#[trigger] ws_pieces(s)[k]),
    decreases s.len(),
{
    if s.len() > 0 {
        let t = s.subrange(0, s.len() - 1);
        assert(vstd::utf8::is_ascii_chars(t));
        lemma_ws_pieces_ascii(t);
        crate::metrics::lemma_ws_pieces_nonempty(t);
    }
}

proof fn lemma_wrap_pieces_within(pieces: Seq<Seq<char>>, w: nat)
    requires
        w > 0,
        forall|k: int| 0 <= k < pieces.len() ==> vstd::utf8::is_ascii_chars(#[trigger] pieces[k]),
    ensures
        ascii_lines_within(wrap_pieces(pieces, w).0, w),
        wrap_pieces(pieces, w).1.len() <= w,
        vstd::utf8::is_ascii_chars(wrap_pieces(pieces, w).1),
    decreases pieces.len(),
{
    if pieces.len() > 0 {
        let rest = pieces.drop_last();
        assert forall|k: int| 0 <= k < rest.len() implies vstd::utf8::is_ascii_chars(#[trigger] rest[k]) by {
            assert(rest[k] == pieces[k]);
        }
        lemma_wrap_pieces_within(rest, w);
        let p = pieces.last();
        assert(vstd::utf8::is_ascii_chars(p));
        if p.len() > 0 {
            let (out, line) = wrap_pieces(rest, w);
            vstd::utf8::is_ascii_chars_encode_utf8(p);
            vstd::utf8::is_ascii_chars_encode_utf8(line);
            law_ascii_chunks(p, w);
            lemma_char_chunks_within(p, w);
            let joined = line + seq![' '] + p;
            assert(vstd::utf8::is_ascii_chars(joined)) by {
                assert forall|i: int| 0 <= i < joined.len() implies '\0' <= #[trigger] joined[i] <= '\u{7f}' by {
                    if i < line.len() {
                        assert(joined[i] == line[i]);
                    } else if i == line.len() {
                    } else {
                        assert(joined[i] == p[i - line.len() - 1]);
                    }
                }
            }
            let ch = char_chunks(p, w);
            let st = wrap_word((out, line), p, w);
            assert(ascii_lines_within(st.0, w)) by {
                assert forall|i: int| 0 <= i < st.0.len() implies 1 <= (#[trigger] st.0[i]).len() <= w
                    && vstd::utf8::is_ascii_chars(st.0[i]) by {
                    if line.len() == 0 {
                        if encode_utf8(p).len() > w {
                            if i >= out.len() {
                                assert(st.0[i] == ch[i - out.len()]);
                            } else {
                                assert(st.0[i] == out[i]);
                            }
                        }
                    } else if encode_utf8(line).len() + 1 + encode_utf8(p).len() <= w {
                    } else if encode_utf8(p).len() <= w {
                        if i < out.len() {
                            assert(st.0[i] == out[i]);
                        }
                    } else {
                        if i < out.len() {
                            assert(st.0[i] == out[i]);
                        } else if i > out.len() {
                            assert(st.0[i] == ch[i - out.len() - 1]);
                        }
                    }
                }
            }
        }
    }
}

/// Wrapping ASCII text at a width `w > 0` gives either one empty line (the
/// text has no words) or lines of 1 to `w` characters, which for ASCII text
/// are also 1 to `w` bytes.
pub proof fn law_wrap_ascii_widths(input: Seq<char>, w: nat)
    requires
        vstd::utf8::is_ascii_chars(input),
        w > 0,
    ensures
        wrap_text_spec(input, w) == seq![Seq::<char>::empty()] || ascii_lines_within(wrap_text_spec(input, w), w),
{
    lemma_ws_pieces_ascii(input);
    lemma_wrap_pieces_within(ws_pieces(input), w);
    let st = wrap_pieces(ws_pieces(input), w);
    if st.1.len() > 0 {
        let out = st.0.push(st.1);
        assert forall|i: int| 0 <= i < out.len() implies 1 <= (#[trigger] out[i]).len() <= w
            && vstd::utf8::is_ascii_chars(out[i]) by {
            if i < st.0.len() {
                assert(out[i] == st.0[i]);
            }
        }
    }
}

} // verus!

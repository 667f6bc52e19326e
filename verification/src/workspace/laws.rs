//! What loading gives back of a save: the bytes that saving writes read back
//! as the text that was saved, with the note's byte order mark and, where the
//! text has a line break, its line endings.
use vstd::prelude::*;
use vstd::utf8::*;

use super::files::{
    adjusted_text, crlf_to_lf, decoded, encoded, ends_with_newline, has_crlf, has_zero_byte,
    lf_to_crlf, starts_with_bom, utf8_bom, without_bom, without_final_newlines, DecodeFailure,
    DecodedView, NewlineStyle,
};

verus! {

/// No character of `s` is `c`.
pub open spec fn lacks(s: Seq<char>, c: char) -> bool {
    forall|i: int| 0 <= i < s.len() ==> s[i] != c
}

/// Some character of `s` is `c`.
pub open spec fn holds_char(s: Seq<char>, c: char) -> bool {
    exists|i: int| 0 <= i < s.len() && s[i] == c
}

/// A text without `\r\n` has none after its first character either.
proof fn lemma_no_crlf_rest(s: Seq<char>)
    requires
        s.len() > 0,
        !has_crlf(s),
    ensures
        !has_crlf(s.skip(1)),
{
    let rest = s.skip(1);
    if has_crlf(rest) {
        let i = choose|i: int| 0 <= i && i + 1 < rest.len() && #[trigger] rest[i] == '\r' && rest[i + 1] == '\n';
        assert(s[i + 1] == '\r' && s[i + 2] == '\n');
    }
}

proof fn lemma_crlf_to_lf_identity(s: Seq<char>)
    requires
        !has_crlf(s),
    ensures
        crlf_to_lf(s) == s,
    decreases s.len(),
{
    if s.len() > 0 {
        lemma_no_crlf_rest(s);
        lemma_crlf_to_lf_identity(s.skip(1));
        assert(seq![s[0]] + s.skip(1) =~= s);
        if s.len() >= 2 && s[0] == '\r' {
            assert(s[1] != '\n');
        }
    }
}

proof fn lemma_lf_to_crlf_identity(s: Seq<char>)
    requires
        lacks(s, '\n'),
    ensures
        lf_to_crlf(s) == s,
    decreases s.len(),
{
    if s.len() > 0 {
        lemma_lf_to_crlf_identity(s.skip(1));
        assert(seq![s[0]] + s.skip(1) =~= s);
    }
}

proof fn lemma_crlf_round_trip(t: Seq<char>)
    requires
        !has_crlf(t),
    ensures
        crlf_to_lf(lf_to_crlf(t)) == t,
        has_crlf(lf_to_crlf(t)) == holds_char(t, '\n'),
        ends_with_newline(lf_to_crlf(t)) == ends_with_newline(t),
        lf_to_crlf(t).len() >= t.len(),
        lacks(t, '\0') ==> lacks(lf_to_crlf(t), '\0'),
        t.len() > 0 ==> lf_to_crlf(t)[0] == (if t[0] == '\n' { '\r' } else { t[0] }),
    decreases t.len(),
{
    if t.len() > 0 {
        let rest = t.skip(1);
        lemma_no_crlf_rest(t);
        lemma_crlf_round_trip(rest);
        let lr = lf_to_crlf(rest);
        if t[0] == '\n' {
            let l = seq!['\r', '\n'] + lr;
            assert(l.skip(2) =~= lr);
            assert(seq!['\n'] + rest =~= t);
            assert(has_crlf(l)) by {
                assert(l[0] == '\r' && l[1] == '\n');
            }
            assert(holds_char(t, '\n')) by {
                assert(t[0] == '\n');
            }
            if rest.len() > 0 {
                assert(l.last() == lr.last());
            }
            assert(lacks(t, '\0') ==> lacks(l, '\0')) by {
                if lacks(t, '\0') {
                    assert forall|i: int| 0 <= i < l.len() implies l[i] != '\0' by {
                        if i >= 2 {
                            assert(l[i] == lr[i - 2]);
                            assert forall|j: int| 0 <= j < rest.len() implies rest[j] != '\0' by {
                                assert(rest[j] == t[j + 1]);
                            }
                        }
                    }
                }
            }
        } else {
            let l = seq![t[0]] + lr;
            assert(l.skip(1) =~= lr);
            assert(seq![t[0]] + rest =~= t);
            if rest.len() > 0 {
                assert(l[1] == lr[0] && lr[0] != '\n');
            }
            assert(has_crlf(l) == has_crlf(lr)) by {
                if has_crlf(l) {
                    let i = choose|i: int|
                        0 <= i && i + 1 < l.len() && #[trigger] l[i] == '\r' && l[i + 1] == '\n';
                    assert(i != 0);
                    assert(lr[i - 1] == '\r' && lr[i] == '\n');
                }
                if has_crlf(lr) {
                    let i = choose|i: int|
                        0 <= i && i + 1 < lr.len() && #[trigger] lr[i] == '\r' && lr[i + 1] == '\n';
                    assert(l[i + 1] == '\r' && l[i + 2] == '\n');
                }
            }
            assert(holds_char(t, '\n') == holds_char(rest, '\n')) by {
                if holds_char(t, '\n') {
                    let i = choose|i: int| 0 <= i < t.len() && t[i] == '\n';
                    assert(rest[i - 1] == '\n');
                }
                if holds_char(rest, '\n') {
                    let i = choose|i: int| 0 <= i < rest.len() && rest[i] == '\n';
                    assert(t[i + 1] == '\n');
                }
            }
            if rest.len() > 0 {
                assert(l.last() == lr.last());
            }
            assert(lacks(t, '\0') ==> lacks(l, '\0')) by {
                if lacks(t, '\0') {
                    assert forall|j: int| 0 <= j < rest.len() implies rest[j] != '\0' by {
                        assert(rest[j] == t[j + 1]);
                    }
                    assert forall|i: int| 0 <= i < l.len() implies l[i] != '\0' by {
                        if i >= 1 {
                            assert(l[i] == lr[i - 1]);
                        }
                    }
                }
            }
        }
    } else {
        assert(!holds_char(t, '\n'));
        assert(!has_crlf(lf_to_crlf(t)));
    }
}

proof fn lemma_no_cr_no_crlf(s: Seq<char>)
    requires
        lacks(s, '\r'),
    ensures
        !has_crlf(s),
{
    if has_crlf(s) {
        let i = choose|i: int| 0 <= i && i + 1 < s.len() && #[trigger] s[i] == '\r' && s[i + 1] == '\n';
        assert(s[i] != '\r');
    }
}

proof fn lemma_without_final_newlines_prefix(s: Seq<char>)
    ensures
        without_final_newlines(s).len() <= s.len(),
        without_final_newlines(s) == s.take(without_final_newlines(s).len() as int),
        !ends_with_newline(without_final_newlines(s)),
    decreases s.len(),
{
    if ends_with_newline(s) {
        lemma_without_final_newlines_prefix(s.drop_last());
        let w = without_final_newlines(s.drop_last());
        assert(s.drop_last().take(w.len() as int) =~= s.take(w.len() as int));
    } else {
        assert(s.take(s.len() as int) =~= s);
    }
}

/// The adjusted text keeps what the content lacks and starts as it does.
proof fn lemma_adjusted(saved: bool, final_newline: bool, content: Seq<char>)
    requires
        lacks(content, '\r'),
        lacks(content, '\0'),
    ensures
        lacks(adjusted_text(saved, final_newline, content), '\r'),
        lacks(adjusted_text(saved, final_newline, content), '\0'),
        adjusted_text(saved, final_newline, content).len() > 0 ==> (adjusted_text(
            saved,
            final_newline,
            content,
        )[0] == '\n' || (content.len() > 0 && adjusted_text(saved, final_newline, content)[0]
            == content[0])),
{
    lemma_no_cr_no_crlf(content);
    lemma_crlf_to_lf_identity(content);
    let a = adjusted_text(saved, final_newline, content);
    if saved {
        if final_newline {
            if !ends_with_newline(content) {
                assert forall|i: int| 0 <= i < a.len() implies a[i] != '\r' && a[i] != '\0' by {
                    if i < content.len() {
                        assert(a[i] == content[i]);
                    }
                }
            }
        } else {
            lemma_without_final_newlines_prefix(content);
            assert forall|i: int| 0 <= i < a.len() implies a[i] == content[i] by {}
        }
    }
}

/// A character other than NUL encodes to bytes none of which is zero.
proof fn lemma_scalar_nonzero(c: char)
    requires
        c != '\0',
    ensures
        !has_zero_byte(encode_scalar(c as u32)),
{
    let v = c as u32;
    assert(is_scalar(v)) by {
        char_is_scalar(c);
    }
    assert(v != 0);
    let e = encode_scalar(v);
    if has_width_1_encoding(v) {
        assert((v & 0x7F) as u8 != 0) by (bit_vector)
            requires
                0 < v <= 0x7F,
        ;
        assert(e[0] != 0);
    } else {
        let a = leading_byte_width_2(v);
        let b = leading_byte_width_3(v);
        let d = leading_byte_width_4(v);
        let x = last_continuation_byte(v);
        let y = second_last_continuation_byte(v);
        let z = third_last_continuation_byte(v);
        assert(a != 0 && b != 0 && d != 0 && x != 0 && y != 0 && z != 0) by (bit_vector)
            requires
                a == 0xC0 | ((v >> 6) & 0x1F) as u8,
                b == 0xE0 | ((v >> 12) & 0x0F) as u8,
                d == 0xF0 | ((v >> 18) & 0x7) as u8,
                x == 0x80 | (v & 0x3F) as u8,
                y == 0x80 | ((v >> 6) & 0x3F) as u8,
                z == 0x80 | ((v >> 12) & 0x3F) as u8,
        ;
    }
    assert forall|i: int| 0 <= i < e.len() implies e[i] != 0 by {}
}

/// Text without NUL encodes to bytes none of which is zero.
proof fn lemma_encode_nonzero(s: Seq<char>)
    requires
        lacks(s, '\0'),
    ensures
        !has_zero_byte(encode_utf8(s)),
    decreases s.len(),
{
    if s.len() > 0 {
        let rest = s.drop_first();
        assert forall|i: int| 0 <= i < rest.len() implies rest[i] != '\0' by {
            assert(rest[i] == s[i + 1]);
        }
        lemma_encode_nonzero(rest);
        lemma_scalar_nonzero(s[0]);
        let a = encode_scalar(s[0] as u32);
        let b = encode_utf8(rest);
        assert forall|i: int| 0 <= i < (a + b).len() implies (a + b)[i] != 0 by {
            if i >= a.len() {
                assert((a + b)[i] == b[i - a.len()]);
            }
        }
    }
}

/// Only the zero-width no-break space encodes to the bytes of a byte order mark.
proof fn lemma_no_bom(s: Seq<char>)
    requires
        s.len() > 0 ==> s[0] != '\u{FEFF}',
    ensures
        !starts_with_bom(encode_utf8(s)),
{
    if s.len() > 0 {
        let c = s[0];
        let v = c as u32;
        assert(is_scalar(v)) by {
            char_is_scalar(c);
        }
        let e = encode_scalar(v);
        let b = encode_utf8(s);
        assert(b == e + encode_utf8(s.drop_first()));
        if has_width_1_encoding(v) {
            assert(e[0] == (v & 0x7F) as u8);
            assert((v & 0x7F) as u8 != 0xEF) by (bit_vector)
                requires
                    v <= 0x7F,
            ;
        } else if has_width_2_encoding(v) {
            let a = leading_byte_width_2(v);
            assert(a != 0xEF) by (bit_vector)
                requires
                    a == 0xC0 | ((v >> 6) & 0x1F) as u8,
            ;
        } else if has_width_3_encoding(v) {
            let a = leading_byte_width_3(v);
            let y = second_last_continuation_byte(v);
            let x = last_continuation_byte(v);
            assert(v != 0xFEFF) by {
                if v == 0xFEFF {
                    char_u32_cast(c, v);
                    char_u32_cast('\u{FEFF}', 0xFEFF);
                }
            }
            assert(!(a == 0xEF && y == 0xBB && x == 0xBF)) by (bit_vector)
                requires
                    a == 0xE0 | ((v >> 12) & 0x0F) as u8,
                    y == 0x80 | ((v >> 6) & 0x3F) as u8,
                    x == 0x80 | (v & 0x3F) as u8,
                    v != 0xFEFF,
                    v <= 0xFFFF,
            ;
            assert(b[0] == a && b[1] == y && b[2] == x);
        } else {
            let a = leading_byte_width_4(v);
            assert(a != 0xEF) by (bit_vector)
                requires
                    a == 0xF0 | ((v >> 18) & 0x7) as u8,
            ;
        }
    }
}

/// What saving writes loads back: for content without `\r` or NUL (and, when
/// the note has no byte order mark, not starting with U+FEFF), the bytes that
/// saving writes read back as the saved text (adjusted for the note's final
/// newline), with the note's byte order mark, and with its line endings
/// whenever the saved text has a line break (a text without one reads back as
/// `\n`-style).
pub proof fn law_load_reads_back_save(
    saved: bool,
    final_newline: bool,
    style: NewlineStyle,
    bom: bool,
    content: Seq<char>,
)
    requires
        lacks(content, '\r'),
        lacks(content, '\0'),
        !bom ==> (content.len() > 0 ==> content[0] != '\u{FEFF}'),
    ensures
        decoded(encoded(saved, final_newline, style, bom, content)) == Ok::<
            DecodedView,
            DecodeFailure,
        >(
            DecodedView {
                text: adjusted_text(saved, final_newline, content),
                has_bom: bom,
                newline_style: if style == NewlineStyle::CrLf && holds_char(
                    adjusted_text(saved, final_newline, content),
                    '\n',
                ) {
                    NewlineStyle::CrLf
                } else {
                    NewlineStyle::Lf
                },
                had_final_newline: ends_with_newline(adjusted_text(saved, final_newline, content)),
            },
        ),
{
    broadcast use encode_utf8_decode_utf8, encode_utf8_valid_utf8;

    let a = adjusted_text(saved, final_newline, content);
    lemma_adjusted(saved, final_newline, content);
    lemma_no_cr_no_crlf(a);
    lemma_crlf_round_trip(a);
    let e = match style {
        NewlineStyle::Lf => a,
        NewlineStyle::CrLf => lf_to_crlf(a),
    };
    let prefix: Seq<u8> = if bom { utf8_bom() } else { Seq::empty() };
    let bytes = encoded(saved, final_newline, style, bom, content);
    assert(bytes == prefix + encode_utf8(e));
    assert(lacks(e, '\0'));
    lemma_encode_nonzero(e);
    assert(!has_zero_byte(bytes)) by {
        assert forall|i: int| 0 <= i < bytes.len() implies bytes[i] != 0 by {
            if i >= prefix.len() {
                assert(bytes[i] == encode_utf8(e)[i - prefix.len()]);
            }
        }
    }
    if bom {
        assert(starts_with_bom(bytes));
        assert(without_bom(bytes) =~= encode_utf8(e));
    } else {
        assert(bytes =~= encode_utf8(e));
        assert(e.len() > 0 ==> e[0] != '\u{FEFF}');
        lemma_no_bom(e);
    }
    assert(without_bom(bytes) == encode_utf8(e));
    assert(decode_utf8(without_bom(bytes)) == e);
    match style {
        NewlineStyle::Lf => {
            lemma_no_cr_no_crlf(a);
        },
        NewlineStyle::CrLf => {
            if !holds_char(a, '\n') {
                assert(lacks(a, '\n'));
                lemma_lf_to_crlf_identity(a);
            }
        },
    }
}

/// Saving a note unchanged writes back the bytes it was loaded from: when the
/// loaded text holds no `\r\n` (so for every note with `\n` line endings,
/// lone `\r`s included, and for every `\r\n` note that had no `\r\r\n`),
/// encoding it with the note's final newline, line endings and byte order mark
/// gives the bytes that were read.
pub proof fn law_unchanged_save_writes_the_loaded_bytes(b: Seq<u8>, t: Seq<char>, crlf: bool)
    requires
        !has_zero_byte(b),
        valid_utf8(without_bom(b)),
        !has_crlf(t),
        decode_utf8(without_bom(b)) == (if crlf {
            lf_to_crlf(t)
        } else {
            t
        }),
        crlf ==> holds_char(t, '\n'),
    ensures
        decoded(b) matches Ok(d) && d.text == t && encoded(
            true,
            d.had_final_newline,
            d.newline_style,
            d.has_bom,
            d.text,
        ) == b,
{
    let wb = without_bom(b);
    let r = decode_utf8(wb);
    decode_utf8_encode_utf8(wb);
    lemma_crlf_to_lf_identity(t);
    if crlf {
        lemma_crlf_round_trip(t);
    }
    let d = decoded(b)->Ok_0;
    assert(d.text == t);
    assert(d.had_final_newline == ends_with_newline(t));
    if !ends_with_newline(t) {
        assert(without_final_newlines(t) == t);
    }
    assert(adjusted_text(true, d.had_final_newline, t) == t);
    if starts_with_bom(b) {
        assert(utf8_bom() + b.skip(3) =~= b);
    } else {
        assert(Seq::<u8>::empty() + b =~= b);
    }
}

} // verus!

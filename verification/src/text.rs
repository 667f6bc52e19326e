//! Conversions between strings and character vectors, and the UTF-8 length of
//! character sequences.
use vstd::prelude::*;
use vstd::utf8::*;

verus! {

/// `str::chars` collected: the characters of a string.
#[verifier::external_body]
pub(crate) fn chars_of(text: &str) -> (chars: Vec<char>)
    ensures
        chars@ == text@,
{
    text.chars().collect()
}

/// A string made of the given characters.
#[verifier::external_body]
pub(crate) fn string_of(chars: &[char]) -> (text: String)
    ensures
        text@ == chars@,
{
    chars.iter().collect()
}

/// The number of bytes that UTF-8 takes for one character.
pub fn utf8_width(c: char) -> (width: usize)
    ensures
        width == encode_scalar(c as u32).len(),
        1 <= width <= 4,
{
    let v = c as u32;
    if v <= 0x7f {
        1
    } else if v <= 0x7ff {
        2
    } else if v <= 0xffff {
        3
    } else {
        4
    }
}

/// The UTF-8 encoding of two sequences put together is the two encodings put together.
pub proof fn lemma_encode_utf8_append(a: Seq<char>, b: Seq<char>)
    ensures
        encode_utf8(a + b) == encode_utf8(a) + encode_utf8(b),
    decreases a.len(),
{
    if a.len() == 0 {
        assert(a + b =~= b);
    } else {
        assert((a + b).drop_first() =~= a.drop_first() + b);
        lemma_encode_utf8_append(a.drop_first(), b);
    }
}

/// The encoded length of a prefix grows by the width of the next character.
pub proof fn lemma_encode_prefix_step(s: Seq<char>, k: int)
    requires
        0 <= k < s.len(),
    ensures
        encode_utf8(s.take(k + 1)).len() == encode_utf8(s.take(k)).len() + encode_scalar(
            s[k] as u32,
        ).len(),
{
    assert(s.take(k + 1) =~= s.take(k) + seq![s[k]]);
    lemma_encode_utf8_append(s.take(k), seq![s[k]]);
    assert(seq![s[k]].drop_first() =~= Seq::<char>::empty());
    assert(encode_utf8(Seq::<char>::empty()) =~= Seq::<u8>::empty());
    assert(encode_utf8(seq![s[k]]) =~= encode_scalar(s[k] as u32));
}

/// Encoded prefix lengths strictly grow with the prefix.
pub proof fn lemma_encode_prefix_strict(s: Seq<char>, j: int, k: int)
    requires
        0 <= j < k <= s.len(),
    ensures
        encode_utf8(s.take(j)).len() < encode_utf8(s.take(k)).len(),
    decreases k - j,
{
    lemma_encode_prefix_step(s, k - 1);
    if j < k - 1 {
        lemma_encode_prefix_strict(s, j, k - 1);
    }
}

/// The character index at which a byte offset falls in the UTF-8 encoding of a
/// text, when the offset is a character boundary.
pub open spec fn char_index_of_byte(text: Seq<char>, offset: int) -> int {
    choose|k: int| 0 <= k <= text.len() && encode_utf8(text.take(k)).len() == offset
}

/// Finds the character index at which a byte offset starts.
pub fn char_index_at_byte(text: &Vec<char>, offset: usize) -> (index: usize)
    requires
        exists|k: int| 0 <= k <= text@.len() && encode_utf8(text@.take(k)).len() == offset,
    ensures
        index <= text@.len(),
        encode_utf8(text@.take(index as int)).len() == offset,
        index == char_index_of_byte(text@, offset as int),
{
    let ghost witness = choose|k: int|
        0 <= k <= text@.len() && encode_utf8(text@.take(k)).len() == offset;
    let len = text.len();
    let mut index: usize = 0;
    let mut bytes: usize = 0;
    assert(text@.take(0) =~= Seq::<char>::empty());
    while bytes < offset
        invariant
            index <= text@.len(),
            len == text@.len(),
            bytes == encode_utf8(text@.take(index as int)).len(),
            0 <= witness <= text@.len(),
            encode_utf8(text@.take(witness)).len() == offset,
            index <= witness,
        decreases offset - bytes,
    {
        proof {
            assert(index < witness);
            assert(index < text@.len());
            lemma_encode_prefix_step(text@, index as int);
            if index + 1 < witness {
                lemma_encode_prefix_strict(text@, index + 1, witness);
            }
        }
        bytes = bytes + utf8_width(text[index]);
        index = index + 1;
    }
    proof {
        if index < witness {
            lemma_encode_prefix_strict(text@, index as int, witness);
        }
    }
    assert(index == witness);
    proof {
        let c = char_index_of_byte(text@, offset as int);
        if c < witness {
            lemma_encode_prefix_strict(text@, c, witness);
        } else if c > witness {
            lemma_encode_prefix_strict(text@, witness, c);
        }
    }
    index
}


/// Whether two strings hold the same characters.
pub fn same_text(a: &str, b: &str) -> (same: bool)
    ensures
        same == (a@ == b@),
{
    let x = chars_of(a);
    let y = chars_of(b);
    if x.len() != y.len() {
        return false;
    }
    let mut i: usize = 0;
    while i < x.len()
        invariant
            x@ == a@,
            y@ == b@,
            x@.len() == y@.len(),
            i <= x@.len(),
            forall|k: int| 0 <= k < i ==> x@[k] == y@[k],
        decreases x@.len() - i,
    {
        if x[i] != y[i] {
            return false;
        }
        i = i + 1;
    }
    assert(x@ =~= y@);
    true
}

/// Appends the characters of `s`.
pub fn append(out: &mut Vec<char>, s: &str)
    ensures
        final(out)@ == old(out)@ + s@,
{
    let cs = chars_of(s);
    let ghost before = out@;
    let mut j: usize = 0;
    while j < cs.len()
        invariant
            j <= cs@.len(),
            cs@ == s@,
            out@ == before + cs@.take(j as int),
        decreases cs@.len() - j,
    {
        out.push(cs[j]);
        j = j + 1;
        assert(out@ =~= before + cs@.take(j as int));
    }
    assert(cs@.take(cs@.len() as int) =~= cs@);
}

/// `a` followed by `b`.
pub fn concat(a: &str, b: &str) -> (text: String)
    ensures
        text@ == a@ + b@,
{
    let mut out: Vec<char> = Vec::new();
    append(&mut out, a);
    append(&mut out, b);
    string_of(out.as_slice())
}

/// `a`, then `b`, then `c`.
pub fn concat3(a: &str, b: &str, c: &str) -> (text: String)
    ensures
        text@ == a@ + b@ + c@,
{
    let mut out: Vec<char> = Vec::new();
    append(&mut out, a);
    append(&mut out, b);
    append(&mut out, c);
    string_of(out.as_slice())
}

/// The character of a decimal digit.
pub open spec fn digit_char(d: nat) -> char {
    ((d + 48) as u8) as char
}

/// A number in decimal, without leading zeros.
pub open spec fn decimal_of(n: nat) -> Seq<char>
    decreases n,
{
    if n < 10 {
        seq![digit_char(n)]
    } else {
        decimal_of(n / 10).push(digit_char(n % 10))
    }
}

fn decimal_chars(n: u64) -> (digits: Vec<char>)
    ensures
        digits@ == decimal_of(n as nat),
    decreases n,
{
    let d = (n % 10) as u8;
    let c = (d + 48) as char;
    if n < 10 {
        let mut digits = Vec::new();
        digits.push(c);
        digits
    } else {
        let mut digits = decimal_chars(n / 10);
        digits.push(c);
        digits
    }
}

/// A number in decimal (see [`decimal_of`]).
pub fn decimal(n: u64) -> (text: String)
    ensures
        text@ == decimal_of(n as nat),
{
    let digits = decimal_chars(n);
    string_of(digits.as_slice())
}

} // verus!

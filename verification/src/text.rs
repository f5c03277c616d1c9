//! Text helpers: white space, lines, slices by byte offset and decimal numbers.

use vstd::prelude::*;
use vstd::string::StringSliceAdditionalSpecFns;
use vstd::utf8::{
    decode_utf8, encode_utf8, encode_utf8_decode_utf8, encode_utf8_valid_utf8, is_char_boundary,
    is_char_boundary_iff_not_is_continuation_byte, is_char_boundary_start_end_of_seq,
    valid_utf8_split,
};

verus! {

/// Appends one character with `String::push`: the text grows by exactly that character.
#[verifier::external_body]
pub(crate) fn push_char(s: &mut String, c: char)
    ensures
        final(s)@ == old(s)@.push(c),
{
    s.push(c)
}

/// Whether `c` has the Unicode property `White_Space`.
pub open spec fn is_white_space(c: char) -> bool {
    let u = c as u32;
    ||| 0x09 <= u <= 0x0D
    ||| u == 0x20
    ||| u == 0x85
    ||| u == 0xA0
    ||| u == 0x1680
    ||| 0x2000 <= u <= 0x200A
    ||| u == 0x2028
    ||| u == 0x2029
    ||| u == 0x202F
    ||| u == 0x205F
    ||| u == 0x3000
}

/// How many characters of white space `text` starts with.
pub open spec fn leading_white_space(text: Seq<char>) -> nat
    decreases text.len(),
{
    if text.len() > 0 && is_white_space(text[0]) {
        1 + leading_white_space(text.drop_first())
    } else {
        0
    }
}

/// `text` without the white space that it starts with.
pub open spec fn trimmed_start(text: Seq<char>) -> Seq<char> {
    text.skip(leading_white_space(text) as int)
}

/// Removes leading white space with `str::trim_start`, which goes by the Unicode
/// property `White_Space`: what comes back is the text from its first character
/// that is no white space.
#[verifier::external_body]
pub(crate) fn trim_start(s: &str) -> (r: &str)
    ensures
        r@ == trimmed_start(s@),
{
    s.trim_start()
}

/// The length of `text` in bytes of UTF-8.
pub open spec fn byte_len(text: Seq<char>) -> nat {
    encode_utf8(text).len()
}

/// Whether byte offset `at` of `text` lies between two characters, or at either end.
pub open spec fn on_boundary(text: Seq<char>, at: int) -> bool {
    0 <= at <= byte_len(text) && is_char_boundary(encode_utf8(text), at)
}

/// The characters of `text` that its bytes `from..to` encode.
pub open spec fn byte_slice(text: Seq<char>, from: int, to: int) -> Seq<char> {
    decode_utf8(encode_utf8(text).subrange(from, to))
}

/// The whole of a text is the slice of all its bytes.
pub proof fn lemma_byte_slice_all(text: Seq<char>)
    ensures
        byte_slice(text, 0, byte_len(text) as int) == text,
        on_boundary(text, 0),
        on_boundary(text, byte_len(text) as int),
{
    let bytes = encode_utf8(text);
    assert(bytes.subrange(0, bytes.len() as int) =~= bytes);
    encode_utf8_decode_utf8(text);
    encode_utf8_valid_utf8(text);
    is_char_boundary_start_end_of_seq(bytes);
}

/// The part of `s` between two byte offsets that lie on character boundaries.
pub fn slice<'a>(s: &'a str, from: usize, to: usize) -> (r: &'a str)
    requires
        from <= to,
        on_boundary(s@, from as int),
        on_boundary(s@, to as int),
    ensures
        r@ == byte_slice(s@, from as int, to as int),
{
    let ghost bytes = s.spec_bytes();
    proof {
        encode_utf8_valid_utf8(s@);
        valid_utf8_split(bytes, to as int);
    }
    let (head, _) = s.split_at(to);
    proof {
        let head_bytes = bytes.subrange(0, to as int);
        assert(head.spec_bytes() == head_bytes);
        if from == to {
            is_char_boundary_start_end_of_seq(head_bytes);
        } else {
            is_char_boundary_iff_not_is_continuation_byte(bytes, from as int);
            is_char_boundary_iff_not_is_continuation_byte(head_bytes, from as int);
        }
    }
    let (_, r) = head.split_at(from);
    proof {
        assert(r.spec_bytes() =~= bytes.subrange(from as int, to as int));
        encode_utf8_decode_utf8(r@);
    }
    r
}

/// The part of `s` from a byte offset that lies on a character boundary.
pub fn slice_from<'a>(s: &'a str, from: usize) -> (r: &'a str)
    requires
        on_boundary(s@, from as int),
    ensures
        r@ == byte_slice(s@, from as int, byte_len(s@) as int),
{
    let (_, r) = s.split_at(from);
    proof {
        encode_utf8_decode_utf8(r@);
    }
    r
}

/// The length of the first line of `text`, its line feed included.
pub open spec fn first_line_len(text: Seq<char>) -> nat
    decreases text.len(),
{
    if text.len() == 0 {
        0
    } else if text[0] == '\n' {
        1
    } else {
        1 + first_line_len(text.drop_first())
    }
}

/// The lines of `text`, each with the line feed that ends it; the last line may have none.
pub open spec fn lines_of(text: Seq<char>) -> Seq<Seq<char>>
    decreases text.len(),
{
    if text.len() == 0 {
        Seq::empty()
    } else {
        proof {
            lemma_first_line(text);
        }
        let n = first_line_len(text) as int;
        seq![text.take(n)] + lines_of(text.skip(n))
    }
}

/// Whether `line` is one line: not empty, and with no line feed but possibly a last one.
pub open spec fn is_line(line: Seq<char>) -> bool {
    line.len() > 0 && forall|i: int| 0 <= i < line.len() - 1 ==> line[i] != '\n'
}

/// The first line of a text is a line and a prefix of it.
pub proof fn lemma_first_line(text: Seq<char>)
    requires
        text.len() > 0,
    ensures
        0 < first_line_len(text) <= text.len(),
        is_line(text.take(first_line_len(text) as int)),
        first_line_len(text) < text.len() ==> text[first_line_len(text) - 1] == '\n',
    decreases text.len(),
{
    if text[0] != '\n' && text.len() > 1 {
        let rest = text.drop_first();
        lemma_first_line(rest);
        let n = first_line_len(rest) as int;
        let line = text.take(n + 1);
        assert forall|i: int| 0 <= i < n implies line[i] != '\n' by {
            if i > 0 {
                assert(line[i] == rest.take(n)[i - 1]);
            }
        }
        if n < rest.len() {
            assert(rest[n - 1] == text[n]);
        }
    } else if text[0] != '\n' {
        assert(first_line_len(text.drop_first()) == 0);
    }
}

/// A text that starts with a line, which ends in a line feed or ends the text, has that
/// line as its first.
pub proof fn lemma_first_line_of_concat(line: Seq<char>, rest: Seq<char>)
    requires
        is_line(line),
        line.last() == '\n' || rest.len() == 0,
    ensures
        first_line_len(line + rest) == line.len(),
    decreases line.len(),
{
    let text = line + rest;
    assert(text[0] == line[0]);
    if line.len() == 1 {
        if line[0] != '\n' {
            assert(text.drop_first() =~= Seq::<char>::empty());
            assert(first_line_len(text.drop_first()) == 0);
        }
    } else {
        assert(line[0] != '\n');
        let tail = line.drop_first();
        assert(tail.last() == line.last());
        assert(text.drop_first() =~= tail + rest);
        assert forall|i: int| 0 <= i < tail.len() - 1 implies tail[i] != '\n' by {
            assert(tail[i] == line[i + 1]);
        }
        lemma_first_line_of_concat(tail, rest);
    }
}

/// The decimal digit for `d`.
pub open spec fn digit_char(d: int) -> char {
    (('0' as u8) + d) as u8 as char
}

/// The decimal digits of `n`, without leading zeros.
pub open spec fn decimal_digits(n: nat) -> Seq<char>
    decreases n,
{
    if n < 10 {
        seq![digit_char(n as int)]
    } else {
        decimal_digits(n / 10).push(digit_char((n % 10) as int))
    }
}

/// `n` in decimal, with a minus sign in front when it is negative.
pub open spec fn decimal_text(n: int) -> Seq<char> {
    if n < 0 {
        seq!['-'] + decimal_digits((-n) as nat)
    } else {
        decimal_digits(n as nat)
    }
}

/// A number is written with at least one digit.
pub proof fn lemma_decimal_digits_len(n: nat)
    ensures
        decimal_digits(n).len() >= 1,
        n >= 10 ==> decimal_digits(n).len() >= 2,
    decreases n,
{
    if n >= 10 {
        lemma_decimal_digits_len(n / 10);
    }
}

/// Different numbers are written with different digits.
pub proof fn lemma_decimal_digits_differ(a: nat, b: nat)
    requires
        decimal_digits(a) == decimal_digits(b),
    ensures
        a == b,
    decreases a,
{
    let da = decimal_digits(a);
    let db = decimal_digits(b);
    lemma_decimal_digits_len(a);
    lemma_decimal_digits_len(b);
    if a < 10 {
        assert(da.len() == 1);
        assert(b < 10);
        assert(da[0] == digit_char(a as int));
        assert(db[0] == digit_char(b as int));
        assert(digit_char(a as int) as u32 == 48 + a);
        assert(digit_char(b as int) as u32 == 48 + b);
    } else {
        assert(b >= 10) by {
            if b < 10 {
                assert(db.len() == 1);
            }
        }
        let last_a = digit_char((a % 10) as int);
        let last_b = digit_char((b % 10) as int);
        assert(da == decimal_digits(a / 10).push(last_a));
        assert(db == decimal_digits(b / 10).push(last_b));
        assert(da.last() == last_a);
        assert(db.last() == last_b);
        assert(last_a as u32 == 48 + a % 10);
        assert(last_b as u32 == 48 + b % 10);
        assert(a % 10 == b % 10);
        assert(da.drop_last() =~= decimal_digits(a / 10));
        assert(db.drop_last() =~= decimal_digits(b / 10));
        lemma_decimal_digits_differ(a / 10, b / 10);
        assert(a == 10 * (a / 10) + a % 10);
        assert(b == 10 * (b / 10) + b % 10);
    }
}

fn digit(d: u64) -> (c: char)
    requires
        d < 10,
    ensures
        c == digit_char(d as int),
{
    let b: u8 = 48 + (d as u8);
    b as char
}

fn push_decimal(out: &mut String, n: u64)
    ensures
        final(out)@ == old(out)@ + decimal_digits(n as nat),
{
    let mut digits: Vec<char> = Vec::new();
    let mut m: u64 = n;
    while m >= 10
        invariant
            decimal_digits(n as nat) == decimal_digits(m as nat) + digits@.reverse(),
        decreases m,
    {
        let c = digit(m % 10);
        proof {
            assert(digits@.push(c).reverse() =~= seq![c] + digits@.reverse());
            assert(decimal_digits(m as nat) == decimal_digits((m / 10) as nat).push(c));
            assert(decimal_digits((m / 10) as nat).push(c) + digits@.reverse() =~= decimal_digits(
                (m / 10) as nat,
            ) + (seq![c] + digits@.reverse()));
        }
        digits.push(c);
        m = m / 10;
    }
    let c = digit(m);
    proof {
        assert(digits@.push(c).reverse() =~= seq![c] + digits@.reverse());
    }
    digits.push(c);
    let mut i: usize = digits.len();
    while i > 0
        invariant
            i <= digits.len(),
            out@ == old(out)@ + digits@.reverse().take(digits.len() - i),
        decreases i,
    {
        i -= 1;
        push_char(out, digits[i]);
        assert(digits@.reverse().take(digits.len() - i) =~= digits@.reverse().take(
            digits.len() - i - 1,
        ).push(digits@[i as int]));
    }
    assert(digits@.reverse().take(digits.len() as int) =~= digits@.reverse());
}

/// Writes an unsigned number in decimal.
pub fn decimal_u64(n: u64) -> (r: String)
    ensures
        r@ == decimal_text(n as int),
{
    let mut out = String::new();
    push_decimal(&mut out, n);
    out
}

/// Writes a signed number in decimal.
pub fn decimal_i64(n: i64) -> (r: String)
    ensures
        r@ == decimal_text(n as int),
{
    let mut out = String::new();
    if n < 0 {
        push_char(&mut out, '-');
        let magnitude: u64 = if n == i64::MIN {
            9_223_372_036_854_775_808u64
        } else {
            (-n) as u64
        };
        push_decimal(&mut out, magnitude);
    } else {
        push_decimal(&mut out, n as u64);
    }
    out
}

} // verus!

//! Base64, the form in which configuration and host data reach a provider.
use vstd::prelude::*;
use vstd::string::*;

verus! {

/// Number of base64 characters, without padding, that `n` bytes take.
pub open spec fn base64_len(n: nat) -> nat {
    (4 * n + 2) / 3
}

/// Byte `i` of `bytes`; past the end of `bytes` it is zero.
pub open spec fn byte_or_zero(bytes: Seq<u8>, i: int) -> int {
    if 0 <= i < bytes.len() {
        bytes[i] as int
    } else {
        0
    }
}

/// Group `k` of six bits in `bytes`, the high bits first.
pub open spec fn sextet(bytes: Seq<u8>, k: int) -> int {
    let i = 3 * (k / 4);
    if k % 4 == 0 {
        byte_or_zero(bytes, i) / 4
    } else if k % 4 == 1 {
        byte_or_zero(bytes, i) % 4 * 16 + byte_or_zero(bytes, i + 1) / 16
    } else if k % 4 == 2 {
        byte_or_zero(bytes, i + 1) % 16 * 4 + byte_or_zero(bytes, i + 2) / 64
    } else {
        byte_or_zero(bytes, i + 2) % 64
    }
}

/// The character for a group of six bits in the standard base64 alphabet.
pub open spec fn base64_char(v: int) -> char {
    if v < 26 {
        (('A' as u32 + v) as u32) as char
    } else if v < 52 {
        (('a' as u32 + v - 26) as u32) as char
    } else if v < 62 {
        (('0' as u32 + v - 52) as u32) as char
    } else if v == 62 {
        '+'
    } else {
        '/'
    }
}

/// The base64 form of `bytes` in the standard alphabet, without padding.
pub open spec fn base64_text(bytes: Seq<u8>) -> Seq<char> {
    Seq::new(base64_len(bytes.len()), |k: int| base64_char(sextet(bytes, k)))
}

/// Whether the base64 form of `n` bytes is no longer than a string can be.
pub open spec fn base64_fits(n: nat) -> bool {
    base64_len(n) <= isize::MAX
}

/// Tells whether the base64 form of `n` bytes is no longer than a string can be.
pub fn fits_base64(n: usize) -> (fits: bool)
    ensures
        fits == base64_fits(n as nat),
        fits == ((4 * n + 2) / 3 <= isize::MAX),
{
    (4 * n as u128 + 2) / 3 <= isize::MAX as u128
}

/// `base64::encode_config` with `base64::STANDARD_NO_PAD` gives the base64 form of the
/// bytes in the standard alphabet, without padding. It panics where the result would be
/// longer than a string can be.
#[verifier::external_body]
pub(crate) fn base64_encode(bytes: &[u8]) -> (text: String)
    requires
        base64_fits(bytes@.len()),
    ensures
        text@ == base64_text(bytes@),
{
    base64::encode_config(bytes, base64::STANDARD_NO_PAD)
}

/// The line on which host data reaches a provider: base64, then the end of the line.
pub open spec fn line_text(bytes: Seq<u8>) -> Seq<char> {
    base64_text(bytes) + "\r\n"@
}

/// Puts host data on the line that a provider reads from its standard input.
pub fn encode_line(bytes: &[u8]) -> (line: String)
    requires
        base64_fits(bytes@.len()),
    ensures
        line@ == line_text(bytes@),
        line@ == base64_text(bytes@) + "\r\n"@,
{
    let mut line: String = base64_encode(bytes);
    line.append("\r\n");
    line
}

proof fn base64_char_is_injective(v: int, w: int)
    requires
        0 <= v < 64,
        0 <= w < 64,
        base64_char(v) == base64_char(w),
    ensures
        v == w,
{
}

proof fn sextet_in_range(bytes: Seq<u8>, k: int)
    ensures
        0 <= sextet(bytes, k) < 64,
{
}

/// Base64 text holds letters, digits, `+` and `/` only.
pub proof fn base64_text_alphabet(bytes: Seq<u8>, k: int)
    requires
        0 <= k < base64_text(bytes).len(),
    ensures
        ({
            let c = base64_text(bytes)[k];
            'A' <= c <= 'Z' || 'a' <= c <= 'z' || '0' <= c <= '9' || c == '+' || c == '/'
        }),
{
    sextet_in_range(bytes, k);
}

proof fn base64_text_gives_byte(a: Seq<u8>, b: Seq<u8>, i: int)
    requires
        base64_text(a) == base64_text(b),
        a.len() == b.len(),
        0 <= i < a.len(),
    ensures
        a[i] == b[i],
{
    let k = 4 * (i / 3);
    assert forall|j: int| 0 <= j < base64_text(a).len() implies #[trigger] sextet(a, j) == sextet(
        b,
        j,
    ) by {
        sextet_in_range(a, j);
        sextet_in_range(b, j);
        assert(base64_text(a)[j] == base64_char(sextet(a, j)));
        assert(base64_text(b)[j] == base64_char(sextet(b, j)));
        base64_char_is_injective(sextet(a, j), sextet(b, j));
    }
    if i % 3 == 0 {
        assert(sextet(a, k) == sextet(b, k));
        assert(sextet(a, k + 1) == sextet(b, k + 1));
    } else if i % 3 == 1 {
        assert(sextet(a, k + 1) == sextet(b, k + 1));
        assert(sextet(a, k + 2) == sextet(b, k + 2));
    } else {
        assert(sextet(a, k + 2) == sextet(b, k + 2));
        assert(sextet(a, k + 3) == sextet(b, k + 3));
    }
}

/// Base64 text determines the bytes it stands for.
pub proof fn base64_text_is_injective(a: Seq<u8>, b: Seq<u8>)
    requires
        base64_text(a) == base64_text(b),
    ensures
        a == b,
{
    assert(base64_text(a).len() == base64_len(a.len()));
    assert(base64_text(b).len() == base64_len(b.len()));
    assert forall|i: int| 0 <= i < a.len() implies a[i] == b[i] by {
        base64_text_gives_byte(a, b, i);
    }
    assert(a =~= b);
}

/// The line that carries host data breaks nowhere but at its end.
pub proof fn line_breaks_at_its_end_only(bytes: Seq<u8>, k: int)
    requires
        0 <= k < line_text(bytes).len(),
    ensures
        line_text(bytes)[k] == '\n' <==> k == line_text(bytes).len() - 1,
        line_text(bytes)[k] == '\r' <==> k == line_text(bytes).len() - 2,
{
    reveal_strlit("\r\n");
    if k < base64_text(bytes).len() {
        base64_text_alphabet(bytes, k);
    }
}

/// The line that carries host data determines the bytes it was made from.
pub proof fn line_text_is_injective(a: Seq<u8>, b: Seq<u8>)
    requires
        line_text(a) == line_text(b),
    ensures
        a == b,
{
    reveal_strlit("\r\n");
    assert(base64_text(a) =~= line_text(a).take(line_text(a).len() - 2));
    assert(base64_text(b) =~= line_text(b).take(line_text(b).len() - 2));
    base64_text_is_injective(a, b);
}

/// A group of six bits is written by the character at its place in the alphabet.
pub proof fn base64_char_by_place(v: int)
    requires
        0 <= v < 64,
    ensures
        base64_char(v)
            == "ABCDEFGHIJKLMNOPQRSTUVWXYZabcdefghijklmnopqrstuvwxyz0123456789+/"@[v],
{
    reveal_strlit("ABCDEFGHIJKLMNOPQRSTUVWXYZabcdefghijklmnopqrstuvwxyz0123456789+/");
}

/// Three bytes are written as four characters, two as three and one as two: the characters
/// stand for the bits of the bytes in turn, filled up with zeros.
pub proof fn base64_of_one_group(a: u8, b: u8, c: u8)
    ensures
        ({
            let (x, y, z) = (a as int, b as int, c as int);
            let alphabet = "ABCDEFGHIJKLMNOPQRSTUVWXYZabcdefghijklmnopqrstuvwxyz0123456789+/"@;
            &&& base64_text(seq![a, b, c]) == seq![
                alphabet[x / 4],
                alphabet[x % 4 * 16 + y / 16],
                alphabet[y % 16 * 4 + z / 64],
                alphabet[z % 64],
            ]
            &&& base64_text(seq![a, b]) == seq![
                alphabet[x / 4],
                alphabet[x % 4 * 16 + y / 16],
                alphabet[y % 16 * 4],
            ]
            &&& base64_text(seq![a]) == seq![alphabet[x / 4], alphabet[x % 4 * 16]]
        }),
{
    let (x, y, z) = (a as int, b as int, c as int);
    let alphabet = "ABCDEFGHIJKLMNOPQRSTUVWXYZabcdefghijklmnopqrstuvwxyz0123456789+/"@;
    base64_char_by_place(x / 4);
    base64_char_by_place(x % 4 * 16 + y / 16);
    base64_char_by_place(y % 16 * 4 + z / 64);
    base64_char_by_place(z % 64);
    base64_char_by_place(y % 16 * 4);
    base64_char_by_place(x % 4 * 16);
    assert(base64_text(seq![a, b, c]) =~= seq![
        alphabet[x / 4],
        alphabet[x % 4 * 16 + y / 16],
        alphabet[y % 16 * 4 + z / 64],
        alphabet[z % 64],
    ]);
    assert(base64_text(seq![a, b]) =~= seq![
        alphabet[x / 4],
        alphabet[x % 4 * 16 + y / 16],
        alphabet[y % 16 * 4],
    ]);
    assert(base64_text(seq![a]) =~= seq![alphabet[x / 4], alphabet[x % 4 * 16]]);
}

/// Whole groups of three bytes are written one after another.
pub proof fn base64_goes_by_groups(a: Seq<u8>, b: Seq<u8>)
    requires
        a.len() % 3 == 0,
    ensures
        base64_text(Seq::<u8>::empty()).len() == 0,
        base64_text(a + b) == base64_text(a) + base64_text(b),
{
    let n = base64_text(a).len() as int;
    assert(n == a.len() / 3 * 4);
    assert(base64_text(a + b).len() == n + base64_text(b).len());
    assert forall|k: int| 0 <= k < base64_text(a + b).len() implies base64_text(a + b)[k] == (
    base64_text(a) + base64_text(b))[k] by {
        if k < n {
            assert(k / 4 < a.len() / 3);
            assert(sextet(a + b, k) == sextet(a, k));
        } else {
            assert((k - n) / 4 == k / 4 - a.len() / 3);
            assert((k - n) % 4 == k % 4);
            assert(3 * (k / 4) == a.len() + 3 * ((k - n) / 4));
            assert(sextet(a + b, k) == sextet(b, k - n));
        }
    }
    assert(base64_text(a + b) =~= base64_text(a) + base64_text(b));
}

/// What fits is told by the number of characters that the bytes take.
pub proof fn base64_fits_by_length(bytes: Seq<u8>)
    ensures
        base64_fits(bytes.len()) <==> base64_text(bytes).len() <= isize::MAX,
        line_text(bytes) == base64_text(bytes) + "\r\n"@,
{
}

} // verus!

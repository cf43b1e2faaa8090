//! Text helpers: comparison, lower-casing and fresh identifiers.

use vstd::prelude::*;
use vstd::string::*;

verus! {

/// What `str::to_lowercase` returns for a text: the Unicode lower-case mapping of each
/// character, which takes pages to state. It depends on the text alone (the mapping does
/// not look at the locale).
pub uninterp spec fn lowercased(text: Seq<char>) -> Seq<char>;

/// The ASCII lower case of a character: `A` to `Z` become `a` to `z`; every other
/// character stays.
pub open spec fn ascii_lower(c: char) -> char {
    if 'A' <= c && c <= 'Z' {
        ((c as int) + 32) as char
    } else {
        c
    }
}

/// Every character is ASCII.
pub open spec fn is_ascii_text(text: Seq<char>) -> bool {
    forall|i: int| 0 <= i < text.len() ==> #[trigger] text[i] < '\u{80}'
}

/// Calls `str::to_lowercase`: its result is [`lowercased`] of the text, and an ASCII text
/// lower-cases character by character, `A` to `Z` becoming `a` to `z`.
#[verifier::external_body]
pub(crate) fn to_lowercase(text: &str) -> (lower: String)
    ensures
        lower@ == lowercased(text@),
        is_ascii_text(text@) ==> lower@ == text@.map_values(|c: char| ascii_lower(c)),
{
    text.to_lowercase()
}

/// True exactly when the two texts hold the same characters.
pub fn text_eq(a: &str, b: &str) -> (same: bool)
    ensures
        same == (a@ == b@),
{
    let left: String = a.to_owned();
    let right: String = b.to_owned();
    left == right
}

/// A lower-case hexadecimal digit.
pub open spec fn is_lower_hex(c: char) -> bool {
    ('0' <= c && c <= '9') || ('a' <= c && c <= 'f')
}

/// The hyphenated lower-case text of a version 4 uuid: 36 characters, hyphens at 8, 13, 18
/// and 23, hexadecimal digits elsewhere, the version digit `4` at 14 and a variant digit
/// `8`, `9`, `a` or `b` at 19.
pub open spec fn is_uuid_v4_text(s: Seq<char>) -> bool {
    &&& s.len() == 36
    &&& s[8] == '-' && s[13] == '-' && s[18] == '-' && s[23] == '-'
    &&& forall|i: int|
        0 <= i < 36 && i != 8 && i != 13 && i != 18 && i != 23 ==> is_lower_hex(#[trigger] s[i])
    &&& s[14] == '4'
    &&& (s[19] == '8' || s[19] == '9' || s[19] == 'a' || s[19] == 'b')
}

/// Calls `uuid::Uuid::new_v4` and formats it with `to_string`: a fresh random version 4
/// uuid in its hyphenated lower-case form. Which uuid comes out rests on chance.
#[verifier::external_body]
pub(crate) fn fresh_id() -> (id: String)
    ensures
        is_uuid_v4_text(id@),
{
    uuid::Uuid::new_v4().to_string()
}

/// The hexadecimal digit of a value below 16, in lower case.
pub open spec fn hex_digit(d: int) -> char {
    if d < 10 {
        (('0' as int) + d) as char
    } else {
        (('a' as int) + d - 10) as char
    }
}

/// Sixteen to the power `k`.
pub open spec fn pow16(k: nat) -> nat
    decreases k,
{
    if k == 0 {
        1
    } else {
        pow16((k - 1) as nat) * 16
    }
}

/// The lowest `k` hexadecimal digits of `c`, the least significant first.
pub open spec fn hex_digits(c: nat, k: nat) -> Seq<char>
    decreases k,
{
    if k == 0 {
        Seq::empty()
    } else {
        seq![hex_digit((c % 16) as int)] + hex_digits(c / 16, (k - 1) as nat)
    }
}

/// The spare id numbered `c`: a version 4 uuid text whose only variable digits spell out
/// the lowest sixteen hexadecimal digits of `c`, four in the second group and twelve in the
/// last.
pub open spec fn spare_id(c: nat) -> Seq<char> {
    seq!['f', 'f', 'f', 'f', 'f', 'f', 'f', 'f', '-'] + hex_digits(c, 4) + seq![
        '-',
        '4',
        'f',
        'f',
        'f',
        '-',
        '8',
        'f',
        'f',
        'f',
        '-',
    ] + hex_digits(c / pow16(4), 12)
}

/// Powers of sixteen are positive.
pub proof fn lemma_pow16_positive(k: nat)
    ensures
        pow16(k) > 0,
    decreases k,
{
    if k > 0 {
        lemma_pow16_positive((k - 1) as nat);
    }
}

/// `k` digits are `k` lower-case hexadecimal characters.
pub proof fn lemma_hex_digits_shape(c: nat, k: nat)
    ensures
        hex_digits(c, k).len() == k,
        forall|i: int| 0 <= i < k ==> is_lower_hex(#[trigger] hex_digits(c, k)[i]),
    decreases k,
{
    if k > 0 {
        lemma_hex_digits_shape(c / 16, (k - 1) as nat);
        let rest = hex_digits(c / 16, (k - 1) as nat);
        assert forall|i: int| 0 <= i < k implies is_lower_hex(#[trigger] hex_digits(c, k)[i]) by {
            if i > 0 {
                assert(hex_digits(c, k)[i] == rest[i - 1]);
            }
        }
    }
}

/// The first `a + b` digits of `c` are its first `a` digits followed by the first `b`
/// digits of what is left once those are taken off.
pub proof fn lemma_hex_digits_split(c: nat, a: nat, b: nat)
    ensures
        hex_digits(c, a + b) == hex_digits(c, a) + hex_digits(c / pow16(a), b),
    decreases a,
{
    if a == 0 {
        assert(c / 1 == c);
        assert(hex_digits(c, 0) + hex_digits(c, b) =~= hex_digits(c, b));
    } else {
        lemma_hex_digits_split(c / 16, (a - 1) as nat, b);
        lemma_pow16_positive((a - 1) as nat);
        vstd::arithmetic::div_mod::lemma_div_denominator(c as int, 16, pow16((a - 1) as nat) as int);
        vstd::arithmetic::mul::lemma_mul_is_commutative(16, pow16((a - 1) as nat) as int);
        assert((a + b - 1) as nat == (a - 1) as nat + b);
        assert(hex_digits(c, a + b) =~= hex_digits(c, a) + hex_digits(c / pow16(a), b));
    }
}

/// Different values below `16^k` have different digits.
pub proof fn lemma_hex_digits_injective(x: nat, y: nat, k: nat)
    requires
        x < pow16(k),
        y < pow16(k),
        hex_digits(x, k) == hex_digits(y, k),
    ensures
        x == y,
    decreases k,
{
    if k > 0 {
        let p = pow16((k - 1) as nat);
        lemma_hex_digits_shape(x, k);
        lemma_hex_digits_shape(y, k);
        assert(hex_digits(x, k) == seq![hex_digit((x % 16) as int)] + hex_digits(x / 16, (k - 1) as nat));
        assert(hex_digits(y, k) == seq![hex_digit((y % 16) as int)] + hex_digits(y / 16, (k - 1) as nat));
        assert(hex_digits(x, k)[0] == hex_digit((x % 16) as int));
        assert(hex_digits(y, k)[0] == hex_digit((y % 16) as int));
        assert(hex_digits(x, k)[0] == hex_digits(y, k)[0]);
        assert(x % 16 == y % 16);
        assert(hex_digits(x / 16, (k - 1) as nat) =~= hex_digits(x, k).subrange(1, k as int));
        assert(hex_digits(y / 16, (k - 1) as nat) =~= hex_digits(y, k).subrange(1, k as int));
        assert(x / 16 < p) by (nonlinear_arith)
            requires
                x < p * 16,
        ;
        assert(y / 16 < p) by (nonlinear_arith)
            requires
                y < p * 16,
        ;
        lemma_hex_digits_injective(x / 16, y / 16, (k - 1) as nat);
        vstd::arithmetic::div_mod::lemma_fundamental_div_mod(x as int, 16);
        vstd::arithmetic::div_mod::lemma_fundamental_div_mod(y as int, 16);
    }
}

/// Every spare id is a version 4 uuid text, and spare ids numbered by different `usize`
/// values differ.
pub proof fn lemma_spare_id(c: nat, d: nat)
    requires
        c <= usize::MAX,
        d <= usize::MAX,
    ensures
        is_uuid_v4_text(spare_id(c)),
        spare_id(c) == spare_id(d) ==> c == d,
{
    lemma_hex_digits_shape(c, 4);
    lemma_hex_digits_shape(c / pow16(4), 12);
    let s = spare_id(c);
    assert(s.len() == 36);
    assert(s[8] == '-' && s[13] == '-' && s[14] == '4' && s[18] == '-' && s[19] == '8' && s[23]
        == '-');
    assert forall|i: int|
        0 <= i < 36 && i != 8 && i != 13 && i != 18 && i != 23 implies is_lower_hex(
        #[trigger] s[i],
    ) by {
        if 9 <= i < 13 {
            assert(s[i] == hex_digits(c, 4)[i - 9]);
        } else if 24 <= i {
            assert(s[i] == hex_digits(c / pow16(4), 12)[i - 24]);
        }
    }
    if spare_id(c) == spare_id(d) {
        lemma_hex_digits_shape(d, 4);
        lemma_hex_digits_shape(d / pow16(4), 12);
        let t = spare_id(d);
        assert(hex_digits(c, 4) =~= s.subrange(9, 13));
        assert(hex_digits(d, 4) =~= t.subrange(9, 13));
        assert(hex_digits(c / pow16(4), 12) =~= s.subrange(24, 36));
        assert(hex_digits(d / pow16(4), 12) =~= t.subrange(24, 36));
        lemma_hex_digits_split(c, 4, 12);
        lemma_hex_digits_split(d, 4, 12);
        assert(pow16(16) == 0x1_0000_0000_0000_0000) by {
            reveal_with_fuel(pow16, 17);
        }
        lemma_hex_digits_injective(c, d, 16);
    }
}

/// Appends the lowest `k` hexadecimal digits of `c`, the least significant first, and gives
/// back what is left of `c` once they are taken off.
fn append_hex_digits(text: &mut String, c: usize, k: usize) -> (rest: usize)
    ensures
        final(text)@ == old(text)@ + hex_digits(c as nat, k as nat),
        rest as nat == c as nat / pow16(k as nat),
{
    let digits = "0123456789abcdef";
    proof {
        reveal_strlit("0123456789abcdef");
        assert forall|d: int| 0 <= d < 16 implies #[trigger] digits@[d] == hex_digit(d) by {}
    }
    let mut rem: usize = c;
    let mut j: usize = 0;
    proof {
        assert(pow16(0) == 1);
        assert(c as nat / 1 == c as nat);
        assert(old(text)@ + hex_digits(c as nat, 0) =~= old(text)@);
    }
    while j < k
        invariant
            j <= k,
            digits@.len() == 16,
            forall|d: int| 0 <= d < 16 ==> #[trigger] digits@[d] == hex_digit(d),
            text@ == old(text)@ + hex_digits(c as nat, j as nat),
            rem as nat == c as nat / pow16(j as nat),
        decreases k - j,
    {
        let d = rem % 16;
        let piece = digits.substring_char(d, d + 1);
        assert(piece@ =~= seq![hex_digit(d as int)]);
        text.append(piece);
        proof {
            lemma_hex_digits_split(c as nat, j as nat, 1);
            reveal_with_fuel(hex_digits, 2);
            assert(d as nat == rem as nat % 16);
            assert(hex_digits(rem as nat, 1) =~= seq![hex_digit(d as int)]);
            lemma_pow16_positive(j as nat);
            vstd::arithmetic::div_mod::lemma_div_denominator(c as int, pow16(j as nat) as int, 16);
        }
        rem = rem / 16;
        j = j + 1;
    }
    rem
}

/// The text of the spare id numbered `c` (see [`spare_id`]).
pub fn spare_id_text(c: usize) -> (id: String)
    ensures
        id@ == spare_id(c as nat),
        is_uuid_v4_text(id@),
{
    proof {
        reveal_strlit("ffffffff-");
        reveal_strlit("-4fff-8fff-");
    }
    let mut text = String::from_str("ffffffff-");
    let rest = append_hex_digits(&mut text, c, 4);
    text.append("-4fff-8fff-");
    let _ = append_hex_digits(&mut text, rest, 12);
    proof {
        assert(text@ =~= spare_id(c as nat));
        lemma_spare_id(c as nat, c as nat);
    }
    text
}

} // verus!

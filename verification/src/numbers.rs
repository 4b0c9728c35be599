//! Numeric argument codecs: unsigned decimal tokens, and the big-endian
//! byte order the device uses for multi-byte register values.  Encoding
//! then decoding is proved to be the identity in both codecs.

use vstd::prelude::*;

use crate::strutil::push_char;

verus! {

/// The digit character for a value below ten.
pub open spec fn dec_digit(d: int) -> char {
    if d == 0 {
        '0'
    } else if d == 1 {
        '1'
    } else if d == 2 {
        '2'
    } else if d == 3 {
        '3'
    } else if d == 4 {
        '4'
    } else if d == 5 {
        '5'
    } else if d == 6 {
        '6'
    } else if d == 7 {
        '7'
    } else if d == 8 {
        '8'
    } else {
        '9'
    }
}

/// The value of a digit character.
pub open spec fn digit_val(c: char) -> int {
    if c == '0' {
        0
    } else if c == '1' {
        1
    } else if c == '2' {
        2
    } else if c == '3' {
        3
    } else if c == '4' {
        4
    } else if c == '5' {
        5
    } else if c == '6' {
        6
    } else if c == '7' {
        7
    } else if c == '8' {
        8
    } else {
        9
    }
}

/// A decimal digit character.
pub open spec fn is_digit(c: char) -> bool {
    '0' <= c && c <= '9'
}

/// The canonical decimal spelling of a number, most significant digit
/// first and without leading zeros.
pub open spec fn dec_of(n: nat) -> Seq<char>
    decreases n,
{
    if n < 10 {
        seq![dec_digit(n as int)]
    } else {
        dec_of(n / 10).push(dec_digit((n % 10) as int))
    }
}

/// The number a digit string denotes.
pub open spec fn dec_value_of(s: Seq<char>) -> int
    decreases s.len(),
{
    if s.len() == 0 {
        0
    } else {
        dec_value_of(s.drop_last()) * 10 + digit_val(s.last())
    }
}

/// A token in the canonical decimal form: nonempty, all digits, no
/// leading zero except for the spelling of zero itself.
pub open spec fn canonical_dec(s: Seq<char>) -> bool {
    &&& s.len() > 0
    &&& forall|i: int| 0 <= i < s.len() ==> is_digit(#[trigger] s[i])
    &&& (s.len() > 1 ==> s[0] != '0')
}

/// What [`parse_u32_argument`] returns: the number the token
/// canonically spells, where it fits a 32-bit word.
pub open spec fn parsed_u32(s: Seq<char>) -> Option<u32> {
    if canonical_dec(s) && dec_value_of(s) <= u32::MAX {
        Some(dec_value_of(s) as u32)
    } else {
        None
    }
}

/// Every character of a canonical spelling is a digit and the first is
/// nonzero for a positive number.
proof fn lemma_dec_of_shape(n: nat)
    ensures
        dec_of(n).len() > 0,
        forall|i: int| 0 <= i < dec_of(n).len() ==> is_digit(#[trigger] dec_of(n)[i]),
        n >= 1 ==> dec_of(n)[0] != '0',
        n < 10 ==> dec_of(n).len() == 1,
        n >= 10 ==> dec_of(n).len() > 1,
    decreases n,
{
    if n < 10 {
    } else {
        lemma_dec_of_shape(n / 10);
        assert(dec_of(n)[0] == dec_of(n / 10)[0]);
    }
}

/// A digit string denotes a nonnegative number.
proof fn lemma_dec_value_nonneg(s: Seq<char>)
    ensures
        dec_value_of(s) >= 0,
    decreases s.len(),
{
    if s.len() > 0 {
        lemma_dec_value_nonneg(s.drop_last());
    }
}

/// The spelling of a number denotes that number back.
proof fn lemma_dec_value_of_dec_of(n: nat)
    ensures
        dec_value_of(dec_of(n)) == n,
    decreases n,
{
    if n < 10 {
        assert(dec_of(n).drop_last() =~= Seq::<char>::empty());
        assert(digit_val(dec_digit(n as int)) == n);
        assert(dec_value_of(dec_of(n)) == dec_value_of(dec_of(n).drop_last()) * 10 + digit_val(
            dec_of(n).last(),
        ));
    } else {
        lemma_dec_value_of_dec_of(n / 10);
        assert(dec_of(n) == dec_of(n / 10).push(dec_digit((n % 10) as int)));
        assert(dec_of(n).drop_last() =~= dec_of(n / 10));
        assert(dec_of(n).last() == dec_digit((n % 10) as int));
        assert(digit_val(dec_digit((n % 10) as int)) == n % 10);
        assert(dec_value_of(dec_of(n)) == dec_value_of(dec_of(n).drop_last()) * 10 + digit_val(
            dec_of(n).last(),
        ));
    }
}

/// Encoding a number and parsing the token back is the identity.
pub proof fn lemma_dec_round_trip(n: u32)
    ensures
        parsed_u32(dec_of(n as nat)) == Some(n),
{
    lemma_dec_of_shape(n as nat);
    lemma_dec_value_of_dec_of(n as nat);
}

/// A decimal token is a well-formed wire argument.
pub proof fn lemma_dec_of_valid_argument(n: nat)
    ensures
        crate::msg::valid_argument(dec_of(n)),
{
    lemma_dec_of_shape(n);
    let s = dec_of(n);
    assert forall|i: int| 0 <= i < s.len() implies !crate::msg::is_arg_special(
        #[trigger] s[i],
    ) by {
        assert(is_digit(s[i]));
    }
    crate::msg::lemma_plain_arg_valid(s);
}

/// Appending digits never shrinks the denoted value.
proof fn lemma_dec_value_prefix(s: Seq<char>, i: int)
    requires
        0 <= i <= s.len(),
    ensures
        dec_value_of(s) >= dec_value_of(s.take(i)),
    decreases s.len() - i,
{
    if i == s.len() {
        assert(s.take(i) =~= s);
    } else {
        lemma_dec_value_prefix(s, i + 1);
        assert(s.take(i + 1).drop_last() =~= s.take(i));
        assert(s.take(i + 1).last() == s[i]);
        lemma_dec_value_nonneg(s.take(i));
    }
}

/// Serializes a number into its canonical decimal token.
pub fn u32_to_dec(n: u32) -> (r: String)
    ensures
        r@ == dec_of(n as nat),
{
    let mut digits: Vec<char> = Vec::new();
    let mut m: u32 = n;
    if m == 0 {
        let mut out = String::new();
        push_char(&mut out, '0');
        proof {
            assert(out@ =~= dec_of(0));
        }
        return out;
    }
    while m > 0
        invariant
            0 <= m <= n,
            n > 0,
            if m > 0 {
                dec_of(n as nat) =~= dec_of(m as nat) + digits@.reverse()
            } else {
                dec_of(n as nat) =~= digits@.reverse()
            },
        decreases m,
    {
        let d: u32 = m % 10;
        let c: char = match d {
            0 => '0',
            1 => '1',
            2 => '2',
            3 => '3',
            4 => '4',
            5 => '5',
            6 => '6',
            7 => '7',
            8 => '8',
            _ => '9',
        };
        proof {
            assert(c == dec_digit(d as int));
        }
        let ghost digits_before = digits@;
        digits.push(c);
        proof {
            assert(digits@.reverse() =~= seq![c] + digits_before.reverse());
            if m >= 10 {
                assert(dec_of(m as nat) =~= dec_of((m / 10) as nat) + seq![c]);
                assert(dec_of((m / 10) as nat) + seq![c] + digits_before.reverse() =~= dec_of(
                    (m / 10) as nat,
                ) + digits@.reverse());
            } else {
                assert(dec_of(m as nat) =~= seq![c]);
                assert(seq![c] + digits_before.reverse() =~= digits@.reverse());
            }
        }
        m = m / 10;
    }
    let mut out = String::new();
    let len = digits.len();
    let mut i: usize = 0;
    while i < len
        invariant
            len == digits@.len(),
            0 <= i <= len,
            out@ =~= digits@.reverse().take(i as int),
        decreases len - i,
    {
        push_char(&mut out, digits[len - 1 - i]);
        proof {
            assert(digits@.reverse()[i as int] == digits@[len - 1 - i]);
            assert(out@ =~= digits@.reverse().take(i as int + 1));
        }
        i += 1;
    }
    proof {
        assert(digits@.reverse().take(len as int) =~= digits@.reverse());
    }
    out
}

/// Parses a canonical decimal token; every other token is refused.
pub fn parse_u32_argument(s: &str) -> (r: Option<u32>)
    ensures
        r == parsed_u32(s@),
{
    let len = s.unicode_len();
    if len == 0 {
        return None;
    }
    if len > 1 && s.get_char(0) == '0' {
        return None;
    }
    let mut acc: u32 = 0;
    let mut i: usize = 0;
    proof {
        assert(s@.take(0) =~= Seq::<char>::empty());
    }
    while i < len
        invariant
            len == s@.len(),
            0 <= i <= len,
            len > 1 ==> s@[0] != '0',
            forall|j: int| 0 <= j < i ==> is_digit(#[trigger] s@[j]),
            acc == dec_value_of(s@.take(i as int)),
        decreases len - i,
    {
        let c = s.get_char(i);
        let d: u32 = match c {
            '0' => 0,
            '1' => 1,
            '2' => 2,
            '3' => 3,
            '4' => 4,
            '5' => 5,
            '6' => 6,
            '7' => 7,
            '8' => 8,
            '9' => 9,
            _ => {
                return None;
            },
        };
        proof {
            assert(is_digit(c) && digit_val(c) == d);
        }
        if acc > (0xffff_ffffu32 - d) / 10 {
            // The value already exceeds what a 32-bit word can hold.
            proof {
                lemma_dec_value_nonneg(s@.take(i as int));
                assert(s@.take(i as int + 1).drop_last() =~= s@.take(i as int));
                assert(s@.take(i as int + 1).last() == s@[i as int]);
                assert(acc * 10 + d > 0xffff_ffff) by (nonlinear_arith)
                    requires
                        acc > (0xffff_ffffu32 - d) / 10,
                        0 <= d < 10,
                        acc >= 0,
                ;
                lemma_dec_value_prefix(s@, i as int + 1);
            }
            return None;
        }
        proof {
            assert(acc * 10 + d <= 0xffff_ffff) by (nonlinear_arith)
                requires
                    acc <= (0xffff_ffffu32 - d) / 10,
                    0 <= d < 10,
                    acc >= 0,
            ;
            assert(s@.take(i as int + 1).drop_last() =~= s@.take(i as int));
            assert(s@.take(i as int + 1).last() == s@[i as int]);
        }
        acc = acc * 10 + d;
        i += 1;
    }
    proof {
        assert(s@.take(len as int) =~= s@);
    }
    Some(acc)
}

/// The hexadecimal digit character for a value below sixteen, lower
/// case.
pub open spec fn hex_digit(d: int) -> char {
    if d < 10 {
        dec_digit(d)
    } else if d == 10 {
        'a'
    } else if d == 11 {
        'b'
    } else if d == 12 {
        'c'
    } else if d == 13 {
        'd'
    } else if d == 14 {
        'e'
    } else {
        'f'
    }
}

/// The value of a hexadecimal digit character.
pub open spec fn hex_digit_val(c: char) -> int {
    if is_digit(c) {
        digit_val(c)
    } else if c == 'a' {
        10
    } else if c == 'b' {
        11
    } else if c == 'c' {
        12
    } else if c == 'd' {
        13
    } else if c == 'e' {
        14
    } else {
        15
    }
}

/// A lower-case hexadecimal digit character.
pub open spec fn is_hex_digit(c: char) -> bool {
    is_digit(c) || ('a' <= c && c <= 'f')
}

/// The compact hexadecimal spelling of a 32-bit word: `0x` and eight
/// digits, most significant first.
pub open spec fn hex_word_of(w: u32) -> Seq<char> {
    seq![
        '0',
        'x',
        hex_digit(((w >> 28u32) & 0xfu32) as int),
        hex_digit(((w >> 24u32) & 0xfu32) as int),
        hex_digit(((w >> 20u32) & 0xfu32) as int),
        hex_digit(((w >> 16u32) & 0xfu32) as int),
        hex_digit(((w >> 12u32) & 0xfu32) as int),
        hex_digit(((w >> 8u32) & 0xfu32) as int),
        hex_digit(((w >> 4u32) & 0xfu32) as int),
        hex_digit((w & 0xfu32) as int),
    ]
}

/// What [`parse_hex_word_argument`] returns: the word a token in the
/// compact spelling denotes.
pub open spec fn parsed_hex_word(s: Seq<char>) -> Option<u32> {
    if s.len() == 10 && s[0] == '0' && s[1] == 'x' && (forall|i: int|
        2 <= i < 10 ==> is_hex_digit(#[trigger] s[i])) {
        Some(
            (hex_digit_val(s[2]) * 0x10000000 + hex_digit_val(s[3]) * 0x1000000 + hex_digit_val(
                s[4],
            ) * 0x100000 + hex_digit_val(s[5]) * 0x10000 + hex_digit_val(s[6]) * 0x1000
                + hex_digit_val(s[7]) * 0x100 + hex_digit_val(s[8]) * 0x10 + hex_digit_val(
                s[9],
            )) as u32,
        )
    } else {
        None
    }
}

/// Serializes a word into its compact hexadecimal token.
pub fn u32_to_hex_argument(w: u32) -> (r: String)
    ensures
        r@ == hex_word_of(w),
{
    let mut out = String::new();
    push_char(&mut out, '0');
    push_char(&mut out, 'x');
    proof {
        assert((w >> 28u32) & 0xfu32 < 16 && (w >> 24u32) & 0xfu32 < 16 && (w >> 20u32) & 0xfu32
            < 16 && (w >> 16u32) & 0xfu32 < 16 && (w >> 12u32) & 0xfu32 < 16 && (w >> 8u32)
            & 0xfu32 < 16 && (w >> 4u32) & 0xfu32 < 16 && w & 0xfu32 < 16) by (bit_vector);
    }
    push_char(&mut out, hex_digit_char(((w >> 28u32) & 0xfu32) as u8));
    push_char(&mut out, hex_digit_char(((w >> 24u32) & 0xfu32) as u8));
    push_char(&mut out, hex_digit_char(((w >> 20u32) & 0xfu32) as u8));
    push_char(&mut out, hex_digit_char(((w >> 16u32) & 0xfu32) as u8));
    push_char(&mut out, hex_digit_char(((w >> 12u32) & 0xfu32) as u8));
    push_char(&mut out, hex_digit_char(((w >> 8u32) & 0xfu32) as u8));
    push_char(&mut out, hex_digit_char(((w >> 4u32) & 0xfu32) as u8));
    push_char(&mut out, hex_digit_char((w & 0xfu32) as u8));
    proof {
        assert(out@ =~= hex_word_of(w));
    }
    out
}

/// The digit character of one nibble.
fn hex_digit_char(d: u8) -> (c: char)
    requires
        d < 16,
    ensures
        c == hex_digit(d as int),
{
    match d {
        0 => '0',
        1 => '1',
        2 => '2',
        3 => '3',
        4 => '4',
        5 => '5',
        6 => '6',
        7 => '7',
        8 => '8',
        9 => '9',
        10 => 'a',
        11 => 'b',
        12 => 'c',
        13 => 'd',
        14 => 'e',
        _ => 'f',
    }
}

/// The value of one digit character, refusing everything else.
fn hex_digit_value(c: char) -> (r: Option<u8>)
    ensures
        r matches Some(d) ==> is_hex_digit(c) && d == hex_digit_val(c) && d < 16,
        r is None ==> !is_hex_digit(c),
{
    match c {
        '0' => Some(0),
        '1' => Some(1),
        '2' => Some(2),
        '3' => Some(3),
        '4' => Some(4),
        '5' => Some(5),
        '6' => Some(6),
        '7' => Some(7),
        '8' => Some(8),
        '9' => Some(9),
        'a' => Some(10),
        'b' => Some(11),
        'c' => Some(12),
        'd' => Some(13),
        'e' => Some(14),
        'f' => Some(15),
        _ => None,
    }
}

/// Parses a compact hexadecimal word token; every other token is
/// refused.
pub fn parse_hex_word_argument(s: &str) -> (r: Option<u32>)
    ensures
        r == parsed_hex_word(s@),
{
    let len = s.unicode_len();
    if len != 10 {
        return None;
    }
    if s.get_char(0) != '0' || s.get_char(1) != 'x' {
        return None;
    }
    let d0 = match hex_digit_value(s.get_char(2)) {
        Some(d) => d,
        None => {
            return None;
        },
    };
    let d1 = match hex_digit_value(s.get_char(3)) {
        Some(d) => d,
        None => {
            return None;
        },
    };
    let d2 = match hex_digit_value(s.get_char(4)) {
        Some(d) => d,
        None => {
            return None;
        },
    };
    let d3 = match hex_digit_value(s.get_char(5)) {
        Some(d) => d,
        None => {
            return None;
        },
    };
    let d4 = match hex_digit_value(s.get_char(6)) {
        Some(d) => d,
        None => {
            return None;
        },
    };
    let d5 = match hex_digit_value(s.get_char(7)) {
        Some(d) => d,
        None => {
            return None;
        },
    };
    let d6 = match hex_digit_value(s.get_char(8)) {
        Some(d) => d,
        None => {
            return None;
        },
    };
    let d7 = match hex_digit_value(s.get_char(9)) {
        Some(d) => d,
        None => {
            return None;
        },
    };
    let acc: u32 = (d0 as u32) * 0x10000000 + (d1 as u32) * 0x1000000 + (d2 as u32) * 0x100000 + (
    d3 as u32) * 0x10000 + (d4 as u32) * 0x1000 + (d5 as u32) * 0x100 + (d6 as u32) * 0x10 + (
    d7 as u32);
    proof {
        assert(forall|j: int| 2 <= j < 10 ==> is_hex_digit(#[trigger] s@[j]));
        assert(acc as int == hex_digit_val(s@[2]) * 0x10000000 + hex_digit_val(s@[3]) * 0x1000000
            + hex_digit_val(s@[4]) * 0x100000 + hex_digit_val(s@[5]) * 0x10000 + hex_digit_val(
            s@[6],
        ) * 0x1000 + hex_digit_val(s@[7]) * 0x100 + hex_digit_val(s@[8]) * 0x10 + hex_digit_val(
            s@[9],
        ));
    }
    Some(acc)
}

/// Encoding a word and parsing the token back is the identity.
pub proof fn lemma_hex_round_trip(w: u32)
    ensures
        parsed_hex_word(hex_word_of(w)) == Some(w),
{
    let s = hex_word_of(w);
    assert(forall|d: int| 0 <= d < 16 ==> is_hex_digit(#[trigger] hex_digit(d)));
    assert(forall|d: int| 0 <= d < 16 ==> hex_digit_val(#[trigger] hex_digit(d)) == d);
    assert((w >> 28u32) & 0xfu32 < 16 && (w >> 24u32) & 0xfu32 < 16 && (w >> 20u32) & 0xfu32 < 16
        && (w >> 16u32) & 0xfu32 < 16 && (w >> 12u32) & 0xfu32 < 16 && (w >> 8u32) & 0xfu32 < 16
        && (w >> 4u32) & 0xfu32 < 16 && w & 0xfu32 < 16) by (bit_vector);
    let n0 = ((w >> 28u32) & 0xfu32) as int;
    let n1 = ((w >> 24u32) & 0xfu32) as int;
    let n2 = ((w >> 20u32) & 0xfu32) as int;
    let n3 = ((w >> 16u32) & 0xfu32) as int;
    let n4 = ((w >> 12u32) & 0xfu32) as int;
    let n5 = ((w >> 8u32) & 0xfu32) as int;
    let n6 = ((w >> 4u32) & 0xfu32) as int;
    let n7 = (w & 0xfu32) as int;
    assert(((w >> 28u32) & 0xfu32) * 0x10000000 + ((w >> 24u32) & 0xfu32) * 0x1000000 + ((w
        >> 20u32) & 0xfu32) * 0x100000 + ((w >> 16u32) & 0xfu32) * 0x10000 + ((w >> 12u32)
        & 0xfu32) * 0x1000 + ((w >> 8u32) & 0xfu32) * 0x100 + ((w >> 4u32) & 0xfu32) * 0x10 + (w
        & 0xfu32) == w) by (bit_vector);
    assert(n0 * 0x10000000 + n1 * 0x1000000 + n2 * 0x100000 + n3 * 0x10000 + n4 * 0x1000 + n5
        * 0x100 + n6 * 0x10 + n7 == w);
}

/// A compact hexadecimal token is a well-formed wire argument.
pub proof fn lemma_hex_word_valid_argument(w: u32)
    ensures
        crate::msg::valid_argument(hex_word_of(w)),
{
    let s = hex_word_of(w);
    assert forall|i: int| 0 <= i < s.len() implies !crate::msg::is_arg_special(
        #[trigger] s[i],
    ) by {
        if i >= 2 {
            assert(is_hex_digit(s[i]));
        }
    }
    crate::msg::lemma_plain_arg_valid(s);
}

/// The 32-bit word four big-endian bytes spell.
pub open spec fn word_of_be(b: Seq<u8>) -> u32
    recommends
        b.len() == 4,
{
    ((b[0] as u32) << 24u32) | ((b[1] as u32) << 16u32) | ((b[2] as u32) << 8u32) | (b[3] as u32)
}

/// The big-endian byte spelling of a 32-bit word.
pub open spec fn be_bytes_of(w: u32) -> Seq<u8> {
    seq![(w >> 24u32) as u8, ((w >> 16u32) & 0xffu32) as u8, ((w >> 8u32) & 0xffu32) as u8, (w
        & 0xffu32) as u8]
}

/// Reading back the big-endian spelling of a word yields the word.
pub proof fn lemma_word_round_trip(w: u32)
    ensures
        word_of_be(be_bytes_of(w)) == w,
{
    assert((((w >> 24u32) as u8 as u32) << 24u32) | ((((w >> 16u32) & 0xffu32) as u8 as u32)
        << 16u32) | ((((w >> 8u32) & 0xffu32) as u8 as u32) << 8u32) | ((w & 0xffu32) as u8 as u32)
        == w) by (bit_vector);
}

/// Spelling the word four bytes denote yields the same bytes.
pub proof fn lemma_be_bytes_round_trip(b: Seq<u8>)
    requires
        b.len() == 4,
    ensures
        be_bytes_of(word_of_be(b)) =~= b,
{
    let b0 = b[0];
    let b1 = b[1];
    let b2 = b[2];
    let b3 = b[3];
    let w = word_of_be(b);
    assert(w == ((b0 as u32) << 24u32) | ((b1 as u32) << 16u32) | ((b2 as u32) << 8u32) | (
    b3 as u32));
    assert((((b0 as u32) << 24u32) | ((b1 as u32) << 16u32) | ((b2 as u32) << 8u32) | (b3 as u32))
        >> 24u32 == b0 as u32) by (bit_vector);
    assert(((((b0 as u32) << 24u32) | ((b1 as u32) << 16u32) | ((b2 as u32) << 8u32) | (b3 as u32))
        >> 16u32) & 0xffu32 == b1 as u32) by (bit_vector);
    assert(((((b0 as u32) << 24u32) | ((b1 as u32) << 16u32) | ((b2 as u32) << 8u32) | (b3 as u32))
        >> 8u32) & 0xffu32 == b2 as u32) by (bit_vector);
    assert((((b0 as u32) << 24u32) | ((b1 as u32) << 16u32) | ((b2 as u32) << 8u32) | (b3 as u32))
        & 0xffu32 == b3 as u32) by (bit_vector);
}

/// Serializes a word into its four big-endian bytes.
pub fn u32_to_be_bytes(w: u32) -> (r: Vec<u8>)
    ensures
        r@ == be_bytes_of(w),
{
    let mut v: Vec<u8> = Vec::new();
    v.push((w >> 24u32) as u8);
    v.push(((w >> 16u32) & 0xffu32) as u8);
    v.push(((w >> 8u32) & 0xffu32) as u8);
    v.push((w & 0xffu32) as u8);
    proof {
        assert(v@ =~= be_bytes_of(w));
    }
    v
}

/// Reads a word from its four big-endian bytes.
pub fn u32_from_be_bytes(b: &[u8]) -> (r: u32)
    requires
        b@.len() == 4,
    ensures
        r == word_of_be(b@),
{
    ((b[0] as u32) << 24u32) | ((b[1] as u32) << 16u32) | ((b[2] as u32) << 8u32) | (b[3] as u32)
}

} // verus!

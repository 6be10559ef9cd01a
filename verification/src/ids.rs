//! Text form of post ids: the canonical hyphenated UUID, 32 lowercase
//! hexadecimal digits in five groups of 8-4-4-4-12. Parsing accepts
//! uppercase digits too; rendering always emits lowercase.

use vstd::prelude::*;

verus! {

pub open spec fn is_hex_digit(c: char) -> bool {
    ('0' <= c && c <= '9') || ('a' <= c && c <= 'f') || ('A' <= c && c <= 'F')
}

/// The numeric value of a hexadecimal digit.
pub open spec fn hex_val(c: char) -> int {
    if '0' <= c && c <= '9' {
        c as int - '0' as int
    } else if 'a' <= c && c <= 'f' {
        10 + c as int - 'a' as int
    } else {
        10 + c as int - 'A' as int
    }
}

/// The lowercase digit character for a value below 16.
pub open spec fn hex_digit_char(d: int) -> char {
    if d < 10 {
        (('0' as int + d) as char)
    } else {
        (('a' as int + d - 10) as char)
    }
}

/// `v` written as exactly `n` hexadecimal digits, most significant first.
pub open spec fn hex_text(v: int, n: nat) -> Seq<char>
    decreases n,
{
    if n == 0 {
        Seq::<char>::empty()
    } else {
        hex_text(v / 16, (n - 1) as nat).push(hex_digit_char(v % 16))
    }
}

/// The value of a sequence of hexadecimal digits, most significant first.
pub open spec fn hex_to_val(ds: Seq<char>) -> int
    decreases ds.len(),
{
    if ds.len() == 0 {
        0
    } else {
        hex_to_val(ds.drop_last()) * 16 + hex_val(ds.last())
    }
}

pub open spec fn pow16(n: nat) -> int
    decreases n,
{
    if n == 0 {
        1
    } else {
        16 * pow16((n - 1) as nat)
    }
}

/// The positions of the four hyphens in the 36-character text.
pub open spec fn is_hyphen_pos(i: int) -> bool {
    i == 8 || i == 13 || i == 18 || i == 23
}

/// The text position of the `k`-th digit, skipping the hyphens.
pub open spec fn digit_pos(k: int) -> int {
    if k < 8 {
        k
    } else if k < 12 {
        k + 1
    } else if k < 16 {
        k + 2
    } else if k < 20 {
        k + 3
    } else {
        k + 4
    }
}

/// The digit index of a text position that is not a hyphen.
pub open spec fn digit_index(i: int) -> int {
    if i < 8 {
        i
    } else if i < 13 {
        i - 1
    } else if i < 18 {
        i - 2
    } else if i < 23 {
        i - 3
    } else {
        i - 4
    }
}

/// Whether `s` is a UUID text: 36 characters, hyphens exactly at positions
/// 8, 13, 18 and 23, hexadecimal digits everywhere else.
pub open spec fn is_uuid_text(s: Seq<char>) -> bool {
    &&& s.len() == 36
    &&& s[8] == '-'
    &&& s[13] == '-'
    &&& s[18] == '-'
    &&& s[23] == '-'
    &&& forall|k: int| 0 <= k < 32 ==> is_hex_digit(#[trigger] s[digit_pos(k)])
}

/// The 32 digits of a UUID text, hyphens removed.
pub open spec fn digits_of(s: Seq<char>) -> Seq<char> {
    Seq::new(32, |k: int| s[digit_pos(k)])
}

/// The id value named by a UUID text.
pub open spec fn uuid_val(s: Seq<char>) -> u128 {
    hex_to_val(digits_of(s)) as u128
}

/// The canonical text of an id: its 32 lowercase digits with the four
/// hyphens inserted.
pub open spec fn uuid_text(id: u128) -> Seq<char> {
    Seq::new(
        36,
        |i: int|
            if is_hyphen_pos(i) {
                '-'
            } else {
                hex_text(id as int, 32)[digit_index(i)]
            },
    )
}

/// Every entry of `hex_text(v, n)` is a hexadecimal digit.
pub proof fn lemma_hex_text_digits(v: int, n: nat)
    requires
        0 <= v,
    ensures
        hex_text(v, n).len() == n,
        forall|k: int|
            0 <= k < n ==> is_hex_digit(#[trigger] hex_text(v, n)[k]) && hex_val(
                hex_text(v, n)[k],
            ) < 16,
    decreases n,
{
    if n > 0 {
        lemma_hex_text_digits(v / 16, (n - 1) as nat);
        assert(hex_text(v, n) == hex_text(v / 16, (n - 1) as nat).push(hex_digit_char(v % 16)));
        assert(is_hex_digit(hex_digit_char(v % 16)) && hex_val(hex_digit_char(v % 16)) < 16);
    }
}

/// A sequence of hexadecimal digits names a value below `pow16` of its
/// length.
pub proof fn lemma_hex_to_val_bound(ds: Seq<char>)
    requires
        forall|k: int| 0 <= k < ds.len() ==> is_hex_digit(#[trigger] ds[k]),
    ensures
        0 <= hex_to_val(ds) < pow16(ds.len()),
    decreases ds.len(),
{
    if ds.len() > 0 {
        lemma_hex_to_val_bound(ds.drop_last());
        assert(is_hex_digit(ds.last()));
        assert(0 <= hex_val(ds.last()) < 16);
    }
}

/// Reading back the digits of `v` yields `v`: the digit round trip.
pub proof fn lemma_hex_round_trip(v: int, n: nat)
    requires
        0 <= v < pow16(n),
    ensures
        hex_to_val(hex_text(v, n)) == v,
    decreases n,
{
    if n == 0 {
        assert(v == 0);
    } else {
        let q = v / 16;
        let r = v % 16;
        assert(v == 16 * q + r);
        assert(q < pow16((n - 1) as nat)) by {
            if q >= pow16((n - 1) as nat) {
                assert(16 * q >= 16 * pow16((n - 1) as nat));
            }
        }
        lemma_hex_round_trip(q, (n - 1) as nat);
        assert(hex_text(v, n).drop_last() =~= hex_text(q, (n - 1) as nat));
        assert(hex_text(v, n).last() == hex_digit_char(r));
        assert(hex_val(hex_digit_char(r)) == r);
    }
}

pub proof fn lemma_pow16_32()
    ensures
        pow16(32) == 0x100000000000000000000000000000000,
{
    assert(pow16(32) == 0x100000000000000000000000000000000) by {
        reveal_with_fuel(pow16, 33);
    }
}

/// The canonical text of an id is a UUID text and names that id back.
pub proof fn lemma_uuid_round_trip(id: u128)
    ensures
        is_uuid_text(uuid_text(id)),
        uuid_val(uuid_text(id)) == id,
{
    let h = hex_text(id as int, 32);
    lemma_hex_text_digits(id as int, 32);
    let s = uuid_text(id);
    assert forall|k: int| 0 <= k < 32 implies is_hex_digit(#[trigger] s[digit_pos(k)]) by {
        assert(!is_hyphen_pos(digit_pos(k)));
        assert(digit_index(digit_pos(k)) == k);
    }
    assert(digits_of(s) =~= h) by {
        assert forall|k: int| 0 <= k < 32 implies digits_of(s)[k] == h[k] by {
            assert(!is_hyphen_pos(digit_pos(k)));
            assert(digit_index(digit_pos(k)) == k);
        }
    }
    lemma_pow16_32();
    lemma_hex_round_trip(id as int, 32);
}

/// The lowercase digit character of a value below 16.
pub fn hex_char_pub(d: u8) -> (c: char)
    requires
        d < 16,
    ensures
        c == hex_digit_char(d as int),
{
    if d < 10 {
        (48u8 + d) as char
    } else {
        (97u8 + (d - 10)) as char
    }
}

/// The value of a hexadecimal digit character, or `None` for any other
/// character.
pub fn hex_value(c: char) -> (r: Option<u8>)
    ensures
        r is Some <==> is_hex_digit(c),
        r matches Some(d) ==> d == hex_val(c) && d < 16,
{
    if '0' <= c && c <= '9' {
        Some((c as u8) - 48)
    } else if 'a' <= c && c <= 'f' {
        Some(10 + (c as u8) - 97)
    } else if 'A' <= c && c <= 'F' {
        Some(10 + (c as u8) - 65)
    } else {
        None
    }
}

/// `v` written as exactly `n` hexadecimal digits, most significant first.
fn hex_chars(v: u128, n: usize) -> (r: Vec<char>)
    ensures
        r@ == hex_text(v as int, n as nat),
    decreases n,
{
    if n == 0 {
        let r: Vec<char> = Vec::new();
        proof {
            assert(r@ =~= hex_text(v as int, 0));
        }
        r
    } else {
        let mut r = hex_chars(v / 16, n - 1);
        r.push(hex_char_pub((v % 16) as u8));
        r
    }
}

/// The canonical (hyphenated, lowercase) text of an id, as characters.
pub fn uuid_chars(id: u128) -> (r: Vec<char>)
    ensures
        r@ == uuid_text(id),
{
    let h = hex_chars(id, 32);
    proof {
        lemma_hex_text_digits(id as int, 32);
    }
    let mut r: Vec<char> = Vec::new();
    let mut i: usize = 0;
    while i < 36
        invariant
            i <= 36,
            h@ == hex_text(id as int, 32),
            h@.len() == 32,
            r@ =~= uuid_text(id).take(i as int),
        decreases 36 - i,
    {
        if i == 8 || i == 13 || i == 18 || i == 23 {
            r.push('-');
        } else {
            let k: usize = if i < 8 {
                i
            } else if i < 13 {
                i - 1
            } else if i < 18 {
                i - 2
            } else if i < 23 {
                i - 3
            } else {
                i - 4
            };
            r.push(h[k]);
        }
        proof {
            assert(r@ =~= uuid_text(id).take(i as int + 1));
        }
        i = i + 1;
    }
    proof {
        assert(uuid_text(id).take(36) =~= uuid_text(id));
    }
    r
}

/// Parses a UUID text into the id it names: succeeds exactly on texts that
/// `is_uuid_text` accepts.
pub fn parse_uuid(s: &str) -> (r: Option<u128>)
    ensures
        r is Some <==> is_uuid_text(s@),
        r matches Some(v) ==> v == uuid_val(s@),
{
    if s.unicode_len() != 36 {
        return None;
    }
    if !(s.get_char(8) == '-' && s.get_char(13) == '-' && s.get_char(18) == '-' && s.get_char(23)
        == '-') {
        return None;
    }
    let ghost ds = digits_of(s@);
    let mut acc: u128 = 0;
    let mut k: usize = 0;
    while k < 32
        invariant
            k <= 32,
            s@.len() == 36,
            s@[8] == '-' && s@[13] == '-' && s@[18] == '-' && s@[23] == '-',
            ds == digits_of(s@),
            forall|j: int| 0 <= j < k ==> is_hex_digit(#[trigger] s@[digit_pos(j)]),
            acc as int == hex_to_val(ds.take(k as int)),
            (acc as int) < pow16(k as nat),
        decreases 32 - k,
    {
        let pos: usize = if k < 8 {
            k
        } else if k < 12 {
            k + 1
        } else if k < 16 {
            k + 2
        } else if k < 20 {
            k + 3
        } else {
            k + 4
        };
        let c = s.get_char(pos);
        match hex_value(c) {
            None => {
                proof {
                    assert(!is_hex_digit(s@[digit_pos(k as int)]));
                }
                return None;
            },
            Some(d) => {
                proof {
                    lemma_pow16_32();
                    lemma_pow16_mono(k as nat, 31);
                    assert((acc as int) * 16 + d < pow16((k + 1) as nat));
                    assert(pow16((k + 1) as nat) <= pow16(32)) by {
                        lemma_pow16_mono((k + 1) as nat, 32);
                    }
                    assert(ds.take(k as int + 1).drop_last() =~= ds.take(k as int));
                    assert(ds.take(k as int + 1).last() == s@[digit_pos(k as int)]);
                }
                acc = acc * 16 + (d as u128);
            },
        }
        k = k + 1;
    }
    proof {
        assert(ds.take(32) =~= ds);
        lemma_hex_to_val_bound(ds);
    }
    Some(acc)
}

pub proof fn lemma_pow16_mono(a: nat, b: nat)
    requires
        a <= b,
    ensures
        pow16(a) <= pow16(b),
    decreases b,
{
    if a < b {
        lemma_pow16_mono(a, (b - 1) as nat);
        assert(pow16(b) == 16 * pow16((b - 1) as nat));
        assert(pow16((b - 1) as nat) >= 1) by {
            lemma_pow16_pos((b - 1) as nat);
        }
    }
}

pub proof fn lemma_pow16_pos(n: nat)
    ensures
        pow16(n) >= 1,
    decreases n,
{
    if n > 0 {
        lemma_pow16_pos((n - 1) as nat);
    }
}

} // verus!

//! Decimal text form of identity ids: the form a token's subject claim
//! carries, with a verified round trip between numbers and strings.

use vstd::prelude::*;
use vstd::string::*;

verus! {

/// The digit character of a value below ten.
pub open spec fn dec_digit(d: nat) -> char {
    if d == 0 {
        '0'
    } else if d == 1 {
        '1'
    } else if d == 2 {
        '2'
    } else if d == 3 {
        '3'
    } else if d == 4 {
        '4'
    } else if d == 5 {
        '5'
    } else if d == 6 {
        '6'
    } else if d == 7 {
        '7'
    } else if d == 8 {
        '8'
    } else {
        '9'
    }
}

/// The numeric value of a digit character; ten marks a non-digit.
pub open spec fn digit_val(c: char) -> nat {
    if c == '0' {
        0
    } else if c == '1' {
        1
    } else if c == '2' {
        2
    } else if c == '3' {
        3
    } else if c == '4' {
        4
    } else if c == '5' {
        5
    } else if c == '6' {
        6
    } else if c == '7' {
        7
    } else if c == '8' {
        8
    } else if c == '9' {
        9
    } else {
        10
    }
}

pub open spec fn is_digit(c: char) -> bool {
    digit_val(c) < 10
}

/// The decimal numeral of `n`, most significant digit first.
pub open spec fn dec_of(n: nat) -> Seq<char>
    decreases n,
{
    if n < 10 {
        seq![dec_digit(n)]
    } else {
        dec_of(n / 10).push(dec_digit(n % 10))
    }
}

/// The value of a digit string, most significant digit first.
pub open spec fn dec_val(s: Seq<char>) -> nat
    decreases s.len(),
{
    if s.len() == 0 {
        0
    } else {
        dec_val(s.drop_last()) * 10 + digit_val(s.last())
    }
}

pub open spec fn all_digits(s: Seq<char>) -> bool {
    forall|i: int| 0 <= i < s.len() ==> is_digit(s[i])
}

/// A canonical decimal numeral: nonempty, digits only, no leading zero, and
/// a value that fits in `u64`.
pub open spec fn is_canonical_dec(s: Seq<char>) -> bool {
    &&& s.len() > 0
    &&& all_digits(s)
    &&& s.len() > 1 ==> s[0] != '0'
    &&& dec_val(s) <= u64::MAX
}

/// What parsing an id string yields: the value of a canonical numeral,
/// nothing for any other string.
pub open spec fn dec_parse(s: Seq<char>) -> Option<u64> {
    if is_canonical_dec(s) {
        Some(dec_val(s) as u64)
    } else {
        None
    }
}

fn digit_str(d: u8) -> (r: &'static str)
    requires
        d < 10,
    ensures
        r@ == seq![dec_digit(d as nat)],
{
    proof {
        reveal_strlit("0");
        reveal_strlit("1");
        reveal_strlit("2");
        reveal_strlit("3");
        reveal_strlit("4");
        reveal_strlit("5");
        reveal_strlit("6");
        reveal_strlit("7");
        reveal_strlit("8");
        reveal_strlit("9");
    }
    let r: &'static str = if d == 0 {
        "0"
    } else if d == 1 {
        "1"
    } else if d == 2 {
        "2"
    } else if d == 3 {
        "3"
    } else if d == 4 {
        "4"
    } else if d == 5 {
        "5"
    } else if d == 6 {
        "6"
    } else if d == 7 {
        "7"
    } else if d == 8 {
        "8"
    } else {
        "9"
    };
    proof {
        assert(r@ =~= seq![dec_digit(d as nat)]);
    }
    r
}

fn char_digit(c: char) -> (r: Option<u8>)
    ensures
        r == (if is_digit(c) {
            Some(digit_val(c) as u8)
        } else {
            None::<u8>
        }),
{
    if c == '0' {
        Some(0)
    } else if c == '1' {
        Some(1)
    } else if c == '2' {
        Some(2)
    } else if c == '3' {
        Some(3)
    } else if c == '4' {
        Some(4)
    } else if c == '5' {
        Some(5)
    } else if c == '6' {
        Some(6)
    } else if c == '7' {
        Some(7)
    } else if c == '8' {
        Some(8)
    } else if c == '9' {
        Some(9)
    } else {
        None
    }
}

/// Renders an identity id as its canonical decimal numeral.
pub fn format_u64(n: u64) -> (r: String)
    ensures
        r@ == dec_of(n as nat),
    decreases n,
{
    if n < 10 {
        let s = digit_str(n as u8);
        String::from_str(s)
    } else {
        let mut s = format_u64(n / 10);
        let d = digit_str((n % 10) as u8);
        s.append(d);
        proof {
            assert(s@ =~= dec_of(n as nat));
        }
        s
    }
}

/// Value of every longer prefix is at least the value of a shorter one.
proof fn lemma_dec_val_take_monotone(s: Seq<char>, i: int, j: int)
    requires
        0 <= i <= j <= s.len(),
    ensures
        dec_val(s.take(j)) >= dec_val(s.take(i)),
    decreases j - i,
{
    if i < j {
        lemma_dec_val_take_monotone(s, i, j - 1);
        assert(s.take(j).drop_last() =~= s.take(j - 1));
        assert(s.take(j).last() == s[j - 1]);
    }
}

/// Parses a canonical decimal numeral; returns nothing on any string that is
/// not the canonical form of a `u64`.
pub fn parse_u64(s: &str) -> (r: Option<u64>)
    ensures
        r == dec_parse(s@),
{
    let len = s.unicode_len();
    if len == 0 {
        return None;
    }
    let c0 = s.get_char(0);
    if len > 1 && c0 == '0' {
        return None;
    }
    let mut acc: u64 = 0;
    let mut i: usize = 0;
    while i < len
        invariant
            0 <= i <= len,
            len == s@.len(),
            all_digits(s@.take(i as int)),
            acc == dec_val(s@.take(i as int)),
            s@.len() > 1 ==> s@[0] != '0',
        decreases len - i,
    {
        let c = s.get_char(i);
        match char_digit(c) {
            None => {
                assert(!is_digit(s@[i as int]));
                return None;
            },
            Some(dv) => {
                if acc > (u64::MAX - dv as u64) / 10 {
                    proof {
                        assert(s@.take(i + 1).drop_last() =~= s@.take(i as int));
                        assert(s@.take(i + 1).last() == s@[i as int]);
                        assert(dec_val(s@.take(i + 1)) > u64::MAX);
                        lemma_dec_val_take_monotone(s@, i + 1, len as int);
                        assert(s@.take(len as int) =~= s@);
                    }
                    return None;
                }
                proof {
                    assert(s@.take(i + 1).drop_last() =~= s@.take(i as int));
                    assert(s@.take(i + 1).last() == s@[i as int]);
                }
                acc = acc * 10 + dv as u64;
            },
        }
        i += 1;
    }
    proof {
        assert(s@.take(len as int) =~= s@);
    }
    Some(acc)
}

proof fn lemma_dec_of_len(m: nat)
    ensures
        dec_of(m).len() >= 1,
    decreases m,
{
    if m >= 10 {
        lemma_dec_of_len(m / 10);
    }
}

/// Every `u64` round-trips: its numeral is canonical and parses back to it.
pub proof fn lemma_dec_of_canonical(n: u64)
    ensures
        is_canonical_dec(dec_of(n as nat)),
        dec_val(dec_of(n as nat)) == n,
        dec_parse(dec_of(n as nat)) == Some(n),
    decreases n,
{
    if n < 10 {
        let s = dec_of(n as nat);
        assert(s.len() == 1);
        assert(s.drop_last() =~= Seq::<char>::empty());
        assert(s.last() == dec_digit(n as nat));
        assert(digit_val(dec_digit(n as nat)) == n);
        assert(dec_val(Seq::<char>::empty()) == 0);
        assert(dec_val(s) == n);
    } else {
        lemma_dec_of_canonical(n / 10);
        let p = dec_of((n / 10) as nat);
        let s = dec_of(n as nat);
        assert(s == p.push(dec_digit((n % 10) as nat)));
        assert(s.drop_last() =~= p);
        assert(digit_val(dec_digit((n % 10) as nat)) == n % 10);
        assert(dec_val(s) == dec_val(p) * 10 + (n % 10));
        assert(dec_val(p) == n / 10);
        assert((n / 10) * 10 + (n % 10) == n) by {
            vstd::arithmetic::div_mod::lemma_fundamental_div_mod(n as int, 10);
        }
        assert(dec_val(s) == n);
        assert forall|i: int| 0 <= i < s.len() implies is_digit(s[i]) by {
            if i < p.len() {
                assert(is_digit(p[i]));
            }
        }
        assert(s[0] == p[0]);
        if p.len() == 1 {
            if n / 10 >= 10 {
                lemma_dec_of_len(((n / 10) / 10) as nat);
                assert(p.len() >= 2);
            }
            assert(n / 10 < 10);
            assert(p[0] == dec_digit((n / 10) as nat));
            assert(n / 10 >= 1);
            assert(digit_val(dec_digit((n / 10) as nat)) == n / 10);
        }
        assert(s[0] != '0');
    }
}

} // verus!

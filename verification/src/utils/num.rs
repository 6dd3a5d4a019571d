//! Verified decimal rendering and parsing for the integer codes the remote
//! verifier protocol speaks.

use vstd::prelude::*;
use vstd::string::StrSliceExecFns;
use vstd::string::StringExecFns;

verus! {

/// The decimal digit character for `d`.
pub open spec fn spec_digit(d: int) -> char {
    if d == 0 {
        '0'
    } else if d == 1 {
        '1'
    } else if d == 2 {
        '2'
    } else if d == 3 {
        '3'
    } else if d == 4 {
        '4'
    } else if d == 5 {
        '5'
    } else if d == 6 {
        '6'
    } else if d == 7 {
        '7'
    } else if d == 8 {
        '8'
    } else {
        '9'
    }
}

/// The value of a decimal digit character, or nothing.
pub open spec fn spec_digit_val(c: char) -> Option<int> {
    if c == '0' {
        Some(0int)
    } else if c == '1' {
        Some(1int)
    } else if c == '2' {
        Some(2int)
    } else if c == '3' {
        Some(3int)
    } else if c == '4' {
        Some(4int)
    } else if c == '5' {
        Some(5int)
    } else if c == '6' {
        Some(6int)
    } else if c == '7' {
        Some(7int)
    } else if c == '8' {
        Some(8int)
    } else if c == '9' {
        Some(9int)
    } else {
        None
    }
}

/// The decimal rendering of a non-negative integer, shortest form.
pub open spec fn spec_dec(n: int) -> Seq<char>
    decreases n,
{
    if n < 10 {
        seq![spec_digit(n)]
    } else {
        spec_dec(n / 10).push(spec_digit(n % 10))
    }
}

/// The decimal rendering of a signed integer: a minus sign, if negative,
/// then the magnitude.
pub open spec fn spec_dec_signed(n: int) -> Seq<char> {
    if n < 0 {
        seq!['-'] + spec_dec(-n)
    } else {
        spec_dec(n)
    }
}

/// The single-character string for the digit `d`.
fn digit_str(d: u8) -> (r: &'static str)
    requires
        d <= 9,
    ensures
        r@ == seq![spec_digit(d as int)],
{
    proof {
        reveal_strlit("0");
        reveal_strlit("1");
        reveal_strlit("2");
        reveal_strlit("3");
        reveal_strlit("4");
        reveal_strlit("5");
        reveal_strlit("6");
        reveal_strlit("7");
        reveal_strlit("8");
        reveal_strlit("9");
    }
    match d {
        0 => "0",
        1 => "1",
        2 => "2",
        3 => "3",
        4 => "4",
        5 => "5",
        6 => "6",
        7 => "7",
        8 => "8",
        _ => "9",
    }
}

/// Renders `v` in decimal, exactly as [`spec_dec`] says.
pub fn u64_to_dec(v: u64) -> (r: String)
    ensures
        r@ == spec_dec(v as int),
    decreases v,
{
    if v < 10 {
        digit_str(v as u8).to_owned()
    } else {
        let mut s = u64_to_dec(v / 10);
        s.append(digit_str((v % 10) as u8));
        proof {
            assert(s@ =~= spec_dec((v / 10) as int).push(spec_digit((v % 10) as int)));
        }
        s
    }
}

/// Renders `v` in decimal with its sign, exactly as [`spec_dec_signed`] says.
pub fn i64_to_dec(v: i64) -> (r: String)
    ensures
        r@ == spec_dec_signed(v as int),
{
    if v >= 0 {
        u64_to_dec(v as u64)
    } else {
        let mag: u64 = (-(v as i128)) as u64;
        proof {
            assert(mag as int == -(v as int));
        }
        let mut s = String::from_str("-");
        proof {
            reveal_strlit("-");
        }
        let rest = u64_to_dec(mag);
        s.append(rest.as_str());
        proof {
            assert(s@ =~= seq!['-'] + spec_dec(-(v as int)));
        }
        s
    }
}

/// The value of a non-empty, all-digit sequence, most significant first.
pub open spec fn spec_digits_val(s: Seq<char>) -> Option<int>
    decreases s.len(),
{
    if s.len() == 0 {
        None
    } else if s.len() == 1 {
        spec_digit_val(s[0])
    } else {
        match (spec_digits_val(s.drop_last()), spec_digit_val(s.last())) {
            (Some(hi), Some(lo)) => Some(hi * 10 + lo),
            _ => None,
        }
    }
}

/// What `str::parse::<i32>` accepts: an optional sign, then at least one
/// digit, with the signed value in the range of `i32`.
pub open spec fn spec_parse_i32(s: Seq<char>) -> Option<int> {
    let (neg, ds) = if s.len() > 0 && (s[0] == '-' || s[0] == '+') {
        (s[0] == '-', s.drop_first())
    } else {
        (false, s)
    };
    match spec_digits_val(ds) {
        Some(v) => {
            let sv = if neg {
                -v
            } else {
                v
            };
            if -0x8000_0000 <= sv < 0x8000_0000 {
                Some(sv)
            } else {
                None
            }
        },
        None => None,
    }
}

/// A digit sequence is worth no less than any of its prefixes.
proof fn lemma_digits_val_prefix_le(s: Seq<char>, k: int)
    requires
        1 <= k <= s.len(),
        spec_digits_val(s) is Some,
    ensures
        spec_digits_val(s.subrange(0, k)) matches Some(p) && p <= spec_digits_val(s).unwrap(),
        spec_digits_val(s).unwrap() >= 0,
    decreases s.len() - k,
{
    if k == s.len() {
        assert(s.subrange(0, k) =~= s);
        lemma_digits_val_nonneg(s);
    } else {
        lemma_digits_val_prefix_le(s, k + 1);
        let t = s.subrange(0, k + 1);
        assert(t.drop_last() =~= s.subrange(0, k));
        assert(spec_digits_val(t) is Some);
        if k + 1 == 1 {
            assert(false);
        } else {
            lemma_digits_val_nonneg(s.subrange(0, k));
        }
    }
}

/// A valid digit sequence has a non-negative value.
proof fn lemma_digits_val_nonneg(s: Seq<char>)
    requires
        spec_digits_val(s) is Some,
    ensures
        spec_digits_val(s).unwrap() >= 0,
    decreases s.len(),
{
    if s.len() > 1 {
        lemma_digits_val_nonneg(s.drop_last());
    }
}

/// The value of one digit character, or nothing.
fn digit_val(c: char) -> (r: Option<u8>)
    ensures
        match r {
            Some(d) => spec_digit_val(c) == Some(d as int) && d <= 9,
            None => spec_digit_val(c) is None,
        },
{
    match c {
        '0' => Some(0),
        '1' => Some(1),
        '2' => Some(2),
        '3' => Some(3),
        '4' => Some(4),
        '5' => Some(5),
        '6' => Some(6),
        '7' => Some(7),
        '8' => Some(8),
        '9' => Some(9),
        _ => None,
    }
}

/// Parses a decimal integer, exactly as [`spec_parse_i32`] says.
pub fn parse_i32(s: &str) -> (r: Option<i32>)
    ensures
        match r {
            Some(v) => spec_parse_i32(s@) == Some(v as int),
            None => spec_parse_i32(s@) is None,
        },
{
    let n = s.unicode_len();
    if n == 0 {
        return None;
    }
    let first = s.get_char(0);
    let neg = first == '-';
    let start: usize = if first == '-' || first == '+' {
        1
    } else {
        0
    };
    let ghost ds = if start == 1 {
        s@.drop_first()
    } else {
        s@
    };
    proof {
        if start == 1 {
            assert(ds =~= s@.subrange(1, n as int));
        } else {
            assert(ds =~= s@.subrange(0, n as int));
        }
    }
    if start == n {
        return None;
    }
    let mut acc: i64 = 0;
    let mut i: usize = start;
    while i < n
        invariant
            start <= i <= n,
            n == s@.len(),
            start == 0 || start == 1,
            start < n,
            start == 1 <==> (s@[0] == '-' || s@[0] == '+'),
            ds == s@.subrange(start as int, n as int),
            i > start ==> spec_digits_val(s@.subrange(start as int, i as int)) == Some(
                acc as int,
            ),
            i == start ==> acc == 0,
            0 <= acc <= 0x8000_0000,
        decreases n - i,
    {
        let c = s.get_char(i);
        match digit_val(c) {
            Some(d) => {
                let ghost pre = s@.subrange(start as int, i as int);
                let ghost cur = s@.subrange(start as int, i as int + 1);
                proof {
                    assert(cur.drop_last() =~= pre);
                    assert(cur.last() == s@[i as int]);
                }
                if i == start {
                    acc = d as i64;
                    proof {
                        assert(cur.len() == 1);
                        assert(spec_digits_val(cur) == Some(acc as int));
                    }
                } else {
                    acc = acc * 10 + (d as i64);
                    proof {
                        assert(spec_digits_val(cur) == Some(acc as int));
                    }
                    if acc > 0x8000_0000 {
                        proof {
                            if start == 1 {
                                assert(ds =~= s@.drop_first());
                            } else {
                                assert(ds =~= s@);
                            }
                            if spec_digits_val(ds) is Some {
                                assert(ds.subrange(0, i as int + 1 - start as int) =~= cur);
                                lemma_digits_val_prefix_le(ds, i as int + 1 - start as int);
                                assert(spec_digits_val(ds).unwrap() >= acc as int);
                            }
                            assert(spec_parse_i32(s@) is None);
                        }
                        return None;
                    }
                }
            },
            None => {
                proof {
                    if start == 1 {
                        assert(ds =~= s@.drop_first());
                    } else {
                        assert(ds =~= s@);
                    }
                    if spec_digits_val(ds) is Some {
                        lemma_digits_val_some_all_digits(ds);
                        assert(ds[i as int - start as int] == s@[i as int]);
                        assert(false);
                    }
                    assert(spec_parse_i32(s@) is None);
                }
                return None;
            },
        }
        i = i + 1;
    }
    proof {
        assert(s@.subrange(start as int, n as int) =~= ds);
    }
    if neg {
        let v = -acc;
        if v < -0x8000_0000i64 {
            return None;
        }
        Some(v as i32)
    } else {
        if acc > 0x7fff_ffff {
            return None;
        }
        Some(acc as i32)
    }
}

/// Every character of a valid digit sequence is a digit.
proof fn lemma_digits_val_some_all_digits(s: Seq<char>)
    requires
        spec_digits_val(s) is Some,
    ensures
        forall|j: int| 0 <= j < s.len() ==> spec_digit_val(#[trigger] s[j]) is Some,
    decreases s.len(),
{
    if s.len() > 1 {
        lemma_digits_val_some_all_digits(s.drop_last());
        assert forall|j: int| 0 <= j < s.len() implies spec_digit_val(#[trigger] s[j])
            is Some by {
            if j < s.len() - 1 {
                assert(s.drop_last()[j] == s[j]);
            }
        }
    }
}

} // verus!

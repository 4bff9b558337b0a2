use crate::report::Decimal;
use vstd::prelude::*;

verus! {

/// The value of `c` as a digit in base `radix` (10 or 16).
pub open spec fn digit_value(c: char, radix: nat) -> Option<nat> {
    if '0' <= c && c <= '9' {
        Some((c as u32 - '0' as u32) as nat)
    } else if radix == 16 && 'a' <= c && c <= 'f' {
        Some((c as u32 - 'a' as u32 + 10) as nat)
    } else if radix == 16 && 'A' <= c && c <= 'F' {
        Some((c as u32 - 'A' as u32 + 10) as nat)
    } else {
        None
    }
}

/// The number that the digits `t` spell in base `radix`; `None` where a
/// character is no digit or the number leaves the `u64` range.
pub open spec fn digits_value(t: Seq<char>, radix: nat) -> Option<nat>
    decreases t.len(),
{
    if t.len() == 0 {
        Some(0)
    } else {
        match (digits_value(t.drop_last(), radix), digit_value(t.last(), radix)) {
            (Some(v), Some(d)) => if v * radix + d <= u64::MAX {
                Some(v * radix + d)
            } else {
                None
            },
            _ => None,
        }
    }
}

/// `s` without one leading `+`.
pub open spec fn strip_plus(s: Seq<char>) -> Seq<char> {
    if s.len() > 0 && s[0] == '+' {
        s.skip(1)
    } else {
        s
    }
}

/// An unsigned integer in base `radix`: an optional `+` and at least one digit.
pub open spec fn unsigned_of(s: Seq<char>, radix: nat) -> Option<u64> {
    let t = strip_plus(s);
    if t.len() == 0 {
        None
    } else {
        match digits_value(t, radix) {
            Some(v) => Some(v as u64),
            None => None,
        }
    }
}

/// A count field: hexadecimal after a `0x` prefix, decimal otherwise.
pub open spec fn count_of(s: Seq<char>) -> Option<u64> {
    if s.len() >= 2 && s[0] == '0' && s[1] == 'x' {
        unsigned_of(s.skip(2), 16)
    } else {
        unsigned_of(s, 10)
    }
}

fn digit_of(c: char, radix: u64) -> (r: Option<u64>)
    requires
        radix == 10 || radix == 16,
    ensures
        r matches Some(d) ==> d < radix,
        r == (match digit_value(c, radix as nat) {
            Some(d) => Some(d as u64),
            None => None,
        }),
{
    if '0' <= c && c <= '9' {
        Some((c as u32 - '0' as u32) as u64)
    } else if radix == 16 && 'a' <= c && c <= 'f' {
        Some((c as u32 - 'a' as u32 + 10) as u64)
    } else if radix == 16 && 'A' <= c && c <= 'F' {
        Some((c as u32 - 'A' as u32 + 10) as u64)
    } else {
        None
    }
}

/// Reads `s@.skip(start)` as an unsigned integer in base `radix`.
fn parse_unsigned_from(s: &str, start: usize, radix: u64) -> (r: Option<u64>)
    requires
        radix == 10 || radix == 16,
        start <= s@.len(),
    ensures
        r == unsigned_of(s@.skip(start as int), radix as nat),
{
    let n = s.unicode_len();
    let ghost u = s@.skip(start as int);
    let mut begin: usize = start;
    if start < n && s.get_char(start) == '+' {
        begin = start + 1;
    }
    assert(strip_plus(u) =~= s@.subrange(begin as int, n as int));
    if begin == n {
        return None;
    }
    let mut acc: u64 = 0;
    let mut i: usize = begin;
    assert(s@.subrange(begin as int, begin as int) =~= Seq::<char>::empty());
    while i < n
        invariant
            n == s@.len(),
            begin <= i <= n,
            radix == 10 || radix == 16,
            u == s@.skip(start as int),
            strip_plus(u) == s@.subrange(begin as int, n as int),
            digits_value(s@.subrange(begin as int, i as int), radix as nat) == Some(acc as nat),
        decreases n - i,
    {
        let ghost pre = s@.subrange(begin as int, i as int);
        let ghost next = s@.subrange(begin as int, i + 1);
        assert(next.drop_last() =~= pre);
        assert(next.last() == s@[i as int]);
        match digit_of(s.get_char(i), radix) {
            None => {
                proof {
                    lemma_digits_value_prefix_fails(s@.subrange(begin as int, n as int), (i - begin) as int, radix as nat);
                    assert(s@.subrange(begin as int, n as int).take((i - begin + 1) as int) =~= next);
                }
                return None;
            },
            Some(d) => {
                let q: u64 = (u64::MAX - d) / radix;
                if acc > q {
                    proof {
                        assert((acc as int) * (radix as int) + d as int > u64::MAX) by (nonlinear_arith)
                            requires
                                acc as int > q as int,
                                q as int == (u64::MAX as int - d as int) / (radix as int),
                                radix as int > 0,
                                d as int >= 0;
                        assert(digit_value(next.last(), radix as nat) == Some(d as nat));
                        assert(digits_value(next, radix as nat).is_none());
                        assert(s@.subrange(begin as int, n as int).take((i - begin + 1) as int) =~= next);
                        lemma_digits_value_prefix_fails(s@.subrange(begin as int, n as int), (i - begin) as int, radix as nat);
                    }
                    return None;
                }
                assert((acc as int) * (radix as int) + d as int <= u64::MAX) by (nonlinear_arith)
                    requires
                        acc as int <= q as int,
                        q as int == (u64::MAX as int - d as int) / (radix as int),
                        radix as int > 0,
                        d as int >= 0;
                acc = acc * radix + d;
                i = i + 1;
            },
        }
    }
    assert(s@.subrange(begin as int, n as int) =~= strip_plus(u));
    Some(acc)
}

/// Once a prefix of the digits fails to read, the whole fails too.
proof fn lemma_digits_value_prefix_fails(t: Seq<char>, k: int, radix: nat)
    requires
        0 <= k < t.len(),
        digits_value(t.take(k + 1), radix).is_none(),
    ensures
        digits_value(t, radix).is_none(),
    decreases t.len(),
{
    if k + 1 < t.len() {
        assert(t.drop_last().take(k + 1) =~= t.take(k + 1));
        lemma_digits_value_prefix_fails(t.drop_last(), k, radix);
    } else {
        assert(t.take(k + 1) =~= t);
    }
}

/// Reads a count field.
pub fn parse_count(s: &str) -> (r: Option<u64>)
    ensures
        r == count_of(s@),
{
    let n = s.unicode_len();
    if n >= 2 && s.get_char(0) == '0' && s.get_char(1) == 'x' {
        parse_unsigned_from(s, 2, 16)
    } else {
        assert(s@.skip(0) =~= s@);
        parse_unsigned_from(s, 0, 10)
    }
}

/// The state after reading the characters `t` of a rate: mantissa, scale,
/// whether the decimal point was seen, and how many digits were read.
/// `None` once a character is neither a digit nor the first point, or the
/// mantissa or the scale leaves its range.
pub open spec fn rate_scan(t: Seq<char>) -> Option<(nat, nat, bool, nat)>
    decreases t.len(),
{
    if t.len() == 0 {
        Some((0, 0, false, 0))
    } else {
        match rate_scan(t.drop_last()) {
            None => None,
            Some((m, sc, point, nd)) => {
                let c = t.last();
                if '0' <= c && c <= '9' {
                    let m2 = m * 10 + (c as u32 - '0' as u32) as nat;
                    let sc2 = if point {
                        sc + 1
                    } else {
                        sc
                    };
                    if m2 <= u64::MAX && sc2 <= u32::MAX {
                        Some((m2, sc2, point, nd + 1))
                    } else {
                        None
                    }
                } else if c == '.' && !point {
                    Some((m, sc, true, nd))
                } else {
                    None
                }
            },
        }
    }
}

/// A rate field: an optional `+`, then digits with at most one decimal
/// point, at least one digit in all.
pub open spec fn rate_of(s: Seq<char>) -> Option<Decimal> {
    match rate_scan(strip_plus(s)) {
        Some((m, sc, _, nd)) => if nd > 0 {
            Some(Decimal { mantissa: m as u64, scale: sc as u32 })
        } else {
            None
        },
        None => None,
    }
}

proof fn lemma_rate_scan_prefix_fails(t: Seq<char>, k: int)
    requires
        0 <= k < t.len(),
        rate_scan(t.take(k + 1)).is_none(),
    ensures
        rate_scan(t).is_none(),
    decreases t.len(),
{
    if k + 1 < t.len() {
        assert(t.drop_last().take(k + 1) =~= t.take(k + 1));
        lemma_rate_scan_prefix_fails(t.drop_last(), k);
    } else {
        assert(t.take(k + 1) =~= t);
    }
}

/// Reads a rate field.
pub fn parse_rate(s: &str) -> (r: Option<Decimal>)
    ensures
        r == rate_of(s@),
{
    let n = s.unicode_len();
    let mut begin: usize = 0;
    if n > 0 && s.get_char(0) == '+' {
        begin = 1;
    }
    assert(strip_plus(s@) =~= s@.subrange(begin as int, n as int));
    let mut m: u64 = 0;
    let mut sc: u32 = 0;
    let mut point: bool = false;
    let mut nd: usize = 0;
    let mut i: usize = begin;
    assert(s@.subrange(begin as int, begin as int) =~= Seq::<char>::empty());
    while i < n
        invariant
            n == s@.len(),
            begin <= i <= n,
            nd <= i,
            strip_plus(s@) == s@.subrange(begin as int, n as int),
            rate_scan(s@.subrange(begin as int, i as int)) == Some((m as nat, sc as nat, point, nd as nat)),
        decreases n - i,
    {
        let ghost next = s@.subrange(begin as int, i + 1);
        assert(next.drop_last() =~= s@.subrange(begin as int, i as int));
        assert(next.last() == s@[i as int]);
        assert(s@.subrange(begin as int, n as int).take((i - begin + 1) as int) =~= next);
        let c = s.get_char(i);
        if '0' <= c && c <= '9' {
            let d = (c as u32 - '0' as u32) as u64;
            if m > (u64::MAX - d) / 10 || (point && sc == u32::MAX) {
                proof {
                    assert(rate_scan(next).is_none());
                    lemma_rate_scan_prefix_fails(s@.subrange(begin as int, n as int), (i - begin) as int);
                }
                return None;
            }
            m = m * 10 + d;
            if point {
                sc = sc + 1;
            }
            nd = nd + 1;
        } else if c == '.' && !point {
            point = true;
        } else {
            proof {
                lemma_rate_scan_prefix_fails(s@.subrange(begin as int, n as int), (i - begin) as int);
            }
            return None;
        }
        i = i + 1;
    }
    if nd == 0 {
        None
    } else {
        Some(Decimal { mantissa: m, scale: sc })
    }
}

} // verus!

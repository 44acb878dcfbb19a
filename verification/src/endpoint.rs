//! The endpoint grammar: `a.b.c.d:port` with four decimal octets in
//! 0..=255 and a port in 0..=65535, digits only, no group empty and no
//! leading zero (except the single digit `0`). Startup validates every
//! configured endpoint against this grammar.

use vstd::prelude::*;
use vstd::string::StrSliceExecFns;

verus! {

/// A decimal digit.
pub open spec fn is_dec_digit(c: char) -> bool {
    '0' <= c && c <= '9'
}

/// The numeric value of a decimal digit.
pub open spec fn digit_val(c: char) -> int {
    c as int - '0' as int
}

/// Every character is a decimal digit.
pub open spec fn all_dec_digits(s: Seq<char>) -> bool {
    forall|i: int| 0 <= i < s.len() ==> is_dec_digit(#[trigger] s[i])
}

/// The number written by a digit string, most significant digit first.
pub open spec fn dec_value(s: Seq<char>) -> int
    decreases s.len(),
{
    if s.len() == 0 {
        0
    } else {
        dec_value(s.drop_last()) * 10 + digit_val(s.last())
    }
}

/// A decimal group: nonempty, digits only, and no leading zero unless
/// the group is the single digit `0`.
pub open spec fn valid_dec_group(s: Seq<char>) -> bool {
    &&& s.len() >= 1
    &&& all_dec_digits(s)
    &&& (s[0] != '0' || s.len() == 1)
}

/// One address octet: a decimal group of at most three digits whose
/// value is at most 255.
pub open spec fn valid_octet(s: Seq<char>) -> bool {
    valid_dec_group(s) && s.len() <= 3 && dec_value(s) <= 255
}

/// A port: a decimal group of at most five digits whose value is at
/// most 65535.
pub open spec fn valid_port_str(s: Seq<char>) -> bool {
    valid_dec_group(s) && s.len() <= 5 && dec_value(s) <= 65535
}

/// The positions `i`, `j`, `k` split `s` into four valid octets.
pub open spec fn valid_ipv4_at(s: Seq<char>, i: int, j: int, k: int) -> bool {
    &&& 0 < i && i < j && j < k && k < s.len()
    &&& s[i] == '.'
    &&& s[j] == '.'
    &&& s[k] == '.'
    &&& valid_octet(s.subrange(0, i))
    &&& valid_octet(s.subrange(i + 1, j))
    &&& valid_octet(s.subrange(j + 1, k))
    &&& valid_octet(s.subrange(k + 1, s.len() as int))
}

/// Four valid octets separated by dots.
pub open spec fn valid_ipv4(s: Seq<char>) -> bool {
    exists|i: int, j: int, k: int| valid_ipv4_at(s, i, j, k)
}

/// The position `p` splits `s` into a valid address and a valid port.
pub open spec fn valid_endpoint_at(s: Seq<char>, p: int) -> bool {
    &&& 0 < p < s.len()
    &&& s[p] == ':'
    &&& valid_ipv4(s.subrange(0, p))
    &&& valid_port_str(s.subrange(p + 1, s.len() as int))
}

/// A valid address, a colon, and a valid port.
pub open spec fn valid_endpoint(s: Seq<char>) -> bool {
    exists|p: int| valid_endpoint_at(s, p)
}

/// Every character of a valid address is a digit or a dot.
proof fn lemma_ipv4_chars(s: Seq<char>)
    requires
        valid_ipv4(s),
    ensures
        forall|m: int| 0 <= m < s.len() ==> is_dec_digit(#[trigger] s[m]) || s[m] == '.',
{
    let (i, j, k): (int, int, int) = choose|i: int, j: int, k: int| valid_ipv4_at(s, i, j, k);
    assert(valid_ipv4_at(s, i, j, k));
    assert forall|m: int| 0 <= m < s.len() implies is_dec_digit(#[trigger] s[m]) || s[m]
        == '.' by {
        if m < i {
            assert(s.subrange(0, i)[m] == s[m]);
        } else if m == i || m == j || m == k {
        } else if m < j {
            assert(s.subrange(i + 1, j)[m - (i + 1)] == s[m]);
        } else if m < k {
            assert(s.subrange(j + 1, k)[m - (j + 1)] == s[m]);
        } else {
            assert(s.subrange(k + 1, s.len() as int)[m - (k + 1)] == s[m]);
        }
    }
}

/// A digit string of length n writes a number below 10^n.
proof fn lemma_dec_value_bound(s: Seq<char>)
    requires
        all_dec_digits(s),
    ensures
        0 <= dec_value(s),
        s.len() <= 3 ==> dec_value(s) < 1000,
        s.len() <= 5 ==> dec_value(s) < 100000,
        s.len() <= 4 ==> dec_value(s) < 10000,
        s.len() <= 2 ==> dec_value(s) < 100,
        s.len() <= 1 ==> dec_value(s) < 10,
    decreases s.len(),
{
    if s.len() > 0 {
        assert(all_dec_digits(s.drop_last())) by {
            assert(forall|i: int| 0 <= i < s.len() - 1 ==> s.drop_last()[i] == s[i]);
        }
        lemma_dec_value_bound(s.drop_last());
        assert(0 <= digit_val(s.last()) < 10);
    }
}

/// Whether the characters of `s` in `[from, to)` are all digits; if not,
/// the subrange is no decimal group.
fn check_digits(s: &str, from: usize, to: usize) -> (r: bool)
    requires
        from <= to && to <= s@.len(),
    ensures
        r == all_dec_digits(s@.subrange(from as int, to as int)),
{
    let ghost sub = s@.subrange(from as int, to as int);
    let mut i = from;
    while i < to
        invariant
            from <= i <= to && to <= s@.len(),
            sub == s@.subrange(from as int, to as int),
            forall|m: int| 0 <= m < i - from ==> is_dec_digit(#[trigger] sub[m]),
        decreases to - i,
    {
        let c = s.get_char(i);
        proof {
            assert(sub[i - from] == s@[i as int]);
        }
        if !('0' <= c && c <= '9') {
            return false;
        }
        i = i + 1;
    }
    true
}

/// The value written by the digits of `s` in `[from, to)`.
fn dec_value_of(s: &str, from: usize, to: usize) -> (v: u32)
    requires
        from <= to && to <= s@.len(),
        to - from <= 5,
        all_dec_digits(s@.subrange(from as int, to as int)),
    ensures
        v == dec_value(s@.subrange(from as int, to as int)),
        v < 100000,
{
    let ghost sub = s@.subrange(from as int, to as int);
    let mut v: u32 = 0;
    let mut i = from;
    while i < to
        invariant
            from <= i <= to && to <= s@.len(),
            to - from <= 5,
            sub == s@.subrange(from as int, to as int),
            all_dec_digits(sub),
            v == dec_value(sub.take(i - from)),
            v < 100000,
        decreases to - i,
    {
        let c = s.get_char(i);
        proof {
            assert(sub[i - from] == s@[i as int]);
            assert(sub.take(i - from + 1).drop_last() =~= sub.take(i - from));
            assert(sub.take(i - from + 1).last() == sub[i - from]);
            assert(all_dec_digits(sub.take(i - from))) by {
                assert(forall|m: int| 0 <= m < i - from ==> sub.take(i - from)[m] == sub[m]);
            }
            lemma_dec_value_bound(sub.take(i - from));
            assert(sub.take(i - from).len() <= 4);
        }
        let d = (c as u32) - 48;
        proof {
            assert('0' as int == 48);
            assert(d == digit_val(sub[i - from]));
        }
        v = v * 10 + d;
        i = i + 1;
        proof {
            assert(all_dec_digits(sub.take(i - from))) by {
                assert(forall|m: int| 0 <= m < i - from ==> sub.take(i - from)[m] == sub[m]);
            }
            lemma_dec_value_bound(sub.take(i - from));
        }
    }
    proof {
        assert(sub.take(to - from) =~= sub);
    }
    v
}

/// Whether the characters of `s` in `[from, to)` form a decimal group of
/// at most `max_len` digits writing a value of at most `max_val`.
fn check_group(s: &str, from: usize, to: usize, max_len: usize, max_val: u32) -> (r: bool)
    requires
        from <= to && to <= s@.len(),
        max_len <= 5,
    ensures
        r == {
            let sub = s@.subrange(from as int, to as int);
            valid_dec_group(sub) && sub.len() <= max_len && dec_value(sub) <= max_val
        },
{
    let ghost sub = s@.subrange(from as int, to as int);
    if to - from < 1 || to - from > max_len {
        return false;
    }
    if !check_digits(s, from, to) {
        return false;
    }
    let first = s.get_char(from);
    proof {
        assert(sub[0] == s@[from as int]);
    }
    if first == '0' && to - from > 1 {
        return false;
    }
    let v = dec_value_of(s, from, to);
    v <= max_val
}

/// The first position of `c` in `[from, to)`, if any.
fn find_char(s: &str, from: usize, to: usize, c: char) -> (r: Option<usize>)
    requires
        from <= to && to <= s@.len(),
    ensures
        match r {
            Some(p) => from <= p < to && s@[p as int] == c && forall|m: int|
                from <= m < p ==> s@[m] != c,
            None => forall|m: int| from <= m < to ==> s@[m] != c,
        },
{
    let mut i = from;
    while i < to
        invariant
            from <= i <= to && to <= s@.len(),
            forall|m: int| from <= m < i ==> s@[m] != c,
        decreases to - i,
    {
        if s.get_char(i) == c {
            return Some(i);
        }
        i = i + 1;
    }
    None
}

/// Whether the characters of `s` in `[from, to)` form a valid address.
#[verifier::rlimit(50)]
fn check_ipv4(s: &str, from: usize, to: usize) -> (r: bool)
    requires
        from <= to && to <= s@.len(),
    ensures
        r == valid_ipv4(s@.subrange(from as int, to as int)),
{
    let ghost sub = s@.subrange(from as int, to as int);
    let d1 = match find_char(s, from, to, '.') {
        Some(p) => p,
        None => {
            proof {
                assert forall|i: int, j: int, k: int| !valid_ipv4_at(sub, i, j, k) by {
                    if 0 < i && i < j && j < k && k < sub.len() {
                        assert(sub[i] == s@[from + i]);
                    }
                }
            }
            return false;
        },
    };
    if d1 == from {
        proof {
            assert forall|i: int, j: int, k: int| !valid_ipv4_at(sub, i, j, k) by {
                if valid_ipv4_at(sub, i, j, k) {
                    assert(sub[i] == s@[from + i]);
                    assert(valid_octet(sub.subrange(0, i)));
                    assert(sub.subrange(0, i)[0] == s@[from as int]);
                }
            }
        }
        return false;
    }
    let d2 = match find_char(s, d1 + 1, to, '.') {
        Some(p) => p,
        None => {
            proof {
                assert forall|i: int, j: int, k: int| !valid_ipv4_at(sub, i, j, k) by {
                    if valid_ipv4_at(sub, i, j, k) {
                        assert(sub[i] == s@[from + i]);
                        assert(sub[j] == s@[from + j]);
                        // the first dot is at or before i, so j lies beyond it
                        assert(from + i >= d1);
                    }
                }
            }
            return false;
        },
    };
    let d3 = match find_char(s, d2 + 1, to, '.') {
        Some(p) => p,
        None => {
            proof {
                lemma_forced_dots(sub, s@, from as int, to as int, d1 as int, d2 as int);
                assert forall|i: int, j: int, k: int| !valid_ipv4_at(sub, i, j, k) by {
                    if valid_ipv4_at(sub, i, j, k) {
                        assert(from + i == d1 && from + j == d2);
                        assert(sub[k] == s@[from + k]);
                    }
                }
            }
            return false;
        },
    };
    let g1 = check_group(s, from, d1, 3, 255);
    let g2 = check_group(s, d1 + 1, d2, 3, 255);
    let g3 = check_group(s, d2 + 1, d3, 3, 255);
    let g4 = check_group(s, d3 + 1, to, 3, 255);
    let ok = g1 && g2 && g3 && g4;
    proof {
        assert(sub.subrange(0, d1 - from) =~= s@.subrange(from as int, d1 as int));
        assert(sub.subrange(d1 - from + 1, d2 - from) =~= s@.subrange(d1 + 1, d2 as int));
        assert(sub.subrange(d2 - from + 1, d3 - from) =~= s@.subrange(d2 + 1, d3 as int));
        assert(sub.subrange(d3 - from + 1, sub.len() as int) =~= s@.subrange(d3 + 1, to as int));
        if ok {
            assert(sub[d1 - from] == s@[d1 as int]);
            assert(sub[d2 - from] == s@[d2 as int]);
            assert(sub[d3 - from] == s@[d3 as int]);
            assert(valid_ipv4_at(sub, d1 - from, d2 - from, d3 - from));
            assert(valid_ipv4(sub));
        } else {
            lemma_forced_dots(sub, s@, from as int, to as int, d1 as int, d2 as int);
            assert forall|i: int, j: int, k: int| !valid_ipv4_at(sub, i, j, k) by {
                if valid_ipv4_at(sub, i, j, k) {
                    assert(from + i == d1 && from + j == d2);
                    assert(sub[k] == s@[from + k]);
                    assert(from + k == d3) by {
                        if from + k < d3 {
                            assert(s@[from + k] == '.');
                        }
                        if from + k > d3 {
                            // the third dot would sit inside the third octet
                            assert(sub.subrange(j + 1, k)[d3 - from - (j + 1)] == s@[d3 as int]);
                        }
                    }
                }
            }
            assert(!valid_ipv4(sub));
        }
    }
    ok
}

/// In any valid split of `sub = s[from..to)`, the first two dots stand
/// exactly at `d1` and `d2`, the first dots that a scan finds.
proof fn lemma_forced_dots(sub: Seq<char>, s: Seq<char>, from: int, to: int, d1: int, d2: int)
    requires
        0 <= from <= to <= s.len(),
        sub == s.subrange(from, to),
        from <= d1 < to && s[d1] == '.',
        forall|m: int| from <= m < d1 ==> s[m] != '.',
        d1 + 1 <= d2 < to && s[d2] == '.',
        forall|m: int| d1 + 1 <= m < d2 ==> s[m] != '.',
    ensures
        forall|i: int, j: int, k: int|
            valid_ipv4_at(sub, i, j, k) ==> from + i == d1 && from + j == d2,
{
    assert forall|i: int, j: int, k: int|
        valid_ipv4_at(sub, i, j, k) implies from + i == d1 && from + j == d2 by {
        assert(sub[i] == s[from + i]);
        assert(sub[j] == s[from + j]);
        assert(sub[k] == s[from + k]);
        assert(from + i == d1) by {
            if from + i > d1 {
                // the first dot would sit inside the first octet
                assert(sub.subrange(0, i)[d1 - from] == s[d1]);
            }
        }
        assert(from + j == d2) by {
            if from + j > d2 {
                // the second dot would sit inside the second octet
                assert(sub.subrange(i + 1, j)[d2 - from - (i + 1)] == s[d2]);
            }
        }
    }
}

/// Whether `s` is a well-formed `a.b.c.d:port` endpoint.
pub fn check_endpoint(s: &str) -> (r: bool)
    ensures
        r == valid_endpoint(s@),
{
    let n = s.unicode_len();
    let p = match find_char(s, 0, n, ':') {
        Some(p) => p,
        None => {
            proof {
                assert forall|q: int| !valid_endpoint_at(s@, q) by {}
            }
            return false;
        },
    };
    let host_ok = if p == 0 {
        false
    } else {
        check_ipv4(s, 0, p)
    };
    let port_ok = check_group(s, p + 1, n, 5, 65535);
    let ok = host_ok && port_ok;
    proof {
        if ok {
            assert(valid_endpoint_at(s@, p as int));
            assert(valid_endpoint(s@));
        } else {
            assert forall|q: int| !valid_endpoint_at(s@, q) by {
                if valid_endpoint_at(s@, q) {
                    assert(q >= p);
                    assert(q <= p) by {
                        if q > p {
                            lemma_ipv4_chars(s@.subrange(0, q));
                            assert(s@.subrange(0, q)[p as int] == s@[p as int]);
                        }
                    }
                }
            }
            assert(!valid_endpoint(s@));
        }
    }
    ok
}

} // verus!

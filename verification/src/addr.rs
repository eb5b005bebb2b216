//! Network endpoints as plain values, and the numeric address parser. The
//! benchmark compares reply sources against one configured peer, so all the
//! logic needs of an address is its identity: four IPv4 octets and a port.
//! The caller turns the socket addresses it works with into this form and
//! back; host names that need resolving are the caller's affair.

use vstd::prelude::*;

verus! {

/// An IPv4 endpoint: four address octets and a port.
#[derive(Clone, Copy, PartialEq, Eq, Structural, Hash, Debug)]
pub struct NetAddress {
    pub octet0: u8,
    pub octet1: u8,
    pub octet2: u8,
    pub octet3: u8,
    pub port: u16,
}

/// A decimal digit.
pub open spec fn is_digit_char(c: char) -> bool {
    48 <= c as u32 <= 57
}

/// The value of one decimal digit.
pub open spec fn digit_of(c: char) -> int {
    c as u32 - 48
}

/// True iff every character is a decimal digit.
pub open spec fn all_digits(s: Seq<char>) -> bool {
    forall|i: int| 0 <= i < s.len() ==> is_digit_char(s[i])
}

/// The value of a string of decimal digits, most significant first.
pub open spec fn dec_value(s: Seq<char>) -> int
    decreases s.len(),
{
    if s.len() == 0 {
        0
    } else {
        dec_value(s.drop_last()) * 10 + digit_of(s.last())
    }
}

/// Ten to the `n`.
pub open spec fn pow10(n: nat) -> int
    decreases n,
{
    if n == 0 {
        1
    } else {
        10 * pow10((n - 1) as nat)
    }
}

/// A digit string's value is bounded by ten to its length.
pub proof fn lemma_dec_value_bound(s: Seq<char>)
    requires
        all_digits(s),
    ensures
        0 <= dec_value(s) < pow10(s.len()),
    decreases s.len(),
{
    if s.len() > 0 {
        assert(all_digits(s.drop_last())) by {
            assert(forall|i: int|
                0 <= i < s.len() - 1 ==> s.drop_last()[i] == s[i] && is_digit_char(s[i]));
        }
        lemma_dec_value_bound(s.drop_last());
        assert(is_digit_char(s.last()));
    }
}

/// One IPv4 octet: one to three digits whose value fits a byte.
pub open spec fn parse_octet(s: Seq<char>) -> Option<u8> {
    if 1 <= s.len() <= 3 && all_digits(s) && dec_value(s) <= 255 {
        Some(dec_value(s) as u8)
    } else {
        None
    }
}

/// A port: one to five digits whose value fits sixteen bits.
pub open spec fn parse_port(s: Seq<char>) -> Option<u16> {
    if 1 <= s.len() <= 5 && all_digits(s) && dec_value(s) <= 65535 {
        Some(dec_value(s) as u16)
    } else {
        None
    }
}

/// Splits at the first occurrence of `sep`, which is dropped; `None` when
/// `sep` does not occur.
pub open spec fn split_once(s: Seq<char>, sep: char) -> Option<(Seq<char>, Seq<char>)> {
    match s.index_of_first(sep) {
        Some(i) => Some((s.subrange(0, i), s.subrange(i + 1, s.len() as int))),
        None => None,
    }
}

/// The last step of the parse: all four octets and the port must be valid.
pub open spec fn parse_fields(
    seg0: Seq<char>,
    seg1: Seq<char>,
    seg2: Seq<char>,
    seg3: Seq<char>,
    port_str: Seq<char>,
) -> Option<NetAddress> {
    if parse_octet(seg0) is Some && parse_octet(seg1) is Some && parse_octet(seg2) is Some
        && parse_octet(seg3) is Some && parse_port(port_str) is Some {
        Some(
            NetAddress {
                octet0: parse_octet(seg0)->0,
                octet1: parse_octet(seg1)->0,
                octet2: parse_octet(seg2)->0,
                octet3: parse_octet(seg3)->0,
                port: parse_port(port_str)->0,
            },
        )
    } else {
        None
    }
}

/// A numeric `a.b.c.d:port` address: the part before the first colon splits
/// at its first three dots into four octets, and what follows the colon is
/// the port.
pub open spec fn parse_addr(s: Seq<char>) -> Option<NetAddress> {
    match split_once(s, ':') {
        None => None,
        Some((host, port_str)) => match split_once(host, '.') {
            None => None,
            Some((seg0, rest0)) => match split_once(rest0, '.') {
                None => None,
                Some((seg1, rest1)) => match split_once(rest1, '.') {
                    None => None,
                    Some((seg2, seg3)) => parse_fields(seg0, seg1, seg2, seg3, port_str),
                },
            },
        },
    }
}

proof fn lemma_first_occurrence(s: Seq<char>, c: char, i: int)
    requires
        0 <= i < s.len(),
        s[i] == c,
        forall|j: int| 0 <= j < i ==> s[j] != c,
    ensures
        s.index_of_first(c) == Some(i),
{
    s.index_of_first_ensures(c);
    assert(s.contains(c)) by {
        assert(0 <= i < s.len() && s[i] == c);
    }
    let k = s.index_of_first(c)->0;
    if k < i {
        assert(s[k] != c);
    }
    if k > i {
        assert(s[i] != c);
    }
}

proof fn lemma_no_occurrence(s: Seq<char>, c: char)
    requires
        forall|j: int| 0 <= j < s.len() ==> s[j] != c,
    ensures
        s.index_of_first(c) is None,
{
    s.index_of_first_ensures(c);
    if s.index_of_first(c) is Some {
        let k = s.index_of_first(c)->0;
        assert(s[k] != c);
    }
}

proof fn lemma_window_first(s: Seq<char>, c: char, from: int, to: int, i: int)
    requires
        0 <= from <= to <= s.len(),
        from <= i < to,
        s[i] == c,
        forall|j: int| from <= j < i ==> s[j] != c,
    ensures
        s.subrange(from, to).index_of_first(c) == Some(i - from),
{
    let sub = s.subrange(from, to);
    assert(forall|k: int| 0 <= k < i - from ==> sub[k] == s[from + k] && sub[k] != c);
    lemma_first_occurrence(sub, c, i - from);
}

proof fn lemma_window_none(s: Seq<char>, c: char, from: int, to: int)
    requires
        0 <= from <= to <= s.len(),
        forall|j: int| from <= j < to ==> s[j] != c,
    ensures
        s.subrange(from, to).index_of_first(c) is None,
{
    let sub = s.subrange(from, to);
    assert(forall|k: int| 0 <= k < sub.len() ==> sub[k] == s[from + k] && sub[k] != c);
    lemma_no_occurrence(sub, c);
}

/// First occurrence of `c` in `s` within `[from, to)`, if any.
fn find_char_in(s: &str, c: char, from: usize, to: usize) -> (r: Option<usize>)
    requires
        from <= to <= s@.len(),
    ensures
        r is Some ==> {
            &&& from <= r->0 < to
            &&& s@[r->0 as int] == c
            &&& forall|j: int| from <= j < r->0 ==> s@[j] != c
        },
        r is None ==> forall|j: int| from <= j < to ==> s@[j] != c,
{
    let mut i: usize = from;
    while i < to
        invariant
            from <= i <= to <= s@.len(),
            forall|j: int| from <= j < i ==> s@[j] != c,
        decreases to - i,
    {
        if s.get_char(i) == c {
            return Some(i);
        }
        i = i + 1;
    }
    None
}

/// The decimal value of `s` within `[from, to)`; `None` when the window is
/// empty or holds a non-digit.
fn parse_decimal_in(s: &str, from: usize, to: usize) -> (r: Option<u32>)
    requires
        from <= to <= s@.len(),
        to - from <= 5,
    ensures
        (r is Some) == (to - from >= 1 && all_digits(s@.subrange(from as int, to as int))),
        r is Some ==> r->0 == dec_value(s@.subrange(from as int, to as int)),
{
    let ghost sub = s@.subrange(from as int, to as int);
    if to == from {
        return None;
    }
    let mut v: u32 = 0;
    let mut i: usize = from;
    while i < to
        invariant
            from <= i <= to <= s@.len(),
            to - from <= 5,
            sub == s@.subrange(from as int, to as int),
            all_digits(sub.take(i - from)),
            v == dec_value(sub.take(i - from)),
        decreases to - i,
    {
        let c = s.get_char(i);
        let u = c as u32;
        if u < 48 || u > 57 {
            proof {
                assert(sub[i - from] == s@[i as int]);
                assert(!is_digit_char(sub[i - from]));
            }
            return None;
        }
        proof {
            let k = i - from;
            assert(sub.take(k + 1).drop_last() =~= sub.take(k));
            assert(sub.take(k + 1).last() == sub[k]);
            assert(sub[k] == s@[i as int]);
            assert(all_digits(sub.take(k + 1))) by {
                assert(forall|j: int|
                    0 <= j < k ==> sub.take(k + 1)[j] == sub.take(k)[j] && is_digit_char(
                        sub.take(k)[j],
                    ));
                assert(is_digit_char(sub.take(k + 1)[k]));
            }
            lemma_dec_value_bound(sub.take(k));
            reveal_with_fuel(pow10, 6);
            assert(v < 10000);
        }
        v = v * 10 + (u - 48);
        i = i + 1;
    }
    proof {
        assert(sub.take(to - from) =~= sub);
    }
    Some(v)
}

/// One octet of the host part: `[from, to)` must be one to three digits with
/// value at most 255.
fn parse_octet_in(s: &str, from: usize, to: usize) -> (r: Option<u8>)
    requires
        from <= to <= s@.len(),
    ensures
        r == parse_octet(s@.subrange(from as int, to as int)),
{
    let len = to - from;
    if len < 1 || len > 3 {
        return None;
    }
    match parse_decimal_in(s, from, to) {
        None => None,
        Some(v) => if v > 255 {
            None
        } else {
            Some(v as u8)
        },
    }
}

/// The port part: `[from, to)` must be one to five digits with value at most
/// 65535.
fn parse_port_in(s: &str, from: usize, to: usize) -> (r: Option<u16>)
    requires
        from <= to <= s@.len(),
    ensures
        r == parse_port(s@.subrange(from as int, to as int)),
{
    let len = to - from;
    if len < 1 || len > 5 {
        return None;
    }
    match parse_decimal_in(s, from, to) {
        None => None,
        Some(v) => if v > 65535 {
            None
        } else {
            Some(v as u16)
        },
    }
}

/// Parses a numeric `a.b.c.d:port` endpoint. Succeeds exactly on the
/// strings the grammar of `parse_addr` admits, and then returns the address
/// those digits denote.
pub fn create_address(s: &str) -> (r: Result<NetAddress, ()>)
    ensures
        (r is Ok) == (parse_addr(s@) is Some),
        r is Ok ==> parse_addr(s@) == Some(r->Ok_0),
{
    let n = s.unicode_len();
    let ci = match find_char_in(s, ':', 0, n) {
        Some(ci) => ci,
        None => {
            proof {
                lemma_no_occurrence(s@, ':');
            }
            return Err(());
        },
    };
    proof {
        lemma_first_occurrence(s@, ':', ci as int);
    }
    let ghost host = s@.subrange(0, ci as int);
    let ghost port_str = s@.subrange(ci as int + 1, s@.len() as int);

    let d0 = match find_char_in(s, '.', 0, ci) {
        Some(d) => d,
        None => {
            proof {
                lemma_window_none(s@, '.', 0, ci as int);
            }
            return Err(());
        },
    };
    proof {
        lemma_window_first(s@, '.', 0, ci as int, d0 as int);
    }
    let ghost seg0 = s@.subrange(0, d0 as int);
    let ghost rest0 = s@.subrange(d0 as int + 1, ci as int);
    proof {
        assert(host.subrange(0, d0 as int) =~= seg0);
        assert(host.subrange(d0 as int + 1, host.len() as int) =~= rest0);
    }

    let d1 = match find_char_in(s, '.', d0 + 1, ci) {
        Some(d) => d,
        None => {
            proof {
                lemma_window_none(s@, '.', d0 as int + 1, ci as int);
            }
            return Err(());
        },
    };
    proof {
        lemma_window_first(s@, '.', d0 as int + 1, ci as int, d1 as int);
    }
    let ghost seg1 = s@.subrange(d0 as int + 1, d1 as int);
    let ghost rest1 = s@.subrange(d1 as int + 1, ci as int);
    proof {
        assert(rest0.subrange(0, d1 - (d0 + 1)) =~= seg1);
        assert(rest0.subrange(d1 - (d0 + 1) + 1, rest0.len() as int) =~= rest1);
    }

    let d2 = match find_char_in(s, '.', d1 + 1, ci) {
        Some(d) => d,
        None => {
            proof {
                lemma_window_none(s@, '.', d1 as int + 1, ci as int);
            }
            return Err(());
        },
    };
    proof {
        lemma_window_first(s@, '.', d1 as int + 1, ci as int, d2 as int);
    }
    let ghost seg2 = s@.subrange(d1 as int + 1, d2 as int);
    let ghost seg3 = s@.subrange(d2 as int + 1, ci as int);
    proof {
        assert(rest1.subrange(0, d2 - (d1 + 1)) =~= seg2);
        assert(rest1.subrange(d2 - (d1 + 1) + 1, rest1.len() as int) =~= seg3);
    }

    let o0 = match parse_octet_in(s, 0, d0) {
        Some(v) => v,
        None => {
            return Err(());
        },
    };
    let o1 = match parse_octet_in(s, d0 + 1, d1) {
        Some(v) => v,
        None => {
            return Err(());
        },
    };
    let o2 = match parse_octet_in(s, d1 + 1, d2) {
        Some(v) => v,
        None => {
            return Err(());
        },
    };
    let o3 = match parse_octet_in(s, d2 + 1, ci) {
        Some(v) => v,
        None => {
            return Err(());
        },
    };
    let port = match parse_port_in(s, ci + 1, n) {
        Some(v) => v,
        None => {
            return Err(());
        },
    };
    Ok(NetAddress { octet0: o0, octet1: o1, octet2: o2, octet3: o3, port })
}

} // verus!

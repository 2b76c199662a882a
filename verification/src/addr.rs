//! IPv4 and MAC addresses and their text forms: canonical dotted decimal,
//! and colon-separated lower-case hexadecimal.
use vstd::prelude::*;

use crate::error::{is_invalid_ipv4_text, MacParseError, PacketError};
use crate::text::chars_of;

verus! {

/// An IPv4 address, held as its four octets in network order.
#[derive(Clone, Copy, Debug, PartialEq, Eq, Structural)]
pub struct Ipv4Addr(pub u8, pub u8, pub u8, pub u8);

impl Ipv4Addr {
    /// The octets in wire order.
    pub open spec fn octets(self) -> Seq<u8> {
        seq![self.0, self.1, self.2, self.3]
    }

    /// `0.0.0.0`.
    pub fn unspecified() -> (r: Ipv4Addr)
        ensures
            r == Ipv4Addr(0, 0, 0, 0),
    {
        Ipv4Addr(0, 0, 0, 0)
    }
}

/// An Ethernet hardware address, held as its six octets in wire order.
#[derive(Clone, Copy, Debug, PartialEq, Eq, Structural)]
pub struct MacAddr(pub u8, pub u8, pub u8, pub u8, pub u8, pub u8);

impl MacAddr {
    /// The octets in wire order.
    pub open spec fn octets(self) -> Seq<u8> {
        seq![self.0, self.1, self.2, self.3, self.4, self.5]
    }

    /// `ff:ff:ff:ff:ff:ff`.
    pub fn broadcast() -> (r: MacAddr)
        ensures
            r == MacAddr(0xff, 0xff, 0xff, 0xff, 0xff, 0xff),
    {
        MacAddr(0xff, 0xff, 0xff, 0xff, 0xff, 0xff)
    }

    /// `00:00:00:00:00:00`.
    pub fn zero() -> (r: MacAddr)
        ensures
            r == MacAddr(0, 0, 0, 0, 0, 0),
    {
        MacAddr(0, 0, 0, 0, 0, 0)
    }
}

// ---------------------------------------------------------------------------
// Decimal and hexadecimal text
// ---------------------------------------------------------------------------

/// The character for a decimal digit `d` (0 to 9).
pub open spec fn digit_char(d: int) -> char {
    if d == 0 {
        '0'
    } else if d == 1 {
        '1'
    } else if d == 2 {
        '2'
    } else if d == 3 {
        '3'
    } else if d == 4 {
        '4'
    } else if d == 5 {
        '5'
    } else if d == 6 {
        '6'
    } else if d == 7 {
        '7'
    } else if d == 8 {
        '8'
    } else {
        '9'
    }
}

/// The lower-case character for a hexadecimal digit `d` (0 to 15).
pub open spec fn hex_char(d: int) -> char {
    if d < 10 {
        digit_char(d)
    } else if d == 10 {
        'a'
    } else if d == 11 {
        'b'
    } else if d == 12 {
        'c'
    } else if d == 13 {
        'd'
    } else if d == 14 {
        'e'
    } else {
        'f'
    }
}

/// An ASCII decimal digit.
pub open spec fn is_digit(c: char) -> bool {
    48 <= c as u32 && c as u32 <= 57
}

pub open spec fn digit_val(c: char) -> int {
    c as u32 - 48
}

pub open spec fn all_digits(s: Seq<char>) -> bool {
    forall|i: int| 0 <= i < s.len() ==> is_digit(#[trigger] s[i])
}

/// The value of a string of decimal digits.
pub open spec fn dec_value(s: Seq<char>) -> int
    decreases s.len(),
{
    if s.len() == 0 {
        0
    } else {
        dec_value(s.drop_last()) * 10 + digit_val(s.last())
    }
}

/// The canonical decimal text of `n`: no sign and no leading zero.
pub open spec fn dec_text(n: nat) -> Seq<char>
    decreases n,
{
    if n < 10 {
        seq![digit_char(n as int)]
    } else {
        dec_text(n / 10).push(digit_char((n % 10) as int))
    }
}

/// The dotted-decimal text of an IPv4 address, as in `192.168.0.1`.
pub open spec fn ipv4_text(a: Ipv4Addr) -> Seq<char> {
    dec_text(a.0 as nat) + seq!['.'] + dec_text(a.1 as nat) + seq!['.'] + dec_text(a.2 as nat)
        + seq!['.'] + dec_text(a.3 as nat)
}

/// Two lower-case hexadecimal digits for a byte.
pub open spec fn hex2(b: u8) -> Seq<char> {
    seq![hex_char((b / 16) as int), hex_char((b % 16) as int)]
}

/// The colon-separated lower-case text of a MAC address, as in `0a:1b:2c:3d:4e:5f`.
pub open spec fn mac_text(m: MacAddr) -> Seq<char> {
    seq![
        hex_char((m.0 / 16) as int), hex_char((m.0 % 16) as int), ':',
        hex_char((m.1 / 16) as int), hex_char((m.1 % 16) as int), ':',
        hex_char((m.2 / 16) as int), hex_char((m.2 % 16) as int), ':',
        hex_char((m.3 / 16) as int), hex_char((m.3 % 16) as int), ':',
        hex_char((m.4 / 16) as int), hex_char((m.4 % 16) as int), ':',
        hex_char((m.5 / 16) as int), hex_char((m.5 % 16) as int),
    ]
}

/// `t` is the text of some MAC address.
pub open spec fn is_mac_text(t: Seq<char>) -> bool {
    exists|m: MacAddr| mac_text(m) == t
}

/// A canonical digit run: one or more digits, and no leading zero unless it is the only digit.
pub open spec fn canonical_digits(s: Seq<char>) -> bool {
    &&& s.len() >= 1
    &&& all_digits(s)
    &&& (s.len() > 1 ==> s[0] != '0')
}

/// The canonical text of the octet `v` stands at `start` in `s` and is not followed by a digit.
pub open spec fn octet_at(s: Seq<char>, start: int, v: nat) -> bool {
    let d = dec_text(v);
    &&& 0 <= start
    &&& start + d.len() <= s.len()
    &&& s.subrange(start, start + d.len()) == d
    &&& (start + d.len() == s.len() || !is_digit(s[start + d.len()]))
}

proof fn lemma_digit_char(d: int)
    requires
        0 <= d < 10,
    ensures
        is_digit(digit_char(d)),
        digit_val(digit_char(d)) == d,
{
}

proof fn lemma_digit_char_of_val(c: char)
    requires
        is_digit(c),
    ensures
        digit_char(digit_val(c)) == c,
{
    let x = c as u32;
    if x == 48 { assert(c == '0'); }
    else if x == 49 { assert(c == '1'); }
    else if x == 50 { assert(c == '2'); }
    else if x == 51 { assert(c == '3'); }
    else if x == 52 { assert(c == '4'); }
    else if x == 53 { assert(c == '5'); }
    else if x == 54 { assert(c == '6'); }
    else if x == 55 { assert(c == '7'); }
    else if x == 56 { assert(c == '8'); }
    else { assert(c == '9'); }
}

/// What the canonical decimal text of `n` looks like.
pub proof fn lemma_dec_text(n: nat)
    ensures
        canonical_digits(dec_text(n)),
        dec_value(dec_text(n)) == n,
        dec_text(n).len() == 1 <==> n < 10,
        dec_text(n).len() <= 2 <==> n < 100,
        dec_text(n).len() <= 3 <==> n < 1000,
    decreases n,
{
    if n < 10 {
        lemma_digit_char(n as int);
        assert(dec_text(n).drop_last() =~= Seq::<char>::empty());
        assert(dec_value(dec_text(n).drop_last()) == 0);
    } else {
        let p = dec_text(n / 10);
        lemma_dec_text(n / 10);
        lemma_digit_char((n % 10) as int);
        let d = dec_text(n);
        assert(d == p.push(digit_char((n % 10) as int)));
        assert(d.drop_last() =~= p);
        assert forall|i: int| 0 <= i < d.len() implies is_digit(#[trigger] d[i]) by {
            if i < p.len() {
                assert(d[i] == p[i]);
            }
        }
        assert(d[0] == p[0]);
        if p.len() == 1 {
            assert(n / 10 != 0) by {
                assert(n >= 10);
            }
            assert(p[0] != '0') by {
                lemma_digit_char((n / 10) as int);
                if p[0] == '0' {
                    assert(digit_val(p[0]) == 0);
                    assert(dec_value(p) == dec_value(p.drop_last()) * 10 + digit_val(p.last()));
                    assert(p.drop_last() =~= Seq::<char>::empty());
                    assert(dec_value(p.drop_last()) == 0);
                }
            }
        }
    }
}

/// A nonempty run of digits that does not start with `0` has a positive value.
proof fn lemma_dec_value_positive(s: Seq<char>)
    requires
        s.len() >= 1,
        all_digits(s),
        s[0] != '0',
    ensures
        dec_value(s) >= 1,
    decreases s.len(),
{
    if s.len() == 1 {
        assert(s.drop_last() =~= Seq::<char>::empty());
        assert(dec_value(s.drop_last()) == 0);
        if digit_val(s[0]) == 0 {
            lemma_digit_char_of_val(s[0]);
        }
    } else {
        let p = s.drop_last();
        assert(p[0] == s[0]);
        assert(all_digits(p)) by {
            assert forall|i: int| 0 <= i < p.len() implies is_digit(#[trigger] p[i]) by {
                assert(p[i] == s[i]);
            }
        }
        lemma_dec_value_positive(p);
        assert(is_digit(s[s.len() - 1]));
    }
}

/// A canonical digit run is the canonical text of its value.
pub proof fn lemma_canonical_digits(s: Seq<char>)
    requires
        canonical_digits(s),
    ensures
        dec_value(s) >= 0,
        dec_text(dec_value(s) as nat) == s,
    decreases s.len(),
{
    if s.len() == 1 {
        assert(s.drop_last() =~= Seq::<char>::empty());
        assert(dec_value(s.drop_last()) == 0);
        assert(is_digit(s[0]));
        lemma_digit_char_of_val(s[0]);
        assert(dec_text(dec_value(s) as nat) =~= s);
    } else {
        let p = s.drop_last();
        let c = s.last();
        assert(p[0] == s[0]);
        assert(all_digits(p)) by {
            assert forall|i: int| 0 <= i < p.len() implies is_digit(#[trigger] p[i]) by {
                assert(p[i] == s[i]);
            }
        }
        assert(is_digit(c));
        lemma_dec_value_positive(p);
        lemma_canonical_digits(p);
        let v = dec_value(s);
        let vp = dec_value(p);
        let x = digit_val(c);
        assert(v == vp * 10 + x);
        assert(v >= 10);
        assert(v / 10 == vp);
        assert(v % 10 == x);
        lemma_digit_char_of_val(c);
        assert(dec_text(v as nat) == dec_text((v / 10) as nat).push(digit_char((v % 10) as int)));
        assert(s =~= p.push(c));
    }
}

/// The canonical text of a number determines the number.
pub proof fn lemma_dec_text_injective(v: nat, w: nat)
    requires
        dec_text(v) == dec_text(w),
    ensures
        v == w,
{
    lemma_dec_text(v);
    lemma_dec_text(w);
}

/// At a given position, at most one octet's text stands.
pub proof fn lemma_octet_at_unique(s: Seq<char>, start: int, v: nat, w: nat)
    requires
        octet_at(s, start, v),
        octet_at(s, start, w),
    ensures
        v == w,
{
    lemma_dec_text(v);
    lemma_dec_text(w);
    let lv = dec_text(v).len() as int;
    let lw = dec_text(w).len() as int;
    if lv < lw {
        assert(s[start + lv] == s.subrange(start, start + lw)[lv]);
        assert(is_digit(dec_text(w)[lv]));
    } else if lw < lv {
        assert(s[start + lw] == s.subrange(start, start + lv)[lw]);
        assert(is_digit(dec_text(v)[lw]));
    }
    lemma_dec_text_injective(v, w);
}


/// The digits from `start` up to `i` are all the digits there, and an octet's
/// text stands at `start`: then that text is exactly those digits.
proof fn lemma_octet_is_run(s: Seq<char>, start: int, i: int, v: nat)
    requires
        0 <= start <= i <= s.len(),
        all_digits(s.subrange(start, i)),
        i == s.len() || !is_digit(s[i]),
        octet_at(s, start, v),
    ensures
        dec_text(v) == s.subrange(start, i),
{
    lemma_dec_text(v);
    let d = dec_text(v);
    let l = d.len() as int;
    if start + l < i {
        assert(s.subrange(start, i)[l] == s[start + l]);
    } else if start + l > i {
        assert(s[i] == s.subrange(start, start + l)[i - start]);
        assert(is_digit(d[i - start]));
    }
}

/// The layout of the text of an address: four octet texts, split by dots.
pub proof fn lemma_ipv4_text_layout(a: Ipv4Addr)
    ensures
        ({
            let s = ipv4_text(a);
            let l0 = dec_text(a.0 as nat).len() as int;
            let l1 = dec_text(a.1 as nat).len() as int;
            let l2 = dec_text(a.2 as nat).len() as int;
            let l3 = dec_text(a.3 as nat).len() as int;
            &&& octet_at(s, 0, a.0 as nat)
            &&& s[l0] == '.'
            &&& octet_at(s, l0 + 1, a.1 as nat)
            &&& s[l0 + 1 + l1] == '.'
            &&& octet_at(s, l0 + l1 + 2, a.2 as nat)
            &&& s[l0 + l1 + 2 + l2] == '.'
            &&& octet_at(s, l0 + l1 + l2 + 3, a.3 as nat)
            &&& s.len() == l0 + l1 + l2 + l3 + 3
        }),
{
    let s = ipv4_text(a);
    let d0 = dec_text(a.0 as nat);
    let d1 = dec_text(a.1 as nat);
    let d2 = dec_text(a.2 as nat);
    let d3 = dec_text(a.3 as nat);
    lemma_dec_text(a.0 as nat);
    lemma_dec_text(a.1 as nat);
    lemma_dec_text(a.2 as nat);
    lemma_dec_text(a.3 as nat);
    let l0 = d0.len() as int;
    let l1 = d1.len() as int;
    let l2 = d2.len() as int;
    let l3 = d3.len() as int;
    let dot = seq!['.'];
    assert(!is_digit('.'));
    assert(s == d0 + dot + d1 + dot + d2 + dot + d3);
    assert(s.subrange(0, l0) =~= d0);
    assert(s[l0] == '.');
    assert(s.subrange(l0 + 1, l0 + 1 + l1) =~= d1);
    assert(s[l0 + 1 + l1] == '.');
    assert(s.subrange(l0 + l1 + 2, l0 + l1 + 2 + l2) =~= d2);
    assert(s[l0 + l1 + 2 + l2] == '.');
    assert(s.subrange(l0 + l1 + l2 + 3, l0 + l1 + l2 + 3 + l3) =~= d3);
}

/// The text of an IPv4 address determines the address.
pub proof fn lemma_ipv4_text_injective(a: Ipv4Addr, b: Ipv4Addr)
    requires
        ipv4_text(a) == ipv4_text(b),
    ensures
        a == b,
{
    let s = ipv4_text(a);
    lemma_ipv4_text_layout(a);
    lemma_ipv4_text_layout(b);
    lemma_octet_at_unique(s, 0, a.0 as nat, b.0 as nat);
    let l0 = dec_text(a.0 as nat).len() as int;
    lemma_octet_at_unique(s, l0 + 1, a.1 as nat, b.1 as nat);
    let l1 = dec_text(a.1 as nat).len() as int;
    lemma_octet_at_unique(s, l0 + l1 + 2, a.2 as nat, b.2 as nat);
    let l2 = dec_text(a.2 as nat).len() as int;
    lemma_octet_at_unique(s, l0 + l1 + l2 + 3, a.3 as nat, b.3 as nat);
}

fn same_char(c: char, d: char) -> (b: bool)
    ensures
        b == (c == d),
{
    c == d
}

fn is_digit_char(c: char) -> (b: bool)
    ensures
        b == is_digit(c),
{
    let x = c as u32;
    48 <= x && x <= 57
}

/// Reads the canonical text of an octet (0 to 255) at `start`, followed by
/// a non-digit or the end. Gives the octet and the index just past its text.
fn parse_octet(cs: &Vec<char>, start: usize) -> (r: Option<(u8, usize)>)
    requires
        start <= cs.len(),
    ensures
        r matches Some((v, end)) ==> octet_at(cs@, start as int, v as nat) && end == start
            + dec_text(v as nat).len(),
        r is None ==> forall|v: u8| !octet_at(cs@, start as int, v as nat),
{
    let s = Ghost(cs@);
    let mut i = start;
    let mut val: u32 = 0;
    while i < cs.len() && is_digit_char(cs[i])
        invariant
            s@ == cs@,
            start <= i <= cs.len(),
            i - start <= 3,
            all_digits(cs@.subrange(start as int, i as int)),
            val == dec_value(cs@.subrange(start as int, i as int)),
            i - start == 0 ==> val == 0,
            i - start == 1 ==> val < 10,
            i - start == 2 ==> val < 100,
            val < 1000,
        decreases cs.len() - i,
    {
        if i - start == 3 {
            proof {
                assert forall|v: u8| !octet_at(cs@, start as int, v as nat) by {
                    if octet_at(cs@, start as int, v as nat) {
                        lemma_dec_text(v as nat);
                        let l = dec_text(v as nat).len() as int;
                        if start + l < i {
                            assert(cs@.subrange(start as int, i as int)[l] == cs@[start + l]);
                        }
                    }
                }
            }
            return None;
        }
        let ghost run = cs@.subrange(start as int, i as int);
        let d = cs[i] as u32 - 48;
        assert(d < 10);
        proof {
            let run2 = cs@.subrange(start as int, i + 1);
            assert(run2.drop_last() =~= run);
            assert(run2.last() == cs@[i as int]);
            assert forall|k: int| 0 <= k < run2.len() implies is_digit(#[trigger] run2[k]) by {
                if k < run.len() {
                    assert(run2[k] == run[k]);
                }
            }
        }
        val = val * 10 + d;
        i = i + 1;
    }
    let ghost run = cs@.subrange(start as int, i as int);
    if i == start {
        proof {
            assert forall|v: u8| !octet_at(cs@, start as int, v as nat) by {
                if octet_at(cs@, start as int, v as nat) {
                    lemma_dec_text(v as nat);
                    assert(cs@[start as int] == dec_text(v as nat)[0]);
                }
            }
        }
        return None;
    }
    if i - start > 1 && same_char(cs[start], '0') {
        proof {
            assert(cs@[start as int] == '0');
            assert(run[0] == cs@[start as int]);
            assert forall|v: u8| !octet_at(cs@, start as int, v as nat) by {
                if octet_at(cs@, start as int, v as nat) {
                    lemma_octet_is_run(cs@, start as int, i as int, v as nat);
                    lemma_dec_text(v as nat);
                }
            }
        }
        return None;
    }
    if val > 255 {
        proof {
            assert forall|v: u8| !octet_at(cs@, start as int, v as nat) by {
                if octet_at(cs@, start as int, v as nat) {
                    lemma_octet_is_run(cs@, start as int, i as int, v as nat);
                    lemma_dec_text(v as nat);
                }
            }
        }
        return None;
    }
    proof {
        assert(run[0] == cs@[start as int]);
        if run.len() > 1 {
            assert(run[0] != '0');
        }
        lemma_canonical_digits(run);
    }
    Some((val as u8, i))
}


/// Parses dotted-decimal IPv4 text: four decimal octets (0 to 255) of one to
/// three digits, without leading zeros, split by dots, and nothing else.
pub fn parse_ipv4(s: &str) -> (r: Result<Ipv4Addr, PacketError>)
    ensures
        match r {
            Ok(a) => ipv4_text(a) == s@,
            Err(e) => is_invalid_ipv4_text(e, s@) && forall|a: Ipv4Addr| ipv4_text(a) != s@,
        },
{
    let cs = chars_of(s);
    let n = cs.len();
    let o0 = parse_octet(&cs, 0);
    let o1 = match o0 {
        Some((_, e0)) => if e0 < n && same_char(cs[e0], '.') {
            assert(cs@[e0 as int] == '.');
            parse_octet(&cs, e0 + 1)
        } else {
            None
        },
        None => None,
    };
    let o2 = match o1 {
        Some((_, e1)) => if e1 < n && same_char(cs[e1], '.') {
            assert(cs@[e1 as int] == '.');
            parse_octet(&cs, e1 + 1)
        } else {
            None
        },
        None => None,
    };
    let o3 = match o2 {
        Some((_, e2)) => if e2 < n && same_char(cs[e2], '.') {
            assert(cs@[e2 as int] == '.');
            parse_octet(&cs, e2 + 1)
        } else {
            None
        },
        None => None,
    };
    match (o0, o1, o2, o3) {
        (Some((a0, e0)), Some((a1, e1)), Some((a2, e2)), Some((a3, e3))) => {
            if e3 == n {
                let a = Ipv4Addr(a0, a1, a2, a3);
                proof {
                    lemma_ipv4_text_layout(a);
                    let t = ipv4_text(a);
                    let sq = cs@;
                    assert(t.len() == sq.len());
                    assert forall|k: int| 0 <= k < sq.len() implies t[k] == sq[k] by {
                        if k < e0 {
                            assert(t[k] == t.subrange(0, e0 as int)[k]);
                            assert(sq[k] == sq.subrange(0, e0 as int)[k]);
                        } else if k == e0 {
                        } else if k < e1 {
                            assert(t[k] == t.subrange(e0 + 1, e1 as int)[k - e0 - 1]);
                            assert(sq[k] == sq.subrange(e0 + 1, e1 as int)[k - e0 - 1]);
                        } else if k == e1 {
                        } else if k < e2 {
                            assert(t[k] == t.subrange(e1 + 1, e2 as int)[k - e1 - 1]);
                            assert(sq[k] == sq.subrange(e1 + 1, e2 as int)[k - e1 - 1]);
                        } else if k == e2 {
                        } else {
                            assert(t[k] == t.subrange(e2 + 1, e3 as int)[k - e2 - 1]);
                            assert(sq[k] == sq.subrange(e2 + 1, e3 as int)[k - e2 - 1]);
                        }
                    }
                    assert(t =~= sq);
                }
                return Ok(a);
            }
        },
        _ => {},
    }
    proof {
        assert forall|a: Ipv4Addr| ipv4_text(a) != s@ by {
            if ipv4_text(a) == s@ {
                lemma_ipv4_text_layout(a);
                let sq = cs@;
                let l0 = dec_text(a.0 as nat).len() as int;
                let l1 = dec_text(a.1 as nat).len() as int;
                let l2 = dec_text(a.2 as nat).len() as int;
                if let Some((b0, e0)) = o0 {
                    lemma_octet_at_unique(sq, 0, a.0 as nat, b0 as nat);
                    if let Some((b1, e1)) = o1 {
                        lemma_octet_at_unique(sq, l0 + 1, a.1 as nat, b1 as nat);
                        if let Some((b2, e2)) = o2 {
                            lemma_octet_at_unique(sq, l0 + l1 + 2, a.2 as nat, b2 as nat);
                            if let Some((b3, e3)) = o3 {
                                lemma_octet_at_unique(sq, l0 + l1 + l2 + 3, a.3 as nat, b3 as nat);
                            }
                        }
                    }
                }
            }
        }
    }
    Err(PacketError::InvalidIpv4(s.to_owned()))
}


/// The one-character text of a hexadecimal digit `d` (decimal digits for 0 to 9).
fn hex_digit_str(d: u8) -> (r: &'static str)
    requires
        d < 16,
    ensures
        r@ == seq![hex_char(d as int)],
{
    match d {
        0 => {
            proof {
                reveal_strlit("0");
            }
            "0"
        },
        1 => {
            proof {
                reveal_strlit("1");
            }
            "1"
        },
        2 => {
            proof {
                reveal_strlit("2");
            }
            "2"
        },
        3 => {
            proof {
                reveal_strlit("3");
            }
            "3"
        },
        4 => {
            proof {
                reveal_strlit("4");
            }
            "4"
        },
        5 => {
            proof {
                reveal_strlit("5");
            }
            "5"
        },
        6 => {
            proof {
                reveal_strlit("6");
            }
            "6"
        },
        7 => {
            proof {
                reveal_strlit("7");
            }
            "7"
        },
        8 => {
            proof {
                reveal_strlit("8");
            }
            "8"
        },
        9 => {
            proof {
                reveal_strlit("9");
            }
            "9"
        },
        10 => {
            proof {
                reveal_strlit("a");
            }
            "a"
        },
        11 => {
            proof {
                reveal_strlit("b");
            }
            "b"
        },
        12 => {
            proof {
                reveal_strlit("c");
            }
            "c"
        },
        13 => {
            proof {
                reveal_strlit("d");
            }
            "d"
        },
        14 => {
            proof {
                reveal_strlit("e");
            }
            "e"
        },
        _ => {
            proof {
                reveal_strlit("f");
            }
            "f"
        },
    }
}

fn dot_str() -> (r: &'static str)
    ensures
        r@ == seq!['.'],
{
    proof {
        reveal_strlit(".");
    }
    "."
}

fn colon_str() -> (r: &'static str)
    ensures
        r@ == seq![':'],
{
    proof {
        reveal_strlit(":");
    }
    ":"
}

/// Appends the canonical decimal text of `n`.
fn push_dec(out: &mut String, n: u8)
    ensures
        final(out)@ == old(out)@ + dec_text(n as nat),
{
    proof {
        reveal_with_fuel(dec_text, 3);
    }
    if n >= 100 {
        out.append(hex_digit_str(n / 100));
        out.append(hex_digit_str((n / 10) % 10));
        out.append(hex_digit_str(n % 10));
        proof {
            assert((n / 10) / 10 == n / 100);
            assert(dec_text((n / 10) as nat) == dec_text((n / 100) as nat).push(digit_char(((n / 10) % 10) as int)));
        }
    } else if n >= 10 {
        out.append(hex_digit_str(n / 10));
        out.append(hex_digit_str(n % 10));
    } else {
        out.append(hex_digit_str(n));
    }
}

/// Appends two lower-case hexadecimal digits for `b`.
fn push_hex2(out: &mut String, b: u8)
    ensures
        final(out)@ == old(out)@ + hex2(b),
{
    out.append(hex_digit_str(b / 16));
    out.append(hex_digit_str(b % 16));
}

/// The dotted-decimal text of an IPv4 address.
pub fn ipv4_to_string(a: Ipv4Addr) -> (r: String)
    ensures
        r@ == ipv4_text(a),
{
    let mut out = String::new();
    push_dec(&mut out, a.0);
    out.append(dot_str());
    push_dec(&mut out, a.1);
    out.append(dot_str());
    push_dec(&mut out, a.2);
    out.append(dot_str());
    push_dec(&mut out, a.3);
    proof {
        assert(out@ =~= ipv4_text(a));
    }
    out
}

/// The colon-separated lower-case hexadecimal text of a MAC address.
pub fn mac_to_string(m: MacAddr) -> (r: String)
    ensures
        r@ == mac_text(m),
{
    let mut out = String::new();
    push_hex2(&mut out, m.0);
    out.append(colon_str());
    push_hex2(&mut out, m.1);
    out.append(colon_str());
    push_hex2(&mut out, m.2);
    out.append(colon_str());
    push_hex2(&mut out, m.3);
    out.append(colon_str());
    push_hex2(&mut out, m.4);
    out.append(colon_str());
    push_hex2(&mut out, m.5);
    proof {
        assert(out@ =~= mac_text(m));
    }
    out
}


/// Names what pnet's text-to-address conversion (`FromStr` for
/// `pnet::util::MacAddr`) gives for a text: the six octets, or why it refused.
pub uninterp spec fn pnet_mac_from_str(text: Seq<char>) -> Result<Seq<u8>, MacParseError>;

/// Calls pnet's `FromStr` for `MacAddr` on `s`. Claimed: the result is what
/// `pnet_mac_from_str` names for `s`, and the lower-case colon-separated text
/// of an address is taken back to that address (pnet splits at `:` and reads
/// each of the six two-digit parts as hexadecimal).
#[verifier::external_body]
fn pnet_parse_mac(s: &str) -> (r: Result<MacAddr, MacParseError>)
    ensures
        match r {
            Ok(m) => pnet_mac_from_str(s@) == Ok::<Seq<u8>, MacParseError>(m.octets()),
            Err(e) => pnet_mac_from_str(s@) == Err::<Seq<u8>, MacParseError>(e),
        },
        is_mac_text(s@) ==> r is Ok && mac_text(r->Ok_0) == s@,
{
    match s.parse::<pnet::util::MacAddr>() {
        Ok(m) => Ok(MacAddr(m.0, m.1, m.2, m.3, m.4, m.5)),
        Err(pnet::util::ParseMacAddrErr::TooManyComponents) => Err(MacParseError::TooManyComponents),
        Err(pnet::util::ParseMacAddrErr::TooFewComponents) => Err(MacParseError::TooFewComponents),
        Err(pnet::util::ParseMacAddrErr::InvalidComponent) => Err(MacParseError::InvalidComponent),
    }
}

/// Parses a colon-separated MAC address text, as pnet reads one.
pub fn parse_mac(s: &str) -> (r: Result<MacAddr, PacketError>)
    ensures
        match r {
            Ok(m) => pnet_mac_from_str(s@) == Ok::<Seq<u8>, MacParseError>(m.octets()),
            Err(e) => e matches PacketError::InvalidMac(t, k) && t@ == s@ && pnet_mac_from_str(s@)
                == Err::<Seq<u8>, MacParseError>(k),
        },
        is_mac_text(s@) ==> r is Ok && mac_text(r->Ok_0) == s@,
{
    match pnet_parse_mac(s) {
        Ok(m) => Ok(m),
        Err(k) => Err(PacketError::InvalidMac(s.to_owned(), k)),
    }
}

} // verus!

//! TCP flag bits and the text form that names them by letter.
use vstd::prelude::*;

use crate::text::chars_of;

verus! {

pub const FIN: u8 = 0b0000_0001;
pub const SYN: u8 = 0b0000_0010;
pub const RST: u8 = 0b0000_0100;
pub const PSH: u8 = 0b0000_1000;
pub const ACK: u8 = 0b0001_0000;
pub const URG: u8 = 0b0010_0000;
pub const ECE: u8 = 0b0100_0000;
pub const CWR: u8 = 0b1000_0000;

/// The code of `c` with ASCII lower-case letters taken to upper case.
pub open spec fn ascii_upper_code(c: char) -> u32 {
    let x = c as u32;
    if 97 <= x && x <= 122 {
        (x - 32) as u32
    } else {
        x
    }
}

/// The flag bit a letter names: F S R P A U E C, in either case; any other
/// character names none.
pub open spec fn flag_bit(c: char) -> u8 {
    let u = ascii_upper_code(c);
    if u == 70 {
        FIN
    } else if u == 83 {
        SYN
    } else if u == 82 {
        RST
    } else if u == 80 {
        PSH
    } else if u == 65 {
        ACK
    } else if u == 85 {
        URG
    } else if u == 69 {
        ECE
    } else if u == 67 {
        CWR
    } else {
        0
    }
}

/// The flags that the letters of `s` name, together.
pub open spec fn tcp_flags_of(s: Seq<char>) -> u8
    decreases s.len(),
{
    if s.len() == 0 {
        0
    } else {
        tcp_flags_of(s.drop_last()) | flag_bit(s.last())
    }
}

fn flag_bit_of(c: char) -> (b: u8)
    ensures
        b == flag_bit(c),
{
    let x = c as u32;
    let u = if 97 <= x && x <= 122 { x - 32 } else { x };
    if u == 70 {
        FIN
    } else if u == 83 {
        SYN
    } else if u == 82 {
        RST
    } else if u == 80 {
        PSH
    } else if u == 65 {
        ACK
    } else if u == 85 {
        URG
    } else if u == 69 {
        ECE
    } else if u == 67 {
        CWR
    } else {
        0
    }
}

/// Reads a flags text such as `"SA"` or `"s"` into a flag bitmask: each
/// letter sets one flag (case does not matter), other characters are ignored.
pub fn parse_tcp_flags(flags: &str) -> (r: u8)
    ensures
        r == tcp_flags_of(flags@),
{
    let cs = chars_of(flags);
    let mut out: u8 = 0;
    let mut i: usize = 0;
    while i < cs.len()
        invariant
            0 <= i <= cs.len(),
            cs@ == flags@,
            out == tcp_flags_of(cs@.take(i as int)),
        decreases cs.len() - i,
    {
        proof {
            assert(cs@.take(i + 1).drop_last() =~= cs@.take(i as int));
        }
        out = out | flag_bit_of(cs[i]);
        i = i + 1;
    }
    proof {
        assert(cs@.take(cs.len() as int) =~= cs@);
    }
    out
}

/// The flags of two texts one after the other are the flags of each, together.
pub proof fn lemma_flags_concat(s: Seq<char>, t: Seq<char>)
    ensures
        tcp_flags_of(s + t) == tcp_flags_of(s) | tcp_flags_of(t),
    decreases t.len(),
{
    if t.len() == 0 {
        assert(s + t =~= s);
        let a = tcp_flags_of(s);
        assert(a | 0u8 == a) by (bit_vector);
    } else {
        lemma_flags_concat(s, t.drop_last());
        assert((s + t).drop_last() =~= s + t.drop_last());
        assert((s + t).last() == t.last());
        let a = tcp_flags_of(s);
        let b = tcp_flags_of(t.drop_last());
        let c = flag_bit(t.last());
        assert((a | b) | c == a | (b | c)) by (bit_vector);
    }
}

/// The order of the letters does not matter.
pub proof fn lemma_flags_order_free(s: Seq<char>, t: Seq<char>)
    ensures
        tcp_flags_of(s + t) == tcp_flags_of(t + s),
{
    lemma_flags_concat(s, t);
    lemma_flags_concat(t, s);
    let a = tcp_flags_of(s);
    let b = tcp_flags_of(t);
    assert(a | b == b | a) by (bit_vector);
}

/// Case does not matter: texts that agree letter by letter up to ASCII case
/// name the same flags.
pub proof fn lemma_flags_case_insensitive(s: Seq<char>, t: Seq<char>)
    requires
        s.len() == t.len(),
        forall|i: int| 0 <= i < s.len() ==> ascii_upper_code(#[trigger] s[i]) == ascii_upper_code(t[i]),
    ensures
        tcp_flags_of(s) == tcp_flags_of(t),
    decreases s.len(),
{
    if s.len() > 0 {
        let s2 = s.drop_last();
        let t2 = t.drop_last();
        assert forall|i: int| 0 <= i < s2.len() implies ascii_upper_code(#[trigger] s2[i]) == ascii_upper_code(t2[i]) by {
            assert(s2[i] == s[i]);
            assert(t2[i] == t[i]);
        }
        lemma_flags_case_insensitive(s2, t2);
        assert(ascii_upper_code(s[s.len() - 1]) == ascii_upper_code(t[t.len() - 1]));
    }
}

/// A character that names no flag changes nothing: unknown characters are
/// ignored.
pub proof fn lemma_flags_ignore_unknown(s: Seq<char>, c: char)
    requires
        flag_bit(c) == 0,
    ensures
        tcp_flags_of(s.push(c)) == tcp_flags_of(s),
{
    assert(s.push(c).drop_last() =~= s);
    let a = tcp_flags_of(s);
    assert(a | 0u8 == a) by (bit_vector);
}

/// A flag byte of a single bit, or none.
proof fn lemma_single_bits(b: u8, m: u8)
    by (bit_vector)
    requires
        b == 0 || b == 1 || b == 2 || b == 4 || b == 8 || b == 16 || b == 32 || b == 64 || b == 128,
        m == 1 || m == 2 || m == 4 || m == 8 || m == 16 || m == 32 || m == 64 || m == 128,
    ensures
        (b & m != 0) <==> b == m,
{
}

/// A bit is set in the union of two flag bytes when it is set in either.
proof fn lemma_or_bit(a: u8, b: u8, m: u8)
    by (bit_vector)
    ensures
        ((a | b) & m != 0) <==> (a & m != 0 || b & m != 0),
{
}

/// The bit `m` is set in the flags of `s` exactly when some character of
/// `s` names it.
proof fn lemma_flags_bit(s: Seq<char>, m: u8)
    requires
        m == 1 || m == 2 || m == 4 || m == 8 || m == 16 || m == 32 || m == 64 || m == 128,
    ensures
        (tcp_flags_of(s) & m != 0) <==> exists|i: int| 0 <= i < s.len() && #[trigger] flag_bit(s[i]) == m,
    decreases s.len(),
{
    if s.len() == 0 {
        assert(0u8 & m == 0) by (bit_vector);
    } else {
        let s2 = s.drop_last();
        lemma_flags_bit(s2, m);
        let a = tcp_flags_of(s2);
        let b = flag_bit(s.last());
        lemma_or_bit(a, b, m);
        lemma_single_bits(b, m);
        if exists|i: int| 0 <= i < s2.len() && #[trigger] flag_bit(s2[i]) == m {
            let i = choose|i: int| 0 <= i < s2.len() && #[trigger] flag_bit(s2[i]) == m;
            assert(s[i] == s2[i]);
            assert(flag_bit(s[i]) == m);
        }
        if exists|i: int| 0 <= i < s.len() && #[trigger] flag_bit(s[i]) == m {
            let i = choose|i: int| 0 <= i < s.len() && #[trigger] flag_bit(s[i]) == m;
            if i < s.len() - 1 {
                assert(s2[i] == s[i]);
                assert(flag_bit(s2[i]) == m);
            }
        }
    }
}

/// `s` holds the letter in one case or the other.
pub open spec fn has_letter(s: Seq<char>, upper: char, lower: char) -> bool {
    exists|i: int| 0 <= i < s.len() && (s[i] == upper || s[i] == lower)
}

/// Each flag letter names its own bit, in either case: a bit is set in the
/// flags read from `s` exactly when `s` holds its letter (F FIN, S SYN,
/// R RST, P PSH, A ACK, U URG, E ECE, C CWR).
pub proof fn law_flag_letters(s: Seq<char>)
    ensures
        (tcp_flags_of(s) & FIN != 0) <==> has_letter(s, 'F', 'f'),
        (tcp_flags_of(s) & SYN != 0) <==> has_letter(s, 'S', 's'),
        (tcp_flags_of(s) & RST != 0) <==> has_letter(s, 'R', 'r'),
        (tcp_flags_of(s) & PSH != 0) <==> has_letter(s, 'P', 'p'),
        (tcp_flags_of(s) & ACK != 0) <==> has_letter(s, 'A', 'a'),
        (tcp_flags_of(s) & URG != 0) <==> has_letter(s, 'U', 'u'),
        (tcp_flags_of(s) & ECE != 0) <==> has_letter(s, 'E', 'e'),
        (tcp_flags_of(s) & CWR != 0) <==> has_letter(s, 'C', 'c'),
{
    assert forall|c: char| #[trigger] flag_bit(c) == flag_bit(c) implies {
        &&& (flag_bit(c) == FIN <==> (c == 'F' || c == 'f'))
        &&& (flag_bit(c) == SYN <==> (c == 'S' || c == 's'))
        &&& (flag_bit(c) == RST <==> (c == 'R' || c == 'r'))
        &&& (flag_bit(c) == PSH <==> (c == 'P' || c == 'p'))
        &&& (flag_bit(c) == ACK <==> (c == 'A' || c == 'a'))
        &&& (flag_bit(c) == URG <==> (c == 'U' || c == 'u'))
        &&& (flag_bit(c) == ECE <==> (c == 'E' || c == 'e'))
        &&& (flag_bit(c) == CWR <==> (c == 'C' || c == 'c'))
    } by {
        lemma_flag_bit_letters(c);
    }
    lemma_flag_letter(s, FIN, 'F', 'f');
    lemma_flag_letter(s, SYN, 'S', 's');
    lemma_flag_letter(s, RST, 'R', 'r');
    lemma_flag_letter(s, PSH, 'P', 'p');
    lemma_flag_letter(s, ACK, 'A', 'a');
    lemma_flag_letter(s, URG, 'U', 'u');
    lemma_flag_letter(s, ECE, 'E', 'e');
    lemma_flag_letter(s, CWR, 'C', 'c');
}

/// The letter each flag bit is named by, in either case.
proof fn lemma_flag_bit_letters(c: char)
    ensures
        flag_bit(c) == FIN <==> (c == 'F' || c == 'f'),
        flag_bit(c) == SYN <==> (c == 'S' || c == 's'),
        flag_bit(c) == RST <==> (c == 'R' || c == 'r'),
        flag_bit(c) == PSH <==> (c == 'P' || c == 'p'),
        flag_bit(c) == ACK <==> (c == 'A' || c == 'a'),
        flag_bit(c) == URG <==> (c == 'U' || c == 'u'),
        flag_bit(c) == ECE <==> (c == 'E' || c == 'e'),
        flag_bit(c) == CWR <==> (c == 'C' || c == 'c'),
{
    let x = c as u32;
    if c == 'F' || c == 'f' || c == 'S' || c == 's' || c == 'R' || c == 'r' || c == 'P' || c == 'p' {
        assert(x == 70 || x == 102 || x == 83 || x == 115 || x == 82 || x == 114 || x == 80 || x == 112);
    } else if c == 'A' || c == 'a' || c == 'U' || c == 'u' || c == 'E' || c == 'e' || c == 'C' || c == 'c' {
        assert(x == 65 || x == 97 || x == 85 || x == 117 || x == 69 || x == 101 || x == 67 || x == 99);
    } else {
        assert(x != 70 && x != 102 && x != 83 && x != 115 && x != 82 && x != 114 && x != 80 && x != 112);
        assert(x != 65 && x != 97 && x != 85 && x != 117 && x != 69 && x != 101 && x != 67 && x != 99);
    }
}

proof fn lemma_flag_letter(s: Seq<char>, m: u8, upper: char, lower: char)
    requires
        m == 1 || m == 2 || m == 4 || m == 8 || m == 16 || m == 32 || m == 64 || m == 128,
        forall|c: char| #[trigger] flag_bit(c) == m <==> (c == upper || c == lower),
    ensures
        (tcp_flags_of(s) & m != 0) <==> has_letter(s, upper, lower),
{
    lemma_flags_bit(s, m);
    if has_letter(s, upper, lower) {
        let i = choose|i: int| 0 <= i < s.len() && (s[i] == upper || s[i] == lower);
        assert(flag_bit(s[i]) == m);
    }
}

} // verus!

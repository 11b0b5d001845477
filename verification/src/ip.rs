//! IPv4 addresses as plain octets: the jailing path is keyed on IPv4 only,
//! so the engine carries addresses in this form end to end.

use vstd::prelude::*;
use crate::text::{all_digits, chars_to_string, digits_val, parse_dec_range, parse_dec_spec};

verus! {

#[derive(Clone, Copy, PartialEq, Eq, Structural, Debug)]
pub struct Ipv4 {
    pub o0: u8,
    pub o1: u8,
    pub o2: u8,
    pub o3: u8,
}

impl Ipv4 {
    /// The address as one number, most significant octet first.
    pub open spec fn key_spec(self) -> int {
        self.o0 * 0x100_0000 + self.o1 * 0x1_0000 + self.o2 * 0x100 + self.o3
    }

    /// `key_spec` truncated into the `u32` the counter map is keyed by.
    pub open spec fn key32(self) -> u32 {
        self.key_spec() as u32
    }

    pub fn key(&self) -> (r: u32)
        ensures
            r as int == self.key_spec(),
            r == self.key32(),
    {
        (self.o0 as u32) * 0x100_0000 + (self.o1 as u32) * 0x1_0000 + (self.o2 as u32) * 0x100
            + (self.o3 as u32)
    }

    /// The dotted-quad form of the address.
    pub open spec fn dotted_spec(self) -> Seq<char> {
        u8_dec_chars(self.o0 as int) + seq!['.'] + u8_dec_chars(self.o1 as int) + seq!['.']
            + u8_dec_chars(self.o2 as int) + seq!['.'] + u8_dec_chars(self.o3 as int)
    }

    pub fn to_dotted(&self) -> (r: String)
        ensures
            r@ == self.dotted_spec(),
    {
        let mut out: Vec<char> = Vec::new();
        push_u8_dec(&mut out, self.o0);
        out.push('.');
        push_u8_dec(&mut out, self.o1);
        out.push('.');
        push_u8_dec(&mut out, self.o2);
        out.push('.');
        push_u8_dec(&mut out, self.o3);
        proof {
            assert(out@ =~= self.dotted_spec());
        }
        chars_to_string(&out)
    }
}

/// Two addresses with the same key are the same address.
pub proof fn lemma_key_injective(x: Ipv4, y: Ipv4)
    requires
        x.key_spec() == y.key_spec(),
    ensures
        x == y,
{
    assert(x.o0 == y.o0 && x.o1 == y.o1 && x.o2 == y.o2 && x.o3 == y.o3) by (nonlinear_arith)
        requires
            x.o0 * 0x100_0000 + x.o1 * 0x1_0000 + x.o2 * 0x100 + x.o3 == y.o0 * 0x100_0000 + y.o1
                * 0x1_0000 + y.o2 * 0x100 + y.o3,
            0 <= x.o0 <= 255 && 0 <= x.o1 <= 255 && 0 <= x.o2 <= 255 && 0 <= x.o3 <= 255,
            0 <= y.o0 <= 255 && 0 <= y.o1 <= 255 && 0 <= y.o2 <= 255 && 0 <= y.o3 <= 255,
    ;
}

pub open spec fn digit_char(d: int) -> char {
    if d == 0 {
        '0'
    } else if d == 1 {
        '1'
    } else if d == 2 {
        '2'
    } else if d == 3 {
        '3'
    } else if d == 4 {
        '4'
    } else if d == 5 {
        '5'
    } else if d == 6 {
        '6'
    } else if d == 7 {
        '7'
    } else if d == 8 {
        '8'
    } else {
        '9'
    }
}

/// Decimal form of a byte, without leading zeros.
pub open spec fn u8_dec_chars(x: int) -> Seq<char> {
    if x < 10 {
        seq![digit_char(x)]
    } else if x < 100 {
        seq![digit_char(x / 10), digit_char(x % 10)]
    } else {
        seq![digit_char(x / 100), digit_char((x / 10) % 10), digit_char(x % 10)]
    }
}

fn digit_to_char(d: u8) -> (r: char)
    requires
        d < 10,
    ensures
        r == digit_char(d as int),
{
    if d == 0 {
        '0'
    } else if d == 1 {
        '1'
    } else if d == 2 {
        '2'
    } else if d == 3 {
        '3'
    } else if d == 4 {
        '4'
    } else if d == 5 {
        '5'
    } else if d == 6 {
        '6'
    } else if d == 7 {
        '7'
    } else if d == 8 {
        '8'
    } else {
        '9'
    }
}

fn push_u8_dec(out: &mut Vec<char>, x: u8)
    ensures
        final(out)@ == old(out)@ + u8_dec_chars(x as int),
{
    if x < 10 {
        out.push(digit_to_char(x));
        proof {
            assert(final(out)@ =~= old(out)@ + u8_dec_chars(x as int));
        }
    } else if x < 100 {
        out.push(digit_to_char(x / 10));
        out.push(digit_to_char(x % 10));
        proof {
            assert(final(out)@ =~= old(out)@ + u8_dec_chars(x as int));
        }
    } else {
        out.push(digit_to_char(x / 100));
        out.push(digit_to_char((x / 10) % 10));
        out.push(digit_to_char(x % 10));
        proof {
            assert(final(out)@ =~= old(out)@ + u8_dec_chars(x as int));
        }
    }
}

/// First `.` at or after `from`.
pub open spec fn find_dot_spec(s: Seq<char>, from: int) -> Option<int>
    decreases s.len() - from,
{
    if from < 0 || from >= s.len() {
        None
    } else if s[from] == '.' {
        Some(from)
    } else {
        find_dot_spec(s, from + 1)
    }
}

fn find_dot(v: &Vec<char>, from: usize) -> (r: Option<usize>)
    requires
        from <= v@.len(),
    ensures
        match r {
            Some(k) => from <= k < v@.len() && find_dot_spec(v@, from as int) == Some(k as int),
            None => find_dot_spec(v@, from as int) is None,
        },
{
    let mut i: usize = from;
    while i < v.len()
        invariant
            from <= i <= v@.len(),
            find_dot_spec(v@, from as int) == find_dot_spec(v@, i as int),
        decreases v@.len() - i,
    {
        if v[i] == '.' {
            return Some(i);
        }
        i = i + 1;
    }
    None
}

/// One octet of a dotted quad: one to three digits, no leading zero
/// (except `0` itself), value at most 255.
pub open spec fn parse_octet_spec(s: Seq<char>, from: int, to: int) -> Option<u8> {
    if 0 <= from && from <= to && to <= s.len() && 1 <= to - from && to - from <= 3 && !(to - from
        > 1 && s[from] == '0') {
        match parse_dec_spec(s.subrange(from, to), 255) {
            Some(n) => Some(n as u8),
            None => None,
        }
    } else {
        None
    }
}

fn parse_octet(v: &Vec<char>, from: usize, to: usize) -> (r: Option<u8>)
    requires
        from <= to <= v@.len(),
    ensures
        r == parse_octet_spec(v@, from as int, to as int),
{
    if to - from < 1 || to - from > 3 {
        return None;
    }
    if to - from > 1 && v[from] == '0' {
        return None;
    }
    match parse_dec_range(v, from, to, 255) {
        Some(n) => Some(n as u8),
        None => None,
    }
}

/// A dotted quad in the strict form the engine accepts.
pub open spec fn parse_ipv4_spec(s: Seq<char>) -> Option<Ipv4> {
    match find_dot_spec(s, 0) {
        None => None,
        Some(d1) => match find_dot_spec(s, d1 + 1) {
            None => None,
            Some(d2) => match find_dot_spec(s, d2 + 1) {
                None => None,
                Some(d3) => if find_dot_spec(s, d3 + 1) is Some {
                    None
                } else {
                    match (
                    parse_octet_spec(s, 0, d1),
                    parse_octet_spec(s, d1 + 1, d2),
                    parse_octet_spec(s, d2 + 1, d3),
                    parse_octet_spec(s, d3 + 1, s.len() as int),
                    ) {
                        (Some(o0), Some(o1), Some(o2), Some(o3)) => Some(
                            Ipv4 { o0, o1, o2, o3 },
                        ),
                        _ => None,
                    }
                },
            },
        },
    }
}

pub fn parse_ipv4_chars(v: &Vec<char>) -> (r: Option<Ipv4>)
    ensures
        r == parse_ipv4_spec(v@),
{
    let n = v.len();
    let d1 = match find_dot(v, 0) {
        Some(k) => k,
        None => {
            return None;
        },
    };
    let d2 = match find_dot(v, d1 + 1) {
        Some(k) => k,
        None => {
            return None;
        },
    };
    let d3 = match find_dot(v, d2 + 1) {
        Some(k) => k,
        None => {
            return None;
        },
    };
    if find_dot(v, d3 + 1).is_some() {
        return None;
    }
    let o0 = match parse_octet(v, 0, d1) {
        Some(n) => n,
        None => {
            return None;
        },
    };
    let o1 = match parse_octet(v, d1 + 1, d2) {
        Some(n) => n,
        None => {
            return None;
        },
    };
    let o2 = match parse_octet(v, d2 + 1, d3) {
        Some(n) => n,
        None => {
            return None;
        },
    };
    let o3 = match parse_octet(v, d3 + 1, v.len()) {
        Some(n) => n,
        None => {
            return None;
        },
    };
    Some(Ipv4 { o0, o1, o2, o3 })
}

} // verus!

//! The server name that a client asks for in its hello.

use vstd::prelude::*;
use vstd::slice::{slice_subrange, slice_to_vec};
use vstd::utf8::{decode_utf8, valid_utf8};
use crate::wire::{be16, read_be16};

verus! {

#[derive(Clone, Copy, Debug, PartialEq, Eq, Structural)]
pub enum TlsServerNameError {
    /// The extension is shorter than the shortest server name list.
    NotEnoughData(usize),
    /// The list length does not match the extension.
    InvalidListLength(u16),
    /// The name is of another type than host name.
    InvalidNameType(u8),
    /// The name is empty, or does not fill the list: the list must hold
    /// exactly one name.
    InvalidNameLength(u16),
    /// The name is not valid UTF-8.
    InvalidHostName,
    /// The name is the text of an IP address.
    IpLiteral,
}

/// A server name taken from a hello message.
#[derive(Clone, Debug, PartialEq, Eq, Hash)]
pub struct TlsServerName {
    host_name: String,
}

impl View for TlsServerName {
    type V = Seq<char>;

    closed spec fn view(&self) -> Seq<char> {
        self.host_name@
    }
}

pub open spec fn is_digit(b: u8) -> bool {
    0x30 <= b <= 0x39
}

/// Whether `f` is a decimal number of one to three digits, 255 at most.
pub open spec fn is_decimal_octet(f: Seq<u8>) -> bool {
    &&& 1 <= f.len() <= 3
    &&& forall|i: int| 0 <= i < f.len() ==> is_digit(#[trigger] f[i])
    &&& decimal_value(f) <= 255
}

/// The number that the digits `f` spell.
pub open spec fn decimal_value(f: Seq<u8>) -> nat
    decreases f.len(),
{
    if f.len() == 0 {
        0
    } else {
        decimal_value(f.drop_last()) * 10 + (f.last() - 0x30) as nat
    }
}

/// Whether `s` is an IPv4 address in dotted decimal: four decimal numbers
/// of at most 255, with a dot between each two.
pub open spec fn is_ipv4_literal(s: Seq<u8>) -> bool {
    exists|i: int, j: int, k: int|
        0 <= i < j < k < s.len() && #[trigger] dotted_quad_at(s, i, j, k)
}

/// Whether dots at `i`, `j` and `k` cut `s` into four decimal octets.
pub open spec fn dotted_quad_at(s: Seq<u8>, i: int, j: int, k: int) -> bool {
    &&& s[i] == 0x2e
    &&& s[j] == 0x2e
    &&& s[k] == 0x2e
    &&& is_decimal_octet(s.subrange(0, i))
    &&& is_decimal_octet(s.subrange(i + 1, j))
    &&& is_decimal_octet(s.subrange(j + 1, k))
    &&& is_decimal_octet(s.subrange(k + 1, s.len() as int))
}

/// Whether `s` is the text of an IP address: dotted decimal, or anything
/// with a colon in it, which no host name has and every IPv6 text has.
pub open spec fn is_ip_literal(s: Seq<u8>) -> bool {
    is_ipv4_literal(s) || s.contains(0x3au8)
}

/// The bytes of the host name in the value of a server name extension, or
/// why the value is refused.
///
/// The value is a list, two bytes of length in front, that must hold one
/// entry and no more: a name type of zero, two bytes of length, and a
/// non-empty name in UTF-8 that is no IP address.
pub open spec fn parse_server_name(buf: Seq<u8>) -> Result<Seq<u8>, TlsServerNameError> {
    if buf.len() < 5 {
        Err(TlsServerNameError::NotEnoughData(buf.len() as usize))
    } else if be16(buf[0], buf[1]) + 2 != buf.len() {
        Err(TlsServerNameError::InvalidListLength(be16(buf[0], buf[1]) as u16))
    } else if buf[2] != 0 {
        Err(TlsServerNameError::InvalidNameType(buf[2]))
    } else if be16(buf[3], buf[4]) == 0 || be16(buf[3], buf[4]) + 5 != buf.len() {
        Err(TlsServerNameError::InvalidNameLength(be16(buf[3], buf[4]) as u16))
    } else if !valid_utf8(buf.skip(5)) {
        Err(TlsServerNameError::InvalidHostName)
    } else if is_ip_literal(buf.skip(5)) {
        Err(TlsServerNameError::IpLiteral)
    } else {
        Ok(buf.skip(5))
    }
}

/// Calls `String::from_utf8`, which succeeds on valid UTF-8 and on nothing
/// else, and then holds the characters that the bytes encode.
#[verifier::external_body]
fn string_from_utf8(bytes: Vec<u8>) -> (r: Option<String>)
    ensures
        r is Some <==> valid_utf8(bytes@),
        r matches Some(s) ==> s@ == decode_utf8(bytes@),
{
    match String::from_utf8(bytes) {
        Ok(s) => Some(s),
        Err(_) => None,
    }
}

/// Reads a decimal octet that starts at `start` and ends before the next
/// byte that is no digit. Returns where it ends.
fn scan_octet(s: &[u8], start: usize) -> (r: Option<usize>)
    requires
        start <= s@.len(),
    ensures
        match r {
            Some(end) => {
                &&& start < end <= s@.len()
                &&& is_decimal_octet(s@.subrange(start as int, end as int))
                &&& end < s@.len() ==> !is_digit(s@[end as int])
            },
            None => forall|end: int|
                start <= end <= s@.len() && (end < s@.len() ==> !is_digit(s@[end]))
                    ==> !is_decimal_octet(#[trigger] s@.subrange(start as int, end)),
        },
{
    let mut end = start;
    let mut value: u32 = 0;
    while end < s.len() && end - start < 3 && s[end] >= 0x30 && s[end] <= 0x39
        invariant
            start <= end <= s@.len(),
            end - start <= 3,
            forall|i: int| start <= i < end ==> is_digit(s@[i]),
            value == decimal_value(s@.subrange(start as int, end as int)),
            end - start == 0 ==> value == 0,
            end - start == 1 ==> value <= 9,
            end - start == 2 ==> value <= 99,
            end - start == 3 ==> value <= 999,
        decreases s@.len() - end,
    {
        proof {
            let next = s@.subrange(start as int, end as int + 1);
            assert(next.drop_last() == s@.subrange(start as int, end as int));
            assert(next.last() == s@[end as int]);
        }
        value = value * 10 + (s[end] - 0x30) as u32;
        end = end + 1;
    }
    let ghost field = s@.subrange(start as int, end as int);
    if end == start || value > 255 || (end < s.len() && s[end] >= 0x30 && s[end] <= 0x39) {
        proof {
            assert forall|e: int|
                start <= e <= s@.len() && (e < s@.len() ==> !is_digit(s@[e]))
                    implies !is_decimal_octet(#[trigger] s@.subrange(start as int, e)) by {
                let f = s@.subrange(start as int, e);
                if is_decimal_octet(f) {
                    assert(forall|i: int| start <= i < e ==> is_digit(s@[i])) by {
                        assert forall|i: int| start <= i < e implies is_digit(s@[i]) by {
                            assert(f[i - start] == s@[i]);
                        }
                    }
                    if e < end {
                        assert(is_digit(s@[e]));
                    } else if e > end {
                        assert(end < s@.len());
                        assert(is_digit(s@[end as int]));
                        assert(end - start == 3);
                    } else {
                        assert(f == field);
                    }
                }
            }
        }
        return None;
    }
    Some(end)
}

/// Whether `s` is an IPv4 address in dotted decimal.
fn check_ipv4_literal(s: &[u8]) -> (r: bool)
    ensures
        r == is_ipv4_literal(s@),
{
    let n = s.len();
    let i = match scan_octet(s, 0) {
        Some(e) => e,
        None => {
            proof {
                lemma_no_first_octet(s@);
            }
            return false;
        },
    };
    if i >= n || s[i] != 0x2e {
        proof {
            lemma_first_dot(s@, i as int);
        }
        return false;
    }
    let j = match scan_octet(s, i + 1) {
        Some(e) => e,
        None => {
            proof {
                lemma_first_dot(s@, i as int);
                lemma_no_second_octet(s@, i as int);
            }
            return false;
        },
    };
    if j >= n || s[j] != 0x2e {
        proof {
            lemma_first_dot(s@, i as int);
            lemma_second_dot(s@, i as int, j as int);
        }
        return false;
    }
    let k = match scan_octet(s, j + 1) {
        Some(e) => e,
        None => {
            proof {
                lemma_first_dot(s@, i as int);
                lemma_second_dot(s@, i as int, j as int);
                lemma_no_third_octet(s@, i as int, j as int);
            }
            return false;
        },
    };
    if k >= n || s[k] != 0x2e {
        proof {
            lemma_first_dot(s@, i as int);
            lemma_second_dot(s@, i as int, j as int);
            lemma_third_dot(s@, i as int, j as int, k as int);
        }
        return false;
    }
    let end = match scan_octet(s, k + 1) {
        Some(e) => e,
        None => {
            proof {
                lemma_first_dot(s@, i as int);
                lemma_second_dot(s@, i as int, j as int);
                lemma_third_dot(s@, i as int, j as int, k as int);
            }
            return false;
        },
    };
    if end != n {
        proof {
            lemma_first_dot(s@, i as int);
            lemma_second_dot(s@, i as int, j as int);
            lemma_third_dot(s@, i as int, j as int, k as int);
            if is_ipv4_literal(s@) {
                let (a, b, c) = choose|a: int, b: int, c: int|
                    0 <= a < b < c < s@.len() && #[trigger] dotted_quad_at(s@, a, b, c);
                lemma_octet_ends(s@, k as int + 1, end as int, n as int);
            }
        }
        return false;
    }
    assert(dotted_quad_at(s@, i as int, j as int, k as int));
    true
}

/// An octet holds digits only, so the byte behind one that ends at a
/// non-digit is where every octet from the same start ends.
proof fn lemma_octet_ends(s: Seq<u8>, start: int, end: int, other: int)
    requires
        0 <= start <= end <= s.len(),
        start <= other <= s.len(),
        is_decimal_octet(s.subrange(start, end)),
        end < s.len() ==> !is_digit(s[end]),
        is_decimal_octet(s.subrange(start, other)),
        other < s.len() ==> !is_digit(s[other]),
    ensures
        other == end,
{
    let a = s.subrange(start, end);
    let b = s.subrange(start, other);
    if other < end {
        assert(a[other - start] == s[other]);
    } else if other > end {
        assert(b[end - start] == s[end]);
    }
}

proof fn lemma_no_first_octet(s: Seq<u8>)
    requires
        forall|end: int|
            0 <= end <= s.len() && (end < s.len() ==> !is_digit(s[end])) ==> !is_decimal_octet(
                #[trigger] s.subrange(0, end),
            ),
    ensures
        !is_ipv4_literal(s),
{
    assert forall|i: int, j: int, k: int| 0 <= i < j < k < s.len() implies !dotted_quad_at(
        s,
        i,
        j,
        k,
    ) by {
        if s[i] == 0x2e {
            assert(!is_decimal_octet(s.subrange(0, i)));
        }
    }
}

/// Where the first octet ends, the first dot of every dotted quad stands.
proof fn lemma_first_dot(s: Seq<u8>, e: int)
    requires
        0 < e <= s.len(),
        is_decimal_octet(s.subrange(0, e)),
        e < s.len() ==> !is_digit(s[e]),
    ensures
        forall|i: int, j: int, k: int|
            0 <= i < j < k < s.len() && #[trigger] dotted_quad_at(s, i, j, k) ==> i == e,
{
    assert forall|i: int, j: int, k: int|
        0 <= i < j < k < s.len() && #[trigger] dotted_quad_at(s, i, j, k) implies i == e by {
        lemma_octet_ends(s, 0, e, i);
    }
}

proof fn lemma_no_second_octet(s: Seq<u8>, i: int)
    requires
        0 <= i < s.len(),
        forall|a: int, b: int, c: int|
            0 <= a < b < c < s.len() && #[trigger] dotted_quad_at(s, a, b, c) ==> a == i,
        forall|end: int|
            i + 1 <= end <= s.len() && (end < s.len() ==> !is_digit(s[end])) ==> !is_decimal_octet(
                #[trigger] s.subrange(i + 1, end),
            ),
    ensures
        !is_ipv4_literal(s),
{
    assert forall|a: int, b: int, c: int| 0 <= a < b < c < s.len() implies !dotted_quad_at(
        s,
        a,
        b,
        c,
    ) by {
        if dotted_quad_at(s, a, b, c) {
            assert(a == i);
            assert(!is_decimal_octet(s.subrange(i + 1, b)));
        }
    }
}

proof fn lemma_second_dot(s: Seq<u8>, i: int, e: int)
    requires
        0 <= i < e <= s.len(),
        forall|a: int, b: int, c: int|
            0 <= a < b < c < s.len() && #[trigger] dotted_quad_at(s, a, b, c) ==> a == i,
        is_decimal_octet(s.subrange(i + 1, e)),
        e < s.len() ==> !is_digit(s[e]),
    ensures
        forall|a: int, b: int, c: int|
            0 <= a < b < c < s.len() && #[trigger] dotted_quad_at(s, a, b, c) ==> a == i && b
                == e,
{
    assert forall|a: int, b: int, c: int|
        0 <= a < b < c < s.len() && #[trigger] dotted_quad_at(s, a, b, c) implies a == i && b
        == e by {
        assert(a == i);
        lemma_octet_ends(s, i + 1, e, b);
    }
}

proof fn lemma_no_third_octet(s: Seq<u8>, i: int, j: int)
    requires
        0 <= i < j < s.len(),
        forall|a: int, b: int, c: int|
            0 <= a < b < c < s.len() && #[trigger] dotted_quad_at(s, a, b, c) ==> a == i && b
                == j,
        forall|end: int|
            j + 1 <= end <= s.len() && (end < s.len() ==> !is_digit(s[end])) ==> !is_decimal_octet(
                #[trigger] s.subrange(j + 1, end),
            ),
    ensures
        !is_ipv4_literal(s),
{
    assert forall|a: int, b: int, c: int| 0 <= a < b < c < s.len() implies !dotted_quad_at(
        s,
        a,
        b,
        c,
    ) by {
        if dotted_quad_at(s, a, b, c) {
            assert(a == i && b == j);
            assert(!is_decimal_octet(s.subrange(j + 1, c)));
        }
    }
}

proof fn lemma_third_dot(s: Seq<u8>, i: int, j: int, e: int)
    requires
        0 <= i < j < e <= s.len(),
        forall|a: int, b: int, c: int|
            0 <= a < b < c < s.len() && #[trigger] dotted_quad_at(s, a, b, c) ==> a == i && b
                == j,
        is_decimal_octet(s.subrange(j + 1, e)),
        e < s.len() ==> !is_digit(s[e]),
    ensures
        forall|a: int, b: int, c: int|
            0 <= a < b < c < s.len() && #[trigger] dotted_quad_at(s, a, b, c) ==> a == i && b
                == j && c == e,
{
    assert forall|a: int, b: int, c: int|
        0 <= a < b < c < s.len() && #[trigger] dotted_quad_at(s, a, b, c) implies a == i && b
        == j && c == e by {
        assert(a == i && b == j);
        lemma_octet_ends(s, j + 1, e, c);
    }
}

/// Whether the byte `b` occurs in `s`.
fn contains_byte(s: &[u8], b: u8) -> (r: bool)
    ensures
        r == s@.contains(b),
{
    let mut i: usize = 0;
    while i < s.len()
        invariant
            i <= s@.len(),
            forall|t: int| 0 <= t < i ==> s@[t] != b,
        decreases s@.len() - i,
    {
        if s[i] == b {
            return true;
        }
        i = i + 1;
    }
    false
}

impl TlsServerName {
    /// Reads the server name from the value of a server name extension.
    pub fn from_extension_value(buf: &[u8]) -> (r: Result<TlsServerName, TlsServerNameError>)
        ensures
            match parse_server_name(buf@) {
                Ok(name) => r matches Ok(n) && n@ == decode_utf8(name),
                Err(e) => r == Err::<TlsServerName, TlsServerNameError>(e),
            },
    {
        let buf_len = buf.len();
        if buf_len < 5 {
            return Err(TlsServerNameError::NotEnoughData(buf_len));
        }
        let list_len = read_be16(buf[0], buf[1]);
        if list_len as usize != buf_len - 2 {
            return Err(TlsServerNameError::InvalidListLength(list_len));
        }
        let name_type = buf[2];
        if name_type != 0 {
            return Err(TlsServerNameError::InvalidNameType(name_type));
        }
        let name_len = read_be16(buf[3], buf[4]);
        if name_len == 0 || name_len as usize != buf_len - 5 {
            return Err(TlsServerNameError::InvalidNameLength(name_len));
        }
        let name = slice_subrange(buf, 5, buf_len);
        assert(name@ == buf@.skip(5));
        let host_name = match string_from_utf8(slice_to_vec(name)) {
            Some(s) => s,
            None => {
                return Err(TlsServerNameError::InvalidHostName);
            },
        };
        if check_ipv4_literal(name) || contains_byte(name, 0x3a) {
            return Err(TlsServerNameError::IpLiteral);
        }
        Ok(TlsServerName { host_name })
    }

    pub fn as_ref(&self) -> (r: &str)
        ensures
            r@ == self@,
    {
        self.host_name.as_str()
    }

    /// The string that holds the name spells the name.
    pub proof fn lemma_into_string(self)
        ensures
            self.spec_into_string()@ == self@,
    {
    }

    /// The name as the string that holds it.
    pub closed spec fn spec_into_string(self) -> String {
        self.host_name
    }

    pub fn into_string(self) -> (r: String)
        ensures
            r == self.spec_into_string(),
            r@ == self@,
    {
        self.host_name
    }
}

} // verus!

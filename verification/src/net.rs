//! The guest address model: a plain IPv4 value and the parsing that picks
//! the guest's address out of captured command output.
//!
//! The address lister's output is split into whitespace-separated tokens
//! and the first token that reads as a dotted-quad IPv4 address wins.
//! An address token has exactly four octets, each one to three digits,
//! no leading zero, value at most 255.

use vstd::prelude::*;
use crate::text::{all_ascii_digits, digits_value, digit_val};

verus! {

/// An IPv4 address as four plain octets.
#[derive(PartialEq, Eq, Structural, Clone, Copy, Debug)]
pub struct Ipv4 {
    pub a: u8,
    pub b: u8,
    pub c: u8,
    pub d: u8,
}

/// ASCII whitespace, the separators between tokens of command output.
pub open spec fn is_space(c: char) -> bool {
    c == ' ' || c == '\t' || c == '\n' || c == '\r' || c == '\u{b}' || c == '\u{c}'
}

fn is_space_char(c: char) -> (r: bool)
    ensures
        r == is_space(c),
{
    c == ' ' || c == '\t' || c == '\n' || c == '\r' || c == '\u{b}' || c == '\u{c}'
}

/// One octet of a dotted quad: one to three digits, no leading zero,
/// value at most 255.
pub open spec fn spec_valid_octet(s: Seq<char>) -> bool {
    &&& 1 <= s.len() <= 3
    &&& all_ascii_digits(s)
    &&& (s.len() > 1 ==> s[0] != '0')
    &&& digits_value(s) <= 255
}

/// The positions `i < j < k` split `s` into four valid octets separated
/// by dots.
pub open spec fn spec_ipv4_parts(s: Seq<char>, i: int, j: int, k: int) -> bool {
    &&& 0 < i && i + 1 < j && j + 1 < k && k + 1 < s.len()
    &&& s[i] == '.' && s[j] == '.' && s[k] == '.'
    &&& spec_valid_octet(s.subrange(0, i))
    &&& spec_valid_octet(s.subrange(i + 1, j))
    &&& spec_valid_octet(s.subrange(j + 1, k))
    &&& spec_valid_octet(s.subrange(k + 1, s.len() as int))
}

/// Is `s` a dotted-quad IPv4 address?
pub open spec fn spec_is_ipv4(s: Seq<char>) -> bool {
    exists|i: int, j: int, k: int| spec_ipv4_parts(s, i, j, k)
}

/// Does `ip` hold the four octet values that `s` spells?
pub open spec fn spec_ipv4_result(s: Seq<char>, ip: Ipv4) -> bool {
    exists|i: int, j: int, k: int|
        {
            &&& #[trigger] spec_ipv4_parts(s, i, j, k)
            &&& ip.a == digits_value(s.subrange(0, i))
            &&& ip.b == digits_value(s.subrange(i + 1, j))
            &&& ip.c == digits_value(s.subrange(j + 1, k))
            &&& ip.d == digits_value(s.subrange(k + 1, s.len() as int))
        }
}

/// Check one octet of `s`, the characters `s[from..to]`.
#[verifier::loop_isolation(false)]
fn check_octet(s: &str, from: usize, to: usize) -> (r: Option<u8>)
    requires
        from <= to <= s@.len(),
    ensures
        r is Some <==> spec_valid_octet(s@.subrange(from as int, to as int)),
        r matches Some(v) ==> v as int == digits_value(s@.subrange(from as int, to as int)),
{
    let ghost t: Seq<char> = s@.subrange(from as int, to as int);
    if to - from < 1 || to - from > 3 {
        return None;
    }
    let mut val: u32 = 0;
    let mut j: usize = from;
    while j < to
        invariant
            from <= j <= to,
            all_ascii_digits(s@.subrange(from as int, j as int)),
            val == digits_value(s@.subrange(from as int, j as int)),
            val < 1000,
        decreases to - j,
    {
        let c = s.get_char(j);
        if c < '0' || c > '9' {
            proof {
                assert(t[j as int - from as int] == c);
                assert(!all_ascii_digits(t));
            }
            return None;
        }
        let ghost pre: Seq<char> = s@.subrange(from as int, j as int);
        let ghost post: Seq<char> = s@.subrange(from as int, (j + 1) as int);
        proof {
            assert(post.drop_last() =~= pre);
            assert(post.last() == c);
            crate::text::lemma_digits_value_nonneg(pre);
            assert(pre.len() <= 2);
            assert(digits_value(pre) <= 99) by {
                if pre.len() == 2 {
                    let q = pre.drop_last();
                    assert(all_ascii_digits(q));
                    assert(q.drop_last().len() == 0);
                    assert(digits_value(q.drop_last()) == 0);
                    assert(digits_value(q) == digits_value(q.drop_last()) * 10 + digit_val(
                        q.last(),
                    ));
                    assert(crate::text::is_ascii_digit_char(q.last()));
                    assert(digit_val(q.last()) <= 9);
                    assert(digits_value(pre) == digits_value(q) * 10 + digit_val(pre.last()));
                    assert(crate::text::is_ascii_digit_char(pre.last()));
                    assert(digit_val(pre.last()) <= 9);
                } else if pre.len() == 1 {
                    assert(pre.drop_last().len() == 0);
                    assert(digits_value(pre.drop_last()) == 0);
                    assert(digits_value(pre) == digits_value(pre.drop_last()) * 10 + digit_val(
                        pre.last(),
                    ));
                    assert(crate::text::is_ascii_digit_char(pre.last()));
                    assert(digit_val(pre.last()) <= 9);
                } else {
                    assert(pre.len() == 0);
                    assert(digits_value(pre) == 0);
                }
            }
        }
        val = val * 10 + ((c as u32) - 48);
        j = j + 1;
    }
    proof {
        assert(s@.subrange(from as int, j as int) =~= t);
    }
    if to - from > 1 && s.get_char(from) == '0' {
        proof {
            assert(t[0] == '0');
        }
        return None;
    }
    if val > 255 {
        return None;
    }
    Some(val as u8)
}

/// The position of the first `.` at or after `from`, if any.
#[verifier::loop_isolation(false)]
fn find_dot(s: &str, from: usize) -> (r: Option<usize>)
    requires
        from <= s@.len(),
    ensures
        r matches Some(d) ==> from <= d < s@.len() && s@[d as int] == '.' && (forall|m: int|
            from <= m < d ==> s@[m] != '.'),
        r is None ==> forall|m: int| from <= m < s@.len() ==> s@[m] != '.',
{
    let n = s.unicode_len();
    let mut j: usize = from;
    while j < n
        invariant
            from <= j <= n,
            forall|m: int| from <= m < j ==> s@[m] != '.',
        decreases n - j,
    {
        if s.get_char(j) == '.' {
            return Some(j);
        }
        j = j + 1;
    }
    None
}

/// Read the whole string as a dotted-quad IPv4 address.
pub fn parse_ipv4(s: &str) -> (r: Option<Ipv4>)
    ensures
        r is Some <==> spec_is_ipv4(s@),
        r matches Some(ip) ==> spec_ipv4_result(s@, ip),
{
    let n = s.unicode_len();
    let d1 = match find_dot(s, 0) {
        Some(d) => d,
        None => {
            proof {
                assert(!spec_is_ipv4(s@));
            }
            return None;
        },
    };
    let d2 = match find_dot(s, d1 + 1) {
        Some(d) => d,
        None => {
            proof {
                assert forall|i: int, j: int, k: int| !spec_ipv4_parts(s@, i, j, k) by {
                    if spec_ipv4_parts(s@, i, j, k) {
                        lemma_part_i(s@, i, j, k, d1 as int);
                        assert(s@[j] == '.' && j > d1);
                    }
                }
            }
            return None;
        },
    };
    let d3 = match find_dot(s, d2 + 1) {
        Some(d) => d,
        None => {
            proof {
                assert forall|i: int, j: int, k: int| !spec_ipv4_parts(s@, i, j, k) by {
                    if spec_ipv4_parts(s@, i, j, k) {
                        lemma_part_i(s@, i, j, k, d1 as int);
                        lemma_part_j(s@, i, j, k, d1 as int, d2 as int);
                        assert(s@[k] == '.' && k > d2);
                    }
                }
            }
            return None;
        },
    };
    let a = check_octet(s, 0, d1);
    let b = check_octet(s, d1 + 1, d2);
    let c = check_octet(s, d2 + 1, d3);
    let extra = find_dot(s, d3 + 1);
    let d = check_octet(s, d3 + 1, n);
    if extra.is_none() {
        if let (Some(oa), Some(ob), Some(oc), Some(od)) = (a, b, c, d) {
            let ip = Ipv4 { a: oa, b: ob, c: oc, d: od };
            proof {
                assert(spec_ipv4_parts(s@, d1 as int, d2 as int, d3 as int));
                assert(spec_ipv4_result(s@, ip));
            }
            return Some(ip);
        }
    }
    proof {
        assert forall|i: int, j: int, k: int| !spec_ipv4_parts(s@, i, j, k) by {
            if spec_ipv4_parts(s@, i, j, k) {
                lemma_part_i(s@, i, j, k, d1 as int);
                lemma_part_j(s@, i, j, k, d1 as int, d2 as int);
                lemma_part_k(s@, i, j, k, d2 as int, d3 as int);
                match extra {
                    Some(m) => {
                        assert(s@.subrange(k + 1, s@.len() as int)[m as int - (k + 1)] == '.');
                    },
                    None => {
                        assert(a is Some && b is Some && c is Some && d is Some);
                    },
                }
            }
        }
    }
    None
}

/// The characters `s[a..b]` form a maximal whitespace-free run: a token
/// of command output.
pub open spec fn is_token_at(s: Seq<char>, a: int, b: int) -> bool {
    &&& 0 <= a < b <= s.len()
    &&& (forall|m: int| a <= m < b ==> !is_space(s[m]))
    &&& (a == 0 || is_space(s[a - 1]))
    &&& (b == s.len() || is_space(s[b]))
}

/// Scan the whitespace-separated tokens of `input` left to right and
/// return the first one that reads as an IPv4 address, if any.
#[verifier::loop_isolation(false)]
pub fn parse_first_ipv4(input: &str) -> (r: Option<Ipv4>)
    ensures
        r is Some <==> exists|a: int, b: int|
            #[trigger] is_token_at(input@, a, b) && spec_is_ipv4(input@.subrange(a, b)),
        r matches Some(ip) ==> exists|a: int, b: int|
            {
                &&& #[trigger] is_token_at(input@, a, b)
                &&& spec_ipv4_result(input@.subrange(a, b), ip)
                &&& forall|a2: int, b2: int|
                    #[trigger] is_token_at(input@, a2, b2) && b2 <= a ==> !spec_is_ipv4(
                        input@.subrange(a2, b2),
                    )
            },
{
    let n = input.unicode_len();
    let mut pos: usize = 0;
    while pos < n
        invariant
            pos <= n,
            forall|a: int, b: int|
                #[trigger] is_token_at(input@, a, b) && b <= pos as int ==> !spec_is_ipv4(
                    input@.subrange(a, b),
                ),
            0 < pos < n ==> (is_space(input@[pos as int - 1]) || is_space(input@[pos as int])),
        decreases n - pos,
    {
        let c = input.get_char(pos);
        if is_space_char(c) {
            pos = pos + 1;
        } else {
            let start = pos;
            let mut endp = pos + 1;
            while endp < n && !is_space_char(input.get_char(endp))
                invariant
                    start < endp <= n,
                    forall|m: int| start <= m < endp ==> !is_space(input@[m]),
                decreases n - endp,
            {
                endp = endp + 1;
            }
            let tok = input.substring_char(start, endp);
            proof {
                assert(is_token_at(input@, start as int, endp as int));
            }
            if let Some(ip) = parse_ipv4(tok) {
                return Some(ip);
            }
            proof {
                assert forall|a2: int, b2: int|
                    #[trigger] is_token_at(input@, a2, b2) && b2 <= endp as int implies
                    !spec_is_ipv4(input@.subrange(a2, b2)) by {
                    if b2 > start as int {
                        assert(b2 == endp as int);
                        assert(a2 == start as int);
                        assert(input@.subrange(a2, b2) == tok@);
                    }
                }
            }
            pos = endp;
        }
    }
    None
}

/// In any valid split of `s` into four octets, the first separator must
/// sit on the first dot of `s`: an octet holds digits only.
proof fn lemma_part_i(s: Seq<char>, i: int, j: int, k: int, d1: int)
    requires
        spec_ipv4_parts(s, i, j, k),
        0 <= d1 < s.len(),
        s[d1] == '.',
        forall|m: int| 0 <= m < d1 ==> s[m] != '.',
    ensures
        i == d1,
{
    if i > d1 {
        assert(s.subrange(0, i)[d1] == s[d1]);
    }
}

/// Likewise the second separator sits on the first dot after the first
/// separator.
proof fn lemma_part_j(s: Seq<char>, i: int, j: int, k: int, d1: int, d2: int)
    requires
        spec_ipv4_parts(s, i, j, k),
        i == d1,
        d1 < d2 < s.len(),
        s[d2] == '.',
        forall|m: int| d1 < m < d2 ==> s[m] != '.',
    ensures
        j == d2,
{
    if j > d2 {
        assert(s.subrange(i + 1, j)[d2 - (i + 1)] == s[d2]);
    }
}

/// And the third separator sits on the first dot after the second.
proof fn lemma_part_k(s: Seq<char>, i: int, j: int, k: int, d2: int, d3: int)
    requires
        spec_ipv4_parts(s, i, j, k),
        j == d2,
        d2 < d3 < s.len(),
        s[d3] == '.',
        forall|m: int| d2 < m < d3 ==> s[m] != '.',
    ensures
        k == d3,
{
    if k > d3 {
        assert(s.subrange(j + 1, k)[d3 - (j + 1)] == s[d3]);
    }
}

} // verus!

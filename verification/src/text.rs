//! Character and decimal-number helpers shared by the discovery parsers:
//! ASCII case folding, and parsing a decimal `u16` the way Rust's `parse`
//! does (optional leading `+`, any number of digits, overflow rejected).

use vstd::prelude::*;

verus! {

/// ASCII lower-casing of one character; anything outside `A`..`Z` is kept.
pub open spec fn lower_char(c: char) -> char {
    if 'A' <= c && c <= 'Z' {
        (((c as u32) + 32) as u8) as char
    } else {
        c
    }
}

/// ASCII lower-casing of a whole character sequence.
pub open spec fn lower(s: Seq<char>) -> Seq<char> {
    s.map_values(|c: char| lower_char(c))
}

/// Executable ASCII lower-casing of one character.
fn to_ascii_lower(c: char) -> (r: char)
    ensures
        r == lower_char(c),
{
    let u: u32 = c as u32;
    if 65 <= u && u <= 90 {
        (u + 32) as u8 as char
    } else {
        c
    }
}

/// ASCII-case-insensitive string equality: equal once both sides are
/// lower-cased in the ASCII range; other characters must match exactly.
pub fn str_eq_ignore_ascii_case(a: &str, b: &str) -> (r: bool)
    ensures
        r == (lower(a@) == lower(b@)),
{
    let na = a.unicode_len();
    let nb = b.unicode_len();
    if na != nb {
        proof {
            assert(lower(a@).len() != lower(b@).len());
        }
        return false;
    }
    for i in 0..na
        invariant
            na == a@.len() && na == b@.len(),
            forall|j: int| 0 <= j < i ==> lower(a@)[j] == lower(b@)[j],
    {
        let ca = to_ascii_lower(a.get_char(i));
        let cb = to_ascii_lower(b.get_char(i));
        if ca != cb {
            proof {
                assert(lower(a@)[i as int] != lower(b@)[i as int]);
            }
            return false;
        }
    }
    proof {
        assert(lower(a@) =~= lower(b@));
    }
    true
}

/// Is `c` a decimal digit?
pub open spec fn is_ascii_digit_char(c: char) -> bool {
    '0' <= c && c <= '9'
}

/// The numeric value of a digit character.
pub open spec fn digit_val(c: char) -> int {
    (c as int) - ('0' as int)
}

/// Does the sequence consist of decimal digits only?
pub open spec fn all_ascii_digits(s: Seq<char>) -> bool {
    forall|i: int| 0 <= i < s.len() ==> is_ascii_digit_char(s[i])
}

/// The value of a digit sequence read as a decimal number.
pub open spec fn digits_value(s: Seq<char>) -> int
    decreases s.len(),
{
    if s.len() == 0 {
        0
    } else {
        digits_value(s.drop_last()) * 10 + digit_val(s.last())
    }
}

pub proof fn lemma_digits_value_nonneg(s: Seq<char>)
    requires
        all_ascii_digits(s),
    ensures
        digits_value(s) >= 0,
    decreases s.len(),
{
    if s.len() > 0 {
        assert(all_ascii_digits(s.drop_last()));
        lemma_digits_value_nonneg(s.drop_last());
    }
}

/// The sequence with every trailing `/` removed.
pub open spec fn trim_trailing_slashes(s: Seq<char>) -> Seq<char>
    decreases s.len(),
{
    if s.len() > 0 && s.last() == '/' {
        trim_trailing_slashes(s.drop_last())
    } else {
        s
    }
}

/// What Rust's `str::parse::<u16>` accepts on the characters
/// `s[from..to]`: an optional leading `+`, then one or more decimal
/// digits whose value fits in 16 bits.
pub open spec fn spec_parse_u16(s: Seq<char>) -> Option<u16> {
    let t = if s.len() > 0 && s[0] == '+' {
        s.subrange(1, s.len() as int)
    } else {
        s
    };
    if t.len() > 0 && all_ascii_digits(t) && digits_value(t) <= u16::MAX {
        Some(digits_value(t) as u16)
    } else {
        None
    }
}

/// Parse the characters `s[from..to]` as a decimal `u16`, exactly as
/// Rust's `parse::<u16>` would.
#[verifier::loop_isolation(false)]
pub fn parse_u16_range(s: &str, from: usize, to: usize) -> (r: Option<u16>)
    requires
        from <= to <= s@.len(),
    ensures
        r == spec_parse_u16(s@.subrange(from as int, to as int)),
{
    let ghost whole: Seq<char> = s@.subrange(from as int, to as int);
    let mut start: usize = from;
    if start < to && s.get_char(start) == '+' {
        start = start + 1;
    }
    let ghost t: Seq<char> = s@.subrange(start as int, to as int);
    proof {
        if whole.len() > 0 && whole[0] == '+' {
            assert(t =~= whole.subrange(1, whole.len() as int));
        } else {
            assert(t =~= whole);
        }
    }
    if start == to {
        return None;
    }
    let mut val: u32 = 0;
    let mut j: usize = start;
    while j < to
        invariant
            start <= j <= to <= s@.len(),
            start < to,
            t == s@.subrange(start as int, to as int),
            all_ascii_digits(s@.subrange(start as int, j as int)),
            val <= 65536,
            val <= 65535 ==> val == digits_value(s@.subrange(start as int, j as int)),
            val == 65536 <==> digits_value(s@.subrange(start as int, j as int)) > 65535,
        decreases to - j,
    {
        let c = s.get_char(j);
        if c < '0' || c > '9' {
            proof {
                assert(t[j as int - start as int] == c);
                assert(!all_ascii_digits(t));
            }
            return None;
        }
        let d: u32 = (c as u32) - 48;
        let ghost pre: Seq<char> = s@.subrange(start as int, j as int);
        let ghost post: Seq<char> = s@.subrange(start as int, (j + 1) as int);
        proof {
            assert(post.drop_last() =~= pre);
            assert(post.last() == c);
            assert(digits_value(post) == digits_value(pre) * 10 + digit_val(c));
            lemma_digits_value_nonneg(pre);
        }
        val = if val > 65535 {
            65536
        } else if val * 10 + d > 65535 {
            65536
        } else {
            val * 10 + d
        };
        j = j + 1;
    }
    proof {
        assert(s@.subrange(start as int, j as int) =~= t);
    }
    if val > 65535 {
        None
    } else {
        let p: u16 = val as u16;
        Some(p)
    }
}

} // verus!

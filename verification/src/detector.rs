//! The port extractor: pulls plausible TCP ports out of a semi-structured,
//! JSON-like document, as captured from either discovery source.
//!
//! Ports come from two places: values of keys case-insensitively named
//! `port` or `listen_port` that are nonzero 16-bit integers, and strings —
//! under keys named `listen` or `address`, and anywhere else in the tree —
//! that look like `:port` or `host:port`. Extraction is total: malformed
//! shapes contribute nothing, never an error.

use vstd::prelude::*;
use std::collections::BTreeSet;
use crate::text::{
    lower, parse_u16_range, spec_parse_u16, str_eq_ignore_ascii_case, trim_trailing_slashes,
};

verus! {

/// A parsed semi-structured document: object / array / string / number /
/// boolean / null. A number carries its value as `u64` when it is a
/// non-negative integer that fits; any other number carries `None` and can
/// contribute no port.
pub enum JsonValue {
    Null,
    Bool(bool),
    Number(Option<u64>),
    Text(String),
    Array(Vec<JsonValue>),
    Object(Vec<(String, JsonValue)>),
}

/// A nonzero value that fits in 16 bits is a usable port; anything else is
/// silently dropped.
pub open spec fn spec_valid_port(v: u64) -> Option<u16> {
    if 1 <= v <= 65535 {
        Some(v as u16)
    } else {
        None
    }
}

/// Filter a numeric value down to a usable port.
pub fn to_valid_port(v: u64) -> (r: Option<u16>)
    ensures
        r == spec_valid_port(v),
{
    if 1 <= v && v <= 65535 {
        Some(v as u16)
    } else {
        None
    }
}

/// The single port (if any) that the string-port extraction rule finds:
/// a string `:NNNN` yields NNNN and is final; otherwise the digits after
/// the last `:`, with trailing `/` stripped, yield the port. Zero is never
/// a result.
pub open spec fn spec_string_port(s: Seq<char>) -> Option<u16> {
    let pre = if s.len() > 0 && s[0] == ':' {
        spec_parse_u16(s.subrange(1, s.len() as int))
    } else {
        None
    };
    if pre is Some && pre->0 != 0 {
        pre
    } else if s.contains(':') {
        let i = s.index_of_last(':')->0;
        let p = spec_parse_u16(trim_trailing_slashes(s.subrange(i + 1, s.len() as int)));
        if p is Some && p->0 != 0 {
            p
        } else {
            None
        }
    } else {
        None
    }
}

/// The candidates the string rule yields: at most one port.
pub open spec fn spec_extract_ports(s: Seq<char>) -> Seq<u16> {
    match spec_string_port(s) {
        Some(p) => seq![p],
        None => Seq::empty(),
    }
}

/// Run the string-port extraction rule on `input`.
#[verifier::loop_isolation(false)]
pub fn extract_ports_from_string(input: &str) -> (r: Vec<u16>)
    ensures
        r@ == spec_extract_ports(input@),
{
    let n = input.unicode_len();
    let mut out: Vec<u16> = Vec::new();
    if n > 0 && input.get_char(0) == ':' {
        if let Some(p) = parse_u16_range(input, 1, n) {
            if p != 0 {
                out.push(p);
                proof {
                    assert(out@ =~= spec_extract_ports(input@));
                }
                return out;
            }
        }
    }
    let mut j: usize = n;
    let mut found = false;
    let mut idx: usize = 0;
    while j > 0 && !found
        invariant
            j <= n,
            !found ==> (forall|k: int| j <= k < n ==> input@[k] != ':'),
            found ==> (idx < n && input@[idx as int] == ':' && (forall|k: int|
                idx < k < n ==> input@[k] != ':')),
        decreases j,
    {
        j = j - 1;
        if input.get_char(j) == ':' {
            found = true;
            idx = j;
        }
    }
    if !found {
        proof {
            assert(!input@.contains(':'));
            assert(out@ =~= spec_extract_ports(input@));
        }
        return out;
    }
    proof {
        input@.index_of_last_ensures(':');
        assert(input@.contains(':'));
        assert(input@.index_of_last(':')->0 == idx as int);
    }
    let mut end: usize = n;
    let mut trimming = true;
    while trimming
        invariant
            idx + 1 <= end <= n,
            trim_trailing_slashes(input@.subrange(idx as int + 1, n as int))
                == trim_trailing_slashes(input@.subrange(idx as int + 1, end as int)),
            !trimming ==> (end == idx + 1 || input@[end as int - 1] != '/'),
        decreases end, (if trimming { 1int } else { 0int }),
    {
        if end > idx + 1 {
            let c = input.get_char(end - 1);
            if c == '/' {
                proof {
                    let cur = input@.subrange(idx as int + 1, end as int);
                    assert(cur.last() == '/');
                    assert(cur.drop_last() =~= input@.subrange(idx as int + 1, end as int - 1));
                }
                end = end - 1;
            } else {
                trimming = false;
            }
        } else {
            trimming = false;
        }
    }
    proof {
        let suffix = input@.subrange(idx as int + 1, end as int);
        assert(trim_trailing_slashes(suffix) == suffix);
    }
    if let Some(p) = parse_u16_range(input, idx + 1, end) {
        if p != 0 {
            out.push(p);
        }
    }
    proof {
        assert(out@ =~= spec_extract_ports(input@));
    }
    out
}

/// Does a key name, case-insensitively, announce a numeric port value?
pub open spec fn key_matches_port(k: Seq<char>) -> bool {
    lower(k) == lower("port"@) || lower(k) == lower("listen_port"@)
}

/// Does a key name, case-insensitively, announce an address-like string?
pub open spec fn key_matches_address(k: Seq<char>) -> bool {
    lower(k) == lower("listen"@) || lower(k) == lower("address"@)
}

/// What one object entry contributes through its key: a nonzero 16-bit
/// number under a port key, and the string rule's result under an address
/// key. (Contributions from recursing into the value are separate.)
pub open spec fn spec_key_ports(key: Seq<char>, val: JsonValue) -> Set<u16> {
    let from_num: Set<u16> = if key_matches_port(key) {
        match val {
            JsonValue::Number(Some(nv)) => match spec_valid_port(nv) {
                Some(p) => set![p],
                None => Set::empty(),
            },
            _ => Set::empty(),
        }
    } else {
        Set::empty()
    };
    let from_text: Set<u16> = if key_matches_address(key) {
        match val {
            JsonValue::Text(s) => spec_extract_ports(s@).to_set(),
            _ => Set::empty(),
        }
    } else {
        Set::empty()
    };
    from_num + from_text
}

/// All ports the extractor finds in a document.
pub open spec fn spec_ports(v: JsonValue) -> Set<u16>
    decreases v,
{
    match v {
        JsonValue::Object(fields) => spec_obj_ports(fields@),
        JsonValue::Array(items) => spec_arr_ports(items@),
        JsonValue::Text(s) => spec_extract_ports(s@).to_set(),
        _ => Set::empty(),
    }
}

/// All ports found in an object's entries: key contributions plus a full
/// recursive walk of every value.
pub open spec fn spec_obj_ports(fields: Seq<(String, JsonValue)>) -> Set<u16>
    decreases fields,
{
    if fields.len() == 0 {
        Set::empty()
    } else {
        spec_obj_ports(fields.drop_last()) + spec_key_ports(fields.last().0@, fields.last().1)
            + spec_ports(fields.last().1)
    }
}

/// All ports found in an array's elements.
pub open spec fn spec_arr_ports(items: Seq<JsonValue>) -> Set<u16>
    decreases items,
{
    if items.len() == 0 {
        Set::empty()
    } else {
        spec_arr_ports(items.drop_last()) + spec_ports(items.last())
    }
}

/// Every nonzero 16-bit integer that sits under a key case-insensitively
/// equal to `port` or `listen_port` is extracted: it is in the ports of
/// the object holding that entry, and so — the walk descending everywhere —
/// in the ports of any document containing it.
pub proof fn lemma_port_key_included(fields: Seq<(String, JsonValue)>, i: int, nv: u64)
    requires
        0 <= i < fields.len(),
        key_matches_port(fields[i].0@),
        fields[i].1 == JsonValue::Number(Some(nv)),
        1 <= nv <= 65535,
    ensures
        spec_obj_ports(fields).contains(nv as u16),
    decreases fields.len(),
{
    if i == fields.len() - 1 {
        assert(spec_key_ports(fields.last().0@, fields.last().1).contains(nv as u16));
    } else {
        lemma_port_key_included(fields.drop_last(), i, nv);
    }
}

/// A numeric value under a key that does not name a port contributes
/// nothing: neither through its key nor on its own.
pub proof fn lemma_number_under_other_key_excluded(key: Seq<char>, nv: Option<u64>)
    requires
        !key_matches_port(key),
    ensures
        spec_key_ports(key, JsonValue::Number(nv)) == Set::<u16>::empty(),
        spec_ports(JsonValue::Number(nv)) == Set::<u16>::empty(),
{
    assert(spec_key_ports(key, JsonValue::Number(nv)) =~= Set::<u16>::empty());
}

/// The string rule never yields port zero.
pub proof fn lemma_zero_never_in_string(s: Seq<char>)
    ensures
        !spec_extract_ports(s).to_set().contains(0u16),
{
}

/// A key entry never contributes port zero.
proof fn lemma_zero_never_in_key(key: Seq<char>, val: JsonValue)
    ensures
        !spec_key_ports(key, val).contains(0u16),
{
    match val {
        JsonValue::Text(s) => {
            lemma_zero_never_in_string(s@);
        },
        _ => {},
    }
}

/// Port zero is never extracted from any document: values of zero are
/// dropped wherever they originate.
pub proof fn lemma_zero_never_extracted(v: JsonValue)
    ensures
        !spec_ports(v).contains(0u16),
    decreases v,
{
    match v {
        JsonValue::Object(fields) => {
            lemma_zero_never_in_obj(fields@);
        },
        JsonValue::Array(items) => {
            lemma_zero_never_in_arr(items@);
        },
        JsonValue::Text(s) => {
            lemma_zero_never_in_string(s@);
        },
        _ => {},
    }
}

proof fn lemma_zero_never_in_obj(fields: Seq<(String, JsonValue)>)
    ensures
        !spec_obj_ports(fields).contains(0u16),
    decreases fields,
{
    if fields.len() > 0 {
        lemma_zero_never_in_obj(fields.drop_last());
        lemma_zero_never_in_key(fields.last().0@, fields.last().1);
        lemma_zero_never_extracted(fields.last().1);
    }
}

proof fn lemma_zero_never_in_arr(items: Seq<JsonValue>)
    ensures
        !spec_arr_ports(items).contains(0u16),
    decreases items,
{
    if items.len() > 0 {
        lemma_zero_never_in_arr(items.drop_last());
        lemma_zero_never_extracted(items.last());
    }
}

/// Recursively walk a document, adding every port found to `out`.
#[verifier::loop_isolation(false)]
pub fn collect_ports_from_json(value: &JsonValue, out: &mut BTreeSet<u16>)
    ensures
        final(out)@ == old(out)@ + spec_ports(*value),
    decreases *value,
{
    match value {
        JsonValue::Object(fields) => {
            let n = fields.len();
            let mut i: usize = 0;
            while i < n
                invariant
                    i <= n,
                    out@ =~= old(out)@ + spec_obj_ports(fields@.take(i as int)),
                decreases n - i,
            {
                let ghost pre_out: Set<u16> = out@;
                let key = &fields[i].0;
                let val = &fields[i].1;
                if str_eq_ignore_ascii_case(key.as_str(), "port") || str_eq_ignore_ascii_case(
                    key.as_str(),
                    "listen_port",
                ) {
                    if let JsonValue::Number(nv) = val {
                        if let Some(nv2) = nv {
                            if let Some(p) = to_valid_port(*nv2) {
                                out.insert(p);
                            }
                        }
                    }
                }
                if str_eq_ignore_ascii_case(key.as_str(), "listen") || str_eq_ignore_ascii_case(
                    key.as_str(),
                    "address",
                ) {
                    if let JsonValue::Text(s) = val {
                        let ps = extract_ports_from_string(s.as_str());
                        if ps.len() > 0 {
                            out.insert(ps[0]);
                        }
                    }
                }
                proof {
                    assert(out@ =~= pre_out + spec_key_ports(
                        fields@[i as int].0@,
                        fields@[i as int].1,
                    ));
                    assert(decreases_to!(fields@ => fields@[i as int]));
                }
                collect_ports_from_json(val, out);
                proof {
                    assert(fields@.take(i as int + 1).drop_last() =~= fields@.take(i as int));
                    assert(fields@.take(i as int + 1).last() == fields@[i as int]);
                    assert(out@ =~= old(out)@ + spec_obj_ports(fields@.take(i as int + 1)));
                }
                i = i + 1;
            }
            proof {
                assert(fields@.take(n as int) =~= fields@);
            }
        }
        JsonValue::Array(items) => {
            let n = items.len();
            let mut i: usize = 0;
            while i < n
                invariant
                    i <= n,
                    out@ =~= old(out)@ + spec_arr_ports(items@.take(i as int)),
                decreases n - i,
            {
                proof {
                    assert(decreases_to!(items@ => items@[i as int]));
                }
                collect_ports_from_json(&items[i], out);
                proof {
                    assert(items@.take(i as int + 1).drop_last() =~= items@.take(i as int));
                    assert(items@.take(i as int + 1).last() == items@[i as int]);
                    assert(out@ =~= old(out)@ + spec_arr_ports(items@.take(i as int + 1)));
                }
                i = i + 1;
            }
            proof {
                assert(items@.take(n as int) =~= items@);
            }
        }
        JsonValue::Text(s) => {
            let ps = extract_ports_from_string(s.as_str());
            if ps.len() > 0 {
                out.insert(ps[0]);
            }
            proof {
                assert(out@ =~= old(out)@ + spec_ports(*value));
            }
        }
        _ => {
            proof {
                assert(out@ =~= old(out)@ + spec_ports(*value));
            }
        }
    }
}

} // verus!

//! Pagination: turning a raw range request into an (offset, limit) window,
//! and rendering the range header that accompanies every list response.

use vstd::prelude::*;
use vstd::string::StringExecFns;
use crate::decode::{json_u64_list_of, parse_u64_list};
use crate::text::{dec_digits, u64_to_string};

verus! {

/// The window a raw range request denotes. A missing or malformed request,
/// an inverted range, and a window too large for 64 bits all fall back to
/// the default window of the first 25 records.
pub open spec fn range_window(raw: Option<Seq<char>>) -> (u64, u64) {
    match raw {
        None => (0u64, 25u64),
        Some(s) => match json_u64_list_of(s) {
            None => (0u64, 25u64),
            Some(list) => {
                let start = if list.len() > 0 { list[0] } else { 0u64 };
                let end = if list.len() > 1 { list[1] } else { 24u64 };
                if start <= end && end - start + 1 <= u64::MAX {
                    (start, (end - start + 1) as u64)
                } else {
                    (0u64, 25u64)
                }
            },
        },
    }
}

/// Parses a raw range request `[start, end]` (zero-based, inclusive) into
/// `(offset, limit)`. Defaults to the first 25 records when the request is
/// absent or malformed, and also when `end < start` or the window would
/// overflow, so the limit is always at least 1.
pub fn parse_range(range_str: Option<String>) -> (r: (u64, u64))
    ensures
        r == range_window(
            match range_str {
                Some(s) => Some(s@),
                None => None,
            },
        ),
        r.1 >= 1,
        r.0 + r.1 - 1 <= u64::MAX,
{
    match range_str {
        None => (0, 25),
        Some(s) => match parse_u64_list(s.as_str()) {
            None => (0, 25),
            Some(list) => {
                let start: u64 = if list.len() > 0 { list[0] } else { 0 };
                let end: u64 = if list.len() > 1 { list[1] } else { 24 };
                if start <= end && end - start <= u64::MAX - 1 {
                    (start, end - start + 1)
                } else {
                    (0, 25)
                }
            },
        },
    }
}

/// The range header for a page: `<resource> <offset>-<last>/<total>`, where
/// `last` is the window's final record index, capped at the index of the
/// last record that exists (zero when there is none).
pub open spec fn header_text(resource: Seq<char>, offset: u64, limit: u64, total: u64) -> Seq<
    char,
> {
    let cap = if total > 0 {
        total - 1
    } else {
        0int
    };
    let last = if offset + limit - 1 <= cap {
        offset + limit - 1
    } else {
        cap
    };
    resource + seq![' '] + dec_digits(offset as int) + seq!['-'] + dec_digits(last) + seq![
        '/',
    ] + dec_digits(total as int)
}

/// Renders the range header for a page of `limit` records starting at
/// `offset` out of `total_count` matching records.
pub fn calculate_content_range(
    offset: u64,
    limit: u64,
    total_count: u64,
    resource_name: &str,
) -> (h: String)
    requires
        limit >= 1,
        offset + limit - 1 <= u64::MAX,
    ensures
        h@ == header_text(resource_name@, offset, limit, total_count),
{
    let cap = if total_count > 0 {
        total_count - 1
    } else {
        0
    };
    let last_of_window = offset + (limit - 1);
    let last = if last_of_window <= cap {
        last_of_window
    } else {
        cap
    };
    proof {
        reveal_strlit(" ");
        reveal_strlit("-");
        reveal_strlit("/");
    }
    let mut h = resource_name.to_owned();
    h.append(" ");
    h.append(u64_to_string(offset).as_str());
    h.append("-");
    h.append(u64_to_string(last).as_str());
    h.append("/");
    h.append(u64_to_string(total_count).as_str());
    proof {
        assert(h@ =~= header_text(resource_name@, offset, limit, total_count));
    }
    h
}

} // verus!

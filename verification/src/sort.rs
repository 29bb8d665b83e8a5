//! Sort resolution: turning a raw sort request into a validated
//! (column, direction) pair, defaulting safely.

use vstd::prelude::*;
use vstd::string::StringExecFns;
use crate::decode::{json_string_list_of, parse_string_list};
use crate::filter::{cols_view, key_known, lemma_cols_view_known};
use crate::text::{contains_str, str_eq};

verus! {

#[derive(Clone, Copy, Debug, PartialEq, Eq, Structural)]
pub enum SortDirection {
    Ascending,
    Descending,
}

/// The (column name, direction token) pair a raw sort request asks for,
/// before validation. A missing or malformed request, and missing elements,
/// give the defaults `id` and `ASC`.
pub open spec fn requested_sort(raw: Option<Seq<char>>) -> (Seq<char>, Seq<char>) {
    let defaults = (seq!['i', 'd'], seq!['A', 'S', 'C']);
    match raw {
        None => defaults,
        Some(s) => match json_string_list_of(s) {
            None => defaults,
            Some(list) => (
                if list.len() > 0 { list[0] } else { defaults.0 },
                if list.len() > 1 { list[1] } else { defaults.1 },
            ),
        },
    }
}

/// The direction a token denotes: exactly `ASC` is ascending, anything else
/// (including malformed tokens) is descending.
pub open spec fn direction_of(token: Seq<char>) -> SortDirection {
    if token == seq!['A', 'S', 'C'] {
        SortDirection::Ascending
    } else {
        SortDirection::Descending
    }
}

/// The column a requested name resolves to: itself when it appears in the
/// table of sortable columns, the fallback column otherwise.
pub open spec fn resolved_column(name: Seq<char>, table: Seq<Seq<char>>, fallback: Seq<char>) -> Seq<
    char,
> {
    if key_known(name, table) {
        name
    } else {
        fallback
    }
}

/// Resolves a raw sort request against the table of sortable column names,
/// with `fallback` standing in for unknown columns.
pub fn generic_sort(sort: Option<String>, order_columns: &Vec<String>, fallback: &str) -> (r: (
    String,
    SortDirection,
))
    ensures
        ({
            let req = requested_sort(
                match sort {
                    Some(s) => Some(s@),
                    None => None,
                },
            );
            r.0@ == resolved_column(req.0, cols_view(order_columns@), fallback@) && r.1
                == direction_of(req.1)
        }),
{
    proof {
        reveal_strlit("id");
        reveal_strlit("ASC");
        assert("id"@ =~= seq!['i', 'd']);
        assert("ASC"@ =~= seq!['A', 'S', 'C']);
    }
    let (col_req, ord_req): (String, String) = match sort {
        None => (String::from_str("id"), String::from_str("ASC")),
        Some(s) => match parse_string_list(s.as_str()) {
            None => (String::from_str("id"), String::from_str("ASC")),
            Some(list) => {
                let c = if list.len() > 0 {
                    list[0].clone()
                } else {
                    String::from_str("id")
                };
                let o = if list.len() > 1 {
                    list[1].clone()
                } else {
                    String::from_str("ASC")
                };
                (c, o)
            },
        },
    };
    let dir = if str_eq(ord_req.as_str(), "ASC") {
        SortDirection::Ascending
    } else {
        SortDirection::Descending
    };
    let known = contains_str(order_columns, col_req.as_str());
    proof {
        lemma_cols_view_known(order_columns@, col_req@);
    }
    if known {
        (col_req, dir)
    } else {
        (fallback.to_owned(), dir)
    }
}

} // verus!

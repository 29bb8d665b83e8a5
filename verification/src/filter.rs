//! Filter compilation: turning a raw filter request into a predicate tree
//! over a whitelist of searchable columns, together with the matching
//! semantics of that tree against a record's textual fields.

use vstd::prelude::*;
use crate::decode::{json_object_of, parse_string_object, parse_uuid, uuid_of};
use crate::text::{contains_ci, contains_str, str_eq, text_contains_ci, trim_value, trimmed};

verus! {

/// A single column/operator/value comparison.
#[derive(Debug)]
#[allow(inconsistent_fields)]
pub enum Predicate {
    /// The column's value is exactly this UUID.
    EqualsUuid { column: String, value: u128 },
    /// The column's value contains this text, case-insensitively.
    ContainsCi { column: String, value: String },
}

#[allow(inconsistent_fields)]
pub enum PredicateView {
    EqualsUuid { column: Seq<char>, value: u128 },
    ContainsCi { column: Seq<char>, value: Seq<char> },
}

impl View for Predicate {
    type V = PredicateView;

    open spec fn view(&self) -> PredicateView {
        match self {
            Predicate::EqualsUuid { column, value } => PredicateView::EqualsUuid {
                column: column@,
                value: *value,
            },
            Predicate::ContainsCi { column, value } => PredicateView::ContainsCi {
                column: column@,
                value: value@,
            },
        }
    }
}

/// A predicate tree: the conjunction of per-key predicates, or, in free-text
/// mode, one disjunction of case-insensitive containment tests across all
/// searchable columns. `All` of nothing matches every record.
#[derive(Debug)]
pub enum Condition {
    All(Vec<Predicate>),
    AnyContains { columns: Vec<String>, query: String },
}

pub enum ConditionView {
    All(Seq<PredicateView>),
    AnyContains { columns: Seq<Seq<char>>, query: Seq<char> },
}

impl View for Condition {
    type V = ConditionView;

    open spec fn view(&self) -> ConditionView {
        match self {
            Condition::All(preds) => ConditionView::All(
                Seq::new(preds@.len(), |i: int| preds@[i]@),
            ),
            Condition::AnyContains { columns, query } => ConditionView::AnyContains {
                columns: Seq::new(columns@.len(), |i: int| columns@[i]@),
                query: query@,
            },
        }
    }
}

/// The rejected filter requests: a key that names no searchable column.
#[derive(Debug, Clone)]
pub enum FilterError {
    UnknownColumn(String),
}

impl FilterError {
    /// A short description, for error bodies.
    pub fn message(&self) -> (m: String)
        ensures
            self matches FilterError::UnknownColumn(k) ==> m@ == seq![
                'u', 'n', 'k', 'n', 'o', 'w', 'n', ' ', 'f', 'i', 'l', 't', 'e', 'r', ' ', 'c',
                'o', 'l', 'u', 'm', 'n', ':', ' ',
            ] + k@,
    {
        match self {
            FilterError::UnknownColumn(k) => {
                proof {
                    reveal_strlit("unknown filter column: ");
                    assert("unknown filter column: "@ =~= seq![
                        'u', 'n', 'k', 'n', 'o', 'w', 'n', ' ', 'f', 'i', 'l', 't', 'e', 'r',
                        ' ', 'c', 'o', 'l', 'u', 'm', 'n', ':', ' ',
                    ]);
                }
                let mut m = <String as vstd::string::StringExecFns>::from_str(
                    "unknown filter column: ",
                );
                <String as vstd::string::StringExecFns>::append(&mut m, k.as_str());
                m
            },
        }
    }
}

/// The textual value a record presents for a column: `Some` when the column
/// is present with a non-null value, `None` when it is absent or null.
pub open spec fn field_value(fields: Seq<(Seq<char>, Option<Seq<char>>)>, col: Seq<char>) -> Option<
    Seq<char>,
>
    decreases fields.len(),
{
    if fields.len() == 0 {
        None
    } else if fields[0].0 == col {
        fields[0].1
    } else {
        field_value(fields.drop_first(), col)
    }
}

/// The pure view of a record's textual fields: each column name with the
/// column's value, `None` standing for a null.
pub open spec fn fields_view(fields: Seq<(String, Option<String>)>) -> Seq<
    (Seq<char>, Option<Seq<char>>),
> {
    Seq::new(
        fields.len(),
        |i: int|
            (
                fields[i].0@,
                match fields[i].1 {
                    Some(v) => Some(v@),
                    None => None,
                },
            ),
    )
}

/// What it means for one predicate to match a record: a UUID predicate asks
/// for the value to denote exactly that UUID, a containment predicate for a
/// case-insensitive substring; an absent or null value matches neither.
pub open spec fn pred_matches(p: PredicateView, fields: Seq<(Seq<char>, Option<Seq<char>>)>) -> bool {
    match p {
        PredicateView::EqualsUuid { column, value } => field_value(fields, column) matches Some(
            t,
        ) && uuid_of(t) == Some(value),
        PredicateView::ContainsCi { column, value } => field_value(fields, column) matches Some(
            t,
        ) && contains_ci(t, value),
    }
}

/// Every predicate of the conjunction matches the record.
pub open spec fn all_preds_match(
    preds: Seq<PredicateView>,
    fields: Seq<(Seq<char>, Option<Seq<char>>)>,
) -> bool {
    forall|i: int| 0 <= i < preds.len() ==> #[trigger] pred_matches(preds[i], fields)
}

/// Some column of the disjunction has a value containing the query.
pub open spec fn any_column_contains(
    columns: Seq<Seq<char>>,
    query: Seq<char>,
    fields: Seq<(Seq<char>, Option<Seq<char>>)>,
) -> bool {
    exists|i: int|
        0 <= i < columns.len() && (field_value(fields, #[trigger] columns[i]) matches Some(t)
            && contains_ci(t, query))
}

/// What it means for a condition to match a record.
pub open spec fn cond_matches(c: ConditionView, fields: Seq<(Seq<char>, Option<Seq<char>>)>) -> bool {
    match c {
        ConditionView::All(preds) => all_preds_match(preds, fields),
        ConditionView::AnyContains { columns, query } => any_column_contains(
            columns,
            query,
            fields,
        ),
    }
}

/// The value of the first `q` key among the pairs, if any: its presence puts
/// the filter in free-text mode.
pub open spec fn first_q_value(pairs: Seq<(Seq<char>, Seq<char>)>) -> Option<Seq<char>>
    decreases pairs.len(),
{
    if pairs.len() == 0 {
        None
    } else if pairs[0].0 == seq!['q'] {
        Some(pairs[0].1)
    } else {
        first_q_value(pairs.drop_first())
    }
}

/// The pure view of a list of column names.
pub open spec fn cols_view(cols: Seq<String>) -> Seq<Seq<char>> {
    Seq::new(cols.len(), |i: int| cols[i]@)
}

/// Whether `key` names a searchable column.
pub open spec fn key_known(key: Seq<char>, cols: Seq<Seq<char>>) -> bool {
    exists|j: int| 0 <= j < cols.len() && cols[j] == key
}

/// Membership in a column table is the same thing as membership in its pure
/// view.
pub proof fn lemma_cols_view_known(table: Seq<String>, k: Seq<char>)
    ensures
        key_known(k, cols_view(table)) == exists|i: int| 0 <= i < table.len() && table[i]@ == k,
{
    let cv = cols_view(table);
    if key_known(k, cv) {
        let j = choose|j: int| 0 <= j < cv.len() && cv[j] == k;
        assert(table[j]@ == k);
    }
    if exists|i: int| 0 <= i < table.len() && table[i]@ == k {
        let i = choose|i: int| 0 <= i < table.len() && table[i]@ == k;
        assert(cv[i] == k);
    }
}

/// The first filter key that names no searchable column, if any.
pub open spec fn first_unknown_key(pairs: Seq<(Seq<char>, Seq<char>)>, cols: Seq<Seq<char>>) -> Option<
    Seq<char>,
>
    decreases pairs.len(),
{
    if pairs.len() == 0 {
        None
    } else if !key_known(pairs[0].0, cols) {
        Some(pairs[0].0)
    } else {
        first_unknown_key(pairs.drop_first(), cols)
    }
}

/// The predicate one key/value pair compiles to: the value is trimmed, and a
/// value that is a UUID literal asks for exact UUID equality while any other
/// value asks for case-insensitive containment.
pub open spec fn pair_predicate(key: Seq<char>, value: Seq<char>) -> PredicateView {
    let t = trimmed(value);
    match uuid_of(t) {
        Some(u) => PredicateView::EqualsUuid { column: key, value: u },
        None => PredicateView::ContainsCi { column: key, value: t },
    }
}

/// The condition a parsed filter compiles to, or `None` when the filter is
/// rejected. An unparsed filter (`pairs` is `None`) compiles to the empty
/// conjunction; a `q` key puts the whole filter in free-text mode over all
/// searchable columns; otherwise each pair becomes one predicate, and a key
/// naming no searchable column rejects the filter.
pub open spec fn filter_outcome(
    pairs_opt: Option<Seq<(Seq<char>, Seq<char>)>>,
    cols: Seq<Seq<char>>,
) -> Option<ConditionView> {
    match pairs_opt {
        None => Some(ConditionView::All(Seq::empty())),
        Some(pairs) => match first_q_value(pairs) {
            Some(q) => Some(
                ConditionView::AnyContains { columns: cols, query: q },
            ),
            None => if first_unknown_key(pairs, cols) is None {
                Some(
                    ConditionView::All(
                        Seq::new(pairs.len(), |i: int| pair_predicate(pairs[i].0, pairs[i].1)),
                    ),
                )
            } else {
                None
            },
        },
    }
}

/// Compiles a raw filter request against the whitelist of searchable column
/// names. A missing or malformed request compiles to the condition that
/// matches everything; a filter key outside the whitelist is rejected.
#[verifier::loop_isolation(false)]
pub fn apply_filters(filter_str: Option<String>, searchable_columns: &Vec<String>) -> (r: Result<
    Condition,
    FilterError,
>)
    ensures
        ({
            let pairs_opt = match filter_str {
                Some(s) => json_object_of(s@),
                None => None,
            };
            match r {
                Ok(c) => filter_outcome(pairs_opt, cols_view(searchable_columns@)) == Some(c@),
                Err(e) => {
                    &&& filter_outcome(pairs_opt, cols_view(searchable_columns@)) is None
                    &&& (e matches FilterError::UnknownColumn(k) && pairs_opt matches Some(pairs)
                        && first_unknown_key(pairs, cols_view(searchable_columns@)) == Some(k@))
                },
            }
        }),
{
    let parsed: Option<Vec<(String, String)>> = match &filter_str {
        None => None,
        Some(s) => parse_string_object(s.as_str()),
    };
    let ghost pairs_opt: Option<Seq<(Seq<char>, Seq<char>)>> = match filter_str {
        Some(s) => json_object_of(s@),
        None => None,
    };
    match parsed {
        None => {
            proof {
                assert(filter_outcome(pairs_opt, cols_view(searchable_columns@)) == Some(
                    ConditionView::All(Seq::<PredicateView>::empty()),
                ));
            }
            let c = Condition::All(Vec::new());
            proof {
                assert(c@ matches ConditionView::All(s) && s =~= Seq::<PredicateView>::empty());
            }
            Ok(c)
        },
        Some(pairs) => {
            let ghost gpairs: Seq<(Seq<char>, Seq<char>)> = pairs_opt->Some_0;
            proof {
                assert(gpairs =~= Seq::new(pairs@.len(), |i: int| (pairs@[i].0@, pairs@[i].1@)));
            }
            // Free-text mode: the first `q` key, if any, carries the query.
            proof {
                assert(gpairs.subrange(0, gpairs.len() as int) =~= gpairs);
            }
            let mut qi: usize = 0;
            let mut q_found = false;
            while qi < pairs.len() && !q_found
                invariant
                    qi <= pairs@.len(),
                    gpairs.len() == pairs@.len(),
                    forall|i: int| 0 <= i < gpairs.len() ==> gpairs[i] == (
                        pairs@[i].0@,
                        pairs@[i].1@,
                    ),
                    q_found ==> qi < pairs@.len() && gpairs[qi as int].0 == seq!['q']
                        && first_q_value(gpairs) == Some(gpairs[qi as int].1),
                    !q_found ==> first_q_value(gpairs) == first_q_value(
                        gpairs.subrange(qi as int, gpairs.len() as int),
                    ),
                decreases gpairs.len() - qi, (if q_found { 0int } else { 1int }),
            {
                proof {
                    reveal_strlit("q");
                    assert("q"@ =~= seq!['q']);
                }
                if str_eq(pairs[qi].0.as_str(), "q") {
                    proof {
                        let tail = gpairs.subrange(qi as int, gpairs.len() as int);
                        assert(tail[0] == gpairs[qi as int]);
                        assert(first_q_value(tail) == Some(gpairs[qi as int].1));
                    }
                    q_found = true;
                } else {
                    proof {
                        let tail = gpairs.subrange(qi as int, gpairs.len() as int);
                        assert(tail[0] == gpairs[qi as int]);
                        assert(tail.drop_first() =~= gpairs.subrange(
                            qi as int + 1,
                            gpairs.len() as int,
                        ));
                    }
                    qi = qi + 1;
                }
            }
            if q_found {
                let query = pairs[qi].1.clone();
                let columns = searchable_columns.clone();
                let c = Condition::AnyContains { columns, query };
                proof {
                    assert(c@ matches ConditionView::AnyContains { columns: cs, query: qv }
                        && cs =~= cols_view(searchable_columns@) && qv == gpairs[qi as int].1);
                }
                return Ok(c);
            }
            proof {
                assert(gpairs.subrange(qi as int, gpairs.len() as int) =~= Seq::<(
                    Seq<char>,
                    Seq<char>,
                )>::empty());
                assert(first_q_value(gpairs) is None);
            }
            // Column mode: each pair becomes one predicate against a
            // whitelisted column.
            proof {
                assert(gpairs.subrange(0, gpairs.len() as int) =~= gpairs);
            }
            let mut preds: Vec<Predicate> = Vec::new();
            let mut i: usize = 0;
            while i < pairs.len()
                invariant
                    i <= pairs@.len(),
                    gpairs.len() == pairs@.len(),
                    forall|j: int| 0 <= j < gpairs.len() ==> gpairs[j] == (
                        pairs@[j].0@,
                        pairs@[j].1@,
                    ),
                    first_unknown_key(gpairs, cols_view(searchable_columns@))
                        == first_unknown_key(
                        gpairs.subrange(i as int, gpairs.len() as int),
                        cols_view(searchable_columns@),
                    ),
                    preds@.len() == i,
                    forall|j: int| 0 <= j < i ==> #[trigger] preds@[j]@ == pair_predicate(
                        gpairs[j].0,
                        gpairs[j].1,
                    ),
                decreases gpairs.len() - i,
            {
                proof {
                    let tail = gpairs.subrange(i as int, gpairs.len() as int);
                    assert(tail[0] == gpairs[i as int]);
                    assert(tail.drop_first() =~= gpairs.subrange(
                        i as int + 1,
                        gpairs.len() as int,
                    ));
                }
                if !contains_str(searchable_columns, pairs[i].0.as_str()) {
                    proof {
                        let tail = gpairs.subrange(i as int, gpairs.len() as int);
                        lemma_cols_view_known(searchable_columns@, tail[0].0);
                        assert(!key_known(tail[0].0, cols_view(searchable_columns@)));
                        assert(first_unknown_key(tail, cols_view(searchable_columns@)) == Some(
                            gpairs[i as int].0,
                        ));
                    }
                    return Err(FilterError::UnknownColumn(pairs[i].0.clone()));
                }
                proof {
                    let tail = gpairs.subrange(i as int, gpairs.len() as int);
                    lemma_cols_view_known(searchable_columns@, tail[0].0);
                    assert(key_known(tail[0].0, cols_view(searchable_columns@)));
                }
                let t = trim_value(pairs[i].1.as_str());
                let p = match parse_uuid(t.as_str()) {
                    Some(u) => Predicate::EqualsUuid { column: pairs[i].0.clone(), value: u },
                    None => Predicate::ContainsCi { column: pairs[i].0.clone(), value: t },
                };
                preds.push(p);
                i = i + 1;
            }
            proof {
                assert(gpairs.subrange(i as int, gpairs.len() as int) =~= Seq::<(
                    Seq<char>,
                    Seq<char>,
                )>::empty());
                assert(first_unknown_key(gpairs, cols_view(searchable_columns@)) is None);
            }
            let c = Condition::All(preds);
            proof {
                assert(c@ matches ConditionView::All(ps) && ps =~= Seq::new(
                    gpairs.len(),
                    |j: int| pair_predicate(gpairs[j].0, gpairs[j].1),
                ));
            }
            Ok(c)
        },
    }
}

/// Free-text filtering: a filter whose pairs carry a `q` key compiles to a
/// condition that matches a record exactly when at least one searchable
/// column's value contains the query as a case-insensitive substring.
pub proof fn lemma_free_text_matches(
    pairs: Seq<(Seq<char>, Seq<char>)>,
    cols: Seq<Seq<char>>,
    fields: Seq<(Seq<char>, Option<Seq<char>>)>,
)
    requires
        first_q_value(pairs) is Some,
    ensures
        filter_outcome(Some(pairs), cols) matches Some(c) && (cond_matches(c, fields)
            <==> any_column_contains(cols, first_q_value(pairs)->Some_0, fields)),
{
    let q = first_q_value(pairs)->Some_0;
    let c = filter_outcome(Some(pairs), cols)->Some_0;
    assert(c == (ConditionView::AnyContains { columns: cols, query: q }));
    assert(cond_matches(c, fields) == any_column_contains(cols, q, fields));
}

/// The column a predicate compares.
pub open spec fn pred_column(p: PredicateView) -> Seq<char> {
    match p {
        PredicateView::EqualsUuid { column, .. } => column,
        PredicateView::ContainsCi { column, .. } => column,
    }
}

proof fn lemma_no_unknown_keys(pairs: Seq<(Seq<char>, Seq<char>)>, cols: Seq<Seq<char>>)
    requires
        first_unknown_key(pairs, cols) is None,
    ensures
        forall|i: int| 0 <= i < pairs.len() ==> key_known((#[trigger] pairs[i]).0, cols),
    decreases pairs.len(),
{
    if pairs.len() > 0 {
        lemma_no_unknown_keys(pairs.drop_first(), cols);
        assert forall|i: int| 0 <= i < pairs.len() implies key_known(
            (#[trigger] pairs[i]).0,
            cols,
        ) by {
            if i > 0 {
                assert(pairs.drop_first()[i - 1] == pairs[i]);
            }
        }
    }
}

/// Accepted column-mode filters never reach beyond the whitelist: every
/// predicate of the compiled conjunction names a searchable column, so no
/// request can steer the storage engine to an arbitrary column.
pub proof fn lemma_predicates_stay_on_whitelist(
    pairs: Seq<(Seq<char>, Seq<char>)>,
    cols: Seq<Seq<char>>,
)
    requires
        filter_outcome(Some(pairs), cols) matches Some(c) && c matches ConditionView::All(ps),
    ensures
        filter_outcome(Some(pairs), cols) matches Some(c) && (c matches ConditionView::All(ps)
            ==> forall|i: int|
                0 <= i < ps.len() ==> key_known(pred_column(#[trigger] ps[i]), cols)),
{
    let c = filter_outcome(Some(pairs), cols)->Some_0;
    let ps = c->All_0;
    assert(first_q_value(pairs) is None);
    assert(first_unknown_key(pairs, cols) is None);
    lemma_no_unknown_keys(pairs, cols);
    assert(ps == Seq::new(pairs.len(), |i: int| pair_predicate(pairs[i].0, pairs[i].1)));
    assert forall|i: int| 0 <= i < ps.len() implies key_known(
        pred_column(#[trigger] ps[i]),
        cols,
    ) by {
        assert(ps[i] == pair_predicate(pairs[i].0, pairs[i].1));
        assert(pred_column(ps[i]) == pairs[i].0);
        assert(key_known(pairs[i].0, cols));
    }
}

/// A single-column filter whose value is a UUID literal compiles to a
/// condition that matches a record exactly when that column's value denotes
/// the same UUID — exact equality, not substring containment.
pub proof fn lemma_uuid_value_matches_exactly(
    key: Seq<char>,
    value: Seq<char>,
    u: u128,
    cols: Seq<Seq<char>>,
    fields: Seq<(Seq<char>, Option<Seq<char>>)>,
)
    requires
        key != seq!['q'],
        key_known(key, cols),
        uuid_of(trimmed(value)) == Some(u),
    ensures
        filter_outcome(Some(seq![(key, value)]), cols) matches Some(c) && (cond_matches(c, fields)
            <==> (field_value(fields, key) matches Some(t) && uuid_of(t) == Some(u))),
{
    let pairs: Seq<(Seq<char>, Seq<char>)> = seq![(key, value)];
    assert(pairs.drop_first() =~= Seq::<(Seq<char>, Seq<char>)>::empty());
    assert(pairs[0] == (key, value));
    assert(first_q_value(pairs.drop_first()) is None);
    assert(first_q_value(pairs) is None);
    assert(first_unknown_key(pairs.drop_first(), cols) is None);
    assert(first_unknown_key(pairs, cols) is None);
    let ps = Seq::new(1, |i: int| pair_predicate(pairs[i].0, pairs[i].1));
    let c = filter_outcome(Some(pairs), cols)->Some_0;
    assert(c == ConditionView::All(ps));
    assert(ps[0] == (PredicateView::EqualsUuid { column: key, value: u }));
    assert(cond_matches(c, fields) ==> pred_matches(ps[0], fields)) by {
        if cond_matches(c, fields) {
            assert(all_preds_match(ps, fields));
            assert(pred_matches(ps[0], fields));
        }
    }
    assert(pred_matches(ps[0], fields) ==> cond_matches(c, fields)) by {
        if pred_matches(ps[0], fields) {
            assert(forall|i: int| 0 <= i < ps.len() ==> #[trigger] pred_matches(ps[i], fields));
            assert(all_preds_match(ps, fields));
        }
    }
    assert(pred_matches(ps[0], fields) <==> (field_value(fields, key) matches Some(t) && uuid_of(
        t,
    ) == Some(u)));
}

/// A single-column filter whose value is not a UUID literal compiles to a
/// condition that matches a record exactly when that column's value contains
/// the trimmed filter value as a case-insensitive substring.
pub proof fn lemma_text_value_matches_substring(
    key: Seq<char>,
    value: Seq<char>,
    cols: Seq<Seq<char>>,
    fields: Seq<(Seq<char>, Option<Seq<char>>)>,
)
    requires
        key != seq!['q'],
        key_known(key, cols),
        uuid_of(trimmed(value)) is None,
    ensures
        filter_outcome(Some(seq![(key, value)]), cols) matches Some(c) && (cond_matches(c, fields)
            <==> (field_value(fields, key) matches Some(t) && contains_ci(t, trimmed(value)))),
{
    let pairs: Seq<(Seq<char>, Seq<char>)> = seq![(key, value)];
    assert(pairs.drop_first() =~= Seq::<(Seq<char>, Seq<char>)>::empty());
    assert(pairs[0] == (key, value));
    assert(first_q_value(pairs.drop_first()) is None);
    assert(first_q_value(pairs) is None);
    assert(first_unknown_key(pairs.drop_first(), cols) is None);
    assert(first_unknown_key(pairs, cols) is None);
    let ps = Seq::new(1, |i: int| pair_predicate(pairs[i].0, pairs[i].1));
    let c = filter_outcome(Some(pairs), cols)->Some_0;
    assert(c == ConditionView::All(ps));
    assert(ps[0] == (PredicateView::ContainsCi { column: key, value: trimmed(value) }));
    assert(cond_matches(c, fields) ==> pred_matches(ps[0], fields)) by {
        if cond_matches(c, fields) {
            assert(all_preds_match(ps, fields));
            assert(pred_matches(ps[0], fields));
        }
    }
    assert(pred_matches(ps[0], fields) ==> cond_matches(c, fields)) by {
        if pred_matches(ps[0], fields) {
            assert(forall|i: int| 0 <= i < ps.len() ==> #[trigger] pred_matches(ps[i], fields));
            assert(all_preds_match(ps, fields));
        }
    }
    assert(pred_matches(ps[0], fields) <==> (field_value(fields, key) matches Some(t)
        && contains_ci(t, trimmed(value))));
}

fn field_value_of(fields: &Vec<(String, Option<String>)>, col: &str) -> (r: Option<String>)
    ensures
        match r {
            Some(s) => field_value(fields_view(fields@), col@) == Some(s@),
            None => field_value(fields_view(fields@), col@) is None,
        },
{
    let ghost gf = fields_view(fields@);
    proof {
        assert(gf.subrange(0, gf.len() as int) =~= gf);
    }
    let mut i: usize = 0;
    while i < fields.len()
        invariant
            i <= fields@.len(),
            gf == fields_view(fields@),
            gf.len() == fields@.len(),
            field_value(gf, col@) == field_value(
                gf.subrange(i as int, gf.len() as int),
                col@,
            ),
        decreases fields@.len() - i,
    {
        proof {
            let tail = gf.subrange(i as int, gf.len() as int);
            assert(tail[0] == gf[i as int]);
            assert(tail.drop_first() =~= gf.subrange(i as int + 1, gf.len() as int));
        }
        if str_eq(fields[i].0.as_str(), col) {
            proof {
                assert(gf[i as int].0 == col@);
                assert(field_value(gf, col@) == gf[i as int].1);
            }
            match &fields[i].1 {
                Some(v) => {
                    return Some(v.clone());
                },
                None => {
                    return None;
                },
            }
        }
        i = i + 1;
    }
    proof {
        assert(gf.subrange(i as int, gf.len() as int) =~= Seq::<(
            Seq<char>,
            Option<Seq<char>>,
        )>::empty());
    }
    None
}

fn pred_holds(p: &Predicate, fields: &Vec<(String, Option<String>)>) -> (r: bool)
    ensures
        r == pred_matches(p@, fields_view(fields@)),
{
    match p {
        Predicate::EqualsUuid { column, value } => match field_value_of(fields, column.as_str()) {
            Some(t) => match parse_uuid(t.as_str()) {
                Some(u) => u == *value,
                None => false,
            },
            None => false,
        },
        Predicate::ContainsCi { column, value } => match field_value_of(fields, column.as_str()) {
            Some(t) => text_contains_ci(t.as_str(), value.as_str()),
            None => false,
        },
    }
}

/// Evaluates a condition against a record's textual fields. This is the
/// matching semantics the storage engine is asked to apply.
#[verifier::loop_isolation(false)]
pub fn matches_condition(c: &Condition, fields: &Vec<(String, Option<String>)>) -> (r: bool)
    ensures
        r == cond_matches(c@, fields_view(fields@)),
{
    match c {
        Condition::All(preds) => {
            let mut i: usize = 0;
            while i < preds.len()
                invariant
                    i <= preds@.len(),
                    forall|j: int| 0 <= j < i ==> pred_matches(
                        #[trigger] preds@[j]@,
                        fields_view(fields@),
                    ),
                decreases preds@.len() - i,
            {
                if !pred_holds(&preds[i], fields) {
                    proof {
                        let cv = c@;
                        assert(cv matches ConditionView::All(ps) && !pred_matches(
                            ps[i as int],
                            fields_view(fields@),
                        ));
                    }
                    return false;
                }
                i = i + 1;
            }
            true
        },
        Condition::AnyContains { columns, query } => {
            let mut i: usize = 0;
            while i < columns.len()
                invariant
                    i <= columns@.len(),
                    forall|j: int| 0 <= j < i ==> !(field_value(
                        fields_view(fields@),
                        #[trigger] columns@[j]@,
                    ) matches Some(t) && contains_ci(t, query@)),
                decreases columns@.len() - i,
            {
                match field_value_of(fields, columns[i].as_str()) {
                    Some(t) => {
                        if text_contains_ci(t.as_str(), query.as_str()) {
                            proof {
                                let cv = c@;
                                assert(cv matches ConditionView::AnyContains {
                                    columns: cs,
                                    query: qv,
                                } && cs[i as int] == columns@[i as int]@ && (field_value(
                                    fields_view(fields@),
                                    cs[i as int],
                                ) matches Some(tv) && contains_ci(tv, qv)));
                            }
                            return true;
                        }
                    },
                    None => {},
                }
                i = i + 1;
            }
            false
        },
    }
}

} // verus!

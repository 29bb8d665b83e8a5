//! The in-memory event store: the reference model of the storage engine the
//! service orchestrates. It answers filtered, sorted, paginated finds and
//! performs single-row inserts, updates and deletes by identifier.

use vstd::prelude::*;
use vstd::multiset::Multiset;
use crate::decode::json_object_of;
use crate::events::{
    created_model, event_filter_columns, event_of, event_sort_columns, merged_model, model_fields,
    CreateEvent, Event, EventView, Model, ModelView, UpdateEvent,
};
use crate::filter::{
    apply_filters, cond_matches, filter_outcome, first_unknown_key, matches_condition, Condition,
    ConditionView, FilterError,
};
use crate::pagination::{calculate_content_range, header_text, parse_range, range_window};
use crate::sort::{direction_of, generic_sort, requested_sort, resolved_column, SortDirection};
use crate::text::{lemma_lex_le_total, lemma_lex_le_trans, lex_le, str_eq, str_lex_le};

verus! {

/// The record column a resolved sort request orders by.
#[derive(Clone, Copy, Debug, PartialEq, Eq, Structural)]
pub enum SortKey {
    Id,
    Title,
    Description,
    StartTime,
    EndTime,
}

/// Order on optional text: a null sorts after every value, as the storage
/// engine's ascending order does.
pub open spec fn opt_text_le(a: Option<Seq<char>>, b: Option<Seq<char>>) -> bool {
    match (a, b) {
        (_, Option::None) => true,
        (Option::None, Option::Some(_)) => false,
        (Option::Some(x), Option::Some(y)) => lex_le(x, y),
    }
}

/// Order on optional numbers: a null sorts after every value, as the storage
/// engine's ascending order does.
pub open spec fn opt_i64_le(a: Option<i64>, b: Option<i64>) -> bool {
    match (a, b) {
        (_, Option::None) => true,
        (Option::None, Option::Some(_)) => false,
        (Option::Some(x), Option::Some(y)) => x <= y,
    }
}

/// The ascending order a sort key induces on events.
pub open spec fn key_le_asc(k: SortKey, a: EventView, b: EventView) -> bool {
    match k {
        SortKey::Id => a.id <= b.id,
        SortKey::Title => opt_text_le(a.title, b.title),
        SortKey::Description => opt_text_le(a.description, b.description),
        SortKey::StartTime => a.start_time <= b.start_time,
        SortKey::EndTime => opt_i64_le(a.end_time, b.end_time),
    }
}

/// The order a sort key and direction induce on events.
pub open spec fn key_le(k: SortKey, dir: SortDirection, a: EventView, b: EventView) -> bool {
    match dir {
        SortDirection::Ascending => key_le_asc(k, a, b),
        SortDirection::Descending => key_le_asc(k, b, a),
    }
}

/// Any two events are ordered one way or the other under any key.
pub proof fn lemma_key_le_total(k: SortKey, dir: SortDirection, a: EventView, b: EventView)
    ensures
        key_le(k, dir, a, b) || key_le(k, dir, b, a),
{
    match k {
        SortKey::Title => {
            match (a.title, b.title) {
                (Some(x), Some(y)) => lemma_lex_le_total(x, y),
                _ => {},
            }
        },
        SortKey::Description => {
            match (a.description, b.description) {
                (Some(x), Some(y)) => lemma_lex_le_total(x, y),
                _ => {},
            }
        },
        _ => {},
    }
}

/// The order a sort key induces is transitive.
pub proof fn lemma_key_le_trans(
    k: SortKey,
    dir: SortDirection,
    a: EventView,
    b: EventView,
    c: EventView,
)
    requires
        key_le(k, dir, a, b),
        key_le(k, dir, b, c),
    ensures
        key_le(k, dir, a, c),
{
    match k {
        SortKey::Title => {
            match (a.title, b.title, c.title) {
                (Some(x), Some(y), Some(z)) => match dir {
                    SortDirection::Ascending => lemma_lex_le_trans(x, y, z),
                    SortDirection::Descending => lemma_lex_le_trans(z, y, x),
                },
                _ => {},
            }
        },
        SortKey::Description => {
            match (a.description, b.description, c.description) {
                (Some(x), Some(y), Some(z)) => match dir {
                    SortDirection::Ascending => lemma_lex_le_trans(x, y, z),
                    SortDirection::Descending => lemma_lex_le_trans(z, y, x),
                },
                _ => {},
            }
        },
        _ => {},
    }
}

fn opt_str_le(a: &Option<String>, b: &Option<String>) -> (r: bool)
    ensures
        r == opt_text_le(crate::events::opt_str_view(*a), crate::events::opt_str_view(*b)),
{
    match (a, b) {
        (_, None) => true,
        (None, Some(_)) => false,
        (Some(x), Some(y)) => str_lex_le(x.as_str(), y.as_str()),
    }
}

fn event_le(k: SortKey, dir: SortDirection, a: &Event, b: &Event) -> (r: bool)
    ensures
        r == key_le(k, dir, a@, b@),
{
    let (x, y) = match dir {
        SortDirection::Ascending => (a, b),
        SortDirection::Descending => (b, a),
    };
    match k {
        SortKey::Id => x.id <= y.id,
        SortKey::Title => opt_str_le(&x.title, &y.title),
        SortKey::Description => opt_str_le(&x.description, &y.description),
        SortKey::StartTime => x.start_time <= y.start_time,
        SortKey::EndTime => match (&x.end_time, &y.end_time) {
            (_, None) => true,
            (None, Some(_)) => false,
            (Some(p), Some(q)) => *p <= *q,
        },
    }
}

/// The pure views of a sequence of events.
pub open spec fn evs(s: Seq<Event>) -> Seq<EventView> {
    Seq::new(s.len(), |i: int| s[i]@)
}

/// The events stand in order under the key and direction.
pub open spec fn sorted_events(s: Seq<EventView>, k: SortKey, dir: SortDirection) -> bool {
    forall|i: int, j: int|
        #![trigger s[i], s[j]]
        0 <= i < j < s.len() ==> key_le(k, dir, s[i], s[j])
}

/// Sorts events by the key and direction: the result is ordered and holds
/// exactly the input events; the order among ties is unspecified.
#[verifier::loop_isolation(false)]
pub fn sort_events(v: Vec<Event>, k: SortKey, dir: SortDirection) -> (r: Vec<Event>)
    ensures
        sorted_events(evs(r@), k, dir),
        evs(r@).to_multiset() == evs(v@).to_multiset(),
{
    broadcast use vstd::seq_lib::group_to_multiset_ensures;

    let ghost orig: Seq<EventView> = evs(v@);
    let mut rest = v;
    let mut out: Vec<Event> = Vec::new();
    proof {
        assert(evs(out@).to_multiset() =~= Multiset::<EventView>::empty());
    }
    while rest.len() > 0
        invariant
            sorted_events(evs(out@), k, dir),
            evs(out@).to_multiset().add(evs(rest@).to_multiset()) == orig.to_multiset(),
        decreases rest@.len(),
    {
        let ghost rest_before = rest@;
        let x = match rest.pop() {
            Some(x) => x,
            None => {
                proof {
                    assert(false);
                }
                unreached()
            },
        };
        proof {
            assert(evs(rest_before) =~= evs(rest@).push(x@));
            assert(evs(rest_before).to_multiset() == evs(rest@).to_multiset().insert(x@));
        }
        let mut p: usize = 0;
        while p < out.len() && event_le(k, dir, &out[p], &x)
            invariant
                p <= out@.len(),
                forall|j: int| 0 <= j < p ==> key_le(k, dir, #[trigger] evs(out@)[j], x@),
            decreases out@.len() - p,
        {
            proof {
                assert(evs(out@)[p as int] == out@[p as int]@);
            }
            p = p + 1;
        }
        proof {
            if p < out@.len() {
                assert(!key_le(k, dir, out@[p as int]@, x@));
                lemma_key_le_total(k, dir, out@[p as int]@, x@);
                assert(key_le(k, dir, x@, evs(out@)[p as int]));
            }
            assert forall|j: int| p <= j < out@.len() implies key_le(
                k,
                dir,
                x@,
                #[trigger] evs(out@)[j],
            ) by {
                if j > p {
                    assert(key_le(k, dir, evs(out@)[p as int], evs(out@)[j]));
                    lemma_key_le_trans(k, dir, x@, evs(out@)[p as int], evs(out@)[j]);
                }
            }
        }
        let ghost out_before = out@;
        out.insert(p, x);
        proof {
            assert(out@ =~= out_before.insert(p as int, x));
            let ev_new = evs(out@);
            let ev_old = evs(out_before);
            assert(ev_new =~= ev_old.insert(p as int, x@));
            assert(ev_new.to_multiset() == ev_old.to_multiset().insert(x@));
            assert(sorted_events(ev_new, k, dir)) by {
                assert forall|i: int, j: int|
                    #![trigger ev_new[i], ev_new[j]]
                    0 <= i < j < ev_new.len() implies key_le(k, dir, ev_new[i], ev_new[j]) by {
                    if j < p {
                        assert(ev_new[i] == ev_old[i] && ev_new[j] == ev_old[j]);
                    } else if i < p && j == p {
                        assert(ev_new[i] == ev_old[i] && ev_new[j] == x@);
                    } else if i < p && j > p {
                        assert(ev_new[i] == ev_old[i] && ev_new[j] == ev_old[j - 1]);
                    } else if i == p {
                        assert(ev_new[i] == x@ && ev_new[j] == ev_old[j - 1]);
                    } else {
                        assert(ev_new[i] == ev_old[i - 1] && ev_new[j] == ev_old[j - 1]);
                    }
                }
            }
        }
    }
    proof {
        assert(evs(rest@).to_multiset() =~= Multiset::<EventView>::empty());
        assert(evs(out@).to_multiset() =~= orig.to_multiset());
    }
    out
}

/// Whether a record satisfies a compiled condition, going by its textual
/// fields.
pub open spec fn matches_record(c: ConditionView, m: ModelView) -> bool {
    cond_matches(c, model_fields(m))
}

/// The API views of the records a condition selects, in store order.
pub open spec fn matching_events(models: Seq<ModelView>, c: ConditionView) -> Seq<EventView> {
    models.filter(|m: ModelView| matches_record(c, m)).map_values(|m: ModelView| event_of(m))
}

proof fn lemma_filter_push<A>(s: Seq<A>, m: A, p: spec_fn(A) -> bool)
    ensures
        s.push(m).filter(p) == if p(m) {
            s.filter(p).push(m)
        } else {
            s.filter(p)
        },
{
    reveal(Seq::filter);
    assert(s.push(m).drop_last() =~= s);
    assert(s.push(m).last() == m);
}

proof fn lemma_matching_push(models: Seq<ModelView>, m: ModelView, c: ConditionView)
    ensures
        matching_events(models.push(m), c) == if matches_record(c, m) {
            matching_events(models, c).push(event_of(m))
        } else {
            matching_events(models, c)
        },
{
    let p = |mm: ModelView| matches_record(c, mm);
    let f = |mm: ModelView| event_of(mm);
    lemma_filter_push(models, m, p);
    if p(m) {
        assert(models.filter(p).push(m).map_values(f) =~= models.filter(p).map_values(f).push(
            f(m),
        ));
    }
}

/// The sort key a resolved column name selects; the identifier column is
/// the default.
pub open spec fn spec_sort_key(name: Seq<char>) -> SortKey {
    if name == "title"@ {
        SortKey::Title
    } else if name == "description"@ {
        SortKey::Description
    } else if name == "start_time"@ {
        SortKey::StartTime
    } else if name == "end_time"@ {
        SortKey::EndTime
    } else {
        SortKey::Id
    }
}

/// Maps a resolved sort column name to its key.
pub fn sort_key_of(name: &str) -> (k: SortKey)
    ensures
        k == spec_sort_key(name@),
{
    if str_eq(name, "title") {
        SortKey::Title
    } else if str_eq(name, "description") {
        SortKey::Description
    } else if str_eq(name, "start_time") {
        SortKey::StartTime
    } else if str_eq(name, "end_time") {
        SortKey::EndTime
    } else {
        SortKey::Id
    }
}

/// The failures a single-row insert can meet: the storage engine refuses a
/// second record under an identifier already in use.
#[derive(Clone, Copy, Debug, PartialEq, Eq, Structural)]
pub enum StoreError {
    DuplicateId,
}

/// The window of a sorted result a range request selects: `limit` records
/// from `offset`, clipped to the result.
pub open spec fn page_of(s: Seq<EventView>, offset: int, limit: int) -> Seq<EventView> {
    let lo = if offset <= s.len() {
        offset
    } else {
        s.len() as int
    };
    let hi = if offset + limit <= s.len() {
        offset + limit
    } else {
        s.len() as int
    };
    if 0 <= lo <= hi <= s.len() {
        s.subrange(lo, hi)
    } else {
        Seq::empty()
    }
}

/// The in-memory store of event records.
pub struct EventStore {
    records: Vec<Model>,
}

impl View for EventStore {
    type V = Seq<ModelView>;

    closed spec fn view(&self) -> Seq<ModelView> {
        Seq::new(self.records@.len(), |i: int| self.records@[i]@)
    }
}

impl EventStore {
    /// No two records share an identifier.
    pub open spec fn wf(&self) -> bool {
        forall|i: int, j: int|
            #![trigger self@[i], self@[j]]
            0 <= i < j < self@.len() ==> self@[i].id != self@[j].id
    }

    /// An empty store.
    pub fn new() -> (s: EventStore)
        ensures
            s@ == Seq::<ModelView>::empty(),
            s.wf(),
    {
        let s = EventStore { records: Vec::new() };
        proof {
            assert(s@ =~= Seq::<ModelView>::empty());
        }
        s
    }

    /// How many records the condition selects.
    #[verifier::loop_isolation(false)]
    pub fn count_matching(&self, condition: &Condition) -> (n: u64)
        ensures
            n == matching_events(self@, condition@).len(),
    {
        let ghost gmodels = self@;
        let mut n: u64 = 0;
        let mut i: usize = 0;
        proof {
            assert(gmodels.subrange(0, 0) =~= Seq::<ModelView>::empty());
            reveal(Seq::filter);
        }
        while i < self.records.len()
            invariant
                i <= self.records@.len(),
                n <= i,
                n == matching_events(gmodels.subrange(0, i as int), condition@).len(),
            decreases self.records@.len() - i,
        {
            let fields = self.records[i].text_fields();
            proof {
                assert(gmodels.subrange(0, i as int + 1) =~= gmodels.subrange(0, i as int).push(
                    gmodels[i as int],
                ));
                lemma_matching_push(gmodels.subrange(0, i as int), gmodels[i as int], condition@);
            }
            if matches_condition(condition, &fields) {
                n = n + 1;
            }
            i = i + 1;
        }
        proof {
            assert(gmodels.subrange(0, i as int) =~= gmodels);
        }
        n
    }

    /// A filtered, sorted, paginated find: the records the condition
    /// selects, ordered by the sort key, windowed to `limit` records from
    /// `offset`. The order among records the key cannot distinguish is
    /// unspecified.
    #[verifier::loop_isolation(false)]
    pub fn get_all(
        &self,
        condition: &Condition,
        key: SortKey,
        dir: SortDirection,
        offset: u64,
        limit: u64,
    ) -> (r: Vec<Event>)
        ensures
            exists|sorted: Seq<EventView>|
                {
                    &&& sorted.to_multiset() == matching_events(
                        self@,
                        condition@,
                    ).to_multiset()
                    &&& sorted_events(sorted, key, dir)
                    &&& evs(r@) == page_of(sorted, offset as int, limit as int)
                },
    {
        let ghost gmodels = self@;
        let mut matched: Vec<Event> = Vec::new();
        let mut i: usize = 0;
        proof {
            assert(gmodels.subrange(0, 0) =~= Seq::<ModelView>::empty());
            reveal(Seq::filter);
            assert(evs(matched@) =~= Seq::<EventView>::empty());
        }
        while i < self.records.len()
            invariant
                i <= self.records@.len(),
                evs(matched@) == matching_events(gmodels.subrange(0, i as int), condition@),
            decreases self.records@.len() - i,
        {
            let fields = self.records[i].text_fields();
            proof {
                assert(gmodels.subrange(0, i as int + 1) =~= gmodels.subrange(0, i as int).push(
                    gmodels[i as int],
                ));
                lemma_matching_push(gmodels.subrange(0, i as int), gmodels[i as int], condition@);
            }
            if matches_condition(condition, &fields) {
                let ghost before = matched@;
                matched.push(Event::from(&self.records[i]));
                proof {
                    assert(evs(matched@) =~= evs(before).push(event_of(gmodels[i as int])));
                }
            }
            i = i + 1;
        }
        proof {
            assert(gmodels.subrange(0, i as int) =~= gmodels);
        }
        let sorted_vec = sort_events(matched, key, dir);
        let ghost full: Seq<EventView> = evs(sorted_vec@);
        let ghost gsorted: Seq<Event> = sorted_vec@;
        let len = sorted_vec.len();
        let lo: usize = if offset > len as u64 {
            len
        } else {
            offset as usize
        };
        let remaining = len - lo;
        let take: usize = if limit > remaining as u64 {
            remaining
        } else {
            limit as usize
        };
        let hi = lo + take;
        let mut v = sorted_vec;
        proof {
            assert(gsorted.subrange(0, gsorted.len() as int) =~= gsorted);
        }
        while v.len() > hi
            invariant
                hi <= v@.len(),
                v@.len() <= gsorted.len(),
                v@ == gsorted.subrange(0, v@.len() as int),
            decreases v@.len(),
        {
            let ghost before = v@;
            v.pop();
            proof {
                assert(v@ =~= before.drop_last());
                assert(v@ =~= gsorted.subrange(0, v@.len() as int));
            }
        }
        let mut k: usize = 0;
        while k < lo
            invariant
                k <= lo,
                hi <= gsorted.len(),
                v@ == gsorted.subrange(k as int, hi as int),
            decreases lo - k,
        {
            let ghost before = v@;
            v.remove(0);
            proof {
                assert(v@ =~= before.remove(0));
                assert(v@ =~= gsorted.subrange(k as int + 1, hi as int));
            }
            k = k + 1;
        }
        proof {
            assert(evs(v@) =~= full.subrange(lo as int, hi as int));
            assert(page_of(full, offset as int, limit as int) =~= full.subrange(
                lo as int,
                hi as int,
            ));
            assert(full.to_multiset() == matching_events(self@, condition@).to_multiset());
            assert(sorted_events(full, key, dir));
            assert(evs(v@) == page_of(full, offset as int, limit as int));
        }
        v
    }

    fn index_of_id(&self, id: u128) -> (r: Option<usize>)
        ensures
            match r {
                Some(i) => i < self@.len() && self@[i as int].id == id,
                None => forall|j: int| 0 <= j < self@.len() ==> (#[trigger] self@[j]).id != id,
            },
    {
        let mut i: usize = 0;
        while i < self.records.len()
            invariant
                i <= self.records@.len(),
                forall|j: int| 0 <= j < i ==> (#[trigger] self@[j]).id != id,
            decreases self.records@.len() - i,
        {
            if self.records[i].id == id {
                return Some(i);
            }
            i = i + 1;
        }
        None
    }

    /// Inserts the record a creation payload describes, under a
    /// caller-supplied fresh identifier and creation time. Fails exactly when
    /// the identifier is already in use; the store is then unchanged.
    #[verifier::loop_isolation(false)]
    pub fn create_one(&mut self, payload: CreateEvent, id: u128, now: i64) -> (r: Result<
        Event,
        StoreError,
    >)
        requires
            old(self).wf(),
        ensures
            final(self).wf(),
            match r {
                Ok(e) => {
                    &&& forall|i: int|
                        0 <= i < old(self)@.len() ==> (#[trigger] old(self)@[i]).id != id
                    &&& final(self)@ == old(self)@.push(created_model(payload@, id, now))
                    &&& e@ == event_of(created_model(payload@, id, now))
                },
                Err(err) => {
                    &&& err == StoreError::DuplicateId
                    &&& exists|i: int|
                        0 <= i < old(self)@.len() && (#[trigger] old(self)@[i]).id == id
                    &&& final(self)@ == old(self)@
                },
            },
    {
        match self.index_of_id(id) {
            Some(_) => Err(StoreError::DuplicateId),
            None => {
                let m = payload.into_model(id, now);
                let e = Event::from(&m);
                let ghost before = self@;
                self.records.push(m);
                proof {
                    assert(self@ =~= before.push(created_model(payload@, id, now)));
                }
                Ok(e)
            },
        }
    }

    /// Applies a partial-update payload to the record with the given
    /// identifier, refreshing its update timestamp to `now`, and returns the
    /// updated record; `None`, with the store unchanged, when no record has
    /// that identifier.
    #[verifier::loop_isolation(false)]
    pub fn update_one_by_id(&mut self, id: u128, patch: &UpdateEvent, now: i64) -> (r: Option<
        Event,
    >)
        requires
            old(self).wf(),
        ensures
            final(self).wf(),
            match r {
                Some(e) => exists|i: int|
                    0 <= i < old(self)@.len() && (#[trigger] old(self)@[i]).id == id
                        && final(self)@ == old(self)@.update(
                        i,
                        merged_model(old(self)@[i], patch@, now),
                    ) && e@ == event_of(merged_model(old(self)@[i], patch@, now)),
                None => final(self)@ == old(self)@ && forall|i: int|
                    0 <= i < old(self)@.len() ==> (#[trigger] old(self)@[i]).id != id,
            },
    {
        match self.index_of_id(id) {
            None => None,
            Some(i) => {
                let merged = patch.apply(&self.records[i], now);
                let e = Event::from(&merged);
                let ghost before = self@;
                let ghost gm = merged@;
                self.records.remove(i);
                self.records.insert(i, merged);
                proof {
                    assert(self@ =~= before.update(i as int, gm));
                    assert(gm.id == id);
                    assert(final(self).wf()) by {
                        assert forall|a: int, b: int|
                            #![trigger self@[a], self@[b]]
                            0 <= a < b < self@.len() implies self@[a].id != self@[b].id by {
                            assert(self@[a].id == before[a].id);
                            assert(self@[b].id == before[b].id);
                        }
                    }
                }
                Some(e)
            },
        }
    }

    /// Removes the record with the given identifier; `false`, with the store
    /// unchanged, when no record has that identifier.
    #[verifier::loop_isolation(false)]
    pub fn delete_one_by_id(&mut self, id: u128) -> (r: bool)
        requires
            old(self).wf(),
        ensures
            final(self).wf(),
            r ==> exists|i: int|
                0 <= i < old(self)@.len() && (#[trigger] old(self)@[i]).id == id && final(self)@
                    == old(self)@.remove(i),
            !r ==> final(self)@ == old(self)@ && forall|i: int|
                0 <= i < old(self)@.len() ==> (#[trigger] old(self)@[i]).id != id,
    {
        match self.index_of_id(id) {
            None => false,
            Some(i) => {
                let ghost before = self@;
                self.records.remove(i);
                proof {
                    assert(self@ =~= before.remove(i as int));
                    assert(final(self).wf()) by {
                        assert forall|a: int, b: int|
                            #![trigger self@[a], self@[b]]
                            0 <= a < b < self@.len() implies self@[a].id != self@[b].id by {
                            let oa = if a < i { a } else { a + 1 };
                            let ob = if b < i { b } else { b + 1 };
                            assert(self@[a].id == before[oa].id);
                            assert(self@[b].id == before[ob].id);
                        }
                    }
                }
                true
            },
        }
    }

    /// The whole list verb: compiles the filter, resolves the sort, parses
    /// the range, and answers the page of matching records together with the
    /// range header. A filter key outside the searchable columns is
    /// rejected; every other malformed request falls back to its default.
    pub fn list_all(
        &self,
        filter_str: Option<String>,
        sort_str: Option<String>,
        range_str: Option<String>,
        resource_name: &str,
    ) -> (r: Result<(Vec<Event>, String), FilterError>)
        ensures
            ({
                let pairs_opt = match filter_str {
                    Some(s) => json_object_of(s@),
                    None => None,
                };
                let outcome = filter_outcome(pairs_opt, event_filter_columns());
                match r {
                    Err(e) => {
                        &&& outcome is None
                        &&& (e matches FilterError::UnknownColumn(k) && pairs_opt matches Some(
                            pairs,
                        ) && first_unknown_key(pairs, event_filter_columns()) == Some(k@))
                    },
                    Ok(page) => {
                        let cond = outcome->Some_0;
                        let window = range_window(
                            match range_str {
                                Some(s) => Some(s@),
                                None => None,
                            },
                        );
                        let req = requested_sort(
                            match sort_str {
                                Some(s) => Some(s@),
                                None => None,
                            },
                        );
                        let key = spec_sort_key(
                            resolved_column(req.0, event_sort_columns(), "id"@),
                        );
                        let dir = direction_of(req.1);
                        let matched = matching_events(self@, cond);
                        &&& outcome is Some
                        &&& page.1@ == header_text(
                            resource_name@,
                            window.0,
                            window.1,
                            matched.len() as u64,
                        )
                        &&& exists|sorted: Seq<EventView>|
                            {
                                &&& sorted.to_multiset() == matched.to_multiset()
                                &&& sorted_events(sorted, key, dir)
                                &&& evs(page.0@) == page_of(
                                    sorted,
                                    window.0 as int,
                                    window.1 as int,
                                )
                            }
                    },
                }
            }),
    {
        let (offset, limit) = parse_range(range_str);
        let filterable = Event::filterable_columns();
        let cond = match apply_filters(filter_str, &filterable) {
            Ok(c) => c,
            Err(e) => {
                return Err(e);
            },
        };
        let sortable = Event::sortable_columns();
        let (col, dir) = generic_sort(sort_str, &sortable, "id");
        let key = sort_key_of(col.as_str());
        let events = self.get_all(&cond, key, dir, offset, limit);
        let total = self.count_matching(&cond);
        let header = calculate_content_range(offset, limit, total, resource_name);
        Ok((events, header))
    }

    /// The record with the given identifier, if any.
    #[verifier::loop_isolation(false)]
    pub fn get_one_by_id(&self, id: u128) -> (r: Option<Event>)
        ensures
            match r {
                Some(e) => exists|i: int|
                    0 <= i < self@.len() && (#[trigger] self@[i]).id == id && e@ == event_of(
                        self@[i],
                    ),
                None => forall|i: int| 0 <= i < self@.len() ==> (#[trigger] self@[i]).id != id,
            },
    {
        let mut i: usize = 0;
        while i < self.records.len()
            invariant
                i <= self.records@.len(),
                forall|j: int| 0 <= j < i ==> (#[trigger] self@[j]).id != id,
            decreases self.records@.len() - i,
        {
            if self.records[i].id == id {
                let e = Event::from(&self.records[i]);
                proof {
                    assert((#[trigger] self@[i as int]).id == id && e@ == event_of(
                        self@[i as int],
                    ));
                }
                return Some(e);
            }
            i = i + 1;
        }
        None
    }
}

} // verus!

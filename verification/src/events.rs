//! The event resource: its persisted record, its API representation, the
//! creation payload, and the tri-state partial-update payload together with
//! the merge that applies one onto an existing record.

use vstd::prelude::*;
use vstd::string::StringExecFns;
use crate::filter::{cols_view, fields_view};
use crate::text::{i64_to_string, signed_dec_digits};

verus! {

/// A tri-state update-payload field: absent (leave the column unchanged),
/// explicitly null (clear the column), or explicitly valued (set it).
#[derive(Debug, Clone)]
pub enum PatchField<T> {
    Absent,
    Explicit(Option<T>),
}

/// A persisted event record. Identifiers are 128-bit UUID values and
/// timestamps are integral epoch values; the storage layer converts.
#[derive(Debug, Clone)]
pub struct Model {
    pub id: u128,
    pub title: Option<String>,
    pub description: Option<String>,
    pub start_time: i64,
    pub end_time: Option<i64>,
    pub created_on: i64,
    pub updated_on: i64,
}

pub struct ModelView {
    pub id: u128,
    pub title: Option<Seq<char>>,
    pub description: Option<Seq<char>>,
    pub start_time: i64,
    pub end_time: Option<i64>,
    pub created_on: i64,
    pub updated_on: i64,
}

/// The pure value of an optional string field.
pub open spec fn opt_str_view(o: Option<String>) -> Option<Seq<char>> {
    match o {
        Some(s) => Some(s@),
        None => None,
    }
}

impl View for Model {
    type V = ModelView;

    open spec fn view(&self) -> ModelView {
        ModelView {
            id: self.id,
            title: opt_str_view(self.title),
            description: opt_str_view(self.description),
            start_time: self.start_time,
            end_time: self.end_time,
            created_on: self.created_on,
            updated_on: self.updated_on,
        }
    }
}

/// An event as the API presents it: the record without its bookkeeping
/// timestamps.
#[derive(Debug, Clone)]
pub struct Event {
    pub id: u128,
    pub title: Option<String>,
    pub description: Option<String>,
    pub start_time: i64,
    pub end_time: Option<i64>,
}

pub struct EventView {
    pub id: u128,
    pub title: Option<Seq<char>>,
    pub description: Option<Seq<char>>,
    pub start_time: i64,
    pub end_time: Option<i64>,
}

impl View for Event {
    type V = EventView;

    open spec fn view(&self) -> EventView {
        EventView {
            id: self.id,
            title: opt_str_view(self.title),
            description: opt_str_view(self.description),
            start_time: self.start_time,
            end_time: self.end_time,
        }
    }
}

/// The API representation of a persisted record.
pub open spec fn event_of(m: ModelView) -> EventView {
    EventView {
        id: m.id,
        title: m.title,
        description: m.description,
        start_time: m.start_time,
        end_time: m.end_time,
    }
}

/// The column names a sort request may use for events.
pub open spec fn event_sort_columns() -> Seq<Seq<char>> {
    seq!["id"@, "title"@, "description"@, "start_time"@, "end_time"@]
}

/// The column names a filter request may use for events.
pub open spec fn event_filter_columns() -> Seq<Seq<char>> {
    seq!["title"@, "description"@, "start_time"@, "end_time"@]
}

fn clone_opt_string(o: &Option<String>) -> (r: Option<String>)
    ensures
        opt_str_view(r) == opt_str_view(*o),
{
    match o {
        Some(s) => Some(s.clone()),
        None => None,
    }
}

impl Event {
    /// The API view of a persisted record.
    pub fn from(m: &Model) -> (e: Event)
        ensures
            e@ == event_of(m@),
    {
        Event {
            id: m.id,
            title: clone_opt_string(&m.title),
            description: clone_opt_string(&m.description),
            start_time: m.start_time,
            end_time: m.end_time,
        }
    }

    /// The columns a sort request may name, in their declared order.
    pub fn sortable_columns() -> (r: Vec<String>)
        ensures
            cols_view(r@) == event_sort_columns(),
    {
        let mut v: Vec<String> = Vec::new();
        v.push(String::from_str("id"));
        v.push(String::from_str("title"));
        v.push(String::from_str("description"));
        v.push(String::from_str("start_time"));
        v.push(String::from_str("end_time"));
        proof {
            assert(cols_view(v@) =~= event_sort_columns());
        }
        v
    }

    /// The columns a filter request may name, in their declared order.
    pub fn filterable_columns() -> (r: Vec<String>)
        ensures
            cols_view(r@) == event_filter_columns(),
    {
        let mut v: Vec<String> = Vec::new();
        v.push(String::from_str("title"));
        v.push(String::from_str("description"));
        v.push(String::from_str("start_time"));
        v.push(String::from_str("end_time"));
        proof {
            assert(cols_view(v@) =~= event_filter_columns());
        }
        v
    }
}

/// The creation payload: every client-settable field of a record.
#[derive(Debug, Clone)]
pub struct CreateEvent {
    pub title: Option<String>,
    pub description: Option<String>,
    pub start_time: i64,
    pub end_time: Option<i64>,
}

pub struct CreateEventView {
    pub title: Option<Seq<char>>,
    pub description: Option<Seq<char>>,
    pub start_time: i64,
    pub end_time: Option<i64>,
}

impl View for CreateEvent {
    type V = CreateEventView;

    open spec fn view(&self) -> CreateEventView {
        CreateEventView {
            title: opt_str_view(self.title),
            description: opt_str_view(self.description),
            start_time: self.start_time,
            end_time: self.end_time,
        }
    }
}

/// The record a creation payload becomes: the server assigns the identifier
/// and stamps both timestamps with the creation time.
pub open spec fn created_model(c: CreateEventView, id: u128, now: i64) -> ModelView {
    ModelView {
        id,
        title: c.title,
        description: c.description,
        start_time: c.start_time,
        end_time: c.end_time,
        created_on: now,
        updated_on: now,
    }
}

impl CreateEvent {
    /// Builds the record to persist for this payload, under a caller-supplied
    /// fresh identifier and creation time.
    pub fn into_model(self, id: u128, now: i64) -> (m: Model)
        ensures
            m@ == created_model(self@, id, now),
    {
        Model {
            id,
            title: self.title,
            description: self.description,
            start_time: self.start_time,
            end_time: self.end_time,
            created_on: now,
            updated_on: now,
        }
    }
}

/// The partial-update payload for an event. `start_time` is the one
/// non-nullable column: clearing it is silently skipped by the merge.
#[derive(Debug, Clone)]
pub struct UpdateEvent {
    pub title: PatchField<String>,
    pub description: PatchField<String>,
    pub start_time: PatchField<i64>,
    pub end_time: PatchField<i64>,
}

pub struct UpdateEventView {
    pub title: PatchField<Seq<char>>,
    pub description: PatchField<Seq<char>>,
    pub start_time: PatchField<i64>,
    pub end_time: PatchField<i64>,
}

/// The pure value of a tri-state string field.
pub open spec fn patch_str_view(p: PatchField<String>) -> PatchField<Seq<char>> {
    match p {
        PatchField::Absent => PatchField::Absent,
        PatchField::Explicit(Some(s)) => PatchField::Explicit(Some(s@)),
        PatchField::Explicit(None) => PatchField::Explicit(None),
    }
}

impl View for UpdateEvent {
    type V = UpdateEventView;

    open spec fn view(&self) -> UpdateEventView {
        UpdateEventView {
            title: patch_str_view(self.title),
            description: patch_str_view(self.description),
            start_time: self.start_time,
            end_time: self.end_time,
        }
    }
}

/// What a nullable column holds after the merge: an absent field leaves it,
/// an explicit field (null or valued) replaces it.
pub open spec fn merged_nullable<T>(old: Option<T>, patch: PatchField<T>) -> Option<T> {
    match patch {
        PatchField::Absent => old,
        PatchField::Explicit(v) => v,
    }
}

/// What a non-nullable column holds after the merge: only an explicitly
/// valued field replaces it; an explicit null is skipped, not an error.
pub open spec fn merged_required<T>(old: T, patch: PatchField<T>) -> T {
    match patch {
        PatchField::Absent => old,
        PatchField::Explicit(Some(v)) => v,
        PatchField::Explicit(None) => old,
    }
}

/// The record after a partial update: per-field tri-state merge, identifier
/// and creation timestamp untouched, update timestamp always refreshed.
pub open spec fn merged_model(m: ModelView, p: UpdateEventView, now: i64) -> ModelView {
    ModelView {
        id: m.id,
        title: merged_nullable(m.title, p.title),
        description: merged_nullable(m.description, p.description),
        start_time: merged_required(m.start_time, p.start_time),
        end_time: merged_nullable(m.end_time, p.end_time),
        created_on: m.created_on,
        updated_on: now,
    }
}

fn merge_str_field(old: &Option<String>, patch: &PatchField<String>) -> (r: Option<String>)
    ensures
        opt_str_view(r) == merged_nullable(opt_str_view(*old), patch_str_view(*patch)),
{
    match patch {
        PatchField::Absent => clone_opt_string(old),
        PatchField::Explicit(v) => clone_opt_string(v),
    }
}

impl UpdateEvent {
    /// Applies this payload to an existing record, refreshing the update
    /// timestamp to `now`. The merge is total: it never fails, and illegal
    /// combinations degrade to leaving the field unchanged.
    pub fn apply(&self, existing: &Model, now: i64) -> (m: Model)
        ensures
            m@ == merged_model(existing@, self@, now),
    {
        Model {
            id: existing.id,
            title: merge_str_field(&existing.title, &self.title),
            description: merge_str_field(&existing.description, &self.description),
            start_time: match self.start_time {
                PatchField::Explicit(Some(v)) => v,
                PatchField::Explicit(None) => existing.start_time,
                PatchField::Absent => existing.start_time,
            },
            end_time: match self.end_time {
                PatchField::Absent => existing.end_time,
                PatchField::Explicit(v) => v,
            },
            created_on: existing.created_on,
            updated_on: now,
        }
    }
}

/// The payload that mentions no field.
pub open spec fn absent_patch() -> UpdateEventView {
    UpdateEventView {
        title: PatchField::Absent,
        description: PatchField::Absent,
        start_time: PatchField::Absent,
        end_time: PatchField::Absent,
    }
}

/// Merging is idempotent: applying the same payload to the result of
/// applying it changes nothing beyond the refreshed update timestamp.
pub proof fn lemma_merge_idempotent(m: ModelView, p: UpdateEventView, t1: i64, t2: i64)
    ensures
        merged_model(merged_model(m, p, t1), p, t2) == merged_model(m, p, t2),
{
}

/// Merging the empty payload changes no field except the update timestamp.
pub proof fn lemma_merge_empty(m: ModelView, now: i64)
    ensures
        merged_model(m, absent_patch(), now) == (ModelView { updated_on: now, ..m }),
{
}

/// An explicit null aimed at the non-nullable start time leaves the stored
/// start time unchanged.
pub proof fn lemma_clear_required_is_skipped(m: ModelView, p: UpdateEventView, now: i64)
    requires
        p.start_time == PatchField::Explicit(Option::<i64>::None),
    ensures
        merged_model(m, p, now).start_time == m.start_time,
{
}

/// The textual projection of a record, for filtering: timestamps are
/// presented in decimal.
pub open spec fn model_fields(m: ModelView) -> Seq<(Seq<char>, Option<Seq<char>>)> {
    seq![
        ("title"@, m.title),
        ("description"@, m.description),
        ("start_time"@, Some(signed_dec_digits(m.start_time as int))),
        (
            "end_time"@,
            match m.end_time {
                Some(t) => Some(signed_dec_digits(t as int)),
                None => None,
            },
        ),
    ]
}

impl Model {
    /// The record's filterable columns as text.
    pub fn text_fields(&self) -> (fields: Vec<(String, Option<String>)>)
        ensures
            fields_view(fields@) == model_fields(self@),
    {
        let mut v: Vec<(String, Option<String>)> = Vec::new();
        v.push((String::from_str("title"), clone_opt_string(&self.title)));
        v.push((String::from_str("description"), clone_opt_string(&self.description)));
        v.push((String::from_str("start_time"), Some(i64_to_string(self.start_time))));
        let end = match self.end_time {
            Some(t) => Some(i64_to_string(t)),
            None => None,
        };
        v.push((String::from_str("end_time"), end));
        proof {
            assert(fields_view(v@) =~= model_fields(self@));
        }
        v
    }
}

} // verus!

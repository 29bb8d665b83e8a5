use memoire::events::{CreateEvent, Event, Model, PatchField, UpdateEvent};
use memoire::store::{EventStore, SortKey, StoreError};
use memoire::sort::SortDirection;
use memoire::filter::apply_filters;

fn payload(title: Option<&str>, start_time: i64) -> CreateEvent {
    CreateEvent {
        title: title.map(|s| s.to_string()),
        description: None,
        start_time,
        end_time: None,
    }
}

fn absent_patch() -> UpdateEvent {
    UpdateEvent {
        title: PatchField::Absent,
        description: PatchField::Absent,
        start_time: PatchField::Absent,
        end_time: PatchField::Absent,
    }
}

#[test]
fn end_to_end_create_list_update_delete() {
    let mut store = EventStore::new();
    let id: u128 = 42;
    let created = store.create_one(payload(Some("A"), 100), id, 1000).unwrap();
    assert_eq!(created.id, id);
    assert_eq!(created.title.as_deref(), Some("A"));

    // Listing with a free-text filter finds it case-insensitively.
    let (events, header) = store
        .list_all(Some("{\"q\":\"a\"}".to_string()), None, None, "events")
        .unwrap();
    assert_eq!(events.len(), 1);
    assert_eq!(events[0].id, id);
    assert_eq!(header, "events 0-0/1");

    // An explicit null clears the nullable title.
    let mut patch = absent_patch();
    patch.title = PatchField::Explicit(None);
    let updated = store.update_one_by_id(id, &patch, 2000).unwrap();
    assert_eq!(updated.title, None);
    let fetched = store.get_one_by_id(id).unwrap();
    assert_eq!(fetched.title, None);

    // Deleting removes it; a second look and a second delete find nothing.
    assert!(store.delete_one_by_id(id));
    assert!(store.get_one_by_id(id).is_none());
    assert!(!store.delete_one_by_id(id));
}

#[test]
fn create_rejects_duplicate_identifier() {
    let mut store = EventStore::new();
    store.create_one(payload(Some("A"), 1), 7, 10).unwrap();
    let err = store.create_one(payload(Some("B"), 2), 7, 20).unwrap_err();
    assert_eq!(err, StoreError::DuplicateId);
    // The first record is untouched.
    assert_eq!(store.get_one_by_id(7).unwrap().title.as_deref(), Some("A"));
}

#[test]
fn update_missing_record_is_none() {
    let mut store = EventStore::new();
    assert!(store.update_one_by_id(9, &absent_patch(), 0).is_none());
}

#[test]
fn update_refreshes_only_the_update_timestamp() {
    let mut store = EventStore::new();
    store.create_one(payload(Some("A"), 100), 1, 1000).unwrap();
    let updated = store.update_one_by_id(1, &absent_patch(), 2000).unwrap();
    assert_eq!(updated.title.as_deref(), Some("A"));
    assert_eq!(updated.start_time, 100);
}

#[test]
fn update_skips_null_on_non_nullable_start_time() {
    let existing = Model {
        id: 5,
        title: Some("t".to_string()),
        description: None,
        start_time: 123,
        end_time: Some(456),
        created_on: 10,
        updated_on: 20,
    };
    let mut patch = absent_patch();
    patch.start_time = PatchField::Explicit(None);
    patch.end_time = PatchField::Explicit(None);
    let merged = patch.apply(&existing, 30);
    assert_eq!(merged.start_time, 123);
    assert_eq!(merged.end_time, None);
    assert_eq!(merged.created_on, 10);
    assert_eq!(merged.updated_on, 30);
}

#[test]
fn merge_is_idempotent_on_persisted_values() {
    let existing = Model {
        id: 5,
        title: Some("old".to_string()),
        description: Some("d".to_string()),
        start_time: 1,
        end_time: None,
        created_on: 10,
        updated_on: 20,
    };
    let mut patch = absent_patch();
    patch.title = PatchField::Explicit(Some("new".to_string()));
    let once = patch.apply(&existing, 30);
    let twice = patch.apply(&once, 40);
    assert_eq!(once.title.as_deref(), Some("new"));
    assert_eq!(twice.title, once.title);
    assert_eq!(twice.description, once.description);
    assert_eq!(twice.start_time, once.start_time);
    assert_eq!(twice.end_time, once.end_time);
    assert_eq!(twice.created_on, once.created_on);
}

#[test]
fn empty_patch_changes_no_field_but_updated_on() {
    let existing = Model {
        id: 5,
        title: Some("t".to_string()),
        description: None,
        start_time: 1,
        end_time: Some(2),
        created_on: 10,
        updated_on: 20,
    };
    let merged = absent_patch().apply(&existing, 99);
    assert_eq!(merged.id, 5);
    assert_eq!(merged.title.as_deref(), Some("t"));
    assert_eq!(merged.description, None);
    assert_eq!(merged.start_time, 1);
    assert_eq!(merged.end_time, Some(2));
    assert_eq!(merged.created_on, 10);
    assert_eq!(merged.updated_on, 99);
}

#[test]
fn list_sorts_by_requested_column_and_direction() {
    let mut store = EventStore::new();
    store.create_one(payload(Some("banana"), 3), 1, 0).unwrap();
    store.create_one(payload(Some("apple"), 1), 2, 0).unwrap();
    store.create_one(payload(Some("cherry"), 2), 3, 0).unwrap();

    let (events, header) = store
        .list_all(None, Some("[\"title\",\"DESC\"]".to_string()), None, "events")
        .unwrap();
    let titles: Vec<_> = events.iter().map(|e| e.title.clone().unwrap()).collect();
    assert_eq!(titles, vec!["cherry", "banana", "apple"]);
    assert_eq!(header, "events 0-2/3");

    let (events, _) = store
        .list_all(None, Some("[\"start_time\",\"ASC\"]".to_string()), None, "events")
        .unwrap();
    let ids: Vec<_> = events.iter().map(|e| e.id).collect();
    assert_eq!(ids, vec![2, 3, 1]);
}

#[test]
fn list_pages_with_range_and_reports_total() {
    let mut store = EventStore::new();
    for i in 0..5u128 {
        store
            .create_one(payload(Some(&format!("t{}", i)), i as i64), i, 0)
            .unwrap();
    }
    let (events, header) = store
        .list_all(
            None,
            Some("[\"start_time\",\"ASC\"]".to_string()),
            Some("[1,2]".to_string()),
            "events",
        )
        .unwrap();
    assert_eq!(events.len(), 2);
    assert_eq!(events[0].id, 1);
    assert_eq!(events[1].id, 2);
    assert_eq!(header, "events 1-2/5");
}

#[test]
fn list_rejects_unknown_filter_column() {
    let store = EventStore::new();
    assert!(store
        .list_all(Some("{\"bogus\":\"v\"}".to_string()), None, None, "events")
        .is_err());
}

#[test]
fn list_filters_timestamps_rendered_in_decimal() {
    let mut store = EventStore::new();
    store.create_one(payload(Some("a"), 12345), 1, 0).unwrap();
    store.create_one(payload(Some("b"), 777), 2, 0).unwrap();
    let (events, _) = store
        .list_all(Some("{\"start_time\":\"2345\"}".to_string()), None, None, "events")
        .unwrap();
    assert_eq!(events.len(), 1);
    assert_eq!(events[0].id, 1);
}

#[test]
fn null_titles_sort_last_ascending() {
    let mut store = EventStore::new();
    store.create_one(payload(None, 1), 1, 0).unwrap();
    store.create_one(payload(Some("apple"), 2), 2, 0).unwrap();
    let (events, _) = store
        .list_all(None, Some("[\"title\",\"ASC\"]".to_string()), None, "events")
        .unwrap();
    let ids: Vec<_> = events.iter().map(|e| e.id).collect();
    assert_eq!(ids, vec![2, 1]);
}

#[test]
fn negative_timestamps_render_with_sign() {
    let mut store = EventStore::new();
    store.create_one(payload(Some("a"), -52), 1, 0).unwrap();
    store.create_one(payload(Some("b"), 52), 2, 0).unwrap();
    let (events, _) = store
        .list_all(Some("{\"start_time\":\"-52\"}".to_string()), None, None, "events")
        .unwrap();
    assert_eq!(events.len(), 1);
    assert_eq!(events[0].id, 1);
}

#[test]
fn get_all_direct_window() {
    let mut store = EventStore::new();
    for i in 0..4u128 {
        store.create_one(payload(Some("x"), i as i64), i, 0).unwrap();
    }
    let cond = apply_filters(None, &Event::filterable_columns()).unwrap();
    let page = store.get_all(&cond, SortKey::StartTime, SortDirection::Descending, 0, 2);
    let ids: Vec<_> = page.iter().map(|e| e.id).collect();
    assert_eq!(ids, vec![3, 2]);
    assert_eq!(store.count_matching(&cond), 4);
}

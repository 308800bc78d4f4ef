use shared::{AppState, Item, ItemCollection, Priority, ThemeMode};

fn completion_ratio(collection: &ItemCollection) -> f32 {
    if collection.total_count() == 0 {
        0.0
    } else {
        collection.completed_count() as f32 / collection.total_count() as f32
    }
}

#[test]
fn test_item_collection_defaults_and_operations() {
    let mut collection = ItemCollection::default();
    assert_eq!(collection.total_count(), 3);
    assert_eq!(collection.completed_count(), 0);
    assert_eq!(completion_ratio(&collection), 0.0);

    let id = collection.add("New Task", "Task Description", Priority::High);
    assert_eq!(collection.total_count(), 4);

    collection.toggle(id);
    assert_eq!(collection.completed_count(), 1);
    assert_eq!(completion_ratio(&collection), 0.25);

    let removed = collection.remove(id);
    assert!(removed);
    assert_eq!(collection.total_count(), 3);
    assert_eq!(collection.completed_count(), 0);
}

#[test]
fn test_clear_completed() {
    let mut collection = ItemCollection::default();
    collection.toggle(1);
    assert_eq!(collection.completed_count(), 1);

    collection.clear_completed();
    assert_eq!(collection.total_count(), 2);
    assert_eq!(collection.completed_count(), 0);
}

#[test]
fn samples_are_loaded_in_order() {
    let collection = ItemCollection::default();
    assert_eq!(collection.next_id, 4);
    assert_eq!(collection.items[0].id, 1);
    assert_eq!(collection.items[0].title, "Explore Cross-Platform State Persistence");
    assert_eq!(collection.items[0].priority, Priority::High);
    assert_eq!(collection.items[1].title, "Test Theme Toggle");
    assert_eq!(collection.items[1].priority, Priority::Medium);
    assert_eq!(collection.items[2].id, 3);
    assert_eq!(collection.items[2].priority, Priority::Low);
    assert!(collection.items.iter().all(|i| !i.completed));
}

#[test]
fn add_returns_next_id_and_appends() {
    let mut collection = ItemCollection::default();
    let a = collection.add("A", "first", Priority::Low);
    let b = collection.add("B", "", Priority::Medium);
    assert_eq!(a, 4);
    assert_eq!(b, 5);
    assert_eq!(collection.next_id, 6);
    assert_eq!(collection.items[4], Item::new(5, "B", "", Priority::Medium));
}

#[test]
fn remove_missing_id_changes_nothing() {
    let mut collection = ItemCollection::default();
    let before = collection.clone();
    assert!(!collection.remove(42));
    assert_eq!(collection, before);
}

#[test]
fn remove_takes_only_the_first_of_duplicate_ids() {
    let mut collection = ItemCollection::default();
    collection.items.push(Item::new(2, "Duplicate", "", Priority::High));
    assert!(collection.remove(2));
    assert_eq!(collection.total_count(), 3);
    assert_eq!(collection.items[2].title, "Duplicate");
}

#[test]
fn toggle_twice_restores() {
    let mut collection = ItemCollection::default();
    let before = collection.clone();
    collection.toggle(2);
    assert!(collection.items[1].completed);
    collection.toggle(2);
    assert_eq!(collection, before);
}

#[test]
fn toggle_missing_id_changes_nothing() {
    let mut collection = ItemCollection::default();
    let before = collection.clone();
    collection.toggle(99);
    assert_eq!(collection, before);
}

#[test]
fn add_then_remove_restores_items() {
    let mut collection = ItemCollection::default();
    let before = collection.items.clone();
    let id = collection.add("Temp", "Temporary", Priority::Low);
    assert!(collection.remove(id));
    assert_eq!(collection.items, before);
    assert_eq!(collection.next_id, 5);
}

#[test]
fn clear_completed_keeps_order_of_pending_items() {
    let mut collection = ItemCollection::default();
    collection.toggle(1);
    collection.toggle(3);
    collection.clear_completed();
    assert_eq!(collection.total_count(), 1);
    assert_eq!(collection.items[0].id, 2);
    assert_eq!(collection.next_id, 4);
}

#[test]
fn reset_empties_and_restarts_numbering() {
    let mut collection = ItemCollection::default();
    collection.reset();
    assert_eq!(collection.total_count(), 0);
    assert_eq!(collection.next_id, 1);
    assert_eq!(collection.add("First", "", Priority::Low), 1);
}

#[test]
fn load_samples_replaces_contents() {
    let mut collection = ItemCollection::default();
    collection.reset();
    collection.add("Other", "", Priority::High);
    collection.load_samples();
    assert_eq!(collection, ItemCollection::default());
}

#[test]
fn reset_data_keeps_the_theme() {
    let mut state = AppState::default();
    state.config.theme = ThemeMode::Light;
    state.reset_data();
    assert_eq!(state.config.theme, ThemeMode::Light);
    assert_eq!(state.collection.total_count(), 0);
    assert_eq!(state.collection.next_id, 1);
}

#[test]
fn defaults() {
    assert_eq!(Priority::default(), Priority::Medium);
    assert_eq!(ThemeMode::default(), ThemeMode::Dark);
    assert_eq!(shared::AppConfig::default().theme, ThemeMode::Dark);
    assert_eq!(AppState::default().collection.total_count(), 3);
}

#[test]
fn priority_labels() {
    assert_eq!(Priority::Low.label(), "Low");
    assert_eq!(Priority::Medium.label(), "Medium");
    assert_eq!(Priority::High.label(), "High");
}

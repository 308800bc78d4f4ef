use shared::storage_manager::{
    persistence_request_offered, persistence_status_label, save_step, storage_button_text,
    SaveAction, SaveEvent, SaveState, StorageBackend, StorageDiagnostics,
};
use shared::template_app::{ExportFormat, ImportPlan, ImportSource, TemplateApp};
use shared::{AppState, ItemCollection, Priority, ThemeMode};

#[test]
fn test_template_app_initialization() {
    let app = TemplateApp::default();
    assert_eq!(app.state.collection.total_count(), 3);
    assert_eq!(app.state.collection.completed_count(), 0);
}

#[test]
fn with_state_keeps_a_loaded_state() {
    let mut state = AppState::default();
    state.collection.reset();
    state.config.theme = ThemeMode::Light;
    let app = TemplateApp::with_state(Some(state), StorageDiagnostics::default());
    assert_eq!(app.state.collection.total_count(), 0);
    assert_eq!(app.state.config.theme, ThemeMode::Light);
    let fresh = TemplateApp::with_state(None, StorageDiagnostics::default());
    assert_eq!(fresh.state.collection.total_count(), 3);
    assert_eq!(fresh.new_item_priority, Priority::Medium);
    assert_eq!(fresh.selected_export_format, ExportFormat::Json);
}

#[test]
fn escape_closes_the_topmost_dialog() {
    let mut app = TemplateApp::default();
    app.show_help_dialog = true;
    app.show_reset_dialog = true;
    app.show_import_dialog = true;
    app.import_text_buffer = "pasted".to_string();
    app.handle_escape();
    assert!(!app.show_help_dialog);
    assert!(app.show_reset_dialog);
    app.handle_escape();
    assert!(!app.show_reset_dialog);
    assert!(app.show_import_dialog);
    app.handle_escape();
    assert!(!app.show_import_dialog);
    assert_eq!(app.import_text_buffer, "");
    app.show_export_dialog = Some(ExportFormat::Csv);
    app.export_text_buffer = "x".to_string();
    app.show_import_dialog = true;
    app.handle_escape();
    assert!(app.show_export_dialog.is_none());
    assert_eq!(app.export_text_buffer, "");
    assert!(app.show_import_dialog);
}

#[test]
fn theme_is_applied_once_per_change() {
    let mut app = TemplateApp::default();
    assert_eq!(app.theme_to_apply(), Some(ThemeMode::Dark));
    assert_eq!(app.theme_to_apply(), None);
    app.state.config.theme = ThemeMode::Light;
    assert_eq!(app.theme_to_apply(), Some(ThemeMode::Light));
    assert_eq!(app.current_theme, Some(ThemeMode::Light));
}

#[test]
fn submit_adds_trimmed_item_and_clears_form() {
    let mut app = TemplateApp::default();
    app.new_item_title = "  Write tests \t".to_string();
    app.new_item_description = " with care ".to_string();
    app.new_item_priority = Priority::High;
    assert!(app.submit_new_item());
    let item = &app.state.collection.items[3];
    assert_eq!(item.id, 4);
    assert_eq!(item.title, "Write tests");
    assert_eq!(item.description, "with care");
    assert_eq!(item.priority, Priority::High);
    assert_eq!(app.new_item_title, "");
    assert_eq!(app.new_item_description, "");
}

#[test]
fn submit_with_blank_title_does_nothing() {
    let mut app = TemplateApp::default();
    app.new_item_title = " \u{3000} ".to_string();
    app.new_item_description = "kept".to_string();
    assert!(!app.submit_new_item());
    assert_eq!(app.state.collection.total_count(), 3);
    assert_eq!(app.new_item_description, "kept");
}

#[test]
fn bson_export_text_is_base64_and_reimports_as_bson() {
    let mut app = TemplateApp::default();
    let bytes = vec![0u8, 1, 2, 250, 255];
    app.show_bson_export(Some(bytes.clone()));
    assert_eq!(app.show_export_dialog, Some(ExportFormat::Bson));
    assert_eq!(app.export_text_buffer, "AAEC+v8=");
    app.import_text_buffer = format!("  {}\n", app.export_text_buffer);
    match app.plan_import() {
        ImportPlan::Bson(b) => assert_eq!(b, bytes),
        _ => panic!("expected BSON"),
    }
}

#[test]
fn failed_bson_export_keeps_previous_text() {
    let mut app = TemplateApp::default();
    app.export_text_buffer = "old".to_string();
    app.show_bson_export(None);
    assert_eq!(app.export_text_buffer, "old");
    assert_eq!(app.show_export_dialog, Some(ExportFormat::Bson));
}

#[test]
fn text_export_and_closing() {
    let mut app = TemplateApp::default();
    app.show_export_text(ExportFormat::Csv, "id,title\n".to_string());
    assert_eq!(app.show_export_dialog, Some(ExportFormat::Csv));
    assert_eq!(app.export_text_buffer, "id,title\n");
    app.close_export_dialog();
    assert!(app.show_export_dialog.is_none());
    assert_eq!(app.export_text_buffer, "");
}

#[test]
fn import_plans() {
    let mut app = TemplateApp::default();
    app.import_text_buffer = "   \n".to_string();
    assert!(matches!(app.plan_import(), ImportPlan::Empty));
    app.import_text_buffer = " {\"items\": []} ".to_string();
    match app.plan_import() {
        ImportPlan::Json(t) => assert_eq!(t, "{\"items\": []}"),
        _ => panic!("expected JSON"),
    }
    app.import_text_buffer = "id,title,description,priority,completed\n1,a,b,Low,false".to_string();
    match app.plan_import() {
        ImportPlan::Csv(t) => assert!(t.starts_with("id,title")),
        _ => panic!("expected CSV"),
    }
}

#[test]
fn import_outcomes_and_messages() {
    let mut app = TemplateApp::default();
    app.report_empty_import();
    assert_eq!(app.import_result_message, Some(Err("Input is empty.".to_string())));
    let mut col = ItemCollection::default();
    col.reset();
    col.add("Only", "", Priority::Low);
    assert!(app.finish_import(ImportSource::Csv, Ok(col)));
    assert_eq!(app.state.collection.total_count(), 1);
    assert_eq!(
        app.import_result_message,
        Some(Ok("Successfully imported 1 items from CSV!".to_string()))
    );
    assert!(!app.finish_import(ImportSource::Bson, Err("corrupt".to_string())));
    assert_eq!(app.import_result_message, Some(Err("BSON import failed: corrupt".to_string())));
    assert_eq!(app.state.collection.total_count(), 1);
    assert!(!app.finish_import(ImportSource::Json, Err("bad json".to_string())));
    assert_eq!(app.import_result_message, Some(Err("bad json".to_string())));
    assert!(app.finish_import(ImportSource::Json, Ok(ItemCollection::default())));
    assert_eq!(
        app.import_result_message,
        Some(Ok("Successfully imported 3 items from JSON!".to_string()))
    );
}

#[test]
fn import_dialog_opening_and_closing() {
    let mut app = TemplateApp::default();
    app.import_text_buffer = "x".to_string();
    app.import_result_message = Some(Ok("done".to_string()));
    app.open_import_dialog();
    assert!(app.show_import_dialog);
    assert_eq!(app.import_text_buffer, "");
    assert!(app.import_result_message.is_none());
    app.close_import_dialog();
    assert!(!app.show_import_dialog);
    app.show_storage_modal = true;
    app.open_backup_import();
    assert!(!app.show_storage_modal);
    assert!(app.show_import_dialog);
}

#[test]
fn reset_dialog_restores_samples_and_keeps_theme() {
    let mut app = TemplateApp::default();
    app.state.collection.reset();
    app.state.config.theme = ThemeMode::Light;
    app.show_reset_dialog = true;
    app.confirm_reset();
    assert_eq!(app.state.collection, ItemCollection::default());
    assert_eq!(app.state.config.theme, ThemeMode::Light);
    assert!(!app.show_reset_dialog);
}

#[test]
fn item_actions_toggle_then_remove() {
    let mut app = TemplateApp::default();
    assert!(!app.apply_item_actions(&vec![], &vec![]));
    assert!(app.apply_item_actions(&vec![1, 2, 1], &vec![3]));
    assert_eq!(app.state.collection.total_count(), 2);
    assert!(!app.state.collection.items[0].completed);
    assert!(app.state.collection.items[1].completed);
}

#[test]
fn search_and_filter() {
    let mut app = TemplateApp::default();
    assert_eq!(app.matching_item_indices(), vec![0, 1, 2]);
    app.search_query = "  THEME ".to_string();
    assert_eq!(app.matching_item_indices(), vec![1]);
    app.search_query = "offline".to_string();
    assert_eq!(app.matching_item_indices(), vec![2]);
    app.search_query = "e".to_string();
    app.filter_priority = Some(Priority::High);
    assert_eq!(app.matching_item_indices(), vec![0]);
    app.search_query = "nothing like this".to_string();
    app.filter_priority = None;
    assert!(app.matching_item_indices().is_empty());
}

#[test]
fn warning_banners() {
    let mut app = TemplateApp::default();
    let w = app.warning_banners();
    assert!(!w.combined && !w.ephemeral && !w.quota);
    app.storage_diag.is_persisted = Some(false);
    app.storage_diag.quota_exceeded = true;
    let w = app.warning_banners();
    assert!(w.combined && !w.ephemeral && !w.quota);
    app.dismissed_combined_warning = true;
    let w = app.warning_banners();
    assert!(!w.combined && w.ephemeral && w.quota);
    app.dismissed_quota_warning = true;
    let w = app.warning_banners();
    assert!(!w.combined && w.ephemeral && !w.quota);
}

#[test]
fn save_outcomes_update_diagnostics() {
    let mut d = StorageDiagnostics::default();
    d.record_save_outcome(&Ok(StorageBackend::IndexedDb));
    assert_eq!(d.backend, StorageBackend::IndexedDb);
    assert!(d.quota_exceeded && d.idb_active);
    d.record_save_outcome(&Ok(StorageBackend::MemoryOnly));
    assert_eq!(d.backend, StorageBackend::MemoryOnly);
    assert!(!d.quota_exceeded && d.idb_active);
    d.record_save_outcome(&Err("All browser storage tiers failed.".to_string()));
    assert!(d.quota_exceeded);
    assert_eq!(d.backend, StorageBackend::MemoryOnly);
}

#[test]
fn refresh_takes_environment_flags_only() {
    let mut d = StorageDiagnostics::default();
    d.quota_exceeded = true;
    let mut q = StorageDiagnostics::default();
    q.is_persisted = Some(true);
    q.pwa_install_available = true;
    q.backend = StorageBackend::IndexedDb;
    d.refresh_from(&q);
    assert_eq!(d.is_persisted, Some(true));
    assert!(d.pwa_install_available);
    assert!(d.install_offered());
    assert_eq!(d.backend, StorageBackend::LocalStorage);
    assert!(d.quota_exceeded);
}

#[test]
fn labels() {
    assert_eq!(ExportFormat::Json.label(), "JSON File");
    assert_eq!(ExportFormat::Csv.label(), "CSV File");
    assert_eq!(ExportFormat::Bson.label(), "Compressed BSON (.bson)");
    assert_eq!(ExportFormat::default(), ExportFormat::Json);
    assert_eq!(StorageBackend::default(), StorageBackend::LocalStorage);
    assert_eq!(StorageBackend::IndexedDb.label(), "IndexedDB (Extended Quota Tier)");
    assert_eq!(StorageBackend::MemoryOnly.label(), "In-Memory Only (Ephemeral)");
    assert_eq!(storage_button_text(Some(true), true), "Storage (P)");
    assert_eq!(storage_button_text(Some(false), false), "Storage: Ephemeral");
    assert_eq!(storage_button_text(None, true), "Storage");
    assert_eq!(persistence_status_label(None), "Unknown / Querying...");
    assert_eq!(persistence_status_label(Some(true)), "Persistent (Immune to browser eviction)");
}

#[test]
fn storage_dialog_decisions() {
    assert!(persistence_request_offered(None));
    assert!(persistence_request_offered(Some(false)));
    assert!(!persistence_request_offered(Some(true)));
    let mut app = TemplateApp::default();
    app.show_storage_modal = true;
    app.close_storage_modal();
    assert!(!app.show_storage_modal);
}

#[test]
fn save_walks_the_storage_tiers() {
    let (s, a) = save_step(SaveState::Idle, SaveEvent::Begin { has_window: false });
    assert_eq!(s, SaveState::Done);
    assert!(matches!(a, SaveAction::Finish(Ok(StorageBackend::MemoryOnly))));

    let (s, a) = save_step(SaveState::Idle, SaveEvent::Begin { has_window: true });
    assert_eq!(s, SaveState::AwaitingLocalStorage);
    assert!(matches!(a, SaveAction::TryLocalStorage));
    let (s2, a) = save_step(s, SaveEvent::LocalStorage { stored: true });
    assert_eq!(s2, SaveState::Done);
    assert!(matches!(a, SaveAction::Finish(Ok(StorageBackend::LocalStorage))));

    let (s, a) = save_step(s, SaveEvent::LocalStorage { stored: false });
    assert_eq!(s, SaveState::AwaitingIndexedDb);
    assert!(matches!(a, SaveAction::TryIndexedDb));
    let (_, a) = save_step(s, SaveEvent::IndexedDb { available: true });
    assert!(matches!(a, SaveAction::Finish(Ok(StorageBackend::IndexedDb))));
    let (done, a) = save_step(s, SaveEvent::IndexedDb { available: false });
    match a {
        SaveAction::Finish(Err(e)) => assert_eq!(e, "All browser storage tiers failed."),
        other => panic!("unexpected: {:?}", other),
    }
    let (_, a) = save_step(done, SaveEvent::LocalStorage { stored: true });
    assert!(matches!(a, SaveAction::Ignore));
}

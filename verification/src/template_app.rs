//! The application's view state and the decisions its screens make: which dialog an Escape
//! closes, when a theme must be applied, what the add form submits, what an export shows,
//! how pasted text is imported, which items a search shows, and which warnings appear.

use vstd::prelude::*;

use crate::base64_codec::{base64_decode, decode_standard, encode_standard};
use crate::models::{
    added, removed, sample_collection, toggled, CollectionView, ItemCollection, ItemView,
    Priority,
};
use crate::storage_manager::{unknown_diagnostics, StorageDiagnostics};
use crate::text::{
    chars_contains, contains_block, decimal, lowercase, push_decimal, str_chars, string_from_chars,
    string_push_str, to_lowercase, trim, trim_chars,
};
use crate::{AppState, ThemeMode};

verus! {

/// Layout classes of the available screen area.
pub struct ScreenConstraints {
    pub is_mobile: bool,
    pub is_mobile_portrait: bool,
    pub is_tight_height: bool,
    pub is_ultra_tight: bool,
}

/// The formats the collection can be exported in.
#[derive(Clone, Copy, PartialEq, Eq, Debug, Structural)]
pub enum ExportFormat {
    Json,
    Csv,
    Bson,
}

impl Default for ExportFormat {
    fn default() -> (f: Self)
        ensures
            f == ExportFormat::Json,
    {
        ExportFormat::Json
    }
}

/// The display name of an export format.
pub open spec fn export_format_label(f: ExportFormat) -> Seq<char> {
    match f {
        ExportFormat::Json => "JSON File"@,
        ExportFormat::Csv => "CSV File"@,
        ExportFormat::Bson => "Compressed BSON (.bson)"@,
    }
}

impl ExportFormat {
    /// The display name of the format.
    pub fn label(self) -> (r: &'static str)
        ensures
            r@ == export_format_label(self),
            self == ExportFormat::Json ==> r@ == "JSON File"@,
            self == ExportFormat::Csv ==> r@ == "CSV File"@,
            self == ExportFormat::Bson ==> r@ == "Compressed BSON (.bson)"@,
    {
        match self {
            ExportFormat::Json => "JSON File",
            ExportFormat::Csv => "CSV File",
            ExportFormat::Bson => "Compressed BSON (.bson)",
        }
    }
}

/// The application state together with what its screens show.
pub struct TemplateApp {
    pub state: AppState,
    pub current_theme: Option<ThemeMode>,
    pub show_reset_dialog: bool,
    pub show_help_dialog: bool,
    pub show_import_dialog: bool,
    pub import_text_buffer: String,
    pub import_result_message: Option<Result<String, String>>,
    pub show_export_dialog: Option<ExportFormat>,
    pub export_text_buffer: String,
    pub selected_export_format: ExportFormat,
    pub new_item_title: String,
    pub new_item_description: String,
    pub new_item_priority: Priority,
    pub filter_priority: Option<Priority>,
    pub search_query: String,
    pub storage_diag: StorageDiagnostics,
    pub show_storage_modal: bool,
    pub dismissed_ephemeral_warning: bool,
    pub dismissed_quota_warning: bool,
    pub dismissed_combined_warning: bool,
}

/// An application showing `state`, with every dialog closed, empty inputs, no filter, and
/// the given storage diagnostics.
pub open spec fn fresh_app(app: TemplateApp, diag: StorageDiagnostics) -> bool {
    &&& app.current_theme is None
    &&& !app.show_reset_dialog
    &&& !app.show_help_dialog
    &&& !app.show_import_dialog
    &&& app.import_text_buffer@ == Seq::<char>::empty()
    &&& app.import_result_message is None
    &&& app.show_export_dialog is None
    &&& app.export_text_buffer@ == Seq::<char>::empty()
    &&& app.selected_export_format == ExportFormat::Json
    &&& app.new_item_title@ == Seq::<char>::empty()
    &&& app.new_item_description@ == Seq::<char>::empty()
    &&& app.new_item_priority == Priority::Medium
    &&& app.filter_priority is None
    &&& app.search_query@ == Seq::<char>::empty()
    &&& app.storage_diag == diag
    &&& !app.show_storage_modal
    &&& !app.dismissed_ephemeral_warning
    &&& !app.dismissed_quota_warning
    &&& !app.dismissed_combined_warning
}

impl Default for TemplateApp {
    /// The default state with nothing known about storage (what the environment query reports
    /// outside a browser).
    fn default() -> (app: Self)
        ensures
            fresh_app(app, unknown_diagnostics()),
            app.state.config.theme == ThemeMode::Dark,
            app.state.collection@ == sample_collection(),
    {
        TemplateApp::with_state(None, StorageDiagnostics::default())
    }
}

impl TemplateApp {
    /// An application showing `state` (the saved state, or the default state when nothing
    /// was saved), with the given storage diagnostics.
    pub fn with_state(state: Option<AppState>, storage_diag: StorageDiagnostics) -> (app: Self)
        ensures
            fresh_app(app, storage_diag),
            match state {
                Some(s) => app.state == s,
                None => app.state.config.theme == ThemeMode::Dark && app.state.collection@
                    == sample_collection(),
            },
    {
        let state = match state {
            Some(s) => s,
            None => AppState::default(),
        };
        TemplateApp {
            state,
            current_theme: None,
            show_reset_dialog: false,
            show_help_dialog: false,
            show_import_dialog: false,
            import_text_buffer: String::new(),
            import_result_message: None,
            show_export_dialog: None,
            export_text_buffer: String::new(),
            selected_export_format: ExportFormat::Json,
            new_item_title: String::new(),
            new_item_description: String::new(),
            new_item_priority: Priority::Medium,
            filter_priority: None,
            search_query: String::new(),
            storage_diag,
            show_storage_modal: false,
            dismissed_ephemeral_warning: false,
            dismissed_quota_warning: false,
            dismissed_combined_warning: false,
        }
    }

    /// Closes the topmost open dialog on Escape: help, then reset, then storage, then export
    /// (dropping its text), then import (dropping its text and message).
    pub fn handle_escape(&mut self)
        ensures
            old(self).show_help_dialog ==> *final(self) == (TemplateApp {
                show_help_dialog: false,
                ..*old(self)
            }),
            !old(self).show_help_dialog && old(self).show_reset_dialog ==> *final(self) == (
            TemplateApp { show_reset_dialog: false, ..*old(self) }),
            !old(self).show_help_dialog && !old(self).show_reset_dialog
                && old(self).show_storage_modal ==> *final(self) == (TemplateApp {
                show_storage_modal: false,
                ..*old(self)
            }),
            !old(self).show_help_dialog && !old(self).show_reset_dialog
                && !old(self).show_storage_modal && old(self).show_export_dialog is Some ==> {
                &&& final(self).show_export_dialog is None
                &&& final(self).export_text_buffer@ == Seq::<char>::empty()
                &&& *final(self) == (TemplateApp {
                    show_export_dialog: None,
                    export_text_buffer: final(self).export_text_buffer,
                    ..*old(self)
                })
            },
            !old(self).show_help_dialog && !old(self).show_reset_dialog
                && !old(self).show_storage_modal && old(self).show_export_dialog is None
                && old(self).show_import_dialog ==> {
                &&& !final(self).show_import_dialog
                &&& final(self).import_text_buffer@ == Seq::<char>::empty()
                &&& final(self).import_result_message is None
                &&& *final(self) == (TemplateApp {
                    show_import_dialog: false,
                    import_text_buffer: final(self).import_text_buffer,
                    import_result_message: None,
                    ..*old(self)
                })
            },
            !old(self).show_help_dialog && !old(self).show_reset_dialog
                && !old(self).show_storage_modal && old(self).show_export_dialog is None
                && !old(self).show_import_dialog ==> *final(self) == *old(self),
    {
        if self.show_help_dialog {
            self.show_help_dialog = false;
        } else if self.show_reset_dialog {
            self.show_reset_dialog = false;
        } else if self.show_storage_modal {
            self.show_storage_modal = false;
        } else if self.show_export_dialog.is_some() {
            self.show_export_dialog = None;
            self.export_text_buffer = String::new();
        } else if self.show_import_dialog {
            self.show_import_dialog = false;
            self.import_text_buffer = String::new();
            self.import_result_message = None;
        }
    }

    /// The theme to apply now, if the configured theme differs from the one last applied;
    /// it is then recorded as applied.
    pub fn theme_to_apply(&mut self) -> (t: Option<ThemeMode>)
        ensures
            old(self).current_theme == Some(old(self).state.config.theme) ==> t is None
                && *final(self) == *old(self),
            old(self).current_theme != Some(old(self).state.config.theme) ==> t == Some(
                old(self).state.config.theme,
            ) && *final(self) == (TemplateApp {
                current_theme: Some(old(self).state.config.theme),
                ..*old(self)
            }),
    {
        let theme = self.state.config.theme;
        match self.current_theme {
            Some(current) => {
                if current == theme {
                    return None;
                }
            },
            None => {},
        }
        self.current_theme = Some(theme);
        Some(theme)
    }
}

/// The application after a submission of the add form: the trimmed title and description
/// added with the chosen priority, and both inputs emptied.
pub open spec fn after_submit(old_app: TemplateApp, new_app: TemplateApp) -> bool {
    &&& new_app.state.collection@ == added(
        old_app.state.collection@,
        trim(old_app.new_item_title@),
        trim(old_app.new_item_description@),
        old_app.new_item_priority,
    )
    &&& new_app.state.config == old_app.state.config
    &&& new_app.new_item_title@ == Seq::<char>::empty()
    &&& new_app.new_item_description@ == Seq::<char>::empty()
    &&& new_app == (TemplateApp {
        state: new_app.state,
        new_item_title: new_app.new_item_title,
        new_item_description: new_app.new_item_description,
        ..old_app
    })
}

/// How pasted import text is to be read.
pub enum ImportPlan {
    /// Nothing but whitespace was pasted.
    Empty,
    /// The trimmed text starts with `{`: JSON.
    Json(String),
    /// The trimmed text is valid standard Base64: these bytes, as compressed BSON.
    Bson(Vec<u8>),
    /// Anything else: the trimmed text as CSV.
    Csv(String),
}

/// The mathematical value of an [`ImportPlan`].
pub enum ImportPlanView {
    Empty,
    Json(Seq<char>),
    Bson(Seq<u8>),
    Csv(Seq<char>),
}

/// The value of a plan.
pub open spec fn plan_view(p: ImportPlan) -> ImportPlanView {
    match p {
        ImportPlan::Empty => ImportPlanView::Empty,
        ImportPlan::Json(t) => ImportPlanView::Json(t@),
        ImportPlan::Bson(b) => ImportPlanView::Bson(b@),
        ImportPlan::Csv(t) => ImportPlanView::Csv(t@),
    }
}

/// How the import dialog reads pasted text: trimmed; empty, or JSON when it starts with `{`,
/// else compressed BSON when it decodes as Base64, else CSV.
pub open spec fn import_plan_spec(buffer: Seq<char>) -> ImportPlanView {
    let t = trim(buffer);
    if t.len() == 0 {
        ImportPlanView::Empty
    } else if t[0] == '{' {
        ImportPlanView::Json(t)
    } else {
        match base64_decode(t) {
            Some(b) => ImportPlanView::Bson(b),
            None => ImportPlanView::Csv(t),
        }
    }
}

/// The format an import was read in.
#[derive(Clone, Copy, PartialEq, Eq, Debug, Structural)]
pub enum ImportSource {
    Json,
    Bson,
    Csv,
}

/// The confirmation after a successful import of `count` items.
pub open spec fn import_success_message(source: ImportSource, count: nat) -> Seq<char> {
    "Successfully imported "@ + decimal(count) + match source {
        ImportSource::Json => " items from JSON!"@,
        ImportSource::Bson => " items from compressed BSON!"@,
        ImportSource::Csv => " items from CSV!"@,
    }
}

/// The message after a failed import whose error reads `error`.
pub open spec fn import_failure_message(source: ImportSource, error: Seq<char>) -> Seq<char> {
    match source {
        ImportSource::Bson => "BSON import failed: "@ + error,
        _ => error,
    }
}

/// `s` after toggling each id of `ids` in turn.
pub open spec fn toggled_all(s: Seq<ItemView>, ids: Seq<u64>) -> Seq<ItemView>
    decreases ids.len(),
{
    if ids.len() == 0 {
        s
    } else {
        toggled(toggled_all(s, ids.drop_last()), ids.last())
    }
}

/// `s` after removing each id of `ids` in turn.
pub open spec fn removed_all(s: Seq<ItemView>, ids: Seq<u64>) -> Seq<ItemView>
    decreases ids.len(),
{
    if ids.len() == 0 {
        s
    } else {
        removed(removed_all(s, ids.drop_last()), ids.last())
    }
}

/// Whether an item is listed under a lower-cased search text and a priority filter: it has
/// the filtered priority (if any), and the text occurs in its lower-cased title or
/// description (if the text is not empty).
pub open spec fn item_matches(v: ItemView, query: Seq<char>, filter: Option<Priority>) -> bool {
    &&& (filter matches Some(p) ==> v.priority == p)
    &&& (query.len() > 0 ==> contains_block(lowercase(v.title), query) || contains_block(
        lowercase(v.description),
        query,
    ))
}

/// The positions among the first `k` items of `s` of those that are listed.
pub open spec fn matching_upto(s: Seq<ItemView>, query: Seq<char>, filter: Option<Priority>, k: int) -> Seq<int>
    decreases k,
{
    if k <= 0 {
        seq![]
    } else if item_matches(s[k - 1], query, filter) {
        matching_upto(s, query, filter, k - 1).push(k - 1)
    } else {
        matching_upto(s, query, filter, k - 1)
    }
}

/// Which storage warnings are shown.
pub struct WarningBanners {
    pub combined: bool,
    pub ephemeral: bool,
    pub quota: bool,
}

impl TemplateApp {
    /// Submits the add form: when the trimmed title is not empty, adds the trimmed title and
    /// description with the chosen priority, empties both inputs and returns `true`;
    /// otherwise changes nothing.
    pub fn submit_new_item(&mut self) -> (submitted: bool)
        requires
            trim(old(self).new_item_title@).len() > 0 ==> old(self).state.collection.next_id
                < u64::MAX,
        ensures
            submitted == (trim(old(self).new_item_title@).len() > 0),
            submitted ==> after_submit(*old(self), *final(self)),
            !submitted ==> *final(self) == *old(self),
    {
        let title_chars = str_chars(self.new_item_title.as_str());
        let title = trim_chars(&title_chars);
        if title.len() == 0 {
            return false;
        }
        let desc_chars = str_chars(self.new_item_description.as_str());
        let desc = trim_chars(&desc_chars);
        let title_text = string_from_chars(&title);
        let desc_text = string_from_chars(&desc);
        let priority = self.new_item_priority;
        self.state.collection.add(title_text.as_str(), desc_text.as_str(), priority);
        self.new_item_title = String::new();
        self.new_item_description = String::new();
        true
    }

    /// Opens the export dialog on the exported text of a JSON or CSV export.
    pub fn show_export_text(&mut self, format: ExportFormat, text: String)
        ensures
            *final(self) == (TemplateApp {
                show_export_dialog: Some(format),
                export_text_buffer: text,
                ..*old(self)
            }),
    {
        self.export_text_buffer = text;
        self.show_export_dialog = Some(format);
    }

    /// Opens the export dialog for a compressed BSON export: the Base64 text of the bytes when
    /// the export succeeded, the previous text otherwise. The text shown, pasted into the
    /// import dialog, is read as compressed BSON with the same bytes.
    pub fn show_bson_export(&mut self, bytes: Option<Vec<u8>>)
        ensures
            final(self).show_export_dialog == Some(ExportFormat::Bson),
            match bytes {
                Some(b) => final(self).export_text_buffer@ == crate::base64_codec::base64_encode(
                    b@,
                ),
                None => final(self).export_text_buffer == old(self).export_text_buffer,
            },
            *final(self) == (TemplateApp {
                show_export_dialog: Some(ExportFormat::Bson),
                export_text_buffer: final(self).export_text_buffer,
                ..*old(self)
            }),
            match bytes {
                Some(b) => b@.len() > 0 ==> import_plan_spec(final(self).export_text_buffer@)
                    == ImportPlanView::Bson(b@),
                None => true,
            },
    {
        match bytes {
            Some(b) => {
                let text = encode_standard(&b);
                proof {
                    if b@.len() > 0 {
                        lemma_base64_text_trims_to_itself(text@);
                    }
                }
                self.export_text_buffer = text;
            },
            None => {},
        }
        self.show_export_dialog = Some(ExportFormat::Bson);
    }

    /// Closes the export dialog and drops its text.
    pub fn close_export_dialog(&mut self)
        ensures
            final(self).show_export_dialog is None,
            final(self).export_text_buffer@ == Seq::<char>::empty(),
            *final(self) == (TemplateApp {
                show_export_dialog: None,
                export_text_buffer: final(self).export_text_buffer,
                ..*old(self)
            }),
    {
        self.show_export_dialog = None;
        self.export_text_buffer = String::new();
    }

    /// Opens the import dialog with empty text and no message.
    pub fn open_import_dialog(&mut self)
        ensures
            final(self).show_import_dialog,
            final(self).import_text_buffer@ == Seq::<char>::empty(),
            final(self).import_result_message is None,
            *final(self) == (TemplateApp {
                show_import_dialog: true,
                import_text_buffer: final(self).import_text_buffer,
                import_result_message: None,
                ..*old(self)
            }),
    {
        self.show_import_dialog = true;
        self.import_text_buffer = String::new();
        self.import_result_message = None;
    }

    /// Closes the import dialog, dropping its text and message.
    pub fn close_import_dialog(&mut self)
        ensures
            !final(self).show_import_dialog,
            final(self).import_text_buffer@ == Seq::<char>::empty(),
            final(self).import_result_message is None,
            *final(self) == (TemplateApp {
                show_import_dialog: false,
                import_text_buffer: final(self).import_text_buffer,
                import_result_message: None,
                ..*old(self)
            }),
    {
        self.show_import_dialog = false;
        self.import_text_buffer = String::new();
        self.import_result_message = None;
    }

    /// Leaves the storage dialog for the import dialog (keeping the import text).
    pub fn open_backup_import(&mut self)
        ensures
            *final(self) == (TemplateApp {
                show_storage_modal: false,
                show_import_dialog: true,
                ..*old(self)
            }),
    {
        self.show_storage_modal = false;
        self.show_import_dialog = true;
    }

    /// Closes the storage dialog.
    pub fn close_storage_modal(&mut self)
        ensures
            *final(self) == (TemplateApp { show_storage_modal: false, ..*old(self) }),
    {
        self.show_storage_modal = false;
    }

    /// Replaces the collection by the sample collection and closes the reset dialog
    /// (preferences stay).
    pub fn confirm_reset(&mut self)
        ensures
            final(self).state.collection@ == sample_collection(),
            final(self).state.config == old(self).state.config,
            *final(self) == (TemplateApp {
                state: final(self).state,
                show_reset_dialog: false,
                ..*old(self)
            }),
    {
        self.state.collection = ItemCollection::default();
        self.show_reset_dialog = false;
    }

    /// How the pasted import text is to be read.
    pub fn plan_import(&self) -> (p: ImportPlan)
        ensures
            plan_view(p) == import_plan_spec(self.import_text_buffer@),
            (p is Empty) <==> trim(self.import_text_buffer@).len() == 0,
            p matches ImportPlan::Json(t) ==> t@ == trim(self.import_text_buffer@)
                && t@[0] == '{',
            p matches ImportPlan::Csv(t) ==> t@ == trim(self.import_text_buffer@) && t@.len() > 0
                && t@[0] != '{' && base64_decode(t@) is None,
            p matches ImportPlan::Bson(b) ==> base64_decode(trim(self.import_text_buffer@)) == Some(
                b@,
            ) && trim(self.import_text_buffer@)[0] != '{',
            trim(self.import_text_buffer@).len() > 0 && trim(self.import_text_buffer@)[0] == '{'
                ==> p is Json,
    {
        proof {
            law_import_plan_reads_trimmed_text(self.import_text_buffer@);
        }
        let chars = str_chars(self.import_text_buffer.as_str());
        let t = trim_chars(&chars);
        if t.len() == 0 {
            return ImportPlan::Empty;
        }
        let text = string_from_chars(&t);
        if t[0] == '{' {
            return ImportPlan::Json(text);
        }
        match decode_standard(text.as_str()) {
            Some(bytes) => ImportPlan::Bson(bytes),
            None => ImportPlan::Csv(text),
        }
    }

    /// Reports that there was nothing to import.
    pub fn report_empty_import(&mut self)
        ensures
            final(self).import_result_message matches Some(Err(m)) && m@ == "Input is empty."@,
            *final(self) == (TemplateApp {
                import_result_message: final(self).import_result_message,
                ..*old(self)
            }),
    {
        self.import_result_message = Some(Err(String::from_str("Input is empty.")));
    }

    /// Takes the outcome of an import: on success the collection is replaced and a
    /// confirmation with the item count is shown; on failure the collection stays and the
    /// error is shown. Tells whether the collection was replaced.
    pub fn finish_import(&mut self, source: ImportSource, outcome: Result<ItemCollection, String>) -> (imported: bool)
        ensures
            imported == outcome is Ok,
            match outcome {
                Ok(c) => {
                    &&& final(self).state.collection == c
                    &&& final(self).import_result_message matches Some(Ok(m)) && m@
                        == import_success_message(source, c@.items.len())
                },
                Err(e) => {
                    &&& final(self).state.collection == old(self).state.collection
                    &&& final(self).import_result_message matches Some(Err(m)) && m@
                        == import_failure_message(source, e@)
                },
            },
            final(self).state.config == old(self).state.config,
            *final(self) == (TemplateApp {
                state: final(self).state,
                import_result_message: final(self).import_result_message,
                ..*old(self)
            }),
    {
        match outcome {
            Ok(collection) => {
                let count = collection.total_count();
                let mut m = String::new();
                string_push_str(&mut m, "Successfully imported ");
                push_decimal(&mut m, count as u128);
                match source {
                    ImportSource::Json => string_push_str(&mut m, " items from JSON!"),
                    ImportSource::Bson => string_push_str(&mut m, " items from compressed BSON!"),
                    ImportSource::Csv => string_push_str(&mut m, " items from CSV!"),
                }
                self.state.collection = collection;
                self.import_result_message = Some(Ok(m));
                true
            },
            Err(e) => {
                let m = match source {
                    ImportSource::Bson => {
                        let mut m = String::new();
                        string_push_str(&mut m, "BSON import failed: ");
                        string_push_str(&mut m, e.as_str());
                        m
                    },
                    _ => e,
                };
                self.import_result_message = Some(Err(m));
                false
            },
        }
    }

    /// Applies the checkbox clicks and delete clicks of one frame: each id in `to_toggle` is
    /// toggled in turn, then each id in `to_remove` is removed in turn. Tells whether anything
    /// was clicked (and so the state must be saved).
    pub fn apply_item_actions(&mut self, to_toggle: &Vec<u64>, to_remove: &Vec<u64>) -> (changed: bool)
        ensures
            changed == (to_toggle.len() > 0 || to_remove.len() > 0),
            final(self).state.collection@ == (CollectionView {
                items: removed_all(toggled_all(old(self).state.collection@.items, to_toggle@), to_remove@),
                next_id: old(self).state.collection@.next_id,
            }),
            final(self).state.config == old(self).state.config,
            *final(self) == (TemplateApp { state: final(self).state, ..*old(self) }),
    {
        let ghost start = self.state.collection@.items;
        let mut i: usize = 0;
        assert(to_toggle@.take(0) == Seq::<u64>::empty());
        while i < to_toggle.len()
            invariant
                i <= to_toggle.len(),
                self.state.collection@.items == toggled_all(start, to_toggle@.take(i as int)),
                self.state.collection@.next_id == old(self).state.collection@.next_id,
                self.state.config == old(self).state.config,
                *self == (TemplateApp { state: self.state, ..*old(self) }),
            decreases to_toggle.len() - i,
        {
            self.state.collection.toggle(to_toggle[i]);
            assert(to_toggle@.take(i + 1).drop_last() == to_toggle@.take(i as int));
            i = i + 1;
        }
        assert(to_toggle@.take(i as int) == to_toggle@);
        let ghost mid = self.state.collection@.items;
        let mut j: usize = 0;
        assert(to_remove@.take(0) == Seq::<u64>::empty());
        while j < to_remove.len()
            invariant
                j <= to_remove.len(),
                mid == toggled_all(start, to_toggle@),
                self.state.collection@.items == removed_all(mid, to_remove@.take(j as int)),
                self.state.collection@.next_id == old(self).state.collection@.next_id,
                self.state.config == old(self).state.config,
                *self == (TemplateApp { state: self.state, ..*old(self) }),
            decreases to_remove.len() - j,
        {
            self.state.collection.remove(to_remove[j]);
            assert(to_remove@.take(j + 1).drop_last() == to_remove@.take(j as int));
            j = j + 1;
        }
        assert(to_remove@.take(j as int) == to_remove@);
        to_toggle.len() > 0 || to_remove.len() > 0
    }

    /// The positions of the items the list shows: those with the filtered priority (if any)
    /// whose lower-cased title or description contains the trimmed, lower-cased search text
    /// (if it is not empty), in order.
    pub fn matching_item_indices(&self) -> (r: Vec<usize>)
        ensures
            r@.map_values(|i: usize| i as int) == matching_upto(
                self.state.collection@.items,
                lowercase(trim(self.search_query@)),
                self.filter_priority,
                self.state.collection@.items.len() as int,
            ),
            forall|j: int|
                #![trigger r@[j]]
                0 <= j < r@.len() ==> {
                    let v = self.state.collection@.items[r@[j] as int];
                    let q = lowercase(trim(self.search_query@));
                    &&& (r@[j] as int) < self.state.collection@.items.len()
                    &&& (self.filter_priority matches Some(p) ==> v.priority == p)
                    &&& (q.len() > 0 ==> contains_block(lowercase(v.title), q) || contains_block(
                        lowercase(v.description),
                        q,
                    ))
                },
            forall|i: int|
                #![trigger self.state.collection@.items[i]]
                0 <= i < self.state.collection@.items.len() && (self.filter_priority matches Some(p)
                    ==> self.state.collection@.items[i].priority == p) && (lowercase(
                    trim(self.search_query@),
                ).len() > 0 ==> contains_block(
                    lowercase(self.state.collection@.items[i].title),
                    lowercase(trim(self.search_query@)),
                ) || contains_block(
                    lowercase(self.state.collection@.items[i].description),
                    lowercase(trim(self.search_query@)),
                )) ==> exists|j: int| 0 <= j < r@.len() && r@[j] as int == i,
            forall|j1: int, j2: int| #![trigger r@[j1], r@[j2]] 0 <= j1 < j2 < r@.len() ==> r@[j1] < r@[j2],
    {
        let q_chars = str_chars(self.search_query.as_str());
        let q_trim = string_from_chars(&trim_chars(&q_chars));
        let query_text = to_lowercase(q_trim.as_str());
        let query = str_chars(query_text.as_str());
        let ghost s = self.state.collection@.items;
        let ghost qv = lowercase(trim(self.search_query@));
        let items = &self.state.collection.items;
        let mut r: Vec<usize> = Vec::new();
        let mut k: usize = 0;
        while k < items.len()
            invariant
                k <= items.len(),
                s == self.state.collection@.items,
                items == &self.state.collection.items,
                query@ == qv,
                r@.map_values(|i: usize| i as int) == matching_upto(s, qv, self.filter_priority, k as int),
            decreases items.len() - k,
        {
            let item = &items[k];
            assert(item@ == s[k as int]);
            let priority_ok = match self.filter_priority {
                Some(p) => item.priority == p,
                None => true,
            };
            let keep = if !priority_ok {
                false
            } else if query.len() == 0 {
                true
            } else {
                let lt = to_lowercase(item.title.as_str());
                let ld = to_lowercase(item.description.as_str());
                let lt_chars = str_chars(lt.as_str());
                let ld_chars = str_chars(ld.as_str());
                chars_contains(&lt_chars, &query) || chars_contains(&ld_chars, &query)
            };
            assert(keep == item_matches(s[k as int], qv, self.filter_priority));
            let ghost before = r@;
            if keep {
                r.push(k);
                assert(r@.map_values(|i: usize| i as int) == before.map_values(|i: usize| i as int).push(k as int));
            }
            k = k + 1;
        }
        proof {
            law_listing_rule(s, qv, self.filter_priority);
            let m = matching_upto(s, qv, self.filter_priority, s.len() as int);
            assert(r@.map_values(|i: usize| i as int) == m);
            assert forall|j: int| 0 <= j < r@.len() implies r@[j] as int == m[j] by {
                assert(r@.map_values(|i: usize| i as int)[j] == r@[j] as int);
            }
            assert forall|j: int|
                #![trigger r@[j]]
                0 <= j < r@.len() implies {
                    let v = self.state.collection@.items[r@[j] as int];
                    let q = lowercase(trim(self.search_query@));
                    &&& (r@[j] as int) < self.state.collection@.items.len()
                    &&& (self.filter_priority matches Some(p) ==> v.priority == p)
                    &&& (q.len() > 0 ==> contains_block(lowercase(v.title), q) || contains_block(
                        lowercase(v.description),
                        q,
                    ))
                } by {
                assert(r@[j] as int == m[j]);
            }
            assert forall|j1: int, j2: int| #![trigger r@[j1], r@[j2]] 0 <= j1 < j2 < r@.len() implies r@[j1] < r@[j2] by {
                assert(r@[j1] as int == m[j1]);
                assert(r@[j2] as int == m[j2]);
            }
        }
        r
    }

    /// Which storage warnings to show: the combined one when storage is ephemeral and over
    /// quota and it was not dismissed; otherwise each of the ephemeral and the quota warning
    /// when its condition holds and it was not dismissed.
    pub fn warning_banners(&self) -> (w: WarningBanners)
        ensures
            ({
                let eph = self.storage_diag.is_persisted == Some(false);
                let quota = self.storage_diag.quota_exceeded;
                if eph && quota && !self.dismissed_combined_warning {
                    w.combined && !w.ephemeral && !w.quota
                } else {
                    !w.combined && w.ephemeral == (eph && !self.dismissed_ephemeral_warning)
                        && w.quota == (quota && !self.dismissed_quota_warning)
                }
            }),
    {
        let eph = match self.storage_diag.is_persisted {
            Some(p) => !p,
            None => false,
        };
        let quota = self.storage_diag.quota_exceeded;
        if eph && quota && !self.dismissed_combined_warning {
            WarningBanners { combined: true, ephemeral: false, quota: false }
        } else {
            WarningBanners {
                combined: false,
                ephemeral: eph && !self.dismissed_ephemeral_warning,
                quota: quota && !self.dismissed_quota_warning,
            }
        }
    }
}

/// With an empty search text and no priority filter, the list shows every item, in order.
pub proof fn law_unfiltered_list_shows_all(s: Seq<ItemView>, k: int)
    requires
        0 <= k <= s.len(),
    ensures
        matching_upto(s, seq![], None, k) == Seq::new(k as nat, |i: int| i),
    decreases k,
{
    if k > 0 {
        law_unfiltered_list_shows_all(s, k - 1);
        assert(item_matches(s[k - 1], seq![], None));
        assert(Seq::new((k - 1) as nat, |i: int| i).push(k - 1) =~= Seq::new(k as nat, |i: int| i));
    } else {
        assert(Seq::new(0, |i: int| i) =~= Seq::<int>::empty());
    }
}

/// The listing rule, stated without the matching predicate: the listed positions are in
/// range and increasing; each listed item has the filtered priority (when a filter is set)
/// and, when the search text is not empty, contains it in its lower-cased title or in its
/// lower-cased description; and every item meeting that rule is listed.
pub proof fn law_listing_rule(s: Seq<ItemView>, q: Seq<char>, f: Option<Priority>)
    ensures
        ({
            let m = matching_upto(s, q, f, s.len() as int);
            &&& forall|j: int|
                #![trigger m[j]]
                0 <= j < m.len() ==> {
                    &&& 0 <= m[j] < s.len()
                    &&& (f matches Some(p) ==> s[m[j]].priority == p)
                    &&& (q.len() > 0 ==> contains_block(lowercase(s[m[j]].title), q)
                        || contains_block(lowercase(s[m[j]].description), q))
                }
            &&& forall|i: int|
                #![trigger s[i]]
                0 <= i < s.len() && (f matches Some(p) ==> s[i].priority == p) && (q.len() > 0
                    ==> contains_block(lowercase(s[i].title), q) || contains_block(
                    lowercase(s[i].description),
                    q,
                )) ==> exists|j: int| 0 <= j < m.len() && m[j] == i
            &&& forall|j1: int, j2: int| #![trigger m[j1], m[j2]] 0 <= j1 < j2 < m.len() ==> m[j1] < m[j2]
        }),
{
    lemma_listing_upto(s, q, f, s.len() as int);
}

proof fn lemma_listing_upto(s: Seq<ItemView>, q: Seq<char>, f: Option<Priority>, k: int)
    requires
        0 <= k <= s.len(),
    ensures
        ({
            let m = matching_upto(s, q, f, k);
            &&& forall|j: int|
                #![trigger m[j]]
                0 <= j < m.len() ==> {
                    &&& 0 <= m[j] < k
                    &&& (f matches Some(p) ==> s[m[j]].priority == p)
                    &&& (q.len() > 0 ==> contains_block(lowercase(s[m[j]].title), q)
                        || contains_block(lowercase(s[m[j]].description), q))
                }
            &&& forall|i: int|
                #![trigger s[i]]
                0 <= i < k && (f matches Some(p) ==> s[i].priority == p) && (q.len() > 0
                    ==> contains_block(lowercase(s[i].title), q) || contains_block(
                    lowercase(s[i].description),
                    q,
                )) ==> exists|j: int| 0 <= j < m.len() && m[j] == i
            &&& forall|j1: int, j2: int| #![trigger m[j1], m[j2]] 0 <= j1 < j2 < m.len() ==> m[j1] < m[j2]
        }),
    decreases k,
{
    if k > 0 {
        lemma_listing_upto(s, q, f, k - 1);
        let prev = matching_upto(s, q, f, k - 1);
        let m = matching_upto(s, q, f, k);
        let v = s[k - 1];
        let ok = (f matches Some(p) ==> v.priority == p) && (q.len() > 0 ==> contains_block(
            lowercase(v.title),
            q,
        ) || contains_block(lowercase(v.description), q));
        assert(item_matches(v, q, f) == ok);
        if ok {
            assert(m == prev.push(k - 1));
            assert forall|i: int|
                0 <= i < k && (f matches Some(p) ==> s[i].priority == p) && (q.len() > 0
                    ==> contains_block(lowercase(s[i].title), q) || contains_block(
                    lowercase(s[i].description),
                    q,
                )) implies exists|j: int| 0 <= j < m.len() && m[j] == i by {
                if i == k - 1 {
                    assert(m[prev.len() as int] == i);
                } else {
                    let j = choose|j: int| 0 <= j < prev.len() && prev[j] == i;
                    assert(m[j] == i);
                }
            }
        } else {
            assert(m == prev);
            assert forall|i: int|
                0 <= i < k && (f matches Some(p) ==> s[i].priority == p) && (q.len() > 0
                    ==> contains_block(lowercase(s[i].title), q) || contains_block(
                    lowercase(s[i].description),
                    q,
                )) implies exists|j: int| 0 <= j < m.len() && m[j] == i by {
                assert(i != k - 1);
            }
        }
    }
}

/// How pasted text is read, stated over the trimmed text: empty text gives the empty plan;
/// otherwise every plan carries the trimmed text (or, for BSON, the bytes it decodes to): JSON
/// when it starts with `{`, else BSON when it decodes as Base64, else CSV.
pub proof fn law_import_plan_reads_trimmed_text(buffer: Seq<char>)
    ensures
        (import_plan_spec(buffer) is Empty) <==> trim(buffer).len() == 0,
        trim(buffer).len() > 0 && trim(buffer)[0] == '{' ==> import_plan_spec(buffer)
            == ImportPlanView::Json(trim(buffer)),
        trim(buffer).len() > 0 && trim(buffer)[0] != '{' && base64_decode(trim(buffer)) is None
            ==> import_plan_spec(buffer) == ImportPlanView::Csv(trim(buffer)),
        trim(buffer).len() > 0 && trim(buffer)[0] != '{' && base64_decode(trim(buffer)) is Some
            ==> import_plan_spec(buffer) == ImportPlanView::Bson(base64_decode(trim(buffer))->0),
        import_plan_spec(buffer) matches ImportPlanView::Json(t) ==> t == trim(buffer),
        import_plan_spec(buffer) matches ImportPlanView::Csv(t) ==> t == trim(buffer),
{
}

proof fn lemma_base64_text_trims_to_itself(text: Seq<char>)
    requires
        text.len() > 0,
        forall|i: int| 0 <= i < text.len() ==> crate::base64_codec::is_base64_char(#[trigger] text[i]),
    ensures
        trim(text) == text,
        text[0] != '{',
{
    assert(!crate::text::is_whitespace(text[0]));
    assert(!crate::text::is_whitespace(text.last()));
    assert(crate::text::trim_start(text) == text);
    assert(crate::text::trim_end(text) == text);
}

} // verus!

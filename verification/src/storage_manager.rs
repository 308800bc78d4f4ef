//! Storage tiers and the diagnostics the application keeps about them.

use vstd::prelude::*;

verus! {

/// Where the state was last saved.
#[derive(Clone, Copy, Debug, PartialEq, Eq, Structural)]
pub enum StorageBackend {
    LocalStorage,
    IndexedDb,
    MemoryOnly,
}

impl Default for StorageBackend {
    fn default() -> (b: Self)
        ensures
            b == StorageBackend::LocalStorage,
    {
        StorageBackend::LocalStorage
    }
}

/// The display name of a storage tier.
pub open spec fn backend_label(b: StorageBackend) -> Seq<char> {
    match b {
        StorageBackend::LocalStorage => "Local Storage (Fast Tier)"@,
        StorageBackend::IndexedDb => "IndexedDB (Extended Quota Tier)"@,
        StorageBackend::MemoryOnly => "In-Memory Only (Ephemeral)"@,
    }
}

impl StorageBackend {
    /// The display name of the tier.
    pub fn label(self) -> (r: &'static str)
        ensures
            r@ == backend_label(self),
            self == StorageBackend::LocalStorage ==> r@ == "Local Storage (Fast Tier)"@,
            self == StorageBackend::IndexedDb ==> r@ == "IndexedDB (Extended Quota Tier)"@,
            self == StorageBackend::MemoryOnly ==> r@ == "In-Memory Only (Ephemeral)"@,
    {
        match self {
            StorageBackend::LocalStorage => "Local Storage (Fast Tier)",
            StorageBackend::IndexedDb => "IndexedDB (Extended Quota Tier)",
            StorageBackend::MemoryOnly => "In-Memory Only (Ephemeral)",
        }
    }
}

/// What is known about persistence, installation and quota.
#[derive(Clone, Debug)]
pub struct StorageDiagnostics {
    pub is_persisted: Option<bool>,
    pub pwa_install_available: bool,
    pub is_pwa_installed: bool,
    pub backend: StorageBackend,
    pub quota_exceeded: bool,
    pub idb_active: bool,
    pub usage_bytes: u64,
    pub quota_bytes: u64,
}

/// Nothing known yet: persistence unknown, no installation, local storage, no quota trouble.
pub open spec fn unknown_diagnostics() -> StorageDiagnostics {
    StorageDiagnostics {
        is_persisted: None,
        pwa_install_available: false,
        is_pwa_installed: false,
        backend: StorageBackend::LocalStorage,
        quota_exceeded: false,
        idb_active: false,
        usage_bytes: 0,
        quota_bytes: 0,
    }
}

impl Default for StorageDiagnostics {
    fn default() -> (d: Self)
        ensures
            d == unknown_diagnostics(),
    {
        StorageDiagnostics {
            is_persisted: None,
            pwa_install_available: false,
            is_pwa_installed: false,
            backend: StorageBackend::LocalStorage,
            quota_exceeded: false,
            idb_active: false,
            usage_bytes: 0,
            quota_bytes: 0,
        }
    }
}

/// The diagnostics after a save attempt: a save to IndexedDB means local storage was over
/// quota; a save elsewhere clears the quota flag; a failed save marks the quota exceeded.
pub open spec fn after_save(d: StorageDiagnostics, outcome: Result<StorageBackend, Seq<char>>) -> StorageDiagnostics {
    match outcome {
        Ok(b) => if b == StorageBackend::IndexedDb {
            StorageDiagnostics { backend: b, quota_exceeded: true, idb_active: true, ..d }
        } else {
            StorageDiagnostics { backend: b, quota_exceeded: false, ..d }
        },
        Err(_) => StorageDiagnostics { quota_exceeded: true, ..d },
    }
}

/// The save outcome with the error as a character sequence.
pub open spec fn outcome_view(o: Result<StorageBackend, String>) -> Result<StorageBackend, Seq<char>> {
    match o {
        Ok(b) => Ok(b),
        Err(e) => Err(e@),
    }
}

impl StorageDiagnostics {
    /// Records the outcome of saving the state to the storage tiers.
    pub fn record_save_outcome(&mut self, outcome: &Result<StorageBackend, String>)
        ensures
            *final(self) == after_save(*old(self), outcome_view(*outcome)),
            outcome matches Ok(b) ==> final(self).backend == b,
            outcome matches Ok(b) ==> final(self).quota_exceeded == (b == StorageBackend::IndexedDb),
            outcome matches Ok(b) ==> final(self).idb_active == (old(self).idb_active || b
                == StorageBackend::IndexedDb),
            outcome is Err ==> final(self).quota_exceeded && final(self).backend == old(
                self,
            ).backend && final(self).idb_active == old(self).idb_active,
            final(self).is_persisted == old(self).is_persisted,
            final(self).pwa_install_available == old(self).pwa_install_available,
            final(self).is_pwa_installed == old(self).is_pwa_installed,
            final(self).usage_bytes == old(self).usage_bytes,
            final(self).quota_bytes == old(self).quota_bytes,
    {
        match outcome {
            Ok(backend) => {
                self.backend = *backend;
                if *backend == StorageBackend::IndexedDb {
                    self.quota_exceeded = true;
                    self.idb_active = true;
                } else {
                    self.quota_exceeded = false;
                }
            },
            Err(_) => {
                self.quota_exceeded = true;
            },
        }
    }

    /// Takes over what a fresh query of the environment reports about persistence and
    /// installation; the rest stays.
    pub fn refresh_from(&mut self, queried: &StorageDiagnostics)
        ensures
            *final(self) == (StorageDiagnostics {
                is_persisted: queried.is_persisted,
                pwa_install_available: queried.pwa_install_available,
                is_pwa_installed: queried.is_pwa_installed,
                ..*old(self)
            }),
    {
        self.is_persisted = queried.is_persisted;
        self.pwa_install_available = queried.pwa_install_available;
        self.is_pwa_installed = queried.is_pwa_installed;
    }

    /// Whether to offer installing the application: it can be installed and is not yet.
    pub fn install_offered(&self) -> (r: bool)
        ensures
            r == (self.pwa_install_available && !self.is_pwa_installed),
    {
        self.pwa_install_available && !self.is_pwa_installed
    }
}

/// The label of the storage button in the navigation bar.
pub open spec fn storage_button_text_spec(is_persisted: Option<bool>, is_mobile: bool) -> Seq<char> {
    match is_persisted {
        Some(true) => if is_mobile {
            "Storage (P)"@
        } else {
            "Storage: Persistent"@
        },
        Some(false) => if is_mobile {
            "Storage (E)"@
        } else {
            "Storage: Ephemeral"@
        },
        None => "Storage"@,
    }
}

/// The label of the storage button: the persistence state, shortened on narrow screens.
pub fn storage_button_text(is_persisted: Option<bool>, is_mobile: bool) -> (r: &'static str)
    ensures
        r@ == storage_button_text_spec(is_persisted, is_mobile),
        is_persisted == Some(true) && !is_mobile ==> r@ == "Storage: Persistent"@,
        is_persisted == Some(true) && is_mobile ==> r@ == "Storage (P)"@,
        is_persisted == Some(false) && !is_mobile ==> r@ == "Storage: Ephemeral"@,
        is_persisted == Some(false) && is_mobile ==> r@ == "Storage (E)"@,
        is_persisted is None ==> r@ == "Storage"@,
{
    match is_persisted {
        Some(true) => if is_mobile {
            "Storage (P)"
        } else {
            "Storage: Persistent"
        },
        Some(false) => if is_mobile {
            "Storage (E)"
        } else {
            "Storage: Ephemeral"
        },
        None => "Storage",
    }
}

/// The persistence status shown in the storage dialog.
pub open spec fn persistence_status_label_spec(is_persisted: Option<bool>) -> Seq<char> {
    match is_persisted {
        Some(true) => "Persistent (Immune to browser eviction)"@,
        Some(false) => "Ephemeral (May be cleared if disk is low)"@,
        None => "Unknown / Querying..."@,
    }
}

/// The persistence status shown in the storage dialog.
pub fn persistence_status_label(is_persisted: Option<bool>) -> (r: &'static str)
    ensures
        r@ == persistence_status_label_spec(is_persisted),
        is_persisted == Some(true) ==> r@ == "Persistent (Immune to browser eviction)"@,
        is_persisted == Some(false) ==> r@ == "Ephemeral (May be cleared if disk is low)"@,
        is_persisted is None ==> r@ == "Unknown / Querying..."@,
{
    match is_persisted {
        Some(true) => "Persistent (Immune to browser eviction)",
        Some(false) => "Ephemeral (May be cleared if disk is low)",
        None => "Unknown / Querying...",
    }
}

/// Whether the storage dialog offers to request persistent storage: unless storage is
/// already known to be persistent.
pub fn persistence_request_offered(is_persisted: Option<bool>) -> (r: bool)
    ensures
        r == (is_persisted != Some(true)),
{
    match is_persisted {
        Some(p) => !p,
        None => true,
    }
}

// ---------------------------------------------------------------- saving through the tiers

/// Where a save through the storage tiers stands.
#[derive(Clone, Copy, Debug, PartialEq, Eq, Structural)]
pub enum SaveState {
    /// Not started.
    Idle,
    /// Waiting to hear whether local storage took the state.
    AwaitingLocalStorage,
    /// Waiting to hear whether the IndexedDB fallback could be handed the state.
    AwaitingIndexedDb,
    /// Finished.
    Done,
}

/// What the environment reports to a save.
#[derive(Clone, Copy, Debug, PartialEq, Eq, Structural)]
pub enum SaveEvent {
    /// The save starts; whether there is a browser window to save in.
    Begin { has_window: bool },
    /// Whether local storage stored the state.
    LocalStorage { stored: bool },
    /// Whether the IndexedDB save function was found (and was then called).
    IndexedDb { available: bool },
}

/// What the save asks of the environment next.
#[derive(Debug)]
pub enum SaveAction {
    /// Store the state in local storage, then report `SaveEvent::LocalStorage`.
    TryLocalStorage,
    /// Hand the state to IndexedDB, then report `SaveEvent::IndexedDb`.
    TryIndexedDb,
    /// The save is over with this outcome.
    Finish(Result<StorageBackend, String>),
    /// The event does not fit the state; nothing to do.
    Ignore,
}

/// The value of an action, with the error text as a character sequence.
pub enum SaveActionView {
    TryLocalStorage,
    TryIndexedDb,
    Finish(Result<StorageBackend, Seq<char>>),
    Ignore,
}

/// The value of an action.
pub open spec fn save_action_view(a: SaveAction) -> SaveActionView {
    match a {
        SaveAction::TryLocalStorage => SaveActionView::TryLocalStorage,
        SaveAction::TryIndexedDb => SaveActionView::TryIndexedDb,
        SaveAction::Finish(r) => SaveActionView::Finish(outcome_view(r)),
        SaveAction::Ignore => SaveActionView::Ignore,
    }
}

/// The error when no storage tier took the state.
pub open spec fn all_tiers_failed() -> Seq<char> {
    "All browser storage tiers failed."@
}

/// The tier fallback: without a window the state stays in memory; with one, local storage is
/// tried first, then IndexedDB; when neither takes it the save fails.
pub open spec fn save_transition(state: SaveState, event: SaveEvent) -> (SaveState, SaveActionView) {
    match (state, event) {
        (SaveState::Idle, SaveEvent::Begin { has_window }) => if has_window {
            (SaveState::AwaitingLocalStorage, SaveActionView::TryLocalStorage)
        } else {
            (SaveState::Done, SaveActionView::Finish(Ok(StorageBackend::MemoryOnly)))
        },
        (SaveState::AwaitingLocalStorage, SaveEvent::LocalStorage { stored }) => if stored {
            (SaveState::Done, SaveActionView::Finish(Ok(StorageBackend::LocalStorage)))
        } else {
            (SaveState::AwaitingIndexedDb, SaveActionView::TryIndexedDb)
        },
        (SaveState::AwaitingIndexedDb, SaveEvent::IndexedDb { available }) => if available {
            (SaveState::Done, SaveActionView::Finish(Ok(StorageBackend::IndexedDb)))
        } else {
            (SaveState::Done, SaveActionView::Finish(Err(all_tiers_failed())))
        },
        _ => (state, SaveActionView::Ignore),
    }
}

/// One step of a save through the storage tiers.
pub fn save_step(state: SaveState, event: SaveEvent) -> (r: (SaveState, SaveAction))
    ensures
        (r.0, save_action_view(r.1)) == save_transition(state, event),
{
    match (state, event) {
        (SaveState::Idle, SaveEvent::Begin { has_window }) => if has_window {
            (SaveState::AwaitingLocalStorage, SaveAction::TryLocalStorage)
        } else {
            (SaveState::Done, SaveAction::Finish(Ok(StorageBackend::MemoryOnly)))
        },
        (SaveState::AwaitingLocalStorage, SaveEvent::LocalStorage { stored }) => if stored {
            (SaveState::Done, SaveAction::Finish(Ok(StorageBackend::LocalStorage)))
        } else {
            (SaveState::AwaitingIndexedDb, SaveAction::TryIndexedDb)
        },
        (SaveState::AwaitingIndexedDb, SaveEvent::IndexedDb { available }) => if available {
            (SaveState::Done, SaveAction::Finish(Ok(StorageBackend::IndexedDb)))
        } else {
            (
                SaveState::Done,
                SaveAction::Finish(Err(String::from_str("All browser storage tiers failed."))),
            )
        },
        _ => (state, SaveAction::Ignore),
    }
}

/// The outcome of a save, from what the environment reports: memory only without a window,
/// else local storage if it stored the state, else IndexedDB if available, else failure.
pub open spec fn save_outcome(has_window: bool, stored: bool, idb_available: bool) -> Result<StorageBackend, Seq<char>> {
    if !has_window {
        Ok(StorageBackend::MemoryOnly)
    } else if stored {
        Ok(StorageBackend::LocalStorage)
    } else if idb_available {
        Ok(StorageBackend::IndexedDb)
    } else {
        Err(all_tiers_failed())
    }
}

/// A save driven by the environment's reports finishes within three steps with
/// [`save_outcome`], and a finished save stays finished.
pub proof fn law_save_finishes(has_window: bool, stored: bool, idb_available: bool, e: SaveEvent)
    ensures
        ({
            let (s1, a1) = save_transition(SaveState::Idle, SaveEvent::Begin { has_window });
            if !has_window {
                s1 == SaveState::Done && a1 == SaveActionView::Finish(save_outcome(has_window, stored, idb_available))
            } else {
                let (s2, a2) = save_transition(s1, SaveEvent::LocalStorage { stored });
                if stored {
                    s2 == SaveState::Done && a2 == SaveActionView::Finish(save_outcome(has_window, stored, idb_available))
                } else {
                    let (s3, a3) = save_transition(s2, SaveEvent::IndexedDb { available: idb_available });
                    s3 == SaveState::Done && a3 == SaveActionView::Finish(save_outcome(has_window, stored, idb_available))
                }
            }
        }),
        save_transition(SaveState::Done, e) == (SaveState::Done, SaveActionView::Ignore),
{
}

/// After a save through the tiers, the diagnostics record its outcome; a fallback to
/// IndexedDB marks the quota exceeded and IndexedDB active.
pub proof fn law_fallback_marks_quota(d: StorageDiagnostics)
    ensures
        after_save(d, save_outcome(true, false, true)).quota_exceeded,
        after_save(d, save_outcome(true, false, true)).idb_active,
        after_save(d, save_outcome(true, false, true)).backend == StorageBackend::IndexedDb,
        !after_save(d, save_outcome(true, true, false)).quota_exceeded,
        after_save(d, save_outcome(true, false, false)).quota_exceeded,
        after_save(d, save_outcome(true, false, false)).backend == d.backend,
{
}

/// The storage button tells persistent from ephemeral storage: on either screen width the
/// label for persistent storage differs from the label for ephemeral storage and from the
/// label for unknown persistence; a persistent label never names ephemeral storage.
pub proof fn law_storage_button_tells_persistence(is_mobile: bool)
    ensures
        storage_button_text_spec(Some(true), is_mobile) != storage_button_text_spec(Some(false), is_mobile),
        storage_button_text_spec(Some(true), is_mobile) != storage_button_text_spec(None, is_mobile),
        storage_button_text_spec(Some(false), is_mobile) != storage_button_text_spec(None, is_mobile),
        storage_button_text_spec(Some(true), is_mobile) != "Storage: Ephemeral"@,
        storage_button_text_spec(Some(true), is_mobile) != "Storage (E)"@,
{
    reveal_strlit("Storage (P)");
    reveal_strlit("Storage (E)");
    reveal_strlit("Storage: Persistent");
    reveal_strlit("Storage: Ephemeral");
    reveal_strlit("Storage");
    if is_mobile {
        assert("Storage (P)"@[9] != "Storage (E)"@[9]);
        assert("Storage (P)"@.len() != "Storage"@.len());
        assert("Storage (E)"@.len() != "Storage"@.len());
    } else {
        assert("Storage: Persistent"@[9] != "Storage: Ephemeral"@[9]);
        assert("Storage: Persistent"@.len() != "Storage"@.len());
        assert("Storage: Ephemeral"@.len() != "Storage"@.len());
        assert("Storage: Persistent"@[9] != "Storage (E)"@[9]);
    }
}

/// A successful save records the tier it went to, whatever tier was recorded before; the
/// quota flag is set exactly when the save fell back to IndexedDB; a failed save keeps the
/// recorded tier and sets the quota flag.
pub proof fn law_save_records_tier(d: StorageDiagnostics, b: StorageBackend, e: Seq<char>)
    ensures
        after_save(d, Ok(b)).backend == b,
        after_save(d, Ok(b)).quota_exceeded == (b == StorageBackend::IndexedDb),
        after_save(d, Ok(b)).is_persisted == d.is_persisted,
        after_save(d, Err(e)).backend == d.backend,
        after_save(d, Err(e)).quota_exceeded,
{
}

} // verus!

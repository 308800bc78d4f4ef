//! Domain model, configuration and data-interchange logic of the item tracker.

use vstd::prelude::*;

pub mod base64_codec;
pub mod export;
pub mod models;
pub mod storage_manager;
pub mod template_app;
pub mod text;

pub use models::{Item, ItemCollection, Priority};

use models::{empty_collection, sample_collection};

verus! {

/// Visual theme preference.
#[derive(Clone, Copy, Debug, PartialEq, Eq, Structural)]
pub enum ThemeMode {
    Light,
    Dark,
}

impl Default for ThemeMode {
    fn default() -> (t: Self)
        ensures
            t == ThemeMode::Dark,
    {
        ThemeMode::Dark
    }
}

/// User preferences.
#[derive(Clone, Debug)]
pub struct AppConfig {
    pub theme: ThemeMode,
}

impl Default for AppConfig {
    /// The dark theme.
    fn default() -> (c: Self)
        ensures
            c.theme == ThemeMode::Dark,
    {
        AppConfig { theme: ThemeMode::Dark }
    }
}

/// Everything the application persists: preferences and the item collection.
#[derive(Clone, Debug)]
pub struct AppState {
    pub config: AppConfig,
    pub collection: ItemCollection,
}

impl Default for AppState {
    /// Default preferences and the sample collection.
    fn default() -> (s: Self)
        ensures
            s.config.theme == ThemeMode::Dark,
            s.collection@ == sample_collection(),
    {
        AppState { config: AppConfig::default(), collection: ItemCollection::default() }
    }
}

impl AppState {
    /// Resets app domain data while preserving configuration preferences like theme.
    pub fn reset_data(&mut self)
        ensures
            final(self).config == old(self).config,
            final(self).collection@ == empty_collection(),
    {
        self.collection.reset();
    }
}

} // verus!

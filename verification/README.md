# shared

The domain logic of a small item tracker (items with a priority and a completion flag,
grouped in a collection that hands out ids), its CSV interchange format and the decisions of
its screens, written in Verus with their contracts proved.

- `src/models.rs`: items and the collection; each operation is stated against a model
  (`added`, `removed`, `toggled`, `pending_items`, ...), and the laws relating operations are
  proof functions named `law_*`.
- `src/export.rs`: the CSV document layout and the reading of CSV records, with the laws
  that an export's data lines are its records and that reading its fields back restores the
  items.
- `src/text.rs`: character-level helpers with the semantics of the standard functions they
  mirror (decimal printing and parsing, Unicode trimming, line splitting, matching).
- `src/template_app.rs`, `src/storage_manager.rs`: the application's view state and
  decisions (dialogs, add form, search, import dispatch, storage warnings, the storage-tier
  fallback as a step function from state and event to next state and action).
- `src/base64_codec.rs`: the Base64 calls, behind trusted wrappers.
- `app/`: serde copies of the persisted types, the JSON/BSON/CSV-field codecs, storage and
  downloads, and the float-valued display helpers.

//! CSV interchange: the document layout of an export and the interpretation of the fields of
//! an import. Escaping a single field and splitting a single line into fields are done by the
//! CSV field codec outside this crate; everything around those two steps is here.

use vstd::prelude::*;

use crate::models::{
    items_view, priority_label, CollectionView, Item, ItemCollection, ItemView, Priority,
};
use crate::text::{
    trim_start, trim_end, is_whitespace, lines_from, strip_cr, law_parse_decimal, lemma_decimal_digits, is_digit, chars_eq, chars_eq_ignore_ascii_case, chars_starts_with, decimal, eq_ignore_ascii_case,
    lines, lowercase, parse_u64, parse_u64_spec, push_decimal, split_lines, starts_with,
    str_chars, string_from_chars, string_push, string_push_str, to_lowercase, trim, trim_chars,
};

verus! {

/// Declares `serde_json::Error` so that [`DataTransferError::JsonSerialize`] can carry it;
/// nothing is claimed of its contents, which stay opaque.
#[verifier::external_type_specification]
#[verifier::external_body]
pub struct ExJsonError(serde_json::Error);

/// Why an import or export failed.
#[derive(Debug)]
pub enum DataTransferError {
    /// JSON (de)serialisation failed.
    JsonSerialize(serde_json::Error),
    /// The export codec failed; its message.
    Export(String),
    /// A CSV line could not be read; the message names the line.
    CsvParse(String),
    /// The priority column held something other than low, medium or high (any case); the
    /// lower-cased text.
    InvalidPriority(String),
}

// ---------------------------------------------------------------- export

/// The two text columns of an item, already escaped for CSV.
pub struct EscapedFields {
    pub title: String,
    pub description: String,
}

/// The escaped columns, as character sequences.
pub open spec fn escaped_view(e: Seq<EscapedFields>) -> Seq<(Seq<char>, Seq<char>)> {
    e.map_values(|f: EscapedFields| (f.title@, f.description@))
}

/// The header line of an export.
pub open spec fn csv_header() -> Seq<char> {
    "id,title,description,priority,completed\n"@
}

/// How `{}` prints a boolean.
pub open spec fn bool_text(b: bool) -> Seq<char> {
    if b {
        "true"@
    } else {
        "false"@
    }
}

/// One exported line: id, escaped title, escaped description, priority label and completion,
/// separated by commas and ended by a newline.
pub open spec fn csv_record(item: ItemView, title: Seq<char>, description: Seq<char>) -> Seq<char> {
    decimal(item.id as nat) + seq![','] + title + seq![','] + description + seq![',']
        + priority_label(item.priority) + seq![','] + bool_text(item.completed) + seq!['\n']
}

/// The exported lines of `items`, each with its escaped columns.
pub open spec fn csv_records(items: Seq<ItemView>, escaped: Seq<(Seq<char>, Seq<char>)>) -> Seq<
    char,
>
    decreases items.len(),
{
    if items.len() == 0 {
        seq![]
    } else {
        csv_records(items.drop_last(), escaped.drop_last()) + csv_record(
            items.last(),
            escaped.last().0,
            escaped.last().1,
        )
    }
}

/// A whole export: the header line, then one line per item.
pub open spec fn csv_document(items: Seq<ItemView>, escaped: Seq<(Seq<char>, Seq<char>)>) -> Seq<
    char,
> {
    csv_header() + csv_records(items, escaped)
}

/// Serialises the collection to CSV, given each item's title and description as the CSV
/// codec escaped them (`escaped[i]` belongs to `collection.items[i]`).
pub fn csv_from_escaped(collection: &ItemCollection, escaped: &Vec<EscapedFields>) -> (csv: String)
    requires
        escaped.len() == collection.items.len(),
    ensures
        csv@ == csv_document(collection@.items, escaped_view(escaped@)),
{
    let ghost items = collection@.items;
    let ghost esc = escaped_view(escaped@);
    let mut csv = String::new();
    string_push_str(&mut csv, "id,title,description,priority,completed\n");
    let mut i: usize = 0;
    assert(items.take(0) == Seq::<ItemView>::empty());
    while i < collection.items.len()
        invariant
            i <= collection.items.len() == escaped.len(),
            items == collection@.items,
            esc == escaped_view(escaped@),
            csv@ == csv_header() + csv_records(items.take(i as int), esc.take(i as int)),
        decreases collection.items.len() - i,
    {
        let item = &collection.items[i];
        let ghost before = csv@;
        push_decimal(&mut csv, item.id as u128);
        string_push(&mut csv, ',');
        string_push_str(&mut csv, escaped[i].title.as_str());
        string_push(&mut csv, ',');
        string_push_str(&mut csv, escaped[i].description.as_str());
        string_push(&mut csv, ',');
        string_push_str(&mut csv, item.priority.label());
        string_push(&mut csv, ',');
        if item.completed {
            string_push_str(&mut csv, "true");
        } else {
            string_push_str(&mut csv, "false");
        }
        string_push(&mut csv, '\n');
        proof {
            assert(items.take(i + 1).drop_last() == items.take(i as int));
            assert(esc.take(i + 1).drop_last() == esc.take(i as int));
            assert(items.take(i + 1).last() == item@);
            assert(esc.take(i + 1).last() == (escaped@[i as int].title@, escaped@[i as int].description@));
            assert(csv@ == before + csv_record(item@, esc[i as int].0, esc[i as int].1));
        }
        i = i + 1;
    }
    assert(items.take(i as int) == items);
    assert(esc.take(i as int) == esc);
    csv
}

// ---------------------------------------------------------------- import

/// A line of a CSV import that holds data: its position among all lines (from 0) and its text
/// with surrounding whitespace trimmed.
pub struct CsvLine {
    pub line_index: usize,
    pub text: String,
}

/// Whether line `k` of a CSV text, trimmed to `t`, is skipped: it is blank, or it is the first
/// line and its lower-cased text begins with `id,` (a header).
pub open spec fn is_skipped_line(k: int, t: Seq<char>) -> bool {
    t.len() == 0 || (k == 0 && starts_with(lowercase(t), "id,"@))
}

/// The data lines among the first `k` lines `ls`, with their positions.
pub open spec fn data_lines_upto(ls: Seq<Seq<char>>, k: int) -> Seq<(int, Seq<char>)>
    decreases k,
{
    if k <= 0 {
        seq![]
    } else if is_skipped_line(k - 1, trim(ls[k - 1])) {
        data_lines_upto(ls, k - 1)
    } else {
        data_lines_upto(ls, k - 1).push((k - 1, trim(ls[k - 1])))
    }
}

/// The data lines of a CSV text.
pub open spec fn csv_data_lines_spec(s: Seq<char>) -> Seq<(int, Seq<char>)> {
    data_lines_upto(lines(s), lines(s).len() as int)
}

/// The data lines as positions and character sequences.
pub open spec fn csv_lines_view(v: Seq<CsvLine>) -> Seq<(int, Seq<char>)> {
    v.map_values(|l: CsvLine| (l.line_index as int, l.text@))
}

/// The data lines of a CSV text, each trimmed: blank lines and a header line are skipped.
pub fn csv_data_lines(csv_str: &str) -> (r: Vec<CsvLine>)
    ensures
        csv_lines_view(r@) == csv_data_lines_spec(csv_str@),
{
    let chars = str_chars(csv_str);
    let ls = split_lines(&chars);
    let ghost lsv = lines(csv_str@);
    let header = str_chars("id,");
    let mut out: Vec<CsvLine> = Vec::new();
    let mut k: usize = 0;
    while k < ls.len()
        invariant
            k <= ls.len(),
            lsv == lines(csv_str@),
            ls@.len() == lsv.len(),
            forall|j: int| 0 <= j < ls@.len() ==> #[trigger] ls@[j]@ == lsv[j],
            header@ == "id,"@,
            csv_lines_view(out@) == data_lines_upto(lsv, k as int),
        decreases ls.len() - k,
    {
        let t = trim_chars(&ls[k]);
        assert(t@ == trim(lsv[k as int]));
        let skip = if t.len() == 0 {
            true
        } else if k == 0 {
            let ts = string_from_chars(&t);
            let lower = to_lowercase(ts.as_str());
            let lower_chars = str_chars(lower.as_str());
            chars_starts_with(&lower_chars, &header)
        } else {
            false
        };
        assert(skip == is_skipped_line(k as int, t@));
        if !skip {
            let text = string_from_chars(&t);
            out.push(CsvLine { line_index: k, text });
            assert(csv_lines_view(out@) == data_lines_upto(lsv, k as int).push((k as int, t@)));
        }
        k = k + 1;
    }
    out
}

/// A data line split into its fields by the CSV codec.
pub struct CsvRecord {
    pub line_index: usize,
    pub fields: Vec<String>,
}

/// The records as positions and field texts.
pub open spec fn records_view(v: Seq<CsvRecord>) -> Seq<(int, Seq<Seq<char>>)> {
    v.map_values(|r: CsvRecord| (r.line_index as int, r.fields@.map_values(|f: String| f@)))
}

/// How far an import has got after some records.
pub enum CsvImport {
    /// The items read so far and the largest id seen (0 at first).
    Reading(Seq<ItemView>, u64),
    /// A record had too few fields: its line position and its field count.
    TooFewColumns(int, nat),
    /// A record's priority was not recognised: the lower-cased text.
    BadPriority(Seq<char>),
    /// An id computation would pass `u64::MAX` (the arithmetic would overflow).
    Overflow,
}

/// The priority named by a lower-cased priority column.
pub open spec fn priority_from_lower(t: Seq<char>) -> Option<Priority> {
    if t == "low"@ {
        Some(Priority::Low)
    } else if t == "medium"@ {
        Some(Priority::Medium)
    } else if t == "high"@ {
        Some(Priority::High)
    } else {
        None
    }
}

/// Whether a completion column means "completed": `true` in any ASCII case, or `1`.
pub open spec fn completed_from_text(t: Seq<char>) -> bool {
    eq_ignore_ascii_case(t, "true"@) || t == "1"@
}

/// The id of a record: its first field as a number, or one past the largest id so far when
/// that field is not a number.
pub open spec fn record_id(field: Seq<char>, max_id: u64) -> u64 {
    match parse_u64_spec(field) {
        Some(v) => v,
        None => (max_id + 1) as u64,
    }
}

/// Reading one more record.
pub open spec fn import_step(acc: CsvImport, line_index: int, fields: Seq<Seq<char>>) -> CsvImport {
    match acc {
        CsvImport::Reading(items, max_id) => {
            if fields.len() < 5 {
                CsvImport::TooFewColumns(line_index, fields.len())
            } else if parse_u64_spec(fields[0]) is None && max_id == u64::MAX {
                CsvImport::Overflow
            } else {
                let id = record_id(fields[0], max_id);
                match priority_from_lower(lowercase(fields[3])) {
                    None => CsvImport::BadPriority(lowercase(fields[3])),
                    Some(p) => CsvImport::Reading(
                        items.push(
                            ItemView {
                                id,
                                title: fields[1],
                                description: fields[2],
                                priority: p,
                                completed: completed_from_text(fields[4]),
                            },
                        ),
                        if id > max_id {
                            id
                        } else {
                            max_id
                        },
                    ),
                }
            }
        },
        other => other,
    }
}

/// The state of an import after the first `k` records.
pub open spec fn import_upto(recs: Seq<(int, Seq<Seq<char>>)>, k: int) -> CsvImport
    decreases k,
{
    if k <= 0 {
        CsvImport::Reading(seq![], 0)
    } else {
        import_step(import_upto(recs, k - 1), recs[k - 1].0, recs[k - 1].1)
    }
}

/// The state of an import after all records; a final largest id of `u64::MAX` leaves no
/// next id and counts as an overflow.
pub open spec fn import_all(recs: Seq<(int, Seq<Seq<char>>)>) -> CsvImport {
    match import_upto(recs, recs.len() as int) {
        CsvImport::Reading(items, max_id) => if max_id == u64::MAX {
            CsvImport::Overflow
        } else {
            CsvImport::Reading(items, max_id)
        },
        other => other,
    }
}

/// The message for a record with too few fields.
pub open spec fn columns_message(line_index: int, found: nat) -> Seq<char> {
    "Line "@ + decimal((line_index + 1) as nat)
        + ": Expected 5 columns (id,title,description,priority,completed), found "@ + decimal(
        found,
    )
}

/// What an import of `recs` returns, where it does not overflow.
pub open spec fn import_result_matches(recs: Seq<(int, Seq<Seq<char>>)>, r: Result<ItemCollection, DataTransferError>) -> bool {
    match import_all(recs) {
        CsvImport::Reading(items, max_id) => r matches Ok(c) && c@ == CollectionView {
            items,
            next_id: (max_id + 1) as u64,
        },
        CsvImport::TooFewColumns(line_index, found) => r matches Err(DataTransferError::CsvParse(m))
            && m@ == columns_message(line_index, found),
        CsvImport::BadPriority(t) => r matches Err(DataTransferError::InvalidPriority(m)) && m@ == t,
        CsvImport::Overflow => false,
    }
}

fn column_error(line_index: usize, found: usize) -> (m: String)
    ensures
        m@ == columns_message(line_index as int, found as nat),
{
    let mut m = String::new();
    string_push_str(&mut m, "Line ");
    push_decimal(&mut m, line_index as u128 + 1);
    string_push_str(
        &mut m,
        ": Expected 5 columns (id,title,description,priority,completed), found ",
    );
    push_decimal(&mut m, found as u128);
    m
}

/// Runs an import; `None` where an id would pass `u64::MAX`: a record with no numeric id
/// after the largest id reached `u64::MAX`, or a final largest id of `u64::MAX` (no next id).
fn run_csv_import(records: &Vec<CsvRecord>) -> (r: Option<Result<ItemCollection, DataTransferError>>)
    ensures
        r is None <==> import_all(records_view(records@)) is Overflow,
        r matches Some(res) ==> import_result_matches(records_view(records@), res),
{
    let ghost recs = records_view(records@);
    let mut items: Vec<Item> = Vec::new();
    let mut max_id: u64 = 0;
    let low = str_chars("low");
    let medium = str_chars("medium");
    let high = str_chars("high");
    let truth = str_chars("true");
    let one = str_chars("1");
    let mut k: usize = 0;
    assert(items_view(items@) == Seq::<ItemView>::empty());
    while k < records.len()
        invariant
            k <= records.len(),
            recs == records_view(records@),
            low@ == "low"@,
            medium@ == "medium"@,
            high@ == "high"@,
            truth@ == "true"@,
            one@ == "1"@,
            import_upto(recs, k as int) == CsvImport::Reading(items_view(items@), max_id),
        decreases records.len() - k,
    {
        let rec = &records[k];
        let ghost fields = recs[k as int].1;
        assert(fields.len() == rec.fields.len());
        assert(forall|j: int| 0 <= j < fields.len() ==> fields[j] == (#[trigger] rec.fields@[j])@);
        assert(recs[k as int].0 == rec.line_index as int);
        if rec.fields.len() < 5 {
            let m = column_error(rec.line_index, rec.fields.len());
            proof {
                lemma_import_stuck(recs, k as int + 1);
            }
            return Some(Err(DataTransferError::CsvParse(m)));
        }
        let id_chars = str_chars(rec.fields[0].as_str());
        let parsed = parse_u64(&id_chars);
        let id: u64 = match parsed {
            Some(v) => v,
            None => {
                if max_id == u64::MAX {
                    proof {
                        lemma_import_stuck(recs, k as int + 1);
                    }
                    return None;
                }
                max_id + 1
            },
        };
        assert(id == record_id(fields[0], max_id));
        let lower = to_lowercase(rec.fields[3].as_str());
        let lower_chars = str_chars(lower.as_str());
        let priority = if chars_eq(&lower_chars, &low) {
            Priority::Low
        } else if chars_eq(&lower_chars, &medium) {
            Priority::Medium
        } else if chars_eq(&lower_chars, &high) {
            Priority::High
        } else {
            proof {
                lemma_import_stuck(recs, k as int + 1);
            }
            return Some(Err(DataTransferError::InvalidPriority(lower)));
        };
        assert(priority_from_lower(lowercase(fields[3])) == Some(priority));
        let done_chars = str_chars(rec.fields[4].as_str());
        let completed = chars_eq_ignore_ascii_case(&done_chars, &truth) || chars_eq(
            &done_chars,
            &one,
        );
        assert(completed == completed_from_text(fields[4]));
        let item = Item {
            id,
            title: rec.fields[1].clone(),
            description: rec.fields[2].clone(),
            priority,
            completed,
        };
        assert(item@.title == fields[1]);
        assert(item@.description == fields[2]);
        let ghost prev_items = items_view(items@);
        let ghost prev_max = max_id;
        if id > max_id {
            max_id = id;
        }
        items.push(item);
        assert(import_upto(recs, k + 1) == import_step(import_upto(recs, k as int), recs[k as int].0, fields));
        assert(import_step(CsvImport::Reading(prev_items, prev_max), recs[k as int].0, fields) == CsvImport::Reading(prev_items.push(item@), max_id));
        assert(items_view(items@) =~= prev_items.push(item@));
        k = k + 1;
    }
    if max_id == u64::MAX {
        return None;
    }
    Some(Ok(ItemCollection { items, next_id: max_id + 1 }))
}

proof fn lemma_import_stuck(recs: Seq<(int, Seq<Seq<char>>)>, k: int)
    requires
        0 <= k <= recs.len(),
        !(import_upto(recs, k) is Reading),
    ensures
        import_all(recs) == import_upto(recs, k),
    decreases recs.len() - k,
{
    if k < recs.len() {
        lemma_import_stuck(recs, k + 1);
    }
}

/// Whether importing `recs` would overflow the id arithmetic.
pub open spec fn import_overflows(recs: Seq<(int, Seq<Seq<char>>)>) -> bool {
    import_all(recs) is Overflow
}

/// Builds a collection from CSV records (one per data line, in order). A record needs at
/// least five fields: id, title, description, priority, completed. An id that is not a
/// number becomes one past the largest id so far; the priority is matched after
/// lower-casing; the next id is one past the largest id.
pub fn import_from_csv_records(records: &Vec<CsvRecord>) -> (r: Result<ItemCollection, DataTransferError>)
    requires
        !import_overflows(records_view(records@)),
    ensures
        import_result_matches(records_view(records@), r),
{
    match run_csv_import(records) {
        Some(r) => r,
        None => {
            proof {
                assert(false);
            }
            Err(DataTransferError::CsvParse(String::new()))
        },
    }
}

/// As [`import_from_csv_records`], or `None` where that import would overflow the id
/// arithmetic.
pub fn try_import_from_csv_records(records: &Vec<CsvRecord>) -> (r: Option<Result<ItemCollection, DataTransferError>>)
    ensures
        r is None <==> import_overflows(records_view(records@)),
        r matches Some(res) ==> import_result_matches(records_view(records@), res),
{
    if run_csv_import(records).is_none() {
        None
    } else {
        Some(import_from_csv_records(records))
    }
}

// ---------------------------------------------------------------- laws of the interchange

/// The largest id among `s` (0 for none).
pub open spec fn max_id_of(s: Seq<ItemView>) -> u64
    decreases s.len(),
{
    if s.len() == 0 {
        0
    } else if s.last().id > max_id_of(s.drop_last()) {
        s.last().id
    } else {
        max_id_of(s.drop_last())
    }
}

/// The five columns an export writes for an item, before escaping.
pub open spec fn exported_fields(v: ItemView) -> Seq<Seq<char>> {
    seq![
        decimal(v.id as nat),
        v.title,
        v.description,
        priority_label(v.priority),
        bool_text(v.completed),
    ]
}

/// The records of an export read back field for field: line `k + 1` holds item `k`.
pub open spec fn exported_records(items: Seq<ItemView>) -> Seq<(int, Seq<Seq<char>>)> {
    Seq::new(items.len(), |k: int| (k + 1, exported_fields(items[k])))
}

/// Lower-casing the three priority labels gives their ASCII lower-case forms, as the
/// documentation of `str::to_lowercase` says of ASCII text.
pub open spec fn labels_lowercase_as_ascii() -> bool {
    &&& lowercase("Low"@) == "low"@
    &&& lowercase("Medium"@) == "medium"@
    &&& lowercase("High"@) == "high"@
}

proof fn lemma_label_read_back(p: Priority)
    requires
        labels_lowercase_as_ascii(),
    ensures
        priority_from_lower(lowercase(priority_label(p))) == Some(p),
{
    reveal_strlit("low");
    reveal_strlit("medium");
    reveal_strlit("high");
    match p {
        Priority::Low => {},
        Priority::Medium => {
            assert("medium"@[0] == 'm' && "low"@[0] == 'l');
        },
        Priority::High => {
            assert("high"@[0] == 'h' && "low"@[0] == 'l' && "medium"@[0] == 'm');
        },
    }
}

proof fn lemma_bool_read_back(b: bool)
    ensures
        completed_from_text(bool_text(b)) == b,
{
    reveal_strlit("true");
    reveal_strlit("false");
    reveal_strlit("1");
    if !b {
        assert(!eq_ignore_ascii_case("false"@, "true"@));
        assert("false"@ != "1"@);
    }
}

proof fn lemma_import_exported_upto(items: Seq<ItemView>, k: int)
    requires
        0 <= k <= items.len(),
        labels_lowercase_as_ascii(),
    ensures
        import_upto(exported_records(items), k) == CsvImport::Reading(
            items.take(k),
            max_id_of(items.take(k)),
        ),
    decreases k,
{
    if k == 0 {
        assert(items.take(0) =~= Seq::<ItemView>::empty());
    } else {
        lemma_import_exported_upto(items, k - 1);
        let recs = exported_records(items);
        let v = items[k - 1];
        let fields = exported_fields(v);
        assert(recs[k - 1] == (k, fields));
        law_parse_decimal(v.id);
        lemma_label_read_back(v.priority);
        lemma_bool_read_back(v.completed);
        assert(items.take(k).drop_last() =~= items.take(k - 1));
        assert(items.take(k).last() == v);
        assert(items.take(k - 1).push(v) =~= items.take(k));
    }
}

/// Reading back the fields of an export restores the items exactly, in order, and the next id
/// becomes one past the largest id, provided that id is below `u64::MAX`.
pub proof fn law_csv_fields_read_back(items: Seq<ItemView>)
    requires
        labels_lowercase_as_ascii(),
        max_id_of(items) < u64::MAX,
    ensures
        import_all(exported_records(items)) == CsvImport::Reading(items, max_id_of(items)),
        !import_overflows(exported_records(items)),
{
    lemma_import_exported_upto(items, items.len() as int);
    assert(items.take(items.len() as int) =~= items);
}

/// `s` holds no line feed.
pub open spec fn no_newline(s: Seq<char>) -> bool {
    forall|i: int| 0 <= i < s.len() ==> #[trigger] s[i] != '\n'
}

/// The header line without its line feed.
pub open spec fn csv_header_line() -> Seq<char> {
    "id,title,description,priority,completed"@
}

/// Lower-casing the (ASCII) header line leaves it unchanged, as the documentation of
/// `str::to_lowercase` says of ASCII text without capitals.
pub open spec fn header_lowercases_as_ascii() -> bool {
    lowercase(csv_header_line()) == csv_header_line()
}

proof fn lemma_no_newline_concat(a: Seq<char>, b: Seq<char>)
    requires
        no_newline(a),
        no_newline(b),
    ensures
        no_newline(a + b),
{
    assert forall|i: int| 0 <= i < (a + b).len() implies #[trigger] (a + b)[i] != '\n' by {
        if i < a.len() {
            assert((a + b)[i] == a[i]);
        } else {
            assert((a + b)[i] == b[i - a.len()]);
        }
    }
}

proof fn lemma_lines_from_newline(a: Seq<char>, y: Seq<char>, cur: Seq<char>)
    requires
        no_newline(a),
    ensures
        lines_from(a + seq!['\n'] + y, cur) == seq![strip_cr(cur + a)] + lines_from(y, seq![]),
    decreases a.len(),
{
    let s = a + seq!['\n'] + y;
    if a.len() == 0 {
        assert(s[0] == '\n');
        assert(s.drop_first() =~= y);
        assert(cur + a =~= cur);
    } else {
        assert(s[0] == a[0]);
        let a2 = a.drop_first();
        assert(s.drop_first() =~= a2 + seq!['\n'] + y);
        assert(no_newline(a2)) by {
            assert forall|i: int| 0 <= i < a2.len() implies #[trigger] a2[i] != '\n' by {
                assert(a2[i] == a[i + 1]);
            }
        }
        lemma_lines_from_newline(a2, y, cur.push(a[0]));
        assert(cur.push(a[0]) + a2 =~= cur + a);
    }
}

/// The record line of an item: its exported line without the line feed.
pub open spec fn csv_record_line(v: ItemView, t: Seq<char>, d: Seq<char>) -> Seq<char> {
    decimal(v.id as nat) + seq![','] + t + seq![','] + d + seq![','] + priority_label(v.priority)
        + seq![','] + bool_text(v.completed)
}

proof fn lemma_record_line_shape(v: ItemView, t: Seq<char>, d: Seq<char>)
    requires
        no_newline(t),
        no_newline(d),
    ensures
        csv_record(v, t, d) == csv_record_line(v, t, d) + seq!['\n'],
        no_newline(csv_record_line(v, t, d)),
        csv_record_line(v, t, d).len() > 0,
        !is_whitespace(csv_record_line(v, t, d)[0]),
        !is_whitespace(csv_record_line(v, t, d).last()),
        csv_record_line(v, t, d).last() != '\r',
{
    reveal_strlit("Low");
    reveal_strlit("Medium");
    reveal_strlit("High");
    reveal_strlit("true");
    reveal_strlit("false");
    let dec = decimal(v.id as nat);
    lemma_decimal_digits(v.id as nat);
    assert(no_newline(dec)) by {
        assert forall|i: int| 0 <= i < dec.len() implies #[trigger] dec[i] != '\n' by {
            assert(is_digit(dec[i]));
        }
    }
    let comma = seq![','];
    assert(no_newline(comma));
    let lab = priority_label(v.priority);
    assert(no_newline(lab));
    let bt = bool_text(v.completed);
    assert(no_newline(bt));
    assert(bt.last() == 'e');
    lemma_no_newline_concat(dec, comma);
    lemma_no_newline_concat(dec + comma, t);
    lemma_no_newline_concat(dec + comma + t, comma);
    lemma_no_newline_concat(dec + comma + t + comma, d);
    lemma_no_newline_concat(dec + comma + t + comma + d, comma);
    lemma_no_newline_concat(dec + comma + t + comma + d + comma, lab);
    lemma_no_newline_concat(dec + comma + t + comma + d + comma + lab, comma);
    lemma_no_newline_concat(dec + comma + t + comma + d + comma + lab + comma, bt);
    let line = csv_record_line(v, t, d);
    assert(line[0] == dec[0]);
    assert(is_digit(dec[0]));
    assert(line.last() == bt.last());
}

proof fn lemma_csv_records_lines(items: Seq<ItemView>, esc: Seq<(Seq<char>, Seq<char>)>)
    requires
        esc.len() == items.len(),
        forall|k: int| 0 <= k < esc.len() ==> no_newline(#[trigger] esc[k].0) && no_newline(esc[k].1),
    ensures
        lines_from(csv_records(items, esc), seq![]) == Seq::new(
            items.len(),
            |k: int| csv_record_line(items[k], esc[k].0, esc[k].1),
        ),
        csv_records(items, esc).len() == 0 || csv_records(items, esc).last() == '\n',
    decreases items.len(),
{
    if items.len() > 0 {
        let n = items.len() as int;
        let pi = items.drop_last();
        let pe = esc.drop_last();
        assert forall|k: int| 0 <= k < pe.len() implies no_newline(#[trigger] pe[k].0) && no_newline(
            pe[k].1,
        ) by {
            assert(pe[k] == esc[k]);
        }
        lemma_csv_records_lines(pi, pe);
        let x = csv_records(pi, pe);
        let v = items.last();
        let e = esc.last();
        assert(no_newline(esc[n - 1].0) && no_newline(esc[n - 1].1));
        lemma_record_line_shape(v, e.0, e.1);
        let line = csv_record_line(v, e.0, e.1);
        assert(csv_records(items, esc) == x + (line + seq!['\n']));
        lemma_lines_from_prefix_ends(x, line);
        lemma_lines_from_newline(line, seq![], seq![]);
        assert(lines_from(Seq::<char>::empty(), seq![]) =~= Seq::<Seq<char>>::empty());
        assert(Seq::<char>::empty() + line =~= line);
        assert(line + seq!['\n'] + Seq::<char>::empty() =~= line + seq!['\n']);
        assert(lines_from(csv_records(items, esc), seq![]) =~= Seq::new(
            items.len(),
            |k: int| csv_record_line(items[k], esc[k].0, esc[k].1),
        ));
    }
}

/// Lines of `x + line + '\n'` when `x` is empty or ends in a line feed and `line` holds none.
proof fn lemma_lines_from_prefix_ends(x: Seq<char>, line: Seq<char>)
    requires
        x.len() == 0 || x.last() == '\n',
        no_newline(line),
    ensures
        lines_from(x + (line + seq!['\n']), seq![]) == lines_from(x, seq![]) + lines_from(
            line + seq!['\n'],
            seq![],
        ),
    decreases x.len(),
{
    if x.len() == 0 {
        assert(x + (line + seq!['\n']) =~= line + seq!['\n']);
        assert(lines_from(x, seq![]) =~= Seq::<Seq<char>>::empty());
    } else {
        lemma_first_newline(x, x.len() - 1);
        let i = first_newline(x);
        assert(0 <= i < x.len() && x[i] == '\n' && no_newline(x.take(i)));
        let a = x.take(i);
        let rest = x.skip(i + 1);
        let tail = line + seq!['\n'];
        assert(x =~= a + seq!['\n'] + rest);
        lemma_lines_from_newline(a, rest, seq![]);
        assert(x + tail =~= a + seq!['\n'] + (rest + tail));
        lemma_lines_from_newline(a, rest + tail, seq![]);
        if rest.len() > 0 {
            assert(rest.last() == x.last());
        }
        lemma_lines_from_prefix_ends(rest, line);
        let h = seq![strip_cr(Seq::<char>::empty() + a)];
        assert(lines_from(x + tail, seq![]) == h + lines_from(rest + tail, seq![]));
        assert(lines_from(x, seq![]) == h + lines_from(rest, seq![]));
        assert(h + (lines_from(rest, seq![]) + lines_from(tail, seq![])) =~= (h + lines_from(
            rest,
            seq![],
        )) + lines_from(tail, seq![]));
    }
}

/// The position of the first line feed of `x`, which has one.
spec fn first_newline(x: Seq<char>) -> int {
    choose|i: int| 0 <= i < x.len() && x[i] == '\n' && no_newline(x.take(i))
}

proof fn lemma_first_newline(x: Seq<char>, j: int)
    requires
        0 <= j < x.len(),
        x[j] == '\n',
    ensures
        exists|i: int| 0 <= i < x.len() && x[i] == '\n' && no_newline(x.take(i)),
    decreases j,
{
    if no_newline(x.take(j)) {
    } else {
        let k = choose|k: int| 0 <= k < x.take(j).len() && #[trigger] x.take(j)[k] == '\n';
        lemma_first_newline(x, k);
    }
}

proof fn lemma_trim_identity(s: Seq<char>)
    requires
        s.len() > 0,
        !is_whitespace(s[0]),
        !is_whitespace(s.last()),
    ensures
        trim(s) == s,
{
    assert(trim_start(s) == s);
    assert(trim_end(s) == s);
}

proof fn lemma_data_lines_after_header(ls: Seq<Seq<char>>, m: int)
    requires
        1 <= m <= ls.len(),
        is_skipped_line(0, trim(ls[0])),
        forall|k: int| 1 <= k < ls.len() ==> trim(#[trigger] ls[k]) == ls[k] && ls[k].len() > 0,
    ensures
        data_lines_upto(ls, m) == Seq::new((m - 1) as nat, |j: int| (j + 1, ls[j + 1])),
    decreases m,
{
    if m == 1 {
        assert(data_lines_upto(ls, 0) =~= Seq::<(int, Seq<char>)>::empty());
        assert(data_lines_upto(ls, 1) =~= Seq::new(0, |j: int| (j + 1, ls[j + 1])));
    } else {
        lemma_data_lines_after_header(ls, m - 1);
        assert(trim(ls[m - 1]) == ls[m - 1] && ls[m - 1].len() > 0);
        assert(!is_skipped_line(m - 1, trim(ls[m - 1])));
        assert(data_lines_upto(ls, m) =~= Seq::new((m - 1) as nat, |j: int| (j + 1, ls[j + 1])));
    }
}

/// The data lines of an export are the item lines, in order: line `k + 1` holds item `k`,
/// with its escaped columns, when no escaped column holds a line feed. (The header line is
/// skipped by its lower-cased text, which the hypothesis gives.)
pub proof fn law_csv_export_data_lines(items: Seq<ItemView>, esc: Seq<(Seq<char>, Seq<char>)>)
    requires
        esc.len() == items.len(),
        forall|k: int| 0 <= k < esc.len() ==> no_newline(#[trigger] esc[k].0) && no_newline(esc[k].1),
        header_lowercases_as_ascii(),
    ensures
        csv_data_lines_spec(csv_document(items, esc)) == Seq::new(
            items.len(),
            |k: int| (k + 1, csv_record_line(items[k], esc[k].0, esc[k].1)),
        ),
{
    reveal_strlit("id,title,description,priority,completed\n");
    reveal_strlit("id,title,description,priority,completed");
    reveal_strlit("id,");
    let h = csv_header_line();
    assert(csv_header() =~= h + seq!['\n']);
    assert(no_newline(h));
    let recs = csv_records(items, esc);
    lemma_csv_records_lines(items, esc);
    assert(csv_document(items, esc) =~= h + seq!['\n'] + recs);
    lemma_lines_from_newline(h, recs, seq![]);
    assert(Seq::<char>::empty() + h =~= h);
    assert(strip_cr(h) == h);
    let body = Seq::new(items.len(), |k: int| csv_record_line(items[k], esc[k].0, esc[k].1));
    let ls = lines(csv_document(items, esc));
    assert(ls == seq![h] + body);
    lemma_trim_identity(h);
    assert(h.take(3) =~= "id,"@);
    assert(is_skipped_line(0, trim(ls[0])));
    assert forall|k: int| 1 <= k < ls.len() implies trim(#[trigger] ls[k]) == ls[k] && ls[k].len() > 0 by {
        assert(ls[k] == body[k - 1]);
        assert(no_newline(esc[k - 1].0) && no_newline(esc[k - 1].1));
        lemma_record_line_shape(items[k - 1], esc[k - 1].0, esc[k - 1].1);
        lemma_trim_identity(ls[k]);
    }
    lemma_data_lines_after_header(ls, ls.len() as int);
    assert(csv_data_lines_spec(csv_document(items, esc)) =~= Seq::new(
        items.len(),
        |k: int| (k + 1, csv_record_line(items[k], esc[k].0, esc[k].1)),
    ));
}

/// Confirms, by calling `str::to_lowercase`, the two lower-casing facts that the laws of the
/// interchange take as hypotheses: the priority labels and the header line are lower-cased
/// as ASCII text.
pub fn confirm_ascii_lowercasing() -> (ok: bool)
    ensures
        ok,
        labels_lowercase_as_ascii(),
        header_lowercases_as_ascii(),
{
    proof {
        reveal_strlit("Low");
        reveal_strlit("low");
        reveal_strlit("Medium");
        reveal_strlit("medium");
        reveal_strlit("High");
        reveal_strlit("high");
        reveal_strlit("id,title,description,priority,completed");
    }
    let l = to_lowercase("Low");
    assert(l@ =~= "low"@);
    let m = to_lowercase("Medium");
    assert(m@ =~= "medium"@);
    let h = to_lowercase("High");
    assert(h@ =~= "high"@);
    let hd = to_lowercase("id,title,description,priority,completed");
    assert(hd@ =~= csv_header_line());
    true
}

} // verus!

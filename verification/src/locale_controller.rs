use vstd::prelude::*;
use vstd::string::StrSliceExecFns;
use vstd::string::StringExecFns;
use crate::LocaleError;
use crate::LoadFailure;
use crate::game_controller::GameController;
use crate::game_controller::get_locale_path;
use crate::text::str_eq;
use crate::text::spec_names_view;

verus! {

// Tables are `;`-delimited files with one header row. The parsing itself
// is the csv crate's; everything read out of the parsed rows — column
// resolution, locale filtering, entry construction — is verified here.

/// What the csv parse of a `;`-delimited buffer yields: the rows, each a
/// sequence of cells, or nothing when the buffer is rejected (a record
/// whose field count differs from the first record's, or a quoting
/// fault). A pure function of the bytes.
pub uninterp spec fn csv_rows(data: Seq<u8>) -> Option<Seq<Seq<Seq<char>>>>;

/// The cell characters of one parsed row.
pub open spec fn spec_rows_view(rows: Seq<Vec<String>>) -> Seq<Seq<Seq<char>>> {
    Seq::new(rows.len(), |i: int| spec_names_view(rows[i]@))
}

/// Relies on csv::ReaderBuilder and csv::Reader: parsing an in-memory
/// buffer with delimiter `;` and no header handling is deterministic in
/// the bytes; a record of unequal field count is reported as an error.
#[verifier::external_body]
fn parse_table(data: &Vec<u8>) -> (r: Option<Vec<Vec<String>>>)
    ensures
        match r {
            Some(rows) => csv_rows(data@) == Some(spec_rows_view(rows@)),
            None => csv_rows(data@) is None,
        },
{
    let mut reader = csv::ReaderBuilder::new().has_headers(false).delimiter(b';').from_reader(
        data.as_slice(),
    );
    let mut rows: Vec<Vec<String>> = Vec::new();
    for record in reader.records() {
        match record {
            Ok(rec) => rows.push(rec.iter().map(|cell| cell.to_string()).collect()),
            Err(_) => return None,
        }
    }
    Some(rows)
}

/// What reading the first record of a `;`-delimited buffer yields: the
/// header row's cells, an empty row for an empty buffer, or nothing when
/// the first record is rejected (text that is not UTF-8). Rows after the
/// first play no part. A pure function of the bytes.
pub uninterp spec fn csv_header(data: Seq<u8>) -> Option<Seq<Seq<char>>>;

/// Relies on csv::Reader::headers: only the first record is read, it is
/// deterministic in the bytes, and an empty buffer gives an empty record.
#[verifier::external_body]
fn parse_header(data: &Vec<u8>) -> (r: Option<Vec<String>>)
    ensures
        match r {
            Some(cells) => csv_header(data@) == Some(spec_names_view(cells@)),
            None => csv_header(data@) is None,
        },
{
    let mut reader = csv::ReaderBuilder::new().has_headers(true).delimiter(b';').from_reader(
        data.as_slice(),
    );
    match reader.headers() {
        Ok(record) => Some(record.iter().map(|cell| cell.to_string()).collect()),
        Err(_) => None,
    }
}

/// The header cell that marks the row-identifier column.
pub open spec fn spec_id_header() -> Seq<char> {
    "<ID|readonly|noverify>"@
}

/// The header cell that marks the comments column.
pub open spec fn spec_comments_header() -> Seq<char> {
    "<Comments>"@
}

/// The header cell that marks the length-restriction column.
pub open spec fn spec_max_chars_header() -> Seq<char> {
    "<max_chars>"@
}

/// The decorated header cell of a locale column: `<` + locale + `>`.
pub open spec fn spec_locale_header(locale: Seq<char>) -> Seq<char> {
    seq!['<'] + locale + seq!['>']
}

/// Builds the decorated header cell looked up for a locale.
pub fn locale_header_name(locale: &str) -> (r: String)
    ensures
        r@ == spec_locale_header(locale@),
{
    let mut s: String = "<".to_owned();
    s.append(locale);
    s.append(">");
    proof {
        reveal_strlit("<");
        reveal_strlit(">");
        assert(s@ =~= spec_locale_header(locale@));
    }
    s
}

/// First cell at or after `i` equal to `name`, or the row's length.
pub open spec fn spec_find_cell(row: Seq<Seq<char>>, name: Seq<char>, i: int) -> int
    decreases row.len() - i
        when 0 <= i <= row.len()
{
    if i >= row.len() {
        row.len() as int
    } else if row[i] == name {
        i
    } else {
        spec_find_cell(row, name, i + 1)
    }
}

/// Position of `name` among the header cells, or their number when absent.
fn find_header(headers: &Vec<String>, name: &str) -> (r: usize)
    ensures
        r == spec_find_cell(spec_names_view(headers@), name@, 0),
        r <= headers@.len(),
{
    let ghost h = spec_names_view(headers@);
    let mut i: usize = 0;
    while i < headers.len()
        invariant
            i <= headers@.len(),
            h == spec_names_view(headers@),
            spec_find_cell(h, name@, 0) == spec_find_cell(h, name@, i as int),
        decreases headers@.len() - i,
    {
        if str_eq(headers[i].as_str(), name) {
            proof {
                assert(h[i as int] == name@);
            }
            return i;
        }
        i = i + 1;
    }
    i
}

/// One of the three reserved header cells, which never name a locale.
pub open spec fn spec_reserved_header(cell: Seq<char>) -> bool {
    cell == spec_id_header() || cell == spec_comments_header() || cell == spec_max_chars_header()
}

fn is_reserved_header(cell: &str) -> (r: bool)
    ensures
        r == spec_reserved_header(cell@),
{
    str_eq(cell, "<ID|readonly|noverify>") || str_eq(cell, "<Comments>") || str_eq(
        cell,
        "<max_chars>",
    )
}

/// The cell with every `<` and `>` removed, from position `i` on.
pub open spec fn spec_strip_from(cell: Seq<char>, i: int) -> Seq<char>
    decreases cell.len() - i
        when 0 <= i <= cell.len()
{
    if i >= cell.len() {
        Seq::empty()
    } else if cell[i] == '<' || cell[i] == '>' {
        spec_strip_from(cell, i + 1)
    } else {
        seq![cell[i]] + spec_strip_from(cell, i + 1)
    }
}

/// Removes the angle-bracket decoration from a header cell.
fn strip_brackets(cell: &str) -> (r: String)
    ensures
        r@ == spec_strip_from(cell@, 0),
{
    let n = cell.unicode_len();
    let mut out = String::new();
    let mut i: usize = 0;
    proof {
        assert(out@ + spec_strip_from(cell@, 0) =~= spec_strip_from(cell@, 0));
    }
    while i < n
        invariant
            i <= n,
            n == cell@.len(),
            out@ + spec_strip_from(cell@, i as int) == spec_strip_from(cell@, 0),
        decreases n - i,
    {
        let c = cell.get_char(i);
        if c != '<' && c != '>' {
            let ghost out0 = out@;
            out.append(cell.substring_char(i, i + 1));
            proof {
                assert(cell@.subrange(i as int, i + 1) =~= seq![cell@[i as int]]);
                assert(out@ + spec_strip_from(cell@, i + 1) =~= out0 + (seq![cell@[i as int]]
                    + spec_strip_from(cell@, i + 1)));
            }
        }
        i = i + 1;
    }
    proof {
        assert(out@ + spec_strip_from(cell@, n as int) =~= out@);
    }
    out
}

/// The locale identifiers read off a header row: every cell but the three
/// reserved ones, in column order, decoration stripped.
pub open spec fn spec_locales_from_header(h: Seq<Seq<char>>, i: int) -> Seq<Seq<char>>
    decreases h.len() - i
        when 0 <= i <= h.len()
{
    if i >= h.len() {
        Seq::empty()
    } else if spec_reserved_header(h[i]) {
        spec_locales_from_header(h, i + 1)
    } else {
        seq![spec_strip_from(h[i], 0)] + spec_locales_from_header(h, i + 1)
    }
}

/// The whole outcome of reading the menu table for its locale list:
/// only the header row is consulted.
pub open spec fn spec_available_locales(header_opt: Option<Seq<Seq<char>>>) -> Result<
    Seq<Seq<char>>,
    LoadFailure,
> {
    match header_opt {
        None => Err(LoadFailure::MalformedRow),
        Some(h) => Ok(spec_locales_from_header(h, 0)),
    }
}

/// Decimal digit.
pub open spec fn spec_is_digit(c: char) -> bool {
    0x30 <= c as u32 <= 0x39
}

/// Every character of `s` is a decimal digit.
pub open spec fn spec_digits(s: Seq<char>) -> bool {
    forall|j: int| 0 <= j < s.len() ==> spec_is_digit(s[j])
}

/// The number the first `i` characters of `s` denote in decimal.
pub open spec fn spec_dec_val(s: Seq<char>, i: int) -> int
    decreases i
        when 0 <= i <= s.len()
{
    if i <= 0 {
        0
    } else {
        spec_dec_val(s, i - 1) * 10 + (s[i - 1] as u32 - 0x30)
    }
}

proof fn lemma_dec_val_grows(s: Seq<char>, a: int, b: int)
    requires
        0 <= a <= b <= s.len(),
        spec_dec_val(s, a) >= 0,
        forall|j: int| a <= j < b ==> spec_is_digit(s[j]),
    ensures
        spec_dec_val(s, b) >= spec_dec_val(s, a),
    decreases b - a,
{
    if a < b {
        lemma_dec_val_grows(s, a, b - 1);
    }
}

/// `str::parse::<u32>` semantics: an optional leading `+`, then at least
/// one decimal digit, nothing else, and a value no greater than
/// `u32::MAX`.
pub open spec fn spec_parse_u32(s: Seq<char>) -> Option<u32> {
    let t = if s.len() > 0 && s[0] == '+' {
        s.subrange(1, s.len() as int)
    } else {
        s
    };
    if t.len() > 0 && spec_digits(t) && spec_dec_val(t, t.len() as int) <= u32::MAX {
        Some(spec_dec_val(t, t.len() as int) as u32)
    } else {
        None
    }
}

/// A cell's length restriction: its number, with an empty, malformed or
/// overlarge cell standing for 0, "no restriction".
pub open spec fn spec_max_chars_of(cell: Seq<char>) -> u32 {
    match spec_parse_u32(cell) {
        Some(v) => v,
        None => 0,
    }
}

/// Reads a length restriction the way `str::parse::<u32>().ok()` does,
/// defaulting to 0 on any failure.
pub fn parse_max_chars(s: &str) -> (r: u32)
    ensures
        r == spec_max_chars_of(s@),
{
    let n = s.unicode_len();
    let mut i: usize = 0;
    if n > 0 && s.get_char(0) == '+' {
        i = 1;
    }
    let ghost start = i as int;
    let ghost t = s@.subrange(start, n as int);
    proof {
        if start == 0 {
            assert(t =~= s@);
        }
    }
    if i >= n {
        return 0;
    }
    let mut acc: u32 = 0;
    while i < n
        invariant
            start <= i <= n,
            n == s@.len(),
            0 <= start <= 1,
            t == s@.subrange(start, n as int),
            t == (if s@.len() > 0 && s@[0] == '+' {
                s@.subrange(1, s@.len() as int)
            } else {
                s@
            }),
            forall|j: int| 0 <= j < i - start ==> spec_is_digit(t[j]),
            acc == spec_dec_val(t, i - start),
        decreases n - i,
    {
        let c = s.get_char(i);
        let u = c as u32;
        if u < 0x30 || u > 0x39 {
            proof {
                assert(t[i - start] == s@[i as int]);
                assert(!spec_is_digit(t[i - start]));
            }
            return 0;
        }
        let d = u - 0x30;
        if acc > (u32::MAX - d) / 10 {
            proof {
                assert(spec_dec_val(t, i - start + 1) == acc * 10 + d);
                assert(acc * 10 + d > u32::MAX) by (nonlinear_arith)
                    requires
                        acc > (u32::MAX - d) / 10,
                        d <= 9,
                {}
                if spec_digits(t) {
                    lemma_dec_val_grows(t, i - start + 1, t.len() as int);
                }
            }
            return 0;
        }
        proof {
            assert(acc * 10 + d <= u32::MAX) by (nonlinear_arith)
                requires
                    acc <= (u32::MAX - d) / 10,
                    d <= 9,
            {}
            assert(spec_dec_val(t, i - start + 1) == acc * 10 + d);
        }
        acc = acc * 10 + d;
        i = i + 1;
    }
    proof {
        assert(spec_digits(t));
        assert(spec_parse_u32(s@) == Some(acc));
    }
    acc
}

/// One text entry resolved for one locale.
#[derive(Debug, Clone)]
pub struct LocaleText {
    pub lang: String,
    pub tag: String,
    pub text: String,
    pub category: String,
    pub max_chars: u32,
}

/// Spec-level image of `LocaleText`.
pub ghost struct TextEntry {
    pub lang: Seq<char>,
    pub tag: Seq<char>,
    pub text: Seq<char>,
    pub category: Seq<char>,
    pub max_chars: u32,
}

impl View for LocaleText {
    type V = TextEntry;

    open spec fn view(&self) -> TextEntry {
        TextEntry {
            lang: self.lang@,
            tag: self.tag@,
            text: self.text@,
            category: self.category@,
            max_chars: self.max_chars,
        }
    }
}

pub open spec fn spec_entries_view(es: Seq<LocaleText>) -> Seq<TextEntry> {
    Seq::new(es.len(), |i: int| es[i]@)
}

/// The cell at `i`, or nothing when the row is shorter.
pub open spec fn spec_cell(row: Seq<Seq<char>>, i: int) -> Seq<char> {
    if 0 <= i < row.len() {
        row[i]
    } else {
        Seq::empty()
    }
}

/// What one data row yields once the three columns are resolved.
pub open spec fn spec_row_entry(
    row: Seq<Seq<char>>,
    locale: Seq<char>,
    category: Seq<char>,
    tag_i: int,
    loc_i: int,
    max_i: int,
) -> TextEntry {
    TextEntry {
        lang: locale,
        tag: spec_cell(row, tag_i),
        text: spec_cell(row, loc_i),
        category: category,
        max_chars: spec_max_chars_of(spec_cell(row, max_i)),
    }
}

/// The whole outcome of loading one category's table for one locale, for
/// every outcome of the underlying parse: a missing identifier, locale or
/// length column aborts the category (in that order of checks), otherwise
/// every data row yields exactly one entry.
pub open spec fn spec_category_load(
    rows_opt: Option<Seq<Seq<Seq<char>>>>,
    locale: Seq<char>,
    category: Seq<char>,
) -> Result<Seq<TextEntry>, LoadFailure> {
    match rows_opt {
        None => Err(LoadFailure::MalformedRow),
        Some(rows) => {
            let h = if rows.len() > 0 {
                rows[0]
            } else {
                Seq::empty()
            };
            let tag_i = spec_find_cell(h, spec_id_header(), 0);
            let loc_i = spec_find_cell(h, spec_locale_header(locale), 0);
            let max_i = spec_find_cell(h, spec_max_chars_header(), 0);
            if tag_i == h.len() {
                Err(LoadFailure::ColumnNotFound(spec_id_header()))
            } else if loc_i == h.len() {
                Err(LoadFailure::ColumnNotFound(spec_locale_header(locale)))
            } else if max_i == h.len() {
                Err(LoadFailure::ColumnNotFound(spec_max_chars_header()))
            } else {
                Ok(
                    Seq::new(
                        (rows.len() - 1) as nat,
                        |i: int| spec_row_entry(rows[i + 1], locale, category, tag_i, loc_i, max_i),
                    ),
                )
            }
        },
    }
}

/// A menu header row of the shape
/// `<ID|readonly|noverify>;<en>;<ru>;<Comments>;<max_chars>` yields
/// exactly the locales `en` and `ru`, in that order.
pub proof fn lemma_menu_header_locales(h: Seq<Seq<char>>)
    requires
        h == seq![
            "<ID|readonly|noverify>"@,
            "<en>"@,
            "<ru>"@,
            "<Comments>"@,
            "<max_chars>"@,
        ],
    ensures
        spec_available_locales(Some(h)) == Ok::<Seq<Seq<char>>, LoadFailure>(
            seq!["en"@, "ru"@],
        ),
{
    reveal_strlit("<ID|readonly|noverify>");
    reveal_strlit("<Comments>");
    reveal_strlit("<max_chars>");
    reveal_strlit("<en>");
    reveal_strlit("<ru>");
    reveal_strlit("en");
    reveal_strlit("ru");

    assert("<en>"@.len() == 4);
    assert("<ru>"@.len() == 4);
    assert("<ID|readonly|noverify>"@.len() == 22);
    assert("<Comments>"@.len() == 10);
    assert("<max_chars>"@.len() == 11);
    assert(!spec_reserved_header("<en>"@));
    assert(!spec_reserved_header("<ru>"@));
    assert(spec_strip_from("<en>"@, 0) =~= "en"@) by {
        reveal_with_fuel(spec_strip_from, 6);
    }
    assert(spec_strip_from("<ru>"@, 0) =~= "ru"@) by {
        reveal_with_fuel(spec_strip_from, 6);
    }
    assert(spec_locales_from_header(h, 0) =~= seq!["en"@, "ru"@]) by {
        reveal_with_fuel(spec_locales_from_header, 7);
    }
}

/// A category table whose header lacks the requested locale's column
/// fails with `ColumnNotFound` naming that column — never a partial or
/// silently empty row set. (A table also lacking the identifier column
/// reports that column instead, as the checks run in that order.)
pub proof fn lemma_missing_locale_column(
    rows: Seq<Seq<Seq<char>>>,
    locale: Seq<char>,
    category: Seq<char>,
)
    requires
        rows.len() > 0,
        spec_find_cell(rows[0], spec_id_header(), 0) < rows[0].len(),
        spec_find_cell(rows[0], spec_locale_header(locale), 0) == rows[0].len(),
    ensures
        spec_category_load(Some(rows), locale, category) == Err::<Seq<TextEntry>, LoadFailure>(
            LoadFailure::ColumnNotFound(spec_locale_header(locale)),
        ),
{
}

/// Loading the same (locale, category) pair against unchanged table
/// bytes is reproducible: the outcome is a function of the bytes and the
/// pair alone, so two loads yield identical entry sequences.
pub proof fn lemma_category_load_deterministic(
    data: Seq<u8>,
    locale: Seq<char>,
    category: Seq<char>,
    r1: Result<Seq<TextEntry>, LoadFailure>,
    r2: Result<Seq<TextEntry>, LoadFailure>,
)
    requires
        r1 == spec_category_load(csv_rows(data), locale, category),
        r2 == spec_category_load(csv_rows(data), locale, category),
    ensures
        r1 == r2,
{
}

/// A cell by position, cloned, with a too-short row giving the empty
/// string.
fn cell_or_empty(row: &Vec<String>, i: usize) -> (r: String)
    ensures
        r@ == spec_cell(spec_names_view(row@), i as int),
{
    if i < row.len() {
        row[i].clone()
    } else {
        String::new()
    }
}

/// The length restriction of a row, from the resolved column.
fn max_chars_of_row(row: &Vec<String>, i: usize) -> (r: u32)
    ensures
        r == spec_max_chars_of(spec_cell(spec_names_view(row@), i as int)),
{
    if i < row.len() {
        parse_max_chars(row[i].as_str())
    } else {
        proof {
            assert(spec_cell(spec_names_view(row@), i as int) =~= Seq::<char>::empty());
        }
        0
    }
}

/// Loading every category in `tables` order, entries concatenated; the
/// first failing category fails the whole load.
pub open spec fn spec_texts_load_from(
    tables: Seq<(Seq<char>, Seq<u8>)>,
    locale: Seq<char>,
    i: int,
) -> Result<Seq<TextEntry>, LoadFailure>
    decreases tables.len() - i
        when 0 <= i <= tables.len()
{
    if i >= tables.len() {
        Ok(Seq::empty())
    } else {
        match spec_category_load(csv_rows(tables[i].1), locale, tables[i].0) {
            Err(f) => Err(f),
            Ok(es) => match spec_texts_load_from(tables, locale, i + 1) {
                Err(f) => Err(f),
                Ok(rest) => Ok(es + rest),
            },
        }
    }
}

/// The category names and table bytes of a table vector.
pub open spec fn spec_tables_view(tables: Seq<(String, Vec<u8>)>) -> Seq<(Seq<char>, Seq<u8>)> {
    Seq::new(tables.len(), |i: int| (tables[i].0@, tables[i].1@))
}

/// Whether `name` is `<stem>.csv` with a stem that is neither empty nor
/// the reserved `_missing` bucket. The separating dot is the last one,
/// and a leading dot separates nothing.
pub open spec fn spec_last_dot_before(name: Seq<char>, i: int) -> int
    decreases i
        when 0 <= i <= name.len()
{
    if i <= 1 {
        0
    } else if name[i - 1] == '.' {
        i - 1
    } else {
        spec_last_dot_before(name, i - 1)
    }
}

pub open spec fn spec_last_dot(name: Seq<char>) -> int {
    spec_last_dot_before(name, name.len() as int)
}

pub open spec fn spec_is_category_file(name: Seq<char>) -> bool {
    let d = spec_last_dot(name);
    &&& d > 0
    &&& name.subrange(d + 1, name.len() as int) == "csv"@
    &&& name.subrange(0, d) != "_missing"@
}

pub open spec fn spec_category_of(name: Seq<char>) -> Seq<char> {
    name.subrange(0, spec_last_dot(name))
}

/// The categories read off a directory listing, in listing order.
pub open spec fn spec_categories_from(names: Seq<Seq<char>>, i: int) -> Seq<Seq<char>>
    decreases names.len() - i
        when 0 <= i <= names.len()
{
    if i >= names.len() {
        Seq::empty()
    } else if spec_is_category_file(names[i]) {
        seq![spec_category_of(names[i])] + spec_categories_from(names, i + 1)
    } else {
        spec_categories_from(names, i + 1)
    }
}

/// Position of the dot separating the extension, or 0 when there is none.
fn last_dot(name: &str) -> (d: usize)
    ensures
        d == spec_last_dot(name@),
        d == 0 || (0 < d < name@.len() && name@[d as int] == '.'),
{
    let n = name.unicode_len();
    let mut i: usize = n;
    while i > 1
        invariant
            i <= n,
            n == name@.len(),
            spec_last_dot_before(name@, n as int) == spec_last_dot_before(name@, i as int),
        decreases i,
    {
        if name.get_char(i - 1) == '.' {
            return i - 1;
        }
        i = i - 1;
    }
    0
}

/// The category `name` stands for, when it is a category file.
fn category_of_name(name: &str) -> (r: Option<String>)
    ensures
        match r {
            Some(stem) => spec_is_category_file(name@) && stem@ == spec_category_of(name@),
            None => !spec_is_category_file(name@),
        },
{
    let n = name.unicode_len();
    let d = last_dot(name);
    if d == 0 {
        return None;
    }
    let ext = name.substring_char(d + 1, n);
    if !str_eq(ext, "csv") {
        return None;
    }
    let stem = name.substring_char(0, d);
    if str_eq(stem, "_missing") {
        return None;
    }
    Some(stem.to_owned())
}

/// Enumerates available locale identifiers and categories and loads the
/// per-category tables of a locale directory.
pub struct LocaleController {
    locale_path: String,
}

impl LocaleController {
    /// The characters of the locale directory path.
    pub closed spec fn path(&self) -> Seq<char> {
        self.locale_path@
    }

    /// Derives the locale directory from the installation root.
    pub fn new(game_controller: &GameController) -> (r: Self)
        ensures
            r.path() == game_controller.path() + "/lang"@,
    {
        LocaleController { locale_path: get_locale_path(game_controller) }
    }

    /// `<localeDir>/menu.csv`, the menu table's place.
    pub fn menu_csv_path(&self) -> (r: String)
        ensures
            r@ == self.path() + "/menu.csv"@,
    {
        self.locale_path.clone().concat("/menu.csv")
    }

    /// `<localeDir>/<category>.csv`, a category table's place.
    pub fn category_csv_path(&self, category: &str) -> (r: String)
        ensures
            r@ == self.path() + "/"@ + category@ + ".csv"@,
    {
        self.locale_path.clone().concat("/").concat(category).concat(".csv")
    }

    /// The locale identifiers of the menu table, in column order. Only
    /// the header row is read; `menu_data` holds the bytes of
    /// `menu.csv`. A header that cannot be read is a hard error, never
    /// an empty list.
    pub fn get_available_locales(&self, menu_data: &Vec<u8>) -> (r: Result<
        Vec<String>,
        LocaleError,
    >)
        ensures
            match r {
                Ok(locales) => spec_available_locales(csv_header(menu_data@)) == Ok::<
                    Seq<Seq<char>>,
                    LoadFailure,
                >(spec_names_view(locales@)),
                Err(e) => spec_available_locales(csv_header(menu_data@)) == Err::<
                    Seq<Seq<char>>,
                    LoadFailure,
                >(e@),
            },
    {
        let header = match parse_header(menu_data) {
            Some(cells) => cells,
            None => {
                return Err(LocaleError::MalformedRow);
            },
        };
        let mut locales: Vec<String> = Vec::new();
        let ghost h = spec_names_view(header@);
        let mut i: usize = 0;
        proof {
            assert(spec_names_view(locales@) + spec_locales_from_header(h, 0)
                =~= spec_locales_from_header(h, 0));
        }
        while i < header.len()
            invariant
                i <= header@.len(),
                h == spec_names_view(header@),
                spec_names_view(locales@) + spec_locales_from_header(h, i as int)
                    == spec_locales_from_header(h, 0),
            decreases header@.len() - i,
        {
            if !is_reserved_header(header[i].as_str()) {
                let ghost l0 = spec_names_view(locales@);
                locales.push(strip_brackets(header[i].as_str()));
                proof {
                    assert(spec_names_view(locales@) =~= l0.push(spec_strip_from(h[i as int], 0)));
                    assert(spec_names_view(locales@) + spec_locales_from_header(h, i + 1) =~= l0 + (
                    seq![spec_strip_from(h[i as int], 0)] + spec_locales_from_header(h, i + 1)));
                }
            }
            i = i + 1;
        }
        proof {
            assert(spec_names_view(locales@) + spec_locales_from_header(h, header@.len() as int)
                =~= spec_names_view(locales@));
        }
        Ok(locales)
    }

    /// The categories present in the locale directory: one per `.csv`
    /// file whose stem is not reserved, in listing order. `file_names`
    /// holds the directory's entry names.
    pub fn get_locale_categories(&self, file_names: &Vec<String>) -> (r: Vec<String>)
        ensures
            spec_names_view(r@) == spec_categories_from(spec_names_view(file_names@), 0),
    {
        let ghost nv = spec_names_view(file_names@);
        let mut categories: Vec<String> = Vec::new();
        let mut i: usize = 0;
        proof {
            assert(spec_names_view(categories@) + spec_categories_from(nv, 0)
                =~= spec_categories_from(nv, 0));
        }
        while i < file_names.len()
            invariant
                i <= file_names@.len(),
                nv == spec_names_view(file_names@),
                spec_names_view(categories@) + spec_categories_from(nv, i as int)
                    == spec_categories_from(nv, 0),
            decreases file_names@.len() - i,
        {
            match category_of_name(file_names[i].as_str()) {
                Some(stem) => {
                    let ghost c0 = spec_names_view(categories@);
                    let ghost stem_v = stem@;
                    categories.push(stem);
                    proof {
                        assert(spec_names_view(categories@) =~= c0.push(stem_v));
                        assert(spec_names_view(categories@) + spec_categories_from(nv, i + 1) =~= c0
                            + (seq![spec_category_of(nv[i as int])] + spec_categories_from(
                            nv,
                            i + 1,
                        )));
                    }
                },
                None => {},
            }
            i = i + 1;
        }
        proof {
            assert(spec_names_view(categories@) + spec_categories_from(nv, file_names@.len() as int)
                =~= spec_names_view(categories@));
        }
        categories
    }

    /// Loads one category's table for one locale. `data` holds the bytes
    /// of `<category>.csv`. A missing required column or a malformed
    /// table aborts the whole category; no partial row set is returned.
    pub fn get_locale_text_for_category(
        &self,
        locale: &String,
        category: &String,
        data: &Vec<u8>,
    ) -> (r: Result<Vec<LocaleText>, LocaleError>)
        ensures
            match r {
                Ok(entries) => spec_category_load(csv_rows(data@), locale@, category@) == Ok::<
                    Seq<TextEntry>,
                    LoadFailure,
                >(spec_entries_view(entries@)),
                Err(e) => spec_category_load(csv_rows(data@), locale@, category@) == Err::<
                    Seq<TextEntry>,
                    LoadFailure,
                >(e@),
            },
    {
        let rows = match parse_table(data) {
            Some(rows) => rows,
            None => {
                return Err(LocaleError::MalformedRow);
            },
        };
        let ghost rv = spec_rows_view(rows@);
        if rows.len() == 0 {
            proof {
                assert(spec_find_cell(Seq::<Seq<char>>::empty(), spec_id_header(), 0) == 0);
            }
            return Err(LocaleError::ColumnNotFound("<ID|readonly|noverify>".to_owned()));
        }
        let header = &rows[0];
        let ghost h = rv[0];
        proof {
            assert(h == spec_names_view(header@));
        }
        let tag_i = find_header(header, "<ID|readonly|noverify>");
        if tag_i == header.len() {
            return Err(LocaleError::ColumnNotFound("<ID|readonly|noverify>".to_owned()));
        }
        let loc_name = locale_header_name(locale.as_str());
        let loc_i = find_header(header, loc_name.as_str());
        if loc_i == header.len() {
            return Err(LocaleError::ColumnNotFound(loc_name));
        }
        let max_i = find_header(header, "<max_chars>");
        if max_i == header.len() {
            return Err(LocaleError::ColumnNotFound("<max_chars>".to_owned()));
        }
        let mut entries: Vec<LocaleText> = Vec::new();
        let mut i: usize = 1;
        while i < rows.len()
            invariant
                1 <= i <= rows@.len(),
                rv == spec_rows_view(rows@),
                entries@.len() == i - 1,
                (tag_i as int) < rv[0].len(),
                (loc_i as int) < rv[0].len(),
                (max_i as int) < rv[0].len(),
                forall|j: int|
                    0 <= j < i - 1 ==> spec_entries_view(entries@)[j] == spec_row_entry(
                        rv[j + 1],
                        locale@,
                        category@,
                        tag_i as int,
                        loc_i as int,
                        max_i as int,
                    ),
            decreases rows@.len() - i,
        {
            let row = &rows[i];
            let e = LocaleText {
                lang: locale.clone(),
                tag: cell_or_empty(row, tag_i),
                text: cell_or_empty(row, loc_i),
                category: category.clone(),
                max_chars: max_chars_of_row(row, max_i),
            };
            proof {
                assert(rv[i as int] == spec_names_view(rows@[i as int]@));
                assert(e@ == spec_row_entry(
                    rv[i as int],
                    locale@,
                    category@,
                    tag_i as int,
                    loc_i as int,
                    max_i as int,
                ));
            }
            let ghost pre = entries@;
            let ghost ev = e@;
            entries.push(e);
            proof {
                assert forall|j: int| 0 <= j < i implies spec_entries_view(entries@)[j]
                    == spec_row_entry(
                    rv[j + 1],
                    locale@,
                    category@,
                    tag_i as int,
                    loc_i as int,
                    max_i as int,
                ) by {
                    if j < i - 1 {
                        assert(entries@[j] == pre[j]);
                        assert(spec_entries_view(pre)[j] == spec_row_entry(
                            rv[j + 1],
                            locale@,
                            category@,
                            tag_i as int,
                            loc_i as int,
                            max_i as int,
                        ));
                    } else {
                        assert(entries@[j]@ == ev);
                    }
                }
            }
            i = i + 1;
        }
        proof {
            let expected = spec_category_load(csv_rows(data@), locale@, category@);
            assert(spec_entries_view(entries@) =~= expected->Ok_0);
        }
        Ok(entries)
    }

    /// Loads every category of `tables` in order for one locale and
    /// concatenates the entries; the first failing category's error is
    /// the whole load's.
    pub fn get_locale_texts(&self, locale: &String, tables: &Vec<(String, Vec<u8>)>) -> (r: Result<
        Vec<LocaleText>,
        LocaleError,
    >)
        ensures
            match r {
                Ok(entries) => spec_texts_load_from(spec_tables_view(tables@), locale@, 0) == Ok::<
                    Seq<TextEntry>,
                    LoadFailure,
                >(spec_entries_view(entries@)),
                Err(e) => spec_texts_load_from(spec_tables_view(tables@), locale@, 0) == Err::<
                    Seq<TextEntry>,
                    LoadFailure,
                >(e@),
            },
    {
        let ghost tv = spec_tables_view(tables@);
        let mut entries: Vec<LocaleText> = Vec::new();
        let mut i: usize = 0;
        proof {
            assert(spec_entries_view(entries@) =~= Seq::<TextEntry>::empty());
        }
        while i < tables.len()
            invariant
                i <= tables@.len(),
                tv == spec_tables_view(tables@),
                match spec_texts_load_from(tv, locale@, i as int) {
                    Ok(rest) => spec_texts_load_from(tv, locale@, 0) == Ok::<
                        Seq<TextEntry>,
                        LoadFailure,
                    >(spec_entries_view(entries@) + rest),
                    Err(f) => spec_texts_load_from(tv, locale@, 0) == Err::<
                        Seq<TextEntry>,
                        LoadFailure,
                    >(f),
                },
            decreases tables@.len() - i,
        {
            match self.get_locale_text_for_category(locale, &tables[i].0, &tables[i].1) {
                Ok(mut es) => {
                    let ghost pre = spec_entries_view(entries@);
                    let ghost esv = spec_entries_view(es@);
                    entries.append(&mut es);
                    proof {
                        assert(spec_entries_view(entries@) =~= pre + esv);
                        if spec_texts_load_from(tv, locale@, i + 1) is Ok {
                            assert((pre + esv) + spec_texts_load_from(tv, locale@, i + 1)->Ok_0
                                =~= pre + (esv + spec_texts_load_from(tv, locale@, i + 1)->Ok_0));
                        }
                    }
                },
                Err(e) => {
                    return Err(e);
                },
            }
            i = i + 1;
        }
        proof {
            assert(spec_entries_view(entries@) + Seq::<TextEntry>::empty() =~= spec_entries_view(
                entries@,
            ));
        }
        Ok(entries)
    }
}

} // verus!

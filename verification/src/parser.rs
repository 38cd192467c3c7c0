//! The table parser: comma-separated tabular text to a [`LangTable`].
//!
//! The text is read character by character through a small state machine
//! that understands standard quoting: fields are separated by `,`, records
//! end at a line break (`\n` or `\r\n`), a field wrapped in double quotes may
//! hold separators and line breaks, and a doubled quote inside a quoted
//! field stands for one literal quote. The machine's single-step transition
//! is a spec function, and the executable parser is proved to follow it
//! exactly, so parsing is a pure function of the input text.

use vstd::prelude::*;

use crate::table::LangTable;
use crate::table::TableView;

verus! {

/// Why a text was rejected.
///
/// `Malformed` covers text that cannot be tokenized as tabular data: an
/// unterminated quoted field, a stray character after a closing quote, or a
/// carriage return that no line feed follows. `MissingHeader` covers text
/// whose header row is absent or too short to hold the two reserved columns
/// (keyword and note).
#[derive(Clone, Copy, Debug, PartialEq, Eq, Structural)]
pub enum ParseError {
    Malformed,
    MissingHeader,
}

/// Where the scanner stands inside the text.
#[derive(Clone, Copy, Debug, PartialEq, Eq, Structural)]
pub enum CsvMode {
    /// At the start of a field; nothing of it read yet.
    FieldStart,
    /// Inside an unquoted field.
    Unquoted,
    /// Inside a quoted field, past the opening quote.
    Quoted,
    /// Just past a quote inside a quoted field: it closed the field unless
    /// another quote follows.
    QuoteEnd,
    /// Just past a carriage return on a blank line; only a line feed may follow.
    CrBlank,
    /// Just past a carriage return that ends a record; only a line feed may follow.
    CrEnd,
}

/// Mathematical model of the scanner's state.
pub struct CsvStateView {
    pub records: Seq<Seq<Seq<char>>>,
    pub fields: Seq<Seq<char>>,
    pub field: Seq<char>,
    pub mode: CsvMode,
}

/// The scanner's state: the records finished so far, the fields of the
/// record being read, the characters of the field being read, and the mode.
pub struct CsvState {
    pub records: Vec<Vec<String>>,
    pub fields: Vec<String>,
    pub field: String,
    pub mode: CsvMode,
}

impl View for CsvState {
    type V = CsvStateView;

    open spec fn view(&self) -> CsvStateView {
        CsvStateView {
            records: self.records.deep_view(),
            fields: self.fields.deep_view(),
            field: self.field@,
            mode: self.mode,
        }
    }
}

/// The scanner's starting state: nothing read, at the start of a field.
pub open spec fn csv_init() -> CsvStateView {
    CsvStateView {
        records: Seq::<Seq<Seq<char>>>::empty(),
        fields: Seq::<Seq<char>>::empty(),
        field: Seq::<char>::empty(),
        mode: CsvMode::FieldStart,
    }
}

/// Closes the current field and moves to `mode`.
pub open spec fn csv_end_field(st: CsvStateView, mode: CsvMode) -> CsvStateView {
    CsvStateView {
        records: st.records,
        fields: st.fields.push(st.field),
        field: Seq::<char>::empty(),
        mode,
    }
}

/// Closes the current record (whose fields are all already closed).
pub open spec fn csv_emit(st: CsvStateView) -> CsvStateView {
    CsvStateView {
        records: st.records.push(st.fields),
        fields: Seq::<Seq<char>>::empty(),
        field: Seq::<char>::empty(),
        mode: CsvMode::FieldStart,
    }
}

/// Appends `c` to the current field and moves to `mode`.
pub open spec fn csv_push(st: CsvStateView, c: char, mode: CsvMode) -> CsvStateView {
    CsvStateView {
        records: st.records,
        fields: st.fields,
        field: st.field.push(c),
        mode,
    }
}

/// Keeps the state but moves to `mode`.
pub open spec fn csv_mode(st: CsvStateView, mode: CsvMode) -> CsvStateView {
    CsvStateView { records: st.records, fields: st.fields, field: st.field, mode }
}

/// One step of the scanner: the state after reading `c`, or `None` when `c`
/// makes the text malformed. A line break on a line holding nothing at all
/// yields no record; any other line break closes the current record.
pub open spec fn csv_step(st: CsvStateView, c: char) -> Option<CsvStateView> {
    match st.mode {
        CsvMode::FieldStart => {
            if c == '"' {
                Some(csv_mode(st, CsvMode::Quoted))
            } else if c == ',' {
                Some(csv_end_field(st, CsvMode::FieldStart))
            } else if c == '\n' {
                if st.fields.len() == 0 {
                    Some(st)
                } else {
                    Some(csv_emit(csv_end_field(st, CsvMode::FieldStart)))
                }
            } else if c == '\r' {
                if st.fields.len() == 0 {
                    Some(csv_mode(st, CsvMode::CrBlank))
                } else {
                    Some(csv_end_field(st, CsvMode::CrEnd))
                }
            } else {
                Some(csv_push(st, c, CsvMode::Unquoted))
            }
        },
        CsvMode::Unquoted => {
            if c == ',' {
                Some(csv_end_field(st, CsvMode::FieldStart))
            } else if c == '\n' {
                Some(csv_emit(csv_end_field(st, CsvMode::FieldStart)))
            } else if c == '\r' {
                Some(csv_end_field(st, CsvMode::CrEnd))
            } else {
                Some(csv_push(st, c, CsvMode::Unquoted))
            }
        },
        CsvMode::Quoted => {
            if c == '"' {
                Some(csv_mode(st, CsvMode::QuoteEnd))
            } else {
                Some(csv_push(st, c, CsvMode::Quoted))
            }
        },
        CsvMode::QuoteEnd => {
            if c == '"' {
                Some(csv_push(st, '"', CsvMode::Quoted))
            } else if c == ',' {
                Some(csv_end_field(st, CsvMode::FieldStart))
            } else if c == '\n' {
                Some(csv_emit(csv_end_field(st, CsvMode::FieldStart)))
            } else if c == '\r' {
                Some(csv_end_field(st, CsvMode::CrEnd))
            } else {
                None
            }
        },
        CsvMode::CrBlank => {
            if c == '\n' {
                Some(csv_mode(st, CsvMode::FieldStart))
            } else {
                None
            }
        },
        CsvMode::CrEnd => {
            if c == '\n' {
                Some(csv_emit(st))
            } else {
                None
            }
        },
    }
}

/// What the scanner yields at the end of the text: the finished records,
/// with a last record closed by the end of the text itself; or `None` when
/// the text ends inside a quoted field or just after a carriage return.
pub open spec fn csv_finish(st: CsvStateView) -> Option<Seq<Seq<Seq<char>>>> {
    match st.mode {
        CsvMode::FieldStart => {
            if st.fields.len() == 0 && st.field.len() == 0 {
                Some(st.records)
            } else {
                Some(csv_emit(csv_end_field(st, CsvMode::FieldStart)).records)
            }
        },
        CsvMode::Unquoted => Some(csv_emit(csv_end_field(st, CsvMode::FieldStart)).records),
        CsvMode::QuoteEnd => Some(csv_emit(csv_end_field(st, CsvMode::FieldStart)).records),
        CsvMode::Quoted => None,
        CsvMode::CrBlank => None,
        CsvMode::CrEnd => None,
    }
}

/// The scanner's state after the first `n` characters of `s`, or `None` as
/// soon as any step rejects.
pub open spec fn csv_scan(s: Seq<char>, n: int) -> Option<CsvStateView>
    decreases n,
{
    if n <= 0 {
        Some(csv_init())
    } else {
        match csv_scan(s, n - 1) {
            None => None,
            Some(st) => csv_step(st, s[n - 1]),
        }
    }
}

/// The records of the whole text, or `None` when it is malformed.
pub open spec fn csv_records(s: Seq<char>) -> Option<Seq<Seq<Seq<char>>>> {
    match csv_scan(s, s.len() as int) {
        None => None,
        Some(st) => csv_finish(st),
    }
}

/// Relies on String::push: appends one character to the end of the string.
#[verifier::external_body]
fn push_char(s: &mut String, c: char)
    ensures
        final(s)@ == old(s)@.push(c),
{
    s.push(c)
}

impl CsvState {
    fn init() -> (r: CsvState)
        ensures
            r@ == csv_init(),
    {
        let r = CsvState {
            records: Vec::new(),
            fields: Vec::new(),
            field: String::new(),
            mode: CsvMode::FieldStart,
        };
        proof {
            assert(r@.records =~= csv_init().records);
            assert(r@.fields =~= csv_init().fields);
        }
        r
    }

    /// Closes the current field and moves to `mode`.
    fn end_field(&mut self, mode: CsvMode)
        ensures
            final(self)@ == csv_end_field(old(self)@, mode),
    {
        let mut f = String::new();
        core::mem::swap(&mut f, &mut self.field);
        self.fields.push(f);
        self.mode = mode;
        proof {
            assert(final(self)@.fields =~= csv_end_field(old(self)@, mode).fields);
        }
    }

    /// Closes the current record.
    fn emit(&mut self)
        ensures
            final(self)@ == csv_emit(old(self)@),
    {
        let mut fs: Vec<String> = Vec::new();
        core::mem::swap(&mut fs, &mut self.fields);
        self.records.push(fs);
        self.field = String::new();
        self.mode = CsvMode::FieldStart;
        proof {
            assert(final(self)@.records =~= csv_emit(old(self)@).records);
            assert(final(self)@.fields =~= csv_emit(old(self)@).fields);
        }
    }

    /// One step of the scanner; false when `c` makes the text malformed.
    fn step(&mut self, c: char) -> (ok: bool)
        ensures
            match csv_step(old(self)@, c) {
                Some(v) => ok && final(self)@ == v,
                None => !ok,
            },
    {
        match self.mode {
            CsvMode::FieldStart => {
                if c == '"' {
                    self.mode = CsvMode::Quoted;
                } else if c == ',' {
                    self.end_field(CsvMode::FieldStart);
                } else if c == '\n' {
                    if self.fields.len() > 0 {
                        self.end_field(CsvMode::FieldStart);
                        self.emit();
                    }
                } else if c == '\r' {
                    if self.fields.len() == 0 {
                        self.mode = CsvMode::CrBlank;
                    } else {
                        self.end_field(CsvMode::CrEnd);
                    }
                } else {
                    push_char(&mut self.field, c);
                    self.mode = CsvMode::Unquoted;
                }
                true
            },
            CsvMode::Unquoted => {
                if c == ',' {
                    self.end_field(CsvMode::FieldStart);
                } else if c == '\n' {
                    self.end_field(CsvMode::FieldStart);
                    self.emit();
                } else if c == '\r' {
                    self.end_field(CsvMode::CrEnd);
                } else {
                    push_char(&mut self.field, c);
                }
                true
            },
            CsvMode::Quoted => {
                if c == '"' {
                    self.mode = CsvMode::QuoteEnd;
                } else {
                    push_char(&mut self.field, c);
                }
                true
            },
            CsvMode::QuoteEnd => {
                if c == '"' {
                    push_char(&mut self.field, '"');
                    self.mode = CsvMode::Quoted;
                    true
                } else if c == ',' {
                    self.end_field(CsvMode::FieldStart);
                    true
                } else if c == '\n' {
                    self.end_field(CsvMode::FieldStart);
                    self.emit();
                    true
                } else if c == '\r' {
                    self.end_field(CsvMode::CrEnd);
                    true
                } else {
                    false
                }
            },
            CsvMode::CrBlank => {
                if c == '\n' {
                    self.mode = CsvMode::FieldStart;
                    true
                } else {
                    false
                }
            },
            CsvMode::CrEnd => {
                if c == '\n' {
                    self.emit();
                    true
                } else {
                    false
                }
            },
        }
    }
}

/// Scans the whole text into records.
fn scan_records(text: &str) -> (r: Result<Vec<Vec<String>>, ParseError>)
    ensures
        match r {
            Ok(records) => csv_records(text@) == Some(records.deep_view()),
            Err(e) => csv_records(text@) is None && e == ParseError::Malformed,
        },
{
    let n = text.unicode_len();
    let mut st = CsvState::init();
    let mut i: usize = 0;
    while i < n
        invariant
            i <= n,
            n == text@.len(),
            csv_scan(text@, i as int) == Some(st@),
        decreases n - i,
    {
        let c = text.get_char(i);
        let ok = st.step(c);
        i = i + 1;
        if !ok {
            proof {
                lemma_scan_stuck(text@, i as int);
            }
            return Err(ParseError::Malformed);
        }
    }
    match st.mode {
        CsvMode::FieldStart => {
            if st.fields.len() == 0 && st.field.unicode_len() == 0 {
                Ok(st.records)
            } else {
                st.end_field(CsvMode::FieldStart);
                st.emit();
                Ok(st.records)
            }
        },
        CsvMode::Unquoted => {
            st.end_field(CsvMode::FieldStart);
            st.emit();
            Ok(st.records)
        },
        CsvMode::QuoteEnd => {
            st.end_field(CsvMode::FieldStart);
            st.emit();
            Ok(st.records)
        },
        CsvMode::Quoted => Err(ParseError::Malformed),
        CsvMode::CrBlank => Err(ParseError::Malformed),
        CsvMode::CrEnd => Err(ParseError::Malformed),
    }
}

/// The table entry a data row yields: its first field is the keyword, its
/// fields from the third on are the translations, in language order. A row
/// shorter than three fields yields no translations at all; a record with
/// no fields, which no scan ever produces, is read as an empty keyword.
pub open spec fn row_entry(row: Seq<Seq<char>>) -> (Seq<char>, Seq<Seq<char>>) {
    (
        if row.len() >= 1 {
            row[0]
        } else {
            Seq::<char>::empty()
        },
        if row.len() >= 2 {
            row.skip(2)
        } else {
            Seq::<Seq<char>>::empty()
        },
    )
}

/// The table the records describe: the header's fields from the third on
/// are the language names in column order, and every later record is a data
/// row.
pub open spec fn table_of_records(records: Seq<Seq<Seq<char>>>) -> TableView {
    TableView {
        langs: records[0].skip(2),
        words: records.skip(1).map_values(|row: Seq<Seq<char>>| row_entry(row)),
    }
}

/// What parsing a text yields: the table of its records, or `Malformed`
/// when the text cannot be tokenized, or `MissingHeader` when no header
/// record is there or the header lacks the two reserved columns.
pub open spec fn spec_parse(s: Seq<char>) -> Result<TableView, ParseError> {
    match csv_records(s) {
        None => Err(ParseError::Malformed),
        Some(records) => {
            if records.len() == 0 || records[0].len() < 2 {
                Err(ParseError::MissingHeader)
            } else {
                Ok(table_of_records(records))
            }
        },
    }
}

/// Parses tabular text into a [`LangTable`].
///
/// Succeeds exactly on text whose records [`csv_records`] accepts and whose
/// header holds at least the two reserved columns; the table is then
/// [`table_of_records`] of those records, nothing more and nothing less.
pub fn parse(text: &str) -> (r: Result<LangTable, ParseError>)
    ensures
        match r {
            Ok(t) => spec_parse(text@) == Ok::<TableView, ParseError>(t@),
            Err(e) => spec_parse(text@) == Err::<TableView, ParseError>(e),
        },
{
    let records = match scan_records(text) {
        Ok(records) => records,
        Err(e) => {
            return Err(e);
        },
    };
    let ghost rs: Seq<Seq<Seq<char>>> = records.deep_view();
    if records.len() == 0 {
        return Err(ParseError::MissingHeader);
    }
    if records[0].len() < 2 {
        return Err(ParseError::MissingHeader);
    }
    let header_len = records[0].len();
    let mut langs: Vec<String> = Vec::new();
    let mut j: usize = 2;
    while j < header_len
        invariant
            2 <= j <= header_len,
            header_len == records@[0]@.len(),
            records.deep_view() == rs,
            rs.len() > 0,
            rs[0].len() == header_len,
            langs.deep_view() =~= rs[0].subrange(2, j as int),
        decreases header_len - j,
    {
        let field = records[0][j].clone();
        proof {
            assert(rs[0] == records@[0].deep_view());
            assert(rs[0][j as int] == records@[0]@[j as int]@);
        }
        let ghost prev: Seq<Seq<char>> = langs.deep_view();
        proof {
            assert(prev.len() == j - 2);
            assert(prev.len() == langs@.len());
        }
        langs.push(field);
        j = j + 1;
        proof {
            assert(langs.deep_view().len() == langs@.len());
            assert forall|m: int| 0 <= m < langs@.len() implies langs.deep_view()[m]
                == rs[0].subrange(2, j as int)[m] by {
                if m < prev.len() {
                    assert(langs.deep_view()[m] == prev[m]);
                } else {
                    assert(langs.deep_view()[m] == field@);
                }
            }
            assert(langs.deep_view() =~= rs[0].subrange(2, j as int));
        }
    }
    let mut words: Vec<(String, Vec<String>)> = Vec::new();
    let mut k: usize = 1;
    let record_count = records.len();
    while k < record_count
        invariant
            1 <= k <= record_count,
            record_count == records@.len(),
            records.deep_view() == rs,
            rs.len() == record_count,
            words@.len() == k - 1,
            forall|m: int|
                0 <= m < k - 1 ==> (#[trigger] words@[m]).0@ == row_entry(rs[m + 1]).0
                    && words@[m].1.deep_view() == row_entry(rs[m + 1]).1,
        decreases record_count - k,
    {
        let row_len = records[k].len();
        proof {
            assert(rs[k as int] == records@[k as int].deep_view());
            assert(rs[k as int].len() == row_len);
        }
        let keyword = if row_len >= 1 {
            records[k][0].clone()
        } else {
            String::new()
        };
        proof {
            if row_len >= 1 {
                assert(rs[k as int][0] == records@[k as int]@[0]@);
            }
            assert(keyword@ == row_entry(rs[k as int]).0);
        }
        let mut translations: Vec<String> = Vec::new();
        let mut j2: usize = 2;
        if row_len >= 2 {
            proof {
                assert(translations.deep_view() =~= rs[k as int].subrange(2, 2));
            }
            while j2 < row_len
                invariant
                    2 <= j2 <= row_len,
                    k < record_count,
                    record_count == records@.len(),
                    records.deep_view() == rs,
                    rs.len() == record_count,
                    rs[k as int].len() == row_len,
                    row_len == records@[k as int]@.len(),
                    translations.deep_view() =~= rs[k as int].subrange(2, j2 as int),
                decreases row_len - j2,
    {
                let field = records[k][j2].clone();
                proof {
                    assert(rs[k as int] == records@[k as int].deep_view());
                    assert(rs[k as int][j2 as int] == records@[k as int]@[j2 as int]@);
                }
                let ghost prev: Seq<Seq<char>> = translations.deep_view();
                proof {
                    assert(prev.len() == j2 - 2);
                    assert(prev.len() == translations@.len());
                }
                translations.push(field);
                j2 = j2 + 1;
                proof {
                    assert(translations.deep_view().len() == translations@.len());
                    assert forall|m: int| 0 <= m < translations@.len() implies translations
                        .deep_view()[m] == rs[k as int].subrange(2, j2 as int)[m] by {
                        if m < prev.len() {
                            assert(translations.deep_view()[m] == prev[m]);
                        } else {
                            assert(translations.deep_view()[m] == field@);
                        }
                    }
                    assert(translations.deep_view() =~= rs[k as int].subrange(2, j2 as int));
                }
            }
        }
        proof {
            if row_len >= 2 {
                assert(row_entry(rs[k as int]).1 == rs[k as int].subrange(
                    2,
                    rs[k as int].len() as int,
                ));
            }
            assert(translations.deep_view() =~= row_entry(rs[k as int]).1);
        }
        words.push((keyword, translations));
        k = k + 1;
    }
    let t = LangTable { langs, words };
    proof {
        assert(t@.langs =~= table_of_records(rs).langs);
        assert forall|m: int| 0 <= m < t@.words.len() implies t@.words[m]
            == table_of_records(rs).words[m] by {
            assert(rs.skip(1)[m] == rs[m + 1]);
        }
        assert(t@.words =~= table_of_records(rs).words);
    }
    Ok(t)
}

/// Parsing is deterministic: two parses of the same text agree exactly,
/// table for table and error for error.
pub proof fn lemma_parse_deterministic(
    s: Seq<char>,
    r1: Result<TableView, ParseError>,
    r2: Result<TableView, ParseError>,
)
    requires
        r1 == spec_parse(s),
        r2 == spec_parse(s),
    ensures
        r1 == r2,
{
}

/// Once one step rejects, every longer scan rejects too.
proof fn lemma_scan_stuck(s: Seq<char>, i: int)
    requires
        csv_scan(s, i) is None,
        i <= s.len(),
    ensures
        csv_scan(s, s.len() as int) is None,
    decreases s.len() - i,
{
    if i < s.len() {
        lemma_scan_stuck(s, i + 1);
    }
}

} // verus!

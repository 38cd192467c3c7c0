//! The translation store: the parsed table, the active language selection,
//! and keyword lookups.

use vstd::prelude::*;

use crate::parser;
use crate::parser::ParseError;
use crate::parser::spec_parse;
use crate::table::LangTable;
use crate::table::TableView;
use crate::table::lang_index_of;
use crate::table::lookup_word;

verus! {

/// The translation store.
///
/// It owns the parsed table, the active language index (0 until another is
/// selected), a possibly pending language name (one asked for before a
/// table that declares it arrived), and the deferred source: a path not yet
/// handed to the asset collaborator, and the handle of an issued load.
#[derive(Debug, Clone, PartialEq, Eq)]
pub struct Localize {
    pub(crate) is_initialized: bool,
    pub(crate) pending_language: Option<String>,
    pub(crate) current_language_id: usize,
    pub(crate) table: LangTable,
    pub(crate) asset_handle_path: Option<String>,
    pub(crate) asset_handle: Option<u64>,
}

/// Mathematical model of a [`Localize`] store.
pub struct StoreView {
    pub initialized: bool,
    pub pending: Option<Seq<char>>,
    pub current: int,
    pub table: TableView,
    pub path: Option<Seq<char>>,
    pub handle: Option<u64>,
}

impl View for Localize {
    type V = StoreView;

    closed spec fn view(&self) -> StoreView {
        StoreView {
            initialized: self.is_initialized,
            pending: match self.pending_language {
                Some(s) => Some(s@),
                None => None,
            },
            current: self.current_language_id as int,
            table: self.table@,
            path: match self.asset_handle_path {
                Some(p) => Some(p@),
                None => None,
            },
            handle: self.asset_handle,
        }
    }
}

/// The store before anything was set: no table, no selection, no source.
pub open spec fn initial_store() -> StoreView {
    StoreView {
        initialized: false,
        pending: None,
        current: 0,
        table: TableView {
            langs: Seq::<Seq<char>>::empty(),
            words: Seq::<(Seq<char>, Seq<Seq<char>>)>::empty(),
        },
        path: None,
        handle: None,
    }
}

/// Selecting a language: a name the table declares takes effect at once and
/// drops any pending name; any other name is remembered as pending, and the
/// active index stands untouched until the name resolves.
pub open spec fn spec_set_language(v: StoreView, name: Seq<char>) -> StoreView {
    match lang_index_of(v.table.langs, name) {
        Some(i) => StoreView { current: i, pending: None, ..v },
        None => StoreView { pending: Some(name), ..v },
    }
}

/// Retrying the pending name: it resolves, once, when the table declares
/// it; otherwise nothing changes.
pub open spec fn spec_resolve_pending(v: StoreView) -> StoreView {
    match v.pending {
        Some(name) => match lang_index_of(v.table.langs, name) {
            Some(i) => StoreView { current: i, pending: None, ..v },
            None => v,
        },
        None => v,
    }
}

/// Replacing the table: the new table stands whole, the store counts as
/// initialized, and a pending language name that the new table declares
/// resolves immediately.
pub open spec fn spec_set_table(v: StoreView, t: TableView) -> StoreView {
    spec_resolve_pending(StoreView { table: t, initialized: true, ..v })
}

/// What a keyword lookup yields: the translation of the last row carrying
/// the keyword, at the active language index — and the empty string when
/// the keyword is unknown or that row has no translation at that index.
pub open spec fn spec_get(v: StoreView, keyword: Seq<char>) -> Seq<char> {
    match lookup_word(v.table.words, keyword) {
        Some(tr) => if 0 <= v.current < tr.len() {
            tr[v.current]
        } else {
            Seq::<char>::empty()
        },
        None => Seq::<char>::empty(),
    }
}

impl Localize {
    /// An empty store, not yet initialized.
    pub fn empty() -> (r: Localize)
        ensures
            r@ == initial_store(),
    {
        Localize {
            is_initialized: false,
            pending_language: None,
            current_language_id: 0,
            table: LangTable::new(),
            asset_handle_path: None,
            asset_handle: None,
        }
    }

    /// A store built from tabular text, ready at once; malformed text is a
    /// hard failure.
    pub fn from_data(translations: &str) -> (r: Result<Localize, ParseError>)
        ensures
            match r {
                Ok(l) => spec_parse(translations@) matches Ok(t) && l@ == spec_set_table(
                    initial_store(),
                    t,
                ),
                Err(e) => spec_parse(translations@) == Err::<TableView, ParseError>(e),
            },
    {
        let mut l = Localize::empty();
        match l.set_data(translations) {
            Ok(()) => Ok(l),
            Err(e) => Err(e),
        }
    }

    /// A store that will take its table from the named resource once the
    /// asset collaborator delivers it.
    pub fn from_asset_path(path: &str) -> (r: Localize)
        ensures
            r@ == (StoreView { path: Some(path@), ..initial_store() }),
    {
        Localize {
            is_initialized: false,
            pending_language: None,
            current_language_id: 0,
            table: LangTable::new(),
            asset_handle_path: Some(path.to_owned()),
            asset_handle: None,
        }
    }

    /// Parses `translations` and replaces the stored table with the result,
    /// resolving a pending language name that the new table declares. On
    /// failure the store is left exactly as it was.
    pub fn set_data(&mut self, translations: &str) -> (r: Result<(), ParseError>)
        ensures
            match r {
                Ok(()) => spec_parse(translations@) matches Ok(t) && final(self)@
                    == spec_set_table(old(self)@, t),
                Err(e) => spec_parse(translations@) == Err::<TableView, ParseError>(e)
                    && final(self)@ == old(self)@,
            },
    {
        match parser::parse(translations) {
            Ok(t) => {
                self.table = t;
                self.is_initialized = true;
                self.resolve_pending();
                Ok(())
            },
            Err(e) => Err(e),
        }
    }

    /// The translation of `keyword` in the active language, or the empty
    /// string when there is none. Never fails.
    pub fn get(&self, keyword: &str) -> (r: &str)
        ensures
            r@ == spec_get(self@, keyword@),
    {
        proof {
            reveal_strlit("");
            assert(""@ =~= Seq::<char>::empty());
        }
        match self.table.word_row(keyword) {
            Some(tr) => {
                if self.current_language_id < tr.len() {
                    proof {
                        assert(tr.deep_view()[self.current_language_id as int]
                            == tr@[self.current_language_id as int]@);
                    }
                    tr[self.current_language_id].as_str()
                } else {
                    ""
                }
            },
            None => "",
        }
    }

    /// Selects `language` when the table declares it; otherwise remembers
    /// the name, to resolve against a later table.
    pub fn set_language(&mut self, language: &str)
        ensures
            final(self)@ == spec_set_language(old(self)@, language@),
    {
        match self.table.language_index(language) {
            Some(i) => {
                self.current_language_id = i;
                self.pending_language = None;
            },
            None => {
                self.pending_language = Some(language.to_owned());
            },
        }
    }

    /// Retries the pending language name against the current table.
    pub fn resolve_pending(&mut self)
        ensures
            final(self)@ == spec_resolve_pending(old(self)@),
    {
        let pending = match &self.pending_language {
            Some(name) => Some(name.clone()),
            None => None,
        };
        if let Some(name) = pending {
            match self.table.language_index(name.as_str()) {
                Some(i) => {
                    self.current_language_id = i;
                    self.pending_language = None;
                },
                None => {},
            }
        }
    }

    /// The active language index.
    pub fn current_language(&self) -> (r: usize)
        ensures
            r as int == self@.current,
    {
        self.current_language_id
    }

    /// Whether a table has been set.
    pub fn is_ready(&self) -> (r: bool)
        ensures
            r == self@.initialized,
    {
        self.is_initialized
    }

    /// Takes the recorded asset path out of the store, so the host can hand
    /// it to the asset collaborator exactly once.
    pub fn take_pending_path(&mut self) -> (r: Option<String>)
        ensures
            match old(self)@.path {
                Some(p) => r matches Some(s) && s@ == p && final(self)@ == (StoreView {
                    path: None,
                    ..old(self)@
                }),
                None => r is None && final(self)@ == old(self)@,
            },
    {
        let mut taken: Option<String> = None;
        core::mem::swap(&mut taken, &mut self.asset_handle_path);
        taken
    }

    /// Records the handle the asset collaborator returned for the taken
    /// path. A handle recorded earlier is abandoned: events carrying it no
    /// longer match.
    pub fn set_handle(&mut self, handle: u64)
        ensures
            final(self)@ == (StoreView { handle: Some(handle), ..old(self)@ }),
    {
        self.asset_handle = Some(handle);
    }

    /// Whether a change notification's handle is the one this store is
    /// waiting on; any other event is to be ignored.
    pub fn handle_matches(&self, handle: u64) -> (r: bool)
        ensures
            r == (self@.handle == Some(handle)),
    {
        match &self.asset_handle {
            Some(h) => *h == handle,
            None => false,
        }
    }
}

/// An unknown keyword resolves to the empty string, whatever the active
/// language index is.
pub proof fn lemma_unknown_keyword(v: StoreView, keyword: Seq<char>)
    requires
        lookup_word(v.table.words, keyword) is None,
    ensures
        spec_get(v, keyword) == Seq::<char>::empty(),
{
}

/// A row shorter than the active language index resolves to the empty
/// string for the missing trailing indices, never to a fault.
pub proof fn lemma_ragged_row(v: StoreView, keyword: Seq<char>, tr: Seq<Seq<char>>)
    requires
        lookup_word(v.table.words, keyword) == Some(tr),
        v.current >= tr.len(),
    ensures
        spec_get(v, keyword) == Seq::<char>::empty(),
{
}

/// Deferred selection: a language asked for while no table declared it is
/// applied, exactly once, by the first table replacement that does declare
/// it — the selection lands on that table's index for the name, the pending
/// name is gone, and a further table replacement moves the selection no
/// more.
pub proof fn lemma_deferred_selection(
    v: StoreView,
    name: Seq<char>,
    t: TableView,
    i: int,
    t2: TableView,
)
    requires
        v.pending is None,
        lang_index_of(v.table.langs, name) is None,
        lang_index_of(t.langs, name) == Some(i),
    ensures
        ({
            let w = spec_set_table(spec_set_language(v, name), t);
            w.current == i && w.pending is None && w.table == t && spec_set_table(w, t2).current
                == i
        }),
{
}

} // verus!

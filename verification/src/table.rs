//! The parsed translation table and its lookup rules.

use vstd::prelude::*;

verus! {

/// A parsed translation table.
///
/// `langs` holds the language names in header column order: the language at
/// position `i` has language index `i`. `words` holds the data rows in source
/// order as (keyword, translations) pairs. Both lookups resolve repeated
/// names to their last occurrence, so a row or a header column written twice
/// quietly overwrites the earlier one.
#[derive(Debug, Clone, PartialEq, Eq)]
pub struct LangTable {
    pub langs: Vec<String>,
    pub words: Vec<(String, Vec<String>)>,
}

/// Mathematical model of a [`LangTable`].
pub struct TableView {
    pub langs: Seq<Seq<char>>,
    pub words: Seq<(Seq<char>, Seq<Seq<char>>)>,
}

impl View for LangTable {
    type V = TableView;

    open spec fn view(&self) -> TableView {
        TableView {
            langs: self.langs.deep_view(),
            words: Seq::new(
                self.words@.len(),
                |i: int| (self.words@[i].0@, self.words@[i].1.deep_view()),
            ),
        }
    }
}

/// The language index of `name`: the position of its last occurrence among
/// the declared language names, or `None` when the table does not declare it.
pub open spec fn lang_index_of(langs: Seq<Seq<char>>, name: Seq<char>) -> Option<int>
    decreases langs.len(),
{
    if langs.len() == 0 {
        None
    } else if langs.last() == name {
        Some(langs.len() - 1)
    } else {
        lang_index_of(langs.drop_last(), name)
    }
}

/// The translations of `keyword`: those of the last row that carries it,
/// or `None` when no row does.
pub open spec fn lookup_word(
    words: Seq<(Seq<char>, Seq<Seq<char>>)>,
    keyword: Seq<char>,
) -> Option<Seq<Seq<char>>>
    decreases words.len(),
{
    if words.len() == 0 {
        None
    } else if words.last().0 == keyword {
        Some(words.last().1)
    } else {
        lookup_word(words.drop_last(), keyword)
    }
}

impl LangTable {
    /// A table with no languages and no rows.
    pub fn new() -> (r: LangTable)
        ensures
            r@.langs == Seq::<Seq<char>>::empty(),
            r@.words == Seq::<(Seq<char>, Seq<Seq<char>>)>::empty(),
    {
        let r = LangTable { langs: Vec::new(), words: Vec::new() };
        proof {
            assert(r@.langs =~= Seq::<Seq<char>>::empty());
            assert(r@.words =~= Seq::<(Seq<char>, Seq<Seq<char>>)>::empty());
        }
        r
    }

    /// Finds the language index of `name`, resolving a repeated name to its
    /// last header occurrence.
    pub fn language_index(&self, name: &str) -> (r: Option<usize>)
        ensures
            match r {
                Some(i) => lang_index_of(self@.langs, name@) == Some(i as int),
                None => lang_index_of(self@.langs, name@) is None,
            },
    {
        let name_owned: String = name.to_owned();
        let ghost full: Seq<Seq<char>> = self@.langs;
        let mut i: usize = self.langs.len();
        proof {
            assert(full.take(i as int) =~= full);
        }
        while i > 0
            invariant
                i <= self.langs.len(),
                full == self@.langs,
                name_owned@ == name@,
                lang_index_of(full, name@) == lang_index_of(full.take(i as int), name@),
            decreases i,
        {
            i = i - 1;
            proof {
                assert(full.take(i + 1).last() == full[i as int]);
            }
            if name_owned == self.langs[i] {
                return Some(i);
            }
            proof {
                assert(full.take(i + 1).drop_last() =~= full.take(i as int));
            }
        }
        proof {
            assert(full.take(0) =~= Seq::<Seq<char>>::empty());
        }
        None
    }

    /// Finds the translations of `keyword`, resolving a repeated keyword to
    /// its last row.
    pub fn word_row(&self, keyword: &str) -> (r: Option<&Vec<String>>)
        ensures
            match r {
                Some(tr) => lookup_word(self@.words, keyword@) == Some(tr.deep_view()),
                None => lookup_word(self@.words, keyword@) is None,
            },
    {
        let keyword_owned: String = keyword.to_owned();
        let ghost full: Seq<(Seq<char>, Seq<Seq<char>>)> = self@.words;
        let mut i: usize = self.words.len();
        proof {
            assert(full.take(i as int) =~= full);
        }
        while i > 0
            invariant
                i <= self.words.len(),
                full == self@.words,
                keyword_owned@ == keyword@,
                lookup_word(full, keyword@) == lookup_word(full.take(i as int), keyword@),
            decreases i,
        {
            i = i - 1;
            proof {
                assert(full.take(i + 1).last() == full[i as int]);
            }
            if keyword_owned == self.words[i].0 {
                return Some(&self.words[i].1);
            }
            proof {
                assert(full.take(i + 1).drop_last() =~= full.take(i as int));
            }
        }
        proof {
            assert(full.take(0) =~= Seq::<(Seq<char>, Seq<Seq<char>>)>::empty());
        }
        None
    }
}

/// A keyword written by several rows resolves to the last of them: looking a
/// keyword up finds exactly the translations of the final row that carries
/// it, whatever earlier rows said.
pub proof fn lemma_last_occurrence_wins(
    words: Seq<(Seq<char>, Seq<Seq<char>>)>,
    keyword: Seq<char>,
    j: int,
)
    requires
        0 <= j < words.len(),
        words[j].0 == keyword,
        forall|m: int| j < m < words.len() ==> (#[trigger] words[m].0) != keyword,
    ensures
        lookup_word(words, keyword) == Some(words[j].1),
    decreases words.len(),
{
    if j == words.len() - 1 {
        assert(words.last().0 == keyword);
    } else {
        assert(words.last().0 != keyword);
        lemma_last_occurrence_wins(words.drop_last(), keyword, j);
    }
}

} // verus!

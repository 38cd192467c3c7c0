//! Text bindings: display objects bound to keywords, re-rendered once per
//! language change.

use vstd::prelude::*;

use crate::store::Localize;
use crate::store::spec_get;

verus! {

/// A display object's binding: one keyword per text segment, in segment
/// order, and the language index it last rendered (none before the first
/// render).
#[derive(Debug)]
pub struct LocalizeText {
    sections: Vec<String>,
    translated_language: Option<usize>,
}

/// Mathematical model of a [`LocalizeText`] binding.
pub struct BindingView {
    pub sections: Seq<Seq<char>>,
    pub rendered: Option<int>,
}

impl View for LocalizeText {
    type V = BindingView;

    closed spec fn view(&self) -> BindingView {
        BindingView {
            sections: self.sections.deep_view(),
            rendered: match self.translated_language {
                Some(i) => Some(i as int),
                None => None,
            },
        }
    }
}

/// Whether a binding must re-render against a store whose active language
/// index is `current`: yes before its first render, and yes again exactly
/// when the index it last rendered differs from `current`.
pub open spec fn spec_needs_refresh(b: BindingView, current: int) -> bool {
    b.rendered != Some(current)
}

/// A binding after rendering against index `current`: the keywords stand,
/// and `current` is what it last rendered.
pub open spec fn spec_mark_rendered(b: BindingView, current: int) -> BindingView {
    BindingView { sections: b.sections, rendered: Some(current) }
}

impl LocalizeText {
    /// Binds a single text segment to `keyword`.
    pub fn from_section(keyword: &str) -> (r: LocalizeText)
        ensures
            r@.sections =~= seq![keyword@],
            r@.rendered is None,
    {
        let mut sections: Vec<String> = Vec::new();
        sections.push(keyword.to_owned());
        LocalizeText { sections, translated_language: None }
    }

    /// Binds one text segment per keyword, in order.
    pub fn from_sections(keywords: Vec<String>) -> (r: LocalizeText)
        ensures
            r@.sections == keywords.deep_view(),
            r@.rendered is None,
    {
        LocalizeText { sections: keywords, translated_language: None }
    }

    /// The bound keywords, in segment order.
    pub fn keywords(&self) -> (r: &Vec<String>)
        ensures
            r.deep_view() == self@.sections,
    {
        &self.sections
    }

    /// Whether this binding must re-render against a store whose active
    /// language index is `current`.
    pub fn needs_refresh(&self, current: usize) -> (r: bool)
        ensures
            r == spec_needs_refresh(self@, current as int),
    {
        match self.translated_language {
            Some(i) => i != current,
            None => true,
        }
    }

    /// Re-renders every bound keyword against the store, in segment order:
    /// the returned strings are what the display's segments must now show,
    /// one per keyword, and the store's active language index is recorded
    /// as rendered.
    pub fn refresh(&mut self, store: &Localize) -> (r: Vec<String>)
        ensures
            final(self)@ == spec_mark_rendered(old(self)@, store@.current),
            r.deep_view() == Seq::new(
                old(self)@.sections.len(),
                |m: int| spec_get(store@, old(self)@.sections[m]),
            ),
    {
        let mut out: Vec<String> = Vec::new();
        let n = self.sections.len();
        let mut i: usize = 0;
        while i < n
            invariant
                i <= n,
                n == self.sections@.len(),
                *self == *old(self),
                out@.len() == i,
                forall|m: int|
                    0 <= m < i ==> (#[trigger] out@[m])@ == spec_get(store@, self@.sections[m]),
            decreases n - i,
        {
            proof {
                assert(self@.sections[i as int] == self.sections@[i as int]@);
            }
            let s = store.get(self.sections[i].as_str());
            out.push(s.to_owned());
            i = i + 1;
        }
        self.translated_language = Some(store.current_language());
        proof {
            assert forall|m: int| 0 <= m < out@.len() implies out.deep_view()[m] == Seq::new(
                old(self)@.sections.len(),
                |m2: int| spec_get(store@, old(self)@.sections[m2]),
            )[m] by {
                assert(out.deep_view()[m] == out@[m]@);
            }
            assert(out.deep_view() =~= Seq::new(
                old(self)@.sections.len(),
                |m2: int| spec_get(store@, old(self)@.sections[m2]),
            ));
        }
        out
    }
}

/// Idempotent re-render: right after a render against index `current` a
/// binding needs no refresh for `current`, and needs one for a later index
/// exactly when that index differs.
pub proof fn lemma_refresh_idempotent(b: BindingView, current: int, later: int)
    ensures
        !spec_needs_refresh(spec_mark_rendered(b, current), current),
        spec_needs_refresh(spec_mark_rendered(b, current), later) <==> later != current,
{
}

} // verus!

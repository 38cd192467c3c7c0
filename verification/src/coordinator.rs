//! The load coordinator: the deferred source and re-parsing on change.
//!
//! The store itself never touches a file or the network. The host hands the
//! asset collaborator the recorded path, records the opaque handle it got
//! back, and, when a change notification carries the matching handle,
//! fetches the raw bytes and feeds them back in here. A reload that fails —
//! bytes that are not text, or text that does not parse — leaves the
//! working table untouched.

use vstd::prelude::*;

use crate::parser::ParseError;
use crate::parser::spec_parse;
use crate::store::Localize;
use crate::store::StoreView;
use crate::store::spec_set_table;

verus! {

/// The raw text of a translation resource, as the asset collaborator
/// delivers it.
#[derive(Debug)]
pub struct Translation(pub String);

/// Why a reload was rejected. The store's previous table stands either way.
///
/// `InvalidText` covers bytes that are not well-formed text;
/// `BadTable` covers text that does not parse as a translation table.
#[derive(Clone, Copy, Debug, PartialEq, Eq, Structural)]
pub enum LoadDecodeError {
    InvalidText,
    BadTable(ParseError),
}

/// The text that a byte sequence encodes, when it is well-formed UTF-8.
pub uninterp spec fn utf8_decode(bytes: Seq<u8>) -> Option<Seq<char>>;

/// Relies on core::str::from_utf8: it succeeds exactly on well-formed UTF-8
/// and yields the text those bytes encode, a function of the bytes alone.
#[verifier::external_body]
fn decode_utf8(bytes: &[u8]) -> (r: Option<&str>)
    ensures
        match r {
            Some(s) => utf8_decode(bytes@) == Some(s@),
            None => utf8_decode(bytes@) is None,
        },
{
    match core::str::from_utf8(bytes) {
        Ok(s) => Some(s),
        Err(_) => None,
    }
}

/// What a reload does to the store: nothing at all when the bytes are not
/// text or the text does not parse (the error says which), and a whole
/// table replacement otherwise.
pub open spec fn spec_apply_reload(v: StoreView, bytes: Seq<u8>) -> (StoreView, Option<
    LoadDecodeError,
>) {
    match utf8_decode(bytes) {
        None => (v, Some(LoadDecodeError::InvalidText)),
        Some(text) => match spec_parse(text) {
            Err(e) => (v, Some(LoadDecodeError::BadTable(e))),
            Ok(t) => (spec_set_table(v, t), None),
        },
    }
}

impl Localize {
    /// Replaces the table from freshly fetched resource bytes. Bytes that
    /// are not text, or text that does not parse, are reported and change
    /// nothing: the previous table keeps serving lookups.
    pub fn apply_reload(&mut self, bytes: &[u8]) -> (r: Result<(), LoadDecodeError>)
        ensures
            final(self)@ == spec_apply_reload(old(self)@, bytes@).0,
            match r {
                Ok(()) => spec_apply_reload(old(self)@, bytes@).1 is None,
                Err(e) => spec_apply_reload(old(self)@, bytes@).1 == Some(e),
            },
    {
        match decode_utf8(bytes) {
            None => Err(LoadDecodeError::InvalidText),
            Some(text) => match self.set_data(text) {
                Ok(()) => Ok(()),
                Err(e) => Err(LoadDecodeError::BadTable(e)),
            },
        }
    }
}

/// Reload resilience: a reload that is rejected leaves the store exactly as
/// it was, so every keyword still resolves to what it resolved to before.
pub proof fn lemma_reload_resilience(v: StoreView, bytes: Seq<u8>, keyword: Seq<char>)
    requires
        spec_apply_reload(v, bytes).1 is Some,
    ensures
        spec_apply_reload(v, bytes).0 == v,
        crate::store::spec_get(spec_apply_reload(v, bytes).0, keyword) == crate::store::spec_get(
            v,
            keyword,
        ),
{
}

} // verus!

//! What the C interface answers; `app` converts pointers and strings.
use vstd::prelude::*;
use vstd::string::*;
use vstd::utf8::valid_utf8;
use crate::Linguist;
use crate::data::{has_alias, has_id, language_at, last_with};
use crate::generated::Reason;
use crate::indexable::{skip_reason, utf8_str};

verus! {

/// Potential errors returned from the Linguist C interface.
#[derive(Debug, Clone, Copy, PartialEq, Eq, Structural)]
pub enum LinguistError {
    /// The call succeeded.
    NoError,
    NotFound,
    Panic,
    IllegalState,
    InvalidUtf8,
}

/// Whether a file is indexable: `InvalidUtf8` for content that is not
/// UTF-8, else why it should be skipped (`None` where it is indexable).
pub fn indexability(ling: &Linguist, path: &str, content: &[u8]) -> (r: Result<Option<Reason>, LinguistError>)
    ensures
        match r {
            Ok(reason) => valid_utf8(content@) && reason == skip_reason(ling@, path, content@),
            Err(e) => !valid_utf8(content@) && e == LinguistError::InvalidUtf8,
        },
{
    match utf8_str(content) {
        Some(s) => Ok(crate::indexable::skip_indexing(ling, path, s)),
        None => Err(LinguistError::InvalidUtf8),
    }
}

/// The name of the language with id `id`, or `NotFound`.
pub fn language_name(ling: &Linguist, id: u32) -> (r: Result<&str, LinguistError>)
    ensures
        match r {
            Ok(name) => language_at(ling@.data, last_with(ling@.data, has_id(id))) matches Some(l) && name@
                == l.name,
            Err(e) => e == LinguistError::NotFound && last_with(ling@.data, has_id(id)) is None,
        },
{
    match crate::get_language_by_id(ling, id) {
        Some(l) => Ok(l.name.as_str()),
        None => Err(LinguistError::NotFound),
    }
}

/// The color of the language with id `id` (`None` where it has none), or
/// `NotFound`.
pub fn language_color(ling: &Linguist, id: u32) -> (r: Result<Option<&str>, LinguistError>)
    ensures
        match r {
            Ok(c) => language_at(ling@.data, last_with(ling@.data, has_id(id))) matches Some(l) && match c {
                Some(s) => l.color == Some(s@),
                None => l.color is None,
            },
            Err(e) => e == LinguistError::NotFound && last_with(ling@.data, has_id(id)) is None,
        },
{
    match crate::get_language_by_id(ling, id) {
        Some(l) => match &l.color {
            Some(c) => Ok(Some(c.as_str())),
            None => Ok(None),
        },
        None => Err(LinguistError::NotFound),
    }
}

/// The TextMate scope of the language with id `id`, or `NotFound`.
pub fn language_tm_scope(ling: &Linguist, id: u32) -> (r: Result<&str, LinguistError>)
    ensures
        match r {
            Ok(s) => language_at(ling@.data, last_with(ling@.data, has_id(id))) matches Some(l) && s@
                == l.tm_scope,
            Err(e) => e == LinguistError::NotFound && last_with(ling@.data, has_id(id)) is None,
        },
{
    match crate::get_language_by_id(ling, id) {
        Some(l) => Ok(l.tm_scope.as_str()),
        None => Err(LinguistError::NotFound),
    }
}

/// The id of the language with alias `alias` (matched lowercase), or
/// `NotFound`.
pub fn language_id_by_alias(ling: &Linguist, alias: &str) -> (r: Result<u32, LinguistError>)
    ensures
        match r {
            Ok(id) => language_at(
                ling@.data,
                last_with(ling@.data, has_alias(crate::text::lowercase(alias@))),
            ) matches Some(l) && id == l.language_id,
            Err(e) => e == LinguistError::NotFound && last_with(
                ling@.data,
                has_alias(crate::text::lowercase(alias@)),
            ) is None,
        },
{
    match crate::get_language_by_alias(ling, alias) {
        Some(l) => Ok(l.language_id),
        None => Err(LinguistError::NotFound),
    }
}

} // verus!

//! Detection by file name.
use vstd::prelude::*;
use vstd::utf8::decode_utf8;
use vstd::string::*;
use crate::data::{EntryView, KeyKind, LinguistData, hits};
use crate::path::{file_name, file_name_spec};
use crate::strategies::{Answer, AnswerView, answer_of_seq};

verus! {

/// The languages listing the file name of `path` among their file names.
pub open spec fn by_filename_spec(d: Seq<EntryView>, path: Seq<u8>) -> AnswerView {
    match file_name_spec(path) {
        Some(n) => answer_of_seq(hits(d, KeyKind::Filename, decode_utf8(n))),
        None => AnswerView::Unknown,
    }
}

/// Detects the language of a file by its file name: zero or more languages.
pub fn by_filename<'a>(data: &'a LinguistData, path: &str) -> (a: Answer<'a>)
    ensures
        a@ == by_filename_spec(data@, path.spec_bytes()),
{
    match file_name(path) {
        Some(n) => {
            proof {
                crate::text::lemma_view_is_decoded(n);
            }
            Answer::from_vec(data.by_key(KeyKind::Filename, n))
        },
        None => Answer::Unknown,
    }
}

} // verus!

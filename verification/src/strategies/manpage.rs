//! Detection of manual pages by their file name.
use vstd::prelude::*;
use vstd::string::*;
use vstd::utf8::decode_utf8;
use crate::data::{EntryView, LinguistData};
use crate::path::{file_name, file_name_spec};
use crate::regex::{pattern_is_match, pattern_matches};
use crate::strategies::{Answer, AnswerView, has_language, known_language, named};

verus! {

/// File names of manual pages: a section number (with an optional suffix),
/// `0p`, `n`, `man` or `mdoc`, optionally followed by `.in`.
pub const MANPAGE_EXTS: &'static str = r"(?i)\.(?:[1-9](?:[a-z_]+[a-z_0-9]*)?|0p|n|man|mdoc)(?:\.in)?$";

/// The two manual page languages where the file name looks like a manual
/// page, else nothing.
pub open spec fn by_manpage_spec(d: Seq<EntryView>, path: Seq<u8>) -> AnswerView {
    match file_name_spec(path) {
        Some(n) => if pattern_matches(MANPAGE_EXTS@, decode_utf8(n)) {
            AnswerView::Many(seq![named(d, "Roff Manpage"@), named(d, "Roff"@)])
        } else {
            AnswerView::Unknown
        },
        None => AnswerView::Unknown,
    }
}

/// Detects manual pages by file name: `Roff Manpage` and `Roff`, leaving the
/// choice to a later strategy, or nothing.
pub fn by_manpage<'a>(data: &'a LinguistData, path: &str) -> (a: Answer<'a>)
    requires
        has_language(data@, "Roff Manpage"@),
        has_language(data@, "Roff"@),
    ensures
        a@ == by_manpage_spec(data@, path.spec_bytes()),
{
    match file_name(path) {
        Some(n) => {
            proof {
                crate::text::lemma_view_is_decoded(n);
            }
            if pattern_is_match(MANPAGE_EXTS, n) {
                let mut v: Vec<&'a crate::data::Language> = Vec::new();
                v.push(known_language(data, "Roff Manpage"));
                v.push(known_language(data, "Roff"));
                let a = Answer::Many(v);
                assert(crate::data::language_views(v@) =~= seq![named(data@, "Roff Manpage"@), named(data@, "Roff"@)]);
                a
            } else {
                Answer::Unknown
            }
        },
        None => Answer::Unknown,
    }
}

} // verus!

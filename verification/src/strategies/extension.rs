//! Detection by file extension.
use vstd::prelude::*;
use vstd::string::*;
use vstd::utf8::decode_utf8;
use crate::data::{EntryView, LanguageView, language_views, KeyKind, LinguistData, hits, views, lowercased};
use crate::path::{file_name, file_name_spec};
use crate::strategies::{Answer, AnswerView, answer_of_seq, lowercase_ext, lowercase_ext_spec};
use crate::text::{lowercase, to_lowercase};

verus! {

/// Extensions too generic to tell a language by (`generic.yml`): lowercase,
/// without their leading dot.
pub struct GenericExtensions {
    exts: Vec<String>,
}

impl View for GenericExtensions {
    type V = Seq<Seq<char>>;

    closed spec fn view(&self) -> Seq<Seq<char>> {
        views(self.exts@)
    }
}

/// Why the generic extensions could not be read.
#[derive(Debug, Clone, PartialEq, Eq)]
pub enum GenericError {
    /// An extension lacks its leading `.`.
    InvalidExtension,
}

impl GenericExtensions {
    /// Reads the `extensions` list of `generic.yml`: each is stripped of its
    /// leading `.` and lowercased; fails where one lacks the dot.
    pub fn new(extensions: &Vec<String>) -> (r: Result<GenericExtensions, GenericError>)
        ensures
            r is Ok <==> crate::data::extensions_dotted(views(extensions@)),
            r matches Ok(g) ==> g@ == lowercased(
                views(extensions@).map_values(|e: Seq<char>| e.drop_first()),
            ),
    {
        match crate::data::extension_keys(extensions) {
            Some(exts) => Ok(GenericExtensions { exts }),
            None => Err(GenericError::InvalidExtension),
        }
    }

    /// Whether `ext` is one of the generic extensions.
    pub fn contains(&self, ext: &str) -> (b: bool)
        ensures
            b == self@.contains(ext@),
    {
        let mut i: usize = 0;
        while i < self.exts.len()
            invariant
                i <= self.exts@.len(),
                forall|k: int| 0 <= k < i ==> views(self.exts@)[k] != ext@,
            decreases self.exts@.len() - i,
        {
            if crate::text::str_eq(self.exts[i].as_str(), ext) {
                assert(views(self.exts@)[i as int] == ext@);
                return true;
            }
            i = i + 1;
        }
        false
    }
}

/// The languages of the first suffix of `name` after a `.` at or after
/// position `i` that some language lists among its extensions.
pub open spec fn ext_hits_from(d: Seq<EntryView>, name: Seq<char>, i: int) -> Seq<LanguageView>
    decreases name.len() - i,
{
    if i < 0 || i >= name.len() {
        seq![]
    } else if name[i] == '.' && hits(d, KeyKind::Extension, name.skip(i + 1)).len() > 0 {
        hits(d, KeyKind::Extension, name.skip(i + 1))
    } else {
        ext_hits_from(d, name, i + 1)
    }
}

/// What `by_extension` answers: nothing for a generic final extension,
/// else the languages of the longest suffix of the lowercase file name that
/// follows a `.` and names some language.
pub open spec fn by_extension_spec(d: Seq<EntryView>, generic: Seq<Seq<char>>, path: Seq<u8>) -> AnswerView {
    let is_generic = match lowercase_ext_spec(path) {
        Some(e) => generic.contains(e),
        None => false,
    };
    if is_generic {
        AnswerView::Unknown
    } else {
        match file_name_spec(path) {
            Some(n) => answer_of_seq(ext_hits_from(d, lowercase(decode_utf8(n)), 0)),
            None => AnswerView::Unknown,
        }
    }
}

/// Detects the language of a file by its extension: zero or more languages.
pub fn by_extension<'a>(data: &'a LinguistData, generic: &GenericExtensions, path: &str) -> (a: Answer<'a>)
    ensures
        a@ == by_extension_spec(data@, generic@, path.spec_bytes()),
{
    match lowercase_ext(path) {
        Some(ext) => {
            if generic.contains(ext.as_str()) {
                return Answer::Unknown;
            }
        },
        None => {},
    }
    match file_name(path) {
        Some(n) => {
            proof {
                crate::text::lemma_view_is_decoded(n);
            }
            let lower = to_lowercase(n);
            let name = lower.as_str();
            let len = name.unicode_len();
            let mut i: usize = 0;
            while i < len
                invariant
                    i <= len,
                    len == name@.len(),
                    file_name_spec(path.spec_bytes()) == Some(n.spec_bytes()),
                    name@ == lowercase(decode_utf8(n.spec_bytes())),
                    match lowercase_ext_spec(path.spec_bytes()) {
                        Some(e) => !generic@.contains(e),
                        None => true,
                    },
                    ext_hits_from(data@, name@, i as int) == ext_hits_from(data@, name@, 0),
                decreases len - i,
            {
                if name.get_char(i) == '.' {
                    let ext = name.substring_char(i + 1, len);
                    assert(ext@ =~= name@.skip(i + 1));
                    let langs = data.by_key(KeyKind::Extension, ext);
                    if langs.len() > 0 {
                        assert(language_views(langs@).len() == langs@.len());
                        return Answer::from_vec(langs);
                    }
                    assert(language_views(langs@).len() == langs@.len());
                }
                i = i + 1;
            }
            Answer::Unknown
        },
        None => Answer::Unknown,
    }
}

} // verus!

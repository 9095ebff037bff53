//! Detection of XML by its declaration.
use vstd::prelude::*;
use vstd::string::*;
use vstd::utf8::decode_utf8;
use crate::data::{EntryView, LinguistData};
use crate::regex::{pattern_is_match, pattern_matches};
use crate::strategies::{Answer, AnswerView, has_language, known_language, named};
use crate::text::{lines, spec_lines};

verus! {

/// An XML declaration.
pub const XML_DECL: &'static str = r"<\?xml\s+version=";

/// One of the first two lines holds an XML declaration.
pub open spec fn has_xml_decl(ls: Seq<Seq<u8>>) -> bool {
    exists|i: int| 0 <= i < ls.len() && i < 2 && pattern_matches(XML_DECL@, decode_utf8(#[trigger] ls[i]))
}

/// `XML` where one of the first two lines holds an XML declaration, else nothing.
pub open spec fn by_xml_spec(d: Seq<EntryView>, content: Seq<u8>) -> AnswerView {
    if has_xml_decl(spec_lines(content)) {
        AnswerView::Only(named(d, "XML"@))
    } else {
        AnswerView::Unknown
    }
}

/// Detects XML by a declaration in one of the first two lines.
pub fn by_xml<'a>(data: &'a LinguistData, content: &str) -> (a: Answer<'a>)
    requires
        has_language(data@, "XML"@),
    ensures
        a@ == by_xml_spec(data@, content.spec_bytes()),
{
    let ls = lines(content);
    let ghost sl = spec_lines(content.spec_bytes());
    assert(sl.len() == ls@.len());
    let mut i: usize = 0;
    while i < ls.len() && i < 2
        invariant
            i <= ls@.len(),
            i <= 2,
            sl == spec_lines(content.spec_bytes()),
            has_language(data@, "XML"@),
            sl == crate::text::byte_views(ls@),
            forall|k: int| 0 <= k < i ==> !pattern_matches(XML_DECL@, decode_utf8(#[trigger] sl[k])),
        decreases ls@.len() - i,
    {
        let l = ls[i];
        proof {
            crate::text::lemma_view_is_decoded(l);
            assert(sl[i as int] == l.spec_bytes());
        }
        if pattern_is_match(XML_DECL, l) {
            return Answer::Only(known_language(data, "XML"));
        }
        i = i + 1;
    }
    Answer::Unknown
}

} // verus!

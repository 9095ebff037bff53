//! Detection by Emacs and Vim modelines near the start or end of a file.
use vstd::prelude::*;
use vstd::string::*;
use vstd::utf8::{decode_utf8, is_char_boundary_start_end_of_seq};
use crate::data::{EntryView, LinguistData, has_alias, language_at, last_with, opt_string_view};
use crate::regex::{captures_result, captures_view, opt_captures_view, pattern_captures};
use crate::strategies::{Answer, AnswerView, answer_of_option};
use crate::text::{
    byte_views, contains, contains_bytes, find_newline, lowercase, newline_index, newline_index_rev,
    rfind_newline, substr,
};

verus! {

/// An Emacs modeline: the text between `-*-` markers.
pub const EMACS_MODELINE: &'static str = r".*-\*-\s*(.+?)\s*-\*-.*(?m:$)";

/// The `mode:` entry of an Emacs modeline.
pub const EMACS_LANG: &'static str = r".*(?i:mode)\s*:\s*([^\s;]+)\s*;*.*";

/// A Vim (or ex) modeline: the text after `vim:`, `vi:` or `ex:`.
pub const VIM_MODELINE: &'static str = r"(?:(?m:\s|^)vi(?:m[<=>]?\d+|m)?|[\t\x20]*ex)\s*[:]\s*(.*)(?m:$)";

/// A `filetype=`, `ft=` or `syntax=` entry of a Vim modeline.
pub const VIM_LANG: &'static str = r"(?i:filetype|ft|syntax)\s*=(\w+)(?:\s|:|$)";

/// The end of a text's last line: its length, less a final newline.
pub open spec fn content_end(b: Seq<u8>) -> int {
    if b.len() > 0 && b.last() == 10u8 {
        b.len() - 1
    } else {
        b.len() as int
    }
}

/// The parts of a text scanned for modelines: its first five lines and its
/// last five lines, or the whole text where these overlap (ten lines or
/// fewer). The first part ends before the fifth newline; the last starts
/// after the fifth newline counted back from the end of the last line.
pub open spec fn limited_spec(b: Seq<u8>) -> Seq<Seq<u8>> {
    let h = newline_index(b, 0, 4);
    let f = newline_index_rev(b, content_end(b), 4);
    if h >= f {
        seq![b]
    } else {
        seq![b.take(h), b.subrange(f + 1, b.len() as int)]
    }
}

/// Limits the content scanned for modelines (see `limited_spec`).
pub fn limited_content(content: &str) -> (r: Vec<&str>)
    ensures
        byte_views(r@) == limited_spec(content.spec_bytes()),
{
    let b = content.as_bytes();
    let len = b.len();
    let end = if len > 0 && b[len - 1] == 10u8 {
        len - 1
    } else {
        len
    };
    let header_end = find_newline(content, 4);
    let footer_nl = rfind_newline(content, end, 4);
    let mut r: Vec<&str> = Vec::new();
    if header_end >= footer_nl {
        r.push(content);
        assert(byte_views(r@) =~= seq![content.spec_bytes()]);
    } else {
        proof {
            crate::text::lemma_str_valid(content);
            is_char_boundary_start_end_of_seq(b@);
            if header_end < len {
                crate::text::lemma_ascii_boundary(b@, header_end as int);
            }
            crate::text::lemma_boundary_after_ascii(b@, footer_nl as int);
        }
        let header = substr(content, 0, header_end);
        let footer = substr(content, footer_nl + 1, len);
        r.push(header);
        r.push(footer);
        assert(header.spec_bytes() =~= b@.take(header_end as int));
        assert(byte_views(r@) =~= limited_spec(content.spec_bytes()));
    }
    r
}

/// Group 1 of the last match in some captures, where there is one.
pub open spec fn last_group_in(caps: Option<Seq<Seq<Option<Seq<char>>>>>) -> Option<Seq<char>> {
    match caps {
        Some(c) => if c.len() > 0 && c.last().len() > 1 {
            c.last()[1]
        } else {
            None
        },
        None => None,
    }
}

/// Group 1 of the first match in some captures, where there is one.
pub open spec fn first_group_in(caps: Option<Seq<Seq<Option<Seq<char>>>>>) -> Option<Seq<char>> {
    match caps {
        Some(c) => if c.len() > 0 && c[0].len() > 1 {
            c[0][1]
        } else {
            None
        },
        None => None,
    }
}

/// Group 1 of the last match of `pattern` in `text`, where there is one.
pub open spec fn last_group(pattern: Seq<char>, text: Seq<char>) -> Option<Seq<char>> {
    last_group_in(captures_result(pattern, text))
}

/// Group 1 of the first match of `pattern` in `text`, where there is one.
pub open spec fn first_group(pattern: Seq<char>, text: Seq<char>) -> Option<Seq<char>> {
    first_group_in(captures_result(pattern, text))
}

/// The language of an alias (matched lowercase).
pub open spec fn alias_language(d: Seq<EntryView>, alias: Seq<char>) -> AnswerView {
    answer_of_option(language_at(d, last_with(d, has_alias(lowercase(alias)))))
}

/// The alias an Emacs modeline names: its `mode:` entry, or the whole text.
pub open spec fn emacs_alias(line: Seq<char>) -> Seq<char> {
    match first_group(EMACS_LANG@, line) {
        Some(a) => a,
        None => line,
    }
}

/// The answer for the first part that holds an Emacs modeline.
pub open spec fn emacs_over(d: Seq<EntryView>, parts: Seq<Seq<u8>>) -> AnswerView
    decreases parts.len(),
{
    if parts.len() == 0 {
        AnswerView::Unknown
    } else {
        match last_group(EMACS_MODELINE@, decode_utf8(parts[0])) {
            Some(line) => alias_language(d, emacs_alias(line)),
            None => emacs_over(d, parts.drop_first()),
        }
    }
}

/// What `by_emacs_modeline` answers.
pub open spec fn by_emacs_modeline_spec(d: Seq<EntryView>, content: Seq<u8>) -> AnswerView {
    emacs_over(d, limited_spec(content))
}

/// Group 1 of the last match in captures that `pattern_captures` gave.
pub fn group_of_last(caps: &Option<Vec<Vec<Option<String>>>>) -> (r: Option<String>)
    ensures
        opt_string_view(r) == last_group_in(opt_captures_view(*caps)),
{
    match caps {
        Some(caps) => {
            let n = caps.len();
            if n > 0 && caps[n - 1].len() > 1 {
                assert(captures_view(caps@).last() == caps@[n - 1]@.map_values(
                    |g: Option<String>|
                        match g {
                            Some(s) => Some(s@),
                            None => None,
                        },
                ));
                match &caps[n - 1][1] {
                    Some(g) => Some(g.clone()),
                    None => None,
                }
            } else {
                None
            }
        },
        None => None,
    }
}

/// Group 1 of the first match in captures that `pattern_captures` gave.
pub fn group_of_first(caps: &Option<Vec<Vec<Option<String>>>>) -> (r: Option<String>)
    ensures
        opt_string_view(r) == first_group_in(opt_captures_view(*caps)),
{
    match caps {
        Some(caps) => {
            if caps.len() > 0 && caps[0].len() > 1 {
                assert(captures_view(caps@)[0] == caps@[0]@.map_values(
                    |g: Option<String>|
                        match g {
                            Some(s) => Some(s@),
                            None => None,
                        },
                ));
                match &caps[0][1] {
                    Some(g) => Some(g.clone()),
                    None => None,
                }
            } else {
                None
            }
        },
        None => None,
    }
}

/// Group 1 of the last match of `pattern` in `text`.
pub(crate) fn last_group_exec(pattern: &str, text: &str) -> (r: Option<String>)
    ensures
        opt_string_view(r) == last_group(pattern@, text@),
{
    group_of_last(&pattern_captures(pattern, text))
}

/// Group 1 of the first match of `pattern` in `text`.
pub(crate) fn first_group_exec(pattern: &str, text: &str) -> (r: Option<String>)
    ensures
        opt_string_view(r) == first_group(pattern@, text@),
{
    group_of_first(&pattern_captures(pattern, text))
}

/// Detects the language of a file by an Emacs modeline: zero or one language.
pub fn by_emacs_modeline<'a>(data: &'a LinguistData, content: &str) -> (a: Answer<'a>)
    ensures
        a@ == by_emacs_modeline_spec(data@, content.spec_bytes()),
{
    let parts = limited_content(content);
    let ghost pv = byte_views(parts@);
    assert(pv.skip(0) =~= pv);
    let mut i: usize = 0;
    while i < parts.len()
        invariant
            i <= parts@.len(),
            pv == byte_views(parts@),
            pv == limited_spec(content.spec_bytes()),
            emacs_over(data@, pv.skip(i as int)) == emacs_over(data@, pv),
        decreases parts@.len() - i,
    {
        let part = parts[i];
        proof {
            crate::text::lemma_view_is_decoded(part);
            assert(pv.skip(i as int)[0] == part.spec_bytes());
            assert(pv.skip(i as int).drop_first() =~= pv.skip(i + 1));
        }
        match last_group_exec(EMACS_MODELINE, part) {
            Some(line) => {
                let alias = match first_group_exec(EMACS_LANG, line.as_str()) {
                    Some(a) => a,
                    None => line,
                };
                return Answer::from_option(data.by_alias(alias.as_str()));
            },
            None => {},
        }
        i = i + 1;
    }
    assert(pv.skip(i as int) =~= Seq::<Seq<u8>>::empty());
    Answer::Unknown
}

/// Group 1 of every match that has one, in order.
pub open spec fn groups_1(caps: Seq<Seq<Option<Seq<char>>>>) -> Seq<Seq<char>>
    decreases caps.len(),
{
    if caps.len() == 0 {
        seq![]
    } else if caps.last().len() > 1 && caps.last()[1] is Some {
        groups_1(caps.drop_last()).push(caps.last()[1]->0)
    } else {
        groups_1(caps.drop_last())
    }
}

/// `s` with runs of equal neighbours reduced to one (`Vec::dedup`).
pub open spec fn dedup(s: Seq<Seq<char>>) -> Seq<Seq<char>>
    decreases s.len(),
{
    if s.len() == 0 {
        seq![]
    } else if dedup(s.drop_last()).len() > 0 && dedup(s.drop_last()).last() == s.last() {
        dedup(s.drop_last())
    } else {
        dedup(s.drop_last()).push(s.last())
    }
}

/// The distinct (neighbouring duplicates removed) aliases named by some
/// captures of `VIM_LANG`.
pub open spec fn vim_aliases_in(caps: Option<Seq<Seq<Option<Seq<char>>>>>) -> Seq<Seq<char>> {
    match caps {
        Some(c) => dedup(groups_1(c)),
        None => seq![],
    }
}

/// The distinct (neighbouring duplicates removed) aliases a Vim modeline names.
pub open spec fn vim_aliases(line: Seq<char>) -> Seq<Seq<char>> {
    vim_aliases_in(captures_result(VIM_LANG@, line))
}

/// The answer for the parts scanned for Vim modelines: nothing at the first
/// part that mentions `UseVimball`; at the first part with a modeline naming
/// one alias, its language; naming two, nothing; else the next part.
pub open spec fn vim_over(d: Seq<EntryView>, parts: Seq<Seq<u8>>) -> AnswerView
    decreases parts.len(),
{
    if parts.len() == 0 {
        AnswerView::Unknown
    } else if contains_bytes(parts[0], "UseVimball".spec_bytes()) {
        AnswerView::Unknown
    } else {
        match last_group(VIM_MODELINE@, decode_utf8(parts[0])) {
            Some(line) => if vim_aliases(line).len() == 1 {
                alias_language(d, vim_aliases(line)[0])
            } else if vim_aliases(line).len() == 2 {
                AnswerView::Unknown
            } else {
                vim_over(d, parts.drop_first())
            },
            None => vim_over(d, parts.drop_first()),
        }
    }
}

/// What `by_vim_modeline` answers.
pub open spec fn by_vim_modeline_spec(d: Seq<EntryView>, content: Seq<u8>) -> AnswerView {
    vim_over(d, limited_spec(content))
}

/// The aliases named by captures of `VIM_LANG` that `pattern_captures`
/// gave (see `vim_aliases_in`).
pub fn aliases_of(captures: &Option<Vec<Vec<Option<String>>>>) -> (r: Vec<String>)
    ensures
        crate::data::views(r@) == vim_aliases_in(opt_captures_view(*captures)),
{
    let mut out: Vec<String> = Vec::new();
    match captures {
        Some(caps) => {
            let ghost cv = captures_view(caps@);
            let ghost g = groups_1(cv);
            let mut i: usize = 0;
            while i < caps.len()
                invariant
                    i <= caps@.len(),
                    cv == captures_view(caps@),
                    g == groups_1(cv),
                    crate::data::views(out@) == dedup(groups_1(cv.take(i as int))),
                decreases caps@.len() - i,
            {
                proof {
                    assert(cv.take(i + 1).drop_last() =~= cv.take(i as int));
                    assert(cv.take(i + 1).last() == cv[i as int]);
                    assert(cv[i as int] == caps@[i as int]@.map_values(
                        |g: Option<String>|
                            match g {
                                Some(s) => Some(s@),
                                None => None,
                            },
                    ));
                }
                if caps[i].len() > 1 {
                    match &caps[i][1] {
                        Some(x) => {
                            let ghost before = out@;
                            let ghost gs = groups_1(cv.take(i + 1));
                            assert(gs == groups_1(cv.take(i as int)).push(x@));
                            assert(gs.drop_last() =~= groups_1(cv.take(i as int)));
                            let n = out.len();
                            let dup = n > 0 && crate::text::str_eq(out[n - 1].as_str(), x.as_str());
                            if !dup {
                                out.push(x.clone());
                                proof {
                                    crate::data::lemma_views_push(before, out@.last());
                                }
                            }
                        },
                        None => {},
                    }
                }
                i = i + 1;
            }
            assert(cv.take(i as int) =~= cv);
        },
        None => {},
    }
    out
}

/// Detects the language of a file by a Vim modeline: zero or one language.
pub fn by_vim_modeline<'a>(data: &'a LinguistData, content: &str) -> (a: Answer<'a>)
    ensures
        a@ == by_vim_modeline_spec(data@, content.spec_bytes()),
{
    let parts = limited_content(content);
    let ghost pv = byte_views(parts@);
    assert(pv.skip(0) =~= pv);
    let mut i: usize = 0;
    while i < parts.len()
        invariant
            i <= parts@.len(),
            pv == byte_views(parts@),
            pv == limited_spec(content.spec_bytes()),
            vim_over(data@, pv.skip(i as int)) == vim_over(data@, pv),
        decreases parts@.len() - i,
    {
        let part = parts[i];
        proof {
            crate::text::lemma_view_is_decoded(part);
            assert(pv.skip(i as int)[0] == part.spec_bytes());
            assert(pv.skip(i as int).drop_first() =~= pv.skip(i + 1));
        }
        if contains(part, "UseVimball") {
            return Answer::Unknown;
        }
        match last_group_exec(VIM_MODELINE, part) {
            Some(line) => {
                let aliases = aliases_of(&pattern_captures(VIM_LANG, line.as_str()));
                if aliases.len() == 1 {
                    return Answer::from_option(data.by_alias(aliases[0].as_str()));
                } else if aliases.len() == 2 {
                    return Answer::Unknown;
                }
            },
            None => {},
        }
        i = i + 1;
    }
    assert(pv.skip(i as int) =~= Seq::<Seq<u8>>::empty());
    Answer::Unknown
}

} // verus!

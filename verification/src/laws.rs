//! Properties of the library that span its functions.
use vstd::prelude::*;
use vstd::string::*;
use crate::data::{EntryView, LanguageView};
use crate::indexable::{ingest_result, jenkinsfile_spec, meta_result, skip_path_reason, skip_reason};
use crate::popular::{other_part, popular_part, sorted_by_popularity};
use crate::regex::{RegexView, regex_view_matches};
use crate::strategies::{
    AnswerView, answer_of_seq, intersect_spec, keep_in, language_of_answer, seq_of_answer,
};
use crate::{LinguistView, fold_strategies};
use crate::data::{has_id, has_name, language_at, last_with};
use crate::indexable::{CACHE_DIRS, search_vendored};
use crate::path::{file_name_range, file_name_spec, last_piece, piece_start};
use crate::regex::pattern_matches;
use crate::strategies::lowercase_ext_spec;
use crate::strategies::heuristics::{
    HeuristicsView, MAX_BYTES_TO_SCAN, by_content_heuristics_spec, ceil_boundary, next_start, scan_limit,
};
use vstd::utf8::decode_utf8;

verus! {

/// Turning candidates into an answer and back gives the same candidates.
pub proof fn law_answer_roundtrip(v: Seq<LanguageView>)
    ensures
        seq_of_answer(answer_of_seq(v)) == v,
{
    if v.len() == 1 {
        assert(seq![v[0]] =~= v);
    }
}

/// `keep_in(a, b)` holds exactly the candidates of both, and no more of
/// them than `a`.
proof fn lemma_keep_in(a: Seq<LanguageView>, b: Seq<LanguageView>)
    ensures
        forall|x: LanguageView| keep_in(a, b).contains(x) <==> (a.contains(x) && b.contains(x)),
        keep_in(a, b).len() <= a.len(),
    decreases a.len(),
{
    if a.len() > 0 {
        let a0 = a.drop_last();
        let k = keep_in(a0, b);
        lemma_keep_in(a0, b);
        assert forall|x: LanguageView| keep_in(a, b).contains(x) implies a.contains(x) && b.contains(x) by {
            let r = keep_in(a, b);
            let j = choose|j: int| 0 <= j < r.len() && r[j] == x;
            if b.contains(a.last()) && j == k.len() {
                assert(a[a.len() - 1] == x);
            } else {
                assert(keep_in(a.drop_last(), b)[j] == x);
                assert(keep_in(a.drop_last(), b).contains(x));
                assert(a.drop_last().contains(x));
                let i = choose|i: int| 0 <= i < a.drop_last().len() && a.drop_last()[i] == x;
                assert(a[i] == x);
            }
        }
        assert forall|x: LanguageView| a.contains(x) && b.contains(x) implies keep_in(a, b).contains(x) by {
            let r = keep_in(a, b);
            let i = choose|i: int| 0 <= i < a.len() && a[i] == x;
            if i == a.len() - 1 {
                assert(r[r.len() - 1] == x);
            } else {
                assert(a.drop_last()[i] == x);
                assert(a.drop_last().contains(x));
                assert(keep_in(a.drop_last(), b).contains(x));
                let j = choose|j: int| 0 <= j < keep_in(a.drop_last(), b).len() && keep_in(a.drop_last(), b)[j] == x;
                assert(r[j] == x);
            }
        }
    }
}

/// The intersection of two answers names exactly the candidates that both
/// name, and no more of them than the first.
pub proof fn law_intersect_within_both(a: AnswerView, b: AnswerView)
    ensures
        forall|x: LanguageView|
            seq_of_answer(intersect_spec(a, b)).contains(x) <==> (seq_of_answer(a).contains(x)
                && seq_of_answer(b).contains(x)),
        seq_of_answer(intersect_spec(a, b)).len() <= seq_of_answer(a).len(),
{
    lemma_keep_in(seq_of_answer(a), seq_of_answer(b));
    law_answer_roundtrip(keep_in(seq_of_answer(a), seq_of_answer(b)));
}

/// Intersecting candidates with themselves keeps them all, in order.
pub proof fn law_intersect_self(v: Seq<LanguageView>)
    ensures
        keep_in(v, v) == v,
{
    lemma_keep_in_prefix(v, v, v.len() as int);
    assert(v.take(v.len() as int) =~= v);
}

proof fn lemma_keep_in_prefix(v: Seq<LanguageView>, w: Seq<LanguageView>, n: int)
    requires
        0 <= n <= v.len(),
        forall|i: int| 0 <= i < n ==> w.contains(#[trigger] v[i]),
    ensures
        keep_in(v.take(n), w) == v.take(n),
    decreases n,
{
    if n > 0 {
        lemma_keep_in_prefix(v, w, n - 1);
        assert(v.take(n).drop_last() =~= v.take(n - 1));
        assert(v.take(n).last() == v[n - 1]);
        assert(w.contains(v[n - 1]));
        assert(v.take(n - 1).push(v[n - 1]) =~= v.take(n));
    }
}

/// Once a strategy settles on one language, the remaining strategies
/// change nothing.
pub proof fn law_single_answer_is_final(
    l: LinguistView,
    ss: Seq<(crate::strategies::StrategyKind, crate::strategies::ShouldRun)>,
    path: Seq<u8>,
    content: Seq<u8>,
    x: LanguageView,
)
    ensures
        fold_strategies(l, ss, path, content, AnswerView::Only(x)) == AnswerView::Only(x),
    decreases ss.len(),
{
    if ss.len() > 0 {
        law_single_answer_is_final(l, ss.drop_first(), path, content, x);
    }
}

/// Empty content has no language.
pub proof fn law_empty_content_undetected(l: LinguistView, path: Seq<u8>)
    ensures
        crate::detect_spec(l, path, seq![]) is None,
{
}

/// The language an answer settles on is one of its candidates.
pub proof fn law_settled_language_is_candidate(pop: Seq<Seq<char>>, a: AnswerView)
    ensures
        language_of_answer(pop, a) matches Some(x) ==> seq_of_answer(a).contains(x),
{
    match a {
        AnswerView::Many(v) => {
            lemma_popular_part(pop, v);
            lemma_other_part(pop, v);
            let p = popular_part(pop, v);
            let o = other_part(pop, v);
            let s = sorted_by_popularity(pop, v);
            if s.len() > 0 {
                if p.len() > 0 {
                    assert(s[0] == p[0]);
                    assert(p.contains(p[0]));
                } else {
                    assert(s[0] == o[0]);
                    assert(o.contains(o[0]));
                }
            }
        },
        AnswerView::Only(x) => {
            assert(seq![x][0] == x);
        },
        AnswerView::Unknown => {},
    }
}

/// The popular part holds only candidates.
proof fn lemma_popular_part(pop: Seq<Seq<char>>, v: Seq<LanguageView>)
    ensures
        forall|x: LanguageView| popular_part(pop, v).contains(x) ==> v.contains(x),
    decreases v.len(),
{
    if v.len() > 0 {
        let v0 = v.drop_last();
        lemma_popular_part(pop, v0);
        assert forall|x: LanguageView| popular_part(pop, v).contains(x) implies v.contains(x) by {
            let p = popular_part(pop, v);
            let p0 = popular_part(pop, v0);
            let j = choose|j: int| 0 <= j < p.len() && p[j] == x;
            if crate::popular::is_popular(pop, v.last()) && j == p0.len() {
                assert(v[v.len() - 1] == x);
            } else {
                assert(popular_part(pop, v.drop_last())[j] == x);
                assert(popular_part(pop, v.drop_last()).contains(x));
                assert(v.drop_last().contains(x));
                let i = choose|i: int| 0 <= i < v.drop_last().len() && v.drop_last()[i] == x;
                assert(v[i] == x);
            }
        }
    }
}

/// The other part holds only candidates.
proof fn lemma_other_part(pop: Seq<Seq<char>>, v: Seq<LanguageView>)
    ensures
        forall|x: LanguageView| other_part(pop, v).contains(x) ==> v.contains(x),
    decreases v.len(),
{
    if v.len() > 0 {
        let v0 = v.drop_last();
        lemma_other_part(pop, v0);
        assert forall|x: LanguageView| other_part(pop, v).contains(x) implies v.contains(x) by {
            let p = other_part(pop, v);
            let p0 = other_part(pop, v0);
            let j = choose|j: int| 0 <= j < p.len() && p[j] == x;
            if !crate::popular::is_popular(pop, v.last()) && j == p0.len() {
                assert(v[v.len() - 1] == x);
            } else {
                assert(other_part(pop, v.drop_last())[j] == x);
                assert(other_part(pop, v.drop_last()).contains(x));
                assert(v.drop_last().contains(x));
                let i = choose|i: int| 0 <= i < v.drop_last().len() && v.drop_last()[i] == x;
                assert(v[i] == x);
            }
        }
    }
}

/// A regex set the `regex` crate rejected never matches.
pub proof fn law_rejected_regex_never_matches(text: Seq<char>)
    ensures
        !regex_view_matches(RegexView::Ruby, text),
{
}

/// A Jenkinsfile is never vendored for code search.
pub proof fn law_jenkinsfile_not_vendored(l: LinguistView, path: Seq<u8>)
    requires
        jenkinsfile_spec(path),
    ensures
        !search_vendored(l, path),
{
}

/// Ingested content is within the size limits and its path and content
/// are indexable.
pub proof fn law_ingested_is_indexable(limits: (usize, usize), l: LinguistView, path: &str, content: Seq<u8>)
    requires
        content.len() <= usize::MAX,
        ingest_result(limits, l, path, content) is Ok,
    ensures
        limits.0 <= content.len() <= limits.1,
        skip_reason(l, path, content) is None,
        skip_path_reason(l, path@) is None,
        meta_result(limits, content.len() as usize) is Ok,
{
}


/// The Emacs modeline answer over some parts is never several languages.
proof fn lemma_emacs_over_single(d: Seq<EntryView>, parts: Seq<Seq<u8>>)
    ensures
        !(crate::strategies::modeline::emacs_over(d, parts) is Many),
    decreases parts.len(),
{
    if parts.len() > 0 {
        lemma_emacs_over_single(d, parts.drop_first());
    }
}

/// The Vim modeline answer over some parts is never several languages.
proof fn lemma_vim_over_single(d: Seq<EntryView>, parts: Seq<Seq<u8>>)
    ensures
        !(crate::strategies::modeline::vim_over(d, parts) is Many),
    decreases parts.len(),
{
    if parts.len() > 0 {
        lemma_vim_over_single(d, parts.drop_first());
    }
}

/// Modelines, the XML declaration and the content heuristics find zero or
/// one language, never several.
pub proof fn law_single_language_strategies(l: LinguistView, path: Seq<u8>, content: Seq<u8>)
    ensures
        !(crate::strategies::modeline::by_emacs_modeline_spec(l.data, content) is Many),
        !(crate::strategies::modeline::by_vim_modeline_spec(l.data, content) is Many),
        !(crate::strategies::xml::by_xml_spec(l.data, content) is Many),
        !(crate::strategies::heuristics::by_content_heuristics_spec(l.heuristics, path, content) is Many),
{
    lemma_emacs_over_single(l.data, crate::strategies::modeline::limited_spec(content));
    lemma_vim_over_single(l.data, crate::strategies::modeline::limited_spec(content));
}

/// A manual page gets both manual page languages, anything else none.
pub proof fn law_manpage_answers(d: Seq<EntryView>, path: Seq<u8>)
    ensures
        crate::strategies::manpage::by_manpage_spec(d, path) is Unknown || crate::strategies::manpage::by_manpage_spec(d, path)
            == AnswerView::Many(
            seq![
                crate::strategies::named(d, "Roff Manpage"@),
                crate::strategies::named(d, "Roff"@),
            ],
        ),
{
}

/// A path whose final extension is generic gets no language by extension.
pub proof fn law_generic_extension_unknown(d: Seq<EntryView>, generic: Seq<Seq<char>>, path: Seq<u8>, ext: Seq<char>)
    requires
        crate::strategies::lowercase_ext_spec(path) == Some(ext),
        generic.contains(ext),
    ensures
        crate::strategies::extension::by_extension_spec(d, generic, path) is Unknown,
{
}

/// `go.sum` and `yarn.lock` are always generated for code search.
pub proof fn law_lock_files_generated(l: LinguistView, path: &str, content: &str)
    requires
        crate::path::file_name_spec(path.spec_bytes()) is Some,
    ensures
        vstd::utf8::decode_utf8(crate::path::file_name_spec(path.spec_bytes())->0) == "go.sum"@
            ==> crate::indexable::search_generated(l, path, content) == Some(
            crate::generated::Reason::FilePath(crate::generated::FilePathReason::GoSum),
        ),
        vstd::utf8::decode_utf8(crate::path::file_name_spec(path.spec_bytes())->0) == "yarn.lock"@
            ==> crate::indexable::search_generated(l, path, content) is Some,
{
}

/// Sorting by popularity keeps the number of candidates and puts every
/// popular candidate before every other one.
pub proof fn law_popular_first(pop: Seq<Seq<char>>, v: Seq<LanguageView>)
    ensures
        sorted_by_popularity(pop, v).len() == v.len(),
        forall|i: int, j: int|
            0 <= i < j < v.len() && crate::popular::is_popular(pop, #[trigger] sorted_by_popularity(pop, v)[j])
                ==> crate::popular::is_popular(pop, #[trigger] sorted_by_popularity(pop, v)[i]),
{
    lemma_part_lengths(pop, v);
    lemma_parts_popularity(pop, v);
    let p = popular_part(pop, v);
    let o = other_part(pop, v);
    let s = sorted_by_popularity(pop, v);
    assert forall|i: int, j: int|
        0 <= i < j < v.len() && crate::popular::is_popular(pop, #[trigger] s[j]) implies crate::popular::is_popular(pop, #[trigger] s[i]) by {
        if j >= p.len() {
            assert(s[j] == o[j - p.len()]);
        }
        assert(i < p.len());
        assert(s[i] == p[i]);
    }
}

proof fn lemma_part_lengths(pop: Seq<Seq<char>>, v: Seq<LanguageView>)
    ensures
        popular_part(pop, v).len() + other_part(pop, v).len() == v.len(),
    decreases v.len(),
{
    if v.len() > 0 {
        lemma_part_lengths(pop, v.drop_last());
    }
}

proof fn lemma_parts_popularity(pop: Seq<Seq<char>>, v: Seq<LanguageView>)
    ensures
        forall|i: int| 0 <= i < popular_part(pop, v).len() ==> crate::popular::is_popular(pop, #[trigger] popular_part(pop, v)[i]),
        forall|i: int| 0 <= i < other_part(pop, v).len() ==> !crate::popular::is_popular(pop, #[trigger] other_part(pop, v)[i]),
    decreases v.len(),
{
    if v.len() > 0 {
        lemma_parts_popularity(pop, v.drop_last());
        assert forall|i: int| 0 <= i < popular_part(pop, v).len() implies crate::popular::is_popular(pop, #[trigger] popular_part(pop, v)[i]) by {
            if i < popular_part(pop, v.drop_last()).len() {
                assert(popular_part(pop, v)[i] == popular_part(pop, v.drop_last())[i]);
            }
        }
        assert forall|i: int| 0 <= i < other_part(pop, v).len() implies !crate::popular::is_popular(pop, #[trigger] other_part(pop, v)[i]) by {
            if i < other_part(pop, v.drop_last()).len() {
                assert(other_part(pop, v)[i] == other_part(pop, v.drop_last())[i]);
            }
        }
    }
}


/// Bytes before the position `next_start` finds continue a character.
proof fn lemma_next_start_skips(b: Seq<u8>, i: int, upper: int)
    requires
        0 <= i <= upper <= b.len(),
    ensures
        i <= next_start(b, i, upper) <= upper,
        forall|k: int| i <= k < next_start(b, i, upper) ==> !(#[trigger] b[k] < 128 || b[k] >= 192),
    decreases upper - i,
{
    if i < upper && !(b[i] < 128 || b[i] >= 192) {
        lemma_next_start_skips(b, i + 1, upper);
    }
}

/// Where every byte continues a character, `next_start` reaches the bound.
proof fn lemma_next_start_all(b: Seq<u8>, i: int, upper: int)
    requires
        0 <= i <= upper <= b.len(),
        forall|k: int| i <= k < upper ==> !(#[trigger] b[k] < 128 || b[k] >= 192),
    ensures
        next_start(b, i, upper) == upper,
    decreases upper - i,
{
    if i < upper {
        lemma_next_start_all(b, i + 1, upper);
    }
}

/// Content heuristics: a path without an extension gets no language, and
/// only the first `MAX_BYTES_TO_SCAN` bytes of the content (extended to the
/// end of a character) decide the answer.
pub proof fn law_heuristics_scan(h: HeuristicsView, path: Seq<u8>, content: Seq<u8>)
    ensures
        lowercase_ext_spec(path) is None ==> by_content_heuristics_spec(h, path, content) is Unknown,
        content.len() > MAX_BYTES_TO_SCAN ==> by_content_heuristics_spec(h, path, content)
            == by_content_heuristics_spec(
            h,
            path,
            content.take(ceil_boundary(content, MAX_BYTES_TO_SCAN as int)),
        ),
{
    if content.len() > MAX_BYTES_TO_SCAN {
        let m = MAX_BYTES_TO_SCAN as int;
        let upper = if m + 4 < content.len() { m + 4 } else { content.len() as int };
        let c = ceil_boundary(content, m);
        lemma_next_start_skips(content, m, upper);
        let p = content.take(c);
        if c > m {
            let upper2 = if m + 4 < p.len() { m + 4 } else { p.len() as int };
            assert(upper2 == c);
            assert forall|k: int| m <= k < c implies !(#[trigger] p[k] < 128 || p[k] >= 192) by {
                assert(p[k] == content[k]);
            }
            lemma_next_start_all(p, m, c);
            assert(p.take(c) =~= p);
        }
        assert(scan_limit(p) == scan_limit(content));
    }
}

/// A file name has no `/` and is neither `.` nor `..`; it is its own file name.
proof fn lemma_file_name_of_file_name(path: Seq<u8>, f: Seq<u8>)
    requires
        file_name_spec(path) == Some(f),
    ensures
        file_name_spec(f) == Some(f),
{
    crate::path::lemma_last_piece(path, path.len() as int);
    lemma_last_piece_not_dot(path, path.len() as int);
    let (s, e) = file_name_range(path)->0;
    assert(f == path.subrange(s, e));
    assert forall|k: int| 0 <= k < f.len() implies f[k] != 47u8 by {
        assert(f[k] == path[s + k]);
    }
    lemma_piece_start_no_slash(f, f.len() as int);
    assert(f.subrange(0, f.len() as int) =~= f);
}

/// Without `/`, a piece starts at 0.
proof fn lemma_piece_start_no_slash(b: Seq<u8>, end: int)
    requires
        0 <= end <= b.len(),
        forall|k: int| 0 <= k < b.len() ==> b[k] != 47u8,
    ensures
        piece_start(b, end) == 0,
    decreases end,
{
    if end > 0 {
        lemma_piece_start_no_slash(b, end - 1);
    }
}

/// A piece `last_piece` finds is not `.`.
proof fn lemma_last_piece_not_dot(b: Seq<u8>, end: int)
    ensures
        last_piece(b, end) matches Some((s, e)) ==> !(e - s == 1 && b[s] == 46u8),
    decreases end,
{
    if 0 < end <= b.len() {
        if b[end - 1] == 47u8 {
            lemma_last_piece_not_dot(b, end - 1);
        } else {
            let s = piece_start(b, end);
            crate::path::lemma_piece_start(b, end);
            if end - s == 1 && b[s] == 46u8 {
                lemma_last_piece_not_dot(b, s);
            }
        }
    }
}

/// Vendored for code search: where a `cache` or `env` directory appears in
/// a path, the path counts as vendored exactly when its file name alone
/// does (the cache pattern, being about directories, is taken not to match
/// the file name itself).
pub proof fn law_cache_dirs_ignored(l: LinguistView, path: Seq<u8>, f: Seq<u8>)
    requires
        file_name_spec(path) == Some(f),
        pattern_matches(CACHE_DIRS@, decode_utf8(path)),
        !pattern_matches(CACHE_DIRS@, decode_utf8(f)),
    ensures
        search_vendored(l, path) == search_vendored(l, f),
{
    lemma_file_name_of_file_name(path, f);
}

/// No two languages of the table share an id.
pub open spec fn ids_unique(d: Seq<EntryView>) -> bool {
    forall|i: int, j: int| 0 <= i < j < d.len() ==> #[trigger] d[i].language.language_id != #[trigger] d[j].language.language_id
}

/// No two languages of the table share a name.
pub open spec fn names_unique(d: Seq<EntryView>) -> bool {
    forall|i: int, j: int| 0 <= i < j < d.len() ==> #[trigger] d[i].language.name != #[trigger] d[j].language.name
}

/// What `last_with` finds: an entry satisfying `p` with none after it.
proof fn lemma_last_with(es: Seq<EntryView>, p: spec_fn(EntryView) -> bool)
    ensures
        last_with(es, p) matches Some(i) ==> 0 <= i < es.len() && p(es[i]) && forall|j: int|
            i < j < es.len() ==> !p(#[trigger] es[j]),
    decreases es.len(),
{
    if es.len() > 0 && !p(es.last()) {
        lemma_last_with(es.drop_last(), p);
        if let Some(i) = last_with(es, p) {
            assert forall|j: int| i < j < es.len() implies !p(#[trigger] es[j]) by {
                if j < es.len() - 1 {
                    assert(es.drop_last()[j] == es[j]);
                }
            }
        }
    }
}

/// The only entry satisfying `p` is the one `last_with` finds.
proof fn lemma_last_with_unique(es: Seq<EntryView>, p: spec_fn(EntryView) -> bool, i: int)
    requires
        0 <= i < es.len(),
        p(es[i]),
        forall|j: int| 0 <= j < es.len() && j != i ==> !p(#[trigger] es[j]),
    ensures
        last_with(es, p) == Some(i),
    decreases es.len(),
{
    if i < es.len() - 1 {
        assert(!p(es[es.len() - 1]));
        assert forall|j: int| 0 <= j < es.drop_last().len() && j != i implies !p(#[trigger] es.drop_last()[j]) by {
            assert(es.drop_last()[j] == es[j]);
        }
        lemma_last_with_unique(es.drop_last(), p, i);
    }
}

/// With ids and names unique, looking a language up by name and then by
/// its id gives it back, and so does looking it up by id and then by name.
pub proof fn law_name_id_roundtrip(d: Seq<EntryView>, name: Seq<char>, id: crate::data::LanguageId)
    requires
        ids_unique(d),
        names_unique(d),
    ensures
        language_at(d, last_with(d, has_name(name))) matches Some(l) ==> l.name == name && language_at(
            d,
            last_with(d, has_id(l.language_id)),
        ) == Some(l),
        language_at(d, last_with(d, has_id(id))) matches Some(m) ==> m.language_id == id && language_at(
            d,
            last_with(d, has_name(m.name)),
        ) == Some(m),
{
    lemma_last_with(d, has_name(name));
    lemma_last_with(d, has_id(id));
    if let Some(i) = last_with(d, has_name(name)) {
        let l = d[i].language;
        assert forall|j: int| 0 <= j < d.len() && j != i implies !has_id(l.language_id)(#[trigger] d[j]) by {
            if j < i {
                assert(d[j].language.language_id != d[i].language.language_id);
            } else {
                assert(d[i].language.language_id != d[j].language.language_id);
            }
        }
        lemma_last_with_unique(d, has_id(l.language_id), i);
    }
    if let Some(i) = last_with(d, has_id(id)) {
        let m = d[i].language;
        assert forall|j: int| 0 <= j < d.len() && j != i implies !has_name(m.name)(#[trigger] d[j]) by {
            if j < i {
                assert(d[j].language.name != d[i].language.name);
            } else {
                assert(d[i].language.name != d[j].language.name);
            }
        }
        lemma_last_with_unique(d, has_name(m.name), i);
    }
}


/// Running some strategies and then the rest is running them all.
pub proof fn lemma_fold_split(
    l: LinguistView,
    ss: Seq<(crate::strategies::StrategyKind, crate::strategies::ShouldRun)>,
    path: Seq<u8>,
    content: Seq<u8>,
    acc: AnswerView,
    i: int,
)
    requires
        0 <= i <= ss.len(),
    ensures
        fold_strategies(l, ss, path, content, acc) == fold_strategies(
            l,
            ss.skip(i),
            path,
            content,
            fold_strategies(l, ss.take(i), path, content, acc),
        ),
    decreases i,
{
    if i == 0 {
        assert(ss.skip(0) =~= ss);
        assert(ss.take(0).len() == 0);
    } else {
        let next = if acc is Only {
            acc
        } else if crate::strategies::runs(ss[0].1, acc) {
            crate::strategies::combine(crate::strategy_answer(l, ss[0].0, path, content), acc)
        } else {
            acc
        };
        assert(fold_strategies(l, ss, path, content, acc) == fold_strategies(l, ss.drop_first(), path, content, next));
        lemma_fold_split(l, ss.drop_first(), path, content, next, i - 1);
        assert(ss.drop_first().skip(i - 1) =~= ss.skip(i));
        assert(ss.drop_first().take(i - 1) =~= ss.take(i).drop_first());
        assert(ss.take(i)[0] == ss[0]);
        assert(fold_strategies(l, ss.take(i), path, content, acc) == fold_strategies(
            l,
            ss.take(i).drop_first(),
            path,
            content,
            next,
        ));
    }
}

/// A strategy that always runs and finds one language decides detection,
/// whatever the later strategies find and whatever candidates the earlier
/// ones listed, provided the earlier ones had not already settled on one
/// language (which an intersection of their candidates can do).
pub proof fn law_single_language_decides(l: LinguistView, path: Seq<u8>, content: Seq<u8>, i: int, x: LanguageView)
    requires
        content.len() > 0,
        0 <= i < 5,
        crate::strategy_answer(l, crate::strategies::default_strategies()[i].0, path, content) == AnswerView::Only(x),
        !(fold_strategies(l, crate::strategies::default_strategies().take(i), path, content, AnswerView::Unknown) is Only),
    ensures
        crate::detect_spec(l, path, content) == Some(x),
{
    let ss = crate::strategies::default_strategies();
    let before = fold_strategies(l, ss.take(i), path, content, AnswerView::Unknown);
    lemma_fold_split(l, ss, path, content, AnswerView::Unknown, i);
    let rest = ss.skip(i);
    assert(rest[0] == ss[i]);
    assert(ss[i].1 == crate::strategies::ShouldRun::Always);
    assert(rest.drop_first() =~= ss.skip(i + 1));
    law_single_answer_is_final(l, ss.skip(i + 1), path, content, x);
    assert(fold_strategies(l, rest, path, content, before) == fold_strategies(
        l,
        rest.drop_first(),
        path,
        content,
        AnswerView::Only(x),
    ));
}

/// Candidate lists with nothing in common give no language: where only the
/// file name and the extension find languages, several each and none in
/// common, detection finds none.
pub proof fn law_disjoint_candidates_undetected(
    l: LinguistView,
    path: Seq<u8>,
    content: Seq<u8>,
    a: Seq<LanguageView>,
    b: Seq<LanguageView>,
)
    requires
        content.len() > 0,
        crate::strategy_answer(l, crate::strategies::StrategyKind::EmacsModeline, path, content) is Unknown,
        crate::strategy_answer(l, crate::strategies::StrategyKind::VimModeline, path, content) is Unknown,
        crate::strategy_answer(l, crate::strategies::StrategyKind::Filename, path, content) == AnswerView::Many(a),
        crate::strategy_answer(l, crate::strategies::StrategyKind::Shebang, path, content) is Unknown,
        crate::strategy_answer(l, crate::strategies::StrategyKind::Extension, path, content) == AnswerView::Many(b),
        crate::strategy_answer(l, crate::strategies::StrategyKind::Xml, path, content) is Unknown,
        crate::strategy_answer(l, crate::strategies::StrategyKind::Manpage, path, content) is Unknown,
        crate::strategy_answer(l, crate::strategies::StrategyKind::ContentHeuristics, path, content) is Unknown,
        forall|y: LanguageView| b.contains(y) ==> !a.contains(y),
    ensures
        crate::detect_spec(l, path, content) is None,
{
    lemma_keep_in(b, a);
    if keep_in(b, a).len() > 0 {
        let y = keep_in(b, a)[0];
        assert(keep_in(b, a).contains(y));
        assert(b.contains(y) && a.contains(y));
    }
    assert(keep_in(b, a).len() == 0);
    assert(intersect_spec(AnswerView::Many(b), AnswerView::Many(a)) == AnswerView::Unknown);
    let ss = crate::strategies::default_strategies();
    reveal_with_fuel(fold_strategies, 10);
    assert(ss.drop_first()[0] == ss[1]);
    assert(fold_strategies(l, ss, path, content, AnswerView::Unknown) == AnswerView::Unknown) by {
        let t = ss;
        assert(t.drop_first() =~= seq![ss[1], ss[2], ss[3], ss[4], ss[5], ss[6], ss[7]]);
        assert(t.drop_first().drop_first() =~= seq![ss[2], ss[3], ss[4], ss[5], ss[6], ss[7]]);
        assert(t.drop_first().drop_first().drop_first() =~= seq![ss[3], ss[4], ss[5], ss[6], ss[7]]);
        assert(t.drop_first().drop_first().drop_first().drop_first() =~= seq![ss[4], ss[5], ss[6], ss[7]]);
        assert(t.drop_first().drop_first().drop_first().drop_first().drop_first() =~= seq![ss[5], ss[6], ss[7]]);
        assert(t.drop_first().drop_first().drop_first().drop_first().drop_first().drop_first() =~= seq![ss[6], ss[7]]);
        assert(t.drop_first().drop_first().drop_first().drop_first().drop_first().drop_first().drop_first() =~= seq![ss[7]]);
    }
}


/// A key occurs nowhere in keys that do not hold it.
proof fn lemma_occurrences_zero(ks: Seq<Seq<char>>, key: Seq<char>)
    requires
        !ks.contains(key),
    ensures
        crate::data::occurrences(ks, key) == 0,
    decreases ks.len(),
{
    if ks.len() > 0 {
        assert(ks.last() == ks[ks.len() - 1]);
        assert forall|x: Seq<char>| ks.drop_last().contains(x) implies ks.contains(x) by {
            let j = choose|j: int| 0 <= j < ks.drop_last().len() && ks.drop_last()[j] == x;
            assert(ks[j] == x);
        }
        lemma_occurrences_zero(ks.drop_last(), key);
    }
}

/// A key no entry lists finds nothing.
proof fn lemma_hits_empty(es: Seq<EntryView>, kind: crate::data::KeyKind, key: Seq<char>)
    requires
        forall|i: int| 0 <= i < es.len() ==> !crate::data::keys_of(#[trigger] es[i], kind).contains(key),
    ensures
        crate::data::hits(es, kind, key).len() == 0,
    decreases es.len(),
{
    if es.len() > 0 {
        assert(es.last() == es[es.len() - 1]);
        lemma_occurrences_zero(crate::data::keys_of(es.last(), kind), key);
        assert forall|i: int| 0 <= i < es.drop_last().len() implies !crate::data::keys_of(
            #[trigger] es.drop_last()[i],
            kind,
        ).contains(key) by {
            assert(es.drop_last()[i] == es[i]);
        }
        lemma_hits_empty(es.drop_last(), kind, key);
    }
}

/// The extension keys a table built by `LinguistData::new` stores from ASCII
/// extensions (each with its dot, none starting with `..`) are lowercase and without a leading
/// dot, and lookups are exact: an extension holding an ASCII upper-case
/// letter, or starting with `.`, finds no language.
pub proof fn law_extension_lookup_exact(
    records: Seq<crate::data::LanguageRecord>,
    d: Seq<EntryView>,
    ext: Seq<char>,
)
    requires
        d == records.map_values(|x: crate::data::LanguageRecord| crate::data::entry_of_record(x)),
        forall|i: int, k: int|
            0 <= i < records.len() && 0 <= k < records[i].extensions@.len() && crate::text::ascii_only(
                #[trigger] crate::data::views(records[i].extensions@)[k],
            ) ==> d[i].extensions[k] == crate::text::ascii_lower(
                crate::data::views(records[i].extensions@)[k].drop_first(),
            ),
        forall|i: int, k: int|
            0 <= i < records.len() && 0 <= k < records[i].extensions@.len() ==> crate::text::ascii_only(
                #[trigger] crate::data::views(records[i].extensions@)[k],
            ) && crate::data::views(records[i].extensions@)[k].len() >= 1 && (crate::data::views(
                records[i].extensions@,
            )[k].len() < 2 || crate::data::views(records[i].extensions@)[k][1] != '.'),
        (exists|j: int| 0 <= j < ext.len() && 'A' <= #[trigger] ext[j] && ext[j] <= 'Z') || (ext.len() > 0
            && ext[0] == '.'),
    ensures
        crate::data::hits(d, crate::data::KeyKind::Extension, ext).len() == 0,
{
    assert forall|i: int| 0 <= i < d.len() implies !crate::data::keys_of(
        #[trigger] d[i],
        crate::data::KeyKind::Extension,
    ).contains(ext) by {
        let ks = d[i].extensions;
        let raws = crate::data::views(records[i].extensions@);
        assert(ks.len() == raws.len());
        if ks.contains(ext) {
            let k = choose|k: int| 0 <= k < ks.len() && ks[k] == ext;
            let raw = raws[k];
            assert(crate::text::ascii_only(raw));
            assert(ks[k] == crate::text::ascii_lower(raw.drop_first()));
            if ext.len() > 0 && ext[0] == '.' {
                assert(raw.len() >= 1);
                assert(ks[k].len() == raw.drop_first().len());
                assert(raw.len() >= 2);
                assert(ext[0] == crate::text::ascii_lower_char(raw[1]));
                assert(raw[1] != '.');
            } else {
                let j = choose|j: int| 0 <= j < ext.len() && 'A' <= #[trigger] ext[j] && ext[j] <= 'Z';
                assert(ext[j] == crate::text::ascii_lower_char(raw[j + 1]));
            }
        }
    }
    lemma_hits_empty(d, crate::data::KeyKind::Extension, ext);
}

/// Extension detection tries the dotted suffixes of the lowercase file name
/// from the first dot on.
proof fn lemma_ext_hits_from(d: Seq<EntryView>, n: Seq<char>, i: int, k: int)
    requires
        0 <= i <= k < n.len(),
        n[k] == '.',
        crate::data::hits(d, crate::data::KeyKind::Extension, n.skip(k + 1)).len() > 0,
        forall|j: int|
            0 <= j < k && n[j] == '.' ==> #[trigger] crate::data::hits(d, crate::data::KeyKind::Extension, n.skip(j + 1)).len()
                == 0,
    ensures
        crate::strategies::extension::ext_hits_from(d, n, i) == crate::data::hits(
            d,
            crate::data::KeyKind::Extension,
            n.skip(k + 1),
        ),
    decreases k - i,
{
    if i < k {
        lemma_ext_hits_from(d, n, i + 1, k);
    }
}

proof fn lemma_ext_hits_none(d: Seq<EntryView>, n: Seq<char>, i: int)
    requires
        0 <= i,
        forall|j: int|
            0 <= j < n.len() && n[j] == '.' ==> #[trigger] crate::data::hits(d, crate::data::KeyKind::Extension, n.skip(j + 1)).len()
                == 0,
    ensures
        crate::strategies::extension::ext_hits_from(d, n, i).len() == 0,
    decreases n.len() - i,
{
    if i < n.len() {
        lemma_ext_hits_none(d, n, i + 1);
    }
}

/// Where the final extension is not generic, the extension strategy answers
/// with the languages of the first dotted suffix of the lowercase file name
/// (`js.erb` before `erb`) that `languages_by_extension` finds languages
/// for, and with nothing where there is none.
pub proof fn law_extension_first_suffix(d: Seq<EntryView>, generic: Seq<Seq<char>>, path: Seq<u8>, k: int)
    requires
        file_name_spec(path) is Some,
        !(lowercase_ext_spec(path) matches Some(e) && generic.contains(e)),
    ensures
        ({
            let n = crate::text::lowercase(decode_utf8(file_name_spec(path)->0));
            (0 <= k < n.len() && n[k] == '.' && crate::data::hits(d, crate::data::KeyKind::Extension, n.skip(k + 1)).len()
                > 0 && (forall|j: int|
                0 <= j < k && n[j] == '.' ==> #[trigger] crate::data::hits(
                    d,
                    crate::data::KeyKind::Extension,
                    n.skip(j + 1),
                ).len() == 0)) ==> crate::strategies::extension::by_extension_spec(d, generic, path)
                == answer_of_seq(crate::data::hits(d, crate::data::KeyKind::Extension, n.skip(k + 1)))
        }),
        ({
            let n = crate::text::lowercase(decode_utf8(file_name_spec(path)->0));
            (forall|j: int|
                0 <= j < n.len() && n[j] == '.' ==> #[trigger] crate::data::hits(
                    d,
                    crate::data::KeyKind::Extension,
                    n.skip(j + 1),
                ).len() == 0) ==> crate::strategies::extension::by_extension_spec(d, generic, path) is Unknown
        }),
{
    let n = crate::text::lowercase(decode_utf8(file_name_spec(path)->0));
    if 0 <= k < n.len() && n[k] == '.' && crate::data::hits(d, crate::data::KeyKind::Extension, n.skip(k + 1)).len()
        > 0 && (forall|j: int|
        0 <= j < k && n[j] == '.' ==> #[trigger] crate::data::hits(
            d,
            crate::data::KeyKind::Extension,
            n.skip(j + 1),
        ).len() == 0) {
        lemma_ext_hits_from(d, n, 0, k);
    }
    if forall|j: int|
        0 <= j < n.len() && n[j] == '.' ==> #[trigger] crate::data::hits(
            d,
            crate::data::KeyKind::Extension,
            n.skip(j + 1),
        ).len() == 0 {
        lemma_ext_hits_none(d, n, 0);
    }
}

/// `init` has no hidden state: building from the same sources twice gives
/// the same library, so detection, lookups and the generated and indexing
/// checks answer the same on every input.
pub proof fn law_init_repeatable(
    s: crate::LinguistSources,
    a: LinguistView,
    b: LinguistView,
    path: &str,
    content: &str,
)
    requires
        a == crate::init_view(s),
        b == crate::init_view(s),
    ensures
        a == b,
        crate::detect_spec(a, path.spec_bytes(), content.spec_bytes()) == crate::detect_spec(
            b,
            path.spec_bytes(),
            content.spec_bytes(),
        ),
        skip_reason(a, path, content.spec_bytes()) == skip_reason(b, path, content.spec_bytes()),
        crate::generated::generated_reason(a.generated_paths, a.generated_contents, path, content)
            == crate::generated::generated_reason(b.generated_paths, b.generated_contents, path, content),
{
}

} // verus!

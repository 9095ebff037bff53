//! Detection strategies and their answers.
pub mod extension;
pub mod filename;
pub mod heuristics;
pub mod manpage;
pub mod modeline;
pub mod shebang;
pub mod xml;

use vstd::prelude::*;
use crate::data::{EntryView, Language, LanguageView, has_name, language_at, language_views, last_with};
use crate::popular::{PopularLanguages, sort_by_popularity, sorted_by_popularity};
use crate::path::{extension, extension_spec};
use crate::text::{lowercase, to_lowercase};
use vstd::utf8::decode_utf8;
use vstd::string::*;

verus! {

/// The strategies, in the order `detect` runs them.
#[derive(Debug, Clone, Copy, PartialEq, Eq, Structural)]
pub enum StrategyKind {
    EmacsModeline,
    VimModeline,
    Filename,
    Shebang,
    Extension,
    Xml,
    Manpage,
    ContentHeuristics,
}

/// A predicate to determine if a strategy should be run or not.
#[derive(Debug, Clone, Copy, PartialEq, Eq, Structural)]
pub enum ShouldRun {
    Always,
    OnlyIfNoAnswer,
}

/// A strategy for determining the language of a file.
pub struct Strategy {
    pub name: &'static str,
    pub kind: StrategyKind,
    pub should_run: ShouldRun,
}

/// The result of running a strategy: zero, one or several candidate languages.
#[derive(Clone, PartialEq, Eq, Debug)]
pub enum Answer<'a> {
    Unknown,
    Only(&'a Language),
    Many(Vec<&'a Language>),
}

/// The abstract value of an `Answer`.
pub enum AnswerView {
    Unknown,
    Only(LanguageView),
    Many(Seq<LanguageView>),
}

impl<'a> View for Answer<'a> {
    type V = AnswerView;

    open spec fn view(&self) -> AnswerView {
        match self {
            Answer::Unknown => AnswerView::Unknown,
            Answer::Only(l) => AnswerView::Only(l@),
            Answer::Many(v) => AnswerView::Many(language_views(v@)),
        }
    }
}

/// The answer made from a list of candidates: none, exactly one, or several.
pub open spec fn answer_of_seq(v: Seq<LanguageView>) -> AnswerView {
    if v.len() == 0 {
        AnswerView::Unknown
    } else if v.len() == 1 {
        AnswerView::Only(v[0])
    } else {
        AnswerView::Many(v)
    }
}

/// The candidates of an answer.
pub open spec fn seq_of_answer(a: AnswerView) -> Seq<LanguageView> {
    match a {
        AnswerView::Unknown => seq![],
        AnswerView::Only(x) => seq![x],
        AnswerView::Many(v) => v,
    }
}

/// The answer made from an optional language.
pub open spec fn answer_of_option(o: Option<LanguageView>) -> AnswerView {
    match o {
        Some(x) => AnswerView::Only(x),
        None => AnswerView::Unknown,
    }
}

/// The candidates of `a` that also occur in `b`, in order.
pub open spec fn keep_in(a: Seq<LanguageView>, b: Seq<LanguageView>) -> Seq<LanguageView>
    decreases a.len(),
{
    if a.len() == 0 {
        seq![]
    } else if b.contains(a.last()) {
        keep_in(a.drop_last(), b).push(a.last())
    } else {
        keep_in(a.drop_last(), b)
    }
}

/// The answer keeping the candidates of `a` that `b` also names.
pub open spec fn intersect_spec(a: AnswerView, b: AnswerView) -> AnswerView {
    answer_of_seq(keep_in(seq_of_answer(a), seq_of_answer(b)))
}

/// A label for an answer: `unknown`, or the name of its (first) language.
pub open spec fn label_spec(a: AnswerView) -> Seq<char> {
    match a {
        AnswerView::Unknown => "unknown"@,
        AnswerView::Only(x) => x.name,
        AnswerView::Many(v) => v[0].name,
    }
}

/// The language an answer settles on: its only language, or the first one
/// once the candidates are sorted with the popular languages first.
pub open spec fn language_of_answer(pop: Seq<Seq<char>>, a: AnswerView) -> Option<LanguageView> {
    match a {
        AnswerView::Unknown => None,
        AnswerView::Only(x) => Some(x),
        AnswerView::Many(v) => if sorted_by_popularity(pop, v).len() > 0 {
            Some(sorted_by_popularity(pop, v)[0])
        } else {
            None
        },
    }
}

/// Whether `langs` holds a language equal to `l`.
fn contains_language(langs: &Vec<&Language>, l: &Language) -> (r: bool)
    ensures
        r == language_views(langs@).contains(l@),
{
    let mut i: usize = 0;
    while i < langs.len()
        invariant
            i <= langs@.len(),
            forall|k: int| 0 <= k < i ==> language_views(langs@)[k] != l@,
        decreases langs@.len() - i,
    {
        if *langs[i] == *l {
            assert(language_views(langs@)[i as int] == l@);
            return true;
        }
        i = i + 1;
    }
    false
}

impl<'a> Answer<'a> {
    /// The answer for a list of candidates.
    pub fn from_vec(v: Vec<&'a Language>) -> (a: Answer<'a>)
        ensures
            a@ == answer_of_seq(language_views(v@)),
    {
        if v.len() == 0 {
            Answer::Unknown
        } else if v.len() == 1 {
            Answer::Only(v[0])
        } else {
            Answer::Many(v)
        }
    }

    /// The answer for an optional language.
    pub fn from_option(o: Option<&'a Language>) -> (a: Answer<'a>)
        ensures
            a@ == answer_of_option(
                match o {
                    Some(l) => Some(l@),
                    None => None,
                },
            ),
    {
        match o {
            Some(l) => Answer::Only(l),
            None => Answer::Unknown,
        }
    }

    /// The candidates of the answer.
    pub fn into_vec(self) -> (v: Vec<&'a Language>)
        ensures
            language_views(v@) == seq_of_answer(self@),
    {
        match self {
            Answer::Unknown => Vec::new(),
            Answer::Only(x) => {
                let mut v = Vec::new();
                v.push(x);
                assert(language_views(v@) =~= seq![x@]);
                v
            },
            Answer::Many(v) => v,
        }
    }

    /// Keeps the candidates of `self` that `other` also names, in order.
    pub fn intersect(self, other: Self) -> (r: Self)
        ensures
            r@ == intersect_spec(self@, other@),
    {
        let a = self.into_vec();
        let b = other.into_vec();
        let ghost av = language_views(a@);
        let ghost bv = language_views(b@);
        let mut kept: Vec<&'a Language> = Vec::new();
        let mut i: usize = 0;
        while i < a.len()
            invariant
                i <= a@.len(),
                av == language_views(a@),
                bv == language_views(b@),
                language_views(kept@) == keep_in(av.take(i as int), bv),
            decreases a@.len() - i,
        {
            let x = a[i];
            assert(av.take(i + 1).drop_last() =~= av.take(i as int));
            assert(av.take(i + 1).last() == x@);
            if contains_language(&b, x) {
                let ghost before = kept@;
                kept.push(x);
                assert(language_views(kept@) =~= language_views(before).push(x@));
            }
            i = i + 1;
        }
        assert(av.take(i as int) =~= av);
        Answer::from_vec(kept)
    }

    /// A label for the answer; a `Many` answer must hold a language.
    pub fn label(&self) -> (s: &str)
        requires
            self@ is Many ==> seq_of_answer(self@).len() > 0,
        ensures
            s@ == label_spec(self@),
    {
        match self {
            Answer::Unknown => "unknown",
            Answer::Only(x) => x.name.as_str(),
            Answer::Many(xs) => xs[0].name.as_str(),
        }
    }

    /// The language the answer settles on (see `language_of_answer`).
    pub fn into_language(self, popular: &PopularLanguages) -> (r: Option<&'a Language>)
        ensures
            match r {
                Some(l) => language_of_answer(popular@, self@) == Some(l@),
                None => language_of_answer(popular@, self@) is None,
            },
    {
        match self {
            Answer::Unknown => None,
            Answer::Only(x) => Some(x),
            Answer::Many(xs) => {
                let mut xs = xs;
                sort_by_popularity(&mut xs, popular);
                if xs.len() > 0 {
                    Some(xs[0])
                } else {
                    None
                }
            },
        }
    }
}

/// Whether the table holds a language named `name`.
pub open spec fn has_language(d: Seq<EntryView>, name: Seq<char>) -> bool {
    last_with(d, has_name(name)) is Some
}

/// The language named `name` (the last one of that name).
pub open spec fn named(d: Seq<EntryView>, name: Seq<char>) -> LanguageView {
    language_at(d, last_with(d, has_name(name)))->0
}

/// The language named `name`, which the table holds.
pub fn known_language<'a>(data: &'a crate::data::LinguistData, name: &str) -> (l: &'a Language)
    requires
        has_language(data@, name@),
    ensures
        l@ == named(data@, name@),
{
    match data.by_name(name) {
        Some(l) => l,
        None => {
            assert(false);
            data.by_name(name).unwrap()
        },
    }
}

/// The lowercase extension of a path, if it has one.
pub open spec fn lowercase_ext_spec(path: Seq<u8>) -> Option<Seq<char>> {
    match extension_spec(path) {
        Some(e) => Some(lowercase(decode_utf8(e))),
        None => None,
    }
}

/// Returns the lowercase extension of a path if it has one.
pub fn lowercase_ext(path: &str) -> (r: Option<String>)
    ensures
        match r {
            Some(e) => lowercase_ext_spec(path.spec_bytes()) == Some(e@),
            None => lowercase_ext_spec(path.spec_bytes()) is None,
        },
{
    match extension(path) {
        Some(e) => {
            proof {
                crate::text::lemma_view_is_decoded(e);
            }
            Some(to_lowercase(e))
        },
        None => None,
    }
}


/// The abstract value of a strategy: what it runs and when.
pub open spec fn strategy_view(s: Strategy) -> (StrategyKind, ShouldRun) {
    (s.kind, s.should_run)
}

/// The default strategies, in the order `detect` runs them.
pub open spec fn default_strategies() -> Seq<(StrategyKind, ShouldRun)> {
    seq![
        (StrategyKind::EmacsModeline, ShouldRun::Always),
        (StrategyKind::VimModeline, ShouldRun::Always),
        (StrategyKind::Filename, ShouldRun::Always),
        (StrategyKind::Shebang, ShouldRun::Always),
        (StrategyKind::Extension, ShouldRun::Always),
        (StrategyKind::Xml, ShouldRun::OnlyIfNoAnswer),
        (StrategyKind::Manpage, ShouldRun::OnlyIfNoAnswer),
        (StrategyKind::ContentHeuristics, ShouldRun::Always),
    ]
}

/// The names of the default strategies, in order.
pub open spec fn default_strategy_names() -> Seq<Seq<char>> {
    seq![
        "emacs_modeline"@,
        "vim_modeline"@,
        "filename"@,
        "shebang"@,
        "extension"@,
        "xml"@,
        "manpage"@,
        "content_heuristics"@,
    ]
}

/// The default linguist strategies to run, in order, to detect the language
/// of a file. The modelines and the content heuristics give zero or one
/// language; file name, shebang and extension zero or more; xml and manpage
/// run only while nothing has been found.
pub fn default() -> (r: Vec<Strategy>)
    ensures
        r@.map_values(|s: Strategy| strategy_view(s)) == default_strategies(),
        r@.map_values(|s: Strategy| s.name@) == default_strategy_names(),
{
    let r = vec![
        Strategy { name: "emacs_modeline", kind: StrategyKind::EmacsModeline, should_run: ShouldRun::Always },
        Strategy { name: "vim_modeline", kind: StrategyKind::VimModeline, should_run: ShouldRun::Always },
        Strategy { name: "filename", kind: StrategyKind::Filename, should_run: ShouldRun::Always },
        Strategy { name: "shebang", kind: StrategyKind::Shebang, should_run: ShouldRun::Always },
        Strategy { name: "extension", kind: StrategyKind::Extension, should_run: ShouldRun::Always },
        Strategy { name: "xml", kind: StrategyKind::Xml, should_run: ShouldRun::OnlyIfNoAnswer },
        Strategy { name: "manpage", kind: StrategyKind::Manpage, should_run: ShouldRun::OnlyIfNoAnswer },
        Strategy {
            name: "content_heuristics",
            kind: StrategyKind::ContentHeuristics,
            should_run: ShouldRun::Always,
        },
    ];
    assert(r@.map_values(|s: Strategy| strategy_view(s)) =~= default_strategies());
    assert(r@.map_values(|s: Strategy| s.name@) =~= default_strategy_names());
    r
}

/// The new answer after a strategy answered `res` to the current `acc`: the
/// current one where the strategy found nothing, the intersection where both
/// hold several candidates, else the strategy's answer.
pub open spec fn combine(res: AnswerView, acc: AnswerView) -> AnswerView {
    match res {
        AnswerView::Unknown => acc,
        AnswerView::Many(_) => match acc {
            AnswerView::Many(_) => intersect_spec(res, acc),
            _ => res,
        },
        _ => res,
    }
}

/// Whether a strategy runs given the current answer.
pub open spec fn runs(when: ShouldRun, acc: AnswerView) -> bool {
    match when {
        ShouldRun::Always => true,
        ShouldRun::OnlyIfNoAnswer => acc is Unknown,
    }
}

/// Combines an answer with the answer of a strategy run when it should.
pub fn combine_answers<'a>(res: Answer<'a>, acc: Answer<'a>) -> (r: Answer<'a>)
    ensures
        r@ == combine(res@, acc@),
{
    match res {
        Answer::Unknown => acc,
        Answer::Many(v) => match acc {
            Answer::Many(w) => Answer::Many(v).intersect(Answer::Many(w)),
            other => {
                let r = Answer::Many(v);
                assert(r@ == res@);
                r
            },
        },
        other => other,
    }
}

} // verus!

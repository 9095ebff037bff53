//! Language detection and indexing rules for source files: which language a
//! file is written in, and whether it is vendored, generated, a test, a
//! document, or fit for indexing.
pub mod data;
pub mod fixtures;
pub mod generated;
pub mod indexable;
pub mod languages;
pub mod linguist_c;
pub mod laws;
pub mod path;
pub mod popular;
pub mod regex;
pub mod rule_laws;
pub mod rules;
pub mod strategies;
pub mod text;
pub mod vendored;

pub use crate::data::{Language, LanguageType};
pub use crate::indexable::IngestFilter;
pub use crate::languages::LanguageId;

use vstd::prelude::*;
use vstd::string::*;
use crate::data::{
    DataError, EntryView, KeyKind, LanguageRecord, LinguistData, entry_of_record,
    extensions_dotted, has_alias, has_id, has_name, hits, language_at, last_with, lowercased,
    opt_language_view, records_valid, views,
};
use crate::generated::{
    ContentRuleView, GeneratedContentRules, GeneratedPathRules, PathRulesView, flatten_groups,
    generated_content_groups, generated_path_rules_view,
};
use crate::indexable::{unsuitable_content_groups, unsuitable_path_rules_view};
use crate::popular::PopularLanguages;
use crate::regex::{regex_set_compiles, regex_set_matches};
use crate::rules::{PathRules, unescaped_all};
use crate::strategies::extension::{GenericExtensions, GenericError};
use crate::strategies::heuristics::{
    ContentHeuristics, HeuristicsError, HeuristicsRecord, HeuristicsView, heuristics_error,
    heuristics_view_of,
};
use crate::strategies::{
    Answer, AnswerView, ShouldRun, StrategyKind, combine, combine_answers, has_language,
    language_of_answer, runs,
};

verus! {

/// The data files the library is built from: the records of
/// `languages.yml`, the names of `popular.yml`, the extensions of
/// `generic.yml`, `heuristics.yml`, and the regex lists of `vendor.yml`,
/// `tests.yml`, `documentation.yml` and `dependency_management.yml`.
pub struct LinguistSources {
    pub languages: Vec<LanguageRecord>,
    pub popular: Vec<String>,
    pub generic: Vec<String>,
    pub heuristics: HeuristicsRecord,
    pub vendor: Vec<String>,
    pub tests: Vec<String>,
    pub documentation: Vec<String>,
    pub dependency_management: Vec<String>,
}

/// Why the library could not be built from its data files.
#[derive(Debug, Clone, PartialEq, Eq)]
pub enum InitError {
    /// `languages.yml` lists an extension without its dot.
    Languages(DataError),
    /// `languages.yml` lacks `XML`, `Roff` or `Roff Manpage`.
    MissingLanguage,
    /// `generic.yml` lists an extension without its dot.
    Generic(GenericError),
    /// `heuristics.yml` is inconsistent.
    Heuristics(HeuristicsError),
    /// The regex crate rejects the path rules of generated files.
    GeneratedPathRules,
    /// The regex crate rejects the path rules of unindexable files.
    UnsuitablePathRules,
    /// The regex crate rejects the rules of `vendor.yml`.
    VendorRules,
    /// The regex crate rejects the rules of `tests.yml`.
    TestRules,
    /// The regex crate rejects the rules of `documentation.yml`.
    DocumentationRules,
    /// The regex crate rejects the rules of `dependency_management.yml`.
    DependencyManagementRules,
}

/// Everything detection and the path checks use.
pub struct Linguist {
    data: LinguistData,
    popular: PopularLanguages,
    generic: GenericExtensions,
    heuristics: ContentHeuristics,
    generated_paths: GeneratedPathRules,
    generated_contents: GeneratedContentRules,
    unsuitable_paths: GeneratedPathRules,
    unsuitable_contents: GeneratedContentRules,
    vendored: PathRules,
    tests: PathRules,
    documentation: PathRules,
    dependency_management: PathRules,
}

/// The abstract value of a `Linguist`.
pub struct LinguistView {
    pub data: Seq<EntryView>,
    pub popular: Seq<Seq<char>>,
    pub generic: Seq<Seq<char>>,
    pub heuristics: HeuristicsView,
    pub generated_paths: PathRulesView,
    pub generated_contents: Seq<ContentRuleView>,
    pub unsuitable_paths: PathRulesView,
    pub unsuitable_contents: Seq<ContentRuleView>,
    pub vendored: Seq<Seq<char>>,
    pub tests: Seq<Seq<char>>,
    pub documentation: Seq<Seq<char>>,
    pub dependency_management: Seq<Seq<char>>,
}

impl View for Linguist {
    type V = LinguistView;

    closed spec fn view(&self) -> LinguistView {
        LinguistView {
            data: self.data@,
            popular: self.popular@,
            generic: self.generic@,
            heuristics: self.heuristics@,
            generated_paths: self.generated_paths@,
            generated_contents: self.generated_contents@,
            unsuitable_paths: self.unsuitable_paths@,
            unsuitable_contents: self.unsuitable_contents@,
            vendored: self.vendored@,
            tests: self.tests@,
            documentation: self.documentation@,
            dependency_management: self.dependency_management@,
        }
    }
}

/// The languages some strategies answer with by name.
pub open spec fn required_languages(d: Seq<EntryView>) -> bool {
    has_language(d, "XML"@) && has_language(d, "Roff Manpage"@) && has_language(d, "Roff"@)
}

impl Linguist {
    #[verifier::type_invariant]
    spec fn wf(&self) -> bool {
        required_languages(self.data@)
    }

    /// The language table.
    pub fn data(&self) -> (d: &LinguistData)
        ensures
            d@ == self@.data,
            required_languages(d@),
    {
        proof {
            use_type_invariant(self);
        }
        &self.data
    }

    /// The popular languages.
    pub fn popular(&self) -> (p: &PopularLanguages)
        ensures
            p@ == self@.popular,
    {
        &self.popular
    }

    /// The generic extensions.
    pub fn generic(&self) -> (g: &GenericExtensions)
        ensures
            g@ == self@.generic,
    {
        &self.generic
    }

    /// The content heuristics.
    pub fn heuristics(&self) -> (h: &ContentHeuristics)
        ensures
            h@ == self@.heuristics,
    {
        &self.heuristics
    }

    /// The path rules of generated files.
    pub fn generated_paths(&self) -> (r: &GeneratedPathRules)
        ensures
            r@ == self@.generated_paths,
    {
        &self.generated_paths
    }

    /// The content rules of generated files.
    pub fn generated_contents(&self) -> (r: &GeneratedContentRules)
        ensures
            r@ == self@.generated_contents,
    {
        &self.generated_contents
    }

    /// The path rules of files unsuitable for indexing.
    pub fn unsuitable_paths(&self) -> (r: &GeneratedPathRules)
        ensures
            r@ == self@.unsuitable_paths,
    {
        &self.unsuitable_paths
    }

    /// The content rules of files unsuitable for indexing.
    pub fn unsuitable_contents(&self) -> (r: &GeneratedContentRules)
        ensures
            r@ == self@.unsuitable_contents,
    {
        &self.unsuitable_contents
    }

    /// The rules of `vendor.yml`.
    pub fn vendored(&self) -> (r: &PathRules)
        ensures
            r@ == self@.vendored,
    {
        &self.vendored
    }
}

/// The table built from the records of `languages.yml`.
pub open spec fn entries(records: Seq<LanguageRecord>) -> Seq<EntryView> {
    records.map_values(|x: LanguageRecord| entry_of_record(x))
}

/// The generic extensions read from `generic.yml`.
pub open spec fn generic_view(exts: Seq<String>) -> Seq<Seq<char>> {
    lowercased(views(exts).map_values(|e: Seq<char>| e.drop_first()))
}

/// What `init` builds from `s` where nothing fails.
pub open spec fn init_view(s: LinguistSources) -> LinguistView {
    LinguistView {
        data: entries(s.languages@),
        popular: views(s.popular@),
        generic: generic_view(s.generic@),
        heuristics: heuristics_view_of(s.heuristics, entries(s.languages@)),
        generated_paths: generated_path_rules_view(),
        generated_contents: flatten_groups(generated_content_groups()),
        unsuitable_paths: unsuitable_path_rules_view(),
        unsuitable_contents: flatten_groups(unsuitable_content_groups()),
        vendored: unescaped_all(s.vendor@),
        tests: unescaped_all(s.tests@),
        documentation: unescaped_all(s.documentation@),
        dependency_management: unescaped_all(s.dependency_management@),
    }
}

/// Why `init` fails on `s`, in the order it checks; `None` where it succeeds.
pub open spec fn init_error(s: LinguistSources) -> Option<InitError> {
    let d = entries(s.languages@);
    let first = crate::data::first_invalid_from(s.languages@, 0);
    if !records_valid(s.languages@) {
        Some(InitError::Languages(DataError::InvalidExtension(s.languages@[first].name)))
    } else if !required_languages(d) {
        Some(InitError::MissingLanguage)
    } else if !extensions_dotted(views(s.generic@)) {
        Some(InitError::Generic(GenericError::InvalidExtension))
    } else if heuristics_error(s.heuristics, d) is Some {
        Some(InitError::Heuristics(heuristics_error(s.heuristics, d)->0))
    } else if !regex_set_compiles(generated_path_rules_view().patterns, false) {
        Some(InitError::GeneratedPathRules)
    } else if !regex_set_compiles(unsuitable_path_rules_view().patterns, false) {
        Some(InitError::UnsuitablePathRules)
    } else if !regex_set_compiles(unescaped_all(s.vendor@), false) {
        Some(InitError::VendorRules)
    } else if !regex_set_compiles(unescaped_all(s.tests@), false) {
        Some(InitError::TestRules)
    } else if !regex_set_compiles(unescaped_all(s.documentation@), false) {
        Some(InitError::DocumentationRules)
    } else if !regex_set_compiles(unescaped_all(s.dependency_management@), false) {
        Some(InitError::DependencyManagementRules)
    } else {
        None
    }
}

/// Builds everything detection needs from the data files. Fails, checking
/// in this order, where `languages.yml` lists an extension without its dot,
/// lacks `XML`, `Roff` or `Roff Manpage`, `generic.yml` lists an extension
/// without its dot, `heuristics.yml` is inconsistent, or the regex crate
/// rejects a rule list.
pub fn init(s: LinguistSources) -> (r: Result<Linguist, InitError>)
    ensures
        match r {
            Ok(l) => init_error(s) is None && l@ == init_view(s),
            Err(InitError::Languages(DataError::InvalidExtension(name))) => !records_valid(s.languages@)
                && name@ == s.languages@[crate::data::first_invalid_from(s.languages@, 0)].name@,
            Err(e) => init_error(s) == Some(e),
        },
{
    let data = match LinguistData::new(&s.languages) {
        Ok(d) => d,
        Err(e) => {
            return Err(InitError::Languages(e));
        },
    };
    let ghost d = entries(s.languages@);
    assert(data@ == d);
    let has_xml = data.by_name("XML").is_some();
    let has_manpage = data.by_name("Roff Manpage").is_some();
    let has_roff = data.by_name("Roff").is_some();
    if !(has_xml && has_manpage && has_roff) {
        return Err(InitError::MissingLanguage);
    }
    let generic = match GenericExtensions::new(&s.generic) {
        Ok(g) => g,
        Err(e) => {
            return Err(InitError::Generic(e));
        },
    };
    let heuristics = match ContentHeuristics::new(&s.heuristics, &data) {
        Ok(h) => h,
        Err(e) => {
            return Err(InitError::Heuristics(e));
        },
    };
    let generated_paths = match GeneratedPathRules::generated() {
        Some(g) => g,
        None => {
            return Err(InitError::GeneratedPathRules);
        },
    };
    let unsuitable_paths = match crate::indexable::unsuitable_path_rules() {
        Some(g) => g,
        None => {
            return Err(InitError::UnsuitablePathRules);
        },
    };
    let vendored = match PathRules::new(&s.vendor) {
        Some(p) => p,
        None => {
            return Err(InitError::VendorRules);
        },
    };
    let tests = match PathRules::new(&s.tests) {
        Some(p) => p,
        None => {
            return Err(InitError::TestRules);
        },
    };
    let documentation = match PathRules::new(&s.documentation) {
        Some(p) => p,
        None => {
            return Err(InitError::DocumentationRules);
        },
    };
    let dependency_management = match PathRules::new(&s.dependency_management) {
        Some(p) => p,
        None => {
            return Err(InitError::DependencyManagementRules);
        },
    };
    let popular = crate::popular::init(s.popular);
    let l = Linguist {
        data,
        popular,
        generic,
        heuristics,
        generated_paths,
        generated_contents: GeneratedContentRules::generated(),
        unsuitable_paths,
        unsuitable_contents: crate::indexable::unsuitable_content_rules(),
        vendored,
        tests,
        documentation,
        dependency_management,
    };
    Ok(l)
}

/// Get a language by its canonical Linguist id (the last one with that id).
pub fn get_language_by_id(ling: &Linguist, id: LanguageId) -> (r: Option<&Language>)
    ensures
        opt_language_view(r) == language_at(ling@.data, last_with(ling@.data, has_id(id))),
{
    ling.data().by_id(id)
}

/// Get a language by its canonical Linguist name.
pub fn get_language_by_name<'a>(ling: &'a Linguist, name: &str) -> (r: Option<&'a Language>)
    ensures
        opt_language_view(r) == language_at(ling@.data, last_with(ling@.data, has_name(name@))),
{
    ling.data().by_name(name)
}

/// Get a language by its alias (see `languages.yml`), matched lowercase.
pub fn get_language_by_alias<'a>(ling: &'a Linguist, alias: &str) -> (r: Option<&'a Language>)
    ensures
        opt_language_view(r) == language_at(
            ling@.data,
            last_with(ling@.data, has_alias(crate::text::lowercase(alias@))),
        ),
{
    ling.data().by_alias(alias)
}

/// Get all languages for the given file name (see `languages.yml`).
pub fn languages_by_filename<'a>(ling: &'a Linguist, filename: &str) -> (r: Vec<&'a Language>)
    ensures
        crate::data::language_views(r@) == hits(ling@.data, KeyKind::Filename, filename@),
{
    ling.data().by_key(KeyKind::Filename, filename)
}

/// Get all languages for the given interpreter (see `languages.yml`).
pub fn languages_by_interpreter<'a>(ling: &'a Linguist, interpreter: &str) -> (r: Vec<&'a Language>)
    ensures
        crate::data::language_views(r@) == hits(ling@.data, KeyKind::Interpreter, interpreter@),
{
    ling.data().by_key(KeyKind::Interpreter, interpreter)
}

/// Get all languages for the given extension, without its dot and lowercase
/// (see `languages.yml`).
pub fn languages_by_extension<'a>(ling: &'a Linguist, ext: &str) -> (r: Vec<&'a Language>)
    ensures
        crate::data::language_views(r@) == hits(ling@.data, KeyKind::Extension, ext@),
{
    ling.data().by_key(KeyKind::Extension, ext)
}

/// Detects if the path is a test file (`tests.yml`).
pub fn is_test(ling: &Linguist, path: &str) -> (b: bool)
    ensures
        b == regex_set_matches(ling@.tests, false, path@),
{
    ling.tests.is_match(path)
}

/// Detects if the path is a documentation file (`documentation.yml`).
pub fn is_documentation(ling: &Linguist, path: &str) -> (b: bool)
    ensures
        b == regex_set_matches(ling@.documentation, false, path@),
{
    ling.documentation.is_match(path)
}

/// Detects if the path is a dependency management file
/// (`dependency_management.yml`).
pub fn is_dependency_management(ling: &Linguist, path: &str) -> (b: bool)
    ensures
        b == regex_set_matches(ling@.dependency_management, false, path@),
{
    ling.dependency_management.is_match(path)
}

/// What a strategy answers for a path and content.
pub open spec fn strategy_answer(l: LinguistView, kind: StrategyKind, path: Seq<u8>, content: Seq<u8>) -> AnswerView {
    match kind {
        StrategyKind::EmacsModeline => crate::strategies::modeline::by_emacs_modeline_spec(l.data, content),
        StrategyKind::VimModeline => crate::strategies::modeline::by_vim_modeline_spec(l.data, content),
        StrategyKind::Filename => crate::strategies::filename::by_filename_spec(l.data, path),
        StrategyKind::Shebang => crate::strategies::shebang::by_shebang_spec(l.data, content),
        StrategyKind::Extension => crate::strategies::extension::by_extension_spec(l.data, l.generic, path),
        StrategyKind::Xml => crate::strategies::xml::by_xml_spec(l.data, content),
        StrategyKind::Manpage => crate::strategies::manpage::by_manpage_spec(l.data, path),
        StrategyKind::ContentHeuristics => crate::strategies::heuristics::by_content_heuristics_spec(
            l.heuristics,
            path,
            content,
        ),
    }
}

/// Runs one strategy.
pub fn run_strategy<'a>(ling: &'a Linguist, kind: StrategyKind, path: &str, content: &str) -> (a: Answer<'a>)
    ensures
        a@ == strategy_answer(ling@, kind, path.spec_bytes(), content.spec_bytes()),
{
    let data = ling.data();
    match kind {
        StrategyKind::EmacsModeline => crate::strategies::modeline::by_emacs_modeline(data, content),
        StrategyKind::VimModeline => crate::strategies::modeline::by_vim_modeline(data, content),
        StrategyKind::Filename => crate::strategies::filename::by_filename(data, path),
        StrategyKind::Shebang => crate::strategies::shebang::by_shebang(data, content),
        StrategyKind::Extension => crate::strategies::extension::by_extension(data, ling.generic(), path),
        StrategyKind::Xml => crate::strategies::xml::by_xml(data, content),
        StrategyKind::Manpage => crate::strategies::manpage::by_manpage(data, path),
        StrategyKind::ContentHeuristics => crate::strategies::heuristics::by_content_heuristics(
            ling.heuristics(),
            path,
            content,
        ),
    }
}

/// The answer after running the strategies `ss` in order from `acc`: once
/// one language is found the rest are skipped; a strategy that should run
/// only without an answer is skipped once there is one.
pub open spec fn fold_strategies(
    l: LinguistView,
    ss: Seq<(StrategyKind, ShouldRun)>,
    path: Seq<u8>,
    content: Seq<u8>,
    acc: AnswerView,
) -> AnswerView
    decreases ss.len(),
{
    if ss.len() == 0 {
        acc
    } else if acc is Only {
        fold_strategies(l, ss.drop_first(), path, content, acc)
    } else if runs(ss[0].1, acc) {
        fold_strategies(
            l,
            ss.drop_first(),
            path,
            content,
            combine(strategy_answer(l, ss[0].0, path, content), acc),
        )
    } else {
        fold_strategies(l, ss.drop_first(), path, content, acc)
    }
}

/// The language `detect` finds: none for empty content, else the language
/// the default strategies settle on.
pub open spec fn detect_spec(l: LinguistView, path: Seq<u8>, content: Seq<u8>) -> Option<crate::data::LanguageView> {
    if content.len() == 0 {
        None
    } else {
        language_of_answer(
            l.popular,
            fold_strategies(l, crate::strategies::default_strategies(), path, content, AnswerView::Unknown),
        )
    }
}

/// Whether a strategy runs: no single language found yet, and its
/// condition holds.
pub open spec fn step_runs(when: ShouldRun, acc: AnswerView) -> bool {
    !(acc is Only) && runs(when, acc)
}

/// One step of detection from answer `acc`, found by the strategy `name`:
/// a strategy that runs and finds something gives the combined answer and
/// its own name `sname`; otherwise answer and name stay.
pub open spec fn step_spec(
    l: LinguistView,
    kind: StrategyKind,
    when: ShouldRun,
    sname: Seq<char>,
    path: Seq<u8>,
    content: Seq<u8>,
    acc: AnswerView,
    name: Seq<char>,
) -> (AnswerView, Seq<char>) {
    if !step_runs(when, acc) {
        (acc, name)
    } else if strategy_answer(l, kind, path, content) is Unknown {
        (acc, name)
    } else {
        (combine(strategy_answer(l, kind, path, content), acc), sname)
    }
}

/// The answer, and the name of the strategy that gave it, after running
/// the named strategies `ss` in order.
pub open spec fn fold_named(
    l: LinguistView,
    ss: Seq<(StrategyKind, ShouldRun, Seq<char>)>,
    path: Seq<u8>,
    content: Seq<u8>,
    acc: AnswerView,
    name: Seq<char>,
) -> (AnswerView, Seq<char>)
    decreases ss.len(),
{
    if ss.len() == 0 {
        (acc, name)
    } else {
        let next = step_spec(l, ss[0].0, ss[0].1, ss[0].2, path, content, acc, name);
        fold_named(l, ss.drop_first(), path, content, next.0, next.1)
    }
}

/// The default strategies with their names.
pub open spec fn default_named() -> Seq<(StrategyKind, ShouldRun, Seq<char>)> {
    Seq::new(
        8,
        |i: int|
            (
                crate::strategies::default_strategies()[i].0,
                crate::strategies::default_strategies()[i].1,
                crate::strategies::default_strategy_names()[i],
            ),
    )
}

/// The strategies without their names.
pub open spec fn unnamed(ss: Seq<(StrategyKind, ShouldRun, Seq<char>)>) -> Seq<(StrategyKind, ShouldRun)> {
    ss.map_values(|x: (StrategyKind, ShouldRun, Seq<char>)| (x.0, x.1))
}

/// Tracking the name of the deciding strategy leaves the answer unchanged.
pub proof fn lemma_fold_named(
    l: LinguistView,
    ss: Seq<(StrategyKind, ShouldRun, Seq<char>)>,
    path: Seq<u8>,
    content: Seq<u8>,
    acc: AnswerView,
    name: Seq<char>,
)
    ensures
        fold_named(l, ss, path, content, acc, name).0 == fold_strategies(l, unnamed(ss), path, content, acc),
    decreases ss.len(),
{
    if ss.len() > 0 {
        let next = step_spec(l, ss[0].0, ss[0].1, ss[0].2, path, content, acc, name);
        lemma_fold_named(l, ss.drop_first(), path, content, next.0, next.1);
        assert(unnamed(ss).drop_first() =~= unnamed(ss.drop_first()));
        assert(unnamed(ss)[0] == (ss[0].0, ss[0].1));
    }
}

/// The name of the strategy that settled detection (empty where none did).
pub open spec fn detect_strategy_spec(l: LinguistView, path: Seq<u8>, content: Seq<u8>) -> Seq<char> {
    if content.len() == 0 {
        ""@
    } else {
        fold_named(l, default_named(), path, content, AnswerView::Unknown, ""@).1
    }
}

/// Runs one strategy of detection on the current answer and the name of
/// the strategy that gave it (see `step_spec`); also tells whether the
/// strategy ran.
pub fn detect_step<'a>(
    ling: &'a Linguist,
    s: &crate::strategies::Strategy,
    path: &str,
    content: &str,
    answer: Answer<'a>,
    name: &'static str,
) -> (r: (Answer<'a>, &'static str, bool))
    ensures
        (r.0@, r.1@) == step_spec(
            ling@,
            s.kind,
            s.should_run,
            s.name@,
            path.spec_bytes(),
            content.spec_bytes(),
            answer@,
            name@,
        ),
        r.2 == step_runs(s.should_run, answer@),
{
    let found = match &answer {
        Answer::Only(_) => true,
        _ => false,
    };
    let run = !found && match s.should_run {
        ShouldRun::Always => true,
        ShouldRun::OnlyIfNoAnswer => match &answer {
            Answer::Unknown => true,
            _ => false,
        },
    };
    if !run {
        return (answer, name, false);
    }
    let res = run_strategy(ling, s.kind, path, content);
    match res {
        Answer::Unknown => (answer, name, true),
        res => (combine_answers(res, answer), s.name, true),
    }
}

/// Detects the language like `detect`, and names the strategy that settled
/// the answer (empty where none found anything).
pub fn detect_with_strategy<'a>(ling: &'a Linguist, path: &str, content: &str) -> (r: (Option<&'a Language>, &'static str))
    ensures
        opt_language_view(r.0) == detect_spec(ling@, path.spec_bytes(), content.spec_bytes()),
        r.1@ == detect_strategy_spec(ling@, path.spec_bytes(), content.spec_bytes()),
{
    proof {
        reveal_strlit("");
    }
    if crate::text::byte_len(content) == 0 {
        return (None, "");
    }
    let strategies = crate::strategies::default();
    let ghost dn = strategies@.map_values(
        |s: crate::strategies::Strategy| (s.kind, s.should_run, s.name@),
    );
    proof {
        let v = strategies@.map_values(|s: crate::strategies::Strategy| crate::strategies::strategy_view(s));
        let n = strategies@.map_values(|s: crate::strategies::Strategy| s.name@);
        assert forall|i: int| 0 <= i < 8 implies dn[i] == default_named()[i] by {
            assert(v[i] == crate::strategies::default_strategies()[i]);
            assert(n[i] == crate::strategies::default_strategy_names()[i]);
        }
        assert(dn =~= default_named());
    }
    let ghost pb = path.spec_bytes();
    let ghost cb = content.spec_bytes();
    let mut answer: Answer<'a> = Answer::Unknown;
    let mut name: &'static str = "";
    let mut i: usize = 0;
    assert(dn.skip(0) =~= dn);
    while i < strategies.len()
        invariant
            i <= strategies@.len(),
            dn == strategies@.map_values(|s: crate::strategies::Strategy| (s.kind, s.should_run, s.name@)),
            dn == default_named(),
            pb == path.spec_bytes(),
            cb == content.spec_bytes(),
            fold_named(ling@, dn.skip(i as int), pb, cb, answer@, name@) == fold_named(
                ling@,
                dn,
                pb,
                cb,
                AnswerView::Unknown,
                ""@,
            ),
        decreases strategies@.len() - i,
    {
        let s = &strategies[i];
        assert(dn.skip(i as int)[0] == (s.kind, s.should_run, s.name@));
        assert(dn.skip(i as int).drop_first() =~= dn.skip(i + 1));
        let (a, n, _ran) = detect_step(ling, s, path, content, answer, name);
        answer = a;
        name = n;
        i = i + 1;
    }
    assert(dn.skip(i as int) =~= Seq::<(StrategyKind, ShouldRun, Seq<char>)>::empty());
    proof {
        lemma_fold_named(ling@, dn, pb, cb, AnswerView::Unknown, ""@);
        assert(unnamed(dn) =~= crate::strategies::default_strategies());
    }
    let r = answer.into_language(ling.popular());
    (r, name)
}

/// Detects the programming language of the given path and content with the
/// strategies modeline (Emacs, then Vim), file name, shebang, extension,
/// XML, manpage and content heuristics, in this order (see
/// `strategies::default`). Candidates of successive strategies are
/// intersected, which can leave none.
pub fn detect<'a>(ling: &'a Linguist, path: &str, content: &str) -> (r: Option<&'a Language>)
    ensures
        opt_language_view(r) == detect_spec(ling@, path.spec_bytes(), content.spec_bytes()),
{
    detect_with_strategy(ling, path, content).0
}

} // verus!

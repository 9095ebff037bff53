//! Detection by content heuristics (`heuristics.yml`): for a file's
//! extension, the first rule whose pattern matches the content names the
//! language.
use vstd::prelude::*;
use vstd::string::*;
use vstd::utf8::*;
use crate::data::{EntryView, Language, LanguageView, LinguistData, extensions_dotted, views};
use crate::regex::{Regex, RegexView, regex_new_spec, regex_view_matches, string_views};
use crate::strategies::{
    Answer, AnswerView, answer_of_option, has_language, known_language, lowercase_ext,
    lowercase_ext_spec, named,
};

verus! {

/// A named pattern of `heuristics.yml`: one pattern or a list of them.
pub struct NamedPatternRecord {
    pub name: String,
    pub patterns: Vec<String>,
}

/// A rule of `heuristics.yml`, by its keys: `language` where it is a string,
/// `and` where it is a list, and the patterns of `pattern` and
/// `negative_pattern` (one or a list), and `named_pattern`.
pub struct RuleRecord {
    pub language: Option<String>,
    pub and: Option<Vec<RuleRecord>>,
    pub pattern: Option<Vec<String>>,
    pub negative_pattern: Option<Vec<String>>,
    pub named_pattern: Option<String>,
}

/// A disambiguation of `heuristics.yml`: extensions (with their dot) and rules.
pub struct Disambiguation {
    pub extensions: Vec<String>,
    pub rules: Vec<RuleRecord>,
}

/// The contents of `heuristics.yml`.
pub struct HeuristicsRecord {
    pub named_patterns: Vec<NamedPatternRecord>,
    pub disambiguations: Vec<Disambiguation>,
}

/// A rule's condition on the content.
pub enum RulePattern {
    /// All of the patterns match.
    And(Vec<RulePattern>),
    /// The regex matches.
    Pattern(Regex),
    /// The regex does not match.
    NegativePattern(Regex),
    /// The named pattern matches.
    NamedPattern(String),
    /// Always matches.
    AlwaysMatch,
}

/// The abstract value of a `RulePattern`.
pub enum PatternView {
    And(Seq<PatternView>),
    Pattern(RegexView),
    NegativePattern(RegexView),
    NamedPattern(Seq<char>),
    AlwaysMatch,
}

/// The view of a pattern.
pub open spec fn pattern_view(p: RulePattern) -> PatternView
    decreases p,
{
    match p {
        RulePattern::And(v) => PatternView::And(pattern_views(v@)),
        RulePattern::Pattern(r) => PatternView::Pattern(r@),
        RulePattern::NegativePattern(r) => PatternView::NegativePattern(r@),
        RulePattern::NamedPattern(n) => PatternView::NamedPattern(n@),
        RulePattern::AlwaysMatch => PatternView::AlwaysMatch,
    }
}

/// The views of some patterns.
pub open spec fn pattern_views(s: Seq<RulePattern>) -> Seq<PatternView>
    decreases s,
{
    if s.len() == 0 {
        seq![]
    } else {
        pattern_views(s.drop_last()).push(pattern_view(s.last()))
    }
}

/// The pattern a rule record describes: `and` first, then `pattern`,
/// `negative_pattern` and `named_pattern`; a rule with none always matches.
pub open spec fn record_pattern(r: RuleRecord) -> PatternView
    decreases r,
{
    match r.and {
        Some(v) => PatternView::And(record_patterns(v@)),
        None => match r.pattern {
            Some(p) => PatternView::Pattern(regex_new_spec(string_views(p@))),
            None => match r.negative_pattern {
                Some(p) => PatternView::NegativePattern(regex_new_spec(string_views(p@))),
                None => match r.named_pattern {
                    Some(n) => PatternView::NamedPattern(n@),
                    None => PatternView::AlwaysMatch,
                },
            },
        },
    }
}

/// The patterns of some rule records.
pub open spec fn record_patterns(s: Seq<RuleRecord>) -> Seq<PatternView>
    decreases s,
{
    if s.len() == 0 {
        seq![]
    } else {
        record_patterns(s.drop_last()).push(record_pattern(s.last()))
    }
}

/// The regex of the first named pattern called `name`.
pub open spec fn named_regex(named: Seq<(Seq<char>, RegexView)>, name: Seq<char>) -> Option<RegexView>
    decreases named.len(),
{
    if named.len() == 0 {
        None
    } else if named[0].0 == name {
        Some(named[0].1)
    } else {
        named_regex(named.drop_first(), name)
    }
}

/// Whether a pattern matches `text`.
pub open spec fn pattern_holds(p: PatternView, named: Seq<(Seq<char>, RegexView)>, text: Seq<char>) -> bool
    decreases p,
{
    match p {
        PatternView::And(ps) => all_hold(ps, named, text),
        PatternView::Pattern(r) => regex_view_matches(r, text),
        PatternView::NegativePattern(r) => !regex_view_matches(r, text),
        PatternView::NamedPattern(n) => match named_regex(named, n) {
            Some(r) => regex_view_matches(r, text),
            None => false,
        },
        PatternView::AlwaysMatch => true,
    }
}

/// Whether all of some patterns match `text`.
pub open spec fn all_hold(ps: Seq<PatternView>, named: Seq<(Seq<char>, RegexView)>, text: Seq<char>) -> bool
    decreases ps,
{
    if ps.len() == 0 {
        true
    } else {
        all_hold(ps.drop_last(), named, text) && pattern_holds(ps.last(), named, text)
    }
}

/// Whether every named pattern a pattern uses is among `names`.
pub open spec fn refs_resolve(p: PatternView, names: Seq<Seq<char>>) -> bool
    decreases p,
{
    match p {
        PatternView::And(ps) => all_resolve(ps, names),
        PatternView::NamedPattern(n) => names.contains(n),
        _ => true,
    }
}

/// Whether every named pattern some patterns use is among `names`.
pub open spec fn all_resolve(ps: Seq<PatternView>, names: Seq<Seq<char>>) -> bool
    decreases ps,
{
    if ps.len() == 0 {
        true
    } else {
        all_resolve(ps.drop_last(), names) && refs_resolve(ps.last(), names)
    }
}

/// The named patterns, compiled.
pub struct NamedPatterns {
    names: Vec<String>,
    regexes: Vec<Regex>,
}

impl View for NamedPatterns {
    type V = Seq<(Seq<char>, RegexView)>;

    closed spec fn view(&self) -> Seq<(Seq<char>, RegexView)> {
        Seq::new(self.names@.len(), |i: int| (self.names@[i]@, self.regexes@[i]@))
    }
}

impl NamedPatterns {
    #[verifier::type_invariant]
    spec fn wf(&self) -> bool {
        self.names@.len() == self.regexes@.len()
    }

    /// The regex of the named pattern `name`.
    pub fn get(&self, name: &str) -> (r: Option<&Regex>)
        ensures
            match r {
                Some(re) => named_regex(self@, name@) == Some(re@),
                None => named_regex(self@, name@) is None,
            },
    {
        proof {
            use_type_invariant(self);
        }
        let mut i: usize = 0;
        assert(self@.skip(0) =~= self@);
        while i < self.names.len()
            invariant
                i <= self.names@.len(),
                self.names@.len() == self.regexes@.len(),
                self@.len() == self.names@.len(),
                named_regex(self@.skip(i as int), name@) == named_regex(self@, name@),
            decreases self.names@.len() - i,
        {
            assert(self@.skip(i as int)[0] == self@[i as int]);
            assert(self@.skip(i as int).drop_first() =~= self@.skip(i + 1));
            if crate::text::str_eq(self.names[i].as_str(), name) {
                return Some(&self.regexes[i]);
            }
            i = i + 1;
        }
        assert(self@.skip(i as int) =~= Seq::<(Seq<char>, RegexView)>::empty());
        None
    }

    /// The names of the patterns.
    pub closed spec fn names(self) -> Seq<Seq<char>> {
        views(self.names@)
    }

    /// Whether some pattern is called `name`.
    pub fn contains(&self, name: &str) -> (b: bool)
        ensures
            b == self.names().contains(name@),
    {
        let mut i: usize = 0;
        while i < self.names.len()
            invariant
                i <= self.names@.len(),
                forall|k: int| 0 <= k < i ==> views(self.names@)[k] != name@,
            decreases self.names@.len() - i,
        {
            if crate::text::str_eq(self.names[i].as_str(), name) {
                assert(views(self.names@)[i as int] == name@);
                return true;
            }
            i = i + 1;
        }
        false
    }
}

impl RulePattern {
    /// Whether the pattern matches `content`; a named pattern missing from
    /// `named` matches nothing.
    pub fn is_match(&self, named: &NamedPatterns, content: &str) -> (b: bool)
        ensures
            b == pattern_holds(pattern_view(*self), named@, content@),
        decreases self,
    {
        match self {
            RulePattern::And(ps) => {
                let ghost pv = pattern_views(ps@);
                proof {
                    lemma_pattern_views(ps@);
                }
                assert(pattern_view(*self) == PatternView::And(pv));
                let mut i: usize = 0;
                while i < ps.len()
                    invariant
                        i <= ps@.len(),
                        pv == pattern_views(ps@),
                        *self == RulePattern::And(*ps),
                        pv.len() == ps@.len(),
                        all_hold(pv.take(i as int), named@, content@),
                        forall|k: int| 0 <= k < ps@.len() ==> pv[k] == pattern_view(#[trigger] ps@[k]),
                    decreases ps@.len() - i,
                {
                    assert(pv.take(i + 1).drop_last() =~= pv.take(i as int));
                    assert(pv.take(i + 1).last() == pv[i as int]);
                    proof {
                        assert(decreases_to!(*self => *ps));
                        assert(decreases_to!(*ps => ps@));
                        assert(decreases_to!(ps@ => ps@[i as int]));
                    }
                    let r = ps[i].is_match(named, content);
                    assert(pv[i as int] == pattern_view(ps@[i as int]));
                    if !r {
                        proof {
                            if all_hold(pv, named@, content@) {
                                lemma_all_hold_prefix(pv, named@, content@, i + 1);
                                assert(all_hold(pv.take(i + 1), named@, content@));
                                assert(pattern_holds(pv[i as int], named@, content@));
                            }
                        }
                        return false;
                    }
                    i = i + 1;
                }
                assert(pv.take(i as int) =~= pv);
                true
            },
            RulePattern::Pattern(re) => re.is_match(content),
            RulePattern::NegativePattern(re) => !re.is_match(content),
            RulePattern::NamedPattern(name) => match named.get(name.as_str()) {
                Some(re) => re.is_match(content),
                None => false,
            },
            RulePattern::AlwaysMatch => true,
        }
    }
}

/// Facts about the views of some patterns.
pub proof fn lemma_pattern_views(s: Seq<RulePattern>)
    ensures
        pattern_views(s).len() == s.len(),
        forall|k: int| 0 <= k < s.len() ==> pattern_views(s)[k] == pattern_view(#[trigger] s[k]),
    decreases s.len(),
{
    if s.len() > 0 {
        lemma_pattern_views(s.drop_last());
        assert forall|k: int| 0 <= k < s.len() implies pattern_views(s)[k] == pattern_view(#[trigger] s[k]) by {
            if k < s.len() - 1 {
                assert(s.drop_last()[k] == s[k]);
            }
        }
    }
}

/// If all of some patterns hold, all of any prefix of them do.
pub proof fn lemma_all_hold_prefix(ps: Seq<PatternView>, named: Seq<(Seq<char>, RegexView)>, text: Seq<char>, n: int)
    requires
        0 <= n <= ps.len(),
        all_hold(ps, named, text),
    ensures
        all_hold(ps.take(n), named, text),
    decreases ps.len(),
{
    if n < ps.len() {
        assert(ps.drop_last().take(n) =~= ps.take(n));
        lemma_all_hold_prefix(ps.drop_last(), named, text, n);
    } else {
        assert(ps.take(n) =~= ps);
    }
}


/// Builds the pattern a rule record describes (see `record_pattern`).
pub fn build_pattern(r: &RuleRecord) -> (p: RulePattern)
    ensures
        pattern_view(p) == record_pattern(*r),
    decreases r,
{
    match &r.and {
        Some(v) => {
            let mut out: Vec<RulePattern> = Vec::new();
            let mut i: usize = 0;
            while i < v.len()
                invariant
                    i <= v@.len(),
                    r.and == Some(*v),
                    pattern_views(out@) == record_patterns(v@.take(i as int)),
                decreases v@.len() - i,
            {
                proof {
                    assert(decreases_to!(*r => r.and));
                    assert(decreases_to!(r.and => (r.and)->0));
                    assert(decreases_to!(*v => v@));
                    assert(decreases_to!(v@ => v@[i as int]));
                }
                let p = build_pattern(&v[i]);
                let ghost before = out@;
                out.push(p);
                assert(out@.drop_last() =~= before);
                assert(v@.take(i + 1).drop_last() =~= v@.take(i as int));
                i = i + 1;
            }
            assert(v@.take(i as int) =~= v@);
            RulePattern::And(out)
        },
        None => match &r.pattern {
            Some(ps) => RulePattern::Pattern(Regex::new(ps)),
            None => match &r.negative_pattern {
                Some(ps) => RulePattern::NegativePattern(Regex::new(ps)),
                None => match &r.named_pattern {
                    Some(n) => RulePattern::NamedPattern(n.clone()),
                    None => RulePattern::AlwaysMatch,
                },
            },
        },
    }
}

/// Whether every named pattern `p` uses is one of `named`.
pub fn check_refs(p: &RulePattern, named: &NamedPatterns) -> (b: bool)
    ensures
        b == refs_resolve(pattern_view(*p), named.names()),
    decreases p,
{
    match p {
        RulePattern::And(ps) => {
            let ghost pv = pattern_views(ps@);
            proof {
                lemma_pattern_views(ps@);
            }
            let mut i: usize = 0;
            while i < ps.len()
                invariant
                    i <= ps@.len(),
                    pv == pattern_views(ps@),
                    *p == RulePattern::And(*ps),
                    pv.len() == ps@.len(),
                    all_resolve(pv.take(i as int), named.names()),
                    forall|k: int| 0 <= k < ps@.len() ==> pv[k] == pattern_view(#[trigger] ps@[k]),
                decreases ps@.len() - i,
            {
                assert(pv.take(i + 1).drop_last() =~= pv.take(i as int));
                assert(pv.take(i + 1).last() == pv[i as int]);
                proof {
                    assert(decreases_to!(*p => *ps));
                    assert(decreases_to!(*ps => ps@));
                    assert(decreases_to!(ps@ => ps@[i as int]));
                }
                let r = check_refs(&ps[i], named);
                assert(pv[i as int] == pattern_view(ps@[i as int]));
                if !r {
                    proof {
                        if all_resolve(pv, named.names()) {
                            lemma_all_resolve_prefix(pv, named.names(), i + 1);
                            assert(all_resolve(pv.take(i + 1), named.names()));
                        }
                    }
                    return false;
                }
                i = i + 1;
            }
            assert(pv.take(i as int) =~= pv);
            true
        },
        RulePattern::NamedPattern(n) => named.contains(n.as_str()),
        _ => true,
    }
}

/// If all of some patterns resolve, all of any prefix of them do.
pub proof fn lemma_all_resolve_prefix(ps: Seq<PatternView>, names: Seq<Seq<char>>, n: int)
    requires
        0 <= n <= ps.len(),
        all_resolve(ps, names),
    ensures
        all_resolve(ps.take(n), names),
    decreases ps.len(),
{
    if n < ps.len() {
        assert(ps.drop_last().take(n) =~= ps.take(n));
        lemma_all_resolve_prefix(ps.drop_last(), names, n);
    } else {
        assert(ps.take(n) =~= ps);
    }
}

/// A rule: the language it names, the extensions (without their dot) of its
/// disambiguation, and its pattern.
pub struct Rule {
    pub language: Language,
    pub extensions: Vec<String>,
    pub pattern: RulePattern,
}

/// The abstract value of a `Rule`.
pub struct RuleView {
    pub language: LanguageView,
    pub extensions: Seq<Seq<char>>,
    pub pattern: PatternView,
}

/// The view of a rule.
pub open spec fn rule_view(r: Rule) -> RuleView {
    RuleView { language: r.language@, extensions: views(r.extensions@), pattern: pattern_view(r.pattern) }
}

/// The views of some rules.
pub open spec fn rule_views(rs: Seq<Rule>) -> Seq<RuleView> {
    rs.map_values(|r: Rule| rule_view(r))
}

/// The views of some rule references.
pub open spec fn rule_ref_views(rs: Seq<&Rule>) -> Seq<RuleView> {
    rs.map_values(|r: &Rule| rule_view(*r))
}

/// The compiled heuristics.
pub struct ContentHeuristics {
    named: NamedPatterns,
    rules: Vec<Rule>,
}

/// The abstract value of `ContentHeuristics`: the named patterns and the
/// rules in file order.
pub struct HeuristicsView {
    pub named: Seq<(Seq<char>, RegexView)>,
    pub rules: Seq<RuleView>,
}

impl View for ContentHeuristics {
    type V = HeuristicsView;

    closed spec fn view(&self) -> HeuristicsView {
        HeuristicsView { named: self.named@, rules: rule_views(self.rules@) }
    }
}

/// The extensions without their leading dot.
pub open spec fn stripped_exts(exts: Seq<String>) -> Seq<Seq<char>> {
    views(exts).map_values(|e: Seq<char>| e.drop_first())
}

/// The rules of a disambiguation that name a language (as a string).
pub open spec fn kept_from(rs: Seq<RuleRecord>, exts: Seq<Seq<char>>, d: Seq<EntryView>) -> Seq<RuleView>
    decreases rs.len(),
{
    if rs.len() == 0 {
        seq![]
    } else {
        let rest = kept_from(rs.drop_last(), exts, d);
        match rs.last().language {
            Some(n) => rest.push(
                RuleView { language: named(d, n@), extensions: exts, pattern: record_pattern(rs.last()) },
            ),
            None => rest,
        }
    }
}

/// The rules of all disambiguations, in file order.
pub open spec fn all_rules(ds: Seq<Disambiguation>, d: Seq<EntryView>) -> Seq<RuleView>
    decreases ds.len(),
{
    if ds.len() == 0 {
        seq![]
    } else {
        all_rules(ds.drop_last(), d) + kept_from(
            ds.last().rules@,
            stripped_exts(ds.last().extensions@),
            d,
        )
    }
}

/// The named patterns, compiled.
pub open spec fn named_view(ns: Seq<NamedPatternRecord>) -> Seq<(Seq<char>, RegexView)> {
    ns.map_values(|n: NamedPatternRecord| (n.name@, regex_new_spec(string_views(n.patterns@))))
}

/// The names of the named patterns.
pub open spec fn named_names(ns: Seq<NamedPatternRecord>) -> Seq<Seq<char>> {
    ns.map_values(|n: NamedPatternRecord| n.name@)
}

/// No two named patterns share a name.
pub open spec fn names_distinct(ns: Seq<NamedPatternRecord>) -> bool {
    forall|i: int, j: int| 0 <= i < j < ns.len() ==> ns[i].name@ != ns[j].name@
}

/// Every rule's language (where it is a string) is in the table.
pub open spec fn languages_known(ds: Seq<Disambiguation>, d: Seq<EntryView>) -> bool {
    forall|i: int, j: int|
        0 <= i < ds.len() && 0 <= j < ds[i].rules@.len() ==> match #[trigger] ds[i].rules@[j].language {
            Some(n) => has_language(d, n@),
            None => true,
        }
}

/// A disambiguation with a rule that names a language.
pub open spec fn keeps_rule(dis: Disambiguation) -> bool {
    exists|j: int| 0 <= j < dis.rules@.len() && (#[trigger] dis.rules@[j]).language is Some
}

/// Every disambiguation with a rule that names a language lists its
/// extensions with their dot.
pub open spec fn exts_ok(ds: Seq<Disambiguation>) -> bool {
    forall|i: int| 0 <= i < ds.len() && keeps_rule(#[trigger] ds[i]) ==> extensions_dotted(views(ds[i].extensions@))
}

/// Every named pattern the rules use exists.
pub open spec fn refs_ok(rules: Seq<RuleView>, names: Seq<Seq<char>>) -> bool {
    forall|k: int| 0 <= k < rules.len() ==> refs_resolve(#[trigger] rules[k].pattern, names)
}

/// Why the heuristics could not be built.
#[derive(Debug, Clone, Copy, PartialEq, Eq, Structural)]
pub enum HeuristicsError {
    /// Two named patterns share a name.
    DuplicateNamedPattern,
    /// A rule names a language the table lacks.
    UnknownLanguage,
    /// An extension lacks its leading `.`.
    InvalidExtension,
    /// A rule uses a named pattern that does not exist.
    UnknownNamedPattern,
}


/// A copy of a language.
pub fn copy_language(l: &Language) -> (r: Language)
    ensures
        r@ == l@,
{
    let color = match &l.color {
        Some(c) => Some(c.clone()),
        None => None,
    };
    Language {
        language_id: l.language_id,
        name: l.name.clone(),
        color,
        language_type: l.language_type,
        tm_scope: l.tm_scope.clone(),
    }
}

/// The extensions without their dot; `None` where one lacks the dot.
fn strip_dots(v: &Vec<String>) -> (r: Option<Vec<String>>)
    ensures
        r is Some <==> extensions_dotted(views(v@)),
        r matches Some(k) ==> views(k@) == stripped_exts(v@),
{
    let ghost target = stripped_exts(v@);
    let mut r: Vec<String> = Vec::new();
    let mut i: usize = 0;
    while i < v.len()
        invariant
            i <= v@.len(),
            target == stripped_exts(v@),
            views(r@) == target.take(i as int),
            extensions_dotted(views(v@).take(i as int)),
        decreases v@.len() - i,
    {
        let e = v[i].as_str();
        let n = e.unicode_len();
        assert(views(v@)[i as int] == e@);
        if n == 0 || e.get_char(0) != '.' {
            proof {
                if extensions_dotted(views(v@)) {
                    assert(crate::data::starts_with_dot(views(v@)[i as int]));
                }
            }
            return None;
        }
        let rest = e.substring_char(1, n);
        assert(rest@ =~= e@.drop_first());
        let c = String::from_str(rest);
        proof {
            crate::data::lemma_views_push(r@, c);
            crate::data::lemma_take_push(target, i as int);
        }
        r.push(c);
        assert forall|k: int| 0 <= k < i + 1 implies #[trigger] crate::data::starts_with_dot(views(v@).take(i + 1)[k]) by {
            let x = views(v@).take(i + 1);
            let y = views(v@).take(i as int);
            if k < i {
                assert(x[k] == y[k]);
                assert(crate::data::starts_with_dot(y[k]));
            } else {
                assert(x[k] == e@);
            }
        }
        i = i + 1;
    }
    assert(target.take(i as int) =~= target);
    assert(views(v@).take(i as int) =~= views(v@));
    Some(r)
}

/// Compiles the named patterns; `None` where two share a name.
fn build_named(ns: &Vec<NamedPatternRecord>) -> (r: Option<NamedPatterns>)
    ensures
        r is Some <==> names_distinct(ns@),
        r matches Some(n) ==> n@ == named_view(ns@) && n.names() == named_names(ns@),
{
    let mut names: Vec<String> = Vec::new();
    let mut regexes: Vec<Regex> = Vec::new();
    let mut i: usize = 0;
    while i < ns.len()
        invariant
            i <= ns@.len(),
            names@.len() == i,
            regexes@.len() == i,
            names_distinct(ns@.take(i as int)),
            forall|k: int| 0 <= k < i ==> (#[trigger] names@[k])@ == ns@[k].name@,
            forall|k: int| 0 <= k < i ==> (#[trigger] regexes@[k])@ == regex_new_spec(string_views(ns@[k].patterns@)),
        decreases ns@.len() - i,
    {
        let rec = &ns[i];
        if crate::data::has_key(&names, rec.name.as_str()) {
            proof {
                let k = choose|k: int| 0 <= k < views(names@).len() && views(names@)[k] == rec.name@;
                assert(views(names@)[k] == names@[k]@);
                assert(ns@[k].name@ == ns@[i as int].name@);
            }
            return None;
        }
        proof {
            assert forall|k: int| 0 <= k < i implies ns@[k].name@ != rec.name@ by {
                if ns@[k].name@ == rec.name@ {
                    assert(views(names@)[k] == names@[k]@);
                }
            }
        }
        names.push(rec.name.clone());
        regexes.push(Regex::new(&rec.patterns));
        assert forall|a: int, b: int| 0 <= a < b < i + 1 implies #[trigger] ns@.take(i + 1)[a].name@ != #[trigger] ns@.take(i + 1)[b].name@ by {
            if b < i {
                assert(ns@.take(i as int)[a] == ns@[a]);
                assert(ns@.take(i as int)[b] == ns@[b]);
            }
        }
        i = i + 1;
    }
    assert(ns@.take(i as int) =~= ns@);
    let n = NamedPatterns { names, regexes };
    assert(n@ =~= named_view(ns@));
    assert(n.names() =~= named_names(ns@));
    Some(n)
}

/// Whether every rule's language (where it is a string) is in the table.
fn check_languages(ds: &Vec<Disambiguation>, data: &LinguistData) -> (b: bool)
    ensures
        b == languages_known(ds@, data@),
{
    let mut i: usize = 0;
    while i < ds.len()
        invariant
            i <= ds@.len(),
            forall|a: int, j: int|
                0 <= a < i && 0 <= j < ds@[a].rules@.len() ==> match #[trigger] ds@[a].rules@[j].language {
                    Some(n) => has_language(data@, n@),
                    None => true,
                },
        decreases ds@.len() - i,
    {
        let rs = &ds[i].rules;
        let mut j: usize = 0;
        while j < rs.len()
            invariant
                i < ds@.len(),
                j <= rs@.len(),
                *rs == ds@[i as int].rules,
                forall|a: int, j2: int|
                    0 <= a < i && 0 <= j2 < ds@[a].rules@.len() ==> match #[trigger] ds@[a].rules@[j2].language {
                        Some(n) => has_language(data@, n@),
                        None => true,
                    },
                forall|j2: int| 0 <= j2 < j ==> match #[trigger] rs@[j2].language {
                    Some(n) => has_language(data@, n@),
                    None => true,
                },
            decreases rs@.len() - j,
        {
            match &rs[j].language {
                Some(n) => {
                    if data.by_name(n.as_str()).is_none() {
                        assert(!has_language(data@, n@));
                        assert(ds@[i as int].rules@[j as int].language == Some(*n));
                        return false;
                    }
                },
                None => {},
            }
            j = j + 1;
        }
        i = i + 1;
    }
    true
}

/// Whether a disambiguation has a rule that names a language.
fn keeps_any(dis: &Disambiguation) -> (b: bool)
    ensures
        b == keeps_rule(*dis),
{
    let mut j: usize = 0;
    while j < dis.rules.len()
        invariant
            j <= dis.rules@.len(),
            forall|k: int| 0 <= k < j ==> (#[trigger] dis.rules@[k]).language is None,
        decreases dis.rules@.len() - j,
    {
        if dis.rules[j].language.is_some() {
            assert(dis.rules@[j as int].language is Some);
            return true;
        }
        j = j + 1;
    }
    false
}

/// Whether every disambiguation that keeps a rule lists dotted extensions.
fn check_exts(ds: &Vec<Disambiguation>) -> (b: bool)
    ensures
        b == exts_ok(ds@),
{
    let mut i: usize = 0;
    while i < ds.len()
        invariant
            i <= ds@.len(),
            forall|a: int| 0 <= a < i && keeps_rule(#[trigger] ds@[a]) ==> extensions_dotted(views(ds@[a].extensions@)),
        decreases ds@.len() - i,
    {
        if keeps_any(&ds[i]) && strip_dots(&ds[i].extensions).is_none() {
            return false;
        }
        i = i + 1;
    }
    true
}

/// Without a rule that names a language, a disambiguation keeps nothing.
proof fn lemma_kept_none(rs: Seq<RuleRecord>, exts: Seq<Seq<char>>, d: Seq<EntryView>)
    requires
        forall|j: int| 0 <= j < rs.len() ==> (#[trigger] rs[j]).language is None,
    ensures
        kept_from(rs, exts, d) == Seq::<RuleView>::empty(),
    decreases rs.len(),
{
    if rs.len() > 0 {
        assert(rs.last() == rs[rs.len() - 1]);
        lemma_kept_none(rs.drop_last(), exts, d);
    }
}

/// Builds the rules of all disambiguations.
fn build_rules(ds: &Vec<Disambiguation>, data: &LinguistData) -> (rs: Vec<Rule>)
    requires
        languages_known(ds@, data@),
        exts_ok(ds@),
    ensures
        rule_views(rs@) == all_rules(ds@, data@),
{
    let mut out: Vec<Rule> = Vec::new();
    let mut i: usize = 0;
    while i < ds.len()
        invariant
            i <= ds@.len(),
            languages_known(ds@, data@),
            exts_ok(ds@),
            rule_views(out@) == all_rules(ds@.take(i as int), data@),
        decreases ds@.len() - i,
    {
        let dis = &ds[i];
        let ghost base = rule_views(out@);
        let ghost target_exts = stripped_exts(dis.extensions@);
        let exts_opt = strip_dots(&dis.extensions);
        proof {
            if exts_opt is None && keeps_rule(*dis) {
                assert(keeps_rule(ds@[i as int]));
            }
        }
        let rs = &dis.rules;
        let mut j: usize = 0;
        while j < rs.len()
            invariant
                i < ds@.len(),
                j <= rs@.len(),
                *dis == ds@[i as int],
                *rs == dis.rules,
                languages_known(ds@, data@),
                target_exts == stripped_exts(dis.extensions@),
                exts_opt matches Some(e) ==> views(e@) == target_exts,
                exts_opt is None ==> !keeps_rule(*dis),
                rule_views(out@) == base + kept_from(rs@.take(j as int), target_exts, data@),
            decreases rs@.len() - j,
        {
            let rec = &rs[j];
            assert(rs@.take(j + 1).drop_last() =~= rs@.take(j as int));
            assert(rs@.take(j + 1).last() == *rec);
            match &rec.language {
                Some(n) => {
                    assert(ds@[i as int].rules@[j as int].language == Some(*n));
                    assert(has_language(data@, n@));
                    let exts = match &exts_opt {
                        Some(e) => crate::data::copy_all(e),
                        None => {
                            assert(dis.rules@[j as int].language is Some);
                            assert(false);
                            Vec::new()
                        },
                    };
                    let lang = copy_language(known_language(data, n.as_str()));
                    let pattern = build_pattern(rec);
                    let rule = Rule { language: lang, extensions: exts, pattern };
                    let ghost before = out@;
                    out.push(rule);
                    assert(rule_views(out@) =~= rule_views(before).push(rule_view(rule)));
                },
                None => {},
            }
            j = j + 1;
        }
        assert(rs@.take(j as int) =~= rs@);
        assert(ds@.take(i + 1).drop_last() =~= ds@.take(i as int));
        assert(ds@.take(i + 1).last() == *dis);
        i = i + 1;
    }
    assert(ds@.take(i as int) =~= ds@);
    out
}

impl ContentHeuristics {
    /// Builds the heuristics from `heuristics.yml`, finding each rule's
    /// language by name in `data`. Fails, checking in this order, where two
    /// named patterns share a name, a rule names an unknown language, a
    /// disambiguation with rules lists an extension without its dot, or a
    /// rule uses an unknown named pattern.
    pub fn new(h: &HeuristicsRecord, data: &LinguistData) -> (r: Result<ContentHeuristics, HeuristicsError>)
        ensures
            match r {
                Ok(c) => names_distinct(h.named_patterns@) && languages_known(h.disambiguations@, data@)
                    && exts_ok(h.disambiguations@) && refs_ok(
                    all_rules(h.disambiguations@, data@),
                    named_names(h.named_patterns@),
                ) && c@ == (HeuristicsView {
                    named: named_view(h.named_patterns@),
                    rules: all_rules(h.disambiguations@, data@),
                }),
                Err(HeuristicsError::DuplicateNamedPattern) => !names_distinct(h.named_patterns@),
                Err(HeuristicsError::UnknownLanguage) => names_distinct(h.named_patterns@)
                    && !languages_known(h.disambiguations@, data@),
                Err(HeuristicsError::InvalidExtension) => names_distinct(h.named_patterns@)
                    && languages_known(h.disambiguations@, data@) && !exts_ok(h.disambiguations@),
                Err(HeuristicsError::UnknownNamedPattern) => names_distinct(h.named_patterns@)
                    && languages_known(h.disambiguations@, data@) && exts_ok(h.disambiguations@)
                    && !refs_ok(all_rules(h.disambiguations@, data@), named_names(h.named_patterns@)),
            },
    {
        let named = match build_named(&h.named_patterns) {
            Some(n) => n,
            None => {
                return Err(HeuristicsError::DuplicateNamedPattern);
            },
        };
        if !check_languages(&h.disambiguations, data) {
            return Err(HeuristicsError::UnknownLanguage);
        }
        if !check_exts(&h.disambiguations) {
            return Err(HeuristicsError::InvalidExtension);
        }
        let rules = build_rules(&h.disambiguations, data);
        let ghost rv = all_rules(h.disambiguations@, data@);
        let mut k: usize = 0;
        while k < rules.len()
            invariant
                k <= rules@.len(),
                rule_views(rules@) == rv,
                rv == all_rules(h.disambiguations@, data@),
                names_distinct(h.named_patterns@),
                languages_known(h.disambiguations@, data@),
                exts_ok(h.disambiguations@),
                named@ == named_view(h.named_patterns@),
                named.names() == named_names(h.named_patterns@),
                forall|a: int| 0 <= a < k ==> refs_resolve(#[trigger] rv[a].pattern, named.names()),
            decreases rules@.len() - k,
        {
            assert(rv[k as int] == rule_view(rules@[k as int]));
            if !check_refs(&rules[k].pattern, &named) {
                assert(!refs_resolve(rv[k as int].pattern, named.names()));
                return Err(HeuristicsError::UnknownNamedPattern);
            }
            k = k + 1;
        }
        Ok(ContentHeuristics { named, rules })
    }
}


/// The rules for extension `ext`, in order, each as often as its
/// disambiguation lists `ext`.
pub open spec fn rules_for(rs: Seq<RuleView>, ext: Seq<char>) -> Seq<RuleView>
    decreases rs.len(),
{
    if rs.len() == 0 {
        seq![]
    } else {
        rules_for(rs.drop_last(), ext) + Seq::new(
            crate::data::occurrences(rs.last().extensions, ext),
            |j: int| rs.last(),
        )
    }
}

/// The language of the first rule whose pattern matches `text`.
pub open spec fn first_match(rs: Seq<RuleView>, named: Seq<(Seq<char>, RegexView)>, text: Seq<char>) -> Option<LanguageView>
    decreases rs.len(),
{
    if rs.len() == 0 {
        None
    } else if pattern_holds(rs[0].pattern, named, text) {
        Some(rs[0].language)
    } else {
        first_match(rs.drop_first(), named, text)
    }
}

/// Most bytes of content the heuristics look at.
pub const MAX_BYTES_TO_SCAN: usize = 51200;

/// The first position at or after `i` (and before `upper`) that starts a
/// character, or `upper`.
pub open spec fn next_start(b: Seq<u8>, i: int, upper: int) -> int
    decreases upper - i,
{
    if i >= upper {
        upper
    } else if b[i] < 128 || b[i] >= 192 {
        i
    } else {
        next_start(b, i + 1, upper)
    }
}

/// The closest character boundary at or after `index`, looking at most four
/// bytes ahead.
pub open spec fn ceil_boundary(b: Seq<u8>, index: int) -> int {
    let upper = if index + 4 < b.len() {
        index + 4
    } else {
        b.len() as int
    };
    next_start(b, index, upper)
}

/// The part of the content the heuristics scan: at most `MAX_BYTES_TO_SCAN`
/// bytes, extended to the end of a character.
pub open spec fn scan_limit(b: Seq<u8>) -> Seq<u8> {
    if b.len() > MAX_BYTES_TO_SCAN {
        b.take(ceil_boundary(b, MAX_BYTES_TO_SCAN as int))
    } else {
        b
    }
}

/// Within four bytes of valid UTF-8 some byte starts a character.
proof fn lemma_start_within_four(b: Seq<u8>, i: int)
    requires
        valid_utf8(b),
        0 <= i,
        i + 4 <= b.len(),
    ensures
        exists|k: int| i <= k < i + 4 && !is_continuation_byte(#[trigger] b[k]),
    decreases b.len(),
{
    let l = length_of_first_scalar(b);
    let p = pop_first_scalar(b);
    assert(1 <= l <= 4);
    assert(valid_utf8(p));
    if i == 0 {
        is_char_boundary_iff_not_is_continuation_byte(b, 0);
        assert(!is_continuation_byte(b[0]));
    } else if i < l {
        assert(p.len() > 0);
        is_char_boundary_start_end_of_seq(p);
        is_char_boundary_iff_not_is_continuation_byte(p, 0);
        assert(p[0] == b[l]);
        assert(!is_continuation_byte(b[l]));
    } else {
        lemma_start_within_four(p, i - l);
        let k = choose|k: int| i - l <= k < i - l + 4 && !is_continuation_byte(#[trigger] p[k]);
        assert(p[k] == b[k + l]);
    }
}

/// Facts about `next_start`.
proof fn lemma_next_start(b: Seq<u8>, i: int, upper: int)
    requires
        0 <= i <= upper <= b.len(),
    ensures
        i <= next_start(b, i, upper) <= upper,
        next_start(b, i, upper) < upper ==> !is_continuation_byte(b[next_start(b, i, upper)]),
        next_start(b, i, upper) == upper ==> forall|k: int| i <= k < upper ==> #[trigger] is_continuation_byte(b[k]),
    decreases upper - i,
{
    if i < upper && !(b[i] < 128 || b[i] >= 192) {
        lemma_next_start(b, i + 1, upper);
    }
}

/// Finds the closest position not below `index` that starts a character,
/// looking at most four bytes ahead.
pub fn ceil_char_boundary(content: &str, index: usize) -> (r: usize)
    requires
        index <= content.spec_bytes().len(),
    ensures
        r == ceil_boundary(content.spec_bytes(), index as int),
        index <= r <= content.spec_bytes().len(),
        is_char_boundary(content.spec_bytes(), r as int),
{
    let b = content.as_bytes();
    let upper: usize = if b.len() >= 4 && index < b.len() - 4 {
        index + 4
    } else {
        b.len()
    };
    let ghost expected_upper = if index + 4 < b@.len() {
        index + 4
    } else {
        b@.len() as int
    };
    assert(upper == expected_upper);
    let mut i = index;
    while i < upper && !(b[i] < 128 || b[i] >= 192)
        invariant
            index <= i <= upper,
            upper <= b@.len(),
            b@ == content.spec_bytes(),
            next_start(b@, i as int, upper as int) == next_start(b@, index as int, upper as int),
        decreases upper - i,
    {
        i = i + 1;
    }
    assert(next_start(b@, i as int, upper as int) == i);
    proof {
        let bs = content.spec_bytes();
        crate::text::lemma_str_valid(content);
        is_char_boundary_start_end_of_seq(bs);
        lemma_next_start(bs, index as int, upper as int);
        if i < upper {
            is_char_boundary_iff_not_is_continuation_byte(bs, i as int);
        } else if upper < bs.len() {
            lemma_start_within_four(bs, index as int);
            let k = choose|k: int| index <= k < index + 4 && !is_continuation_byte(#[trigger] bs[k]);
            assert(is_continuation_byte(bs[k]));
        }
    }
    i
}

impl ContentHeuristics {
    /// The rules for extension `ext` (see `rules_for`).
    pub fn rules(&self, ext: &str) -> (r: Vec<&Rule>)
        ensures
            rule_ref_views(r@) == rules_for(self@.rules, ext@),
    {
        let ghost rv = rule_views(self.rules@);
        let mut r: Vec<&Rule> = Vec::new();
        let mut i: usize = 0;
        while i < self.rules.len()
            invariant
                i <= self.rules@.len(),
                rv == rule_views(self.rules@),
                rv == self@.rules,
                rule_ref_views(r@) == rules_for(rv.take(i as int), ext@),
            decreases self.rules@.len() - i,
        {
            let rule = &self.rules[i];
            let ks = &rule.extensions;
            let ghost base = rule_ref_views(r@);
            let mut j: usize = 0;
            while j < ks.len()
                invariant
                    j <= ks@.len(),
                    i < self.rules@.len(),
                    *rule == self.rules@[i as int],
                    *ks == rule.extensions,
                    rule_ref_views(r@) == base + Seq::new(
                        crate::data::occurrences(views(ks@).take(j as int), ext@),
                        |x: int| rule_view(*rule),
                    ),
                decreases ks@.len() - j,
            {
                let ghost before = r@;
                assert(views(ks@).take(j + 1).drop_last() =~= views(ks@).take(j as int));
                if crate::text::str_eq(ks[j].as_str(), ext) {
                    r.push(rule);
                    assert(rule_ref_views(r@) =~= rule_ref_views(before).push(rule_view(*rule)));
                }
                assert(rule_ref_views(r@) =~= base + Seq::new(
                    crate::data::occurrences(views(ks@).take(j + 1), ext@),
                    |x: int| rule_view(*rule),
                ));
                j = j + 1;
            }
            assert(views(ks@).take(j as int) =~= views(ks@));
            assert(rv.take(i + 1).drop_last() =~= rv.take(i as int));
            assert(rv.take(i + 1).last() == rv[i as int]);
            i = i + 1;
        }
        assert(rv.take(i as int) =~= rv);
        r
    }
}

/// What `by_content_heuristics` answers: for a path with an extension, the
/// language of the first rule for that (lowercase) extension whose pattern
/// matches the scanned part of the content.
pub open spec fn by_content_heuristics_spec(h: HeuristicsView, path: Seq<u8>, content: Seq<u8>) -> AnswerView {
    match lowercase_ext_spec(path) {
        Some(ext) => answer_of_option(
            first_match(rules_for(h.rules, ext), h.named, decode_utf8(scan_limit(content))),
        ),
        None => AnswerView::Unknown,
    }
}

/// Detects the language of a file by content heuristics: zero or one language.
pub fn by_content_heuristics<'a>(h: &'a ContentHeuristics, path: &str, content: &str) -> (a: Answer<'a>)
    ensures
        a@ == by_content_heuristics_spec(h@, path.spec_bytes(), content.spec_bytes()),
{
    let ext = match lowercase_ext(path) {
        Some(e) => e,
        None => {
            return Answer::Unknown;
        },
    };
    let len = crate::text::byte_len(content);
    let text = if len > MAX_BYTES_TO_SCAN {
        let idx = ceil_char_boundary(content, MAX_BYTES_TO_SCAN);
        proof {
            crate::text::lemma_str_valid(content);
            is_char_boundary_start_end_of_seq(content.spec_bytes());
        }
        let t = crate::text::substr(content, 0, idx);
        assert(t.spec_bytes() =~= content.spec_bytes().take(idx as int));
        t
    } else {
        content
    };
    proof {
        crate::text::lemma_view_is_decoded(text);
    }
    assert(text@ == decode_utf8(scan_limit(content.spec_bytes())));
    let rs = h.rules(ext.as_str());
    let ghost rv = rule_ref_views(rs@);
    let mut i: usize = 0;
    assert(rv.skip(0) =~= rv);
    while i < rs.len()
        invariant
            i <= rs@.len(),
            rv == rule_ref_views(rs@),
            rv == rules_for(h@.rules, ext@),
            lowercase_ext_spec(path.spec_bytes()) == Some(ext@),
            text@ == decode_utf8(scan_limit(content.spec_bytes())),
            rv.len() == rs@.len(),
            first_match(rv.skip(i as int), h@.named, text@) == first_match(rv, h@.named, text@),
        decreases rs@.len() - i,
    {
        let rule = rs[i];
        assert(rv.skip(i as int)[0] == rule_view(*rule));
        assert(rv.skip(i as int).drop_first() =~= rv.skip(i + 1));
        if rule.pattern.is_match(&h.named, text) {
            return Answer::Only(&rule.language);
        }
        i = i + 1;
    }
    assert(rv.skip(i as int) =~= Seq::<RuleView>::empty());
    Answer::Unknown
}


/// Why heuristics built from `h` fail, checked in the order `new` checks.
pub open spec fn heuristics_error(h: HeuristicsRecord, d: Seq<EntryView>) -> Option<HeuristicsError> {
    if !names_distinct(h.named_patterns@) {
        Some(HeuristicsError::DuplicateNamedPattern)
    } else if !languages_known(h.disambiguations@, d) {
        Some(HeuristicsError::UnknownLanguage)
    } else if !exts_ok(h.disambiguations@) {
        Some(HeuristicsError::InvalidExtension)
    } else if !refs_ok(all_rules(h.disambiguations@, d), named_names(h.named_patterns@)) {
        Some(HeuristicsError::UnknownNamedPattern)
    } else {
        None
    }
}

/// The heuristics built from `h`.
pub open spec fn heuristics_view_of(h: HeuristicsRecord, d: Seq<EntryView>) -> HeuristicsView {
    HeuristicsView { named: named_view(h.named_patterns@), rules: all_rules(h.disambiguations@, d) }
}

} // verus!

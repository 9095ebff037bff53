//! The language table: one entry per language of `languages.yml`, with the
//! keys (aliases, file names, interpreters, extensions) it is found by.
use vstd::prelude::*;
use vstd::string::*;
use std::collections::HashMap;
use crate::text::{ascii_lower, ascii_only, lowercase, to_lowercase};

verus! {

/// Canonical Linguist identifier of a language.
pub type LanguageId = u32;

/// The kind of a language.
#[derive(Debug, Clone, Copy, PartialEq, Eq, Structural, Hash)]
pub enum LanguageType {
    Programming,
    Data,
    Markup,
    Prose,
    Unknown,
}

/// The `LanguageType` named by the `type` field of a language.
pub open spec fn language_type_spec(name: Option<Seq<char>>) -> LanguageType {
    match name {
        Some(n) => if n == "programming"@ {
            LanguageType::Programming
        } else if n == "data"@ {
            LanguageType::Data
        } else if n == "markup"@ {
            LanguageType::Markup
        } else if n == "prose"@ {
            LanguageType::Prose
        } else {
            LanguageType::Unknown
        },
        None => LanguageType::Unknown,
    }
}

/// Maps the `type` field of a language to its `LanguageType`.
pub fn language_type_from(name: Option<&str>) -> (t: LanguageType)
    ensures
        t == language_type_spec(match name {
            Some(n) => Some(n@),
            None => None,
        }),
{
    match name {
        Some(n) => {
            if crate::text::str_eq(n, "programming") {
                LanguageType::Programming
            } else if crate::text::str_eq(n, "data") {
                LanguageType::Data
            } else if crate::text::str_eq(n, "markup") {
                LanguageType::Markup
            } else if crate::text::str_eq(n, "prose") {
                LanguageType::Prose
            } else {
                LanguageType::Unknown
            }
        },
        None => LanguageType::Unknown,
    }
}

/// A language of the table.
#[derive(Debug, Clone, Eq, Hash)]
pub struct Language {
    pub language_id: LanguageId,
    pub name: String,
    pub color: Option<String>,
    pub language_type: LanguageType,
    pub tm_scope: String,
}

/// The abstract value of a `Language`.
pub struct LanguageView {
    pub language_id: LanguageId,
    pub name: Seq<char>,
    pub color: Option<Seq<char>>,
    pub language_type: LanguageType,
    pub tm_scope: Seq<char>,
}

/// The character view of an optional string.
pub open spec fn opt_string_view(s: Option<String>) -> Option<Seq<char>> {
    match s {
        Some(x) => Some(x@),
        None => None,
    }
}

impl View for Language {
    type V = LanguageView;

    open spec fn view(&self) -> LanguageView {
        LanguageView {
            language_id: self.language_id,
            name: self.name@,
            color: opt_string_view(self.color),
            language_type: self.language_type,
            tm_scope: self.tm_scope@,
        }
    }
}

impl PartialEq for Language {
    fn eq(&self, other: &Self) -> (r: bool) {
        let same_color = match (&self.color, &other.color) {
            (Some(a), Some(b)) => *a == *b,
            (None, None) => true,
            _ => false,
        };
        self.language_id == other.language_id && self.name == other.name && same_color
            && self.language_type == other.language_type && self.tm_scope == other.tm_scope
    }
}

impl vstd::std_specs::cmp::PartialEqSpecImpl for Language {
    open spec fn obeys_eq_spec() -> bool {
        true
    }

    open spec fn eq_spec(&self, other: &Language) -> bool {
        self@ == other@
    }
}

/// One language as `languages.yml` describes it.
pub struct LanguageRecord {
    pub name: String,
    pub language_id: LanguageId,
    pub color: Option<String>,
    /// The `type` field, where it is a string.
    pub kind: Option<String>,
    pub tm_scope: String,
    pub aliases: Vec<String>,
    pub filenames: Vec<String>,
    pub interpreters: Vec<String>,
    /// Extensions with their leading dot, e.g. `.rs`.
    pub extensions: Vec<String>,
}

/// The abstract value of a table entry: a language and the keys it is found by.
pub struct EntryView {
    pub language: LanguageView,
    /// Lowercase name followed by the lowercase aliases.
    pub aliases: Seq<Seq<char>>,
    pub filenames: Seq<Seq<char>>,
    pub interpreters: Seq<Seq<char>>,
    /// Lowercase extensions without their leading dot.
    pub extensions: Seq<Seq<char>>,
}

/// The keys stored beside a language.
pub struct LanguageKeys {
    aliases: Vec<String>,
    filenames: Vec<String>,
    interpreters: Vec<String>,
    extensions: Vec<String>,
}

/// The character views of a vector of strings.
pub open spec fn views(v: Seq<String>) -> Seq<Seq<char>> {
    v.map_values(|s: String| s@)
}

/// The character views of a sequence after lowercasing each.
pub open spec fn lowercased(v: Seq<Seq<char>>) -> Seq<Seq<char>> {
    v.map_values(|s: Seq<char>| lowercase(s))
}

/// Every extension starts with `.`.
pub open spec fn extensions_dotted(exts: Seq<Seq<char>>) -> bool {
    forall|i: int| 0 <= i < exts.len() ==> #[trigger] starts_with_dot(exts[i])
}

/// A string whose first character is `.`.
pub open spec fn starts_with_dot(s: Seq<char>) -> bool {
    s.len() > 0 && s[0] == '.'
}

/// The table entry built from a record.
pub open spec fn entry_of_record(r: LanguageRecord) -> EntryView {
    EntryView {
        language: LanguageView {
            language_id: r.language_id,
            name: r.name@,
            color: opt_string_view(r.color),
            language_type: language_type_spec(opt_string_view(r.kind)),
            tm_scope: r.tm_scope@,
        },
        aliases: seq![lowercase(r.name@)] + lowercased(views(r.aliases@)),
        filenames: views(r.filenames@),
        interpreters: views(r.interpreters@),
        extensions: lowercased(views(r.extensions@).map_values(|e: Seq<char>| e.drop_first())),
    }
}

/// Every extension of every record starts with `.`.
pub open spec fn records_valid(records: Seq<LanguageRecord>) -> bool {
    forall|i: int| 0 <= i < records.len() ==> extensions_dotted(views(#[trigger] records[i].extensions@))
}

/// Index of the first record at or after `i` with an extension lacking its
/// dot, or the number of records.
pub open spec fn first_invalid_from(records: Seq<LanguageRecord>, i: int) -> int
    decreases records.len() - i,
{
    if i < 0 || i >= records.len() {
        records.len() as int
    } else if !extensions_dotted(views(records[i].extensions@)) {
        i
    } else {
        first_invalid_from(records, i + 1)
    }
}

/// The first record with an extension lacking its dot is at `i`.
proof fn lemma_first_invalid(records: Seq<LanguageRecord>, i: int, k: int)
    requires
        0 <= k <= i < records.len(),
        forall|j: int| 0 <= j < i ==> extensions_dotted(views(#[trigger] records[j].extensions@)),
        !extensions_dotted(views(records[i].extensions@)),
    ensures
        first_invalid_from(records, k) == i,
    decreases i - k,
{
    if k < i {
        lemma_first_invalid(records, i, k + 1);
    }
}

/// The language table.
pub struct LinguistData {
    languages: Vec<Language>,
    keys: Vec<LanguageKeys>,
    ids: HashMap<LanguageId, usize>,
}

impl View for LinguistData {
    type V = Seq<EntryView>;

    closed spec fn view(&self) -> Seq<EntryView> {
        table_view(self.languages@, self.keys@)
    }
}

impl LinguistData {
    /// Every language has its keys.
    #[verifier::type_invariant]
    spec fn wf(&self) -> bool {
        &&& self.languages@.len() == self.keys@.len()
        &&& ids_index(self.ids@, table_view(self.languages@, self.keys@))
    }
}

/// The entries formed by languages and their keys.
pub closed spec fn table_view(languages: Seq<Language>, keys: Seq<LanguageKeys>) -> Seq<EntryView> {
    Seq::new(
        languages.len(),
        |i: int|
            EntryView {
                language: languages[i]@,
                aliases: views(keys[i].aliases@),
                filenames: views(keys[i].filenames@),
                interpreters: views(keys[i].interpreters@),
                extensions: views(keys[i].extensions@),
            },
    )
}

/// Why a language table could not be built.
#[derive(Debug, Clone, PartialEq, Eq)]
pub enum DataError {
    /// An extension of the named language lacks its leading `.`.
    InvalidExtension(String),
}

pub proof fn lemma_views_push(v: Seq<String>, x: String)
    ensures
        views(v.push(x)) == views(v).push(x@),
{
    assert(views(v.push(x)) =~= views(v).push(x@));
}

pub proof fn lemma_take_push<A>(s: Seq<A>, i: int)
    requires
        0 <= i < s.len(),
    ensures
        s.take(i + 1) == s.take(i).push(s[i]),
{
    assert(s.take(i + 1) =~= s.take(i).push(s[i]));
}

/// Lowercase copies of some strings.
fn lowercase_all(v: &Vec<String>) -> (r: Vec<String>)
    ensures
        views(r@) == lowercased(views(v@)),
{
    let mut r: Vec<String> = Vec::new();
    let mut i: usize = 0;
    while i < v.len()
        invariant
            i <= v@.len(),
            views(r@) == lowercased(views(v@)).take(i as int),
        decreases v@.len() - i,
    {
        let l = to_lowercase(v[i].as_str());
        proof {
            lemma_views_push(r@, l);
            lemma_take_push(lowercased(views(v@)), i as int);
        }
        r.push(l);
        i = i + 1;
    }
    assert(lowercased(views(v@)).take(i as int) =~= lowercased(views(v@)));
    r
}

/// Copies of some strings.
pub(crate) fn copy_all(v: &Vec<String>) -> (r: Vec<String>)
    ensures
        views(r@) == views(v@),
{
    let mut r: Vec<String> = Vec::new();
    let mut i: usize = 0;
    while i < v.len()
        invariant
            i <= v@.len(),
            views(r@) == views(v@).take(i as int),
        decreases v@.len() - i,
    {
        let c = v[i].clone();
        proof {
            lemma_views_push(r@, c);
            lemma_take_push(views(v@), i as int);
        }
        r.push(c);
        i = i + 1;
    }
    assert(views(v@).take(i as int) =~= views(v@));
    r
}

/// The lowercase extensions without their dot; `None` where one lacks the dot.
pub(crate) fn extension_keys(v: &Vec<String>) -> (r: Option<Vec<String>>)
    ensures
        r is Some <==> extensions_dotted(views(v@)),
        r matches Some(k) ==> views(k@) == lowercased(
            views(v@).map_values(|e: Seq<char>| e.drop_first()),
        ),
        r matches Some(k) ==> forall|j: int|
            0 <= j < v@.len() && ascii_only(#[trigger] views(v@)[j]) ==> views(k@)[j] == ascii_lower(
                views(v@)[j].drop_first(),
            ),
{
    let ghost target = lowercased(views(v@).map_values(|e: Seq<char>| e.drop_first()));
    let mut r: Vec<String> = Vec::new();
    let mut i: usize = 0;
    while i < v.len()
        invariant
            i <= v@.len(),
            target == lowercased(views(v@).map_values(|e: Seq<char>| e.drop_first())),
            views(r@) == target.take(i as int),
            extensions_dotted(views(v@).take(i as int)),
            forall|j: int|
                0 <= j < i && ascii_only(#[trigger] views(v@)[j]) ==> views(r@)[j] == ascii_lower(
                    views(v@)[j].drop_first(),
                ),
        decreases v@.len() - i,
    {
        let e = v[i].as_str();
        let n = e.unicode_len();
        if n == 0 || e.get_char(0) != '.' {
            assert(views(v@)[i as int] == e@);
            assert(views(v@)[i as int].len() == 0 || views(v@)[i as int][0] != '.');
            proof {
                if extensions_dotted(views(v@)) {
                    let x = views(v@);
                    assert(0 <= i < x.len());
                    assert(starts_with_dot(x[i as int]));
                }
            }
            return None;
        }
        let rest = e.substring_char(1, n);
        assert(rest@ =~= e@.drop_first());
        proof {
            if ascii_only(e@) {
                assert forall|j: int| 0 <= j < rest@.len() implies (#[trigger] rest@[j] as u32) < 128 by {
                    assert(rest@[j] == e@[j + 1]);
                }
            }
        }
        let l = to_lowercase(rest);
        let ghost before = r@;
        proof {
            lemma_views_push(r@, l);
            lemma_take_push(target, i as int);
        }
        r.push(l);
        assert(views(v@)[i as int] == e@);
        assert forall|j: int|
            0 <= j < i + 1 && ascii_only(#[trigger] views(v@)[j]) implies views(r@)[j] == ascii_lower(
                views(v@)[j].drop_first(),
            ) by {
            if j < i {
                assert(views(r@)[j] == views(before)[j]);
            } else {
                assert(views(r@)[j] == l@);
            }
        }
        assert(views(v@).take(i + 1)[i as int] == e@);
        assert(e@[0] == '.');
        assert forall|k: int| 0 <= k < i + 1 implies #[trigger] starts_with_dot(views(v@).take(i + 1)[k]) by {
            let x = views(v@).take(i + 1);
            let y = views(v@).take(i as int);
            if k < i {
                assert(x[k] == y[k]);
                assert(starts_with_dot(y[k]));
            } else {
                assert(x[k] == e@);
            }
        }
        i = i + 1;
    }
    assert(target.take(i as int) =~= target);
    assert(views(v@).take(i as int) =~= views(v@));
    Some(r)
}

impl LinguistData {
    /// Number of languages.
    pub fn len(&self) -> (n: usize)
        ensures
            n == self@.len(),
    {
        self.languages.len()
    }

    /// Builds the table from the records of `languages.yml`, in their order.
    /// Fails where an extension lacks its leading dot.
    pub fn new(records: &Vec<LanguageRecord>) -> (r: Result<LinguistData, DataError>)
        ensures
            r is Ok <==> records_valid(records@),
            r matches Ok(d) ==> d@ == records@.map_values(|x: LanguageRecord| entry_of_record(x)),
            r matches Ok(d) ==> forall|i: int, k: int|
                0 <= i < records@.len() && 0 <= k < records@[i].extensions@.len() && ascii_only(
                    #[trigger] views(records@[i].extensions@)[k],
                ) ==> d@[i].extensions[k] == ascii_lower(views(records@[i].extensions@)[k].drop_first()),
            r matches Err(DataError::InvalidExtension(name)) ==> name@ == records@[first_invalid_from(
                records@,
                0,
            )].name@ && first_invalid_from(records@, 0) < records@.len(),
    {
        let ghost target = records@.map_values(|x: LanguageRecord| entry_of_record(x));
        let mut languages: Vec<Language> = Vec::new();
        let mut keys: Vec<LanguageKeys> = Vec::new();
        let mut ids: HashMap<LanguageId, usize> = HashMap::new();
        let mut i: usize = 0;
        assert(ids_index(ids@, target.take(0)));
        while i < records.len()
            invariant
                i <= records@.len(),
                ids_index(ids@, target.take(i as int)),
                languages@.len() == i,
                keys@.len() == i,
                target == records@.map_values(|x: LanguageRecord| entry_of_record(x)),
                forall|k: int| 0 <= k < i ==> extensions_dotted(views(#[trigger] records@[k].extensions@)),
                table_view(languages@, keys@) == target.take(i as int),
                forall|i2: int, k: int|
                    0 <= i2 < i && 0 <= k < records@[i2].extensions@.len() && ascii_only(
                        #[trigger] views(records@[i2].extensions@)[k],
                    ) ==> views(keys@[i2].extensions@)[k] == ascii_lower(
                        views(records@[i2].extensions@)[k].drop_first(),
                    ),
            decreases records@.len() - i,
        {
            let rec = &records[i];
            let ext_keys = match extension_keys(&rec.extensions) {
                Some(k) => k,
                None => {
                    proof {
                        lemma_first_invalid(records@, i as int, 0);
                    }
                    return Err(DataError::InvalidExtension(rec.name.clone()));
                },
            };
            let mut aliases: Vec<String> = Vec::new();
            aliases.push(to_lowercase(rec.name.as_str()));
            let mut rest = lowercase_all(&rec.aliases);
            aliases.append(&mut rest);
            let kind = match &rec.kind {
                Some(t) => Some(t.as_str()),
                None => None,
            };
            let color = match &rec.color {
                Some(c) => Some(c.clone()),
                None => None,
            };
            let language = Language {
                language_id: rec.language_id,
                name: rec.name.clone(),
                color,
                language_type: language_type_from(kind),
                tm_scope: rec.tm_scope.clone(),
            };
            let k = LanguageKeys {
                aliases,
                filenames: copy_all(&rec.filenames),
                interpreters: copy_all(&rec.interpreters),
                extensions: ext_keys,
            };
            let ghost old_langs = languages@;
            let ghost old_keys = keys@;
            languages.push(language);
            keys.push(k);
            ids.insert(rec.language_id, i);
            proof {
                assert forall|id: LanguageId| last_with(target.take(i + 1), #[trigger] has_id(id)) == if id
                    == rec.language_id {
                    Some(i as int)
                } else {
                    last_with(target.take(i as int), has_id(id))
                } by {
                    lemma_last_with_take(target, has_id(id), i + 1);
                }
                assert(views(k.aliases@) =~= seq![lowercase(rec.name@)] + lowercased(views(rec.aliases@)));
                let d = table_view(languages@, keys@);
                let old_d = table_view(old_langs, old_keys);
                assert(d =~= target.take(i + 1)) by {
                    assert forall|j: int| 0 <= j < i implies d[j] == old_d[j] by {
                        assert(languages@[j] == old_langs[j]);
                        assert(keys@[j] == old_keys[j]);
                    }
                }
            }
            i = i + 1;
        }
        assert(target.take(i as int) =~= target);
        let d = LinguistData { languages, keys, ids };
        assert(d@ == table_view(languages@, keys@));
        assert forall|i2: int, k: int|
            0 <= i2 < records@.len() && 0 <= k < records@[i2].extensions@.len() && ascii_only(
                #[trigger] views(records@[i2].extensions@)[k],
            ) implies d@[i2].extensions[k] == ascii_lower(views(records@[i2].extensions@)[k].drop_first()) by {
            assert(d@[i2].extensions == views(keys@[i2].extensions@));
        }
        Ok(d)
    }
}

/// `ids` maps each id to the index of the last entry with that id.
pub open spec fn ids_index(ids: Map<LanguageId, usize>, es: Seq<EntryView>) -> bool {
    &&& forall|id: LanguageId| #[trigger] ids.contains_key(id) <==> last_with(es, has_id(id)) is Some
    &&& forall|id: LanguageId|
        #[trigger] ids.contains_key(id) ==> last_with(es, has_id(id)) == Some(ids[id] as int)
}

/// The index `last_with` gives is that of an entry satisfying `p`.
proof fn lemma_last_with_in_range(es: Seq<EntryView>, p: spec_fn(EntryView) -> bool)
    ensures
        last_with(es, p) matches Some(j) ==> 0 <= j < es.len() && p(es[j]),
    decreases es.len(),
{
    if es.len() > 0 && !p(es.last()) {
        lemma_last_with_in_range(es.drop_last(), p);
    }
}

/// Index of the last entry satisfying `p`.
pub open spec fn last_with(es: Seq<EntryView>, p: spec_fn(EntryView) -> bool) -> Option<int>
    decreases es.len(),
{
    if es.len() == 0 {
        None
    } else if p(es.last()) {
        Some(es.len() - 1)
    } else {
        last_with(es.drop_last(), p)
    }
}

/// The language of the entry at `idx`, if any.
pub open spec fn language_at(es: Seq<EntryView>, idx: Option<int>) -> Option<LanguageView> {
    match idx {
        Some(i) => Some(es[i].language),
        None => None,
    }
}

/// The view of an optional language reference.
pub open spec fn opt_language_view(l: Option<&Language>) -> Option<LanguageView> {
    match l {
        Some(x) => Some(x@),
        None => None,
    }
}

/// The views of some language references.
pub open spec fn language_views(v: Seq<&Language>) -> Seq<LanguageView> {
    v.map_values(|l: &Language| l@)
}

/// Which keys of an entry a lookup goes by.
#[derive(Debug, Clone, Copy, PartialEq, Eq, Structural)]
pub enum KeyKind {
    Filename,
    Interpreter,
    Extension,
}

/// The keys of `e` of the given kind.
pub open spec fn keys_of(e: EntryView, kind: KeyKind) -> Seq<Seq<char>> {
    match kind {
        KeyKind::Filename => e.filenames,
        KeyKind::Interpreter => e.interpreters,
        KeyKind::Extension => e.extensions,
    }
}

/// How many times `key` occurs in `ks`.
pub open spec fn occurrences(ks: Seq<Seq<char>>, key: Seq<char>) -> nat
    decreases ks.len(),
{
    if ks.len() == 0 {
        0
    } else {
        occurrences(ks.drop_last(), key) + if ks.last() == key {
            1nat
        } else {
            0nat
        }
    }
}

/// The languages found by `key`, in table order, each repeated as often as
/// its entry lists the key.
pub open spec fn hits(es: Seq<EntryView>, kind: KeyKind, key: Seq<char>) -> Seq<LanguageView>
    decreases es.len(),
{
    if es.len() == 0 {
        seq![]
    } else {
        hits(es.drop_last(), kind, key) + Seq::new(
            occurrences(keys_of(es.last(), kind), key),
            |j: int| es.last().language,
        )
    }
}

/// Whether `key` occurs in `ks`.
pub(crate) fn has_key(ks: &Vec<String>, key: &str) -> (r: bool)
    ensures
        r == views(ks@).contains(key@),
{
    let mut i: usize = 0;
    while i < ks.len()
        invariant
            i <= ks@.len(),
            forall|k: int| 0 <= k < i ==> views(ks@)[k] != key@,
        decreases ks@.len() - i,
    {
        if crate::text::str_eq(ks[i].as_str(), key) {
            assert(views(ks@)[i as int] == key@);
            return true;
        }
        i = i + 1;
    }
    false
}

/// Entries with the language id `id`.
pub open spec fn has_id(id: LanguageId) -> spec_fn(EntryView) -> bool {
    |e: EntryView| e.language.language_id == id
}

/// Entries with the name `name`.
pub open spec fn has_name(name: Seq<char>) -> spec_fn(EntryView) -> bool {
    |e: EntryView| e.language.name == name
}

/// Entries whose lowercase name or aliases hold `key`.
pub open spec fn has_alias(key: Seq<char>) -> spec_fn(EntryView) -> bool {
    |e: EntryView| e.aliases.contains(key)
}

proof fn lemma_last_with_take(es: Seq<EntryView>, p: spec_fn(EntryView) -> bool, i: int)
    requires
        0 < i <= es.len(),
    ensures
        last_with(es.take(i), p) == if p(es[i - 1]) {
            Some(i - 1)
        } else {
            last_with(es.take(i - 1), p)
        },
{
    assert(es.take(i).drop_last() =~= es.take(i - 1));
    assert(es.take(i).last() == es[i - 1]);
}

impl LinguistData {
    /// The language at `i`.
    fn language_ref(&self, i: usize) -> (l: &Language)
        requires
            i < self@.len(),
        ensures
            l@ == self@[i as int].language,
    {
        proof {
            use_type_invariant(self);
        }
        &self.languages[i]
    }

    /// The last language whose id is `id`.
    pub fn by_id(&self, id: LanguageId) -> (r: Option<&Language>)
        ensures
            opt_language_view(r) == language_at(
                self@,
                last_with(self@, has_id(id)),
            ),
    {
        proof {
            use_type_invariant(self);
            lemma_last_with_in_range(self@, has_id(id));
        }
        match self.ids.get(&id) {
            Some(i) => Some(self.language_ref(*i)),
            None => None,
        }
    }

    /// The last language whose name is `name`.
    pub fn by_name(&self, name: &str) -> (r: Option<&Language>)
        ensures
            opt_language_view(r) == language_at(
                self@,
                last_with(self@, has_name(name@)),
            ),
    {
        let ghost p = has_name(name@);
        proof {
            use_type_invariant(self);
        }
        let mut i = self.languages.len();
        assert(self@.take(i as int) =~= self@);
        while i > 0
            invariant
                i <= self@.len(),
                self@.len() == self.languages@.len(),
                self@.len() == self.keys@.len(),
                p == has_name(name@),
                last_with(self@.take(i as int), p) == last_with(self@, p),
            decreases i,
        {
            proof {
                lemma_last_with_take(self@, p, i as int);
                assert(self@[i - 1].language == self.languages@[i - 1]@);
                assert(self@[i - 1].aliases == views(self.keys@[i - 1].aliases@));
            }
            if crate::text::str_eq(self.languages[i - 1].name.as_str(), name) {
                return Some(self.language_ref(i - 1));
            }
            i = i - 1;
        }
        None
    }

    /// The last language whose lowercase name or aliases hold `key`.
    pub fn by_alias_key(&self, key: &str) -> (r: Option<&Language>)
        ensures
            opt_language_view(r) == language_at(
                self@,
                last_with(self@, has_alias(key@)),
            ),
    {
        let ghost p = has_alias(key@);
        proof {
            use_type_invariant(self);
        }
        let mut i = self.languages.len();
        assert(self@.take(i as int) =~= self@);
        while i > 0
            invariant
                i <= self@.len(),
                self@.len() == self.languages@.len(),
                self@.len() == self.keys@.len(),
                p == has_alias(key@),
                last_with(self@.take(i as int), p) == last_with(self@, p),
            decreases i,
        {
            proof {
                lemma_last_with_take(self@, p, i as int);
                assert(self@[i - 1].language == self.languages@[i - 1]@);
                assert(self@[i - 1].aliases == views(self.keys@[i - 1].aliases@));
            }
            if has_key(&self.keys[i - 1].aliases, key) {
                return Some(self.language_ref(i - 1));
            }
            i = i - 1;
        }
        None
    }

    /// The language whose lowercase name or aliases hold `alias`, lowercased.
    pub fn by_alias(&self, alias: &str) -> (r: Option<&Language>)
        ensures
            opt_language_view(r) == language_at(
                self@,
                last_with(self@, has_alias(lowercase(alias@))),
            ),
    {
        let key = to_lowercase(alias);
        self.by_alias_key(key.as_str())
    }

    /// The keys of the given kind of the language at `i`.
    fn keys_ref(&self, i: usize, kind: KeyKind) -> (ks: &Vec<String>)
        requires
            i < self@.len(),
        ensures
            views(ks@) == keys_of(self@[i as int], kind),
    {
        proof {
            use_type_invariant(self);
        }
        match kind {
            KeyKind::Filename => &self.keys[i].filenames,
            KeyKind::Interpreter => &self.keys[i].interpreters,
            KeyKind::Extension => &self.keys[i].extensions,
        }
    }

    /// The languages listing `key` among their keys of the given kind.
    pub fn by_key(&self, kind: KeyKind, key: &str) -> (r: Vec<&Language>)
        ensures
            language_views(r@) == hits(self@, kind, key@),
    {
        proof {
            use_type_invariant(self);
        }
        let mut r: Vec<&Language> = Vec::new();
        let mut i: usize = 0;
        while i < self.languages.len()
            invariant
                i <= self@.len(),
                self@.len() == self.languages@.len(),
                language_views(r@) == hits(self@.take(i as int), kind, key@),
            decreases self@.len() - i,
        {
            let ks = self.keys_ref(i, kind);
            let lang = self.language_ref(i);
            let ghost base = language_views(r@);
            let mut j: usize = 0;
            while j < ks.len()
                invariant
                    j <= ks@.len(),
                    lang@ == self@[i as int].language,
                    language_views(r@) == base + Seq::new(
                        occurrences(views(ks@).take(j as int), key@),
                        |x: int| self@[i as int].language,
                    ),
                decreases ks@.len() - j,
            {
                let ghost before = r@;
                assert(views(ks@).take(j + 1).drop_last() =~= views(ks@).take(j as int));
                if crate::text::str_eq(ks[j].as_str(), key) {
                    r.push(lang);
                    assert(language_views(r@) =~= language_views(before).push(lang@));
                    assert(language_views(r@) =~= base + Seq::new(
                        occurrences(views(ks@).take(j + 1), key@),
                        |x: int| self@[i as int].language,
                    ));
                } else {
                    assert(language_views(r@) =~= base + Seq::new(
                        occurrences(views(ks@).take(j + 1), key@),
                        |x: int| self@[i as int].language,
                    ));
                }
                j = j + 1;
            }
            assert(views(ks@).take(j as int) =~= views(ks@));
            assert(self@.take(i + 1).drop_last() =~= self@.take(i as int));
            assert(self@.take(i + 1).last() == self@[i as int]);
            i = i + 1;
        }
        assert(self@.take(i as int) =~= self@);
        r
    }
}

} // verus!

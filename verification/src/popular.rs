//! Popular languages (`popular.yml`), preferred when several candidates remain.
use vstd::prelude::*;
use crate::data::{Language, LanguageView, language_views, views};

verus! {

/// Names of the popular languages.
pub struct PopularLanguages {
    names: Vec<String>,
}

impl View for PopularLanguages {
    type V = Seq<Seq<char>>;

    closed spec fn view(&self) -> Seq<Seq<char>> {
        views(self.names@)
    }
}

/// Whether `l` is among the popular languages `pop`.
pub open spec fn is_popular(pop: Seq<Seq<char>>, l: LanguageView) -> bool {
    pop.contains(l.name)
}

/// The languages of `v` that are popular, in order.
pub open spec fn popular_part(pop: Seq<Seq<char>>, v: Seq<LanguageView>) -> Seq<LanguageView>
    decreases v.len(),
{
    if v.len() == 0 {
        seq![]
    } else if is_popular(pop, v.last()) {
        popular_part(pop, v.drop_last()).push(v.last())
    } else {
        popular_part(pop, v.drop_last())
    }
}

/// The languages of `v` that are not popular, in order.
pub open spec fn other_part(pop: Seq<Seq<char>>, v: Seq<LanguageView>) -> Seq<LanguageView>
    decreases v.len(),
{
    if v.len() == 0 {
        seq![]
    } else if is_popular(pop, v.last()) {
        other_part(pop, v.drop_last())
    } else {
        other_part(pop, v.drop_last()).push(v.last())
    }
}

/// A stable sort putting popular languages first.
pub open spec fn sorted_by_popularity(pop: Seq<Seq<char>>, v: Seq<LanguageView>) -> Seq<LanguageView> {
    popular_part(pop, v) + other_part(pop, v)
}

/// Builds the popular languages from the names `popular.yml` lists.
pub fn init(names: Vec<String>) -> (p: PopularLanguages)
    ensures
        p@ == views(names@),
{
    PopularLanguages { names }
}

impl PopularLanguages {
    /// Whether the language named `name` is popular.
    pub fn contains(&self, name: &str) -> (r: bool)
        ensures
            r == self@.contains(name@),
    {
        let mut i: usize = 0;
        while i < self.names.len()
            invariant
                i <= self.names@.len(),
                forall|k: int| 0 <= k < i ==> views(self.names@)[k] != name@,
            decreases self.names@.len() - i,
        {
            if crate::text::str_eq(self.names[i].as_str(), name) {
                assert(views(self.names@)[i as int] == name@);
                return true;
            }
            i = i + 1;
        }
        false
    }
}

/// Stable sort of `langs` putting popular languages first.
pub fn sort_by_popularity<'a>(langs: &mut Vec<&'a Language>, popular: &PopularLanguages)
    ensures
        language_views(final(langs)@) == sorted_by_popularity(popular@, language_views(old(langs)@)),
{
    let ghost pop = popular@;
    let ghost orig = language_views(langs@);
    let mut first: Vec<&'a Language> = Vec::new();
    let mut rest: Vec<&'a Language> = Vec::new();
    let mut i: usize = 0;
    while i < langs.len()
        invariant
            i <= langs@.len(),
            pop == popular@,
            orig == language_views(langs@),
            language_views(first@) == popular_part(pop, orig.take(i as int)),
            language_views(rest@) == other_part(pop, orig.take(i as int)),
        decreases langs@.len() - i,
    {
        let l = langs[i];
        assert(orig.take(i + 1).drop_last() =~= orig.take(i as int));
        assert(orig.take(i + 1).last() == l@);
        if popular.contains(l.name.as_str()) {
            let ghost before = first@;
            first.push(l);
            assert(language_views(first@) =~= language_views(before).push(l@));
        } else {
            let ghost before = rest@;
            rest.push(l);
            assert(language_views(rest@) =~= language_views(before).push(l@));
        }
        i = i + 1;
    }
    assert(orig.take(i as int) =~= orig);
    let ghost f = first@;
    let ghost r = rest@;
    first.append(&mut rest);
    assert(language_views(first@) =~= language_views(f) + language_views(r));
    *langs = first;
}

} // verus!

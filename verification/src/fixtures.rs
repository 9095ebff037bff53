//! Reading the fixture lists of the test data: sample files and lists of
//! paths with the expected answer of a check.
use vstd::prelude::*;
use vstd::string::*;
use vstd::utf8::*;
use crate::text::{byte_views, lines, spec_lines, substr};

verus! {

/// A sample file of the linguist samples directory and its language.
pub struct Sample {
    pub language: String,
    pub path: String,
}

/// A line of a fixture list: whether the check should hold of `path`.
pub struct FixtureCase {
    pub expected: bool,
    pub path: String,
}

/// Position of the first space of a line.
pub open spec fn first_space(l: Seq<u8>) -> Option<int>
    decreases l.len(),
{
    if l.len() == 0 {
        None
    } else if l[0] == 32u8 {
        Some(0)
    } else {
        match first_space(l.drop_first()) {
            Some(k) => Some(k + 1),
            None => None,
        }
    }
}

/// The case a line describes: `Y` or another word, a space, then the path;
/// lines without a space and comments (`#`) describe none.
pub open spec fn case_of_line(l: Seq<u8>) -> Option<(bool, Seq<u8>)> {
    match first_space(l) {
        None => None,
        Some(k) => if l[0] == 35u8 {
            None
        } else {
            Some((l.take(k) == seq![89u8], l.skip(k + 1)))
        },
    }
}

/// The cases of some lines, in order.
pub open spec fn cases_of(ls: Seq<Seq<u8>>) -> Seq<(bool, Seq<u8>)>
    decreases ls.len(),
{
    if ls.len() == 0 {
        seq![]
    } else {
        match case_of_line(ls.last()) {
            Some(c) => cases_of(ls.drop_last()).push(c),
            None => cases_of(ls.drop_last()),
        }
    }
}

/// The view of a case.
pub open spec fn case_view(c: FixtureCase) -> (bool, Seq<u8>) {
    (c.expected, encode_utf8(c.path@))
}

/// Facts about `first_space`.
proof fn lemma_first_space(l: Seq<u8>)
    ensures
        first_space(l) matches Some(k) ==> 0 <= k < l.len() && l[k] == 32u8 && forall|j: int|
            0 <= j < k ==> l[j] != 32u8,
        first_space(l) is None ==> forall|j: int| 0 <= j < l.len() ==> l[j] != 32u8,
    decreases l.len(),
{
    if l.len() > 0 && l[0] != 32u8 {
        lemma_first_space(l.drop_first());
        assert forall|j: int| 0 < j < l.len() implies l[j] == l.drop_first()[j - 1] by {}
    }
}

/// Position of the first space of a line.
fn find_space(l: &str) -> (r: Option<usize>)
    ensures
        match r {
            Some(k) => first_space(l.spec_bytes()) == Some(k as int),
            None => first_space(l.spec_bytes()) is None,
        },
{
    let b = l.as_bytes();
    let mut i: usize = 0;
    while i < b.len()
        invariant
            i <= b@.len(),
            b@ == l.spec_bytes(),
            forall|j: int| 0 <= j < i ==> b@[j] != 32u8,
        decreases b@.len() - i,
    {
        if b[i] == 32u8 {
            proof {
                lemma_first_space(b@);
                if first_space(b@) != Some(i as int) {
                    assert(first_space(b@) matches Some(k) && k < i);
                }
            }
            return Some(i);
        }
        i = i + 1;
    }
    proof {
        lemma_first_space(b@);
    }
    None
}

/// The cases of a fixture list: one per line of the form `Y path` or
/// `N path`, skipping comments and lines without a space.
pub fn fixture_cases(data: &str) -> (r: Vec<FixtureCase>)
    ensures
        r@.map_values(|c: FixtureCase| case_view(c)) == cases_of(spec_lines(data.spec_bytes())),
{
    let ls = lines(data);
    let ghost lv = byte_views(ls@);
    let mut out: Vec<FixtureCase> = Vec::new();
    let mut i: usize = 0;
    while i < ls.len()
        invariant
            i <= ls@.len(),
            lv == byte_views(ls@),
            lv == spec_lines(data.spec_bytes()),
            out@.map_values(|c: FixtureCase| case_view(c)) == cases_of(lv.take(i as int)),
        decreases ls@.len() - i,
    {
        let l = ls[i];
        let lb = l.as_bytes();
        assert(lv.take(i + 1).drop_last() =~= lv.take(i as int));
        assert(lv.take(i + 1).last() == l.spec_bytes());
        match find_space(l) {
            Some(k) => {
                proof {
                    lemma_first_space(lb@);
                }
                if lb[0] != 35u8 {
                    proof {
                        crate::text::lemma_str_valid(l);
                        is_char_boundary_start_end_of_seq(lb@);
                        crate::text::lemma_boundary_after_ascii(lb@, k as int);
                    }
                    let expected = k == 1 && lb[0] == 89u8;
                    assert(expected == (lb@.take(k as int) == seq![89u8])) by {
                        if lb@.take(k as int) == seq![89u8] {
                            assert(lb@.take(k as int).len() == 1);
                            assert(lb@.take(k as int)[0] == lb@[0]);
                        }
                        if expected {
                            assert(lb@.take(k as int) =~= seq![89u8]);
                        }
                    }
                    let rest = substr(l, k + 1, lb.len());
                    assert(rest.spec_bytes() =~= lb@.skip(k + 1));
                    let c = FixtureCase { expected, path: String::from_str(rest) };
                    let ghost before = out@;
                    out.push(c);
                    assert(out@.map_values(|c: FixtureCase| case_view(c)) =~= before.map_values(
                        |c: FixtureCase| case_view(c),
                    ).push(case_view(c)));
                }
            },
            None => {},
        }
        i = i + 1;
    }
    assert(lv.take(i as int) =~= lv);
    out
}

/// The entries of a skip list: the lines that are not empty and do not
/// start with `#`.
pub open spec fn skip_entries(ls: Seq<Seq<u8>>) -> Seq<Seq<u8>>
    decreases ls.len(),
{
    if ls.len() == 0 {
        seq![]
    } else if ls.last().len() > 0 && ls.last()[0] != 35u8 {
        skip_entries(ls.drop_last()).push(ls.last())
    } else {
        skip_entries(ls.drop_last())
    }
}

/// Reads a skip list: its lines that are not empty and not comments.
pub fn skip_list(text: &str) -> (r: Vec<&str>)
    ensures
        byte_views(r@) == skip_entries(spec_lines(text.spec_bytes())),
{
    let ls = lines(text);
    let ghost lv = byte_views(ls@);
    let mut out: Vec<&str> = Vec::new();
    let mut i: usize = 0;
    while i < ls.len()
        invariant
            i <= ls@.len(),
            lv == byte_views(ls@),
            lv == spec_lines(text.spec_bytes()),
            byte_views(out@) == skip_entries(lv.take(i as int)),
        decreases ls@.len() - i,
    {
        let l = ls[i];
        let lb = l.as_bytes();
        assert(lv.take(i + 1).drop_last() =~= lv.take(i as int));
        assert(lv.take(i + 1).last() == l.spec_bytes());
        if lb.len() > 0 && lb[0] != 35u8 {
            let ghost before = out@;
            out.push(l);
            assert(byte_views(out@) =~= byte_views(before).push(l.spec_bytes()));
        }
        i = i + 1;
    }
    assert(lv.take(i as int) =~= lv);
    out
}

/// Whether a skip list names `entry`.
pub fn is_skipped(skips: &Vec<&str>, entry: &str) -> (b: bool)
    ensures
        b == crate::text::str_views(skips@).contains(entry@),
{
    let mut i: usize = 0;
    while i < skips.len()
        invariant
            i <= skips@.len(),
            forall|k: int| 0 <= k < i ==> crate::text::str_views(skips@)[k] != entry@,
        decreases skips@.len() - i,
    {
        if crate::text::str_eq(skips[i], entry) {
            assert(crate::text::str_views(skips@)[i as int] == entry@);
            return true;
        }
        i = i + 1;
    }
    false
}

} // verus!

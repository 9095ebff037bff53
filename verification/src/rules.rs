//! Path rule sets read from YAML lists of regexes (`vendor.yml`,
//! `tests.yml`, `documentation.yml`, `dependency_management.yml`).
use vstd::prelude::*;
use vstd::string::*;
use crate::regex::{CompiledSet, compile_set, regex_set_compiles, regex_set_matches, set_is_match, string_views};

verus! {

/// `s` from position `i` on, with each `\/` (scanning left to right) made `/`.
pub open spec fn unescape_from(s: Seq<char>, i: int) -> Seq<char>
    decreases s.len() - i,
{
    if i < 0 || i >= s.len() {
        seq![]
    } else if i + 1 < s.len() && s[i] == '\\' && s[i + 1] == '/' {
        seq!['/'] + unescape_from(s, i + 2)
    } else {
        seq![s[i]] + unescape_from(s, i + 1)
    }
}

/// `s` with every `\/` replaced by `/` (`str::replace(r"\/", "/")`).
pub open spec fn unescape_slashes(s: Seq<char>) -> Seq<char> {
    unescape_from(s, 0)
}

/// Replaces every `\/` of `s` with `/`.
pub fn unescape(s: &str) -> (r: String)
    ensures
        r@ == unescape_slashes(s@),
{
    let n = s.unicode_len();
    let mut out = String::from_str(s.substring_char(0, 0));
    let mut start: usize = 0;
    let mut i: usize = 0;
    assert(s@.subrange(0, 0) =~= Seq::<char>::empty());
    while i < n
        invariant
            start <= i <= n,
            n == s@.len(),
            unescape_from(s@, 0) == out@ + s@.subrange(start as int, i as int) + unescape_from(s@, i as int),
        decreases n - i,
    {
        if i + 1 < n && s.get_char(i) == '\\' && s.get_char(i + 1) == '/' {
            let seg = s.substring_char(start, i);
            let ghost old_out = out@;
            out.append(seg);
            out.append("/");
            proof {
                reveal_strlit("/");
                assert(out@ =~= old_out + s@.subrange(start as int, i as int) + seq!['/']);
                assert(unescape_from(s@, i as int) == seq!['/'] + unescape_from(s@, i + 2));
                assert(s@.subrange(i + 2, i + 2) =~= Seq::<char>::empty());
                assert(out@ + s@.subrange(i + 2, i + 2) + unescape_from(s@, i + 2) =~= old_out
                    + s@.subrange(start as int, i as int) + unescape_from(s@, i as int));
            }
            i = i + 2;
            start = i;
        } else {
            proof {
                assert(unescape_from(s@, i as int) == seq![s@[i as int]] + unescape_from(s@, i + 1));
                assert(s@.subrange(start as int, i + 1) =~= s@.subrange(start as int, i as int).push(s@[i as int]));
                assert(out@ + s@.subrange(start as int, i + 1) + unescape_from(s@, i + 1) =~= out@
                    + s@.subrange(start as int, i as int) + unescape_from(s@, i as int));
            }
            i = i + 1;
        }
    }
    let seg = s.substring_char(start, n);
    let ghost old_out = out@;
    out.append(seg);
    assert(unescape_from(s@, n as int) =~= Seq::<char>::empty());
    assert(out@ =~= old_out + s@.subrange(start as int, n as int) + unescape_from(s@, n as int));
    out
}

/// The patterns of a rule list after unescaping slashes.
pub open spec fn unescaped_all(v: Seq<String>) -> Seq<Seq<char>> {
    v.map_values(|s: String| unescape_slashes(s@))
}

/// A compiled set of path regexes.
pub struct PathRules {
    set: CompiledSet,
}

impl View for PathRules {
    type V = Seq<Seq<char>>;

    closed spec fn view(&self) -> Seq<Seq<char>> {
        self.set@.0
    }
}

impl PathRules {
    #[verifier::type_invariant]
    spec fn wf(&self) -> bool {
        !self.set@.1
    }

    /// Compiles a YAML list of path regexes, each with `\/` made `/`;
    /// `None` where the `regex` crate rejects them.
    pub fn new(patterns: &Vec<String>) -> (r: Option<PathRules>)
        ensures
            r is Some <==> regex_set_compiles(unescaped_all(patterns@), false),
            r matches Some(p) ==> p@ == unescaped_all(patterns@),
    {
        let mut v: Vec<String> = Vec::new();
        let mut i: usize = 0;
        while i < patterns.len()
            invariant
                i <= patterns@.len(),
                string_views(v@) == unescaped_all(patterns@).take(i as int),
            decreases patterns@.len() - i,
        {
            let u = unescape(patterns[i].as_str());
            let ghost before = v@;
            v.push(u);
            assert(string_views(v@) =~= string_views(before).push(u@));
            assert(unescaped_all(patterns@).take(i + 1) =~= unescaped_all(patterns@).take(i as int).push(u@));
            i = i + 1;
        }
        assert(unescaped_all(patterns@).take(i as int) =~= unescaped_all(patterns@));
        match compile_set(&v, false) {
            Some(set) => Some(PathRules { set }),
            None => None,
        }
    }

    /// Whether some rule matches `path`.
    pub fn is_match(&self, path: &str) -> (b: bool)
        ensures
            b == regex_set_matches(self@, false, path@),
    {
        proof {
            use_type_invariant(self);
        }
        set_is_match(&self.set, path)
    }
}

} // verus!

//! Detection by the interpreter named on a `#!` line.
use vstd::prelude::*;
use vstd::string::*;
use vstd::utf8::{decode_utf8, encode_utf8, is_char_boundary_start_end_of_seq};
use crate::data::{EntryView, KeyKind, LinguistData, hits};
use crate::path::{file_name, file_name_spec};
use crate::regex::{pattern_is_match, pattern_matches, pattern_replace_first};
use crate::strategies::{Answer, AnswerView, answer_of_seq};
use crate::text::{lines, spec_lines, split_whitespace, str_eq, str_views, words};

verus! {

/// Options of `env`: a dash and option letters, or a long option.
pub const ENV_OPT_ARGS: &'static str = r"-[i0uCSv]+|--\S+";

/// Variable assignments passed to `env`.
pub const ENV_VAR_ARGS: &'static str = r"\S+=\S+";

/// A shell script that hands itself to another interpreter.
pub const MULTI_LINE_EXEC: &'static str = r"exec (\w+).+\$0.+\$@";

/// A version suffix of an interpreter name, as in `python2.7`.
pub const PYTHON_VERSION: &'static str = r"(\.\d+)$";

/// The bytes after `#!` where the first line starts so.
pub open spec fn shebang_text(content: Seq<u8>) -> Option<Seq<u8>> {
    let ls = spec_lines(content);
    if ls.len() > 0 && ls[0].len() >= 2 && ls[0][0] == 35u8 && ls[0][1] == 33u8 {
        Some(ls[0].skip(2))
    } else {
        None
    }
}

/// A word that `env` takes as an option or an assignment.
pub open spec fn env_arg(p: Seq<char>) -> bool {
    pattern_matches(ENV_OPT_ARGS@, p) || pattern_matches(ENV_VAR_ARGS@, p)
}

/// Index of the first word at or after `i` that is not an `env` argument.
pub open spec fn first_command(ws: Seq<Seq<char>>, i: int) -> Option<int>
    decreases ws.len() - i,
{
    if i < 0 || i >= ws.len() {
        None
    } else if !env_arg(ws[i]) {
        Some(i)
    } else {
        first_command(ws, i + 1)
    }
}

/// The file name of a path given as characters.
pub open spec fn base_name(p: Seq<char>) -> Option<Seq<char>> {
    match file_name_spec(encode_utf8(p)) {
        Some(n) => Some(decode_utf8(n)),
        None => None,
    }
}

/// The script a shebang's words name, and the index of the word after it:
/// the file name of the first word, or, where that is `env`, the first word
/// after it that is not an `env` argument.
pub open spec fn script_of(ws: Seq<Seq<char>>) -> Option<(Seq<char>, int)> {
    if ws.len() == 0 {
        None
    } else {
        match base_name(ws[0]) {
            None => None,
            Some(b) => if b == "env"@ {
                match first_command(ws, 1) {
                    Some(k) => Some((ws[k], k + 1)),
                    None => None,
                }
            } else {
                Some((b, 1))
            },
        }
    }
}

/// The interpreter a line of shell script execs itself with: group 1 of
/// the first match of `MULTI_LINE_EXEC`.
pub open spec fn exec_target(line: Seq<char>) -> Option<Seq<char>> {
    crate::strategies::modeline::first_group(MULTI_LINE_EXEC@, line)
}

/// The last exec target among some lines.
pub open spec fn last_exec_target(ls: Seq<Seq<u8>>) -> Option<Seq<char>>
    decreases ls.len(),
{
    if ls.len() == 0 {
        None
    } else {
        match exec_target(decode_utf8(ls.last())) {
            Some(t) => Some(t),
            None => last_exec_target(ls.drop_last()),
        }
    }
}

/// The first `n` lines (all of them if there are fewer).
pub open spec fn first_n(ls: Seq<Seq<u8>>, n: int) -> Seq<Seq<u8>> {
    if ls.len() <= n {
        ls
    } else {
        ls.take(n)
    }
}

/// The script after looking through `sh`: the last exec target of the
/// first five lines, if any.
pub open spec fn resolved_script(content: Seq<u8>, script: Seq<char>) -> Seq<char> {
    if script == "sh"@ {
        match last_exec_target(first_n(spec_lines(content), 5)) {
            Some(t) => t,
            None => script,
        }
    } else {
        script
    }
}

/// The script without a trailing version number, given what replacing
/// `PYTHON_VERSION` with nothing gave (`None` where the pattern does not
/// compile).
pub open spec fn stripped_script(replaced: Option<Seq<char>>, script: Seq<char>) -> Seq<char> {
    match replaced {
        Some(r) => r,
        None => script,
    }
}

/// The script without a trailing version number.
pub open spec fn strip_version(script: Seq<char>) -> Seq<char> {
    stripped_script(crate::regex::replace_result(PYTHON_VERSION@, script, ""@), script)
}

/// The script without its version, given the result of the replacement.
pub fn version_stripped(replaced: Option<String>, script: String) -> (r: String)
    ensures
        r@ == stripped_script(crate::data::opt_string_view(replaced), script@),
{
    match replaced {
        Some(r) => r,
        None => script,
    }
}

/// What `by_shebang` answers: the languages of the interpreter named by the
/// shebang, nothing for `osascript -l ...` or where no interpreter is named.
pub open spec fn by_shebang_spec(d: Seq<EntryView>, content: Seq<u8>) -> AnswerView {
    match shebang_text(content) {
        None => AnswerView::Unknown,
        Some(t) => {
            let ws = words(decode_utf8(t));
            match script_of(ws) {
                None => AnswerView::Unknown,
                Some((s, rest)) => {
                    let s2 = resolved_script(content, s);
                    if s2 == "osascript"@ && ws.skip(rest).contains("-l"@) {
                        AnswerView::Unknown
                    } else {
                        match base_name(strip_version(s2)) {
                            Some(n) => answer_of_seq(hits(d, KeyKind::Interpreter, n)),
                            None => AnswerView::Unknown,
                        }
                    }
                },
            }
        },
    }
}

/// Index of the first word at or after `from` that is not an `env` argument.
fn find_command(ws: &Vec<&str>, from: usize) -> (r: Option<usize>)
    requires
        from <= ws@.len(),
    ensures
        r matches Some(k) ==> k < ws@.len(),
        match r {
            Some(k) => first_command(str_views(ws@), from as int) == Some(k as int),
            None => first_command(str_views(ws@), from as int) is None,
        },
{
    let ghost v = str_views(ws@);
    let mut k = from;
    while k < ws.len()
        invariant
            from <= k <= ws@.len(),
            v == str_views(ws@),
            first_command(v, k as int) == first_command(v, from as int),
        decreases ws@.len() - k,
    {
        let w = ws[k];
        assert(v[k as int] == w@);
        if !pattern_is_match(ENV_OPT_ARGS, w) && !pattern_is_match(ENV_VAR_ARGS, w) {
            return Some(k);
        }
        k = k + 1;
    }
    None
}

/// The last exec target of the first five lines.
fn last_exec(ls: &Vec<&str>) -> (r: Option<String>)
    ensures
        match r {
            Some(t) => last_exec_target(first_n(crate::text::byte_views(ls@), 5)) == Some(t@),
            None => last_exec_target(first_n(crate::text::byte_views(ls@), 5)) is None,
        },
{
    let ghost xs = first_n(crate::text::byte_views(ls@), 5);
    let n: usize = if ls.len() < 5 {
        ls.len()
    } else {
        5
    };
    assert(xs.len() == n);
    let mut found: Option<String> = None;
    let mut i: usize = 0;
    while i < n
        invariant
            i <= n,
            n <= ls@.len(),
            xs.len() == n,
            xs == first_n(crate::text::byte_views(ls@), 5),
            match found {
                Some(t) => last_exec_target(xs.take(i as int)) == Some(t@),
                None => last_exec_target(xs.take(i as int)) is None,
            },
        decreases n - i,
    {
        let l = ls[i];
        proof {
            crate::text::lemma_view_is_decoded(l);
            assert(xs[i as int] == l.spec_bytes());
            assert(xs.take(i + 1).drop_last() =~= xs.take(i as int));
            assert(xs.take(i + 1).last() == xs[i as int]);
        }
        match crate::strategies::modeline::first_group_exec(MULTI_LINE_EXEC, l) {
            Some(t) => {
                found = Some(t);
            },
            None => {},
        }
        i = i + 1;
    }
    assert(xs.take(n as int) =~= xs);
    found
}

/// Whether `ws[from..]` holds `-l`.
fn has_lang_flag(ws: &Vec<&str>, from: usize) -> (b: bool)
    requires
        from <= ws@.len(),
    ensures
        b == str_views(ws@).skip(from as int).contains("-l"@),
{
    let ghost v = str_views(ws@).skip(from as int);
    let mut k = from;
    while k < ws.len()
        invariant
            from <= k <= ws@.len(),
            v == str_views(ws@).skip(from as int),
            forall|j: int| 0 <= j < k - from ==> v[j] != "-l"@,
        decreases ws@.len() - k,
    {
        assert(v[k - from] == ws@[k as int]@);
        if str_eq(ws[k], "-l") {
            return true;
        }
        k = k + 1;
    }
    false
}

/// Detects the language of a file by its shebang: zero or more languages.
pub fn by_shebang<'a>(data: &'a LinguistData, content: &str) -> (a: Answer<'a>)
    ensures
        a@ == by_shebang_spec(data@, content.spec_bytes()),
{
    let ls = lines(content);
    let ghost sl = spec_lines(content.spec_bytes());
    if ls.len() == 0 {
        return Answer::Unknown;
    }
    let first = ls[0];
    let fb = first.as_bytes();
    assert(sl[0] == first.spec_bytes());
    if fb.len() < 2 || fb[0] != 35u8 || fb[1] != 33u8 {
        return Answer::Unknown;
    }
    proof {
        crate::text::lemma_str_valid(first);
        crate::text::lemma_boundary_after_ascii(fb@, 1);
        is_char_boundary_start_end_of_seq(fb@);
    }
    let line = crate::text::substr(first, 2, fb.len());
    proof {
        crate::text::lemma_view_is_decoded(line);
        assert(line.spec_bytes() =~= sl[0].skip(2));
    }
    let ws = split_whitespace(line);
    let ghost wv = words(decode_utf8(sl[0].skip(2)));
    assert(str_views(ws@) == wv);
    if ws.len() == 0 {
        return Answer::Unknown;
    }
    assert(wv[0] == ws@[0]@);
    let base = match file_name(ws[0]) {
        Some(b) => b,
        None => {
            return Answer::Unknown;
        },
    };
    proof {
        crate::text::lemma_view_is_decoded(base);
    }
    let (script, rest): (&str, usize) = if str_eq(base, "env") {
        match find_command(&ws, 1) {
            Some(k) => {
                assert(wv[k as int] == ws@[k as int]@);
                (ws[k], k + 1)
            },
            None => {
                return Answer::Unknown;
            },
        }
    } else {
        (base, 1)
    };
    assert(script_of(wv) == Some((script@, rest as int)));
    let script2: String = if str_eq(script, "sh") {
        match last_exec(&ls) {
            Some(t) => t,
            None => String::from_str(script),
        }
    } else {
        String::from_str(script)
    };
    assert(script2@ == resolved_script(content.spec_bytes(), script@));
    if str_eq(script2.as_str(), "osascript") && has_lang_flag(&ws, rest) {
        return Answer::Unknown;
    }
    let replaced = version_stripped(pattern_replace_first(PYTHON_VERSION, script2.as_str(), ""), script2);
    assert(replaced@ == strip_version(resolved_script(content.spec_bytes(), script@)));
    match file_name(replaced.as_str()) {
        Some(n) => {
            proof {
                crate::text::lemma_view_is_decoded(n);
            }
            Answer::from_vec(data.by_key(KeyKind::Interpreter, n))
        },
        None => Answer::Unknown,
    }
}

} // verus!

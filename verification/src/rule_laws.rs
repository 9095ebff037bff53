//! Properties of the rule tables and the content strategies: which rules
//! the library holds, in what order they are tried, and how far into a
//! file each strategy looks.
use vstd::prelude::*;
use vstd::string::*;
use vstd::utf8::decode_utf8;
use crate::data::EntryView;
use crate::regex::{RegexView, pattern_matches, regex_view_matches};
use crate::strategies::{AnswerView, named};
use crate::strategies::heuristics::{PatternView, all_hold, pattern_holds};
use crate::strategies::modeline::{EMACS_MODELINE, alias_language, by_emacs_modeline_spec, by_vim_modeline_spec, emacs_alias, last_group, limited_spec, vim_aliases, VIM_MODELINE};
use crate::strategies::xml::by_xml_spec;
use crate::text::{contains_bytes, spec_lines};
use crate::generated::{
    ContentReason, ContentRuleView, FilePathReason, Reason, RuleGroupView, first_content_reason, first_path_reason,
    flatten_groups, generated_reason,
};
use crate::indexable::{skip_path_reason, skip_reason};
use crate::regex::regex_set_matching;
use crate::strategies::lowercase_ext_spec;
use crate::{LinguistSources, init_view};

verus! {

/// A `negative_pattern` holds of a text exactly when its regex does not
/// match it, so a rule with `negative_pattern: p` and one with `pattern: p`
/// never both hold, and one of them always does.
pub proof fn law_negative_pattern_opposite(r: RegexView, names: Seq<(Seq<char>, RegexView)>, text: Seq<char>)
    ensures
        pattern_holds(PatternView::NegativePattern(r), names, text) == !regex_view_matches(r, text),
        pattern_holds(PatternView::NegativePattern(r), names, text) != pattern_holds(
            PatternView::Pattern(r),
            names,
            text,
        ),
{
}

/// An `and` of patterns holds of a text exactly when each of its patterns
/// does.
pub proof fn law_and_pattern_all(ps: Seq<PatternView>, names: Seq<(Seq<char>, RegexView)>, text: Seq<char>)
    ensures
        pattern_holds(PatternView::And(ps), names, text) <==> (forall|i: int|
            0 <= i < ps.len() ==> pattern_holds(#[trigger] ps[i], names, text)),
    decreases ps.len(),
{
    if ps.len() > 0 {
        law_and_pattern_all(ps.drop_last(), names, text);
        assert(all_hold(ps, names, text) == (all_hold(ps.drop_last(), names, text) && pattern_holds(
            ps.last(),
            names,
            text,
        )));
        assert forall|i: int| 0 <= i < ps.len() - 1 implies ps.drop_last()[i] == ps[i] by {}
        if forall|i: int| 0 <= i < ps.len() ==> pattern_holds(#[trigger] ps[i], names, text) {
            assert(pattern_holds(ps[ps.len() - 1], names, text));
            assert forall|i: int| 0 <= i < ps.drop_last().len() implies pattern_holds(
                #[trigger] ps.drop_last()[i],
                names,
                text,
            ) by {
                assert(pattern_holds(ps[i], names, text));
            }
        }
    }
}

/// An XML declaration on either of the first two lines makes the file XML.
pub proof fn law_xml_decl_in_first_two_lines(d: Seq<EntryView>, content: Seq<u8>, i: int)
    requires
        0 <= i < 2,
        i < spec_lines(content).len(),
        pattern_matches(r"<\?xml\s+version="@, decode_utf8(spec_lines(content)[i])),
    ensures
        by_xml_spec(d, content) == AnswerView::Only(named(d, "XML"@)),
{
}

/// Without an XML declaration on the first two lines, the XML strategy
/// finds nothing, whatever the later lines hold.
pub proof fn law_xml_decl_later_lines_ignored(d: Seq<EntryView>, content: Seq<u8>)
    requires
        forall|i: int|
            0 <= i < 2 && i < spec_lines(content).len() ==> !pattern_matches(
                r"<\?xml\s+version="@,
                decode_utf8(#[trigger] spec_lines(content)[i]),
            ),
    ensures
        by_xml_spec(d, content) is Unknown,
{
}

/// Where the first and last five lines are scanned apart, a Vim modeline in
/// the last five lines naming one alias gives that alias's language, when
/// the first five lines hold no modeline and no `UseVimball`.
pub proof fn law_vim_modeline_in_last_lines(d: Seq<EntryView>, content: Seq<u8>, line: Seq<char>, alias: Seq<char>)
    requires
        limited_spec(content).len() == 2,
        !contains_bytes(limited_spec(content)[0], "UseVimball".spec_bytes()),
        last_group(VIM_MODELINE@, decode_utf8(limited_spec(content)[0])) is None,
        !contains_bytes(limited_spec(content)[1], "UseVimball".spec_bytes()),
        last_group(VIM_MODELINE@, decode_utf8(limited_spec(content)[1])) == Some(line),
        vim_aliases(line) == seq![alias],
    ensures
        by_vim_modeline_spec(d, content) == alias_language(d, alias),
{
    let parts = limited_spec(content);
    reveal_with_fuel(crate::strategies::modeline::vim_over, 3);
    assert(parts.drop_first()[0] == parts[1]);
    assert(parts.drop_first().drop_first().len() == 0);
}

/// A Vim modeline in the first five lines naming one alias gives that
/// alias's language, whatever the rest of the file holds, when those lines
/// do not mention `UseVimball`.
pub proof fn law_vim_modeline_in_first_lines(d: Seq<EntryView>, content: Seq<u8>, line: Seq<char>, alias: Seq<char>)
    requires
        !contains_bytes(limited_spec(content)[0], "UseVimball".spec_bytes()),
        last_group(VIM_MODELINE@, decode_utf8(limited_spec(content)[0])) == Some(line),
        vim_aliases(line) == seq![alias],
    ensures
        by_vim_modeline_spec(d, content) == alias_language(d, alias),
{
    assert(limited_spec(content).len() > 0);
}

/// An Emacs modeline in the first five lines decides, whatever the rest of
/// the file holds.
pub proof fn law_emacs_modeline_in_first_lines(d: Seq<EntryView>, content: Seq<u8>, line: Seq<char>)
    requires
        last_group(EMACS_MODELINE@, decode_utf8(limited_spec(content)[0])) == Some(line),
    ensures
        by_emacs_modeline_spec(d, content) == alias_language(d, emacs_alias(line)),
{
    assert(limited_spec(content).len() > 0);
}

/// Where the first and last five lines are scanned apart, an Emacs modeline
/// in the last five lines decides when the first five hold none.
pub proof fn law_emacs_modeline_in_last_lines(d: Seq<EntryView>, content: Seq<u8>, line: Seq<char>)
    requires
        limited_spec(content).len() == 2,
        last_group(EMACS_MODELINE@, decode_utf8(limited_spec(content)[0])) is None,
        last_group(EMACS_MODELINE@, decode_utf8(limited_spec(content)[1])) == Some(line),
    ensures
        by_emacs_modeline_spec(d, content) == alias_language(d, emacs_alias(line)),
{
    let parts = limited_spec(content);
    reveal_with_fuel(crate::strategies::modeline::emacs_over, 3);
    assert(parts.drop_first()[0] == parts[1]);
}

/// The rules of some groups followed by others are those of the first
/// groups followed by those of the others.
proof fn lemma_flatten_append(a: Seq<RuleGroupView>, b: Seq<RuleGroupView>)
    ensures
        flatten_groups(a + b) == flatten_groups(a) + flatten_groups(b),
    decreases b.len(),
{
    if b.len() == 0 {
        assert(a + b =~= a);
        assert(flatten_groups(a) + flatten_groups(b) =~= flatten_groups(a));
    } else {
        lemma_flatten_append(a, b.drop_last());
        assert((a + b).drop_last() =~= a + b.drop_last());
        assert((a + b).last() == b.last());
        assert(flatten_groups(a + b) =~= flatten_groups(a) + flatten_groups(b));
    }
}

/// A rule found among the first rules is found before any rule after them.
proof fn lemma_first_content_prefix(a: Seq<ContentRuleView>, c: Seq<ContentRuleView>, ext: Seq<char>, b: Seq<u8>)
    requires
        first_content_reason(a, ext, b) is Some,
    ensures
        first_content_reason(a + c, ext, b) == first_content_reason(a, ext, b),
    decreases a.len(),
{
    assert((a + c)[0] == a[0]);
    assert((a + c).drop_first() =~= a.drop_first() + c);
    if !(a[0].ext == ext && crate::generated::check_spec(a[0].check, b)) {
        lemma_first_content_prefix(a.drop_first(), c, ext, b);
    }
}

/// The first rule for `ext` whose check holds decides.
proof fn lemma_first_content_at(rules: Seq<ContentRuleView>, ext: Seq<char>, b: Seq<u8>, j: int)
    requires
        0 <= j < rules.len(),
        rules[j].ext == ext,
        crate::generated::check_spec(rules[j].check, b),
        forall|i: int| 0 <= i < j ==> (#[trigger] rules[i]).ext != ext,
    ensures
        first_content_reason(rules, ext, b) == Some(rules[j].reason),
    decreases j,
{
    if j > 0 {
        lemma_first_content_at(rules.drop_first(), ext, b, j - 1);
    }
}

/// A `.go` file (by its lowercase extension) that no generated path rule
/// marks, with `Code generated by` on one of its first 40 lines, is
/// generated Go code, whatever else its content holds.
pub proof fn law_go_code_generated(s: LinguistSources, path: &str, content: &str, k: int)
    requires
        first_path_reason(init_view(s).generated_paths, path@) is None,
        lowercase_ext_spec(path.spec_bytes()) == Some("go"@),
        0 <= k < 40,
        k < spec_lines(content.spec_bytes()).len(),
        contains_bytes(spec_lines(content.spec_bytes())[k], "Code generated by".spec_bytes()),
    ensures
        generated_reason(init_view(s).generated_paths, init_view(s).generated_contents, path, content)
            == Some(Reason::Content(ContentReason::GeneratedGo)),
{
    let gs = crate::generated::generated_content_groups();
    let b = content.spec_bytes();
    assert(gs =~= gs.take(6) + gs.skip(6));
    lemma_flatten_append(gs.take(6), gs.skip(6));
    assert(gs.take(6) =~= seq![gs[0], gs[1], gs[2], gs[3], gs[4], gs[5]]);
    reveal_with_fuel(flatten_groups, 7);
    let first = flatten_groups(gs.take(6));
    reveal_strlit("c");
    reveal_strlit("cpp");
    reveal_strlit("css");
    reveal_strlit("js");
    reveal_strlit("go");
    assert(crate::generated::check_spec(crate::generated::ContentCheck::GeneratedGo, b));
    assert(first.len() == 9);
    assert(first[8].ext == "go"@);
    assert(first[8].check == crate::generated::ContentCheck::GeneratedGo);
    assert(first[8].reason == ContentReason::GeneratedGo);
    assert forall|i: int| 0 <= i < 8 implies (#[trigger] first[i]).ext != "go"@ by {
        assert(first[i].ext[0] != "go"@[0]);
    }
    lemma_first_content_at(first, "go"@, b, 8);
    lemma_first_content_prefix(first, flatten_groups(gs.skip(6)), "go"@, b);
}

/// A `.go` file that no unsuitable path rule marks, with `Code generated
/// by` on one of its first 40 lines, is skipped for indexing as generated
/// Go code.
pub proof fn law_go_code_generated_skipped(s: LinguistSources, path: &str, content: &str, k: int)
    requires
        skip_path_reason(init_view(s), path@) is None,
        lowercase_ext_spec(path.spec_bytes()) == Some("go"@),
        0 <= k < 40,
        k < spec_lines(content.spec_bytes()).len(),
        contains_bytes(spec_lines(content.spec_bytes())[k], "Code generated by".spec_bytes()),
    ensures
        skip_reason(init_view(s), path, content.spec_bytes()) == Some(Reason::Content(ContentReason::GeneratedGo)),
{
    let gs = crate::indexable::unsuitable_content_groups();
    let b = content.spec_bytes();
    assert(gs =~= gs.take(1) + gs.skip(1));
    lemma_flatten_append(gs.take(1), gs.skip(1));
    assert(gs.take(1) =~= seq![gs[0]]);
    reveal_with_fuel(flatten_groups, 2);
    let first = flatten_groups(gs.take(1));
    reveal_strlit("go");
    assert(crate::generated::check_spec(crate::generated::ContentCheck::GeneratedGo, b));
    reveal_with_fuel(first_content_reason, 2);
    assert(first_content_reason(first, "go"@, b) == Some(ContentReason::GeneratedGo));
    lemma_first_content_prefix(first, flatten_groups(gs.skip(1)), "go"@, b);
}

/// The rules for files unsuitable for indexing hold `^vendors?/`, for a
/// vendor directory at the root of the repository; a path whose first
/// matching unsuitable rule is that one is skipped as a vendor directory.
pub proof fn law_vendor_dir_rule(s: LinguistSources, path: Seq<char>)
    ensures
        ({
            let p = init_view(s).unsuitable_paths;
            exists|j: int|
                0 <= j < p.patterns.len() && #[trigger] p.patterns[j] == r"^vendors?/"@ && p.reasons[j]
                    == FilePathReason::VendorDir
        }),
        ({
            let p = init_view(s).unsuitable_paths;
            let m = regex_set_matching(p.patterns, false, path);
            (m.len() > 0 && m[0] < p.patterns.len() && p.patterns[m[0] as int] == r"^vendors?/"@) ==> skip_path_reason(
                init_view(s),
                path,
            ) == Some(Reason::FilePath(FilePathReason::VendorDir))
        }),
{
    let t = crate::indexable::unsuitable_path_table();
    let p = init_view(s).unsuitable_paths;
    let v = r"^vendors?/"@;
    reveal_strlit(r"^vendors?/");
    reveal_strlit(r"(^|/)[Pp]ackages/.+\.\d+/");
    reveal_strlit(r"(^|/)lib/python.*/site-packages/");
    reveal_strlit(r"(^|/)\.gitignore$");
    reveal_strlit(r"(\.|-)min\.(js|css)$");
    reveal_strlit(r"\.(js|css)\.map$");
    reveal_strlit(r"(^|/)bower_components/");
    reveal_strlit(r"vendor/([-0-9A-Za-z]+\.)+(com|edu|gov|in|me|net|org|fm|io)");
    reveal_strlit(r"(^|/)dist/");
    reveal_strlit(r"(3rd|[Tt]hird)[-_]?[Pp]arty/");
    reveal_strlit(r"(^|/)node_modules/");
    reveal_strlit(r"(^Pods|/Pods)/");
    reveal_strlit(r"(^|/)go\.sum$");
    reveal_strlit(r"(^|/)yarn\.lock$");
    assert(p.patterns[9] == v);
    assert(p.reasons[9] == FilePathReason::VendorDir);
    assert forall|j: int| 0 <= j < p.patterns.len() && #[trigger] p.patterns[j] == v implies j == 9 by {
        if j == 7 {
            assert(p.patterns[j][0] != v[0]);
        } else if j != 9 {
            assert(p.patterns[j].len() != v.len());
        }
    }
}

} // verus!

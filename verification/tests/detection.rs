use linguist::data::{Language, LanguageRecord};
use linguist::languages;
use linguist::popular::sort_by_popularity;
use linguist::regex::Regex;
use linguist::strategies::extension::by_extension;
use linguist::strategies::heuristics::{Disambiguation, HeuristicsRecord, NamedPatternRecord, RuleRecord};
use linguist::strategies::modeline::{by_emacs_modeline, by_vim_modeline};
use linguist::strategies::shebang::by_shebang;
use linguist::strategies::Answer;
use linguist::{
    Linguist, LinguistSources, detect, get_language_by_alias, get_language_by_id, get_language_by_name, init,
    languages_by_filename,
};

fn strings(xs: &[&str]) -> Vec<String> {
    xs.iter().map(|x| x.to_string()).collect()
}

fn lang(name: &str, id: u32, aliases: &[&str], filenames: &[&str], interpreters: &[&str], extensions: &[&str]) -> LanguageRecord {
    LanguageRecord {
        name: name.to_string(),
        language_id: id,
        color: Some("#dea584".to_string()),
        kind: Some("programming".to_string()),
        tm_scope: format!("source.{}", name.to_lowercase()),
        aliases: strings(aliases),
        filenames: strings(filenames),
        interpreters: strings(interpreters),
        extensions: strings(extensions),
    }
}

fn records() -> Vec<LanguageRecord> {
    vec![
        lang("AppleScript", 17, &["osascript"], &[], &["osascript"], &[".applescript", ".scpt"]),
        lang("Browserslist", 153503348, &[], &[".browserslistrc", "browserslist"], &[], &[]),
        lang("C", 41, &[], &[], &["tcc"], &[".c", ".h"]),
        lang("C#", 42, &["csharp", "cake", "cakescript"], &[], &[], &[".cs", ".cake"]),
        lang("C++", 43, &["cpp"], &[], &[], &[".cpp", ".cc", ".h", ".hpp"]),
        lang("Common Lisp", 66, &["lisp"], &[], &["lisp", "sbcl", "ccl", "clisp", "ecl"], &[".lisp", ".asd"]),
        lang("Crystal", 72, &[], &[], &["crystal"], &[".cr"]),
        lang("Erlang", 104, &[], &["rebar.config"], &["escript"], &[".erl", ".hrl"]),
        lang("Go", 132, &["golang"], &[], &[], &[".go"]),
        lang("JavaScript", 183, &["js", "node"], &["Jakefile"], &["chakra", "d8", "gjs", "js", "node", "nodejs", "qjs", "rhino", "v8", "v8-shell"], &[".js", ".mjs"]),
        lang("Objective-C", 257, &["obj-c", "objc"], &[], &[], &[".m", ".h"]),
        lang("Parrot Assembly", 278, &["pasm"], &[], &["parrot"], &[".pasm"]),
        lang("Perl", 282, &["cperl"], &["Makefile.PL"], &["cperl", "perl"], &[".pl", ".pm"]),
        lang("Protocol Buffer", 297, &["proto", "protobuf", "Protocol Buffers"], &[], &[], &[".proto"]),
        lang("Python", 303, &["python3", "rusthon"], &["SConstruct"], &["python", "python2", "python3", "py", "pypy", "pypy3"], &[".py"]),
        lang("R", 307, &["Rscript", "splus"], &[".Rprofile"], &["Rscript"], &[".r", ".R"]),
        lang("Roff", 141, &["groff", "man", "manpage"], &[], &[], &[".roff", ".1", ".2", ".man"]),
        lang("Roff Manpage", 612, &[], &[], &[], &[".1", ".2", ".man"]),
        lang("Ruby", 326, &["jruby", "macruby", "rake", "rb", "rbx"], &["Rakefile"], &["ruby", "macruby", "rake", "jruby", "rbx"], &[".rb", ".rake"]),
        lang("Rust", 327, &["rs"], &[], &[], &[".rs", ".rs.in"]),
        lang("Shell", 346, &["sh", "shell-script", "bash", "zsh"], &[".bashrc"], &["ash", "bash", "dash", "ksh", "mksh", "pdksh", "rc", "sh", "zsh"], &[".sh", ".bash"]),
        lang("TypeScript", 378, &["ts"], &[], &["deno", "ts-node", "tsx"], &[".ts", ".cts", ".mts"]),
        lang("XML", 399, &["rss", "xsd", "wsdl"], &[".classpath"], &[], &[".xml", ".xsd"]),
        lang("sed", 847830017, &[], &[], &["gsed", "minised", "sed", "ssed"], &[".sed"]),
    ]
}

fn heuristics() -> HeuristicsRecord {
    let rule = |language: Option<&str>, pattern: Option<&[&str]>, named: Option<&str>| RuleRecord {
        language: language.map(|x| x.to_string()),
        and: None,
        pattern: pattern.map(strings),
        negative_pattern: None,
        named_pattern: named.map(|x| x.to_string()),
    };
    HeuristicsRecord {
        named_patterns: vec![NamedPatternRecord {
            name: "cpp".to_string(),
            patterns: strings(&[r"^\s*#\s*include <(cstdint|string|vector|map|list|array|bitset|queue|stack|forward_list|unordered_map|unordered_set|(i|o|io)stream)>", r"^\s*template\s*<", r"^[ \t]*(private|public|protected):$"]),
        }],
        disambiguations: vec![Disambiguation {
            extensions: strings(&[".h"]),
            rules: vec![
                rule(Some("Objective-C"), Some(&[r#"^\s*(@(interface|class|protocol|property|end|synchronised|selector|implementation)\b|#import\s+.+\.h[">])"#]), None),
                rule(Some("C++"), None, Some("cpp")),
                rule(Some("C"), None, None),
            ],
        }],
    }
}

fn sources() -> LinguistSources {
    LinguistSources {
        languages: records(),
        popular: strings(&["C", "C#", "C++", "Go", "JavaScript", "Python", "Ruby", "Shell", "TypeScript"]),
        generic: strings(&[".1", ".2", ".app", ".sol", ".url", ".x"]),
        heuristics: heuristics(),
        vendor: strings(&[r"(^|\/)cache\/", r"(^|/)env/", r"(^|/)vendors?/", r"(^|/)\.vscode/", r"\.d\.ts$", r"(^|/)Jenkinsfile$"]),
        tests: strings(&[r"(^|/)tests?/", r"_test\.go$"]),
        documentation: strings(&[r"^[Dd]ocs?/", r"(^|/)README(\.[^/]*)?$"]),
        dependency_management: strings(&[r"(^|/)Gemfile(\.lock)?$", r"(^|/)package\.json$"]),
    }
}

fn linguist() -> Linguist {
    init(sources()).unwrap()
}

fn name_of(l: Option<&Language>) -> Option<&str> {
    l.map(|x| x.name.as_str())
}

fn shebang_file(ling: &Linguist, content: &str) -> Option<String> {
    by_shebang(ling.data(), content).into_language(ling.popular()).map(|x| x.name.clone())
}

fn vim_file(ling: &Linguist, content: &str) -> Option<String> {
    by_vim_modeline(ling.data(), content).into_language(ling.popular()).map(|x| x.name.clone())
}

fn emacs_file(ling: &Linguist, content: &str) -> Option<String> {
    by_emacs_modeline(ling.data(), content).into_language(ling.popular()).map(|x| x.name.clone())
}

#[test]
fn language_by_name() {
    let ling = linguist();
    let rust = get_language_by_name(&ling, "Rust").unwrap();
    assert_eq!(rust.name, "Rust");
    assert_eq!(rust.language_id, 327);
}

#[test]
fn language_by_id() {
    let ling = linguist();
    let rust = get_language_by_id(&ling, 327).unwrap();
    assert_eq!(rust.name, "Rust");
    assert_eq!(rust.language_id, 327);
}

#[test]
fn language_by_alias() {
    let ling = linguist();
    ["csharp", "c#", "C#"].iter().for_each(|n| {
        let l = get_language_by_alias(&ling, n).unwrap();
        assert_eq!(l.name, "C#");
        assert_eq!(l.language_id, 42);
    });

    assert_eq!(get_language_by_alias(&ling, "protocol buffer").unwrap().language_id, 297);
    assert_eq!(get_language_by_alias(&ling, "Protocol Buffers").unwrap().language_id, 297);
}

#[test]
fn language_by_filename() {
    let ling = linguist();
    assert_eq!(
        vec!["Browserslist"],
        languages_by_filename(&ling, "browserslist").iter().map(|x| &x.name).collect::<Vec<_>>()
    )
}

#[test]
fn constants() {
    assert_eq!(languages::PYTHON, 303);
    assert_eq!(languages::RUBY, 326);
}

#[test]
fn sort_by_popular() {
    let ling = linguist();
    let mut langs = ["Erlang", "JavaScript"]
        .iter()
        .map(|x| get_language_by_name(&ling, x).unwrap())
        .collect::<Vec<_>>();

    sort_by_popularity(&mut langs, ling.popular());

    assert_eq!(vec!["JavaScript", "Erlang"], langs.into_iter().map(|x| x.name.clone()).collect::<Vec<_>>())
}

#[test]
fn regex() {
    let re = Regex::new(&vec![r"^\s*;".to_string()]);
    assert!(re.is_match(r" ;"));
}

#[test]
fn by_extension_returns_none_for_generic_ext() {
    let ling = linguist();
    for ext in ["1", "2", "app", "sol", "url"] {
        assert_eq!(
            by_extension(ling.data(), ling.generic(), &format!("foo/bar/file.{ext}")),
            Answer::Unknown
        );
    }
}

#[test]
fn answer_label() {
    let ling = linguist();
    assert_eq!("unknown", Answer::Unknown.label());
    assert_eq!("Rust", Answer::Only(get_language_by_name(&ling, "Rust").unwrap()).label());
    assert_eq!("Rust", Answer::Many(vec![get_language_by_name(&ling, "Rust").unwrap()]).label());
    assert_eq!(
        "Rust",
        Answer::Many(vec![get_language_by_name(&ling, "Rust").unwrap(), get_language_by_name(&ling, "Go").unwrap()])
            .label()
    );
}

#[test]
fn emacs_modelines() {
    let ling = linguist();
    assert_eq!(
        Some("C++".to_string()),
        emacs_file(
            &ling,
            r"// -*- c++ -*-
    template <typename X> class { X i; };
    template <typename X> class { X i; };
    template <typename X> class { X i; };
    template <typename X> class { X i; };
    template <typename X> class { X i; };
    template <typename X> class { X i; };
    template <typename X> class { X i; };
    template <typename X> class { X i; };
    template <typename X> class { X i; };
    template <typename X> class { X i; };
    template <typename X> class { X i; };
    template <typename X> class { X i; };
    template <typename X> class { X i; };
    template <typename X> class { X i; };
    template <typename X> class { X i; };
    template <typename X> class { X i; };
    template <typename X> class { X i; };
    template <typename X> class { X i; };
    template <typename X> class { X i; };
    template <typename X> class { X i; };
    template <typename X> class { X i; };
    template <typename X> class { X i; };
    template <typename X> class { X i; };
    // last line
    "
        )
    );
}

#[test]
fn vim_modelines() {
    let ling = linguist();
    assert_eq!(
        Some("Ruby".to_string()),
        vim_file(
            &ling,
            r"/* vim: set filetype=ruby: */
    # I am Ruby"
        ),
    );
}

#[test]
fn vim_last_modeline_wins() {
    let ling = linguist();
    assert_eq!(
        Some("Ruby".to_string()),
        vim_file(
            &ling,
            r"/* vim: set filetype=python: */
    /* vim: set filetype=ruby: */
    # I am Ruby"
        )
    );
}

#[test]
fn vim_many_modelines_sameline() {
    let ling = linguist();
    assert_eq!(
        Some("Python".to_string()),
        vim_file(
            &ling,
            r"/* vim: set filetype=python: ft=python */
    # I am Ruby",
        )
    );

    assert!(vim_file(
        &ling,
        r"/* vim: set filetype=python: ft=ruby */
    # I am Ruby",
    )
    .is_none());
}

#[test]
fn ruby() {
    let ling = linguist();
    assert_eq!(
        Some("Ruby".to_string()),
        shebang_file(
            &ling,
            r#"#!/usr/bin/env -vS ruby -w -Ilib:test
puts "Ruby"
"#,
        ),
    );
}

#[test]
fn python() {
    let ling = linguist();
    assert_eq!(
        Some("Python".to_string()),
        shebang_file(
            &ling,
            r#"#!/usr/bin/env python2.4
print "Python"
"#,
        ),
    );
}

#[test]
fn osascript() {
    let ling = linguist();
    assert_eq!(
        None,
        shebang_file(
            &ling,
            r#"#!/usr/bin/env osascript -l JavaScript

function run(argv) {}"#
        )
    );
}

#[test]
fn parrot() {
    let ling = linguist();
    assert_eq!(
        Some("Parrot Assembly".to_string()),
        shebang_file(
            &ling,
            r#"#!/usr/bin/env parrot

.sub 'main' :main
    say "Hello!"
.end
"#
        )
    );
}

#[test]
fn parse_interpreters() {
    let ling = linguist();
    [
        ("AppleScript", "#!/usr/bin/env osascript"),
        ("AppleScript", "#!/usr/bin/osascript"),
        ("Common Lisp", "#!/usr/bin/sbcl --script\n\n"),
        ("Crystal", "#!/usr/bin/env bin/crystal"),
        ("Perl", "#! perl"),
        ("Python", "#!/bin/python\n# foo\n# bar\n# baz"),
        ("Python", "#!/usr/bin/python2.7\n\n\n\n"),
        ("Python", "#!/usr/bin/python3\n\n\n\n"),
        ("Python", "#!/usr/bin/env foo=bar bar=foo python -cos=__import__(\"os\");"),
        ("R", "#!/usr/bin/env Rscript\n# example R script\n#\n"),
        ("Ruby", "#!/usr/sbin/ruby\n# bar"),
        ("Ruby", "#!/usr/sbin/ruby"),
        ("Ruby", "#!/usr/sbin/ruby foo bar baz\n"),
        ("Ruby", "#!/usr/bin/env ruby\n# baz"),
        ("Ruby", "#!/bin/sh\n\n\nexec ruby $0 $@"),
        ("Ruby", "#!/usr/bin/env -vS ruby -wKU\nputs ?t+?e+?s+?t"),
        ("sed", "#!/usr/bin/env --split-string sed -f\ny/a/A/"),
        ("Shell", "#!/usr/bin/bash\n"),
        ("Shell", "#!/bin/sh"),
        ("Shell", "#! /usr/bin/env A=003 B=149 C=150 D=xzd E=base64 F=tar G=gz H=head I=tail sh"),
        ("TypeScript", "#!/usr/bin/env -S GH_TOKEN=ghp_*** deno run --allow-net\nconsole.log(1);"),
    ]
    .iter()
    .for_each(|(name, content)| {
        assert_eq!(Some(name.to_string()), shebang_file(&ling, content), "for {content:?}");
    });
}

#[test]
fn detect_by_extension() {
    let ling = linguist();
    assert_eq!(Some("Rust"), name_of(detect(&ling, "src/main.rs", "fn main() {}")));
    assert_eq!(Some("Go"), name_of(detect(&ling, "cmd/tool.GO", "package main")));
}

#[test]
fn detect_empty_content_is_none() {
    let ling = linguist();
    assert_eq!(None, name_of(detect(&ling, "src/main.rs", "")));
}

#[test]
fn detect_modeline_wins_over_extension() {
    let ling = linguist();
    assert_eq!(Some("Ruby"), name_of(detect(&ling, "script.py", "# vim: set ft=ruby:\nputs 1\n")));
}

#[test]
fn detect_by_filename_and_shebang() {
    let ling = linguist();
    assert_eq!(Some("Ruby"), name_of(detect(&ling, "project/Rakefile", "task :default")));
    assert_eq!(Some("Python"), name_of(detect(&ling, "bin/tool", "#!/usr/bin/env python3\nprint(1)\n")));
}

#[test]
fn detect_xml_declaration() {
    let ling = linguist();
    assert_eq!(Some("XML"), name_of(detect(&ling, "data/unknown.thing", "<?xml version=\"1.0\"?>\n<a/>\n")));
}

#[test]
fn detect_manpage_uses_heuristics_or_popularity() {
    let ling = linguist();
    let got = name_of(detect(&ling, "docs/tool.1", ".TH TOOL 1\n"));
    assert_eq!(Some("Roff Manpage"), got);
}

#[test]
fn detect_header_by_heuristics() {
    let ling = linguist();
    assert_eq!(Some("Objective-C"), name_of(detect(&ling, "include/a.h", "@interface Foo\n@end\n")));
    assert_eq!(Some("C++"), name_of(detect(&ling, "include/b.h", "template <typename T>\nclass X {};\n")));
    assert_eq!(Some("C"), name_of(detect(&ling, "include/c.h", "int main(void);\n")));
}

#[test]
fn many_candidates_prefer_popular() {
    let ling = linguist();
    let erlang = get_language_by_name(&ling, "Erlang").unwrap();
    let js = get_language_by_name(&ling, "JavaScript").unwrap();
    let got = Answer::Many(vec![erlang, js]).into_language(ling.popular()).unwrap();
    assert_eq!("JavaScript", got.name);
}

#[test]
fn intersect_keeps_common_candidates_in_order() {
    let ling = linguist();
    let c = get_language_by_name(&ling, "C").unwrap();
    let cpp = get_language_by_name(&ling, "C++").unwrap();
    let objc = get_language_by_name(&ling, "Objective-C").unwrap();
    let a = Answer::Many(vec![c, cpp, objc]);
    let b = Answer::Many(vec![objc, c]);
    assert_eq!(Answer::Many(vec![c, objc]), a.clone().intersect(b));
    assert_eq!(Answer::Only(cpp), a.clone().intersect(Answer::Only(cpp)));
    assert_eq!(Answer::Unknown, a.clone().intersect(Answer::Unknown));
    assert_eq!(a.clone(), a.clone().intersect(a));
}

#[test]
fn answer_vec_roundtrip() {
    let ling = linguist();
    let c = get_language_by_name(&ling, "C").unwrap();
    let go = get_language_by_name(&ling, "Go").unwrap();
    assert_eq!(Answer::Unknown, Answer::from_vec(vec![]));
    assert_eq!(Answer::Only(c), Answer::from_vec(vec![c]));
    assert_eq!(vec![c, go], Answer::from_vec(vec![c, go]).into_vec());
}

#[test]
fn alias_lookup_is_case_insensitive_and_last_wins() {
    let ling = linguist();
    assert_eq!(Some("Shell"), name_of(get_language_by_alias(&ling, "BASH")));
    assert_eq!(None, name_of(get_language_by_alias(&ling, "no such language")));
    assert_eq!(None, name_of(get_language_by_id(&ling, 1)));
    assert_eq!(None, name_of(get_language_by_name(&ling, "rust")));
}

#[test]
fn extension_lookup_lists_all_candidates() {
    let ling = linguist();
    let names: Vec<String> = linguist::languages_by_extension(&ling, "h").iter().map(|x| x.name.clone()).collect();
    assert_eq!(vec!["C", "C++", "Objective-C"], names);
    let dotted = by_extension(ling.data(), ling.generic(), "lib/x.rs.in");
    assert_eq!("Rust", dotted.label());
}

#[test]
fn popular_contains() {
    let p = linguist::popular::init(vec!["Go".to_string()]);
    assert!(p.contains("Go"));
    assert!(!p.contains("go"));
}

#[test]
fn rejected_regex_never_matches() {
    let re = Regex::new(&vec![r"(?<=a)b".to_string()]);
    assert!(!re.is_match("ab"));
    assert!(!re.is_match("b"));
    let ok = Regex::new(&vec![r"^b".to_string(), r"a$".to_string()]);
    assert!(ok.is_match("x\nb"));
    assert!(ok.is_match("xa\ny"));
}

#[test]
fn single_language_strategies() {
    let ling = linguist();
    let content = "# vim: ft=ruby\n# -*- mode: python -*-\n<?xml version=\"1.0\"?>\n";
    assert!(!matches!(by_vim_modeline(ling.data(), content), Answer::Many(_)));
    assert!(!matches!(by_emacs_modeline(ling.data(), content), Answer::Many(_)));
    assert_eq!("Python", by_emacs_modeline(ling.data(), content).label());
    assert_eq!("Ruby", by_vim_modeline(ling.data(), content).label());
}

#[test]
fn manpage_candidates() {
    let ling = linguist();
    let a = linguist::strategies::manpage::by_manpage(ling.data(), "man/ls.1.in");
    let names: Vec<String> = a.into_vec().iter().map(|x| x.name.clone()).collect();
    assert_eq!(vec!["Roff Manpage", "Roff"], names);
    assert_eq!(Answer::Unknown, linguist::strategies::manpage::by_manpage(ling.data(), "man/ls.txt"));
}

#[test]
fn disjoint_candidates_cancel_out() {
    let ling = linguist();
    let c = get_language_by_name(&ling, "C").unwrap();
    let cpp = get_language_by_name(&ling, "C++").unwrap();
    let go = get_language_by_name(&ling, "Go").unwrap();
    let js = get_language_by_name(&ling, "JavaScript").unwrap();
    assert_eq!(Answer::Unknown, Answer::Many(vec![c, cpp]).intersect(Answer::Many(vec![go, js])));
}

#[test]
fn language_types_from_records() {
    let kinds = [
        (Some("programming"), linguist::LanguageType::Programming),
        (Some("data"), linguist::LanguageType::Data),
        (Some("markup"), linguist::LanguageType::Markup),
        (Some("prose"), linguist::LanguageType::Prose),
        (Some("other"), linguist::LanguageType::Unknown),
        (None, linguist::LanguageType::Unknown),
    ];
    for (kind, expected) in kinds {
        let mut rec = lang("Thing", 1, &[], &[], &[], &[".thing"]);
        rec.kind = kind.map(|k| k.to_string());
        rec.color = None;
        let data = linguist::data::LinguistData::new(&vec![rec]).unwrap();
        let l = data.by_name("Thing").unwrap();
        assert_eq!(expected, l.language_type);
        assert_eq!(None, l.color);
        assert_eq!(vec!["Thing"], data.by_key(linguist::data::KeyKind::Extension, "thing").iter().map(|x| x.name.clone()).collect::<Vec<_>>());
    }
}

#[test]
fn default_strategy_names_and_order() {
    let names: Vec<&str> = linguist::strategies::default().iter().map(|s| s.name).collect();
    assert_eq!(
        vec!["emacs_modeline", "vim_modeline", "filename", "shebang", "extension", "xml", "manpage", "content_heuristics"],
        names
    );
    for s in linguist::strategies::default() {
        let only_if_none = matches!(s.should_run, linguist::strategies::ShouldRun::OnlyIfNoAnswer);
        assert_eq!(only_if_none, s.name == "xml" || s.name == "manpage");
    }
}

#[test]
fn detect_names_the_deciding_strategy() {
    let ling = linguist();
    let (l, name) = linguist::detect_with_strategy(&ling, "src/main.rs", "fn main() {}");
    assert_eq!(Some("Rust"), name_of(l));
    assert_eq!("extension", name);
    let (l, name) = linguist::detect_with_strategy(&ling, "include/a.h", "@interface Foo\n@end\n");
    assert_eq!(Some("Objective-C"), name_of(l));
    assert_eq!("content_heuristics", name);
    let (l, name) = linguist::detect_with_strategy(&ling, "x.py", "# vim: set ft=ruby:\n");
    assert_eq!(Some("Ruby"), name_of(l));
    assert_eq!("vim_modeline", name);
    assert_eq!((None, ""), linguist::detect_with_strategy(&ling, "x.rs", ""));
    let (l, name) = linguist::detect_with_strategy(&ling, "unknown.zzz", "nothing here");
    assert_eq!((None, ""), (name_of(l), name));
}

#[test]
fn alias_ascii_case() {
    let ling = linguist();
    assert_eq!(Some("Protocol Buffer"), name_of(get_language_by_alias(&ling, "protocol buffer")));
    assert_eq!(Some("Protocol Buffer"), name_of(get_language_by_alias(&ling, "PROTOCOL BUFFER")));
}

#[test]
fn heuristics_scan_first_part_only() {
    let ling = linguist();
    assert_eq!(Answer::Unknown, linguist::strategies::heuristics::by_content_heuristics(ling.heuristics(), "include/Makefile", "@interface X\n"));
    let late = format!("{}\n@interface Foo\n@end\n", "x".repeat(60 * 1024));
    assert_eq!("C", linguist::strategies::heuristics::by_content_heuristics(ling.heuristics(), "include/a.h", &late).label());
    let early = format!("@interface Foo\n@end\n{}", "x".repeat(60 * 1024));
    assert_eq!("Objective-C", linguist::strategies::heuristics::by_content_heuristics(ling.heuristics(), "include/a.h", &early).label());
}

#[test]
fn extension_lookup_is_exact() {
    let ling = linguist();
    let rs: Vec<String> = linguist::languages_by_extension(&ling, "rs").iter().map(|x| x.name.clone()).collect();
    assert_eq!(vec!["Rust"], rs);
    assert!(linguist::languages_by_extension(&ling, "RS").is_empty());
    assert!(linguist::languages_by_extension(&ling, ".rs").is_empty());
    assert!(linguist::languages_by_extension(&ling, "Rs").is_empty());
}

#[test]
fn extension_tries_longest_suffix_first() {
    let ling = linguist();
    let a = by_extension(ling.data(), ling.generic(), "src/gen.rs.in");
    assert_eq!("Rust", a.label());
    assert!(matches!(a, Answer::Only(_)));
    let b = by_extension(ling.data(), ling.generic(), "src/gen.tar.in");
    assert_eq!(Answer::Unknown, b);
    let c = by_extension(ling.data(), ling.generic(), "src/Gen.PY");
    assert_eq!("Python", c.label());
    assert_eq!(Answer::Unknown, by_extension(ling.data(), ling.generic(), "src/Gen.PY.unknown"));
}

fn sources_with_shared_keys() -> LinguistSources {
    let mut s = sources();
    s.languages.push(lang("Alpha", 900001, &[], &["Buildfile.gd"], &[], &[".alpha"]));
    s.languages.push(lang("Beta", 900002, &[], &["Buildfile.gd"], &[], &[".beta"]));
    s.languages.push(lang("Gamma", 900003, &[], &[], &[], &[".gd"]));
    s.languages.push(lang("Delta", 900004, &[], &[], &[], &[".gd"]));
    s
}

#[test]
fn disjoint_candidate_lists_detect_nothing() {
    let ling = init(sources_with_shared_keys()).unwrap();
    assert_eq!(None, name_of(detect(&ling, "proj/Buildfile.gd", "thing")));
    let one = name_of(detect(&ling, "proj/other.gd", "thing"));
    assert!(one == Some("Gamma") || one == Some("Delta"));
}

#[test]
fn single_language_replaces_earlier_candidates() {
    let ling = init(sources_with_shared_keys()).unwrap();
    assert_eq!(
        Some("Python"),
        name_of(detect(&ling, "proj/Buildfile.gd", "#!/usr/bin/env python\nprint(1)\n"))
    );
}

#[test]
fn init_twice_answers_alike() {
    let a = linguist();
    let b = linguist();
    for (path, content) in [
        ("src/main.rs", "fn main() {}"),
        ("x.h", "@interface Foo\n@end\n"),
        ("vendor/lib.js", "var x;"),
        ("script", "#!/usr/bin/env ruby\n"),
    ] {
        assert_eq!(name_of(detect(&a, path, content)), name_of(detect(&b, path, content)));
        assert_eq!(
            linguist::indexable::skip_indexing(&a, path, content),
            linguist::indexable::skip_indexing(&b, path, content)
        );
    }
}

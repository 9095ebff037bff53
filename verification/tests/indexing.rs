use linguist::data::{Language, LanguageRecord};
use linguist::strategies::heuristics::{Disambiguation, HeuristicsRecord, NamedPatternRecord, RuleRecord};
use linguist::fixtures::{fixture_cases, is_skipped, skip_list};
use linguist::generated::{ContentReason, FilePathReason, Reason, has_source_map_ref};
use linguist::indexable::{Filtered, IngestFilter, is_generated, is_indexable, is_path_indexable, is_vendored, skip_indexing, try_is_vendored};
use linguist::linguist_c::{LinguistError, indexability, language_color, language_id_by_alias, language_name, language_tm_scope};
use linguist::path::with_extension;
use linguist::rules::unescape;
use linguist::strategies::heuristics::ceil_char_boundary;
use linguist::strategies::modeline::limited_content;
use linguist::text::split_whitespace;
use linguist::{InitError, Linguist, LinguistSources, init, is_dependency_management, is_documentation, is_test};
use linguist::data::DataError;
use linguist::strategies::extension::GenericError;
use linguist::strategies::heuristics::HeuristicsError;

fn strings(xs: &[&str]) -> Vec<String> {
    xs.iter().map(|x| x.to_string()).collect()
}

fn lang(name: &str, id: u32, aliases: &[&str], filenames: &[&str], interpreters: &[&str], extensions: &[&str]) -> LanguageRecord {
    LanguageRecord {
        name: name.to_string(),
        language_id: id,
        color: Some("#dea584".to_string()),
        kind: Some("programming".to_string()),
        tm_scope: format!("source.{}", name.to_lowercase()),
        aliases: strings(aliases),
        filenames: strings(filenames),
        interpreters: strings(interpreters),
        extensions: strings(extensions),
    }
}

fn records() -> Vec<LanguageRecord> {
    vec![
        lang("AppleScript", 17, &["osascript"], &[], &["osascript"], &[".applescript", ".scpt"]),
        lang("Browserslist", 153503348, &[], &[".browserslistrc", "browserslist"], &[], &[]),
        lang("C", 41, &[], &[], &["tcc"], &[".c", ".h"]),
        lang("C#", 42, &["csharp", "cake", "cakescript"], &[], &[], &[".cs", ".cake"]),
        lang("C++", 43, &["cpp"], &[], &[], &[".cpp", ".cc", ".h", ".hpp"]),
        lang("Common Lisp", 66, &["lisp"], &[], &["lisp", "sbcl", "ccl", "clisp", "ecl"], &[".lisp", ".asd"]),
        lang("Crystal", 72, &[], &[], &["crystal"], &[".cr"]),
        lang("Erlang", 104, &[], &["rebar.config"], &["escript"], &[".erl", ".hrl"]),
        lang("Go", 132, &["golang"], &[], &[], &[".go"]),
        lang("JavaScript", 183, &["js", "node"], &["Jakefile"], &["chakra", "d8", "gjs", "js", "node", "nodejs", "qjs", "rhino", "v8", "v8-shell"], &[".js", ".mjs"]),
        lang("Objective-C", 257, &["obj-c", "objc"], &[], &[], &[".m", ".h"]),
        lang("Parrot Assembly", 278, &["pasm"], &[], &["parrot"], &[".pasm"]),
        lang("Perl", 282, &["cperl"], &["Makefile.PL"], &["cperl", "perl"], &[".pl", ".pm"]),
        lang("Protocol Buffer", 297, &["proto", "protobuf", "Protocol Buffers"], &[], &[], &[".proto"]),
        lang("Python", 303, &["python3", "rusthon"], &["SConstruct"], &["python", "python2", "python3", "py", "pypy", "pypy3"], &[".py"]),
        lang("R", 307, &["Rscript", "splus"], &[".Rprofile"], &["Rscript"], &[".r", ".R"]),
        lang("Roff", 141, &["groff", "man", "manpage"], &[], &[], &[".roff", ".1", ".2", ".man"]),
        lang("Roff Manpage", 612, &[], &[], &[], &[".1", ".2", ".man"]),
        lang("Ruby", 326, &["jruby", "macruby", "rake", "rb", "rbx"], &["Rakefile"], &["ruby", "macruby", "rake", "jruby", "rbx"], &[".rb", ".rake"]),
        lang("Rust", 327, &["rs"], &[], &[], &[".rs", ".rs.in"]),
        lang("Shell", 346, &["sh", "shell-script", "bash", "zsh"], &[".bashrc"], &["ash", "bash", "dash", "ksh", "mksh", "pdksh", "rc", "sh", "zsh"], &[".sh", ".bash"]),
        lang("TypeScript", 378, &["ts"], &[], &["deno", "ts-node", "tsx"], &[".ts", ".cts", ".mts"]),
        lang("XML", 399, &["rss", "xsd", "wsdl"], &[".classpath"], &[], &[".xml", ".xsd"]),
        lang("sed", 847830017, &[], &[], &["gsed", "minised", "sed", "ssed"], &[".sed"]),
    ]
}

fn heuristics() -> HeuristicsRecord {
    let rule = |language: Option<&str>, pattern: Option<&[&str]>, named: Option<&str>| RuleRecord {
        language: language.map(|x| x.to_string()),
        and: None,
        pattern: pattern.map(strings),
        negative_pattern: None,
        named_pattern: named.map(|x| x.to_string()),
    };
    HeuristicsRecord {
        named_patterns: vec![NamedPatternRecord {
            name: "cpp".to_string(),
            patterns: strings(&[r"^\s*#\s*include <(cstdint|string|vector|map|list|array|bitset|queue|stack|forward_list|unordered_map|unordered_set|(i|o|io)stream)>", r"^\s*template\s*<", r"^[ \t]*(private|public|protected):$"]),
        }],
        disambiguations: vec![Disambiguation {
            extensions: strings(&[".h"]),
            rules: vec![
                rule(Some("Objective-C"), Some(&[r#"^\s*(@(interface|class|protocol|property|end|synchronised|selector|implementation)\b|#import\s+.+\.h[">])"#]), None),
                rule(Some("C++"), None, Some("cpp")),
                rule(Some("C"), None, None),
            ],
        }],
    }
}

fn sources() -> LinguistSources {
    LinguistSources {
        languages: records(),
        popular: strings(&["C", "C#", "C++", "Go", "JavaScript", "Python", "Ruby", "Shell", "TypeScript"]),
        generic: strings(&[".1", ".2", ".app", ".sol", ".url", ".x"]),
        heuristics: heuristics(),
        vendor: strings(&[r"(^|\/)cache\/", r"(^|/)env/", r"(^|/)vendors?/", r"(^|/)\.vscode/", r"\.d\.ts$", r"(^|/)Jenkinsfile$"]),
        tests: strings(&[r"(^|/)tests?/", r"_test\.go$"]),
        documentation: strings(&[r"^[Dd]ocs?/", r"(^|/)README(\.[^/]*)?$"]),
        dependency_management: strings(&[r"(^|/)Gemfile(\.lock)?$", r"(^|/)package\.json$"]),
    }
}

fn linguist() -> Linguist {
    init(sources()).unwrap()
}


#[test]
fn test_generated_by_protoc() {
    let ling = linguist();
    assert_eq!(
        linguist::generated::is_generated(
            &ling,
            "asdf/asdf/service.rb",
            r#"
# Code generated by protoc-gen-twirp_ruby 1.9.0, DO NOT EDIT.
require 'twirp'
require_relative 'scoring_info_pb.rb'

module Blackbird
  module Query
    module V2
    end
  end
end
"#
        ),
        Some(Reason::Content(ContentReason::GeneratedByProtobufCompiler))
    )
}

#[test]
fn reason_label() {
    assert_eq!("content-compiledcoffeescript", Reason::Content(ContentReason::CompiledCoffeeScript).label());
    assert_eq!("path-cocapods", Reason::FilePath(FilePathReason::CocaPods).label());
}

#[test]
fn test_source_map_ref() {
    // blank lines at the end of the file
    assert!(has_source_map_ref(
        r#"/*# sourceMappingURL=bootstrap.css.map */


        "#
    ));
    // some trailing ; b/c javascript
    assert!(has_source_map_ref(
        r#"/*# sourceMappingURL=bootstrap.css.map */
        ;
        ;"#
    ));
}

#[test]
fn test_source_maps() {
    let ling = linguist();
    let content = r#"//// [test.js.map]
{"version":3"}"#;
    let is_indexable = is_indexable(&ling, "test.js.map", content);
    assert!(!is_indexable)
}

#[test]
fn test_is_vendored() {
    let ling = linguist();
    let tests: Vec<(&str, bool)> = vec![
        ("some/long/path/Jenkinsfile", false),
        ("vendor/Jenkinsfile/in/the/middle", true),
        ("this/is/not/cache/example.go", false),
        ("this/is/not/env/example.go", false),
        ("some_typescript.d.ts", false),
        (".vscode/settings.json", true),
        ("src/com/example/FooBar.java", false),
    ];

    for (path, expected) in tests {
        assert_eq!(expected, is_vendored(&ling, path), "expected is_vendored to return {expected} for {path:?}");
    }
}

#[test]
fn test_is_generated() {
    let ling = linguist();
    let tests: Vec<(&str, &str, bool)> = vec![
        ("some/long/path/go.sum", "", true),
        ("some/long/path/yarn.lock", "", true),
        ("pkg/internal/proto/proto.pb.go", "some go code", false),
        ("pkg/internal/proto/proto.pb.go", "Autogenerated by Thrift Compiler", true),
    ];

    for (path, content, expected) in tests {
        assert_eq!(
            expected,
            is_generated(&ling, path, content).is_some(),
            "expected is_vendored to return {expected} for {path:?} with content {content:?}",
        );
    }
}

#[test]
fn vendored_rules_without_overrides() {
    let ling = linguist();
    assert!(linguist::vendored::is_vendored(&ling, "some/long/path/Jenkinsfile"));
    assert!(linguist::vendored::is_vendored(&ling, "this/is/not/cache/example.go"));
    assert!(linguist::vendored::is_vendored(&ling, "some_typescript.d.ts"));
    assert_eq!(Some(false), try_is_vendored(&ling, "src/main.rs"));
    assert_eq!(None, try_is_vendored(&ling, "x/cache/.."));
}

#[test]
fn lock_files_always_generated() {
    let ling = linguist();
    assert_eq!(Some(Reason::FilePath(FilePathReason::GoSum)), is_generated(&ling, "go.sum", "x"));
    assert_eq!(Some(Reason::FilePath(FilePathReason::YarnLock)), is_generated(&ling, "a/yarn.lock", "x"));
    assert_eq!(None, linguist::generated::is_generated(&ling, "a/go.sum", "x"));
}

#[test]
fn generated_path_rules_first_match() {
    let ling = linguist();
    assert_eq!(
        Some(Reason::FilePath(FilePathReason::CargoLock)),
        linguist::generated::is_generated(&ling, "project/Cargo.lock", "")
    );
    assert_eq!(
        Some(Reason::FilePath(FilePathReason::NodeModules)),
        linguist::generated::is_generated(&ling, "web/node_modules/x/package-lock.json", "")
    );
}

#[test]
fn skip_indexing_reasons() {
    let ling = linguist();
    assert_eq!(Some(Reason::FilePath(FilePathReason::GitIgnore)), skip_indexing(&ling, ".gitignore", ""));
    assert_eq!(Some(Reason::FilePath(FilePathReason::NodeModules)), skip_indexing(&ling, "a/node_modules/b.js", "x"));
    assert_eq!(None, skip_indexing(&ling, "foo/bar.rs", "fn main() {}"));
    assert!(is_indexable(&ling, "foo/bar.rs", "fn main() {}"));
    assert!(!is_path_indexable(&ling, "dist/app.js"));
    assert!(is_path_indexable(&ling, "src/app.js"));
}

#[test]
fn ingest_filter_limits() {
    let ling = linguist();
    let f = IngestFilter::default();
    assert_eq!(Err(Filtered::TooSmall(2)), f.ingestable_meta(2));
    assert_eq!(Ok(()), f.ingestable_meta(3));
    assert_eq!(Ok(()), f.ingestable_meta(350 * 1024));
    assert_eq!(Err(Filtered::TooLarge(350 * 1024 + 1)), f.ingestable_meta(350 * 1024 + 1));
    assert_eq!(Err(Filtered::TooSmall(0)), f.ingestable(&ling, "a.rs", ""));
    assert_eq!(Err(Filtered::FilePath(FilePathReason::GitIgnore)), f.ingestable(&ling, ".gitignore", "target/\n"));
    assert_eq!(Err(Filtered::FilePath(FilePathReason::GitIgnore)), f.ingestable_path(&ling, ".gitignore"));
    assert_eq!(Ok(()), f.ingestable_path(&ling, "src/lib.rs"));
    assert!(f.is_ingestable(&ling, "src/lib.rs", "fn main() {}"));
}

#[test]
fn ingest_bytes() {
    let ling = linguist();
    let f = IngestFilter::default();
    assert_eq!(Err(Filtered::NotUtf8), f.ingestable_bytes(&ling, "a.rs", &[0x66, 0xff, 0x6e]));
    assert_eq!(Ok("fn main() {}"), f.ingestable_bytes(&ling, "a.rs", b"fn main() {}"));
    assert_eq!(Ok("fn x() {}".to_string()), f.ingestable_from_bytes(&ling, "a.rs", b"fn x() {}".to_vec()));
    assert_eq!(Err(Filtered::NotUtf8), f.ingestable_from_bytes(&ling, "a.rs", vec![0xc3, 0x28, 0x61]));
}

#[test]
fn minified_content_not_indexable() {
    let ling = linguist();
    let line = "a".repeat(200);
    let content = format!("{line}\n");
    assert_eq!(Some(Reason::Content(ContentReason::MinifiedJsOrCss)), skip_indexing(&ling, "app.JS", &content));
}

#[test]
fn path_checks() {
    let ling = linguist();
    assert!(is_test(&ling, "src/tests/a.rs"));
    assert!(is_test(&ling, "pkg/a_test.go"));
    assert!(!is_test(&ling, "src/a.rs"));
    assert!(is_documentation(&ling, "docs/index.md"));
    assert!(is_documentation(&ling, "a/README.md"));
    assert!(!is_documentation(&ling, "src/lib.rs"));
    assert!(is_dependency_management(&ling, "Gemfile.lock"));
    assert!(is_dependency_management(&ling, "web/package.json"));
    assert!(!is_dependency_management(&ling, "web/index.js"));
}

#[test]
fn init_errors() {
    let mut s = sources();
    s.languages.retain(|l| l.name != "XML");
    assert_eq!(InitError::MissingLanguage, init(s).err().unwrap());

    let mut s = sources();
    s.languages[0].extensions.push("scpt2".to_string());
    assert_eq!(InitError::Languages(DataError::InvalidExtension("AppleScript".to_string())), init(s).err().unwrap());

    let mut s = sources();
    s.generic.push("x".to_string());
    assert_eq!(InitError::Generic(GenericError::InvalidExtension), init(s).err().unwrap());

    let mut s = sources();
    let dup = s.heuristics.named_patterns[0].patterns.clone();
    s.heuristics.named_patterns.push(linguist::strategies::heuristics::NamedPatternRecord { name: "cpp".to_string(), patterns: dup });
    assert_eq!(InitError::Heuristics(HeuristicsError::DuplicateNamedPattern), init(s).err().unwrap());

    let mut s = sources();
    s.heuristics.disambiguations[0].rules[0].language = Some("Nope".to_string());
    assert_eq!(InitError::Heuristics(HeuristicsError::UnknownLanguage), init(s).err().unwrap());

    let mut s = sources();
    s.heuristics.disambiguations[0].extensions = vec!["h".to_string()];
    assert_eq!(InitError::Heuristics(HeuristicsError::InvalidExtension), init(s).err().unwrap());

    let mut s = sources();
    s.heuristics.disambiguations[0].rules[1].named_pattern = Some("missing".to_string());
    assert_eq!(InitError::Heuristics(HeuristicsError::UnknownNamedPattern), init(s).err().unwrap());

    let mut s = sources();
    s.vendor.push("(".to_string());
    assert_eq!(InitError::VendorRules, init(s).err().unwrap());

    let mut s = sources();
    s.tests.push("[".to_string());
    assert_eq!(InitError::TestRules, init(s).err().unwrap());

    let mut s = sources();
    s.documentation.push("(?P<".to_string());
    assert_eq!(InitError::DocumentationRules, init(s).err().unwrap());

    let mut s = sources();
    s.dependency_management.push("*".to_string());
    assert_eq!(InitError::DependencyManagementRules, init(s).err().unwrap());
}

#[test]
fn c_interface_answers() {
    let ling = linguist();
    assert_eq!(Ok(None), indexability(&ling, "foo/bar.rs", b"fn main() {}"));
    assert_eq!(Ok(Some(Reason::FilePath(FilePathReason::GitIgnore))), indexability(&ling, ".gitignore", b""));
    assert_eq!(Err(LinguistError::InvalidUtf8), indexability(&ling, "a.rs", &[0xff]));
    assert_eq!(Ok("Rust"), language_name(&ling, 327));
    assert_eq!(Err(LinguistError::NotFound), language_name(&ling, 1));
    assert_eq!(Ok(Some("#dea584")), language_color(&ling, 327));
    assert_eq!(Ok("source.rust"), language_tm_scope(&ling, 327));
    assert_eq!(Ok(42), language_id_by_alias(&ling, "CSharp"));
    assert_eq!(Err(LinguistError::NotFound), language_id_by_alias(&ling, "nothing"));
}

#[test]
fn fixture_lists() {
    let cases = fixture_cases("# comment\nY samples/a b.rs\nN x.go\nnospace\n\nYes y.rb\n");
    let got: Vec<(bool, String)> = cases.into_iter().map(|c| (c.expected, c.path)).collect();
    assert_eq!(
        vec![(true, "samples/a b.rs".to_string()), (false, "x.go".to_string()), (false, "y.rb".to_string())],
        got
    );
    let skips = skip_list("# header\nRust/a.rs\n\nGo/b.go\n");
    assert_eq!(vec!["Rust/a.rs", "Go/b.go"], skips);
    assert!(is_skipped(&skips, "Go/b.go"));
    assert!(!is_skipped(&skips, "Go/c.go"));
}

#[test]
fn text_helpers() {
    assert_eq!("a/b/c", unescape(r"a\/b\/c"));
    assert_eq!(r"\\/".replace(r"\/", "/"), unescape(r"\\/"));
    assert_eq!(vec!["a", "b", "c"], split_whitespace("  a\tb\u{3000}c \n"));
    assert_eq!("x/some.ts", with_extension("x/some.d", "ts"));
    assert_eq!("x/some", with_extension("x/some.d", ""));
    assert_eq!("x/.hidden.ts", with_extension("x/.hidden", "ts"));
    assert_eq!("a/b.txt", with_extension("a/b.rs/", "txt"));
    assert_eq!("..", with_extension("..", "x"));
    let s = "aé€x";
    assert_eq!(1, ceil_char_boundary(s, 1));
    assert_eq!(3, ceil_char_boundary(s, 2));
    assert_eq!(6, ceil_char_boundary(s, 4));
    let text: String = (0..20).map(|i| format!("line {i}\n")).collect();
    let parts = limited_content(&text);
    assert_eq!(vec!["line 0\nline 1\nline 2\nline 3\nline 4", "line 15\nline 16\nline 17\nline 18\nline 19\n"], parts);
    assert_eq!(vec!["short\ntext"], limited_content("short\ntext"));
    let c = (1..=20).map(|i| i.to_string()).collect::<Vec<_>>().join("\n");
    assert_eq!(vec!["1\n2\n3\n4\n5", "16\n17\n18\n19\n20"], limited_content(&c));
    let ten = (1..=10).map(|i| i.to_string()).collect::<Vec<_>>().join("\n");
    assert_eq!(vec![ten.as_str()], limited_content(&ten));
    let eleven = (1..=11).map(|i| i.to_string()).collect::<Vec<_>>().join("\n");
    assert_eq!(vec!["1\n2\n3\n4\n5", "7\n8\n9\n10\n11"], limited_content(&eleven));
    assert_eq!("a", linguist::text::take_n_lines("a\nb\nc", 1));
    assert_eq!("a\nb", linguist::text::take_n_lines("a\nb\nc", 2));
    assert_eq!("a\nb\nc", linguist::text::take_n_lines("a\nb\nc", 5));
    assert_eq!("", linguist::text::take_n_lines("a\nb\nc", 0));
    assert_eq!("lib/a.b.ts", linguist::indexable::remove_typescript_interface_extension("lib/a.b.d.ts"));
    assert_eq!("src/x.ts", linguist::indexable::remove_typescript_interface_extension("src/x.d.ts"));
    assert_eq!("src/x.ts", linguist::indexable::remove_typescript_interface_extension("src/x.ts"));
    assert_eq!("src/x.d.js", linguist::indexable::remove_typescript_interface_extension("src/x.d.js"));
}

#[test]
fn ingested_content_is_indexable() {
    let ling = linguist();
    let f = IngestFilter::default();
    for (path, content) in [("src/a.rs", "fn a() {}"), ("b.js", "var x = 1;\n"), ("node_modules/a.js", "var x = 1;\n")] {
        if f.ingestable(&ling, path, content).is_ok() {
            assert!(is_indexable(&ling, path, content));
            assert!(is_path_indexable(&ling, path));
        }
    }
    assert!(f.ingestable(&ling, "node_modules/a.js", "var x = 1;\n").is_err());
}

fn run_cases(list: &str, contents: &[(&str, &str)], f: impl Fn(&str, &str) -> bool) {
    let cases = fixture_cases(list);
    assert!(!cases.is_empty());
    for case in cases {
        let content = contents.iter().find(|(p, _)| *p == case.path).map(|(_, c)| *c).unwrap_or("");
        assert_eq!(case.expected, f(&case.path, content), "{}", case.path);
    }
}

#[test]
fn generated() {
    let ling = linguist();
    run_cases(
        "# generated files\nY Cargo.lock\nY web/node_modules/left-pad/index.js\nY Godeps/Godeps.json\nN src/main.rs\nY gen/service_pb2.py\nN gen/handwritten.py\n",
        &[("gen/service_pb2.py", "# Generated by the protocol buffer compiler.  DO NOT EDIT!\nimport x\n")],
        |path, content| linguist::generated::is_generated(&ling, path, content).is_some(),
    );
}

#[test]
fn indexable() {
    let ling = linguist();
    let big = "x".repeat(300);
    run_cases(
        "Y src/lib.rs\nN .gitignore\nN app/dist/bundle.js\nN third_party/x/y.c\nN go.sum\nN lib/app.min.js\nY lib/app.js\nN lib/big.js\n",
        &[("lib/big.js", big.as_str()), ("lib/app.js", "var a = 1;\n")],
        |path, content| is_indexable(&ling, path, content),
    );
}

#[test]
fn is_test_file() {
    let ling = linguist();
    run_cases("Y test/a.rb\nY pkg/a_test.go\nN src/a.rb\n", &[], |path, _| is_test(&ling, path));
}

#[test]
fn is_documentation_file() {
    let ling = linguist();
    run_cases("Y docs/guide.md\nY README\nN src/readme.rs\n", &[], |path, _| is_documentation(&ling, path));
}

#[test]
fn test_dependency_management() {
    let ling = linguist();
    run_cases("Y Gemfile\nY web/package.json\nN web/package.js\n", &[], |path, _| {
        is_dependency_management(&ling, path)
    });
}

#[test]
fn vendor() {
    let ling = linguist();
    run_cases(
        "Y vendor/a.rb\nY cache/x.txt\nY .vscode/settings.json\nN src/vendor.rb\nY types/index.d.ts\n",
        &[],
        |path, _| linguist::vendored::is_vendored(&ling, path),
    );
}

#[test]
fn test_is_indexable() {
    let ling = linguist();
    let res = indexability(&ling, "foo/bar.rs", "fn main() {}".as_bytes());
    assert_eq!(Ok(None), res);
}

#[test]
fn test_skip_indexing() {
    let ling = linguist();
    let res = indexability(&ling, ".gitignore", "".as_bytes());
    let reason = res.unwrap().unwrap();
    assert_eq!("FilePath(GitIgnore)", format!("{reason:?}"));
}

#[test]
fn cache_directories_use_the_file_name() {
    let ling = linguist();
    for (path, file) in [("a/cache/x.go", "x.go"), ("a/env/.vscode", ".vscode"), ("vendor/cache/y.rb", "y.rb")] {
        assert_eq!(is_vendored(&ling, file), is_vendored(&ling, path), "{path}");
    }
}

//! Rules recognising generated files, by path and by content.
use vstd::prelude::*;
use vstd::utf8::*;
use vstd::string::*;
use vstd::string::StringExecFns;
use crate::text::{lines_end, 
    byte_views, contains, contains_bytes, lines, spec_lines, starts_with, starts_with_bytes,
    total_len, lemma_lines_total_len, count_from, count_occurrences, lemma_view_is_decoded,
    lemma_count_bound, lowercase, to_lowercase, trim_quotes, trim_quotes_spec, newline_index,
};
use crate::strategies::{lowercase_ext, lowercase_ext_spec};
use crate::regex::{
    pattern_is_match, pattern_matches, patterns_are_match, set_pattern_matches, string_views,
    pattern_captures, captures_view, regex_compiles, regex_captures, CompiledSet, compile_set,
    set_matches, regex_set_matching, regex_set_compiles,
};

verus! {

broadcast use vstd::utf8::group_utf8_lib;

/// Why a path is considered generated or unsuitable for indexing.
#[derive(Debug, Clone, Copy, PartialEq, Eq, Structural, Hash)]
pub enum FilePathReason {
    BowerComponents,
    CargoLock,
    Carthage,
    CocaPods,
    ComposwerLock,
    DelphiInterface,
    DistDir,
    EsyLock,
    ExternalsDir,
    GitIgnore,
    Godeps,
    GoLock,
    GoSum,
    GoVendor,
    IntelliJ,
    MinifiedJsOrCss,
    NetDesigner,
    NetSpecflow,
    NixFlakesLock,
    NodeModules,
    NonUTF8Path,
    NpmPackageLock,
    NpmShrinkwrap,
    PackagesDir,
    PdmLock,
    PipenvLock,
    PoetryLock,
    PythonSitePackages,
    RelayCompilerGraphQL,
    SourceMap,
    TerraformLock,
    ThirdPartyDir,
    VendorDir,
    VendorDomain,
    Xcode,
    YarnLock,
    YarnPnp,
    Zephir,
}

/// Why content is considered generated or unsuitable for indexing.
#[derive(Debug, Clone, Copy, PartialEq, Eq, Structural, Hash)]
pub enum ContentReason {
    CompiledCoffeeScript,
    CompiledCython,
    GeneratedAntlr,
    GeneratedByGrammarKit,
    GeneratedByGRPC,
    GeneratedByHaxe,
    GeneratedByJavah,
    GeneratedByJFlex,
    GeneratedByJison,
    GeneratedByJOOQ,
    GeneratedByProtobufCompiler,
    GeneratedByRacc,
    GeneratedByRoxygen2,
    GeneratedByThrift,
    GeneratedDart,
    GeneratedGameMakerStudio,
    GeneratedGIMPCImage,
    GeneratedGo,
    GeneratedHTML,
    GeneratedMicrosoftVS6BuildFile,
    GeneratedNetDocfile,
    GeneratedPegJsParser,
    GeneratedPostscript,
    GeneratedPPPort,
    GeneratedProtobuf,
    GFortran,
    HasSourceMapRef,
    KiCAD,
    MinifiedJsOrCss,
    SorbetRBI,
    SourceMap,
    Unity3DMetadata,
    VCRCassette,
}

/// Why a file is considered generated or unsuitable for indexing.
#[derive(Debug, Clone, Copy, PartialEq, Eq, Structural, Hash)]
pub enum Reason {
    FilePath(FilePathReason),
    Content(ContentReason),
}

/// The lowercase name of a path reason.
pub open spec fn path_reason_name(r: FilePathReason) -> Seq<char> {
    match r {
        FilePathReason::BowerComponents => "bowercomponents"@,
        FilePathReason::CargoLock => "cargolock"@,
        FilePathReason::Carthage => "carthage"@,
        FilePathReason::CocaPods => "cocapods"@,
        FilePathReason::ComposwerLock => "composwerlock"@,
        FilePathReason::DelphiInterface => "delphiinterface"@,
        FilePathReason::DistDir => "distdir"@,
        FilePathReason::EsyLock => "esylock"@,
        FilePathReason::ExternalsDir => "externalsdir"@,
        FilePathReason::GitIgnore => "gitignore"@,
        FilePathReason::Godeps => "godeps"@,
        FilePathReason::GoLock => "golock"@,
        FilePathReason::GoSum => "gosum"@,
        FilePathReason::GoVendor => "govendor"@,
        FilePathReason::IntelliJ => "intellij"@,
        FilePathReason::MinifiedJsOrCss => "minifiedjsorcss"@,
        FilePathReason::NetDesigner => "netdesigner"@,
        FilePathReason::NetSpecflow => "netspecflow"@,
        FilePathReason::NixFlakesLock => "nixflakeslock"@,
        FilePathReason::NodeModules => "nodemodules"@,
        FilePathReason::NonUTF8Path => "nonutf8path"@,
        FilePathReason::NpmPackageLock => "npmpackagelock"@,
        FilePathReason::NpmShrinkwrap => "npmshrinkwrap"@,
        FilePathReason::PackagesDir => "packagesdir"@,
        FilePathReason::PdmLock => "pdmlock"@,
        FilePathReason::PipenvLock => "pipenvlock"@,
        FilePathReason::PoetryLock => "poetrylock"@,
        FilePathReason::PythonSitePackages => "pythonsitepackages"@,
        FilePathReason::RelayCompilerGraphQL => "relaycompilergraphql"@,
        FilePathReason::SourceMap => "sourcemap"@,
        FilePathReason::TerraformLock => "terraformlock"@,
        FilePathReason::ThirdPartyDir => "thirdpartydir"@,
        FilePathReason::VendorDir => "vendordir"@,
        FilePathReason::VendorDomain => "vendordomain"@,
        FilePathReason::Xcode => "xcode"@,
        FilePathReason::YarnLock => "yarnlock"@,
        FilePathReason::YarnPnp => "yarnpnp"@,
        FilePathReason::Zephir => "zephir"@,
    }
}

/// The lowercase name of a content reason.
pub open spec fn content_reason_name(r: ContentReason) -> Seq<char> {
    match r {
        ContentReason::CompiledCoffeeScript => "compiledcoffeescript"@,
        ContentReason::CompiledCython => "compiledcython"@,
        ContentReason::GeneratedAntlr => "generatedantlr"@,
        ContentReason::GeneratedByGrammarKit => "generatedbygrammarkit"@,
        ContentReason::GeneratedByGRPC => "generatedbygrpc"@,
        ContentReason::GeneratedByHaxe => "generatedbyhaxe"@,
        ContentReason::GeneratedByJavah => "generatedbyjavah"@,
        ContentReason::GeneratedByJFlex => "generatedbyjflex"@,
        ContentReason::GeneratedByJison => "generatedbyjison"@,
        ContentReason::GeneratedByJOOQ => "generatedbyjooq"@,
        ContentReason::GeneratedByProtobufCompiler => "generatedbyprotobufcompiler"@,
        ContentReason::GeneratedByRacc => "generatedbyracc"@,
        ContentReason::GeneratedByRoxygen2 => "generatedbyroxygen2"@,
        ContentReason::GeneratedByThrift => "generatedbythrift"@,
        ContentReason::GeneratedDart => "generateddart"@,
        ContentReason::GeneratedGameMakerStudio => "generatedgamemakerstudio"@,
        ContentReason::GeneratedGIMPCImage => "generatedgimpcimage"@,
        ContentReason::GeneratedGo => "generatedgo"@,
        ContentReason::GeneratedHTML => "generatedhtml"@,
        ContentReason::GeneratedMicrosoftVS6BuildFile => "generatedmicrosoftvs6buildfile"@,
        ContentReason::GeneratedNetDocfile => "generatednetdocfile"@,
        ContentReason::GeneratedPegJsParser => "generatedpegjsparser"@,
        ContentReason::GeneratedPostscript => "generatedpostscript"@,
        ContentReason::GeneratedPPPort => "generatedppport"@,
        ContentReason::GeneratedProtobuf => "generatedprotobuf"@,
        ContentReason::GFortran => "gfortran"@,
        ContentReason::HasSourceMapRef => "hassourcemapref"@,
        ContentReason::KiCAD => "kicad"@,
        ContentReason::MinifiedJsOrCss => "minifiedjsorcss"@,
        ContentReason::SorbetRBI => "sorbetrbi"@,
        ContentReason::SourceMap => "sourcemap"@,
        ContentReason::Unity3DMetadata => "unity3dmetadata"@,
        ContentReason::VCRCassette => "vcrcassette"@,
    }
}

/// The label of a reason: `path-` or `content-` followed by the lowercase
/// name of the variant.
pub open spec fn reason_label(r: Reason) -> Seq<char> {
    match r {
        Reason::FilePath(p) => "path-"@ + path_reason_name(p),
        Reason::Content(c) => "content-"@ + content_reason_name(c),
    }
}

impl FilePathReason {
    /// The lowercase name of the variant.
    pub fn lowercase_name(&self) -> (s: &'static str)
        ensures
            s@ == path_reason_name(*self),
    {
        match self {
            FilePathReason::BowerComponents => "bowercomponents",
            FilePathReason::CargoLock => "cargolock",
            FilePathReason::Carthage => "carthage",
            FilePathReason::CocaPods => "cocapods",
            FilePathReason::ComposwerLock => "composwerlock",
            FilePathReason::DelphiInterface => "delphiinterface",
            FilePathReason::DistDir => "distdir",
            FilePathReason::EsyLock => "esylock",
            FilePathReason::ExternalsDir => "externalsdir",
            FilePathReason::GitIgnore => "gitignore",
            FilePathReason::Godeps => "godeps",
            FilePathReason::GoLock => "golock",
            FilePathReason::GoSum => "gosum",
            FilePathReason::GoVendor => "govendor",
            FilePathReason::IntelliJ => "intellij",
            FilePathReason::MinifiedJsOrCss => "minifiedjsorcss",
            FilePathReason::NetDesigner => "netdesigner",
            FilePathReason::NetSpecflow => "netspecflow",
            FilePathReason::NixFlakesLock => "nixflakeslock",
            FilePathReason::NodeModules => "nodemodules",
            FilePathReason::NonUTF8Path => "nonutf8path",
            FilePathReason::NpmPackageLock => "npmpackagelock",
            FilePathReason::NpmShrinkwrap => "npmshrinkwrap",
            FilePathReason::PackagesDir => "packagesdir",
            FilePathReason::PdmLock => "pdmlock",
            FilePathReason::PipenvLock => "pipenvlock",
            FilePathReason::PoetryLock => "poetrylock",
            FilePathReason::PythonSitePackages => "pythonsitepackages",
            FilePathReason::RelayCompilerGraphQL => "relaycompilergraphql",
            FilePathReason::SourceMap => "sourcemap",
            FilePathReason::TerraformLock => "terraformlock",
            FilePathReason::ThirdPartyDir => "thirdpartydir",
            FilePathReason::VendorDir => "vendordir",
            FilePathReason::VendorDomain => "vendordomain",
            FilePathReason::Xcode => "xcode",
            FilePathReason::YarnLock => "yarnlock",
            FilePathReason::YarnPnp => "yarnpnp",
            FilePathReason::Zephir => "zephir",
        }
    }
}

impl ContentReason {
    /// The lowercase name of the variant.
    pub fn lowercase_name(&self) -> (s: &'static str)
        ensures
            s@ == content_reason_name(*self),
    {
        match self {
            ContentReason::CompiledCoffeeScript => "compiledcoffeescript",
            ContentReason::CompiledCython => "compiledcython",
            ContentReason::GeneratedAntlr => "generatedantlr",
            ContentReason::GeneratedByGrammarKit => "generatedbygrammarkit",
            ContentReason::GeneratedByGRPC => "generatedbygrpc",
            ContentReason::GeneratedByHaxe => "generatedbyhaxe",
            ContentReason::GeneratedByJavah => "generatedbyjavah",
            ContentReason::GeneratedByJFlex => "generatedbyjflex",
            ContentReason::GeneratedByJison => "generatedbyjison",
            ContentReason::GeneratedByJOOQ => "generatedbyjooq",
            ContentReason::GeneratedByProtobufCompiler => "generatedbyprotobufcompiler",
            ContentReason::GeneratedByRacc => "generatedbyracc",
            ContentReason::GeneratedByRoxygen2 => "generatedbyroxygen2",
            ContentReason::GeneratedByThrift => "generatedbythrift",
            ContentReason::GeneratedDart => "generateddart",
            ContentReason::GeneratedGameMakerStudio => "generatedgamemakerstudio",
            ContentReason::GeneratedGIMPCImage => "generatedgimpcimage",
            ContentReason::GeneratedGo => "generatedgo",
            ContentReason::GeneratedHTML => "generatedhtml",
            ContentReason::GeneratedMicrosoftVS6BuildFile => "generatedmicrosoftvs6buildfile",
            ContentReason::GeneratedNetDocfile => "generatednetdocfile",
            ContentReason::GeneratedPegJsParser => "generatedpegjsparser",
            ContentReason::GeneratedPostscript => "generatedpostscript",
            ContentReason::GeneratedPPPort => "generatedppport",
            ContentReason::GeneratedProtobuf => "generatedprotobuf",
            ContentReason::GFortran => "gfortran",
            ContentReason::HasSourceMapRef => "hassourcemapref",
            ContentReason::KiCAD => "kicad",
            ContentReason::MinifiedJsOrCss => "minifiedjsorcss",
            ContentReason::SorbetRBI => "sorbetrbi",
            ContentReason::SourceMap => "sourcemap",
            ContentReason::Unity3DMetadata => "unity3dmetadata",
            ContentReason::VCRCassette => "vcrcassette",
        }
    }
}

impl Reason {
    /// A label string suitable for stat tags and structured logging.
    pub fn label(&self) -> (s: String)
        ensures
            s@ == reason_label(*self),
    {
        match self {
            Reason::FilePath(p) => String::from_str("path-").concat(p.lowercase_name()),
            Reason::Content(c) => String::from_str("content-").concat(c.lowercase_name()),
        }
    }
}

/// Line `i` of the content contains `pattern`.
pub open spec fn line_contains_spec(b: Seq<u8>, i: int, pattern: Seq<u8>) -> bool {
    0 <= i < spec_lines(b).len() && contains_bytes(spec_lines(b)[i], pattern)
}

/// One of the first `n` lines of the content contains `pattern`.
pub open spec fn any_line_contains_spec(b: Seq<u8>, n: int, pattern: Seq<u8>) -> bool {
    exists|k: int| 0 <= k < n && k < spec_lines(b).len() && contains_bytes(#[trigger] spec_lines(b)[k], pattern)
}

/// The last non-empty line among the last `n` lines, or nothing.
pub open spec fn last_non_empty(l: Seq<Seq<u8>>, n: nat) -> Seq<u8>
    decreases l.len(),
{
    if n == 0 || l.len() == 0 {
        seq![]
    } else if l.last().len() > 0 {
        l.last()
    } else {
        last_non_empty(l.drop_last(), (n - 1) as nat)
    }
}

/// The last non-empty line of the content, looking at most 5 lines back.
pub open spec fn last_non_empty_line_spec(b: Seq<u8>) -> Seq<u8> {
    last_non_empty(spec_lines(b), 5)
}

/// Does the line on index `i` contain the pattern?
pub fn line_contains(content: &str, i: usize, pattern: &str) -> (r: bool)
    ensures
        r == line_contains_spec(content.spec_bytes(), i as int, pattern.spec_bytes()),
{
    let ls = lines(content);
    if i < ls.len() {
        assert(byte_views(ls@)[i as int] == ls@[i as int].spec_bytes());
        contains(ls[i], pattern)
    } else {
        false
    }
}

/// Does any line up to `n` contain the pattern?
pub fn any_line_contains(content: &str, n: usize, pattern: &str) -> (r: bool)
    ensures
        r == any_line_contains_spec(content.spec_bytes(), n as int, pattern.spec_bytes()),
{
    let ls = lines(content);
    let ghost l = spec_lines(content.spec_bytes());
    let mut k: usize = 0;
    while k < n && k < ls.len()
        invariant
            byte_views(ls@) == l,
            l == spec_lines(content.spec_bytes()),
            forall|j: int| 0 <= j < k ==> !contains_bytes(#[trigger] l[j], pattern.spec_bytes()),
        decreases ls@.len() - k,
    {
        assert(l[k as int] == ls@[k as int].spec_bytes());
        if contains(ls[k], pattern) {
            return true;
        }
        k = k + 1;
    }
    false
}

/// Returns the last non-empty line of some content. Checks at most 5 lines.
pub fn last_non_empty_line(content: &str) -> (r: &str)
    ensures
        r.spec_bytes() == last_non_empty_line_spec(content.spec_bytes()),
{
    let ls = lines(content);
    let ghost l = spec_lines(content.spec_bytes());
    let mut i = ls.len();
    let mut budget: usize = 5;
    assert(l.take(i as int) =~= l);
    while i > 0 && budget > 0
        invariant
            i <= ls@.len(),
            byte_views(ls@) == l,
            l == spec_lines(content.spec_bytes()),
            last_non_empty(l.take(i as int), budget as nat) == last_non_empty(l, 5),
        decreases i,
    {
        assert(l.take(i as int).drop_last() =~= l.take(i - 1));
        assert(l.take(i as int).last() == ls@[i - 1].spec_bytes());
        let line = ls[i - 1];
        if crate::text::byte_len(line) > 0 {
            return line;
        }
        i = i - 1;
        budget = budget - 1;
    }
    crate::text::empty_of(content)
}

/// Minified: the average line length exceeds 110 bytes.
pub open spec fn is_minified_spec(b: Seq<u8>) -> bool {
    spec_lines(b).len() > 0 && total_len(spec_lines(b)) / spec_lines(b).len() > 110
}

/// Whether the average line length exceeds 110 bytes.
pub fn is_minified(content: &str) -> (r: bool)
    ensures
        r == is_minified_spec(content.spec_bytes()),
{
    let ls = lines(content);
    let ghost l = spec_lines(content.spec_bytes());
    proof {
        lemma_lines_total_len(content.spec_bytes());
    }
    let clen = crate::text::byte_len(content);
    let mut chars: usize = 0;
    let mut i: usize = 0;
    assert(l.skip(0) =~= l);
    while i < ls.len()
        invariant
            i <= ls@.len(),
            byte_views(ls@) == l,
            l == spec_lines(content.spec_bytes()),
            total_len(l) <= clen,
            chars + total_len(l.skip(i as int)) == total_len(l),
        decreases ls@.len() - i,
    {
        assert(l.skip(i as int).drop_first() =~= l.skip(i + 1));
        assert(l.skip(i as int)[0] == ls@[i as int].spec_bytes());
        assert(total_len(l.skip(i as int)) == l.skip(i as int)[0].len() + total_len(l.skip(i as int).drop_first()));
        chars = chars + crate::text::byte_len(ls[i]);
        i = i + 1;
    }
    assert(l.skip(i as int) =~= Seq::<Seq<u8>>::empty());
    let n = ls.len();
    n > 0 && chars / n > 110
}

/// A JNI header: the first two lines are javah's banner and `#include <jni.h>`.
pub open spec fn is_generated_jni_header_spec(b: Seq<u8>) -> bool {
    spec_lines(b).len() >= 2 && contains_bytes(
        spec_lines(b)[0],
        "/* DO NOT EDIT THIS FILE - it is machine generated */".spec_bytes(),
    ) && contains_bytes(spec_lines(b)[1], "#include <jni.h>".spec_bytes())
}

fn is_generated_jni_header(content: &str) -> (r: bool)
    ensures
        r == is_generated_jni_header_spec(content.spec_bytes()),
{
    let ls = lines(content);
    if ls.len() < 2 {
        return false;
    }
    assert(byte_views(ls@)[0] == ls@[0].spec_bytes());
    assert(byte_views(ls@)[1] == ls@[1].spec_bytes());
    contains(ls[0], "/* DO NOT EDIT THIS FILE - it is machine generated */") && contains(
        ls[1],
        "#include <jni.h>",
    )
}

/// A .NET XML doc file: `<doc>` and `<assembly>` on lines 1 and 2, `</doc>` last.
pub open spec fn is_generated_net_docfile_spec(b: Seq<u8>) -> bool {
    spec_lines(b).len() >= 3 && contains_bytes(spec_lines(b)[1], "<doc>".spec_bytes())
        && contains_bytes(spec_lines(b)[2], "<assembly>".spec_bytes()) && contains_bytes(
        last_non_empty_line_spec(b),
        "</doc>".spec_bytes(),
    )
}

fn is_generated_net_docfile(content: &str) -> (r: bool)
    ensures
        r == is_generated_net_docfile_spec(content.spec_bytes()),
{
    let ls = lines(content);
    if ls.len() < 3 {
        return false;
    }
    assert(byte_views(ls@)[1] == ls@[1].spec_bytes());
    assert(byte_views(ls@)[2] == ls@[2].spec_bytes());
    contains(ls[1], "<doc>") && contains(ls[2], "<assembly>") && contains(
        last_non_empty_line(content),
        "</doc>",
    )
}

/// A VCR cassette: the last non-empty line names VCR.
pub open spec fn is_vcr_cassette_spec(b: Seq<u8>) -> bool {
    contains_bytes(last_non_empty_line_spec(b), "recorded_with: VCR".spec_bytes())
}

fn is_vcr_cassette(content: &str) -> (r: bool)
    ensures
        r == is_vcr_cassette_spec(content.spec_bytes()),
{
    contains(last_non_empty_line(content), "recorded_with: VCR")
}

/// One of the first 3 lines names protoc.
pub open spec fn is_protoc_generated_spec(b: Seq<u8>) -> bool {
    exists|k: int|
        0 <= k < 3 && k < spec_lines(b).len() && (contains_bytes(
            #[trigger] spec_lines(b)[k],
            "Code generated by protoc".spec_bytes(),
        ) || contains_bytes(spec_lines(b)[k], "Generated by the protocol buffer compiler.".spec_bytes()))
}

pub fn is_protoc_generated(content: &str) -> (r: bool)
    ensures
        r == is_protoc_generated_spec(content.spec_bytes()),
{
    let ls = lines(content);
    let ghost l = spec_lines(content.spec_bytes());
    let mut k: usize = 0;
    while k < 3 && k < ls.len()
        invariant
            byte_views(ls@) == l,
            l == spec_lines(content.spec_bytes()),
            forall|j: int|
                0 <= j < k ==> !(contains_bytes(#[trigger] l[j], "Code generated by protoc".spec_bytes())
                    || contains_bytes(l[j], "Generated by the protocol buffer compiler.".spec_bytes())),
        decreases ls@.len() - k,
    {
        assert(l[k as int] == ls@[k as int].spec_bytes());
        if contains(ls[k], "Code generated by protoc") || contains(
            ls[k],
            "Generated by the protocol buffer compiler.",
        ) {
            return true;
        }
        k = k + 1;
    }
    false
}

/// A source-map reference comment.
pub const SOURCE_MAP_REF_PATTERN: &'static str = r"^/[*/][\#@] source(?:Mapping)?URL|sourceURL=";

/// The non-empty lines of `l`, last first.
pub open spec fn rev_non_empty(l: Seq<Seq<u8>>) -> Seq<Seq<u8>>
    decreases l.len(),
{
    if l.len() == 0 {
        seq![]
    } else if l.last().len() > 0 {
        seq![l.last()] + rev_non_empty(l.drop_last())
    } else {
        rev_non_empty(l.drop_last())
    }
}

/// One of the last three non-empty lines holds a source-map reference.
pub open spec fn has_source_map_ref_spec(b: Seq<u8>) -> bool {
    let r = rev_non_empty(spec_lines(b));
    exists|k: int| 0 <= k < 3 && k < r.len() && pattern_matches(SOURCE_MAP_REF_PATTERN@, decode_utf8(#[trigger] r[k]))
}

pub fn has_source_map_ref(content: &str) -> (r: bool)
    ensures
        r == has_source_map_ref_spec(content.spec_bytes()),
{
    let ls = lines(content);
    let ghost l = spec_lines(content.spec_bytes());
    let ghost mut seen: Seq<Seq<u8>> = seq![];
    let mut i = ls.len();
    let mut c: usize = 0;
    assert(l.take(i as int) =~= l);
    assert(rev_non_empty(l) =~= seen + rev_non_empty(l.take(i as int)));
    while i > 0 && c < 3
        invariant
            i <= ls@.len(),
            byte_views(ls@) == l,
            l == spec_lines(content.spec_bytes()),
            seen.len() == c,
            c <= 3,
            rev_non_empty(l) == seen + rev_non_empty(l.take(i as int)),
            forall|k: int| 0 <= k < c ==> !pattern_matches(SOURCE_MAP_REF_PATTERN@, decode_utf8(#[trigger] seen[k])),
        decreases i,
    {
        let line = ls[i - 1];
        assert(l.take(i as int).drop_last() =~= l.take(i - 1));
        assert(l.take(i as int).last() == line.spec_bytes());
        if crate::text::byte_len(line) > 0 {
            proof {
                lemma_view_is_decoded(line);
                assert(rev_non_empty(l) =~= seen.push(line.spec_bytes()) + rev_non_empty(l.take(i - 1)));
            }
            if pattern_is_match(SOURCE_MAP_REF_PATTERN, line) {
                assert(rev_non_empty(l)[c as int] == line.spec_bytes());
                return true;
            }
            proof {
                seen = seen.push(line.spec_bytes());
            }
            c = c + 1;
        }
        i = i - 1;
    }
    proof {
        if c < 3 {
            assert(rev_non_empty(l.take(0)) =~= Seq::<Seq<u8>>::empty());
            assert(l.take(i as int) =~= l.take(0));
            assert(rev_non_empty(l) =~= seen);
        }
    }
    false
}

/// The first line of `b`, or nothing.
pub open spec fn first_line(b: Seq<u8>) -> Seq<u8> {
    if spec_lines(b).len() > 0 {
        spec_lines(b)[0]
    } else {
        seq![]
    }
}

/// First pattern of a source-map file's first line.
pub const SOURCE_MAP_PATTERN_JSON: &'static str = r#"^\{"version":\d+,"#;

/// Second pattern of a source-map file's first line.
pub const SOURCE_MAP_PATTERN_LINE_MAPS: &'static str = r"^/\*\* Begin line maps\. \*\*/\{";

/// A source map: the first line opens a version record or a line-map block.
pub open spec fn is_source_map_spec(b: Seq<u8>) -> bool {
    spec_lines(b).len() > 0 && set_pattern_matches(
        seq![SOURCE_MAP_PATTERN_JSON@, SOURCE_MAP_PATTERN_LINE_MAPS@],
        decode_utf8(spec_lines(b)[0]),
    )
}

/// Two patterns as owned strings.
fn two_patterns(a: &str, b: &str) -> (v: Vec<String>)
    ensures
        string_views(v@) == seq![a@, b@],
{
    let mut v: Vec<String> = Vec::new();
    v.push(String::from_str(a));
    v.push(String::from_str(b));
    assert(string_views(v@) =~= seq![a@, b@]);
    v
}

pub fn is_source_map(content: &str) -> (r: bool)
    ensures
        r == is_source_map_spec(content.spec_bytes()),
{
    let ls = lines(content);
    if ls.len() == 0 {
        return false;
    }
    proof {
        assert(byte_views(ls@)[0] == ls@[0].spec_bytes());
        lemma_view_is_decoded(ls@[0]);
    }
    let pats = two_patterns(SOURCE_MAP_PATTERN_JSON, SOURCE_MAP_PATTERN_LINE_MAPS);
    patterns_are_match(&pats, ls[0])
}

/// The first line of a Dart file generated by a tool.
pub const DART_PATTERN: &'static str = r"generated code\W{2,3}do not modify";

/// Generated Dart: the first line says not to modify generated code.
pub open spec fn is_generated_dart_spec(b: Seq<u8>) -> bool {
    spec_lines(b).len() > 0 && pattern_matches(DART_PATTERN@, decode_utf8(spec_lines(b)[0]))
}

fn is_generated_dart(content: &str) -> (r: bool)
    ensures
        r == is_generated_dart_spec(content.spec_bytes()),
{
    let ls = lines(content);
    if ls.len() == 0 {
        return false;
    }
    proof {
        assert(byte_views(ls@)[0] == ls@[0].spec_bytes());
        lemma_view_is_decoded(ls@[0]);
    }
    pattern_is_match(DART_PATTERN, ls[0])
}

/// The third line of a GameMaker Studio project.
pub const GAME_MAKER_MODEL_PATTERN: &'static str = r#""modelName":\s*"GM"#;

/// The first line of an older GameMaker Studio project.
pub const GAME_MAKER_VERSION_PATTERN: &'static str = r"^\d\.\d\.\d.+\|\{";

/// GameMaker Studio: at least three lines, with a GM model name on the
/// third or a version record on the first.
pub open spec fn is_generated_gamemakerstudio_spec(b: Seq<u8>) -> bool {
    spec_lines(b).len() >= 3 && (pattern_matches(GAME_MAKER_MODEL_PATTERN@, decode_utf8(spec_lines(b)[2]))
        || pattern_matches(GAME_MAKER_VERSION_PATTERN@, decode_utf8(spec_lines(b)[0])))
}

fn is_generated_gamemakerstudio(content: &str) -> (r: bool)
    ensures
        r == is_generated_gamemakerstudio_spec(content.spec_bytes()),
{
    let ls = lines(content);
    if ls.len() < 3 {
        return false;
    }
    proof {
        assert(byte_views(ls@)[0] == ls@[0].spec_bytes());
        assert(byte_views(ls@)[2] == ls@[2].spec_bytes());
        lemma_view_is_decoded(ls@[0]);
        lemma_view_is_decoded(ls@[2]);
    }
    pattern_is_match(GAME_MAKER_MODEL_PATTERN, ls[2]) || pattern_is_match(GAME_MAKER_VERSION_PATTERN, ls[0])
}

/// The first line of a GIMP C-source image dump.
pub const GIMP_SOURCE_PATTERN: &'static str = r"/\* GIMP [a-zA-Z0-9\- ]+ C\-Source image dump \(.+?\.c\) \*/";

/// The first line of a GIMP header image file.
pub const GIMP_HEADER_PATTERN: &'static str = r"/\*  GIMP header image file format \([a-zA-Z0-9\- ]+\): .+?\.h  \*/";

/// GIMP image dumps: the first line is GIMP's banner.
pub open spec fn is_generated_gimp_spec(b: Seq<u8>) -> bool {
    spec_lines(b).len() > 0 && (pattern_matches(GIMP_SOURCE_PATTERN@, decode_utf8(spec_lines(b)[0]))
        || pattern_matches(GIMP_HEADER_PATTERN@, decode_utf8(spec_lines(b)[0])))
}

fn is_generated_gimp(content: &str) -> (r: bool)
    ensures
        r == is_generated_gimp_spec(content.spec_bytes()),
{
    let ls = lines(content);
    if ls.len() == 0 {
        return false;
    }
    proof {
        assert(byte_views(ls@)[0] == ls@[0].spec_bytes());
        lemma_view_is_decoded(ls@[0]);
    }
    pattern_is_match(GIMP_SOURCE_PATTERN, ls[0]) || pattern_is_match(GIMP_HEADER_PATTERN, ls[0])
}

/// The first line of a Sorbet RBI file.
pub const SORBET_TYPED_PATTERN: &'static str = r"^# typed:";

/// The fifth line of a Sorbet RBI file generated by tapioca.
pub const SORBET_TAPIOCA_PATTERN: &'static str = r"^# Please.*run.*`.*tapioca";

/// Sorbet RBI: five lines or more, `# typed:` first, a do-not-edit note on
/// the third line and a tapioca note on the fifth.
pub open spec fn is_sorbet_rbi_spec(b: Seq<u8>) -> bool {
    spec_lines(b).len() >= 5 && pattern_matches(SORBET_TYPED_PATTERN@, decode_utf8(spec_lines(b)[0]))
        && contains_bytes(spec_lines(b)[2], "DO NOT EDIT MANUALLY".spec_bytes())
        && pattern_matches(SORBET_TAPIOCA_PATTERN@, decode_utf8(spec_lines(b)[4]))
}

pub fn is_sorbet_rbi(content: &str) -> (r: bool)
    ensures
        r == is_sorbet_rbi_spec(content.spec_bytes()),
{
    let ls = lines(content);
    if ls.len() < 5 {
        return false;
    }
    proof {
        assert(byte_views(ls@)[0] == ls@[0].spec_bytes());
        assert(byte_views(ls@)[2] == ls@[2].spec_bytes());
        assert(byte_views(ls@)[4] == ls@[4].spec_bytes());
        lemma_view_is_decoded(ls@[0]);
        lemma_view_is_decoded(ls@[4]);
    }
    pattern_is_match(SORBET_TYPED_PATTERN, ls[0]) && contains(ls[2], "DO NOT EDIT MANUALLY")
        && pattern_is_match(SORBET_TAPIOCA_PATTERN, ls[4])
}

/// Total number of occurrences of the patterns in a line.
pub open spec fn sum_counts(l: Seq<u8>, pats: Seq<&str>) -> nat
    decreases pats.len(),
{
    if pats.len() == 0 {
        0
    } else {
        count_from(l, pats[0].spec_bytes(), 0) + sum_counts(l, pats.drop_first())
    }
}

proof fn lemma_sum_counts_bound(l: Seq<u8>, pats: Seq<&str>)
    ensures
        sum_counts(l, pats) <= pats.len() * l.len(),
    decreases pats.len(),
{
    if pats.len() > 0 {
        lemma_sum_counts_bound(l, pats.drop_first());
        lemma_count_bound(l, pats[0].spec_bytes());
        assert(pats.len() * l.len() == l.len() + (pats.len() - 1) * l.len()) by (nonlinear_arith);
    }
}

/// Total number of (non-overlapping) occurrences of the patterns in `line`.
fn count_matches(line: &str, patterns: &[&str]) -> (r: u128)
    requires
        forall|k: int| 0 <= k < patterns@.len() ==> (#[trigger] patterns@[k]).spec_bytes().len() > 0,
    ensures
        r == sum_counts(line.spec_bytes(), patterns@),
{
    let n = patterns.len();
    let len = crate::text::byte_len(line);
    let mut acc: u128 = 0;
    let mut i: usize = 0;
    assert(patterns@.skip(0) =~= patterns@);
    while i < n
        invariant
            i <= n,
            n == patterns@.len(),
            len == line.spec_bytes().len(),
            forall|k: int| 0 <= k < patterns@.len() ==> (#[trigger] patterns@[k]).spec_bytes().len() > 0,
            acc + sum_counts(line.spec_bytes(), patterns@.skip(i as int)) == sum_counts(line.spec_bytes(), patterns@),
            acc <= i * len,
        decreases n - i,
    {
        let pat = patterns[i];
        assert(patterns@.skip(i as int).drop_first() =~= patterns@.skip(i + 1));
        assert(patterns@.skip(i as int)[0] == pat);
        let c = count_occurrences(line, pat);
        proof {
            lemma_count_bound(line.spec_bytes(), pat.spec_bytes());
            assert(i * len <= usize::MAX * usize::MAX) by (nonlinear_arith)
                requires i <= usize::MAX, len <= usize::MAX;
            assert((i + 1) * len == i * len + len) by (nonlinear_arith);
        }
        acc = acc + c as u128;
        i = i + 1;
    }
    assert(patterns@.skip(i as int) =~= Seq::<&str>::empty());
    acc
}

/// The temporaries CoffeeScript's compiler introduces.
pub open spec fn light_patterns() -> Seq<&'static str> {
    seq!["_fn", "_i", "_len", "_ref", "_results"]
}

/// The helpers CoffeeScript's compiler introduces (weighing three times more).
pub open spec fn heavy_patterns() -> Seq<&'static str> {
    seq!["__bind", "__extends", "__hasProp", "__indexOf", "__slice"]
}

/// The CoffeeScript score of one line.
pub open spec fn line_score(l: Seq<u8>) -> nat {
    sum_counts(l, light_patterns()) + 3 * sum_counts(l, heavy_patterns())
}

/// The CoffeeScript score of some lines.
pub open spec fn coffee_score(ls: Seq<Seq<u8>>) -> nat
    decreases ls.len(),
{
    if ls.len() == 0 {
        0
    } else {
        line_score(ls[0]) + coffee_score(ls.drop_first())
    }
}

/// The comment CoffeeScript > 1.2 puts on the first line.
pub const COFFEESCRIPT_PATTERN: &'static str = r"^// Generated by ";

/// Compiled CoffeeScript: a generated-by comment first, or a wrapping IIFE
/// with a score of at least 3 from the compiler's temporaries and helpers.
pub open spec fn is_compiled_coffeescript_spec(b: Seq<u8>) -> bool {
    pattern_matches(COFFEESCRIPT_PATTERN@, decode_utf8(first_line(b))) || (first_line(b)
        == "(function() {".spec_bytes() && last_non_empty_line_spec(b) == "}).call(this);".spec_bytes()
        && coffee_score(spec_lines(b)) >= 3)
}

fn is_compiled_coffeescript(content: &str) -> (r: bool)
    ensures
        r == is_compiled_coffeescript_spec(content.spec_bytes()),
{
    let ls = lines(content);
    let ghost l = spec_lines(content.spec_bytes());
    let first = if ls.len() > 0 {
        assert(byte_views(ls@)[0] == ls@[0].spec_bytes());
        ls[0]
    } else {
        crate::text::empty_of(content)
    };
    proof {
        lemma_view_is_decoded(first);
    }
    if pattern_is_match(COFFEESCRIPT_PATTERN, first) {
        return true;
    }
    let last = last_non_empty_line(content);
    proof {
        lemma_view_is_decoded(last);
        crate::text::lemma_view_is_decoded("(function() {");
        crate::text::lemma_view_is_decoded("}).call(this);");
    }
    if !(crate::text::str_eq(first, "(function() {") && crate::text::str_eq(last, "}).call(this);")) {
        proof {
            if first.spec_bytes() == "(function() {".spec_bytes() {
                crate::text::lemma_same_bytes_same_view(first, "(function() {");
            }
            if last.spec_bytes() == "}).call(this);".spec_bytes() {
                crate::text::lemma_same_bytes_same_view(last, "}).call(this);");
            }
        }
        return false;
    }
    proof {
        assert(first_line(content.spec_bytes()) == first.spec_bytes());
    }
    coffee_score_reaches_three(&ls)
}

/// Whether the CoffeeScript score of the lines reaches 3.
fn coffee_score_reaches_three(ls: &Vec<&str>) -> (r: bool)
    ensures
        r == (coffee_score(byte_views(ls@)) >= 3),
{
    let ghost l = byte_views(ls@);
    let light: [&str; 5] = ["_fn", "_i", "_len", "_ref", "_results"];
    let heavy: [&str; 5] = ["__bind", "__extends", "__hasProp", "__indexOf", "__slice"];
    proof {
        reveal_strlit("_fn");
        reveal_strlit("_i");
        reveal_strlit("_len");
        reveal_strlit("_ref");
        reveal_strlit("_results");
        reveal_strlit("__bind");
        reveal_strlit("__extends");
        reveal_strlit("__hasProp");
        reveal_strlit("__indexOf");
        reveal_strlit("__slice");
        assert(light@ =~= light_patterns());
        assert(heavy@ =~= heavy_patterns());
        assert forall|k: int| 0 <= k < 5 implies (#[trigger] light@[k]).spec_bytes().len() > 0 by {
            crate::text::lemma_nonempty_bytes(light@[k]);
        }
        assert forall|k: int| 0 <= k < 5 implies (#[trigger] heavy@[k]).spec_bytes().len() > 0 by {
            crate::text::lemma_nonempty_bytes(heavy@[k]);
        }
    }
    let mut score: u128 = 0;
    let mut i: usize = 0;
    assert(l.skip(0) =~= l);
    while i < ls.len()
        invariant
            i <= ls@.len(),
            byte_views(ls@) == l,
            light@ == light_patterns(),
            heavy@ == heavy_patterns(),
            forall|k: int| 0 <= k < 5 ==> (#[trigger] light@[k]).spec_bytes().len() > 0,
            forall|k: int| 0 <= k < 5 ==> (#[trigger] heavy@[k]).spec_bytes().len() > 0,
            score < 3,
            score + coffee_score(l.skip(i as int)) == coffee_score(l),
        decreases ls@.len() - i,
    {
        let line = ls[i];
        assert(l.skip(i as int).drop_first() =~= l.skip(i + 1));
        assert(l.skip(i as int)[0] == line.spec_bytes());
        let line_len = crate::text::byte_len(line);
        let a = count_matches(line, &light);
        let c = count_matches(line, &heavy);
        proof {
            lemma_sum_counts_bound(line.spec_bytes(), light@);
            lemma_sum_counts_bound(line.spec_bytes(), heavy@);
        }
        assert(coffee_score(l.skip(i as int)) == line_score(line.spec_bytes()) + coffee_score(l.skip(i + 1)));
        assert(line_score(line.spec_bytes()) == a + 3 * c);
        score = score + a + 3 * c;
        if score >= 3 {
            return true;
        }
        i = i + 1;
    }
    assert(l.skip(i as int) =~= Seq::<Seq<u8>>::empty());
    false
}

/// The characters of some lines joined without separator.
pub open spec fn join_decoded(ls: Seq<Seq<u8>>) -> Seq<char>
    decreases ls.len(),
{
    if ls.len() == 0 {
        seq![]
    } else {
        join_decoded(ls.drop_last()) + decode_utf8(ls.last())
    }
}

/// The first `n` lines (all of them where there are fewer).
pub open spec fn first_lines(l: Seq<Seq<u8>>, n: int) -> Seq<Seq<u8>> {
    if l.len() <= n {
        l
    } else {
        l.take(n)
    }
}

/// The comment a PEG.js parser starts with.
pub const PEG_JS_PATTERN: &'static str = r"^(?:[^/]|/[^\*])*/\*(?:[^\*]|\*[^/])*Generated by PEG.js";

/// A PEG.js parser: its first five lines, joined, open with PEG.js's comment.
pub open spec fn is_generated_peg_js_parser_spec(b: Seq<u8>) -> bool {
    pattern_matches(PEG_JS_PATTERN@, join_decoded(first_lines(spec_lines(b), 5)))
}

fn is_generated_peg_js_parser(content: &str) -> (r: bool)
    ensures
        r == is_generated_peg_js_parser_spec(content.spec_bytes()),
{
    let ls = lines(content);
    let ghost l = spec_lines(content.spec_bytes());
    let mut joined = String::new();
    let mut k: usize = 0;
    while k < 5 && k < ls.len()
        invariant
            k <= ls@.len(),
            k <= 5,
            byte_views(ls@) == l,
            l == spec_lines(content.spec_bytes()),
            joined@ == join_decoded(l.take(k as int)),
        decreases ls@.len() - k,
    {
        proof {
            lemma_view_is_decoded(ls@[k as int]);
            assert(l.take(k + 1).drop_last() =~= l.take(k as int));
            assert(l.take(k + 1).last() == ls@[k as int].spec_bytes());
        }
        joined.append(ls[k]);
        k = k + 1;
    }
    assert(l.take(k as int) =~= first_lines(l, 5));
    pattern_is_match(PEG_JS_PATTERN, joined.as_str())
}

/// An embedded font or eexec section of PostScript.
pub const POSTSCRIPT_PATTERN: &'static str = r"(\n|\r\n|\r)\s*(?:currentfile eexec\s+|/sfnts\s+\[)";

/// First pattern of a PostScript creator line naming a generator.
pub const POSTSCRIPT_CREATOR_PATTERN: &'static str = r"[0-9]|draw|mpage|ImageMagick|inkscape|MATLAB";

/// Second pattern of a PostScript creator line naming a generator.
pub const POSTSCRIPT_CREATOR_PATTERN_MORE: &'static str = r"PCBNEW|pnmtops|\(Unknown\)|Serif Affinity|Filterimage -tops";

/// Generated PostScript: an eexec or font section, or a first line
/// `%%Creator: ` naming EAGLE (with an EAGLE title among the first five
/// lines) or another generator.
pub open spec fn is_generated_postscript_spec(b: Seq<u8>) -> bool {
    let l = spec_lines(b);
    pattern_matches(POSTSCRIPT_PATTERN@, decode_utf8(b)) || (l.len() > 0 && starts_with_bytes(
        l[0],
        "%%Creator: ".spec_bytes(),
    ) && ((contains_bytes(l[0], "EAGLE".spec_bytes()) && exists|k: int|
        0 <= k < 5 && k < l.len() && starts_with_bytes(#[trigger] l[k], "%%Title: EAGLE Drawing ".spec_bytes()))
        || set_pattern_matches(
        seq![POSTSCRIPT_CREATOR_PATTERN@, POSTSCRIPT_CREATOR_PATTERN_MORE@],
        decode_utf8(l[0]),
    )))
}

/// One of the first five lines opens an EAGLE drawing title.
fn has_eagle_title(ls: &Vec<&str>) -> (r: bool)
    ensures
        r == exists|k: int|
            0 <= k < 5 && k < ls@.len() && starts_with_bytes(
                #[trigger] byte_views(ls@)[k],
                "%%Title: EAGLE Drawing ".spec_bytes(),
            ),
{
    let mut k: usize = 0;
    while k < 5 && k < ls.len()
        invariant
            forall|j: int|
                0 <= j < k ==> !starts_with_bytes(
                    #[trigger] byte_views(ls@)[j],
                    "%%Title: EAGLE Drawing ".spec_bytes(),
                ),
        decreases ls@.len() - k,
    {
        assert(byte_views(ls@)[k as int] == ls@[k as int].spec_bytes());
        if starts_with(ls[k], "%%Title: EAGLE Drawing ") {
            return true;
        }
        k = k + 1;
    }
    false
}

fn is_generated_postscript(content: &str) -> (r: bool)
    ensures
        r == is_generated_postscript_spec(content.spec_bytes()),
{
    proof {
        lemma_view_is_decoded(content);
    }
    if pattern_is_match(POSTSCRIPT_PATTERN, content) {
        return true;
    }
    let ls = lines(content);
    if ls.len() == 0 {
        return false;
    }
    let creator = ls[0];
    proof {
        assert(byte_views(ls@)[0] == creator.spec_bytes());
        lemma_view_is_decoded(creator);
    }
    if !starts_with(creator, "%%Creator: ") {
        return false;
    }
    if contains(creator, "EAGLE") && has_eagle_title(&ls) {
        true
    } else {
        let pats = two_patterns(POSTSCRIPT_CREATOR_PATTERN, POSTSCRIPT_CREATOR_PATTERN_MORE);
        patterns_are_match(&pats, creator)
    }
}

/// The comment pkgdown leaves in its pages.
pub const PKGDOWN_PATTERN: &'static str = r"<!-- Generated by pkgdown: do not edit by hand -->";

/// The comment mandoc leaves in its pages.
pub const MANDOC_PATTERN: &'static str = r"<!-- This is an automatically generated file.";

/// The comment Doxygen leaves in its pages.
pub const DOXYGEN_PATTERN: &'static str = r"(?i)<!--\s+Generated by Doxygen\s+[.0-9]+\s*-->";

/// An HTML `<meta ...>` tag.
pub const HTML_META_PATTERN: &'static str = r"(?i)<meta(\s+[^>]++)>";

/// An attribute `name`, `content` or `value` of a meta tag, with its value.
pub const HTML_META_ATTRIBUTE_PATTERN: &'static str = r#"(?i)\s+(name|content|value)\s*=\s*("[^"]+"|'[^']+'|[^\s"']+)"#;

/// Generators of HTML pages.
pub const HTML_GENERATOR_PATTERN: &'static str = r"(jlatex2html|latex2html|groff|makeinfo|texi2html|ronn|(org\s+mode))";

/// The captures of a pattern in `text`, none where the pattern does not compile.
pub open spec fn captures_or_none(pattern: Seq<char>, text: Seq<char>) -> Seq<Seq<Option<Seq<char>>>> {
    if regex_compiles(pattern) {
        regex_captures(pattern, text)
    } else {
        seq![]
    }
}

/// The value of the last attribute of the captures whose lowercase name is `key`.
pub open spec fn last_attr(caps: Seq<Seq<Option<Seq<char>>>>, key: Seq<char>) -> Option<Seq<char>>
    decreases caps.len(),
{
    if caps.len() == 0 {
        None
    } else {
        let c = caps.last();
        if c.len() > 2 && c[1] is Some && c[2] is Some && lowercase(c[1]->0) == key {
            Some(c[2]->0)
        } else {
            last_attr(caps.drop_last(), key)
        }
    }
}

/// The attributes of a meta tag.
pub open spec fn meta_attrs(meta: Seq<char>) -> Seq<Seq<Option<Seq<char>>>> {
    captures_or_none(HTML_META_ATTRIBUTE_PATTERN@, meta)
}

/// The attribute `key` of some attribute captures, lowercase (empty if absent).
pub open spec fn attr_lower(caps: Seq<Seq<Option<Seq<char>>>>, key: Seq<char>) -> Seq<char> {
    match last_attr(caps, key) {
        Some(v) => lowercase(v),
        None => seq![],
    }
}

/// For the attributes of a `<meta name="generator">` tag (its `name`
/// unquoted and lowercase), the generator it names: its `value`, or its
/// `content` where the value is empty, lowercase and unquoted; `None` for
/// other tags.
pub open spec fn generator_value(caps: Seq<Seq<Option<Seq<char>>>>) -> Option<Seq<char>> {
    let name = match last_attr(caps, "name"@) {
        Some(v) => lowercase(trim_quotes_spec(v)),
        None => seq![],
    };
    if name == "generator"@ {
        let value = attr_lower(caps, "value"@);
        let content = attr_lower(caps, "content"@);
        Some(trim_quotes_spec(if value.len() == 0 { content } else { value }))
    } else {
        None
    }
}

/// A `<meta name="generator">` tag naming a known HTML generator.
pub open spec fn meta_is_generator(meta: Seq<char>) -> bool {
    match generator_value(meta_attrs(meta)) {
        Some(v) => pattern_matches(HTML_GENERATOR_PATTERN@, v),
        None => false,
    }
}

/// Some meta tag among the captures of `HTML_META_PATTERN` names a known
/// HTML generator.
pub open spec fn any_generator_meta(metas: Seq<Seq<Option<Seq<char>>>>) -> bool {
    exists|k: int|
        0 <= k < metas.len() && (#[trigger] metas[k]).len() > 0 && metas[k][0] is Some
            && meta_is_generator(metas[k][0]->0)
}

/// Generated HTML: pkgdown or mandoc comments within the first 3 lines,
/// Doxygen's comment or a generator meta tag within the first 30.
pub open spec fn is_generated_html_spec(b: Seq<u8>) -> bool {
    let head = decode_utf8(b.take(lines_end(b, 3)));
    let page = decode_utf8(b.take(lines_end(b, 30)));
    let metas = captures_or_none(HTML_META_PATTERN@, page);
    pattern_matches(PKGDOWN_PATTERN@, head) || pattern_matches(MANDOC_PATTERN@, head)
        || pattern_matches(DOXYGEN_PATTERN@, page) || any_generator_meta(metas)
}

/// The value of the last attribute of `caps` (converted) named `key`.
pub fn last_attr_exec<'a>(caps: &'a Vec<Vec<Option<String>>>, key: &str) -> (r: Option<&'a String>)
    ensures
        match r {
            Some(v) => last_attr(captures_view(caps@), key@) == Some(v@),
            None => last_attr(captures_view(caps@), key@) is None,
        },
{
    let ghost cv = captures_view(caps@);
    let mut i = caps.len();
    assert(cv.take(i as int) =~= cv);
    while i > 0
        invariant
            i <= caps@.len(),
            cv == captures_view(caps@),
            last_attr(cv.take(i as int), key@) == last_attr(cv, key@),
        decreases i,
    {
        let c = &caps[i - 1];
        assert(cv.take(i as int).drop_last() =~= cv.take(i - 1));
        assert(cv.take(i as int).last() == cv[i - 1]);
        assert(cv[i - 1].len() == c@.len());
        if c.len() > 2 {
            assert(cv[i - 1][1] == match c@[1] { Some(x) => Some(x@), None => None });
            assert(cv[i - 1][2] == match c@[2] { Some(x) => Some(x@), None => None });
            match (&c[1], &c[2]) {
                (Some(k), Some(v)) => {
                    let lk = to_lowercase(k.as_str());
                    if crate::text::str_eq(lk.as_str(), key) {
                        return Some(v);
                    }
                },
                _ => {},
            }
        }
        i = i - 1;
    }
    None
}

/// The generator named by the attribute captures of a meta tag (see
/// `generator_value`).
pub fn generator_value_of(attrs: &Vec<Vec<Option<String>>>) -> (r: Option<String>)
    ensures
        crate::data::opt_string_view(r) == generator_value(captures_view(attrs@)),
{
    let name = match last_attr_exec(attrs, "name") {
        Some(v) => to_lowercase(trim_quotes(v.as_str())),
        None => String::new(),
    };
    if !crate::text::str_eq(name.as_str(), "generator") {
        return None;
    }
    let value = match last_attr_exec(attrs, "value") {
        Some(v) => to_lowercase(v.as_str()),
        None => String::new(),
    };
    let content = match last_attr_exec(attrs, "content") {
        Some(v) => to_lowercase(v.as_str()),
        None => String::new(),
    };
    let chosen = if value.as_str().unicode_len() == 0 {
        content.as_str()
    } else {
        value.as_str()
    };
    Some(String::from_str(trim_quotes(chosen)))
}

/// Whether a meta tag names a known HTML generator.
fn meta_is_generator_exec(meta: &str) -> (r: bool)
    ensures
        r == meta_is_generator(meta@),
{
    let attrs = match pattern_captures(HTML_META_ATTRIBUTE_PATTERN, meta) {
        Some(a) => a,
        None => Vec::new(),
    };
    assert(captures_view(attrs@) == meta_attrs(meta@));
    match generator_value_of(&attrs) {
        Some(v) => pattern_is_match(HTML_GENERATOR_PATTERN, v.as_str()),
        None => false,
    }
}

/// Whether some meta tag among captures of `HTML_META_PATTERN` that
/// `pattern_captures` gave names a known HTML generator.
pub fn has_generator_meta(metas: &Vec<Vec<Option<String>>>) -> (b: bool)
    ensures
        b == any_generator_meta(captures_view(metas@)),
{
    let ghost mv = captures_view(metas@);
    let mut k: usize = 0;
    while k < metas.len()
        invariant
            k <= metas@.len(),
            mv == captures_view(metas@),
            forall|j: int|
                0 <= j < k ==> !((#[trigger] mv[j]).len() > 0 && mv[j][0] is Some && meta_is_generator(
                    mv[j][0]->0,
                )),
        decreases metas@.len() - k,
    {
        let m = &metas[k];
        assert(mv[k as int].len() == m@.len());
        if m.len() > 0 {
            assert(mv[k as int][0] == match m@[0] { Some(x) => Some(x@), None => None });
            match &m[0] {
                Some(meta) => {
                    if meta_is_generator_exec(meta.as_str()) {
                        assert(mv[k as int][0]->0 == meta@);
                        assert(mv[k as int].len() > 0 && mv[k as int][0] is Some && meta_is_generator(
                            mv[k as int][0]->0,
                        ));
                        return true;
                    }
                },
                None => {},
            }
        }
        k = k + 1;
    }
    false
}

fn is_generated_html(content: &str) -> (r: bool)
    ensures
        r == is_generated_html_spec(content.spec_bytes()),
{
    let head = crate::text::take_n_lines(content, 3);
    proof {
        lemma_view_is_decoded(head);
    }
    if pattern_is_match(PKGDOWN_PATTERN, head) {
        return true;
    }
    if pattern_is_match(MANDOC_PATTERN, head) {
        return true;
    }
    let page = crate::text::take_n_lines(content, 30);
    proof {
        lemma_view_is_decoded(page);
    }
    if pattern_is_match(DOXYGEN_PATTERN, page) {
        return true;
    }
    let metas = match pattern_captures(HTML_META_PATTERN, page) {
        Some(m) => m,
        None => Vec::new(),
    };
    assert(captures_view(metas@) == captures_or_none(HTML_META_PATTERN@, page@));
    has_generator_meta(&metas)
}

/// ANTLR output: the second line names Xtest.
fn is_generated_antlr(content: &str) -> (r: bool)
    ensures
        r == line_contains_spec(content.spec_bytes(), 1, "generated by Xtest".spec_bytes()),
{
    line_contains(content, 1, "generated by Xtest")
}

/// Generated Go: one of the first 40 lines says "Code generated by".
pub fn is_generated_go(content: &str) -> (r: bool)
    ensures
        r == any_line_contains_spec(content.spec_bytes(), 40, "Code generated by".spec_bytes()),
{
    any_line_contains(content, 40, "Code generated by")
}

/// Generated protobuf: one of the first 20 lines says so.
fn is_generated_protobuf(content: &str) -> (r: bool)
    ensures
        r == any_line_contains_spec(
            content.spec_bytes(),
            20,
            "This file is automatically generated by".spec_bytes(),
        ),
{
    any_line_contains(content, 20, "This file is automatically generated by")
}

/// Cython output: the first line names Cython.
fn is_compiled_cython(content: &str) -> (r: bool)
    ensures
        r == any_line_contains_spec(content.spec_bytes(), 1, "Generated by Cython".spec_bytes()),
{
    any_line_contains(content, 1, "Generated by Cython")
}

/// Unity3D metadata: the first line gives the file format version.
pub fn is_generated_unity_3d_meta(content: &str) -> (r: bool)
    ensures
        r == any_line_contains_spec(content.spec_bytes(), 1, "fileFormatVersion: ".spec_bytes()),
{
    any_line_contains(content, 1, "fileFormatVersion: ")
}

/// A test on content that marks it as generated.
#[derive(Debug, Clone, Copy)]
pub enum ContentCheck {
    CompiledCython,
    Minified,
    SourceMapRef,
    CompiledCoffeeScript,
    PegJsParser,
    GeneratedGo,
    SourceMap,
    GeneratedProtobuf,
    NetDocfile,
    Postscript,
    ProtocGenerated,
    JniHeader,
    VcrCassette,
    Antlr,
    Unity3DMeta,
    Html,
    Dart,
    GameMakerStudio,
    Gimp,
    SorbetRbi,
    Jison,
    /// Line `.0` contains `.1`.
    LineContains(usize, &'static str),
    /// One of the first `.0` lines contains `.1`.
    AnyLineContains(usize, &'static str),
}

/// Whether `check` holds of content with bytes `b`.
pub open spec fn check_spec(check: ContentCheck, b: Seq<u8>) -> bool {
    match check {
        ContentCheck::CompiledCython => any_line_contains_spec(b, 1, "Generated by Cython".spec_bytes()),
        ContentCheck::Minified => is_minified_spec(b),
        ContentCheck::SourceMapRef => has_source_map_ref_spec(b),
        ContentCheck::CompiledCoffeeScript => is_compiled_coffeescript_spec(b),
        ContentCheck::PegJsParser => is_generated_peg_js_parser_spec(b),
        ContentCheck::GeneratedGo => any_line_contains_spec(b, 40, "Code generated by".spec_bytes()),
        ContentCheck::SourceMap => is_source_map_spec(b),
        ContentCheck::GeneratedProtobuf => any_line_contains_spec(
            b,
            20,
            "This file is automatically generated by".spec_bytes(),
        ),
        ContentCheck::NetDocfile => is_generated_net_docfile_spec(b),
        ContentCheck::Postscript => is_generated_postscript_spec(b),
        ContentCheck::ProtocGenerated => is_protoc_generated_spec(b),
        ContentCheck::JniHeader => is_generated_jni_header_spec(b),
        ContentCheck::VcrCassette => is_vcr_cassette_spec(b),
        ContentCheck::Antlr => line_contains_spec(b, 1, "generated by Xtest".spec_bytes()),
        ContentCheck::Unity3DMeta => any_line_contains_spec(b, 1, "fileFormatVersion: ".spec_bytes()),
        ContentCheck::Html => is_generated_html_spec(b),
        ContentCheck::Dart => is_generated_dart_spec(b),
        ContentCheck::GameMakerStudio => is_generated_gamemakerstudio_spec(b),
        ContentCheck::Gimp => is_generated_gimp_spec(b),
        ContentCheck::SorbetRbi => is_sorbet_rbi_spec(b),
        ContentCheck::Jison => line_contains_spec(b, 0, "/* parser generated by jison ".spec_bytes())
            || line_contains_spec(b, 0, "/* generated by jison-lex ".spec_bytes()),
        ContentCheck::LineContains(i, p) => line_contains_spec(b, i as int, p.spec_bytes()),
        ContentCheck::AnyLineContains(n, p) => any_line_contains_spec(b, n as int, p.spec_bytes()),
    }
}

/// Runs a content check.
pub fn run_check(check: ContentCheck, content: &str) -> (r: bool)
    ensures
        r == check_spec(check, content.spec_bytes()),
{
    match check {
        ContentCheck::CompiledCython => is_compiled_cython(content),
        ContentCheck::Minified => is_minified(content),
        ContentCheck::SourceMapRef => has_source_map_ref(content),
        ContentCheck::CompiledCoffeeScript => is_compiled_coffeescript(content),
        ContentCheck::PegJsParser => is_generated_peg_js_parser(content),
        ContentCheck::GeneratedGo => is_generated_go(content),
        ContentCheck::SourceMap => is_source_map(content),
        ContentCheck::GeneratedProtobuf => is_generated_protobuf(content),
        ContentCheck::NetDocfile => is_generated_net_docfile(content),
        ContentCheck::Postscript => is_generated_postscript(content),
        ContentCheck::ProtocGenerated => is_protoc_generated(content),
        ContentCheck::JniHeader => is_generated_jni_header(content),
        ContentCheck::VcrCassette => is_vcr_cassette(content),
        ContentCheck::Antlr => is_generated_antlr(content),
        ContentCheck::Unity3DMeta => is_generated_unity_3d_meta(content),
        ContentCheck::Html => is_generated_html(content),
        ContentCheck::Dart => is_generated_dart(content),
        ContentCheck::GameMakerStudio => is_generated_gamemakerstudio(content),
        ContentCheck::Gimp => is_generated_gimp(content),
        ContentCheck::SorbetRbi => is_sorbet_rbi(content),
        ContentCheck::Jison => line_contains(content, 0, "/* parser generated by jison ")
            || line_contains(content, 0, "/* generated by jison-lex "),
        ContentCheck::LineContains(i, p) => line_contains(content, i, p),
        ContentCheck::AnyLineContains(n, p) => any_line_contains(content, n, p),
    }
}

/// A content rule for some extensions.
pub struct ContentRuleGroup {
    pub extensions: Vec<&'static str>,
    pub reason: ContentReason,
    pub check: ContentCheck,
}

/// One content rule: for files with extension `ext`, `check` marks them as
/// generated for `reason`.
#[derive(Debug, Clone, Copy)]
pub struct ContentRule {
    pub ext: &'static str,
    pub reason: ContentReason,
    pub check: ContentCheck,
}

/// The abstract value of a content rule.
pub struct ContentRuleView {
    pub ext: Seq<char>,
    pub reason: ContentReason,
    pub check: ContentCheck,
}

/// The abstract value of a content rule group.
#[verifier::ext_equal]
pub struct RuleGroupView {
    pub extensions: Seq<&'static str>,
    pub reason: ContentReason,
    pub check: ContentCheck,
}

impl View for ContentRule {
    type V = ContentRuleView;

    open spec fn view(&self) -> ContentRuleView {
        ContentRuleView { ext: self.ext@, reason: self.reason, check: self.check }
    }
}

impl View for ContentRuleGroup {
    type V = RuleGroupView;

    open spec fn view(&self) -> RuleGroupView {
        RuleGroupView {
            extensions: self.extensions@,
            reason: self.reason,
            check: self.check,
        }
    }
}

/// The rules of a group, one per extension.
pub open spec fn group_rules(g: RuleGroupView) -> Seq<ContentRuleView> {
    g.extensions.map_values(|e: &'static str| ContentRuleView { ext: e@, reason: g.reason, check: g.check })
}

/// The rules of some groups, in order.
pub open spec fn flatten_groups(gs: Seq<RuleGroupView>) -> Seq<ContentRuleView>
    decreases gs.len(),
{
    if gs.len() == 0 {
        seq![]
    } else {
        flatten_groups(gs.drop_last()) + group_rules(gs.last())
    }
}

/// The reason of the first rule for `ext` whose check holds of `b`.
pub open spec fn first_content_reason(rules: Seq<ContentRuleView>, ext: Seq<char>, b: Seq<u8>) -> Option<ContentReason>
    decreases rules.len(),
{
    if rules.len() == 0 {
        None
    } else if rules[0].ext == ext && check_spec(rules[0].check, b) {
        Some(rules[0].reason)
    } else {
        first_content_reason(rules.drop_first(), ext, b)
    }
}

/// Content rules, in the order they are tried for an extension.
pub struct GeneratedContentRules {
    rules: Vec<ContentRule>,
}

impl View for GeneratedContentRules {
    type V = Seq<ContentRuleView>;

    closed spec fn view(&self) -> Seq<ContentRuleView> {
        self.rules@.map_values(|r: ContentRule| r@)
    }
}

impl GeneratedContentRules {
    /// One rule per extension of each group, in order.
    pub fn new(groups: &Vec<ContentRuleGroup>) -> (r: GeneratedContentRules)
        ensures
            r@ == flatten_groups(groups@.map_values(|g: ContentRuleGroup| g@)),
    {
        let ghost gv = groups@.map_values(|g: ContentRuleGroup| g@);
        let mut rules: Vec<ContentRule> = Vec::new();
        let mut i: usize = 0;
        while i < groups.len()
            invariant
                i <= groups@.len(),
                gv == groups@.map_values(|g: ContentRuleGroup| g@),
                rules@.map_values(|r: ContentRule| r@) == flatten_groups(gv.take(i as int)),
            decreases groups@.len() - i,
        {
            let g = &groups[i];
            let ghost base = rules@.map_values(|r: ContentRule| r@);
            let mut j: usize = 0;
            while j < g.extensions.len()
                invariant
                    j <= g.extensions@.len(),
                    g@ == gv[i as int],
                    rules@.map_values(|r: ContentRule| r@) == base + group_rules(g@).take(j as int),
                decreases g.extensions@.len() - j,
            {
                let ghost before = rules@;
                let rule = ContentRule { ext: g.extensions[j], reason: g.reason, check: g.check };
                rules.push(rule);
                assert(rules@.map_values(|r: ContentRule| r@) =~= before.map_values(|r: ContentRule| r@).push(rule@));
                assert(group_rules(g@).take(j + 1) =~= group_rules(g@).take(j as int).push(group_rules(g@)[j as int]));
                assert(group_rules(g@)[j as int] == rule@);
                assert(rules@.map_values(|r: ContentRule| r@) =~= base + group_rules(g@).take(j + 1));
                j = j + 1;
            }
            assert(group_rules(g@).take(j as int) =~= group_rules(g@));
            assert(gv.take(i + 1).drop_last() =~= gv.take(i as int));
            i = i + 1;
        }
        assert(gv.take(i as int) =~= gv);
        GeneratedContentRules { rules }
    }

    /// The reason of the first rule for `ext` whose check holds of `content`.
    pub fn is_generated(&self, ext: &str, content: &str) -> (r: Option<ContentReason>)
        ensures
            r == first_content_reason(self@, ext@, content.spec_bytes()),
    {
        let ghost rv = self@;
        let mut i: usize = 0;
        assert(rv.skip(0) =~= rv);
        while i < self.rules.len()
            invariant
                i <= self.rules@.len(),
                rv == self.rules@.map_values(|r: ContentRule| r@),
                first_content_reason(rv.skip(i as int), ext@, content.spec_bytes()) == first_content_reason(rv, ext@, content.spec_bytes()),
            decreases self.rules@.len() - i,
        {
            let rule = &self.rules[i];
            assert(rv.skip(i as int).drop_first() =~= rv.skip(i + 1));
            assert(rv.skip(i as int)[0] == rule@);
            if crate::text::str_eq(rule.ext, ext) && run_check(rule.check, content) {
                return Some(rule.reason);
            }
            i = i + 1;
        }
        assert(rv.skip(i as int) =~= Seq::<ContentRuleView>::empty());
        None
    }
}

/// The abstract value of path rules: patterns and the reason of each.
pub struct PathRulesView {
    pub patterns: Seq<Seq<char>>,
    pub reasons: Seq<FilePathReason>,
}

/// Path patterns with a reason each, compiled as one set.
pub struct GeneratedPathRules {
    regexes: CompiledSet,
    reasons: Vec<FilePathReason>,
}

impl View for GeneratedPathRules {
    type V = PathRulesView;

    closed spec fn view(&self) -> PathRulesView {
        PathRulesView { patterns: self.regexes@.0, reasons: self.reasons@ }
    }
}

impl GeneratedPathRules {
    /// One reason per pattern.
    #[verifier::type_invariant]
    spec fn wf(&self) -> bool {
        self.regexes@.0.len() == self.reasons@.len() && !self.regexes@.1
    }

    /// The reason of the first rule (by position) whose pattern matches `path`.
    pub closed spec fn reason_for(self, path: Seq<char>) -> Option<FilePathReason> {
        let m = regex_set_matching(self@.patterns, false, path);
        if m.len() > 0 {
            Some(self@.reasons[m[0] as int])
        } else {
            None
        }
    }

    /// Compiles the patterns of `rules` as one set; `None` where the `regex`
    /// crate rejects them.
    pub fn new(rules: &Vec<(&'static str, FilePathReason)>) -> (r: Option<GeneratedPathRules>)
        ensures
            r is Some <==> regex_set_compiles(rules@.map_values(|x: (&'static str, FilePathReason)| x.0@), false),
            r matches Some(g) ==> g@ == (PathRulesView {
                patterns: rules@.map_values(|x: (&'static str, FilePathReason)| x.0@),
                reasons: rules@.map_values(|x: (&'static str, FilePathReason)| x.1),
            }),
    {
        let ghost pv = rules@.map_values(|x: (&'static str, FilePathReason)| x.0@);
        let ghost rv = rules@.map_values(|x: (&'static str, FilePathReason)| x.1);
        let mut patterns: Vec<String> = Vec::new();
        let mut reasons: Vec<FilePathReason> = Vec::new();
        let mut i: usize = 0;
        while i < rules.len()
            invariant
                i <= rules@.len(),
                pv == rules@.map_values(|x: (&'static str, FilePathReason)| x.0@),
                rv == rules@.map_values(|x: (&'static str, FilePathReason)| x.1),
                string_views(patterns@) == pv.take(i as int),
                reasons@ == rv.take(i as int),
            decreases rules@.len() - i,
        {
            let (p, reason) = rules[i];
            let ghost before = patterns@;
            let ps = String::from_str(p);
            patterns.push(ps);
            reasons.push(reason);
            assert(string_views(patterns@) =~= string_views(before).push(ps@));
            assert(pv.take(i + 1) =~= pv.take(i as int).push(pv[i as int]));
            assert(string_views(patterns@) =~= pv.take(i + 1));
            assert(reasons@ =~= rv.take(i + 1));
            i = i + 1;
        }
        assert(pv.take(i as int) =~= pv);
        assert(rv.take(i as int) =~= rv);
        match compile_set(&patterns, false) {
            Some(regexes) => Some(GeneratedPathRules { regexes, reasons }),
            None => None,
        }
    }

    /// The reason of the first rule whose pattern matches `path`.
    pub fn is_generated(&self, path: &str) -> (r: Option<FilePathReason>)
        ensures
            r == self.reason_for(path@),
    {
        proof {
            use_type_invariant(self);
        }
        let m = set_matches(&self.regexes, path);
        if m.len() > 0 {
            Some(self.reasons[m[0]])
        } else {
            None
        }
    }
}

/// The content rules for generated files, in the order they are tried.
pub open spec fn generated_content_groups() -> Seq<RuleGroupView> {
    seq![
        RuleGroupView {
            extensions: seq!["c", "cpp"],
            reason: ContentReason::CompiledCython,
            check: ContentCheck::CompiledCython,
        },
        RuleGroupView {
            extensions: seq!["css", "js"],
            reason: ContentReason::MinifiedJsOrCss,
            check: ContentCheck::Minified,
        },
        RuleGroupView {
            extensions: seq!["css", "js"],
            reason: ContentReason::HasSourceMapRef,
            check: ContentCheck::SourceMapRef,
        },
        RuleGroupView {
            extensions: seq!["js"],
            reason: ContentReason::CompiledCoffeeScript,
            check: ContentCheck::CompiledCoffeeScript,
        },
        RuleGroupView {
            extensions: seq!["js"],
            reason: ContentReason::GeneratedPegJsParser,
            check: ContentCheck::PegJsParser,
        },
        RuleGroupView {
            extensions: seq!["go"],
            reason: ContentReason::GeneratedGo,
            check: ContentCheck::GeneratedGo,
        },
        RuleGroupView {
            extensions: seq!["map"],
            reason: ContentReason::SourceMap,
            check: ContentCheck::SourceMap,
        },
        RuleGroupView {
            extensions: seq!["proto"],
            reason: ContentReason::GeneratedProtobuf,
            check: ContentCheck::GeneratedProtobuf,
        },
        RuleGroupView {
            extensions: seq!["xml"],
            reason: ContentReason::GeneratedNetDocfile,
            check: ContentCheck::NetDocfile,
        },
        RuleGroupView {
            extensions: seq!["ps", "eps", "pfa"],
            reason: ContentReason::GeneratedPostscript,
            check: ContentCheck::Postscript,
        },
        RuleGroupView {
            extensions: seq!["py", "java", "h", "cc", "cpp", "m", "rb", "php", "go", "cs", "js", "ts", "m", "kt", "kts", "dart", "swift", "rs", "thrift", "sol"],
            reason: ContentReason::GeneratedByProtobufCompiler,
            check: ContentCheck::ProtocGenerated,
        },
        RuleGroupView {
            extensions: seq!["js"],
            reason: ContentReason::GeneratedByProtobufCompiler,
            check: ContentCheck::LineContains(5, "GENERATED CODE -- DO NOT EDIT!"),
        },
        RuleGroupView {
            extensions: seq!["rb", "py", "go", "js", "m", "java", "h", "cc", "cpp", "php"],
            reason: ContentReason::GeneratedByThrift,
            check: ContentCheck::AnyLineContains(6, "Autogenerated by Thrift Compiler"),
        },
        RuleGroupView {
            extensions: seq!["h"],
            reason: ContentReason::GeneratedByJavah,
            check: ContentCheck::JniHeader,
        },
        RuleGroupView {
            extensions: seq!["yml"],
            reason: ContentReason::VCRCassette,
            check: ContentCheck::VcrCassette,
        },
        RuleGroupView {
            extensions: seq!["g"],
            reason: ContentReason::GeneratedAntlr,
            check: ContentCheck::Antlr,
        },
        RuleGroupView {
            extensions: seq!["mod"],
            reason: ContentReason::KiCAD,
            check: ContentCheck::LineContains(0, "PCBNEW-LibModule-V"),
        },
        RuleGroupView {
            extensions: seq!["mod"],
            reason: ContentReason::GFortran,
            check: ContentCheck::LineContains(0, "GFORTRAN module version '"),
        },
        RuleGroupView {
            extensions: seq!["meta"],
            reason: ContentReason::Unity3DMetadata,
            check: ContentCheck::Unity3DMeta,
        },
        RuleGroupView {
            extensions: seq!["rb"],
            reason: ContentReason::GeneratedByRacc,
            check: ContentCheck::LineContains(2, "# This file is automatically generated by Racc"),
        },
        RuleGroupView {
            extensions: seq!["java"],
            reason: ContentReason::GeneratedByJFlex,
            check: ContentCheck::LineContains(0, "/* The following code was generated by JFlex "),
        },
        RuleGroupView {
            extensions: seq!["java"],
            reason: ContentReason::GeneratedByGrammarKit,
            check: ContentCheck::LineContains(0, "// This is a generated file. Not intended for manual editing."),
        },
        RuleGroupView {
            extensions: seq!["rd"],
            reason: ContentReason::GeneratedByRoxygen2,
            check: ContentCheck::LineContains(0, "% Generated by roxygen2: do not edit by hand"),
        },
        RuleGroupView {
            extensions: seq!["html", "htm", "xhtml"],
            reason: ContentReason::GeneratedHTML,
            check: ContentCheck::Html,
        },
        RuleGroupView {
            extensions: seq!["js"],
            reason: ContentReason::GeneratedByJison,
            check: ContentCheck::Jison,
        },
        RuleGroupView {
            extensions: seq!["cpp", "hpp", "h", "cc"],
            reason: ContentReason::GeneratedByGRPC,
            check: ContentCheck::LineContains(0, "// Generated by the gRPC"),
        },
        RuleGroupView {
            extensions: seq!["dart"],
            reason: ContentReason::GeneratedDart,
            check: ContentCheck::Dart,
        },
        RuleGroupView {
            extensions: seq!["h"],
            reason: ContentReason::GeneratedPPPort,
            check: ContentCheck::LineContains(8, "Automatically created by Devel::PPPort"),
        },
        RuleGroupView {
            extensions: seq!["yy", "yyp"],
            reason: ContentReason::GeneratedGameMakerStudio,
            check: ContentCheck::GameMakerStudio,
        },
        RuleGroupView {
            extensions: seq!["c", "h"],
            reason: ContentReason::GeneratedGIMPCImage,
            check: ContentCheck::Gimp,
        },
        RuleGroupView {
            extensions: seq!["dsp"],
            reason: ContentReason::GeneratedMicrosoftVS6BuildFile,
            check: ContentCheck::AnyLineContains(3, "# Microsoft Developer Studio Generated Build File"),
        },
        RuleGroupView {
            extensions: seq!["js", "py", "lua", "cpp", "h", "java", "cs", "php"],
            reason: ContentReason::GeneratedByHaxe,
            check: ContentCheck::AnyLineContains(3, "Generated by Haxe"),
        },
        RuleGroupView {
            extensions: seq!["java"],
            reason: ContentReason::GeneratedByJOOQ,
            check: ContentCheck::AnyLineContains(2, "This file is generated by jOOQ."),
        },
        RuleGroupView {
            extensions: seq!["rbi"],
            reason: ContentReason::SorbetRBI,
            check: ContentCheck::SorbetRbi,
        },
    ]
}

/// The content rules for generated files.
pub fn generated_content_groups_exec() -> (r: Vec<ContentRuleGroup>)
    ensures
        r@.map_values(|g: ContentRuleGroup| g@) == generated_content_groups(),
{
    let r = vec![
        ContentRuleGroup {
            extensions: vec!["c", "cpp"],
            reason: ContentReason::CompiledCython,
            check: ContentCheck::CompiledCython,
        },
        ContentRuleGroup {
            extensions: vec!["css", "js"],
            reason: ContentReason::MinifiedJsOrCss,
            check: ContentCheck::Minified,
        },
        ContentRuleGroup {
            extensions: vec!["css", "js"],
            reason: ContentReason::HasSourceMapRef,
            check: ContentCheck::SourceMapRef,
        },
        ContentRuleGroup {
            extensions: vec!["js"],
            reason: ContentReason::CompiledCoffeeScript,
            check: ContentCheck::CompiledCoffeeScript,
        },
        ContentRuleGroup {
            extensions: vec!["js"],
            reason: ContentReason::GeneratedPegJsParser,
            check: ContentCheck::PegJsParser,
        },
        ContentRuleGroup {
            extensions: vec!["go"],
            reason: ContentReason::GeneratedGo,
            check: ContentCheck::GeneratedGo,
        },
        ContentRuleGroup {
            extensions: vec!["map"],
            reason: ContentReason::SourceMap,
            check: ContentCheck::SourceMap,
        },
        ContentRuleGroup {
            extensions: vec!["proto"],
            reason: ContentReason::GeneratedProtobuf,
            check: ContentCheck::GeneratedProtobuf,
        },
        ContentRuleGroup {
            extensions: vec!["xml"],
            reason: ContentReason::GeneratedNetDocfile,
            check: ContentCheck::NetDocfile,
        },
        ContentRuleGroup {
            extensions: vec!["ps", "eps", "pfa"],
            reason: ContentReason::GeneratedPostscript,
            check: ContentCheck::Postscript,
        },
        ContentRuleGroup {
            extensions: vec!["py", "java", "h", "cc", "cpp", "m", "rb", "php", "go", "cs", "js", "ts", "m", "kt", "kts", "dart", "swift", "rs", "thrift", "sol"],
            reason: ContentReason::GeneratedByProtobufCompiler,
            check: ContentCheck::ProtocGenerated,
        },
        ContentRuleGroup {
            extensions: vec!["js"],
            reason: ContentReason::GeneratedByProtobufCompiler,
            check: ContentCheck::LineContains(5, "GENERATED CODE -- DO NOT EDIT!"),
        },
        ContentRuleGroup {
            extensions: vec!["rb", "py", "go", "js", "m", "java", "h", "cc", "cpp", "php"],
            reason: ContentReason::GeneratedByThrift,
            check: ContentCheck::AnyLineContains(6, "Autogenerated by Thrift Compiler"),
        },
        ContentRuleGroup {
            extensions: vec!["h"],
            reason: ContentReason::GeneratedByJavah,
            check: ContentCheck::JniHeader,
        },
        ContentRuleGroup {
            extensions: vec!["yml"],
            reason: ContentReason::VCRCassette,
            check: ContentCheck::VcrCassette,
        },
        ContentRuleGroup {
            extensions: vec!["g"],
            reason: ContentReason::GeneratedAntlr,
            check: ContentCheck::Antlr,
        },
        ContentRuleGroup {
            extensions: vec!["mod"],
            reason: ContentReason::KiCAD,
            check: ContentCheck::LineContains(0, "PCBNEW-LibModule-V"),
        },
        ContentRuleGroup {
            extensions: vec!["mod"],
            reason: ContentReason::GFortran,
            check: ContentCheck::LineContains(0, "GFORTRAN module version '"),
        },
        ContentRuleGroup {
            extensions: vec!["meta"],
            reason: ContentReason::Unity3DMetadata,
            check: ContentCheck::Unity3DMeta,
        },
        ContentRuleGroup {
            extensions: vec!["rb"],
            reason: ContentReason::GeneratedByRacc,
            check: ContentCheck::LineContains(2, "# This file is automatically generated by Racc"),
        },
        ContentRuleGroup {
            extensions: vec!["java"],
            reason: ContentReason::GeneratedByJFlex,
            check: ContentCheck::LineContains(0, "/* The following code was generated by JFlex "),
        },
        ContentRuleGroup {
            extensions: vec!["java"],
            reason: ContentReason::GeneratedByGrammarKit,
            check: ContentCheck::LineContains(0, "// This is a generated file. Not intended for manual editing."),
        },
        ContentRuleGroup {
            extensions: vec!["rd"],
            reason: ContentReason::GeneratedByRoxygen2,
            check: ContentCheck::LineContains(0, "% Generated by roxygen2: do not edit by hand"),
        },
        ContentRuleGroup {
            extensions: vec!["html", "htm", "xhtml"],
            reason: ContentReason::GeneratedHTML,
            check: ContentCheck::Html,
        },
        ContentRuleGroup {
            extensions: vec!["js"],
            reason: ContentReason::GeneratedByJison,
            check: ContentCheck::Jison,
        },
        ContentRuleGroup {
            extensions: vec!["cpp", "hpp", "h", "cc"],
            reason: ContentReason::GeneratedByGRPC,
            check: ContentCheck::LineContains(0, "// Generated by the gRPC"),
        },
        ContentRuleGroup {
            extensions: vec!["dart"],
            reason: ContentReason::GeneratedDart,
            check: ContentCheck::Dart,
        },
        ContentRuleGroup {
            extensions: vec!["h"],
            reason: ContentReason::GeneratedPPPort,
            check: ContentCheck::LineContains(8, "Automatically created by Devel::PPPort"),
        },
        ContentRuleGroup {
            extensions: vec!["yy", "yyp"],
            reason: ContentReason::GeneratedGameMakerStudio,
            check: ContentCheck::GameMakerStudio,
        },
        ContentRuleGroup {
            extensions: vec!["c", "h"],
            reason: ContentReason::GeneratedGIMPCImage,
            check: ContentCheck::Gimp,
        },
        ContentRuleGroup {
            extensions: vec!["dsp"],
            reason: ContentReason::GeneratedMicrosoftVS6BuildFile,
            check: ContentCheck::AnyLineContains(3, "# Microsoft Developer Studio Generated Build File"),
        },
        ContentRuleGroup {
            extensions: vec!["js", "py", "lua", "cpp", "h", "java", "cs", "php"],
            reason: ContentReason::GeneratedByHaxe,
            check: ContentCheck::AnyLineContains(3, "Generated by Haxe"),
        },
        ContentRuleGroup {
            extensions: vec!["java"],
            reason: ContentReason::GeneratedByJOOQ,
            check: ContentCheck::AnyLineContains(2, "This file is generated by jOOQ."),
        },
        ContentRuleGroup {
            extensions: vec!["rbi"],
            reason: ContentReason::SorbetRBI,
            check: ContentCheck::SorbetRbi,
        },
    ];
    assert(r@.map_values(|g: ContentRuleGroup| g@) =~~= generated_content_groups());
    r
}

/// The path rules for generated files, in order.
pub open spec fn generated_path_table() -> Seq<(&'static str, FilePathReason)> {
    seq![
        (r"\.(nib|xcworkspacedata|xcuserstate)$", FilePathReason::Xcode),
        (r"(?:^|/)\.idea/", FilePathReason::IntelliJ),
        (r"(^Pods|/Pods)/", FilePathReason::CocaPods),
        (r"(^|/)Carthage/Build/", FilePathReason::Carthage),
        (r"(?i)\.designer\.(cs|vb)$", FilePathReason::NetDesigner),
        (r"(?i)\.feature.cs$", FilePathReason::NetSpecflow),
        (r"node_modules/", FilePathReason::NodeModules),
        (r"vendor/([-0-9A-Za-z]+\.)+(com|edu|gov|in|me|net|org|fm|io)", FilePathReason::GoVendor),
        (r"(Gopkg|glide)\.lock$", FilePathReason::GoLock),
        (r"poetry\.lock$", FilePathReason::PoetryLock),
        (r"pdm\.lock$", FilePathReason::PdmLock),
        (r"(^|/)(\w+\.)?esy.lock$", FilePathReason::EsyLock),
        (r"npm-shrinkwrap\.json$", FilePathReason::NpmShrinkwrap),
        (r"package-lock\.json$", FilePathReason::NpmPackageLock),
        (r"(^|/)\.pnp\..*$", FilePathReason::YarnPnp),
        (r"Godeps/", FilePathReason::Godeps),
        (r"composer\.lock$", FilePathReason::ComposwerLock),
        (r".\.zep\.(?:c|h|php)$", FilePathReason::Zephir),
        (r"Cargo\.lock$", FilePathReason::CargoLock),
        (r"(^|/)flake\.lock$", FilePathReason::NixFlakesLock),
        (r"Pipfile\.lock$", FilePathReason::PipenvLock),
        (r"(?:^|/)\.terraform\.lock\.hcl$", FilePathReason::TerraformLock),
        (r"__generated__/", FilePathReason::RelayCompilerGraphQL),
        (r"(?i)_tlb\.pas$", FilePathReason::DelphiInterface),
        (r"\.(css|js)\.map$", FilePathReason::SourceMap),
    ]
}

/// The path rules for generated files.
pub fn generated_path_table_exec() -> (r: Vec<(&'static str, FilePathReason)>)
    ensures
        r@ == generated_path_table(),
{
    let r = vec![
        (r"\.(nib|xcworkspacedata|xcuserstate)$", FilePathReason::Xcode),
        (r"(?:^|/)\.idea/", FilePathReason::IntelliJ),
        (r"(^Pods|/Pods)/", FilePathReason::CocaPods),
        (r"(^|/)Carthage/Build/", FilePathReason::Carthage),
        (r"(?i)\.designer\.(cs|vb)$", FilePathReason::NetDesigner),
        (r"(?i)\.feature.cs$", FilePathReason::NetSpecflow),
        (r"node_modules/", FilePathReason::NodeModules),
        (r"vendor/([-0-9A-Za-z]+\.)+(com|edu|gov|in|me|net|org|fm|io)", FilePathReason::GoVendor),
        (r"(Gopkg|glide)\.lock$", FilePathReason::GoLock),
        (r"poetry\.lock$", FilePathReason::PoetryLock),
        (r"pdm\.lock$", FilePathReason::PdmLock),
        (r"(^|/)(\w+\.)?esy.lock$", FilePathReason::EsyLock),
        (r"npm-shrinkwrap\.json$", FilePathReason::NpmShrinkwrap),
        (r"package-lock\.json$", FilePathReason::NpmPackageLock),
        (r"(^|/)\.pnp\..*$", FilePathReason::YarnPnp),
        (r"Godeps/", FilePathReason::Godeps),
        (r"composer\.lock$", FilePathReason::ComposwerLock),
        (r".\.zep\.(?:c|h|php)$", FilePathReason::Zephir),
        (r"Cargo\.lock$", FilePathReason::CargoLock),
        (r"(^|/)flake\.lock$", FilePathReason::NixFlakesLock),
        (r"Pipfile\.lock$", FilePathReason::PipenvLock),
        (r"(?:^|/)\.terraform\.lock\.hcl$", FilePathReason::TerraformLock),
        (r"__generated__/", FilePathReason::RelayCompilerGraphQL),
        (r"(?i)_tlb\.pas$", FilePathReason::DelphiInterface),
        (r"\.(css|js)\.map$", FilePathReason::SourceMap),
    ];
    assert(r@ =~= generated_path_table());
    r
}

/// The reason of the first path rule (by position) whose pattern matches `path`.
pub open spec fn first_path_reason(rules: PathRulesView, path: Seq<char>) -> Option<FilePathReason> {
    let m = regex_set_matching(rules.patterns, false, path);
    if m.len() > 0 {
        Some(rules.reasons[m[0] as int])
    } else {
        None
    }
}

/// Why `path` and `content` are generated under the given rules: the first
/// matching path rule, else the first content rule for the path's lowercase
/// extension whose check holds.
pub open spec fn generated_reason(
    paths: PathRulesView,
    contents: Seq<ContentRuleView>,
    path: &str,
    content: &str,
) -> Option<Reason> {
    match first_path_reason(paths, path@) {
        Some(r) => Some(Reason::FilePath(r)),
        None => match lowercase_ext_spec(path.spec_bytes()) {
            Some(ext) => match first_content_reason(contents, ext, content.spec_bytes()) {
                Some(c) => Some(Reason::Content(c)),
                None => None,
            },
            None => None,
        },
    }
}

/// The path rules for generated files, as a view.
pub open spec fn generated_path_rules_view() -> PathRulesView {
    PathRulesView {
        patterns: generated_path_table().map_values(|x: (&'static str, FilePathReason)| x.0@),
        reasons: generated_path_table().map_values(|x: (&'static str, FilePathReason)| x.1),
    }
}

/// Why a path is generated under `paths`.
pub fn path_reason(paths: &GeneratedPathRules, path: &str) -> (r: Option<Reason>)
    ensures
        r == match first_path_reason(paths@, path@) {
            Some(x) => Some(Reason::FilePath(x)),
            None => None,
        },
{
    match paths.is_generated(path) {
        Some(x) => Some(Reason::FilePath(x)),
        None => None,
    }
}

/// Why content is generated under `contents`, given the path's extension.
pub fn content_reason(contents: &GeneratedContentRules, path: &str, content: &str) -> (r: Option<Reason>)
    ensures
        r == match lowercase_ext_spec(path.spec_bytes()) {
            Some(ext) => match first_content_reason(contents@, ext, content.spec_bytes()) {
                Some(c) => Some(Reason::Content(c)),
                None => None,
            },
            None => None,
        },
{
    match lowercase_ext(path) {
        Some(ext) => match contents.is_generated(ext.as_str(), content) {
            Some(c) => Some(Reason::Content(c)),
            None => None,
        },
        None => None,
    }
}

/// Detects if the path and content is generated under the given rules.
pub fn is_generated_with(
    paths: &GeneratedPathRules,
    contents: &GeneratedContentRules,
    path: &str,
    content: &str,
) -> (r: Option<Reason>)
    ensures
        r == generated_reason(paths@, contents@, path, content),
{
    match path_reason(paths, path) {
        Some(r) => Some(r),
        None => content_reason(contents, path, content),
    }
}

impl GeneratedPathRules {
    /// The compiled path rules for generated files; `None` where the `regex`
    /// crate rejects their patterns.
    pub fn generated() -> (r: Option<GeneratedPathRules>)
        ensures
            r is Some <==> regex_set_compiles(generated_path_rules_view().patterns, false),
            r matches Some(g) ==> g@ == generated_path_rules_view(),
    {
        GeneratedPathRules::new(&generated_path_table_exec())
    }
}

impl GeneratedContentRules {
    /// The content rules for generated files.
    pub fn generated() -> (r: GeneratedContentRules)
        ensures
            r@ == flatten_groups(generated_content_groups()),
    {
        GeneratedContentRules::new(&generated_content_groups_exec())
    }
}


/// Detects if the path and content is generated: the first generated path
/// rule that matches, else the first content rule for the path's lowercase
/// extension whose check holds.
pub fn is_generated(ling: &crate::Linguist, path: &str, content: &str) -> (r: Option<Reason>)
    ensures
        r == generated_reason(ling@.generated_paths, ling@.generated_contents, path, content),
{
    is_generated_with(ling.generated_paths(), ling.generated_contents(), path, content)
}

} // verus!

//! Whether a file should be indexed for code search. Vendored and generated
//! code is excluded, as are empty files, files over 350 KiB and files that
//! are not UTF-8; a few vendored and generated checks here are relaxed to
//! keep searchable files.
use vstd::prelude::*;
use vstd::string::*;
use vstd::utf8::*;
use crate::generated::{
    ContentCheck, ContentReason, ContentRuleGroup, FilePathReason, GeneratedContentRules,
    GeneratedPathRules, PathRulesView, Reason, RuleGroupView, first_content_reason, first_path_reason,
    flatten_groups, generated_reason,
};
use crate::{Linguist, LinguistView};
use crate::path::{file_name, file_name_spec, with_extension, with_extension_spec};
use crate::regex::{pattern_is_match, pattern_matches, regex_set_matches};
use crate::strategies::lowercase_ext_spec;
use crate::text::{ends_with, ends_with_bytes, str_eq};

verus! {

/// The path rules of files unsuitable for indexing, in order.
pub open spec fn unsuitable_path_table() -> Seq<(&'static str, FilePathReason)> {
    seq![
        (r"(^|/)[Pp]ackages/.+\.\d+/", FilePathReason::PackagesDir),
        (r"(^|/)lib/python.*/site-packages/", FilePathReason::PythonSitePackages),
        (r"(^|/)\.gitignore$", FilePathReason::GitIgnore),
        (r"(\.|-)min\.(js|css)$", FilePathReason::MinifiedJsOrCss),
        (r"\.(js|css)\.map$", FilePathReason::SourceMap),
        (r"(^|/)bower_components/", FilePathReason::BowerComponents),
        (r"vendor/([-0-9A-Za-z]+\.)+(com|edu|gov|in|me|net|org|fm|io)", FilePathReason::VendorDomain),
        (r"(^|/)dist/", FilePathReason::DistDir),
        (r"(3rd|[Tt]hird)[-_]?[Pp]arty/", FilePathReason::ThirdPartyDir),
        (r"^vendors?/", FilePathReason::VendorDir),
        (r"(^|/)node_modules/", FilePathReason::NodeModules),
        (r"(^Pods|/Pods)/", FilePathReason::CocaPods),
        (r"(^|/)go\.sum$", FilePathReason::GoSum),
        (r"(^|/)yarn\.lock$", FilePathReason::YarnLock),
    ]
}

/// The path rules of files unsuitable for indexing.
pub fn unsuitable_path_table_exec() -> (r: Vec<(&'static str, FilePathReason)>)
    ensures
        r@ == unsuitable_path_table(),
{
    let r = vec![
        (r"(^|/)[Pp]ackages/.+\.\d+/", FilePathReason::PackagesDir),
        (r"(^|/)lib/python.*/site-packages/", FilePathReason::PythonSitePackages),
        (r"(^|/)\.gitignore$", FilePathReason::GitIgnore),
        (r"(\.|-)min\.(js|css)$", FilePathReason::MinifiedJsOrCss),
        (r"\.(js|css)\.map$", FilePathReason::SourceMap),
        (r"(^|/)bower_components/", FilePathReason::BowerComponents),
        (r"vendor/([-0-9A-Za-z]+\.)+(com|edu|gov|in|me|net|org|fm|io)", FilePathReason::VendorDomain),
        (r"(^|/)dist/", FilePathReason::DistDir),
        (r"(3rd|[Tt]hird)[-_]?[Pp]arty/", FilePathReason::ThirdPartyDir),
        (r"^vendors?/", FilePathReason::VendorDir),
        (r"(^|/)node_modules/", FilePathReason::NodeModules),
        (r"(^Pods|/Pods)/", FilePathReason::CocaPods),
        (r"(^|/)go\.sum$", FilePathReason::GoSum),
        (r"(^|/)yarn\.lock$", FilePathReason::YarnLock),
    ];
    assert(r@ =~= unsuitable_path_table());
    r
}

/// The path rules of files unsuitable for indexing, as a view.
pub open spec fn unsuitable_path_rules_view() -> PathRulesView {
    PathRulesView {
        patterns: unsuitable_path_table().map_values(|x: (&'static str, FilePathReason)| x.0@),
        reasons: unsuitable_path_table().map_values(|x: (&'static str, FilePathReason)| x.1),
    }
}

/// The content rules of files unsuitable for indexing, in order.
pub open spec fn unsuitable_content_groups() -> Seq<RuleGroupView> {
    seq![
        RuleGroupView {
            extensions: seq!["go"],
            reason: ContentReason::GeneratedGo,
            check: ContentCheck::GeneratedGo,
        },
        RuleGroupView {
            extensions: seq!["css", "js"],
            reason: ContentReason::MinifiedJsOrCss,
            check: ContentCheck::Minified,
        },
        RuleGroupView {
            extensions: seq!["css", "js"],
            reason: ContentReason::HasSourceMapRef,
            check: ContentCheck::SourceMapRef,
        },
        RuleGroupView {
            extensions: seq!["map"],
            reason: ContentReason::SourceMap,
            check: ContentCheck::SourceMap,
        },
        RuleGroupView {
            extensions: seq!["meta"],
            reason: ContentReason::Unity3DMetadata,
            check: ContentCheck::Unity3DMeta,
        },
        RuleGroupView {
            extensions: seq!["rbi"],
            reason: ContentReason::SorbetRBI,
            check: ContentCheck::SorbetRbi,
        },
    ]
}

/// The content rules of files unsuitable for indexing.
pub fn unsuitable_content_groups_exec() -> (r: Vec<ContentRuleGroup>)
    ensures
        r@.map_values(|g: ContentRuleGroup| g@) == unsuitable_content_groups(),
{
    let r = vec![
        ContentRuleGroup {
            extensions: vec!["go"],
            reason: ContentReason::GeneratedGo,
            check: ContentCheck::GeneratedGo,
        },
        ContentRuleGroup {
            extensions: vec!["css", "js"],
            reason: ContentReason::MinifiedJsOrCss,
            check: ContentCheck::Minified,
        },
        ContentRuleGroup {
            extensions: vec!["css", "js"],
            reason: ContentReason::HasSourceMapRef,
            check: ContentCheck::SourceMapRef,
        },
        ContentRuleGroup {
            extensions: vec!["map"],
            reason: ContentReason::SourceMap,
            check: ContentCheck::SourceMap,
        },
        ContentRuleGroup {
            extensions: vec!["meta"],
            reason: ContentReason::Unity3DMetadata,
            check: ContentCheck::Unity3DMeta,
        },
        ContentRuleGroup {
            extensions: vec!["rbi"],
            reason: ContentReason::SorbetRBI,
            check: ContentCheck::SorbetRbi,
        },
    ];
    assert(r@.map_values(|g: ContentRuleGroup| g@) =~~= unsuitable_content_groups());
    r
}

/// The compiled path rules of files unsuitable for indexing; `None` where
/// the `regex` crate rejects their patterns.
pub fn unsuitable_path_rules() -> (r: Option<GeneratedPathRules>)
    ensures
        r is Some <==> crate::regex::regex_set_compiles(unsuitable_path_rules_view().patterns, false),
        r matches Some(g) ==> g@ == unsuitable_path_rules_view(),
{
    GeneratedPathRules::new(&unsuitable_path_table_exec())
}

/// The content rules of files unsuitable for indexing.
pub fn unsuitable_content_rules() -> (r: GeneratedContentRules)
    ensures
        r@ == flatten_groups(unsuitable_content_groups()),
{
    GeneratedContentRules::new(&unsuitable_content_groups_exec())
}


/// Default minimum size of content that can be ingested.
pub const DEFAULT_MIN_CONTENT_SIZE_BYTES: usize = 3;

/// Default maximum size of content that can be ingested (350 KiB).
pub const DEFAULT_MAX_CONTENT_SIZE_BYTES: usize = 350 * 1024;

/// Why content is not ingested.
#[derive(Debug, Clone, Copy, PartialEq, Eq, Structural)]
pub enum Filtered {
    /// The content is not UTF-8.
    NotUtf8,
    /// The content is too small.
    TooSmall(usize),
    /// The content is too large.
    TooLarge(usize),
    /// The file path is not indexable.
    FilePath(FilePathReason),
    /// The content is not indexable.
    Content(ContentReason),
}

/// The `Filtered` value for a reason.
pub open spec fn filtered_of(reason: Reason) -> Filtered {
    match reason {
        Reason::FilePath(fp) => Filtered::FilePath(fp),
        Reason::Content(cr) => Filtered::Content(cr),
    }
}

impl Filtered {
    /// The `Filtered` value for a reason.
    pub fn from_reason(reason: Reason) -> (f: Filtered)
        ensures
            f == filtered_of(reason),
    {
        match reason {
            Reason::FilePath(fp) => Filtered::FilePath(fp),
            Reason::Content(cr) => Filtered::Content(cr),
        }
    }
}

/// Why a path is unsuitable for indexing, by the unsuitable path rules.
pub open spec fn skip_path_reason(l: LinguistView, path: Seq<char>) -> Option<Reason> {
    match first_path_reason(l.unsuitable_paths, path) {
        Some(r) => Some(Reason::FilePath(r)),
        None => None,
    }
}

/// Why a file is unsuitable for indexing: the first unsuitable path rule
/// that matches, else the first unsuitable content rule for the path's
/// lowercase extension whose check holds of the content bytes.
pub open spec fn skip_reason(l: LinguistView, path: &str, content: Seq<u8>) -> Option<Reason> {
    match skip_path_reason(l, path@) {
        Some(r) => Some(r),
        None => match lowercase_ext_spec(path.spec_bytes()) {
            Some(ext) => match first_content_reason(l.unsuitable_contents, ext, content) {
                Some(c) => Some(Reason::Content(c)),
                None => None,
            },
            None => None,
        },
    }
}

/// Detects if the file and its content should be skipped for indexing:
/// the reason, or `None` where it should be indexed.
pub fn skip_indexing(ling: &Linguist, path: &str, content: &str) -> (r: Option<Reason>)
    ensures
        r == skip_reason(ling@, path, content.spec_bytes()),
{
    crate::generated::is_generated_with(ling.unsuitable_paths(), ling.unsuitable_contents(), path, content)
}

/// Why the path alone is unsuitable for indexing.
fn skip_indexing_path(ling: &Linguist, path: &str) -> (r: Option<Reason>)
    ensures
        r == skip_path_reason(ling@, path@),
{
    crate::generated::path_reason(ling.unsuitable_paths(), path)
}

/// Detects if the file path and its content are indexable.
pub fn is_indexable(ling: &Linguist, path: &str, content: &str) -> (b: bool)
    ensures
        b == (skip_reason(ling@, path, content.spec_bytes()) is None),
{
    skip_indexing(ling, path, content).is_none()
}

/// Detects if the file path is suitable for indexing.
pub fn is_path_indexable(ling: &Linguist, path: &str) -> (b: bool)
    ensures
        b == (skip_path_reason(ling@, path@) is None),
{
    skip_indexing_path(ling, path).is_none()
}

/// Size limits on ingested content.
pub struct IngestFilter {
    min_content_bytes: usize,
    max_content_bytes: usize,
}

impl View for IngestFilter {
    type V = (usize, usize);

    closed spec fn view(&self) -> (usize, usize) {
        (self.min_content_bytes, self.max_content_bytes)
    }
}

impl Default for IngestFilter {
    /// The default limits: at least 3 bytes, at most 350 KiB.
    fn default() -> (f: Self)
        ensures
            f@ == (DEFAULT_MIN_CONTENT_SIZE_BYTES, DEFAULT_MAX_CONTENT_SIZE_BYTES),
    {
        IngestFilter {
            min_content_bytes: DEFAULT_MIN_CONTENT_SIZE_BYTES,
            max_content_bytes: DEFAULT_MAX_CONTENT_SIZE_BYTES,
        }
    }
}

/// Whether a size is within the limits `(min, max)`.
pub open spec fn meta_result(limits: (usize, usize), size: usize) -> Result<(), Filtered> {
    if size < limits.0 {
        Err(Filtered::TooSmall(size))
    } else if size > limits.1 {
        Err(Filtered::TooLarge(size))
    } else {
        Ok(())
    }
}

/// Whether content with bytes `content` at `path` is ingested: within the
/// limits, and not unsuitable for indexing.
pub open spec fn ingest_result(limits: (usize, usize), l: LinguistView, path: &str, content: Seq<u8>) -> Result<(), Filtered> {
    match meta_result(limits, content.len() as usize) {
        Err(e) => Err(e),
        Ok(_) => match skip_reason(l, path, content) {
            Some(r) => Err(filtered_of(r)),
            None => Ok(()),
        },
    }
}

/// `simdutf8::basic::from_utf8`: the bytes as a string slice where they are
/// valid UTF-8, as `std::str::from_utf8` would give them.
#[verifier::external_body]
pub(crate) fn utf8_str(content: &[u8]) -> (r: Option<&str>)
    ensures
        r is Some <==> valid_utf8(content@),
        r matches Some(s) ==> s.spec_bytes() == content@,
{
    match simdutf8::basic::from_utf8(content) {
        Ok(s) => Some(s),
        Err(_) => None,
    }
}

impl IngestFilter {
    /// Checks the size of content against the limits.
    pub fn ingestable_meta(&self, size: usize) -> (r: Result<(), Filtered>)
        ensures
            r == meta_result(self@, size),
    {
        if size < self.min_content_bytes {
            Err(Filtered::TooSmall(size))
        } else if size > self.max_content_bytes {
            Err(Filtered::TooLarge(size))
        } else {
            Ok(())
        }
    }

    /// Whether the content at `path` is ingested.
    pub fn is_ingestable(&self, ling: &Linguist, path: &str, content: &str) -> (b: bool)
        ensures
            b == (ingest_result(self@, ling@, path, content.spec_bytes()) is Ok),
    {
        self.ingestable(ling, path, content).is_ok()
    }

    /// Checks the path alone against the unsuitable path rules.
    pub fn ingestable_path(&self, ling: &Linguist, path: &str) -> (r: Result<(), Filtered>)
        ensures
            r == match skip_path_reason(ling@, path@) {
                Some(reason) => Err(filtered_of(reason)),
                None => Ok(()),
            },
    {
        match skip_indexing_path(ling, path) {
            Some(reason) => Err(Filtered::from_reason(reason)),
            None => Ok(()),
        }
    }

    /// Checks the size of the content, then the path and content.
    pub fn ingestable(&self, ling: &Linguist, path: &str, content: &str) -> (r: Result<(), Filtered>)
        ensures
            r == ingest_result(self@, ling@, path, content.spec_bytes()),
    {
        match self.ingestable_meta(crate::text::byte_len(content)) {
            Err(e) => Err(e),
            Ok(_) => match skip_indexing(ling, path, content) {
                Some(reason) => Err(Filtered::from_reason(reason)),
                None => Ok(()),
            },
        }
    }

    /// Checks raw bytes: they must be UTF-8, then as `ingestable`; gives
    /// them back as a string slice.
    pub fn ingestable_bytes<'a>(&self, ling: &Linguist, path: &str, content: &'a [u8]) -> (r: Result<&'a str, Filtered>)
        ensures
            match r {
                Ok(s) => valid_utf8(content@) && s.spec_bytes() == content@ && ingest_result(
                    self@,
                    ling@,
                    path,
                    content@,
                ) is Ok,
                Err(e) => if valid_utf8(content@) {
                    ingest_result(self@, ling@, path, content@) == Err::<(), Filtered>(e)
                } else {
                    e == Filtered::NotUtf8
                },
            },
    {
        match utf8_str(content) {
            Some(s) => match self.ingestable(ling, path, s) {
                Ok(_) => Ok(s),
                Err(e) => Err(e),
            },
            None => Err(Filtered::NotUtf8),
        }
    }

    /// As `ingestable_bytes`, taking and giving back owned content.
    pub fn ingestable_from_bytes(&self, ling: &Linguist, path: &str, content: Vec<u8>) -> (r: Result<String, Filtered>)
        ensures
            match r {
                Ok(s) => valid_utf8(content@) && encode_utf8(s@) == content@ && ingest_result(
                    self@,
                    ling@,
                    path,
                    content@,
                ) is Ok,
                Err(e) => if valid_utf8(content@) {
                    ingest_result(self@, ling@, path, content@) == Err::<(), Filtered>(e)
                } else {
                    e == Filtered::NotUtf8
                },
            },
    {
        match self.ingestable_bytes(ling, path, content.as_slice()) {
            Ok(s) => Ok(String::from_str(s)),
            Err(e) => Err(e),
        }
    }
}

/// Whether the file name of a path is `Jenkinsfile`.
pub open spec fn jenkinsfile_spec(path: Seq<u8>) -> bool {
    match file_name_spec(path) {
        Some(n) => decode_utf8(n) == "Jenkinsfile"@,
        None => false,
    }
}

/// Jenkinsfiles count as vendored for linguist, but people want to search them.
fn is_jenkinsfile(path: &str) -> (b: bool)
    ensures
        b == jenkinsfile_spec(path.spec_bytes()),
{
    match file_name(path) {
        Some(n) => {
            proof {
                crate::text::lemma_view_is_decoded(n);
            }
            str_eq(n, "Jenkinsfile")
        },
        None => false,
    }
}

/// Directory names linguist treats as vendored too broadly.
pub const CACHE_DIRS: &'static str = "/(cache|env)/";

/// The path with its directories dropped where a `cache` or `env`
/// directory appears in it.
pub open spec fn cache_stripped(path: Seq<u8>) -> Seq<u8> {
    if pattern_matches(CACHE_DIRS@, decode_utf8(path)) {
        file_name_spec(path)->0
    } else {
        path
    }
}

/// A path whose file name ends with `.d.ts` rewritten to end with `.ts`
/// instead: the `.ts` extension is dropped, then the `.d` extension left is
/// replaced by `.ts`.
pub open spec fn ts_interface_rewrite(path: Seq<u8>) -> Seq<u8> {
    match file_name_spec(path) {
        Some(n) => if ends_with_bytes(n, ".d.ts".spec_bytes()) {
            with_extension_spec(with_extension_spec(path, seq![]), "ts".spec_bytes())
        } else {
            path
        },
        None => path,
    }
}

/// TypeScript interface definitions (`.d.ts`) count as vendored for
/// linguist; check the path as if it ended in `.ts` instead.
pub fn remove_typescript_interface_extension(path: &str) -> (r: String)
    ensures
        encode_utf8(r@) == ts_interface_rewrite(path.spec_bytes()),
{
    match file_name(path) {
        Some(n) => {
            if ends_with(n, ".d.ts") {
                proof {
                    reveal_strlit("");
                }
                let a = with_extension(path, "");
                with_extension(a.as_str(), "ts")
            } else {
                String::from_str(path)
            }
        },
        None => String::from_str(path),
    }
}

/// Where a `cache` or `env` directory appears, keep only the file name.
fn remove_overly_broad_cache_components(path: &str) -> (r: Option<String>)
    ensures
        match r {
            Some(p) => (pattern_matches(CACHE_DIRS@, path@) ==> file_name_spec(path.spec_bytes()) is Some)
                && encode_utf8(p@) == cache_stripped(path.spec_bytes()),
            None => pattern_matches(CACHE_DIRS@, path@) && file_name_spec(path.spec_bytes()) is None,
        },
{
    proof {
        crate::text::lemma_view_is_decoded(path);
    }
    if pattern_is_match(CACHE_DIRS, path) {
        match file_name(path) {
            Some(n) => Some(String::from_str(n)),
            None => None,
        }
    } else {
        Some(String::from_str(path))
    }
}

/// Whether a path is vendored for code search: never a Jenkinsfile; a
/// `cache` or `env` directory alone does not make it vendored, nor a
/// `.d.ts` ending; else as `vendor.yml` says.
pub open spec fn search_vendored(l: LinguistView, path: Seq<u8>) -> bool {
    if jenkinsfile_spec(path) {
        false
    } else {
        regex_set_matches(l.vendored, false, decode_utf8(ts_interface_rewrite(cache_stripped(path))))
    }
}

/// Returns true if the path should be considered vendored for code search
/// (see `search_vendored`). A path in a `cache` or `env` directory must have
/// a file name.
pub fn is_vendored(ling: &Linguist, path: &str) -> (b: bool)
    requires
        pattern_matches(CACHE_DIRS@, path@) ==> file_name_spec(path.spec_bytes()) is Some,
    ensures
        b == search_vendored(ling@, path.spec_bytes()),
{
    if is_jenkinsfile(path) {
        return false;
    }
    let stripped = match remove_overly_broad_cache_components(path) {
        Some(p) => p,
        None => {
            assert(false);
            String::from_str(path)
        },
    };
    let sp = stripped.as_str();
    assert(sp.spec_bytes() == cache_stripped(path.spec_bytes()));
    let rewritten = remove_typescript_interface_extension(sp);
    let rp = rewritten.as_str();
    proof {
        crate::text::lemma_view_is_decoded(rp);
    }
    crate::vendored::is_vendored(ling, rp)
}

/// As `is_vendored`, for any path: `None` where a path in a `cache` or `env`
/// directory has no file name.
pub fn try_is_vendored(ling: &Linguist, path: &str) -> (r: Option<bool>)
    ensures
        match r {
            Some(b) => (pattern_matches(CACHE_DIRS@, path@) ==> file_name_spec(path.spec_bytes()) is Some)
                && b == search_vendored(ling@, path.spec_bytes()),
            None => pattern_matches(CACHE_DIRS@, path@) && file_name_spec(path.spec_bytes()) is None,
        },
{
    if pattern_is_match(CACHE_DIRS, path) && file_name(path).is_none() {
        None
    } else {
        Some(is_vendored(ling, path))
    }
}

/// Whether a path and content are generated for code search: `go.sum` and
/// `yarn.lock` always are; else as `generated::is_generated` says.
pub open spec fn search_generated(l: LinguistView, path: &str, content: &str) -> Option<Reason> {
    let n = decode_utf8(file_name_spec(path.spec_bytes())->0);
    if n == "go.sum"@ {
        Some(Reason::FilePath(FilePathReason::GoSum))
    } else if n == "yarn.lock"@ {
        Some(Reason::FilePath(FilePathReason::YarnLock))
    } else {
        generated_reason(l.generated_paths, l.generated_contents, path, content)
    }
}

/// Detects if the path and content is generated for code search (see
/// `search_generated`). The path must have a file name.
pub fn is_generated(ling: &Linguist, path: &str, content: &str) -> (r: Option<Reason>)
    requires
        file_name_spec(path.spec_bytes()) is Some,
    ensures
        r == search_generated(ling@, path, content),
{
    let n = match file_name(path) {
        Some(n) => n,
        None => {
            return None;
        },
    };
    proof {
        crate::text::lemma_view_is_decoded(n);
    }
    if str_eq(n, "go.sum") {
        return Some(Reason::FilePath(FilePathReason::GoSum));
    }
    if str_eq(n, "yarn.lock") {
        return Some(Reason::FilePath(FilePathReason::YarnLock));
    }
    crate::generated::is_generated(ling, path, content)
}

} // verus!

//! Module resolution and source lowering for the embedded engine.
//!
//! An import specifier resolves to a canonical identifier: an absolute URL
//! as itself, a relative one against its referrer. A loaded file is
//! classified by extension: plain script text passes through, typed or
//! extended syntax is lowered to plain script text first, and structured
//! data is handed over as an importable value. Parse and lowering failures
//! surface as load failures — never silently dropped.

use vstd::prelude::*;
use crate::text::bytes_of;

verus! {

/// What the resolver found wrong with a specifier.
#[derive(Debug)]
pub enum ResolutionError {
    /// Neither an absolute URL nor a relative path: nothing to resolve
    /// against.
    PrefixMissing,
    /// The referrer or the joined result is not a well-formed URL.
    Malformed,
}

/// The canonical identifier an absolute specifier parses to, when it is a
/// well-formed URL. Named for `url::Url::parse` followed by `Url::as_str`.
pub uninterp spec fn parsed_url(s: Seq<u8>) -> Option<Seq<u8>>;

/// The canonical identifier a relative specifier joins to against a base,
/// when both are well formed. Named for `url::Url::parse` followed by
/// `Url::join` and `Url::as_str`.
pub uninterp spec fn joined_url(base: Seq<u8>, rel: Seq<u8>) -> Option<Seq<u8>>;

/// Relies on `url::Url::parse` and `Url::as_str`: parsing either yields the
/// canonical spelling of the URL named by `s`, or fails; the outcome is a
/// function of `s` alone.
#[verifier::external_body]
fn url_parse(s: &Vec<u8>) -> (r: Option<Vec<u8>>)
    ensures
        r is Some <==> parsed_url(s@) is Some,
        r matches Some(u) ==> u@ == parsed_url(s@)->Some_0,
{
    let t = match core::str::from_utf8(s) {
        Ok(t) => t,
        Err(_) => return None,
    };
    match url::Url::parse(t) {
        Ok(u) => Some(u.as_str().as_bytes().to_vec()),
        Err(_) => None,
    }
}

/// Relies on `url::Url::parse`, `Url::join` and `Url::as_str`: joining
/// `rel` against the URL named by `base` yields the canonical spelling of
/// the joined URL, or fails; the outcome is a function of the two inputs
/// alone.
#[verifier::external_body]
fn url_join(base: &Vec<u8>, rel: &Vec<u8>) -> (r: Option<Vec<u8>>)
    ensures
        r is Some <==> joined_url(base@, rel@) is Some,
        r matches Some(u) ==> u@ == joined_url(base@, rel@)->Some_0,
{
    let b = match core::str::from_utf8(base) {
        Ok(b) => b,
        Err(_) => return None,
    };
    let r = match core::str::from_utf8(rel) {
        Ok(r) => r,
        Err(_) => return None,
    };
    match url::Url::parse(b).and_then(|u| u.join(r)) {
        Ok(u) => Some(u.as_str().as_bytes().to_vec()),
        Err(_) => None,
    }
}

/// Whether `s` starts with the byte pattern `p`.
pub open spec fn starts_with(s: Seq<u8>, p: Seq<u8>) -> bool {
    p.len() <= s.len() && s.take(p.len() as int) == p
}

/// Whether `s` ends with the byte pattern `p`.
pub open spec fn ends_with(s: Seq<u8>, p: Seq<u8>) -> bool {
    p.len() <= s.len() && s.skip(s.len() - p.len()) == p
}

/// Whether a specifier is relative: it starts with `/`, `./` or `../`.
pub open spec fn has_rel_prefix(s: Seq<u8>) -> bool {
    starts_with(s, bytes_of("/")) || starts_with(s, bytes_of("./")) || starts_with(
        s,
        bytes_of("../"),
    )
}

/// Whether the byte vector `s` starts with the bytes of `p`.
fn starts_with_exec(s: &Vec<u8>, p: &str) -> (r: bool)
    ensures
        r == starts_with(s@, bytes_of(p)),
{
    let pb = crate::text::byte_vec(p);
    if pb.len() > s.len() {
        return false;
    }
    let mut i: usize = 0;
    while i < pb.len()
        invariant
            0 <= i <= pb.len(),
            pb.len() <= s.len(),
            pb@ == bytes_of(p),
            forall|j: int| 0 <= j < i ==> s@[j] == pb@[j],
        decreases pb.len() - i,
    {
        if s[i] != pb[i] {
            proof {
                assert(s@.take(pb@.len() as int)[i as int] != pb@[i as int]);
            }
            return false;
        }
        i = i + 1;
    }
    proof {
        assert(s@.take(pb@.len() as int) =~= pb@);
    }
    true
}

/// Whether the byte vector `s` ends with the bytes of `p`.
fn ends_with_exec(s: &Vec<u8>, p: &str) -> (r: bool)
    ensures
        r == ends_with(s@, bytes_of(p)),
{
    let pb = crate::text::byte_vec(p);
    if pb.len() > s.len() {
        return false;
    }
    let off: usize = s.len() - pb.len();
    let mut i: usize = 0;
    while i < pb.len()
        invariant
            0 <= i <= pb.len(),
            pb.len() <= s.len(),
            off == s.len() - pb.len(),
            pb@ == bytes_of(p),
            forall|j: int| 0 <= j < i ==> s@[off + j] == pb@[j],
        decreases pb.len() - i,
    {
        if s[off + i] != pb[i] {
            proof {
                assert(s@.skip(s@.len() - pb@.len())[i as int] != pb@[i as int]);
            }
            return false;
        }
        i = i + 1;
    }
    proof {
        assert(s@.skip(s@.len() - pb@.len()) =~= pb@);
    }
    true
}

/// The resolver's answer, over the two named URL operations: an absolute
/// specifier resolves to its own canonical spelling; a relative one joins
/// against the referrer; anything else has no resolution.
pub open spec fn spec_resolve(specifier: Seq<u8>, referrer: Seq<u8>) -> Result<
    Seq<u8>,
    ResolutionError,
> {
    match parsed_url(specifier) {
        Option::Some(u) => Result::Ok(u),
        Option::None => {
            if has_rel_prefix(specifier) {
                match joined_url(referrer, specifier) {
                    Option::Some(u) => Result::Ok(u),
                    Option::None => Result::Err(ResolutionError::Malformed),
                }
            } else {
                Result::Err(ResolutionError::PrefixMissing)
            }
        },
    }
}

/// How a loaded module is handed to the engine.
#[derive(Clone, Copy, Debug, PartialEq, Eq, Structural)]
pub enum MediaKind {
    /// Plain script text: passed through unchanged.
    Js,
    /// Typed source: lowered before execution.
    Ts,
    /// Typed source with extended syntax: lowered before execution.
    Tsx,
    /// Plain script with extended syntax: lowered before execution.
    Jsx,
    /// Structured data: wrapped as an importable value.
    Data,
}

/// The kind a path's extension names: declaration files and unknown
/// extensions pass through as plain script; `.ts` and `.mts` are typed;
/// `.tsx` and `.jsx` carry extended syntax; `.json` is data.
pub open spec fn spec_classify_path(p: Seq<u8>) -> MediaKind {
    if ends_with(p, bytes_of(".d.ts")) || ends_with(p, bytes_of(".d.mts")) || ends_with(
        p,
        bytes_of(".d.cts"),
    ) {
        MediaKind::Js
    } else if ends_with(p, bytes_of(".ts")) || ends_with(p, bytes_of(".mts")) {
        MediaKind::Ts
    } else if ends_with(p, bytes_of(".tsx")) {
        MediaKind::Tsx
    } else if ends_with(p, bytes_of(".jsx")) {
        MediaKind::Jsx
    } else if ends_with(p, bytes_of(".json")) {
        MediaKind::Data
    } else {
        MediaKind::Js
    }
}

/// The lowered form of typed or extended source text, when it parses and
/// lowers; the outcome is a function of the text and its kind alone, the
/// lowering being configured without source maps. Named for
/// `deno_ast::parse_module` followed by `ParsedSource::transpile`.
pub uninterp spec fn lowered_of(text: Seq<u8>, kind: MediaKind) -> Option<Seq<u8>>;

/// Relies on `deno_ast::parse_module` and `ParsedSource::transpile`: typed
/// source either parses and lowers to plain script text, or fails; with
/// source maps off the outcome depends on the text and kind alone.
#[verifier::external_body]
fn transpile_source(text: &Vec<u8>, kind: MediaKind) -> (r: Option<Vec<u8>>)
    ensures
        r is Some <==> lowered_of(text@, kind) is Some,
        r matches Some(o) ==> o@ == lowered_of(text@, kind)->Some_0,
{
    let mt = match kind {
        MediaKind::Ts => deno_ast::MediaType::TypeScript,
        MediaKind::Tsx => deno_ast::MediaType::Tsx,
        MediaKind::Jsx => deno_ast::MediaType::Jsx,
        _ => deno_ast::MediaType::JavaScript,
    };
    let specifier = url::Url::parse("file:///module.ts").ok()?;
    let text_arc: std::sync::Arc<str> = String::from_utf8_lossy(text).into_owned().into();
    let params = deno_ast::ParseParams { specifier, text: text_arc, media_type: mt, capture_tokens: false, scope_analysis: false, maybe_syntax: None };
    let emit = deno_ast::EmitOptions { source_map: deno_ast::SourceMapOption::None, ..Default::default() };
    let out = deno_ast::parse_module(params).ok()?.transpile(&deno_ast::TranspileOptions::default(), &deno_ast::TranspileModuleOptions::default(), &emit).ok()?;
    Some(out.into_source().text.into_bytes())
}

/// What loading failed on.
#[derive(Debug)]
pub enum LoadError {
    /// The source would not parse or lower.
    Lowering,
}

/// How loaded text reaches the engine.
#[derive(Clone, Copy, Debug, PartialEq, Eq, Structural)]
pub enum LoadedKind {
    /// Executable script text.
    JavaScript,
    /// Structured data wrapped as an importable value.
    Data,
}

/// Resolves import specifiers and loads and lowers module source text for
/// the engine.
pub struct TsModuleLoader;

impl TsModuleLoader {
    /// Resolves a specifier against its referrer to a canonical
    /// identifier; malformed input is refused.
    pub fn resolve(&self, specifier: &Vec<u8>, referrer: &Vec<u8>) -> (r: Result<
        Vec<u8>,
        ResolutionError,
    >)
        ensures
            r matches Ok(id) ==> spec_resolve(specifier@, referrer@) matches Ok(u) && id@ == u,
            r is Err ==> spec_resolve(specifier@, referrer@) is Err,
    {
        match url_parse(specifier) {
            Some(u) => Ok(u),
            None => {
                if starts_with_exec(specifier, "/") || starts_with_exec(specifier, "./")
                    || starts_with_exec(specifier, "../") {
                    match url_join(referrer, specifier) {
                        Some(u) => Ok(u),
                        None => Err(ResolutionError::Malformed),
                    }
                } else {
                    Err(ResolutionError::PrefixMissing)
                }
            },
        }
    }

    /// The kind the path's extension names.
    pub fn classify(&self, path: &Vec<u8>) -> (r: MediaKind)
        ensures
            r == spec_classify_path(path@),
    {
        if ends_with_exec(path, ".d.ts") || ends_with_exec(path, ".d.mts") || ends_with_exec(
            path,
            ".d.cts",
        ) {
            MediaKind::Js
        } else if ends_with_exec(path, ".ts") || ends_with_exec(path, ".mts") {
            MediaKind::Ts
        } else if ends_with_exec(path, ".tsx") {
            MediaKind::Tsx
        } else if ends_with_exec(path, ".jsx") {
            MediaKind::Jsx
        } else if ends_with_exec(path, ".json") {
            MediaKind::Data
        } else {
            MediaKind::Js
        }
    }

    /// Loads one module from its path and source text: data passes through
    /// as data, plain script passes through as script, typed or extended
    /// source is lowered — and a failed lowering is a load failure.
    pub fn load(&self, path: &Vec<u8>, text: Vec<u8>) -> (r: Result<
        (LoadedKind, Vec<u8>),
        LoadError,
    >)
        ensures
            ({
                let kind = spec_classify_path(path@);
                match kind {
                    MediaKind::Data => r matches Ok(p) && p.0 == LoadedKind::Data && p.1@
                        == text@,
                    MediaKind::Js => r matches Ok(p) && p.0 == LoadedKind::JavaScript && p.1@
                        == text@,
                    _ => (r matches Ok(p) ==> p.0 == LoadedKind::JavaScript && lowered_of(
                        text@,
                        kind,
                    ) == Option::Some(p.1@)) && (r is Err ==> lowered_of(text@, kind) is None),
                }
            }),
    {
        let kind = self.classify(path);
        match kind {
            MediaKind::Data => Ok((LoadedKind::Data, text)),
            MediaKind::Js => Ok((LoadedKind::JavaScript, text)),
            _ => {
                match transpile_source(&text, kind) {
                    Some(lowered) => Ok((LoadedKind::JavaScript, lowered)),
                    None => Err(LoadError::Lowering),
                }
            },
        }
    }
}

} // verus!

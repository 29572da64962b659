//! An mdbook preprocessor that drops private chapters: chapters whose source
//! file's name begins with an underscore.
//!
//! The host hands the preprocessor its context and book; the library decides
//! which top-level sections stay. Reading the request and writing the
//! response is left to the program around it.
use vstd::prelude::*;

pub mod compat;
pub mod policy;

pub use compat::{check_version, compatibility_warning, mismatch_warning, VersionError, NAME};
pub use policy::{
    filter_sections, should_export_private, should_keep_chapter, supported_renderers,
    supports_renderer, SectionKind,
};

verus! {

use crate::compat::{mismatch_warning_spec, version_error_spec, version_satisfies};
use crate::policy::{export_private_spec, filtered};

/// What the preprocessor reads of the host's context.
pub struct HostContext {
    /// The calling mdbook's version.
    pub mdbook_version: String,
    /// This preprocessor's `export-private` setting; `None` where it is
    /// absent or not a boolean.
    pub export_private_setting: Option<bool>,
}

/// The outcome of one run over a book.
pub struct Response<T> {
    /// The top-level sections that stay, in their original order.
    pub sections: Vec<T>,
    /// A warning to report where the calling mdbook is outside the declared
    /// version range.
    pub warning: Option<String>,
}

/// The view of an optional string.
pub open spec fn opt_view(o: Option<&str>) -> Option<Seq<char>> {
    match o {
        Some(s) => Some(s@),
        None => None,
    }
}

/// Runs the preprocessor over one book: checks the calling mdbook's version
/// against `declared_req`, then drops private chapters unless they are
/// exported. `kinds[i]` describes `sections[i]`; `env_value` is the value of
/// `MDBOOK_EXPORT_PRIVATE`, if set.
pub fn transform<T>(
    ctx: &HostContext,
    declared_req: &str,
    env_value: Option<&str>,
    sections: Vec<T>,
    kinds: &Vec<SectionKind>,
) -> (r: Result<Response<T>, VersionError>)
    requires
        sections@.len() == kinds@.len(),
    ensures
        r is Err <==> version_error_spec(ctx.mdbook_version@, declared_req@) is Some,
        r matches Err(e) ==> Some(e) == version_error_spec(ctx.mdbook_version@, declared_req@),
        r matches Ok(resp) ==> resp.sections@ == filtered(
            sections@,
            kinds@,
            export_private_spec(ctx.export_private_setting, opt_view(env_value)),
        ),
        r matches Ok(resp) ==> (resp.warning is None <==> version_satisfies(
            ctx.mdbook_version@,
            declared_req@,
        )),
        r matches Ok(resp) ==> (resp.warning matches Some(w) ==> w@ == mismatch_warning_spec(
            declared_req@,
            ctx.mdbook_version@,
        )),
{
    let matched = match check_version(ctx.mdbook_version.as_str(), declared_req) {
        Ok(m) => m,
        Err(e) => return Err(e),
    };
    let warning = compatibility_warning(matched, declared_req, ctx.mdbook_version.as_str());
    let export_private = should_export_private(ctx.export_private_setting, env_value);
    let kept = filter_sections(sections, kinds, export_private);
    Ok(Response { sections: kept, warning })
}

} // verus!

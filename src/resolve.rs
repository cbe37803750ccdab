use vstd::prelude::*;

use crate::candidates::{candidate_pairs, pairs, LookupError};
use crate::render::{
    all_render, candidate_of, check_template, no_partials, render_candidates, rendered, Candidate,
    TemplateError,
};
use crate::table::{aliases_of, AliasTable, ConfigError};

verus! {

/// The fatal conditions met before any link is probed.
pub enum DudoError {
    /// The alias-table source could not be read.
    ConfigError(ConfigError),
    /// The running platform has no row in the alias table.
    LookupError(LookupError),
    /// The link template was refused.
    TemplateError(TemplateError),
}

/// The outcome of resolving once the template has passed its check.
pub open spec fn resolve_outcome(
    table: AliasTable,
    os: Seq<char>,
    arch: Seq<char>,
    template: Seq<char>,
    version: Seq<char>,
    r: Result<Vec<Candidate>, DudoError>,
) -> bool {
    match (aliases_of(table.os_rows(), os), aliases_of(table.arch_rows(), arch)) {
        (None, _) => r matches Err(DudoError::LookupError(LookupError::UnknownOs(n))) && n@ == os,
        (Some(_), None) => r matches Err(DudoError::LookupError(LookupError::UnknownArch(n))) && n@
            == arch,
        (Some(o), Some(a)) => {
            &&& (r is Ok <==> all_render(template, version, pairs(o, a)))
            &&& (r is Err ==> r matches Err(DudoError::TemplateError(_)))
            &&& (r matches Ok(v) ==> v.len() == pairs(o, a).len() && forall|k: int|
                0 <= k < v.len() ==> Some(#[trigger] v[k].model()) == candidate_of(
                    template,
                    version,
                    pairs(o, a)[k],
                ))
        },
    }
}

/// Every candidate to probe on the platform `os`/`arch`, in probe order. The
/// template is checked first, then the platform is looked up; no link is
/// formed when either fails.
pub fn resolve(table: &AliasTable, os: &String, arch: &String, template: &str, version: &str) -> (r:
    Result<Vec<Candidate>, DudoError>)
    ensures
        !no_partials(template@) ==> r matches Err(
            DudoError::TemplateError(TemplateError::PartialCall),
        ),
        no_partials(template@) && rendered(template@, version@, "os"@, "arch"@) is None ==> r matches Err(
            DudoError::TemplateError(_),
        ),
        no_partials(template@) && rendered(template@, version@, "os"@, "arch"@) is Some ==> resolve_outcome(
            *table,
            os@,
            arch@,
            template@,
            version@,
            r,
        ),
{
    if let Err(e) = check_template(template, version) {
        return Err(DudoError::TemplateError(e));
    }
    let ps = match candidate_pairs(table, os, arch) {
        Ok(ps) => ps,
        Err(e) => return Err(DudoError::LookupError(e)),
    };
    match render_candidates(template, version, ps) {
        Ok(v) => Ok(v),
        Err(e) => Err(DudoError::TemplateError(TemplateError::Render(e))),
    }
}

} // verus!

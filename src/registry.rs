//! Checking a version requirement against the records the registry index holds.
use vstd::prelude::*;

use crate::error::SanitizeError;
use crate::index::{framed, reframe_index_body};

verus! {

#[verifier::external_type_specification]
#[verifier::external_body]
pub struct ExVersionReq(semver::VersionReq);

#[verifier::external_type_specification]
#[verifier::external_body]
pub struct ExVersion(semver::Version);

#[verifier::external_type_specification]
#[verifier::external_body]
pub struct ExSemverError(semver::Error);

/// Whether the text is a version-requirement expression.
pub uninterp spec fn is_requirement(s: Seq<char>) -> bool;

/// Whether the text is a semantic version.
pub uninterp spec fn is_version(s: Seq<char>) -> bool;

/// Whether the requirement `req` admits the version `ver`.
pub uninterp spec fn admits(req: Seq<char>, ver: Seq<char>) -> bool;

/// The `vers` string of each record of a JSON array text, in order (nothing
/// for a record without one); nothing at all for a text that is not a JSON
/// array.
pub uninterp spec fn index_versions(text: Seq<char>) -> Option<Seq<Option<Seq<char>>>>;

/// Relies on semver's `VersionReq::parse`: it accepts exactly the
/// requirement expressions.
pub assume_specification[ semver::VersionReq::parse ](text: &str) -> (r: Result<
    semver::VersionReq,
    semver::Error,
>)
    ensures
        r.is_ok() == is_requirement(text@),
;

/// Relies on semver's `Version::parse`: it accepts exactly the versions.
pub assume_specification[ semver::Version::parse ](text: &str) -> (r: Result<
    semver::Version,
    semver::Error,
>)
    ensures
        r.is_ok() == is_version(text@),
;

/// Relies on semver's `VersionReq::matches`, on the requirement and version
/// that the two texts parse to.
#[verifier::external_body]
fn requirement_admits(req: &str, ver: &str) -> (r: bool)
    requires
        is_requirement(req@),
        is_version(ver@),
    ensures
        r == admits(req@, ver@),
{
    semver::VersionReq::parse(req).unwrap().matches(&semver::Version::parse(ver).unwrap())
}

/// The characters of each optional string.
pub open spec fn opt_views(v: Seq<Option<String>>) -> Seq<Option<Seq<char>>> {
    v.map_values(
        |o: Option<String>|
            match o {
                Some(s) => Some(s@),
                None => None,
            },
    )
}

/// Relies on `serde_json::from_str`, `Value::as_array`, `Value::get` and
/// `Value::as_str`: each record's `vers` string, for a text that decodes to
/// an array.
#[verifier::external_body]
fn decode_versions(text: &str) -> (r: Option<Vec<Option<String>>>)
    ensures
        r is None ==> index_versions(text@) is None,
        r matches Some(v) ==> index_versions(text@) == Some(opt_views(v@)),
{
    let value: serde_json::Value = serde_json::from_str(text).ok()?;
    let mut out = Vec::new();
    for record in value.as_array()? {
        out.push(record.get("vers").and_then(serde_json::Value::as_str).map(String::from));
    }
    Some(out)
}

/// Checks that `ver` is a requirement expression; other text fails with
/// `InvalidVersionRequirement`.
pub fn check_requirement(ver: &String) -> (r: Result<(), SanitizeError>)
    ensures
        r is Ok <==> is_requirement(ver@),
        r matches Err(e) ==> e == SanitizeError::InvalidVersionRequirement(*ver),
{
    match semver::VersionReq::parse(ver.as_str()) {
        Ok(_) => Ok(()),
        Err(_) => Err(SanitizeError::InvalidVersionRequirement(ver.clone())),
    }
}

/// Whether some record lists a version that parses and that `req` admits.
pub open spec fn some_admitted(req: Seq<char>, vs: Seq<Option<Seq<char>>>) -> bool {
    exists|j: int|
        0 <= j < vs.len() && (#[trigger] vs[j] matches Some(v) && is_version(v) && admits(req, v))
}

/// Whether some record of the index's answer `body` for the package `name`
/// has a version that the requirement `req` admits. Records without a `vers`
/// string, or whose version does not parse, are passed over. A requirement
/// that does not parse fails with `InvalidVersionRequirement`; an answer that
/// does not decode to an array, with `RegistryMalformedResponse`.
pub fn registry_has_match(name: &String, req: &String, body: &str) -> (r: Result<
    bool,
    SanitizeError,
>)
    ensures
        !is_requirement(req@) ==> r == Err::<bool, SanitizeError>(
            SanitizeError::InvalidVersionRequirement(*req),
        ),
        is_requirement(req@) ==> r == match index_versions(framed(body@)) {
            None => Err::<bool, SanitizeError>(SanitizeError::RegistryMalformedResponse(*name)),
            Some(vs) => Ok(some_admitted(req@, vs)),
        },
{
    check_requirement(req)?;
    let text = reframe_index_body(body);
    let records = match decode_versions(text.as_str()) {
        Some(v) => v,
        None => {
            return Err(SanitizeError::RegistryMalformedResponse(name.clone()));
        },
    };
    let ghost vs = opt_views(records@);
    let mut i: usize = 0;
    while i < records.len()
        invariant
            i <= records.len(),
            is_requirement(req@),
            vs == opt_views(records@),
            index_versions(framed(body@)) == Some(vs),
            forall|j: int| 0 <= j < i ==> !(#[trigger] vs[j] matches Some(v) && is_version(v) && admits(req@, v)),
        decreases records.len() - i,
    {
        if let Some(vers) = &records[i] {
            if let Ok(_) = semver::Version::parse(vers.as_str()) {
                if requirement_admits(req.as_str(), vers.as_str()) {
                    assert(vs[i as int] matches Some(v) && is_version(v) && admits(req@, v));
                    return Ok(true);
                }
            }
        }
        i = i + 1;
    }
    Ok(false)
}

} // verus!

//! Versions: this build's release tag, the tag that the latest-release URL
//! names, and whether an update is available.
use vstd::prelude::*;

use crate::text::{split, split_on, str_eq, trim, trimmed};

verus! {

/// The release tag this build carries: `v` followed by the package version
/// (`version` under `[package]` in Cargo.toml), fixed when the crate is built.
pub const PRONTO_TAG: &'static str = "v1.1.0";

/// The release tag of this build, `PRONTO_TAG`: the same string on every call.
pub fn get_pronto_version() -> (v: String)
    ensures
        v@ == PRONTO_TAG@,
{
    PRONTO_TAG.to_owned()
}

/// The release tag that a latest-release URL names: the text after its last
/// `/` (the URL is trimmed first), e.g. `v1.1.0` for `.../releases/tag/v1.1.0`.
pub fn release_tag(url: &str) -> (tag: String)
    ensures
        tag@ == split(trimmed(url@), "/"@).last(),
{
    proof {
        reveal_strlit("/");
    }
    let trimmed_url = trim(url);
    let mut pieces = split_on(trimmed_url.as_str(), "/");
    pieces.pop().unwrap()
}

/// Whether the latest release (`None` when it could not be found out) differs
/// from this build.
pub fn has_update_available(latest_pronto_version: Option<String>) -> (r: bool)
    ensures
        r == (latest_pronto_version matches Some(l) && l@ != PRONTO_TAG@),
{
    let current_pronto_version = get_pronto_version();
    match latest_pronto_version {
        Some(latest) => !str_eq(latest.as_str(), current_pronto_version.as_str()),
        None => false,
    }
}

} // verus!

//! Where covers are kept.
use vstd::prelude::*;

use crate::music::types::{safe_name, Artwork};
use crate::paths::{self, Env};
use crate::text;

verus! {

/// The size covers are fetched at.
pub const ART_SIZE: u32 = 512;

/// Where a cover of this size is kept.
pub fn cache_path(env: &Env, art: &Artwork, size: u32) -> (r: Option<String>)
    ensures
        text::opt_view(r) == paths::under_opt(
            paths::under_opt(env.spec_cache_dir(), "artwork"@),
            safe_name(art.template@) + "-"@ + text::decimal(size as nat) + ".jpg"@,
        ),
{
    let mut name = art.cache_key();
    name.append("-");
    name.append(text::number(size as u64).as_str());
    name.append(".jpg");
    paths::join_opt(paths::artwork_dir(env), name.as_str())
}

} // verus!

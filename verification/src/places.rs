//! The directories the game keeps its configuration, caches and built
//! assets in. Each is `None` when the platform defines no user directory
//! to put it under. Creating and deleting the directories is file-system
//! work and lives outside this crate; these functions only name the
//! places.

use vstd::prelude::*;

use crate::dir;
use crate::filesystem::{spec_add, spec_normalize, Path};

verus! {

/// Base directory for configurations and data.
pub fn base() -> (r: Option<Path>)
    ensures
        r matches Some(p) ==> exists|c: Seq<char>| p@ == spec_add(c, spec_normalize("simplay"@)),
{
    match dir::config() {
        Some(c) => {
            let ghost cv = c@;
            let p = c.add_str("simplay");
            proof {
                assert(p@ == spec_add(cv, spec_normalize("simplay"@)));
            }
            Some(p)
        },
        None => None,
    }
}

/// Cache directory for the game.
pub fn cache() -> (r: Option<Path>)
    ensures
        r matches Some(p) ==> exists|c: Seq<char>| p@ == spec_add(c, spec_normalize("simplay"@)),
{
    match dir::cache() {
        Some(c) => {
            let ghost cv = c@;
            let p = c.add_str("simplay");
            proof {
                assert(p@ == spec_add(cv, spec_normalize("simplay"@)));
            }
            Some(p)
        },
        None => None,
    }
}

/// Built assets.
pub fn assets() -> (r: Option<Path>)
    ensures
        r matches Some(p) ==> exists|c: Seq<char>| p@ == spec_add(c, spec_normalize("assets"@)),
{
    match cache() {
        Some(c) => {
            let ghost cv = c@;
            let p = c.add_str("assets");
            proof {
                assert(p@ == spec_add(cv, spec_normalize("assets"@)));
            }
            Some(p)
        },
        None => None,
    }
}

/// Custom assets built by the asset pipeline, the block atlas among them.
pub fn custom_built_assets() -> (r: Option<Path>)
    ensures
        r matches Some(p) ==> exists|c: Seq<char>|
            p@ == spec_add(c, spec_normalize("custom_built"@)),
{
    match assets() {
        Some(c) => {
            let ghost cv = c@;
            let p = c.add_str("custom_built");
            proof {
                assert(p@ == spec_add(cv, spec_normalize("custom_built"@)));
            }
            Some(p)
        },
        None => None,
    }
}

/// User installed asset packs.
pub fn asset_packs() -> (r: Option<Path>)
    ensures
        r matches Some(p) ==> exists|c: Seq<char>|
            p@ == spec_add(c, spec_normalize("asset_packs"@)),
{
    match base() {
        Some(c) => {
            let ghost cv = c@;
            let p = c.add_str("asset_packs");
            proof {
                assert(p@ == spec_add(cv, spec_normalize("asset_packs"@)));
            }
            Some(p)
        },
        None => None,
    }
}

/// Links to assets used for building built assets.
pub fn unified_asset_links() -> (r: Option<Path>)
    ensures
        r matches Some(p) ==> exists|c: Seq<char>|
            p@ == spec_add(c, spec_normalize("unified_asset_links"@)),
{
    match cache() {
        Some(c) => {
            let ghost cv = c@;
            let p = c.add_str("unified_asset_links");
            proof {
                assert(p@ == spec_add(cv, spec_normalize("unified_asset_links"@)));
            }
            Some(p)
        },
        None => None,
    }
}

/// All the user installed asset packs in directory form.
pub fn unzipped_asset_packs_cache() -> (r: Option<Path>)
    ensures
        r matches Some(p) ==> exists|c: Seq<char>|
            p@ == spec_add(c, spec_normalize("unzipped_assets"@)),
{
    match cache() {
        Some(c) => {
            let ghost cv = c@;
            let p = c.add_str("unzipped_assets");
            proof {
                assert(p@ == spec_add(cv, spec_normalize("unzipped_assets"@)));
            }
            Some(p)
        },
        None => None,
    }
}

} // verus!

use simplay::asset_manager::{build_atlas_layout, build_needed, unify_asset_links, AssetCheckBuildBehavior};
use simplay::dir;
use simplay::filesystem::Path;
use simplay::hash::bytes_checksum;
use simplay::log::LogMode;
use simplay::places;
use simplay::random;

#[test]
fn path_normalizes_backslashes() {
    assert_eq!(Path::new("a\\b\\c").to_string(), "a/b/c");
    assert_eq!(Path::new("/plain/path").to_string(), "/plain/path");
    assert_eq!(Path::split_char(), '/');
}

#[test]
fn path_basename() {
    assert_eq!(Path::new("/a/b/c.txt").basename(), "c.txt");
    assert_eq!(Path::new("solo").basename(), "solo");
    assert_eq!(Path::new("dir/").basename(), "");
    assert_eq!(Path::new("").basename(), "");
}

#[test]
fn path_parent() {
    assert_eq!(Path::new("/a/b/c.txt").parent_path().to_string(), "/a/b");
    assert_eq!(Path::new("solo").parent_path().to_string(), "solo");
    assert_eq!(Path::new("a/b").parent_path().to_string(), "a");
}

#[test]
fn path_add() {
    assert_eq!(Path::new("/a").add(&Path::new("b")).to_string(), "/a/b");
    assert_eq!(Path::new("/a").add(&Path::new("/b")).to_string(), "/a/b");
    assert_eq!(Path::new("/a").add_str("b/c").to_string(), "/a/b/c");
    assert_eq!(Path::new("/a").add_str("\\b").to_string(), "/a/b");
}

#[test]
fn places_compose_under_user_dirs() {
    // the test environment defines the user directories, so each place exists
    assert!(places::base().unwrap().to_string().ends_with("/simplay"));
    assert!(places::cache().unwrap().to_string().ends_with("/simplay"));
    assert!(places::assets().unwrap().to_string().ends_with("/simplay/assets"));
    assert!(places::custom_built_assets().unwrap().to_string().ends_with("/assets/custom_built"));
    assert!(places::asset_packs().unwrap().to_string().ends_with("/simplay/asset_packs"));
    assert!(
        places::unified_asset_links().unwrap().to_string().ends_with("/simplay/unified_asset_links")
    );
    assert!(
        places::unzipped_asset_packs_cache()
            .unwrap()
            .to_string()
            .ends_with("/simplay/unzipped_assets")
    );
    assert!(!dir::home().unwrap().to_string().is_empty());
    assert!(!dir::config().unwrap().to_string().is_empty());
    assert!(!dir::cache().unwrap().to_string().is_empty());
}

#[test]
fn checksum_of_empty_bytes_is_sha256_of_empty_text() {
    assert_eq!(
        bytes_checksum(&vec![]),
        "e3b0c44298fc1c149afbf4c8996fb92427ae41e4649b934ca495991b7852b855"
    );
}

#[test]
fn checksum_writes_bytes_as_spaced_decimals() {
    assert_eq!(bytes_checksum(&vec![1, 2, 3]), sha256::digest("1 2 3 "));
    assert_eq!(bytes_checksum(&vec![0, 45, 200]), sha256::digest("0 45 200 "));
    assert_ne!(bytes_checksum(&vec![1, 2, 3]), bytes_checksum(&vec![3, 2, 1]));
    let sum = bytes_checksum(&vec![7]);
    assert_eq!(sum.len(), 64);
    assert!(sum.chars().all(|c| c.is_ascii_hexdigit() && !c.is_ascii_uppercase()));
}

#[test]
fn random_values_stay_in_range() {
    for _ in 0..50 {
        let v = random::integer(-3..4);
        assert!((-3..4).contains(&v));
    }
    let b = random::boolean();
    assert!(b == true || b == false);
}

#[test]
fn log_prefixes_and_visibility() {
    assert_eq!(LogMode::Info.prefix(), "Info");
    assert_eq!(LogMode::Error.prefix(), "Error");
    assert_eq!(LogMode::Warning.prefix(), "Warning");
    assert_eq!(LogMode::Note.prefix(), "Note");
    assert_eq!(LogMode::Debug.prefix(), "Debug");
    assert_eq!(LogMode::Todo.prefix(), "TODO");
    assert!(LogMode::Info.shown(false));
    assert!(!LogMode::Debug.shown(false));
    assert!(LogMode::Debug.shown(true));
}

#[test]
fn build_decision() {
    assert!(build_needed(Some(AssetCheckBuildBehavior::Yes), true, true));
    assert!(!build_needed(Some(AssetCheckBuildBehavior::No), false, false));
    assert!(build_needed(Some(AssetCheckBuildBehavior::IfNeeded), false, true));
    assert!(build_needed(None, true, false));
    assert!(!build_needed(None, true, true));
}

#[test]
fn atlas_layout_groups_by_width() {
    // two 16-wide textures share a column; the 8-wide one starts beside it
    let textures = vec![
        ("a".to_string(), (16u32, 32u32)),
        ("b".to_string(), (16u32, 16u32)),
        ("c".to_string(), (8u32, 8u32)),
    ];
    let info = build_atlas_layout(&textures).unwrap();
    assert_eq!(info.size(), (24, 48));
    let a = info.resolve(&"a".to_string());
    assert_eq!((a.corner, a.size), ((0, 0), (16, 32)));
    let b = info.resolve(&"b".to_string());
    assert_eq!((b.corner, b.size), ((0, 32), (16, 16)));
    let c = info.resolve(&"c".to_string());
    assert_eq!((c.corner, c.size), ((16, 0), (8, 8)));
}

#[test]
fn atlas_layout_of_nothing_is_empty() {
    let info = build_atlas_layout(&vec![]).unwrap();
    assert_eq!(info.size(), (0, 0));
}

#[test]
fn atlas_layout_rejects_pixel_overflow() {
    // one column taller than the pixel coordinate space cannot be laid out
    let textures = vec![
        ("a".to_string(), (16u32, u32::MAX)),
        ("b".to_string(), (16u32, 16u32)),
    ];
    assert!(build_atlas_layout(&textures).is_none());
}

#[test]
fn unify_links_keeps_first_pack_per_key() {
    let found = vec![
        ("tex/a.png".to_string(), "packhigh".to_string()),
        ("tex/b.png".to_string(), "packhigh".to_string()),
        ("tex/a.png".to_string(), "packlow".to_string()),
        ("tex/c.png".to_string(), "packlow".to_string()),
    ];
    let merged = unify_asset_links(&found);
    assert_eq!(
        merged,
        vec![
            ("tex/a.png".to_string(), "packhigh".to_string()),
            ("tex/b.png".to_string(), "packhigh".to_string()),
            ("tex/c.png".to_string(), "packlow".to_string()),
        ]
    );
}

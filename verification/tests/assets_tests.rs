use mmo::assets::{generate_filename, hash_file_content, load_asset, load_assets, local_asset_path};
use mmo::server_context::{index_animations, sorted_order, AnimationError};

#[test]
fn filename_gets_hash_before_extension() {
    assert_eq!(generate_filename("tileset.png", "ab12"), "tileset.ab12.png");
    assert_eq!(generate_filename("a.tar.gz", "ff"), "a.ff.tar.gz");
    assert_eq!(generate_filename("README", "ff"), "README.ff");
    assert_eq!(generate_filename(".hidden", "ff"), ".ff.hidden");
}

#[test]
fn hash_is_lowercase_hex_sha1() {
    assert_eq!(hash_file_content(b"abc"), "a9993e364706816aba3e25717850c26c9cd0d89d");
    assert_eq!(hash_file_content(b""), "da39a3ee5e6b4b0d3255bfef95601890afd80709");
}

#[test]
fn asset_paths_from_content() {
    assert_eq!(local_asset_path("font.png"), "assets/font.png");
    let a = load_asset("tileset.png", b"abc");
    assert_eq!(a.local_path, "assets/tileset.png");
    assert_eq!(a.request_filename, "tileset.a9993e364706816aba3e25717850c26c9cd0d89d.png");
    assert_eq!(a.request_path, "/assets/tileset.a9993e364706816aba3e25717850c26c9cd0d89d.png");
}

#[test]
fn all_assets_are_looked_up_by_request_name() {
    let paths = load_assets(b"1", b"2", b"3", b"4");
    assert_eq!(paths.lookup.len(), 4);
    assert_eq!(paths.paths.tileset, paths.lookup[0].request_path);
    assert_eq!(paths.paths.font_meta, paths.lookup[3].request_path);
    assert!(paths.lookup[3].local_path.ends_with("notosans.json"));
    let name = paths.lookup[1].request_filename.clone();
    assert_eq!(paths.lookup_asset(&name).unwrap().local_path, "assets/charset.png");
    assert!(paths.lookup_asset("charset.png").is_none());
}

#[test]
fn animations_are_sorted_by_name() {
    let names = vec!["walk".to_string(), "bat".to_string(), "player".to_string(), "b".to_string()];
    assert_eq!(sorted_order(&names), vec![3, 1, 2, 0]);
    let ix = index_animations(&names, &"player".to_string(), &vec!["bat".to_string(), "walk".to_string()]).unwrap();
    assert_eq!(ix.order, vec![3, 1, 2, 0]);
    assert_eq!(ix.player_animation, 2);
    assert_eq!(ix.mob_animations, vec![1, 3]);
}

#[test]
fn missing_animations_are_errors() {
    let names = vec!["a".to_string(), "b".to_string()];
    assert_eq!(
        index_animations(&names, &"c".to_string(), &vec![]).unwrap_err(),
        AnimationError::PlayerAnimationNotFound
    );
    assert_eq!(
        index_animations(&names, &"a".to_string(), &vec!["b".to_string(), "x".to_string()]).unwrap_err(),
        AnimationError::MobAnimationNotFound
    );
}

use krill::assets::path::AssetPath;
use krill::assets::LoadAssetError;

#[test]
fn from_string() {
    assert!("/test".parse::<AssetPath>().expect("should successfully parse").is_absolute());
    assert!("test".parse::<AssetPath>().expect("should successfully parse").is_relative());
    assert_eq!(
        "test_file$"
            .parse::<AssetPath>()
            .expect_err("should fail to parse because of invalid character")
            .path(),
        "test_file$",
    );
}

#[test]
fn resolve() {
    // Represents an asset file, 'index.json', which refers to a dependency 'file.txt'.
    let base = AssetPath::new("/test/index.json")
        .expect("absolute path");
    let relative = AssetPath::new("file.txt")
        .expect("relative path");
    let resolved = AssetPath::new("/test/file.txt")
        .expect("resolved path");
    assert_eq!(base.resolve(relative), Some(resolved))
}

#[test]
fn resolve_relative_to_relative() {
    let base = AssetPath::new("relative/file.txt").unwrap();
    let relative = AssetPath::new("another/rel/file.jpeg").unwrap();
    assert_eq!(base.resolve(relative), None);
}

#[test]
fn resolve_at_root_and_absolute_path() {
    let base = AssetPath::new("/index.json").unwrap();
    let relative = AssetPath::new("shader.wgsl").unwrap();
    assert_eq!(base.resolve(relative).unwrap().path_string(), "/shader.wgsl");
    let absolute = AssetPath::new("/other/x.toml").unwrap();
    assert_eq!(base.resolve(absolute.clone()), Some(absolute));
}

#[test]
fn rejects_empty_and_spaces() {
    assert!(AssetPath::new("").is_err());
    assert!(AssetPath::new("a b").is_err());
    assert!(AssetPath::new("a-b_c.d/0").is_ok());
}

#[test]
fn from_match_follows_the_flag() {
    assert_eq!(AssetPath::from_match("x", true).unwrap().path_string(), "x");
    assert_eq!(AssetPath::from_match("x", false).unwrap_err().path(), "x");
}

#[test]
fn append_extends_last_segment() {
    let path = AssetPath::new("/pipelines/basic").unwrap().append(".toml");
    assert_eq!(path.path_string(), "/pipelines/basic.toml");
}

#[test]
fn other_error_keeps_message() {
    match LoadAssetError::other("disk on fire") {
        LoadAssetError::Other(message) => assert_eq!(message, "disk on fire"),
        _ => panic!("wrong variant"),
    }
}

#[test]
fn allowed_characters_only() {
    assert!(AssetPath::new("a-b_c.d/E9").is_ok());
    assert!(AssetPath::new("").is_err());
    assert!(AssetPath::new("a b").is_err());
    assert!(AssetPath::new("ä").is_err());
}

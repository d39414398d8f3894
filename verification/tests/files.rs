use std::path::PathBuf;

use backend::files::{
    ensure_component, gcode_file_name, model_file_name, safe_ext, thumbnail_file_name, FileStore,
    FilesError, Space,
};
use backend::ids::{GcodeId, ModelId, UserId};

#[test]
fn path_traversal_is_impossible() {
    let err = model_file_name(ModelId::new(), "../../etc/passwd").unwrap_err();
    assert!(matches!(err, FilesError::UnsafeName(_)), "{err:?}");
}

#[test]
fn users_are_isolated_in_separate_dirs() {
    let store = FileStore::new("/data");
    let a = UserId::new();
    let b = UserId::new();
    let pa = store.space_dir(a, Space::Gcodes);
    let pb = store.space_dir(b, Space::Gcodes);
    assert_ne!(pa, pb, "espaces disjoints par utilisateur");
    assert!(pa.contains(&a.to_text()));
}

#[test]
fn spaces_have_fixed_directory_names() {
    assert_eq!(Space::Models.dir(), "models");
    assert_eq!(Space::Gcodes.dir(), "gcodes");
    assert_eq!(Space::Thumbnails.dir(), "thumbnails");
    let store = FileStore::new("/data");
    let user = UserId::new();
    assert_eq!(
        PathBuf::from(store.user_root(user)),
        PathBuf::from(format!("/data/users/{}", user.to_text()))
    );
    assert_eq!(
        PathBuf::from(store.space_dir(user, Space::Models)),
        PathBuf::from(format!("/data/users/{}/models", user.to_text()))
    );
}

#[test]
fn stored_file_names_are_built_from_ids() {
    let model = ModelId::new();
    assert_eq!(model_file_name(model, "stl").unwrap(), format!("{}.stl", model.to_text()));
    let gcode = GcodeId::new();
    assert_eq!(gcode_file_name(gcode), format!("{}.gcode", gcode.to_text()));
    assert_eq!(thumbnail_file_name(gcode), format!("{}.png", gcode.to_text()));
}

#[test]
fn extensions_and_components_are_checked() {
    assert_eq!(safe_ext("3mf").unwrap(), "3mf");
    assert!(safe_ext("").is_err());
    assert!(safe_ext("st l").is_err());
    assert!(ensure_component("file.stl").is_ok());
    for bad in ["", "..", "a/b", "a\\b", "a\0b"] {
        assert!(matches!(ensure_component(bad), Err(FilesError::UnsafeName(_))), "{bad:?}");
    }
    // A single dot, or dots inside a name, are harmless.
    assert!(ensure_component(".").is_ok());
    assert!(ensure_component("a..b").is_ok());
}

#[test]
fn target_joins_the_space_and_the_name() {
    let store = FileStore::new("/data");
    let user = UserId::new();
    let (dir, path) = store.target(user, Space::Thumbnails, "x.png").unwrap();
    assert_eq!(PathBuf::from(&dir), PathBuf::from(store.space_dir(user, Space::Thumbnails)));
    assert_eq!(PathBuf::from(path), PathBuf::from(dir).join("x.png"));
    assert!(store.target(user, Space::Models, "../x").is_err());
}

#[test]
fn user_roots_join_with_one_separator() {
    let user = UserId(0x0123_4567_89ab_cdef_0011_2233_4455_6677);
    let text = "01234567-89ab-cdef-0011-223344556677";
    assert_eq!(user.to_text(), text);
    assert_eq!(FileStore::new("data").user_root(user), format!("data/users/{text}"));
    assert_eq!(FileStore::new("data/").user_root(user), format!("data/users/{text}"));
    assert_eq!(FileStore::new("").user_root(user), format!("users/{text}"));
    assert_ne!(FileStore::new("data").user_root(UserId(1)), FileStore::new("data").user_root(UserId(2)));
}

use dpc::output::datapack::files::{get_func_path, get_func_tag_path, get_resource_path, ResourcePathError};
use dpc::output::datapack::{Datapack, Function, Tag};

#[test]
fn test_func_path() {
    assert_eq!(
        get_func_path("game:gen/main").unwrap(),
        String::from("game/functions/gen/main.mcfunction")
    );
}

#[test]
fn func_tag_path() {
    assert_eq!(get_func_tag_path("minecraft:load").unwrap(), "minecraft/tags/functions/load.json");
}

#[test]
fn resource_path_splits_at_first_colon() {
    assert_eq!(get_resource_path("a:b:c", "x", "y").unwrap(), "a/x/b:c.y");
    assert_eq!(get_resource_path(":", "t", "e").unwrap(), "/t/.e");
}

#[test]
fn resource_path_without_colon_fails() {
    assert_eq!(get_func_path("nocolon"), Err(ResourcePathError::NoColon));
    assert_eq!(get_func_tag_path(""), Err(ResourcePathError::NoColon));
    assert_eq!(ResourcePathError::NoColon.message(), "No colon in resource location");
}

#[test]
fn empty_datapack_parts() {
    let pack = Datapack::new();
    assert!(pack.functions.is_empty());
    assert!(pack.function_tags.is_empty());
    assert!(Function::new().contents.is_empty());
    assert!(Tag::new().inner.values.is_empty());
}

#[test]
fn the_missing_colon_error_has_its_message() {
    assert_eq!(
        dpc::output::datapack::files::ResourcePathError::NoColon.message(),
        "No colon in resource location"
    );
}

use rust_opengl_learn::paths::{cubemap_face_paths, texture_path, uniform_key};
use rust_opengl_learn::{build_filename, concat_filepath};

#[test]
fn build_filename_adds_dot() {
    assert_eq!(build_filename("right", "jpg"), "right.jpg");
}

#[test]
fn build_filename_keeps_given_dot() {
    assert_eq!(build_filename("right", ".jpg"), "right.jpg");
}

#[test]
fn build_filename_empty_suffix() {
    assert_eq!(build_filename("right", ""), "right.");
}

#[test]
fn concat_filepath_adds_slash() {
    assert_eq!(concat_filepath("src/textures", "sky.png"), "src/textures/sky.png");
}

#[test]
fn concat_filepath_first_ends_with_slash() {
    assert_eq!(concat_filepath("src/textures/", "sky.png"), "src/textures/sky.png");
}

#[test]
fn concat_filepath_second_starts_with_slash() {
    assert_eq!(concat_filepath("src/textures", "/sky.png"), "src/textures/sky.png");
}

#[test]
fn concat_filepath_both_slashes_kept() {
    assert_eq!(concat_filepath("a/", "/b"), "a//b");
}

#[test]
fn concat_filepath_empty_first() {
    assert_eq!(concat_filepath("", "b"), "/b");
}

#[test]
fn cubemap_paths_in_face_order() {
    let paths = cubemap_face_paths("src/skybox", "jpg");
    assert_eq!(
        paths,
        vec![
            "src/skybox/right.jpg",
            "src/skybox/left.jpg",
            "src/skybox/top.jpg",
            "src/skybox/bottom.jpg",
            "src/skybox/front.jpg",
            "src/skybox/back.jpg",
        ]
    );
}

#[test]
fn cubemap_paths_with_dotted_suffix_and_slash() {
    let paths = cubemap_face_paths("sky/", ".png");
    assert_eq!(paths[0], "sky/right.png");
    assert_eq!(paths[5], "sky/back.png");
}

#[test]
fn uniform_key_joins() {
    assert_eq!(uniform_key("lights[0]", ".position"), "lights[0].position");
}

#[test]
fn texture_path_joins_without_slash() {
    assert_eq!(texture_path("models/nanosuit/", "body.png"), "models/nanosuit/body.png");
    assert_eq!(texture_path("models", "body.png"), "modelsbody.png");
}

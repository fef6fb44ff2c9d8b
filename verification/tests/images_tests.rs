use rust_opengl_learn::images::{image_format, image_from_decoded, load_image, str_ends_with, ImageFormatKind, ImageLoadError};
use rust_opengl_learn::material::{parse_valid_texture_paths, unique_texture_paths, TextureMaps};
use rust_opengl_learn::matrix::matrix4_to_raw;

fn png_bytes() -> Vec<u8> {
    let img = image::RgbaImage::from_raw(2, 1, vec![1, 2, 3, 4, 5, 6, 7, 8]).unwrap();
    let mut out = std::io::Cursor::new(Vec::new());
    img.write_to(&mut out, image::ImageOutputFormat::Png).unwrap();
    out.into_inner()
}

#[test]
fn format_from_name() {
    assert_eq!(image_format("a/b.png"), Some(ImageFormatKind::Png));
    assert_eq!(image_format("c.jpg"), Some(ImageFormatKind::Jpeg));
    assert_eq!(image_format("c.jpeg"), None);
    assert_eq!(image_format("png"), None);
    assert!(str_ends_with("abc", "bc"));
    assert!(str_ends_with("abc", ""));
    assert!(!str_ends_with("bc", "abc"));
}

#[test]
fn load_png() {
    let img = load_image("tex.png", &png_bytes()).unwrap();
    assert_eq!(img.width, 2);
    assert_eq!(img.height, 1);
    assert_eq!(img.data, vec![1, 2, 3, 4, 5, 6, 7, 8]);
}

#[test]
fn load_rejects_bad_bytes() {
    assert_eq!(load_image("tex.png", &[1, 2, 3]).err(), Some(ImageLoadError::Decode));
    assert_eq!(load_image("tex.jpg", &png_bytes()).err(), Some(ImageLoadError::Decode));
}

#[test]
fn decoded_to_image() {
    let img = image_from_decoded(Some((vec![9; 4], 1, 1))).unwrap();
    assert_eq!((img.width, img.height), (1, 1));
    assert_eq!(image_from_decoded(None).err(), Some(ImageLoadError::Decode));
}

fn maps(name: &str, kd: Option<&str>, bump: Option<&str>, refl: Option<&str>) -> TextureMaps {
    TextureMaps {
        name: name.to_string(),
        map_ka: None,
        map_kd: kd.map(|s| s.to_string()),
        map_ks: None,
        map_ke: None,
        map_ns: Some("ns.png".to_string()),
        map_d: None,
        map_bump: bump.map(|s| s.to_string()),
        map_refl: refl.map(|s| s.to_string()),
    }
}

#[test]
fn texture_paths_of_material() {
    let m = maps("body", Some("body_d.png"), Some("body_n.png"), Some("refl.png"));
    assert_eq!(parse_valid_texture_paths("models/", &m), vec!["models/body_d.png", "models/body_n.png"]);
}

#[test]
fn texture_paths_of_all_materials_once() {
    let ms = vec![maps("a", Some("x.png"), None, None), maps("b", Some("x.png"), Some("y.png"), None)];
    let mut paths = unique_texture_paths("m/", &ms);
    paths.sort();
    assert_eq!(paths, vec!["m/x.png", "m/y.png"]);
}

#[test]
fn matrix_rows() {
    let columns = [[1, 2, 3, 4], [5, 6, 7, 8], [9, 10, 11, 12], [13, 14, 15, 16]];
    let rows = matrix4_to_raw(columns);
    assert_eq!(rows, [[1, 5, 9, 13], [2, 6, 10, 14], [3, 7, 11, 15], [4, 8, 12, 16]]);
    assert_eq!(matrix4_to_raw(rows), columns);
}

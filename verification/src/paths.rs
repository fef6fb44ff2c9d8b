//! Building file names and file paths.
use vstd::prelude::*;
use vstd::string::*;

verus! {

/// `s` begins with the character `c`.
pub open spec fn starts_with_char(s: Seq<char>, c: char) -> bool {
    s.len() > 0 && s[0] == c
}

/// `s` ends with the character `c`.
pub open spec fn ends_with_char(s: Seq<char>, c: char) -> bool {
    s.len() > 0 && s[s.len() - 1] == c
}

/// The file name made of `name` and `suffix`: a dot is put between them
/// unless `suffix` already begins with one.
pub open spec fn spec_build_filename(name: Seq<char>, suffix: Seq<char>) -> Seq<char> {
    if starts_with_char(suffix, '.') {
        name + suffix
    } else {
        name + seq!['.'] + suffix
    }
}

/// The path made of `path1` and `path2`: a slash is put between them unless
/// `path1` ends with one or `path2` begins with one.
pub open spec fn spec_concat_filepath(path1: Seq<char>, path2: Seq<char>) -> Seq<char> {
    if ends_with_char(path1, '/') || starts_with_char(path2, '/') {
        path1 + path2
    } else {
        path1 + seq!['/'] + path2
    }
}

fn str_starts_with_char(s: &str, c: char) -> (r: bool)
    ensures
        r == starts_with_char(s@, c),
{
    let n = s.unicode_len();
    n > 0 && s.get_char(0) == c
}

fn str_ends_with_char(s: &str, c: char) -> (r: bool)
    ensures
        r == ends_with_char(s@, c),
{
    let n = s.unicode_len();
    n > 0 && s.get_char(n - 1) == c
}

/// Builds a file name from `name` and `suffix`, such as `right.jpg` from
/// `right` and `jpg` or `.jpg`.
pub fn build_filename(name: &str, suffix: &str) -> (r: String)
    ensures
        r@ == spec_build_filename(name@, suffix@),
{
    let mut result = String::from_str(name);
    if !str_starts_with_char(suffix, '.') {
        result.append(".");
        proof {
            reveal_strlit(".");
        }
    }
    result.append(suffix);
    result
}

/// Joins two parts of a path with exactly the slash that is missing.
pub fn concat_filepath(path1: &str, path2: &str) -> (r: String)
    ensures
        r@ == spec_concat_filepath(path1@, path2@),
{
    let mut path = String::from_str(path1);
    if !(str_ends_with_char(path1, '/') || str_starts_with_char(path2, '/')) {
        path.append("/");
        proof {
            reveal_strlit("/");
        }
    }
    path.append(path2);
    path
}

/// The key of a uniform value: its prefix followed by its suffix, such as
/// `light.position` from `light` and `.position`.
pub fn uniform_key(key_prefix: &str, key_suffix: &str) -> (r: String)
    ensures
        r@ == key_prefix@ + key_suffix@,
{
    let mut key = String::from_str(key_prefix);
    key.append(key_suffix);
    key
}

/// The path of a texture file named in a material library: the base path
/// of the model directly followed by the file name.
pub fn texture_path(basepath: &str, file: &str) -> (r: String)
    ensures
        r@ == basepath@ + file@,
{
    let mut path = String::from_str(basepath);
    path.append(file);
    path
}

/// The names of the faces of a cube map, in the order in which the faces
/// are loaded.
pub open spec fn cube_face_names() -> Seq<Seq<char>> {
    seq!["right"@, "left"@, "top"@, "bottom"@, "front"@, "back"@]
}

/// The path of the image of each face of a cube map kept in directory `dir`
/// with file suffix `suffix`, in the order of `cube_face_names`.
pub fn cubemap_face_paths(dir: &str, suffix: &str) -> (r: Vec<String>)
    ensures
        r.len() == 6,
        forall|k: int|
            0 <= k < 6 ==> #[trigger] r[k]@ == spec_concat_filepath(
                dir@,
                spec_build_filename(cube_face_names()[k], suffix@),
            ),
{
    let mut r: Vec<String> = Vec::new();
    r.push(concat_filepath(dir, &build_filename("right", suffix)));
    r.push(concat_filepath(dir, &build_filename("left", suffix)));
    r.push(concat_filepath(dir, &build_filename("top", suffix)));
    r.push(concat_filepath(dir, &build_filename("bottom", suffix)));
    r.push(concat_filepath(dir, &build_filename("front", suffix)));
    r.push(concat_filepath(dir, &build_filename("back", suffix)));
    r
}

} // verus!

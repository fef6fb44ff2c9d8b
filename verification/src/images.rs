//! Loading of texture images: the format is told by the file name, and the
//! `image` crate decodes the bytes into RGBA pixels.
use std::io::Cursor;
use vstd::prelude::*;
use vstd::string::*;

verus! {

/// The image formats that textures come in.
#[derive(Clone, Copy, Debug, PartialEq, Eq, Structural)]
pub enum ImageFormatKind {
    Png,
    Jpeg,
}

/// `s` ends with `suffix`.
pub open spec fn ends_with(s: Seq<char>, suffix: Seq<char>) -> bool {
    s.len() >= suffix.len() && s.skip(s.len() - suffix.len()) == suffix
}

/// The format of an image file: PNG for a name ending in `.png`, JPEG for
/// one ending in `.jpg`, none for any other.
pub open spec fn spec_image_format(path: Seq<char>) -> Option<ImageFormatKind> {
    if ends_with(path, ".png"@) {
        Some(ImageFormatKind::Png)
    } else if ends_with(path, ".jpg"@) {
        Some(ImageFormatKind::Jpeg)
    } else {
        None
    }
}

/// Whether `s` ends with `suffix`.
pub fn str_ends_with(s: &str, suffix: &str) -> (r: bool)
    ensures
        r == ends_with(s@, suffix@),
{
    let n = s.unicode_len();
    let m = suffix.unicode_len();
    if m > n {
        return false;
    }
    let start = n - m;
    let mut k: usize = 0;
    while k < m
        invariant
            n == s@.len(),
            m == suffix@.len(),
            m <= n,
            start == n - m,
            k <= m,
            forall|j: int| 0 <= j < k ==> s@[start + j] == suffix@[j],
        decreases m - k,
    {
        if s.get_char(start + k) != suffix.get_char(k) {
            assert(s@.skip(start as int)[k as int] != suffix@[k as int]);
            return false;
        }
        k = k + 1;
    }
    assert(s@.skip(start as int) =~= suffix@);
    true
}

/// The format of an image file, told by its name.
pub fn image_format(path: &str) -> (r: Option<ImageFormatKind>)
    ensures
        r == spec_image_format(path@),
{
    if str_ends_with(path, ".png") {
        Some(ImageFormatKind::Png)
    } else if str_ends_with(path, ".jpg") {
        Some(ImageFormatKind::Jpeg)
    } else {
        None
    }
}

/// What `image::load` followed by `to_rgba8` makes of the bytes of a file in
/// a format: the RGBA pixels, row by row, with the width and the height, or
/// nothing where the bytes do not decode.
pub uninterp spec fn decoded_rgba(bytes: Seq<u8>, format: ImageFormatKind) -> Option<(Seq<u8>, u32, u32)>;

/// Calls `image::load` on the bytes with the format, then `to_rgba8`,
/// `dimensions` and `into_raw` on the image. The contract names the result,
/// which depends on the bytes and the format alone, and claims that the
/// pixels take four bytes each, as the RGBA buffer that `to_rgba8` makes
/// holds them.
#[verifier::external_body]
fn decode_rgba(bytes: &[u8], format: ImageFormatKind) -> (r: Option<(Vec<u8>, u32, u32)>)
    ensures
        decoded_rgba(bytes@, format) == match r {
            Some((data, width, height)) => Some((data@, width, height)),
            None => None,
        },
        r matches Some((data, width, height)) ==> data@.len() == 4 * width * height,
{
    let format = match format {
        ImageFormatKind::Png => image::ImageFormat::Png,
        ImageFormatKind::Jpeg => image::ImageFormat::Jpeg,
    };
    match image::load(Cursor::new(bytes), format) {
        Ok(image) => {
            let rgba = image.to_rgba8();
            let (width, height) = rgba.dimensions();
            Some((rgba.into_raw(), width, height))
        },
        Err(_) => None,
    }
}

/// An image as RGBA pixels, row by row.
pub struct RgbaImage {
    pub data: Vec<u8>,
    pub width: u32,
    pub height: u32,
}

/// Why an image could not be loaded.
#[derive(Clone, Copy, Debug, PartialEq, Eq, Structural)]
pub enum ImageLoadError {
    /// The bytes do not decode in the format.
    Decode,
}

/// The image that a decoding gave, or the decoding error.
pub fn image_from_decoded(decoded: Option<(Vec<u8>, u32, u32)>) -> (r: Result<RgbaImage, ImageLoadError>)
    ensures
        match decoded {
            Some((data, width, height)) => r matches Ok(img) && img.data@ == data@ && img.width
                == width && img.height == height,
            None => r == Err::<RgbaImage, ImageLoadError>(ImageLoadError::Decode),
        },
{
    match decoded {
        Some((data, width, height)) => Ok(RgbaImage { data, width, height }),
        None => Err(ImageLoadError::Decode),
    }
}

/// Loads the image whose file is named `path` and holds `bytes`: the name,
/// which must end in `.png` or `.jpg`, tells the format, then the bytes are
/// decoded in it.
pub fn load_image(path: &str, bytes: &[u8]) -> (r: Result<RgbaImage, ImageLoadError>)
    requires
        spec_image_format(path@) is Some,
    ensures
        match decoded_rgba(bytes@, spec_image_format(path@)->0) {
            Some((data, width, height)) => r matches Ok(img) && img.data@ == data && img.width
                == width && img.height == height,
            None => r == Err::<RgbaImage, ImageLoadError>(ImageLoadError::Decode),
        },
        r matches Ok(img) ==> img.data@.len() == 4 * img.width * img.height,
{
    match image_format(path) {
        Some(format) => image_from_decoded(decode_rgba(bytes, format)),
        None => Err(ImageLoadError::Decode),
    }
}

} // verus!

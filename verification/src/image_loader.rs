use vstd::prelude::*;
use crate::perceptual_hash::ImageData;
use crate::text::str_eq;

verus! {

/// Image loader that may cap the size of the images it hands out.
#[derive(Debug, Clone, Copy)]
pub struct StandardImageLoader {
    max_dimension: Option<u32>,
}

impl View for StandardImageLoader {
    type V = Option<u32>;

    /// The largest width or height kept, if there is a cap.
    closed spec fn view(&self) -> Option<u32> {
        self.max_dimension
    }
}

impl StandardImageLoader {
    /// A loader without a size cap.
    pub fn new() -> (r: Self)
        ensures
            r@ is None,
    {
        StandardImageLoader { max_dimension: None }
    }

    /// A loader that shrinks images wider or higher than `max_dimension`.
    pub fn with_max_dimension(max_dimension: u32) -> (r: Self)
        ensures
            r@ == Some(max_dimension),
    {
        StandardImageLoader { max_dimension: Some(max_dimension) }
    }

    /// The cap on width and height, if any.
    pub fn max_dimension(&self) -> (r: Option<u32>)
        ensures
            r == self@,
    {
        self.max_dimension
    }

    pub fn strategy_name(&self) -> (r: &'static str)
        ensures
            r@ == (if self@ is Some {
                "Standard with size limit"@
            } else {
                "Standard"@
            }),
    {
        if self.max_dimension.is_some() {
            "Standard with size limit"
        } else {
            "Standard"
        }
    }

    /// Largest number of pixels an image keeps: the cap squared.
    pub fn max_supported_pixels(&self) -> (r: Option<u64>)
        ensures
            match self@ {
                Some(d) => r == Some((d * d) as u64),
                None => r is None,
            },
    {
        match self.max_dimension {
            Some(d) => {
                let dim = d as u64;
                proof {
                    assert(dim * dim <= u32::MAX * u32::MAX) by (nonlinear_arith)
                        requires
                            dim <= u32::MAX,
                    ;
                }
                Some(dim * dim)
            },
            None => None,
        }
    }

    /// Whether an image of `width` x `height` exceeds the cap and is shrunk
    /// on loading.
    pub fn needs_resize(&self, width: u32, height: u32) -> (r: bool)
        ensures
            r == match self@ {
                Some(d) => width > d || height > d,
                None => false,
            },
    {
        match self.max_dimension {
            Some(d) => width > d || height > d,
            None => false,
        }
    }

    /// Bytes needed to hold an image of `width` x `height` after loading:
    /// four bytes per pixel of the capped size, twice over for processing.
    pub fn estimate_memory_usage(&self, width: u32, height: u32) -> (r: u64)
        requires
            capped(width, self@) * capped(height, self@) * 8 <= u64::MAX,
        ensures
            r == capped(width, self@) * capped(height, self@) * 8,
    {
        let w: u32 = match self.max_dimension {
            Some(d) => if width < d { width } else { d },
            None => width,
        };
        let h: u32 = match self.max_dimension {
            Some(d) => if height < d { height } else { d },
            None => height,
        };
        let w64 = w as u64;
        let h64 = h as u64;
        proof {
            assert(w64 * h64 * 4 <= w64 * h64 * 8) by (nonlinear_arith);
            assert(w64 * h64 <= w64 * h64 * 4) by (nonlinear_arith);
        }
        w64 * h64 * 4 * 2
    }
}

impl Default for StandardImageLoader {
    fn default() -> (r: Self)
        ensures
            r@ is None,
    {
        StandardImageLoader::new()
    }
}

/// A side length limited by an optional cap.
pub open spec fn capped(side: u32, cap: Option<u32>) -> int {
    match cap {
        Some(d) => if side < d {
            side as int
        } else {
            d as int
        },
        None => side as int,
    }
}

/// Bytes of an RGBA image of `width` x `height`: the estimate for a loader
/// without its own.
pub fn default_memory_estimate(width: u32, height: u32) -> (r: u64)
    requires
        width * height * 4 <= u64::MAX,
    ensures
        r == width * height * 4,
{
    let w = width as u64;
    let h = height as u64;
    proof {
        assert(w * h <= w * h * 4) by (nonlinear_arith);
    }
    w * h * 4
}

/// An image loading strategy: its name, the largest image it keeps and the
/// memory an image of a given size takes with it.
pub trait ImageLoaderBackend {
    fn strategy_name(&self) -> &'static str;

    /// Largest number of pixels kept; no limit by default.
    fn max_supported_pixels(&self) -> (r: Option<u64>)
        default_ensures
            r is None,
    {
        None
    }

    /// Bytes needed for an image of `width` x `height`; by default four
    /// bytes per pixel.
    fn estimate_memory_usage(&self, width: u32, height: u32) -> (r: u64)
        requires
            width * height * 8 <= u64::MAX,
        default_ensures
            r == width * height * 4,
    {
        proof {
            assert(width * height * 4 <= width * height * 8) by (nonlinear_arith);
        }
        default_memory_estimate(width, height)
    }
}

impl ImageLoaderBackend for StandardImageLoader {
    fn strategy_name(&self) -> (r: &'static str)
        ensures
            r@ == (if self@ is Some {
                "Standard with size limit"@
            } else {
                "Standard"@
            }),
    {
        StandardImageLoader::strategy_name(self)
    }

    fn max_supported_pixels(&self) -> (r: Option<u64>)
        ensures
            match self@ {
                Some(d) => r == Some((d * d) as u64),
                None => r is None,
            },
    {
        StandardImageLoader::max_supported_pixels(self)
    }

    fn estimate_memory_usage(&self, width: u32, height: u32) -> (r: u64)
        ensures
            r == capped(width, self@) * capped(height, self@) * 8,
    {
        proof {
            let w = capped(width, self@);
            let h = capped(height, self@);
            assert(w * h * 8 <= width * height * 8) by (nonlinear_arith)
                requires
                    0 <= w <= width,
                    0 <= h <= height,
            ;
        }
        StandardImageLoader::estimate_memory_usage(self, width, height)
    }
}

/// The image formats this build decodes.
#[derive(Debug, Clone, Copy, PartialEq, Eq, Structural)]
pub enum ImageFormat {
    Png,
    Jpeg,
    Gif,
    Bmp,
    Tiff,
    WebP,
}

impl ImageFormat {
    /// The format's name as the image crate writes it in messages.
    pub open spec fn name_spec(self) -> Seq<char> {
        match self {
            ImageFormat::Png => "Png"@,
            ImageFormat::Jpeg => "Jpeg"@,
            ImageFormat::Gif => "Gif"@,
            ImageFormat::Bmp => "Bmp"@,
            ImageFormat::Tiff => "Tiff"@,
            ImageFormat::WebP => "WebP"@,
        }
    }

    pub fn name(&self) -> (r: &'static str)
        ensures
            r@ == self.name_spec(),
    {
        match self {
            ImageFormat::Png => "Png",
            ImageFormat::Jpeg => "Jpeg",
            ImageFormat::Gif => "Gif",
            ImageFormat::Bmp => "Bmp",
            ImageFormat::Tiff => "Tiff",
            ImageFormat::WebP => "WebP",
        }
    }
}

/// The width, height and 8-bit RGB pixels that the image crate decodes from
/// `data`, guessing the format from the bytes, or `None` where it cannot.
pub uninterp spec fn decoded_rgb(data: Seq<u8>) -> Option<(u32, u32, Seq<u8>)>;

/// The width, height and 8-bit RGB pixels that the image crate decodes from
/// `data` read as `format`, or `None` where it cannot.
pub uninterp spec fn decoded_rgb_as(data: Seq<u8>, format: ImageFormat) -> Option<(u32, u32, Seq<u8>)>;

/// The extension of a path as `std::path::Path::extension` finds it.
pub uninterp spec fn extension_of(path: Seq<char>) -> Option<Seq<char>>;

/// Whether an image decoded as `decoded` is `image`, with three bytes per
/// pixel.
pub open spec fn is_decoded(image: ImageData, decoded: Option<(u32, u32, Seq<u8>)>) -> bool {
    &&& image.wf()
    &&& decoded == Some((image.width, image.height, image.pixels@))
}

/// `s` with ASCII capitals in lower case.
pub open spec fn ascii_lower(s: Seq<char>) -> Seq<char> {
    s.map_values(|c: char| if 'A' <= c <= 'Z' { ((c as u32) + 32) as char } else { c })
}

/// The format the image crate assigns to a file extension, among those this
/// build decodes.
pub open spec fn extension_format(ext: Seq<char>) -> Option<ImageFormat> {
    let e = ascii_lower(ext);
    if e == "jpg"@ || e == "jpeg"@ || e == "jfif"@ {
        Some(ImageFormat::Jpeg)
    } else if e == "png"@ || e == "apng"@ {
        Some(ImageFormat::Png)
    } else if e == "gif"@ {
        Some(ImageFormat::Gif)
    } else if e == "webp"@ {
        Some(ImageFormat::WebP)
    } else if e == "tif"@ || e == "tiff"@ {
        Some(ImageFormat::Tiff)
    } else if e == "bmp"@ {
        Some(ImageFormat::Bmp)
    } else {
        None
    }
}

/// Calls `image::load_from_memory` (the format guessed from the bytes) and
/// `DynamicImage::to_rgb8`; a decoding error gives `None`. The pixels have
/// three bytes each.
#[verifier::external_body]
fn decode_rgb(data: &Vec<u8>) -> (r: Option<ImageData>)
    ensures
        match r {
            Some(i) => is_decoded(i, decoded_rgb(data@)),
            None => decoded_rgb(data@) is None,
        },
{
    match image::load_from_memory(data) {
        Ok(image) => {
            let rgb = image.to_rgb8();
            Some(ImageData { width: rgb.width(), height: rgb.height(), pixels: rgb.into_raw() })
        },
        Err(_) => None,
    }
}

/// Calls `image::load_from_memory_with_format` with the image crate's
/// format of the same name and `DynamicImage::to_rgb8`; a decoding error
/// gives `None`. The pixels have three bytes each.
#[verifier::external_body]
fn decode_rgb_as(data: &Vec<u8>, format: ImageFormat) -> (r: Option<ImageData>)
    ensures
        match r {
            Some(i) => is_decoded(i, decoded_rgb_as(data@, format)),
            None => decoded_rgb_as(data@, format) is None,
        },
{
    let format = match format {
        ImageFormat::Png => image::ImageFormat::Png,
        ImageFormat::Jpeg => image::ImageFormat::Jpeg,
        ImageFormat::Gif => image::ImageFormat::Gif,
        ImageFormat::Bmp => image::ImageFormat::Bmp,
        ImageFormat::Tiff => image::ImageFormat::Tiff,
        ImageFormat::WebP => image::ImageFormat::WebP,
    };
    match image::load_from_memory_with_format(data, format) {
        Ok(image) => {
            let rgb = image.to_rgb8();
            Some(ImageData { width: rgb.width(), height: rgb.height(), pixels: rgb.into_raw() })
        },
        Err(_) => None,
    }
}

/// Calls `image::ImageFormat::from_extension`, which lower-cases the ASCII
/// letters of the extension and looks it up in a fixed table; formats that
/// this build does not decode give `None`.
#[verifier::external_body]
fn format_for_extension(ext: &str) -> (r: Option<ImageFormat>)
    ensures
        r == extension_format(ext@),
{
    match image::ImageFormat::from_extension(ext) {
        Some(image::ImageFormat::Png) => Some(ImageFormat::Png),
        Some(image::ImageFormat::Jpeg) => Some(ImageFormat::Jpeg),
        Some(image::ImageFormat::Gif) => Some(ImageFormat::Gif),
        Some(image::ImageFormat::Bmp) => Some(ImageFormat::Bmp),
        Some(image::ImageFormat::Tiff) => Some(ImageFormat::Tiff),
        Some(image::ImageFormat::WebP) => Some(ImageFormat::WebP),
        _ => None,
    }
}

/// Calls `std::path::Path::extension` on the path and renders the extension
/// as text.
#[verifier::external_body]
fn path_extension(path: &str) -> (r: Option<String>)
    ensures
        match r {
            Some(e) => extension_of(path@) == Some(e@),
            None => extension_of(path@) is None,
        },
{
    match std::path::Path::new(path).extension() {
        Some(ext) => Some(ext.to_string_lossy().into_owned()),
        None => None,
    }
}

/// The format a file is read as: that of its extension, when it has a
/// non-empty one.
pub open spec fn path_format(path: Seq<char>) -> Option<ImageFormat> {
    match extension_of(path) {
        Some(e) => if e.len() > 0 {
            extension_format(e)
        } else {
            None
        },
        None => None,
    }
}

/// Decodes the bytes of the file at `path`, read as the format of its
/// extension.
fn decode_by_extension(path: &str, data: &Vec<u8>) -> (r: Option<ImageData>)
    ensures
        match r {
            Some(i) => path_format(path@) matches Some(f) && is_decoded(i, decoded_rgb_as(data@, f)),
            None => path_format(path@) matches Some(f) ==> decoded_rgb_as(data@, f) is None,
        },
{
    let format = match path_extension(path) {
        Some(ext) => if ext.as_str().unicode_len() > 0 {
            format_for_extension(ext.as_str())
        } else {
            None
        },
        None => None,
    };
    match format {
        Some(f) => decode_rgb_as(data, f),
        None => None,
    }
}

impl StandardImageLoader {
    /// Decodes an image from memory, its format guessed from the bytes.
    pub fn load_from_bytes(&self, data: &Vec<u8>) -> (r: Result<ImageData, String>)
        ensures
            match r {
                Ok(i) => is_decoded(i, decoded_rgb(data@)),
                Err(m) => decoded_rgb(data@) is None && m@ == "Failed to load image from memory"@,
            },
    {
        match decode_rgb(data) {
            Some(i) => Ok(i),
            None => Err(String::from_str("Failed to load image from memory")),
        }
    }

    /// Decodes the bytes read from the file at `path`, as the format of
    /// its extension.
    pub fn load_from_path(&self, path: &str, data: &Vec<u8>) -> (r: Result<ImageData, String>)
        ensures
            match r {
                Ok(i) => path_format(path@) matches Some(f) && is_decoded(i, decoded_rgb_as(data@, f)),
                Err(m) => (path_format(path@) matches Some(f) ==> decoded_rgb_as(data@, f) is None)
                    && m@ == "Failed to load image from path: "@ + path@,
            },
    {
        match decode_by_extension(path, data) {
            Some(i) => Ok(i),
            None => Err(String::from_str("Failed to load image from path: ").concat(path)),
        }
    }

    /// Decodes an image from memory as the given format.
    pub fn load_with_format(&self, data: &Vec<u8>, format: ImageFormat) -> (r: Result<
        ImageData,
        String,
    >)
        ensures
            match r {
                Ok(i) => is_decoded(i, decoded_rgb_as(data@, format)),
                Err(m) => decoded_rgb_as(data@, format) is None && m@
                    == "Failed to load image with format: "@ + format.name_spec(),
            },
    {
        match decode_rgb_as(data, format) {
            Some(i) => Ok(i),
            None => Err(String::from_str("Failed to load image with format: ").concat(format.name())),
        }
    }
}

/// Plain image loading; reading files is done by the caller.
pub struct ImageLoader;

impl ImageLoader {
    /// Decodes the bytes read from the file at `path`, as the format of its
    /// extension.
    pub fn load_image(path: &str, data: &Vec<u8>) -> (r: Result<ImageData, String>)
        ensures
            match r {
                Ok(i) => path_format(path@) matches Some(f) && is_decoded(i, decoded_rgb_as(data@, f)),
                Err(m) => (path_format(path@) matches Some(f) ==> decoded_rgb_as(data@, f) is None)
                    && m@ == "Failed to load image from: "@ + path@,
            },
    {
        match decode_by_extension(path, data) {
            Some(i) => Ok(i),
            None => Err(String::from_str("Failed to load image from: ").concat(path)),
        }
    }

    /// Decodes the bytes read from the file at `path` as the given format.
    pub fn load_with_format(path: &str, data: &Vec<u8>, format: ImageFormat) -> (r: Result<
        ImageData,
        String,
    >)
        ensures
            match r {
                Ok(i) => is_decoded(i, decoded_rgb_as(data@, format)),
                Err(m) => decoded_rgb_as(data@, format) is None && m@
                    == "Failed to decode image with format "@ + format.name_spec() + ": "@ + path@,
            },
    {
        match decode_rgb_as(data, format) {
            Some(i) => Ok(i),
            None => {
                let m = String::from_str("Failed to decode image with format ").concat(
                    format.name(),
                ).concat(": ").concat(path);
                Err(m)
            },
        }
    }

    /// Width and height of an image.
    pub fn get_image_dimensions(image: &ImageData) -> (r: (u32, u32))
        ensures
            r == (image.width, image.height),
    {
        (image.width, image.height)
    }
}

/// Finds image files by their extension.
pub struct FileScanner;

/// Whether a lower-case file extension names an image format.
pub open spec fn image_extension(ext: Seq<char>) -> bool {
    ||| ext == "jpg"@
    ||| ext == "jpeg"@
    ||| ext == "png"@
    ||| ext == "gif"@
    ||| ext == "bmp"@
    ||| ext == "tiff"@
    ||| ext == "webp"@
}

/// The image extensions are exactly jpg, jpeg, png, gif, bmp, tiff and webp:
/// each of the seven is one, and nothing else is.
pub proof fn lemma_image_extensions(ext: Seq<char>)
    ensures
        image_extension("jpg"@),
        image_extension("jpeg"@),
        image_extension("png"@),
        image_extension("gif"@),
        image_extension("bmp"@),
        image_extension("tiff"@),
        image_extension("webp"@),
        image_extension(ext) <==> (ext == "jpg"@ || ext == "jpeg"@ || ext == "png"@
            || ext == "gif"@ || ext == "bmp"@ || ext == "tiff"@ || ext == "webp"@),
{
}

impl FileScanner {
    /// Whether `extension` (already in lower case) is one of jpg, jpeg, png,
    /// gif, bmp, tiff and webp.
    pub fn is_image_extension(extension: &str) -> (r: bool)
        ensures
            r == image_extension(extension@),
            r == (extension@ == "jpg"@ || extension@ == "jpeg"@ || extension@ == "png"@
                || extension@ == "gif"@ || extension@ == "bmp"@ || extension@ == "tiff"@
                || extension@ == "webp"@),
    {
        str_eq(extension, "jpg") || str_eq(extension, "jpeg") || str_eq(extension, "png")
            || str_eq(extension, "gif") || str_eq(extension, "bmp") || str_eq(extension, "tiff")
            || str_eq(extension, "webp")
    }
}

} // verus!

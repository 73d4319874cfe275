//! Classification of icon payloads: a square raster image, scaled down to
//! at most `MAX_ICON_SIDE` and stored as PNG, or SVG text.
use vstd::prelude::*;
use vstd::utf8::{decode_utf8, valid_utf8};

verus! {

/// The largest side, in pixels, at which a raster icon is stored.
pub const MAX_ICON_SIDE: u32 = 512;

/// Why an icon was refused.
#[derive(Debug)]
pub enum IconValidationError {
    /// The image codec could not handle the image; its message is given.
    ImageFormat(String),
    /// A raster image whose width and height differ.
    NotSquare,
    /// Neither a raster image nor SVG text.
    NoTypeFound,
}

impl IconValidationError {
    /// The message shown to a client.
    pub fn message(&self) -> (r: String)
        ensures
            self matches IconValidationError::ImageFormat(m) ==> r@ == m@,
            self is NotSquare ==> r@ == "Icon is not square!"@,
            self is NoTypeFound ==> r@
                == "Icon specified does not match binary image data nor UTF-8 encoded .svg data."@,
    {
        match self {
            IconValidationError::ImageFormat(m) => m.clone(),
            IconValidationError::NotSquare => String::from_str("Icon is not square!"),
            IconValidationError::NoTypeFound => String::from_str(
                "Icon specified does not match binary image data nor UTF-8 encoded .svg data.",
            ),
        }
    }
}

#[verifier::external_type_specification]
#[verifier::external_body]
pub struct ExDynamicImage(image::DynamicImage);

/// A decoded raster image with its size, and whether its pixels are 8- or
/// 16-bit integers (the layouts PNG can hold).
pub struct Raster {
    image: image::DynamicImage,
    width: u32,
    height: u32,
    integer: bool,
}

impl Raster {
    pub closed spec fn spec_width(&self) -> u32 {
        self.width
    }

    pub closed spec fn spec_height(&self) -> u32 {
        self.height
    }

    pub closed spec fn spec_integer(&self) -> bool {
        self.integer
    }

    pub fn width(&self) -> (r: u32)
        ensures
            r == self.spec_width(),
    {
        self.width
    }

    pub fn height(&self) -> (r: u32)
        ensures
            r == self.spec_height(),
    {
        self.height
    }

    pub fn integer(&self) -> (r: bool)
        ensures
            r == self.spec_integer(),
    {
        self.integer
    }
}

/// What the codec decodes from `b`, if anything: width, height, and whether
/// the pixels are 8- or 16-bit integers.
pub uninterp spec fn decoded_image(b: Seq<u8>) -> Option<(u32, u32, bool)>;

/// Relies on `image::io::Reader`: it guesses the format from the leading
/// bytes and decodes with fixed limits, so the outcome depends on the bytes
/// alone. Size and pixel layout are read off the decoded image.
#[verifier::external_body]
fn decode_raster(bytes: &[u8]) -> (r: Option<Raster>)
    ensures
        match r {
            Some(img) => decoded_image(bytes@) == Some(
                (img.spec_width(), img.spec_height(), img.spec_integer()),
            ),
            None => decoded_image(bytes@) is None,
        },
{
    let reader = image::io::Reader::new(std::io::Cursor::new(bytes)).with_guessed_format().ok()?;
    let image = reader.decode().ok()?;
    let integer = matches!(
        image.color(),
        image::ColorType::L8 | image::ColorType::La8 | image::ColorType::Rgb8
            | image::ColorType::Rgba8 | image::ColorType::L16 | image::ColorType::La16
            | image::ColorType::Rgb16 | image::ColorType::Rgba16
    );
    Some(Raster { width: image.width(), height: image.height(), integer, image })
}

/// Relies on `image::DynamicImage::resize` with the Lanczos3 filter: it keeps
/// the aspect ratio and the pixel layout, so a square image asked for a
/// square size comes out at exactly that size.
#[verifier::external_body]
fn downscale(img: &Raster, side: u32) -> (r: Raster)
    requires
        img.spec_width() == img.spec_height(),
        img.spec_width() > 0,
        side > 0,
    ensures
        r.spec_width() == side,
        r.spec_height() == side,
        r.spec_integer() == img.spec_integer(),
{
    let image = img.image.resize(side, side, image::imageops::FilterType::Lanczos3);
    Raster { width: image.width(), height: image.height(), integer: img.integer, image }
}

/// Relies on `image::DynamicImage::write_to` with the PNG format, writing
/// into memory: it fails only for a zero side or a pixel layout that is not
/// 8- or 16-bit integers. Read back, the PNG is an integer image of the same
/// size (for the sizes icons are stored at, well inside the decoder's limits).
#[verifier::external_body]
fn encode_png(img: &Raster) -> (r: Result<Vec<u8>, String>)
    ensures
        r is Ok <==> (img.spec_integer() && img.spec_width() > 0 && img.spec_height() > 0),
        r matches Ok(png) ==> (img.spec_width() <= MAX_ICON_SIDE && img.spec_height()
            <= MAX_ICON_SIDE ==> decoded_image(png@) == Some(
            (img.spec_width(), img.spec_height(), true),
        )),
{
    let mut out = std::io::Cursor::new(Vec::new());
    match img.image.write_to(&mut out, image::ImageOutputFormat::Png) {
        Ok(()) => Ok(out.into_inner()),
        Err(e) => Err(e.to_string()),
    }
}

/// Relies on `String::from_utf8`: it succeeds exactly on valid UTF-8 and
/// then holds the decoded text.
#[verifier::external_body]
fn utf8_text(bytes: &[u8]) -> (r: Option<String>)
    ensures
        match r {
            Some(t) => valid_utf8(bytes@) && t@ == decode_utf8(bytes@),
            None => !valid_utf8(bytes@),
        },
{
    String::from_utf8(bytes.to_vec()).ok()
}

/// Whether the SVG parser reads `t` without an error event.
pub uninterp spec fn svg_well_formed(t: Seq<char>) -> bool;

/// Relies on `svg::read` and the events of the parser it returns: the text
/// is well formed when no event is an error. The walk stops at the first
/// error, which the parser would otherwise report again and again.
#[verifier::external_body]
fn svg_parses(text: &str) -> (r: bool)
    ensures
        r == svg_well_formed(text@),
{
    match svg::read(text) {
        Ok(mut parser) => !parser.any(|e| matches!(e, svg::parser::Event::Error(_))),
        Err(_) => false,
    }
}

/// What an accepted icon is stored as.
#[derive(Debug)]
pub enum IconPayload {
    /// A square PNG image of the given side.
    Raster { side: u32, png: Vec<u8> },
    /// Vector markup, stored as sent.
    Scalable { text: String },
}

/// The side at which a raster image of the given size is stored: the
/// image must be square, and is scaled down to `MAX_ICON_SIDE` when larger.
pub open spec fn stored_side(width: u32, height: u32) -> Option<u32> {
    if width != height {
        None
    } else if width > MAX_ICON_SIDE {
        Some(MAX_ICON_SIDE)
    } else {
        Some(width)
    }
}

/// The side at which a raster image of this size is stored.
pub fn raster_side(width: u32, height: u32) -> (r: Result<u32, IconValidationError>)
    ensures
        match stored_side(width, height) {
            Some(s) => r matches Ok(x) && x == s,
            None => r matches Err(IconValidationError::NotSquare),
        },
{
    if width != height {
        Err(IconValidationError::NotSquare)
    } else if width > MAX_ICON_SIDE {
        Ok(MAX_ICON_SIDE)
    } else {
        Ok(width)
    }
}

/// Whether bytes that no raster codec decodes make a scalable icon: UTF-8
/// text that the SVG parser reads without error.
pub open spec fn scalable_text(b: Seq<u8>) -> bool {
    valid_utf8(b) && svg_well_formed(decode_utf8(b))
}

/// Settles an icon payload once the raster codec has had its try at
/// `icon_data`: `decoded` is what it decoded, if anything.
pub fn settle_icon(decoded: Option<Raster>, icon_data: &[u8]) -> (r: Result<
    IconPayload,
    IconValidationError,
>)
    ensures
        match decoded {
            Some(img) => match stored_side(img.spec_width(), img.spec_height()) {
                Some(s) => if img.spec_integer() && s > 0 {
                    r matches Ok(IconPayload::Raster { side, png }) && side == s && decoded_image(
                        png@,
                    ) == Some((s, s, true))
                } else {
                    r matches Err(IconValidationError::ImageFormat(_))
                },
                None => r matches Err(IconValidationError::NotSquare),
            },
            None => if scalable_text(icon_data@) {
                r matches Ok(IconPayload::Scalable { text }) && text@ == decode_utf8(icon_data@)
            } else {
                r matches Err(IconValidationError::NoTypeFound)
            },
        },
{
    match decoded {
        Some(img) => {
            let side = match raster_side(img.width(), img.height()) {
                Ok(s) => s,
                Err(e) => return Err(e),
            };
            let scaled = if side < img.width() {
                downscale(&img, side)
            } else {
                img
            };
            match encode_png(&scaled) {
                Ok(png) => Ok(IconPayload::Raster { side, png }),
                Err(m) => Err(IconValidationError::ImageFormat(m)),
            }
        },
        None => match utf8_text(icon_data) {
            Some(text) => {
                if svg_parses(text.as_str()) {
                    Ok(IconPayload::Scalable { text })
                } else {
                    Err(IconValidationError::NoTypeFound)
                }
            },
            None => Err(IconValidationError::NoTypeFound),
        },
    }
}

/// Classifies `icon_data`: first as a raster image, then as SVG text.
pub fn classify_icon(icon_data: &[u8]) -> (r: Result<IconPayload, IconValidationError>)
    ensures
        match decoded_image(icon_data@) {
            Some((w, h, integer)) => match stored_side(w, h) {
                Some(s) => if integer && s > 0 {
                    r matches Ok(IconPayload::Raster { side, png }) && side == s && decoded_image(
                        png@,
                    ) == Some((s, s, true))
                } else {
                    r matches Err(IconValidationError::ImageFormat(_))
                },
                None => r matches Err(IconValidationError::NotSquare),
            },
            None => if scalable_text(icon_data@) {
                r matches Ok(IconPayload::Scalable { text }) && text@ == decode_utf8(icon_data@)
            } else {
                r matches Err(IconValidationError::NoTypeFound)
            },
        },
{
    settle_icon(decode_raster(icon_data), icon_data)
}

} // verus!

//! Cutting the attribution strip off the bottom of a map picture.

use vstd::prelude::*;

use base64::Engine;
use image::GenericImageView;

use crate::error::AppError;
use crate::maps::{base64_encode, base64_standard, png_data_prefix};

verus! {

#[verifier::external_type_specification]
#[verifier::external_body]
pub struct ExDynamicImage(image::DynamicImage);

#[verifier::external_type_specification]
#[verifier::external_body]
pub struct ExImageError(image::ImageError);

#[verifier::external_type_specification]
#[verifier::external_body]
pub struct ExDecodeError(base64::DecodeError);

/// Rows of pixels cut off the bottom of a map picture.
pub const PIXELS_TO_CUT: u32 = 20;

/// The bytes that standard Base64 text, with padding, decodes to; `None`
/// where the text is not such Base64.
pub uninterp spec fn base64_standard_decoded(text: Seq<char>) -> Option<Seq<u8>>;

/// Relies on base64's STANDARD engine `decode`: the bytes, or the error,
/// depend on the text alone.
#[verifier::external_body]
fn base64_decode(text: &str) -> (r: Result<Vec<u8>, base64::DecodeError>)
    ensures
        match r {
            Ok(b) => base64_standard_decoded(text@) == Some(b@),
            Err(_) => base64_standard_decoded(text@) is None,
        },
{
    base64::engine::general_purpose::STANDARD.decode(text)
}

/// The bytes hold a picture in a format that can be recognised and read.
pub uninterp spec fn picture_decodes(bytes: Seq<u8>) -> bool;

/// Relies on image::load_from_memory: the picture that the bytes encode, in
/// a format guessed from them, or an error; which of the two depends on the
/// bytes alone.
#[verifier::external_body]
fn load_picture(bytes: &Vec<u8>) -> (r: Result<image::DynamicImage, image::ImageError>)
    ensures
        r is Ok <==> picture_decodes(bytes@),
{
    image::load_from_memory(bytes)
}

/// Relies on image's GenericImageView::dimensions on DynamicImage: the
/// width and height in pixels.
#[verifier::external_body]
fn picture_size(picture: &image::DynamicImage) -> (r: (u32, u32)) {
    picture.dimensions()
}

/// Relies on image::DynamicImage::crop_imm: a copy of the region at `x`,
/// `y` of the given width and height, clamped to the picture.
#[verifier::external_body]
fn picture_region(picture: &image::DynamicImage, x: u32, y: u32, width: u32, height: u32) -> (r: image::DynamicImage) {
    picture.crop_imm(x, y, width, height)
}

/// Relies on image::DynamicImage::write_to with ImageOutputFormat::Png into
/// an in-memory buffer: the PNG encoding of the picture, or an error.
#[verifier::external_body]
fn picture_png(picture: &image::DynamicImage) -> (r: Result<Vec<u8>, image::ImageError>) {
    let mut encoded = Vec::new();
    let mut cursor = std::io::Cursor::new(&mut encoded);
    picture.write_to(&mut cursor, image::ImageOutputFormat::Png).map(|_| encoded)
}

/// The region kept of a `width` by `height` picture: all of it but the
/// bottom rows that are cut; `None` where the picture has fewer rows.
pub fn cut_bottom(width: u32, height: u32) -> (r: Option<(u32, u32)>)
    ensures
        height >= PIXELS_TO_CUT ==> r == Some((width, (height - PIXELS_TO_CUT) as u32)),
        height < PIXELS_TO_CUT ==> r is None,
{
    if height < PIXELS_TO_CUT {
        None
    } else {
        Some((width, height - PIXELS_TO_CUT))
    }
}

/// Takes a Base64 picture and gives it back, in Base64 PNG, without its
/// bottom rows. Text that is not Base64 is a `DecodeError`; bytes that are
/// not a picture, a picture of fewer rows than are cut, or a failed
/// encoding are an `ImageError`.
pub fn crop_image(img_str: String) -> (r: Result<String, AppError>)
    ensures
        base64_standard_decoded(img_str@) is None ==> r == Err::<String, AppError>(AppError::DecodeError),
        base64_standard_decoded(img_str@) is Some && r is Err ==> r == Err::<String, AppError>(AppError::ImageError),
        match base64_standard_decoded(img_str@) {
            Some(b) => !picture_decodes(b) ==> r == Err::<String, AppError>(AppError::ImageError),
            None => true,
        },
        r is Ok ==> exists|png: Seq<u8>| r->Ok_0@ == base64_standard(png),
{
    let decoded = match base64_decode(img_str.as_str()) {
        Ok(b) => b,
        Err(_) => {
            return Err(AppError::DecodeError);
        },
    };
    let picture = match load_picture(&decoded) {
        Ok(p) => p,
        Err(_) => {
            return Err(AppError::ImageError);
        },
    };
    let (width, height) = picture_size(&picture);
    let (kept_width, kept_height) = match cut_bottom(width, height) {
        Some(region) => region,
        None => {
            return Err(AppError::ImageError);
        },
    };
    let cropped = picture_region(&picture, 0, 0, kept_width, kept_height);
    let png = match picture_png(&cropped) {
        Ok(b) => b,
        Err(_) => {
            return Err(AppError::ImageError);
        },
    };
    Ok(base64_encode(&png))
}


/// A fetched map picture made ready for an HTML image tag: Base64 encoded,
/// cut by its bottom rows, and given the PNG Data URL prefix.
pub fn cropped_picture_url(png: &Vec<u8>) -> (r: Result<String, AppError>)
    ensures
        r is Ok ==> exists|cut: Seq<u8>| r->Ok_0@ == png_data_prefix() + base64_standard(cut),
        r is Err ==> r == Err::<String, AppError>(AppError::DecodeError) || r == Err::<String, AppError>(
            AppError::ImageError,
        ),
{
    let encoded = base64_encode(png);
    let cropped = crop_image(encoded)?;
    let mut url = String::from_str("data:image/png;base64,");
    url.append(cropped.as_str());
    Ok(url)
}

} // verus!

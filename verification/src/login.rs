//! Signing in: the QR code that the phone scans, as a PNG picture.

use vstd::prelude::*;
use crate::text::{append_str, to_owned_string};
use vstd::string::StringSliceAdditionalSpecFns;

verus! {

#[verifier::external_type_specification]
#[verifier::external_body]
pub struct ExQrError(qrcode::types::QrError);

/// The error correction levels of a QR code (`qrcode::EcLevel`).
#[derive(Clone, Copy, Debug, PartialEq, Eq, Structural)]
pub enum QrLevel {
    Low,
    Medium,
    Quartile,
    High,
}

/// The level sign-in codes use.
pub const SIGN_IN_LEVEL: QrLevel = QrLevel::Medium;

/// The smallest side of a sign-in code's picture, in pixels.
pub const SIGN_IN_MIN_SIDE: u32 = 280;

/// Whether `qrcode` can put these bytes in a QR code at this error
/// correction level (they are not too long for the largest version).
pub uninterp spec fn qr_encodable(data: Seq<u8>, level: QrLevel) -> bool;

/// The grey picture that `qrcode` renders of the QR code of these bytes at
/// this level, at least `min_side` pixels a side: its side and its pixels row
/// by row.
pub uninterp spec fn qr_pixels(data: Seq<u8>, level: QrLevel, min_side: u32) -> (u32, Seq<u8>);

/// What `image` writes as the PNG file of a grey picture of `width` by
/// `height` pixels.
pub uninterp spec fn gray_png_bytes(width: u32, height: u32, pixels: Seq<u8>) -> Seq<u8>;

/// `qrcode::QrCode::with_error_correction_level` at `level`, then
/// `render::<image::Luma<u8>>().min_dimensions(min_side, min_side).build()`:
/// the QR code of the bytes as a square grey picture (side and pixels), or
/// why there is none. Both are named. As the source shows, the picture is at
/// least `min_side` pixels a side, has one byte a pixel, and each pixel is
/// black (0) or white (255); the bound on `min_side` keeps the renderer's
/// sums from overflowing.
#[verifier::external_body]
fn qr_picture(data: &[u8], level: QrLevel, min_side: u32) -> (r: Result<(u32, Vec<u8>), qrcode::types::QrError>)
    requires
        1 <= min_side <= 16384,
    ensures
        r is Ok == qr_encodable(data@, level),
        r matches Ok(t) ==> qr_pixels(data@, level, min_side) == (t.0, t.1@) && t.0 >= min_side && t.1@.len() == (
        t.0 as int) * (t.0 as int) && forall|i: int| 0 <= i < t.1@.len() ==> t.1@[i] == 0 || t.1@[i] == 255,
{
    let ec = match level {
        QrLevel::Low => qrcode::EcLevel::L,
        QrLevel::Medium => qrcode::EcLevel::M,
        QrLevel::Quartile => qrcode::EcLevel::Q,
        QrLevel::High => qrcode::EcLevel::H,
    };
    let code = qrcode::QrCode::with_error_correction_level(data, ec)?;
    let img = code.render::<image::Luma<u8>>().min_dimensions(min_side, min_side).build();
    Ok((img.width(), img.into_raw()))
}

/// Why a QR code could not be made, as `qrcode::types::QrError` says.
#[derive(Clone, Copy, Debug, PartialEq, Eq, Structural)]
pub enum QrFailure {
    DataTooLong,
    InvalidVersion,
    UnsupportedCharacterSet,
    InvalidEciDesignator,
    InvalidCharacter,
}

/// The variant of a `qrcode::types::QrError`.
#[verifier::external_body]
fn qr_failure(e: qrcode::types::QrError) -> (f: QrFailure)
{
    match e {
        qrcode::types::QrError::DataTooLong => QrFailure::DataTooLong,
        qrcode::types::QrError::InvalidVersion => QrFailure::InvalidVersion,
        qrcode::types::QrError::UnsupportedCharacterSet => QrFailure::UnsupportedCharacterSet,
        qrcode::types::QrError::InvalidEciDesignator => QrFailure::InvalidEciDesignator,
        qrcode::types::QrError::InvalidCharacter => QrFailure::InvalidCharacter,
    }
}

/// The words that `qrcode` displays for each failure.
pub open spec fn qr_failure_words(f: QrFailure) -> Seq<char> {
    match f {
        QrFailure::DataTooLong => "data too long"@,
        QrFailure::InvalidVersion => "invalid version"@,
        QrFailure::UnsupportedCharacterSet => "unsupported character set"@,
        QrFailure::InvalidEciDesignator => "invalid ECI designator"@,
        QrFailure::InvalidCharacter => "invalid character"@,
    }
}

pub fn qr_failure_text(f: QrFailure) -> (s: &'static str)
    ensures
        s@ == qr_failure_words(f),
{
    match f {
        QrFailure::DataTooLong => "data too long",
        QrFailure::InvalidVersion => "invalid version",
        QrFailure::UnsupportedCharacterSet => "unsupported character set",
        QrFailure::InvalidEciDesignator => "invalid ECI designator",
        QrFailure::InvalidCharacter => "invalid character",
    }
}

/// `image::GrayImage::from_raw`, then `DynamicImage::ImageLuma8(..)
/// .write_to(.., ImageFormat::Png)` into memory: the PNG file of the
/// picture, which is named, not described. `from_raw` refuses only a buffer
/// shorter than `width * height`, and the PNG writer fails only on an empty
/// picture or a failing output, which writing into memory is not; the
/// `requires` rules out both, so the file is always written.
#[verifier::external_body]
fn gray_png(width: u32, height: u32, pixels: Vec<u8>) -> (r: Result<Vec<u8>, String>)
    requires
        width >= 1,
        height >= 1,
        pixels@.len() == width * height,
    ensures
        r is Ok,
        r->Ok_0@ == gray_png_bytes(width, height, pixels@),
{
    let img = match image::GrayImage::from_raw(width, height, pixels) {
        Some(img) => img,
        None => return Err(String::from("buffer too small")),
    };
    let mut out = std::io::Cursor::new(Vec::new());
    match image::DynamicImage::ImageLuma8(img).write_to(&mut out, image::ImageFormat::Png) {
        Ok(()) => Ok(out.into_inner()),
        Err(e) => Err(e.to_string()),
    }
}

/// The QR code of a sign-in link as a PNG picture. A link that cannot be put
/// in a QR code gives `qr encode: ` and `qrcode`'s reason.
pub fn qr_png(url: &str) -> (r: Result<Vec<u8>, String>)
    ensures
        !qr_encodable(url.spec_bytes(), SIGN_IN_LEVEL) ==> r is Err && exists|f: QrFailure| r->Err_0@ == "qr encode: "@ + qr_failure_words(f),
        qr_encodable(url.spec_bytes(), SIGN_IN_LEVEL) ==> r is Ok && r->Ok_0@ == gray_png_bytes(
            qr_pixels(url.spec_bytes(), SIGN_IN_LEVEL, SIGN_IN_MIN_SIDE).0,
            qr_pixels(url.spec_bytes(), SIGN_IN_LEVEL, SIGN_IN_MIN_SIDE).0,
            qr_pixels(url.spec_bytes(), SIGN_IN_LEVEL, SIGN_IN_MIN_SIDE).1,
        ),
{
    let (side, pixels) = match qr_picture(url.as_bytes(), SIGN_IN_LEVEL, SIGN_IN_MIN_SIDE) {
        Ok(t) => t,
        Err(e) => {
            let f = qr_failure(e);
            let mut msg = to_owned_string("qr encode: ");
            append_str(&mut msg, qr_failure_text(f));
            return Err(msg);
        },
    };
    match gray_png(side, side, pixels) {
        Ok(bytes) => Ok(bytes),
        Err(e) => Err(e),
    }
}

} // verus!

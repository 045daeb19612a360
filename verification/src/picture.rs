//! Decoding downloaded images: their size, the preview thumbnail, and the PNG shown
//! in the terminal.

use vstd::prelude::*;
use std::io::Cursor;
use image::GenericImageView;
use crate::gallery::{dimensions_text, downloaded_message, below_5k, record_download, record_upscale, Piece};
use crate::kitty::{base64_standard, frames_from, kitty_image};
use crate::text::{cat, chars_of, last_index, last_pos, slice, string_of};

verus! {

// ── Names for what the `image` crate computes ───────────────────────────────

/// What the `image` crate decodes from `bytes` read as a file with extension `ext`
/// (the extension picks the format): the width and height, or the error's message.
pub uninterp spec fn spec_decoded_size(bytes: Seq<u8>, ext: Seq<char>) -> Result<(u32, u32), Seq<char>>;

/// The JPEG encoding of the decoded image scaled down to fit `max`×`max`
/// (`DynamicImage::thumbnail`), when it decodes and encodes.
pub uninterp spec fn spec_thumbnail_jpeg(bytes: Seq<u8>, ext: Seq<char>, max: u32) -> Option<Seq<u8>>;

/// The PNG encoding of the decoded image, unchanged in size.
pub uninterp spec fn spec_png(bytes: Seq<u8>, ext: Seq<char>) -> Option<Seq<u8>>;

/// The PNG encoding of the decoded image resized to fit `w`×`h` (Lanczos3,
/// `DynamicImage::resize`, which keeps the aspect ratio).
pub uninterp spec fn spec_png_resized(bytes: Seq<u8>, ext: Seq<char>, w: u32, h: u32) -> Option<Seq<u8>>;

pub open spec fn size_view(r: Result<(u32, u32), String>) -> Result<(u32, u32), Seq<char>> {
    match r {
        Ok(d) => Ok(d),
        Err(e) => Err(e@),
    }
}

pub open spec fn bytes_view(o: Option<Vec<u8>>) -> Option<Seq<u8>> {
    match o {
        Some(v) => Some(v@),
        None => None,
    }
}

/// `ImageFormat::from_extension`, `ImageReader::with_format(..).decode()` and
/// `GenericImageView::dimensions`: the size of the decoded image, or the message of
/// the error (an unknown extension gives `image`'s own unsupported-extension error).
#[verifier::external_body]
fn decoded_size(bytes: &[u8], ext: &str) -> (r: Result<(u32, u32), String>)
    ensures
        size_view(r) == spec_decoded_size(bytes@, ext@),
{
    let format = match image::ImageFormat::from_extension(ext) {
        Some(f) => f,
        None => return Err(image::ImageError::Unsupported(
            image::error::ImageFormatHint::PathExtension(ext.into()).into(),
        ).to_string()),
    };
    match image::ImageReader::with_format(Cursor::new(bytes), format).decode() {
        Ok(img) => Ok(img.dimensions()),
        Err(e) => Err(e.to_string()),
    }
}

/// Decoding as above, then `DynamicImage::thumbnail(max, max)` and
/// `DynamicImage::write_to(.., ImageFormat::Jpeg)`.
#[verifier::external_body]
fn thumbnail_jpeg(bytes: &[u8], ext: &str, max: u32) -> (r: Option<Vec<u8>>)
    ensures
        bytes_view(r) == spec_thumbnail_jpeg(bytes@, ext@, max),
{
    let format = image::ImageFormat::from_extension(ext)?;
    let img = image::ImageReader::with_format(Cursor::new(bytes), format).decode().ok()?;
    let mut out: Vec<u8> = Vec::new();
    img.thumbnail(max, max).write_to(Cursor::new(&mut out), image::ImageFormat::Jpeg).ok()?;
    Some(out)
}

/// Decoding as above, then `DynamicImage::write_to(.., ImageFormat::Png)`.
#[verifier::external_body]
fn png_as_is(bytes: &[u8], ext: &str) -> (r: Option<Vec<u8>>)
    ensures
        bytes_view(r) == spec_png(bytes@, ext@),
{
    let format = image::ImageFormat::from_extension(ext)?;
    let img = image::ImageReader::with_format(Cursor::new(bytes), format).decode().ok()?;
    let mut out: Vec<u8> = Vec::new();
    img.write_to(Cursor::new(&mut out), image::ImageFormat::Png).ok()?;
    Some(out)
}

/// Decoding as above, then `DynamicImage::resize(w, h, FilterType::Lanczos3)` and
/// `DynamicImage::write_to(.., ImageFormat::Png)`.
#[verifier::external_body]
fn png_resized(bytes: &[u8], ext: &str, w: u32, h: u32) -> (r: Option<Vec<u8>>)
    ensures
        bytes_view(r) == spec_png_resized(bytes@, ext@, w, h),
{
    let format = image::ImageFormat::from_extension(ext)?;
    let img = image::ImageReader::with_format(Cursor::new(bytes), format).decode().ok()?;
    let mut out: Vec<u8> = Vec::new();
    let small = img.resize(w, h, image::imageops::FilterType::Lanczos3);
    small.write_to(Cursor::new(&mut out), image::ImageFormat::Png).ok()?;
    Some(out)
}

// ── File extensions ─────────────────────────────────────────────────────────

/// The extension of the last component of `path` (`Path::extension`): what follows
/// its last `.`, empty when it has none or when its only `.` leads the name.
pub open spec fn path_extension(path: Seq<char>) -> Seq<char> {
    let name = path.skip(last_pos(path, '/') + 1);
    let dot = last_pos(name, '.');
    if dot <= 0 {
        Seq::empty()
    } else {
        name.skip(dot + 1)
    }
}

pub fn extension_of(path: &str) -> (r: String)
    ensures
        r@ == path_extension(path@),
{
    let v = chars_of(path);
    let cut: usize = match last_index(&v, '/') {
        Some(i) => i + 1,
        None => 0,
    };
    let name = slice(&v, cut, v.len());
    assert(name@ =~= v@.skip(last_pos(v@, '/') + 1));
    match last_index(&name, '.') {
        Some(d) => {
            if d == 0 {
                String::new()
            } else {
                let ext = slice(&name, d + 1, name.len());
                assert(ext@ =~= name@.skip(d + 1));
                string_of(&ext)
            }
        },
        None => String::new(),
    }
}

// ── Downloads and upscales ──────────────────────────────────────────────────

/// A piece after a download of `w`×`h` pixels saved at `path`.
pub open spec fn downloaded_piece(p: Piece, path: String, w: u32, h: u32) -> Piece {
    Piece { local_path: Some(path), resolution: Some([w, h]), ..p }
}

/// A piece after an upscale to `w`×`h` pixels saved at `path`.
pub open spec fn upscaled_piece(p: Piece, path: String, w: u32, h: u32) -> Piece {
    Piece { local_path: Some(path), resolution: Some([w, h]), upscaled: true, ..p }
}

/// Records the download saved at `path` with contents `bytes`: when the image
/// decodes, the piece gets its path and size and the status line says so; else the
/// piece is unchanged and the status line gives the decoder's message.
pub fn finish_download(piece: &mut Piece, path: String, bytes: &[u8]) -> (msg: String)
    ensures
        match spec_decoded_size(bytes@, path_extension(path@)) {
            Ok((w, h)) => *final(piece) == downloaded_piece(*old(piece), path, w, h) && msg@
                == downloaded_message(w, h, below_5k(Some([w, h]), old(piece).upscaled)),
            Err(e) => *final(piece) == *old(piece) && msg@ == "File saved but unreadable: "@ + e,
        },
{
    let ext = extension_of(path.as_str());
    match decoded_size(bytes, ext.as_str()) {
        Ok((w, h)) => record_download(piece, path, w, h),
        Err(e) => cat("File saved but unreadable: ", e.as_str()),
    }
}

/// Records the upscaled file saved at `path` with contents `bytes`: when it decodes,
/// the piece gets its path and size and is marked upscaled, and the status line
/// says so; else the piece is unchanged and nothing is returned.
pub fn finish_upscale(piece: &mut Piece, path: String, bytes: &[u8]) -> (msg: Option<String>)
    ensures
        match spec_decoded_size(bytes@, path_extension(path@)) {
            Ok((w, h)) => *final(piece) == upscaled_piece(*old(piece), path, w, h) && (msg matches Some(
                m,
            ) && m@ == "Upscaled: "@ + dimensions_text(w, h)),
            Err(_) => *final(piece) == *old(piece) && msg is None,
        },
{
    let ext = extension_of(path.as_str());
    match decoded_size(bytes, ext.as_str()) {
        Ok((w, h)) => Some(record_upscale(piece, path, w, h)),
        Err(_) => None,
    }
}

/// The preview kept in the cache for an image saved at `path`: scaled down to fit
/// 2000×2000, as JPEG.
pub fn preview_jpeg(bytes: &[u8], path: &str) -> (r: Option<Vec<u8>>)
    ensures
        bytes_view(r) == spec_thumbnail_jpeg(bytes@, path_extension(path@), 2000),
{
    thumbnail_jpeg(bytes, extension_of(path).as_str(), 2000)
}

// ── Terminal preview ────────────────────────────────────────────────────────

/// The PNG shown for an image of `w`×`h` pixels: resized to fit `fit_w`×`fit_h`
/// when it is larger in either dimension, else as it is.
pub open spec fn shown_png(bytes: Seq<u8>, ext: Seq<char>, w: u32, h: u32, fit_w: u32, fit_h: u32) -> Option<
    Seq<u8>,
> {
    if w > fit_w || h > fit_h {
        spec_png_resized(bytes, ext, fit_w, fit_h)
    } else {
        spec_png(bytes, ext)
    }
}

/// What showing an image saved at `path` with contents `bytes` in a space of
/// `fit_w`×`fit_h` pixels gives: its original size and the graphics commands of the
/// PNG shown; nothing when it does not decode or encode, or when the PNG is too long
/// for its base64 text to be counted in `usize`.
pub open spec fn kitty_preview_spec(bytes: Seq<u8>, path: Seq<char>, fit_w: u32, fit_h: u32) -> Option<
    ((u32, u32), Seq<char>),
> {
    let ext = path_extension(path);
    match spec_decoded_size(bytes, ext) {
        Err(_) => None,
        Ok((w, h)) => match shown_png(bytes, ext, w, h, fit_w, fit_h) {
            None => None,
            Some(png) => if png.len() / 3 * 4 + 4 <= usize::MAX {
                Some(((w, h), frames_from(base64_standard(png), 0) + "\n"@))
            } else {
                None
            },
        },
    }
}

pub fn kitty_preview(bytes: &[u8], path: &str, fit_w: u32, fit_h: u32) -> (r: Option<((u32, u32), String)>)
    ensures
        match r {
            Some((size, text)) => kitty_preview_spec(bytes@, path@, fit_w, fit_h) == Some(
                (size, text@),
            ),
            None => kitty_preview_spec(bytes@, path@, fit_w, fit_h) is None,
        },
{
    let ext = extension_of(path);
    match decoded_size(bytes, ext.as_str()) {
        Err(_) => None,
        Ok((w, h)) => {
            let png = if w > fit_w || h > fit_h {
                png_resized(bytes, ext.as_str(), fit_w, fit_h)
            } else {
                png_as_is(bytes, ext.as_str())
            };
            match png {
                None => None,
                Some(p) => {
                    if p.len() / 3 <= (usize::MAX - 4) / 4 {
                        Some(((w, h), kitty_image(p.as_slice())))
                    } else {
                        None
                    }
                },
            }
        },
    }
}

} // verus!

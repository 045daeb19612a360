use std::io::Cursor;

use base64::Engine;

use artfetch::gallery::Piece;
use artfetch::picture::{extension_of, finish_download, finish_upscale, kitty_preview, preview_jpeg};

fn png_bytes(w: u32, h: u32) -> Vec<u8> {
    let img = image::DynamicImage::ImageRgb8(image::RgbImage::new(w, h));
    let mut out = Vec::new();
    img.write_to(Cursor::new(&mut out), image::ImageFormat::Png).unwrap();
    out
}

fn piece() -> Piece {
    Piece {
        url: "u".to_string(),
        title: "t".to_string(),
        artist: String::new(),
        thumb_url: String::new(),
        image_base: String::new(),
        primary_image: String::new(),
        local_path: None,
        resolution: None,
        upscaled: false,
    }
}

#[test]
fn extensions() {
    assert_eq!(extension_of("/a/b/c.jpg"), "jpg");
    assert_eq!(extension_of("/a.d/b/c.tar.gz"), "gz");
    assert_eq!(extension_of("/a/.hidden"), "");
    assert_eq!(extension_of("/a.d/noext"), "");
}

#[test]
fn download_records_decoded_size() {
    let bytes = png_bytes(3, 2);
    let mut p = piece();
    let msg = finish_download(&mut p, "/pics/x.png".to_string(), &bytes);
    assert_eq!(msg, "Downloaded: 3×2  [below 5K — press u to upscale]");
    assert_eq!(p.resolution, Some([3, 2]));
    assert_eq!(p.local_path.as_deref(), Some("/pics/x.png"));
}

#[test]
fn unreadable_download_leaves_piece() {
    let mut p = piece();
    let msg = finish_download(&mut p, "/pics/x.jpg".to_string(), b"not an image");
    assert!(msg.starts_with("File saved but unreadable: "));
    assert!(msg.len() > "File saved but unreadable: ".len());
    assert!(p.local_path.is_none() && p.resolution.is_none());
    let msg = finish_download(&mut p, "/pics/x.jpg".to_string(), &png_bytes(2, 2));
    assert!(msg.starts_with("File saved but unreadable: "));
}

#[test]
fn upscale_records_decoded_size() {
    let mut p = piece();
    assert_eq!(finish_upscale(&mut p, "/pics/x_2x.png".to_string(), &png_bytes(4, 6)), Some("Upscaled: 4×6".to_string()));
    assert!(p.upscaled);
    assert_eq!(p.resolution, Some([4, 6]));
    let mut q = piece();
    assert_eq!(finish_upscale(&mut q, "/pics/x_2x.png".to_string(), b"junk"), None);
    assert!(!q.upscaled);
}

#[test]
fn previews() {
    let jpeg = preview_jpeg(&png_bytes(3, 2), "/c/p.png").unwrap();
    assert_eq!(&jpeg[0..2], &[0xFF, 0xD8]);
    let decoded = image::load_from_memory(&jpeg).unwrap();
    assert_eq!((decoded.width(), decoded.height()), (2000, 1333));
    assert!(preview_jpeg(b"junk", "/c/p.png").is_none());
}

#[test]
fn terminal_preview() {
    let bytes = png_bytes(40, 20);
    let (size, text) = kitty_preview(&bytes, "/c/p.png", 100, 100).unwrap();
    assert_eq!(size, (40, 20));
    assert!(text.starts_with("\x1b_Gf=100,a=T,m=0;iVBORw0KGgo"));
    assert!(text.ends_with("\x1b\\\n"));
    let (size, text) = kitty_preview(&bytes, "/c/p.png", 10, 10).unwrap();
    assert_eq!(size, (40, 20));
    let start = "\x1b_Gf=100,a=T,m=0;".len();
    let end = text.len() - "\x1b\\\n".len();
    let png = base64::engine::general_purpose::STANDARD.decode(&text[start..end]).unwrap();
    let shown = image::load_from_memory(&png).unwrap();
    assert_eq!((shown.width(), shown.height()), (10, 5));
    assert!(kitty_preview(b"junk", "/c/p.png", 10, 10).is_none());
}

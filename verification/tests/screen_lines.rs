use artfetch::catalog::{CatalogEntry, Medium, MuseumSource};
use artfetch::gallery::Piece;
use artfetch::screen::{
    browse_row, detail_lines, menu_row, pad_left_string, pad_right_string, preview_placeholder,
    MENU_ROWS,
};

fn entry(title: &str, artist: &str, date: &str) -> CatalogEntry {
    CatalogEntry {
        source: "aic".to_string(),
        id: "1".to_string(),
        title: title.to_string(),
        artist: artist.to_string(),
        date: date.to_string(),
        medium: String::new(),
        thumb_url: String::new(),
        full_image_url: String::new(),
        web_url: "https://x".to_string(),
    }
}

fn piece() -> Piece {
    Piece {
        url: "https://page".to_string(),
        title: String::new(),
        artist: String::new(),
        thumb_url: String::new(),
        image_base: String::new(),
        primary_image: String::new(),
        local_path: None,
        resolution: None,
        upscaled: false,
    }
}

#[test]
fn padding() {
    assert_eq!(pad_right_string("ab", 4), "ab  ");
    assert_eq!(pad_right_string("abcde", 4), "abcde");
    assert_eq!(pad_left_string("7", 3), "  7");
    assert_eq!(pad_left_string("1234", 3), "1234");
}

#[test]
fn list_rows() {
    let e = entry("Irises", "Van Gogh", "1889");
    let plain = browse_row(6, &e, 8, false, false);
    assert_eq!(
        plain,
        format!("  \x1b[90m  7.\x1b[0m \x1b[1mIrises  \x1b[0m  \x1b[90m{:<30}\x1b[0m  ", "Van Gogh, 1889")
    );
    let chosen = browse_row(6, &e, 4, true, true);
    assert_eq!(
        chosen,
        format!("  \x1b[7m  7. Iris  {:<30}\x1b[0m \x1b[32m\u{2713}\x1b[0m", "Van Gogh, 1889")
    );
}

#[test]
fn menu_rows() {
    assert_eq!(MENU_ROWS, 9);
    assert_eq!(
        menu_row(0, MuseumSource::All, Medium::Oil),
        format!("  \x1b[36m[1] {:<20}\x1b[0m[a] All", "All")
    );
    assert_eq!(
        menu_row(5, MuseumSource::Met, Medium::Chalk),
        format!("  [6] {:<20}\x1b[36m[f] Chalk / Charcoal\x1b[0m", "Smithsonian")
    );
    assert_eq!(menu_row(8, MuseumSource::Namoc, Medium::All), format!("  \x1b[36m[9] {:<20}\x1b[0m", "Natl. Art Museum China"));
}

#[test]
fn detail_text() {
    let mut p = piece();
    assert_eq!(preview_placeholder(&p), "  \x1b[90m[no preview \u{2014} press d to download]\x1b[0m");
    assert_eq!(
        detail_lines(&p, false),
        vec![
            "  \x1b[90mNot available for download (non public domain)\x1b[0m".to_string(),
            "  \x1b[90mView at: https://page\x1b[0m".to_string(),
        ]
    );
    p.title = "Irises".to_string();
    p.thumb_url = "https://t".to_string();
    assert_eq!(preview_placeholder(&p), "  \x1b[90m[loading thumbnail...]\x1b[0m");
    assert_eq!(detail_lines(&p, true), vec!["  \x1b[1mIrises\x1b[0m".to_string(), "  \x1b[32mDownloaded\x1b[0m".to_string()]);
    p.resolution = Some([6000, 100]);
    p.upscaled = true;
    p.artist = "Van Gogh".to_string();
    assert_eq!(
        detail_lines(&p, true),
        vec![
            "  \x1b[1mIrises\x1b[0m".to_string(),
            "  \x1b[90mVan Gogh\x1b[0m".to_string(),
            "  \x1b[32m6000\u{00d7}100 (\u{2265} 5K)\x1b[0m \x1b[36mupscaled\x1b[0m".to_string(),
        ]
    );
    p.resolution = Some([1000, 800]);
    p.upscaled = false;
    p.primary_image = "https://f".to_string();
    assert_eq!(detail_lines(&p, false)[2], "  \x1b[33m1000\u{00d7}800 (< 5K)\x1b[0m");
}

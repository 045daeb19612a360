use artfetch::catalog::CatalogEntry;
use artfetch::gallery::{
    dimensions, download_file_name, free_download_path, next_download_attempt, download_plan, file_is_valid, gac_piece, join, record_download,
    record_upscale, safe_name, upscaled_path, Config, DownloadPlan, Gallery, Piece,
};

fn entry() -> CatalogEntry {
    CatalogEntry {
        source: "aic".to_string(),
        id: "27992".to_string(),
        title: "A Sunday on La Grande Jatte — 1884".to_string(),
        artist: "Georges Seurat".to_string(),
        date: "1884/86".to_string(),
        medium: "Oil on canvas".to_string(),
        thumb_url: "https://t.jpg".to_string(),
        full_image_url: "https://f.jpg".to_string(),
        web_url: "https://www.artic.edu/artworks/27992".to_string(),
    }
}

fn piece(url: &str, title: &str) -> Piece {
    Piece {
        url: url.to_string(),
        title: title.to_string(),
        artist: String::new(),
        thumb_url: String::new(),
        image_base: String::new(),
        primary_image: String::new(),
        local_path: None,
        resolution: None,
        upscaled: false,
    }
}

#[test]
fn piece_from_entry() {
    let p = Piece::from_entry(&entry());
    assert_eq!(p.url, "https://www.artic.edu/artworks/27992");
    assert_eq!(p.title, "A Sunday on La Grande Jatte — 1884");
    assert_eq!(p.artist, "Georges Seurat");
    assert_eq!(p.thumb_url, "https://t.jpg");
    assert_eq!(p.primary_image, "https://f.jpg");
    assert_eq!(p.image_base, "");
    assert!(p.local_path.is_none() && p.resolution.is_none() && !p.upscaled);
}

#[test]
fn safe_names() {
    let p = Piece::from_entry(&entry());
    assert_eq!(safe_name(&p), "A_Sunday_on_La_Grande_Jatte___1884__36");
    let long = piece("https://x/y", &"é".repeat(70));
    assert_eq!(safe_name(&long), format!("{}__11", "é".repeat(60)));
    let mut big = piece("", "a-b");
    big.url = "u".repeat(12345);
    assert_eq!(safe_name(&big), "a-b__2345");
}

#[test]
fn upscale_need() {
    let mut p = piece("u", "t");
    assert!(!p.needs_upscale());
    p.resolution = Some([4000, 2000]);
    assert!(p.needs_upscale());
    p.resolution = Some([5120, 2000]);
    assert!(!p.needs_upscale());
    p.resolution = Some([4000, 2880]);
    assert!(!p.needs_upscale());
    p.resolution = Some([4000, 2000]);
    p.upscaled = true;
    assert!(!p.needs_upscale());
}

#[test]
fn downloaded_means_file_on_disk() {
    let mut p = piece("u", "t");
    assert!(!p.is_downloaded());
    p.local_path = Some("/".to_string());
    assert!(p.is_downloaded());
    p.local_path = Some("/definitely/not/here/artfetch.jpg".to_string());
    assert!(!p.is_downloaded());
}

#[test]
fn gallery_finds_and_inserts_once() {
    let mut g = Gallery { pieces: vec![], config: Config { download_dir: "/tmp".to_string() } };
    assert_eq!(g.find_by_url("a"), None);
    assert_eq!(g.get_or_insert(piece("a", "first")), 0);
    assert_eq!(g.get_or_insert(piece("b", "second")), 1);
    assert_eq!(g.get_or_insert(piece("a", "again")), 0);
    assert_eq!(g.pieces.len(), 2);
    assert_eq!(g.pieces[0].title, "first");
    assert_eq!(g.find_by_url("b"), Some(1));
}

#[test]
fn preview_falls_back_to_download() {
    let g = Gallery { pieces: vec![], config: Config { download_dir: "/tmp".to_string() } };
    let mut p = piece("https://x", "Nothing Cached");
    assert_eq!(g.preview_path(&p, "/definitely/not/here"), None);
    p.local_path = Some("/".to_string());
    assert_eq!(g.preview_path(&p, "/definitely/not/here"), Some("/".to_string()));
}

#[test]
fn download_routes() {
    let mut p = piece("https://page", "t");
    assert!(matches!(download_plan(&p, true), DownloadPlan::AlreadyDownloaded));
    assert!(matches!(download_plan(&p, false), DownloadPlan::Unavailable));
    p.image_base = "https://lh3/abc".to_string();
    match download_plan(&p, false) {
        DownloadPlan::Zoom { page, fallback } => {
            assert_eq!(page, "https://page");
            assert_eq!(fallback, "https://lh3/abc=s0");
        }
        _ => panic!("expected a deep-zoom download"),
    }
    p.primary_image = "https://full.jpg".to_string();
    match download_plan(&p, false) {
        DownloadPlan::Direct(u) => assert_eq!(u, "https://full.jpg"),
        _ => panic!("expected a direct download"),
    }
}

#[test]
fn download_names_and_validity() {
    assert_eq!(download_file_name("Name__12", 0), "Name__12.jpg");
    assert_eq!(download_file_name("Name__12", 3), "Name__12_3.jpg");
    assert!(!file_is_valid(None));
    assert!(!file_is_valid(Some(1000)));
    assert!(file_is_valid(Some(1001)));
}

#[test]
fn recording_results() {
    let mut p = piece("u", "t");
    let msg = record_download(&mut p, "/pics/t.jpg".to_string(), 1200, 800);
    assert_eq!(msg, "Downloaded: 1200×800  [below 5K — press u to upscale]");
    assert_eq!(p.local_path.as_deref(), Some("/pics/t.jpg"));
    assert_eq!(p.resolution, Some([1200, 800]));
    let msg = record_download(&mut p, "/pics/t.jpg".to_string(), 6000, 4000);
    assert_eq!(msg, "Downloaded: 6000×4000");
    let msg = record_upscale(&mut p, "/pics/t_2x.jpg".to_string(), 2400, 1600);
    assert_eq!(msg, "Upscaled: 2400×1600");
    assert!(p.upscaled);
    assert!(!p.needs_upscale());
    assert_eq!(dimensions(5120, 2880), "5120×2880");
}

#[test]
fn upscaled_file_names() {
    assert_eq!(upscaled_path("/pics/Star__4.jpg"), "/pics/Star__4_2x.jpg");
    assert_eq!(upscaled_path("/pics/archive.tar.gz"), "/pics/archive.tar_2x.gz");
    assert_eq!(upscaled_path("/pics/.hidden"), "/pics/.hidden_2x.");
    assert_eq!(upscaled_path("plain"), "plain_2x.");
}

#[test]
fn gac_pieces_and_paths() {
    let p = gac_piece(
        "https://artsandculture.google.com/asset/x".to_string(),
        ("Title".to_string(), "Artist".to_string(), "https://lh3/t=s1200".to_string(), "https://lh3/t".to_string()),
    );
    assert_eq!(p.title, "Title");
    assert_eq!(p.image_base, "https://lh3/t");
    assert_eq!(p.primary_image, "");
    assert_eq!(join("/a", "b.jpg"), "/a/b.jpg");
    assert_eq!(join("/a/", "b.jpg"), "/a/b.jpg");
    assert_eq!(join("", "b.jpg"), "b.jpg");
}

#[test]
fn free_names_in_a_missing_directory() {
    let (path, answers) = free_download_path("/definitely/not/here", "Star__4");
    assert_eq!(path, "/definitely/not/here/Star__4.jpg");
    assert_eq!(answers, vec![false]);
}

#[test]
fn attempts_advance_only_while_taken() {
    assert_eq!(next_download_attempt(0, true), Some(1));
    assert_eq!(next_download_attempt(4, false), None);
    assert_eq!(next_download_attempt(u64::MAX, true), None);
}

use artfetch::browse::{
    items_on_page, medium_key, open_step, OpenStep, menu_label, source_key, upscale_step, work_passes, BrowseState,
    Command, Key, Screen, Session, UpscaleStep,
};
use artfetch::catalog::{CatalogEntry, Medium, MuseumSource};

fn entry(source: &str, title: &str, artist: &str, medium: &str) -> CatalogEntry {
    CatalogEntry {
        source: source.to_string(),
        id: "1".to_string(),
        title: title.to_string(),
        artist: artist.to_string(),
        date: String::new(),
        medium: medium.to_string(),
        thumb_url: String::new(),
        full_image_url: String::new(),
        web_url: format!("https://example.org/{}", title),
    }
}

fn catalog() -> Vec<CatalogEntry> {
    vec![
        entry("aic", "Water Lilies", "Berthe Morisot", "Oil on canvas"),
        entry("met", "Wheat Field", "Vincent van Gogh", "Oil on canvas"),
        entry("aic", "Study of Hands", "Albrecht Dürer", "Pen and ink"),
        entry("cleveland", "Harbor", "MORISOT workshop", "Watercolor"),
    ]
}

fn many(n: usize) -> Vec<CatalogEntry> {
    (0..n).map(|i| entry("aic", &format!("Work {}", i), "", "oil")).collect()
}

#[test]
fn unfiltered_list_holds_everything() {
    let c = catalog();
    let b = BrowseState::new(&c);
    assert_eq!(b.filtered, vec![0, 1, 2, 3]);
    assert_eq!(b.source, MuseumSource::All);
    assert_eq!(b.filter, Medium::All);
}

#[test]
fn filters_and_query_combine() {
    let c = catalog();
    let mut b = BrowseState::new(&c);
    assert!(b.apply_filter_key('2', &c));
    assert_eq!(b.filtered, vec![0, 2]);
    assert!(b.apply_filter_key('b', &c));
    assert_eq!(b.filtered, vec![0]);
    assert!(b.apply_filter_key('1', &c));
    assert_eq!(b.filtered, vec![0, 1]);
    b.set_query("MORISOT".to_string(), &c);
    assert_eq!(b.filtered, vec![0]);
    assert!(b.apply_filter_key('a', &c));
    assert_eq!(b.filtered, vec![0, 3]);
    b.set_query(String::new(), &c);
    assert_eq!(b.filtered, vec![0, 1, 2, 3]);
}

#[test]
fn unknown_filter_key_closes_menu_unchanged() {
    let c = catalog();
    let mut b = BrowseState::new(&c);
    b.page = 0;
    assert!(!b.apply_filter_key('z', &c));
    assert!(!b.apply_filter_key('0', &c));
    assert_eq!(b.filtered, vec![0, 1, 2, 3]);
}

#[test]
fn filter_keys_follow_the_menu() {
    assert_eq!(source_key('4'), Some(MuseumSource::Met));
    assert_eq!(source_key('9'), Some(MuseumSource::Namoc));
    assert_eq!(medium_key('f'), Some(Medium::Chalk));
    assert_eq!(medium_key('h'), None);
    assert_eq!(menu_label(Medium::Chalk), "Chalk / Charcoal");
    assert_eq!(menu_label(Medium::Pastel), "Pastel");
}

#[test]
fn work_passes_checks_title_and_artist() {
    let e = entry("met", "Wheat Field", "Vincent van Gogh", "Oil on canvas");
    let q: Vec<char> = "gogh".chars().collect();
    assert!(work_passes(&e, MuseumSource::Met, Medium::Oil, &q));
    assert!(!work_passes(&e, MuseumSource::AIC, Medium::Oil, &q));
    let q: Vec<char> = "lilies".chars().collect();
    assert!(!work_passes(&e, MuseumSource::All, Medium::All, &q));
}

#[test]
fn selection_moves_within_a_page() {
    let c = many(7);
    let mut s = Session::new(&c);
    assert_eq!(s.handle_key(Key::Char('j'), 3), Command::Redraw);
    assert_eq!(s.browse.selected, 0);
    s.handle_key(Key::Char('k'), 3);
    s.handle_key(Key::Down, 3);
    s.handle_key(Key::Char('k'), 3);
    assert_eq!(s.browse.selected, 2);
    s.handle_key(Key::Char('n'), 3);
    assert_eq!((s.browse.page, s.browse.selected), (1, 0));
    s.handle_key(Key::Right, 3);
    assert_eq!(s.browse.page, 2);
    s.handle_key(Key::Char('k'), 3);
    assert_eq!(s.browse.selected, 0);
    s.handle_key(Key::Char('n'), 3);
    assert_eq!(s.browse.page, 2);
    s.handle_key(Key::Char('p'), 3);
    assert_eq!(s.browse.page, 1);
    s.handle_key(Key::Left, 3);
    s.handle_key(Key::Left, 3);
    assert_eq!(s.browse.page, 0);
}

#[test]
fn enter_opens_detail_and_esc_returns() {
    let c = many(7);
    let mut s = Session::new(&c);
    s.handle_key(Key::Char('n'), 3);
    s.handle_key(Key::Char('k'), 3);
    assert_eq!(s.handle_key(Key::Enter, 3), Command::OpenDetail(4));
    assert_eq!(s.screen, Screen::Detail);
    assert_eq!(s.detail_idx, Some(4));
    assert_eq!(s.handle_key(Key::Char('k'), 3), Command::OpenDetail(5));
    assert_eq!(s.handle_key(Key::Right, 3), Command::OpenDetail(6));
    assert_eq!(s.handle_key(Key::Char('k'), 3), Command::Redraw);
    assert_eq!(s.handle_key(Key::Up, 3), Command::OpenDetail(5));
    assert_eq!(s.handle_key(Key::Esc, 3), Command::Redraw);
    assert_eq!(s.screen, Screen::Browse);
    assert_eq!((s.browse.page, s.browse.selected), (1, 1));
}

#[test]
fn j_moves_up_and_k_moves_down() {
    let c = many(5);
    let mut s = Session::new(&c);
    s.handle_key(Key::Char('k'), 5);
    s.handle_key(Key::Char('k'), 5);
    assert_eq!(s.browse.selected, 2);
    s.handle_key(Key::Char('j'), 5);
    assert_eq!(s.browse.selected, 1);
    assert_eq!(s.handle_key(Key::Enter, 5), Command::OpenDetail(1));
    assert_eq!(s.handle_key(Key::Char('j'), 5), Command::OpenDetail(0));
    assert_eq!(s.handle_key(Key::Char('j'), 5), Command::Redraw);
    assert_eq!(s.handle_key(Key::Char('k'), 5), Command::OpenDetail(1));
}

#[test]
fn keys_per_screen() {
    let c = many(2);
    let mut s = Session::new(&c);
    assert_eq!(s.handle_key(Key::Char('f'), 5), Command::FilterMenu);
    assert_eq!(s.handle_key(Key::Char('/'), 5), Command::Search);
    assert_eq!(s.handle_key(Key::Char('a'), 5), Command::AddGac);
    assert_eq!(s.handle_key(Key::Char('d'), 5), Command::Ignore);
    assert_eq!(s.handle_key(Key::Char('c'), 5), Command::Ignore);
    assert_eq!(s.handle_key(Key::CtrlC, 5), Command::Quit);
    s.handle_key(Key::Enter, 5);
    assert_eq!(s.handle_key(Key::Char('d'), 5), Command::Download);
    assert_eq!(s.handle_key(Key::Char('u'), 5), Command::Upscale);
    assert_eq!(s.handle_key(Key::Char('o'), 5), Command::OpenFile);
    assert_eq!(s.handle_key(Key::Char('c'), 5), Command::Configure);
    assert_eq!(s.handle_key(Key::Char('f'), 5), Command::Ignore);
    assert_eq!(s.handle_key(Key::Char('q'), 5), Command::Quit);
}

#[test]
fn empty_list_ignores_enter() {
    let c: Vec<CatalogEntry> = vec![];
    let mut s = Session::new(&c);
    assert_eq!(s.handle_key(Key::Enter, 4), Command::Redraw);
    assert_eq!(s.handle_key(Key::Char('k'), 4), Command::Redraw);
    assert_eq!(s.handle_key(Key::Char('j'), 4), Command::Redraw);
    assert_eq!(s.screen, Screen::Browse);
    assert_eq!(s.browse.selected, 0);
}

#[test]
fn page_items_count() {
    assert_eq!(items_on_page(7, 0, 3), 3);
    assert_eq!(items_on_page(7, 2, 3), 1);
    assert_eq!(items_on_page(7, 3, 3), 0);
    assert_eq!(items_on_page(7, usize::MAX, 3), 0);
}

#[test]
fn upscale_decisions() {
    assert_eq!(upscale_step(false, false, true), UpscaleStep::NeedsDownload);
    assert_eq!(upscale_step(true, true, true), UpscaleStep::AlreadyUpscaled);
    assert_eq!(upscale_step(true, false, false), UpscaleStep::OfferInstall);
    assert_eq!(upscale_step(true, false, true), UpscaleStep::Run);
}

#[test]
fn empty_search_keeps_every_filtered_work() {
    let c = catalog();
    let mut b = BrowseState::new(&c);
    assert!(b.apply_filter_key('2', &c));
    b.set_query(String::new(), &c);
    assert_eq!(b.filtered, vec![0, 2]);
    let s = Session::new(&c);
    assert_eq!(s.browse.filtered, vec![0, 1, 2, 3]);
}

#[test]
fn open_decisions() {
    assert!(matches!(open_step(&None, false), OpenStep::NeedsDownload));
    assert!(matches!(open_step(&Some("/p.jpg".to_string()), false), OpenStep::Nothing));
    match open_step(&Some("/p.jpg".to_string()), true) {
        OpenStep::Open(p) => assert_eq!(p, "/p.jpg"),
        _ => panic!("expected the file to open"),
    }
}

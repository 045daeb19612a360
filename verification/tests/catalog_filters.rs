use artfetch::catalog::{combine_catalogs, sort_by_title, CatalogEntry, Medium, MuseumSource};

fn entry(source: &str, title: &str, artist: &str, medium: &str) -> CatalogEntry {
    CatalogEntry {
        source: source.to_string(),
        id: "1".to_string(),
        title: title.to_string(),
        artist: artist.to_string(),
        date: String::new(),
        medium: medium.to_string(),
        thumb_url: String::new(),
        full_image_url: String::new(),
        web_url: format!("https://example.org/{}", title),
    }
}

#[test]
fn source_labels() {
    assert_eq!(MuseumSource::All.label(), "All");
    assert_eq!(MuseumSource::AIC.label(), "Art Inst. Chicago");
    assert_eq!(MuseumSource::Cleveland.label(), "Cleveland Museum");
    assert_eq!(MuseumSource::Met.label(), "The Met");
    assert_eq!(MuseumSource::Namoc.label(), "Natl. Art Museum China");
}

#[test]
fn source_matches_by_code() {
    let e = entry("saam", "A", "", "");
    assert!(MuseumSource::All.matches(&e));
    assert!(MuseumSource::Smithsonian.matches(&e));
    assert!(!MuseumSource::NationalGallery.matches(&e));
    assert!(MuseumSource::PalaceMuseum.matches(&entry("palace", "A", "", "")));
    assert!(MuseumSource::ShanghaiMuseum.matches(&entry("shanghai", "A", "", "")));
    assert!(!MuseumSource::Met.matches(&entry("MET", "A", "", "")));
}

#[test]
fn medium_labels() {
    assert_eq!(Medium::All.label(), "All");
    assert_eq!(Medium::Chalk.label(), "Chalk/Charcoal");
    assert_eq!(Medium::Watercolor.label(), "Watercolor");
}

#[test]
fn medium_matches_ignore_case() {
    assert!(Medium::Oil.matches(&entry("aic", "A", "", "Oil on canvas")));
    assert!(!Medium::Oil.matches(&entry("aic", "A", "", "Tempera on panel")));
    assert!(Medium::Tempera.matches(&entry("aic", "A", "", "Tempera on panel")));
    assert!(Medium::Watercolor.matches(&entry("aic", "A", "", "GOUACHE on paper")));
    assert!(Medium::Chalk.matches(&entry("aic", "A", "", "Graphite")));
    assert!(Medium::Chalk.matches(&entry("aic", "A", "", "red crayon")));
    assert!(Medium::Ink.matches(&entry("aic", "A", "", "Pen and INK")));
    assert!(Medium::Pastel.matches(&entry("aic", "A", "", "Pastel")));
    assert!(Medium::All.matches(&entry("aic", "A", "", "")));
    assert!(!Medium::Pastel.matches(&entry("aic", "A", "", "")));
}

#[test]
fn sort_is_by_lowercase_title_and_stable() {
    let v = vec![
        entry("aic", "banana", "first", ""),
        entry("aic", "Apple", "", ""),
        entry("aic", "Banana", "second", ""),
        entry("aic", "cherry", "", ""),
    ];
    let r = sort_by_title(v);
    let titles: Vec<&str> = r.iter().map(|e| e.title.as_str()).collect();
    assert_eq!(titles, vec!["Apple", "banana", "Banana", "cherry"]);
    assert_eq!(r[1].artist, "first");
    assert_eq!(r[2].artist, "second");
}

#[test]
fn combine_sorts_all_sources() {
    let r = combine_catalogs(
        vec![entry("aic", "Zebra", "", "")],
        vec![entry("cleveland", "Mountain", "", "")],
        vec![entry("met", "apple", "", "")],
        vec![],
        vec![entry("namoc", "Lake", "", "")],
    );
    let sources: Vec<&str> = r.iter().map(|e| e.source.as_str()).collect();
    assert_eq!(sources, vec!["met", "namoc", "cleveland", "aic"]);
}

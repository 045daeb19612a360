use artfetch::catalog::CatalogEntry;
use artfetch::museums::{
    aic_add_page, aic_search_url, aic_to_entry, append_medium_label, cleveland_add_page,
    cleveland_search_url, cleveland_to_entry, commons_batch_entries, commons_image_to_entry,
    decimal_string, fresh_entries, hex_value, is_met_painting_or_drawing,
    is_painting_or_drawing, join_page_ids, met_object_url, met_search_url,
    met_to_entry, page_id_batches, percent_decode_utf8, short_year, strip_parenthetical,
    title_from_commons_file_title, title_from_commons_url, wikidata_museums, wikidata_query_text,
    wikidata_to_entry, merge_wikidata_bindings, AicObject, CatalogCache, ClevelandCreator,
    ClevelandImageUrl, ClevelandImages, ClevelandObject, CommonsImageInfo, CommonsImagePage,
    MetIds, MetObject, WikidataBinding, CATALOG_TTL_SECS,
};

fn aic(id: u32, title: &str, class: &str, image: &str) -> AicObject {
    AicObject {
        id,
        title: title.to_string(),
        artist_title: "Berthe Morisot".to_string(),
        date_display: "1890".to_string(),
        medium_display: "Oil on canvas".to_string(),
        classification_title: class.to_string(),
        image_id: image.to_string(),
        is_public_domain: true,
    }
}

#[test]
fn aic_entry_fields() {
    let e = aic_to_entry(&aic(16568, "Water Lilies", "painting", "abc-123"));
    assert_eq!(e.source, "aic");
    assert_eq!(e.id, "16568");
    assert_eq!(e.thumb_url, "https://www.artic.edu/iiif/2/abc-123/full/400,/0/default.jpg");
    assert_eq!(e.full_image_url, "https://www.artic.edu/iiif/2/abc-123/full/max/0/default.jpg");
    assert_eq!(e.web_url, "https://www.artic.edu/artworks/16568");
    assert_eq!(e.artist, "Berthe Morisot");
    let no_image = aic_to_entry(&aic(1, "X", "painting", ""));
    assert_eq!(no_image.thumb_url, "");
    assert_eq!(no_image.full_image_url, "");
}

#[test]
fn aic_classification() {
    assert!(is_painting_or_drawing(&aic(1, "X", "Oil on Canvas", "i")));
    assert!(is_painting_or_drawing(&aic(1, "X", "DRAWING", "i")));
    assert!(is_painting_or_drawing(&aic(1, "X", "pastel", "i")));
    assert!(!is_painting_or_drawing(&aic(1, "X", "sculpture", "i")));
}

#[test]
fn aic_pages_skip_duplicates_and_unfit_records() {
    let mut seen = std::collections::HashSet::new();
    let mut entries: Vec<CatalogEntry> = Vec::new();
    let page = vec![
        aic(1, "A", "painting", "i1"),
        aic(2, "", "painting", "i2"),
        aic(3, "C", "painting", ""),
        aic(4, "D", "textile", "i4"),
        aic(1, "A again", "painting", "i1"),
        aic(5, "E", "drawing", "i5"),
    ];
    aic_add_page(&mut seen, &mut entries, &page);
    assert_eq!(seen, [1, 5].into_iter().collect());
    let ids: Vec<&str> = entries.iter().map(|e| e.id.as_str()).collect();
    assert_eq!(ids, vec!["1", "5"]);
    aic_add_page(&mut seen, &mut entries, &vec![aic(5, "E", "drawing", "i5"), aic(6, "F", "painting", "i6")]);
    assert_eq!(seen, [1, 5, 6].into_iter().collect());
    assert_eq!(entries.len(), 3);
}

fn cleveland(title: Option<&str>, web: Option<&str>, creator: Option<&str>) -> ClevelandObject {
    ClevelandObject {
        id: 135382,
        title: title.map(|s| s.to_string()),
        creation_date: Some("c. 1650".to_string()),
        creators: creator.map(|c| vec![ClevelandCreator { description: Some(c.to_string()) }]),
        technique: Some("oil on canvas".to_string()),
        images: Some(ClevelandImages {
            web: Some(ClevelandImageUrl { url: web.map(|s| s.to_string()) }),
            print: Some(ClevelandImageUrl { url: Some("https://print.jpg".to_string()) }),
        }),
    }
}

#[test]
fn cleveland_entry_fields() {
    let e = cleveland_to_entry(&cleveland(Some("Still Life"), Some("https://web.jpg"), Some("Jan Davidsz. de Heem (Dutch, 1606-1684)")))
        .unwrap();
    assert_eq!(e.source, "cleveland");
    assert_eq!(e.id, "135382");
    assert_eq!(e.artist, "Jan Davidsz. de Heem");
    assert_eq!(e.date, "c. 1650");
    assert_eq!(e.medium, "oil on canvas");
    assert_eq!(e.thumb_url, "https://web.jpg");
    assert_eq!(e.full_image_url, "https://print.jpg");
    assert_eq!(e.web_url, "https://www.clevelandart.org/art/135382");
    let anonymous = cleveland_to_entry(&cleveland(Some("T"), Some("https://web.jpg"), None)).unwrap();
    assert_eq!(anonymous.artist, "");
}

#[test]
fn cleveland_rejects_missing_title_or_thumbnail() {
    assert!(cleveland_to_entry(&cleveland(None, Some("https://web.jpg"), None)).is_none());
    assert!(cleveland_to_entry(&cleveland(Some(""), Some("https://web.jpg"), None)).is_none());
    assert!(cleveland_to_entry(&cleveland(Some("T"), None, None)).is_none());
    let mut no_images = cleveland(Some("T"), Some("w"), None);
    no_images.images = None;
    assert!(cleveland_to_entry(&no_images).is_none());
}

#[test]
fn cleveland_paging_stops_on_empty_page() {
    let mut entries: Vec<CatalogEntry> = Vec::new();
    let more = cleveland_add_page(&mut entries, vec![cleveland(Some("A"), Some("w"), None), cleveland(None, Some("w"), None)]);
    assert!(more);
    assert_eq!(entries.len(), 1);
    assert!(!cleveland_add_page(&mut entries, vec![]));
    assert_eq!(entries.len(), 1);
}

#[test]
fn parenthetical_is_cut() {
    assert_eq!(strip_parenthetical("Rembrandt (Dutch)"), "Rembrandt");
    assert_eq!(strip_parenthetical("Rembrandt(Dutch)"), "Rembrandt(Dutch)");
    assert_eq!(strip_parenthetical("A (b) (c)"), "A");
}

fn met(object_name: &str, small: &str, primary: &str, url: &str) -> MetObject {
    MetObject {
        object_id: 436535,
        is_public_domain: true,
        title: "Wheat Field".to_string(),
        artist_display_name: "Vincent van Gogh".to_string(),
        object_date: "1889".to_string(),
        medium: "Oil on canvas".to_string(),
        primary_image: primary.to_string(),
        primary_image_small: small.to_string(),
        object_url: url.to_string(),
        object_name: object_name.to_string(),
        classification: "Paintings".to_string(),
    }
}

#[test]
fn met_entry_fields_and_fallbacks() {
    let e = met_to_entry(met("Painting", "https://s.jpg", "", "")).unwrap();
    assert_eq!(e.source, "met");
    assert_eq!(e.id, "436535");
    assert_eq!(e.full_image_url, "https://s.jpg");
    assert_eq!(e.thumb_url, "https://s.jpg");
    assert_eq!(e.web_url, "https://www.metmuseum.org/art/collection/search/436535");
    let f = met_to_entry(met("Painting", "https://s.jpg", "https://p.jpg", "https://m.org/x")).unwrap();
    assert_eq!(f.full_image_url, "https://p.jpg");
    assert_eq!(f.web_url, "https://m.org/x");
    assert!(met_to_entry(met("Painting", "", "https://p.jpg", "")).is_none());
}

#[test]
fn met_kind_checks_name_classification_and_medium() {
    let mut o = met("Vase", "s", "", "");
    o.classification = "Ceramics".to_string();
    o.medium = "Porcelain".to_string();
    assert!(!is_met_painting_or_drawing(&o));
    o.medium = "Porcelain with INK decoration".to_string();
    assert!(is_met_painting_or_drawing(&o));
    o.medium = "Porcelain".to_string();
    o.object_name = "PAINTING".to_string();
    assert!(is_met_painting_or_drawing(&o));
    o.object_name = "Dra".to_string();
    o.classification = "wing".to_string();
    assert!(!is_met_painting_or_drawing(&o));
}

#[test]
fn met_ids_are_capped_and_distinct() {
    let mut ids = MetIds::new();
    ids.add(&vec![7]);
    let found: Vec<u32> = (1..=300).collect();
    ids.add(&found);
    assert_eq!(ids.ids().len(), 250);
    assert_eq!(ids.ids()[0], 7);
    assert_eq!(ids.ids()[1], 1);
    assert_eq!(*ids.ids().last().unwrap(), 250);
    ids.add(&vec![3, 251, 251]);
    assert_eq!(ids.ids().len(), 251);
    assert_eq!(*ids.ids().last().unwrap(), 251);
}

#[test]
fn hex_digits() {
    assert_eq!(hex_value(b'0'), Some(0));
    assert_eq!(hex_value(b'9'), Some(9));
    assert_eq!(hex_value(b'a'), Some(10));
    assert_eq!(hex_value(b'F'), Some(15));
    assert_eq!(hex_value(b'g'), None);
}

#[test]
fn percent_decoding() {
    assert_eq!(percent_decode_utf8("Caf%C3%A9"), "Café");
    assert_eq!(percent_decode_utf8("100%"), "100%");
    assert_eq!(percent_decode_utf8("%4"), "%4");
    assert_eq!(percent_decode_utf8("a%zzb"), "a%zzb");
    assert_eq!(percent_decode_utf8("%FF"), "\u{FFFD}");
}

#[test]
fn commons_titles() {
    assert_eq!(
        title_from_commons_url("http://commons.wikimedia.org/wiki/Special:FilePath/Mona_Lisa%2C_by_Leonardo.jpg?width=300"),
        "Mona Lisa, by Leonardo"
    );
    assert_eq!(title_from_commons_url("https://x/y/NoExtension"), "NoExtension");
    assert_eq!(title_from_commons_file_title("File:Spring_Dawn.tif"), "Spring Dawn");
    assert_eq!(title_from_commons_file_title("Plain_name"), "Plain name");
}

#[test]
fn years() {
    assert_eq!(short_year("1503-01-01T00:00:00Z"), "1503");
    assert_eq!(short_year("-0200-01-01T00:00:00Z"), "-0200-01-01");
    assert_eq!(short_year("12"), "12");
}

fn binding(work: &str, label: Option<&str>, medium: Option<&str>) -> WikidataBinding {
    WikidataBinding {
        work: work.to_string(),
        work_label: label.map(|s| s.to_string()),
        image: "http://commons.wikimedia.org/wiki/Special:FilePath/The_Harvest.jpg".to_string(),
        creator_label: Some("Pieter Bruegel".to_string()),
        date: Some("1565-01-01T00:00:00Z".to_string()),
        medium_label: medium.map(|s| s.to_string()),
    }
}

#[test]
fn wikidata_entry_fields() {
    let e = wikidata_to_entry("nga", &binding("http://www.wikidata.org/entity/Q123", Some("Harvesters"), Some("oil paint"))).unwrap();
    assert_eq!(e.source, "nga");
    assert_eq!(e.id, "Q123");
    assert_eq!(e.title, "Harvesters");
    assert_eq!(e.artist, "Pieter Bruegel");
    assert_eq!(e.date, "1565");
    assert_eq!(e.medium, "oil paint");
    assert_eq!(e.thumb_url, "http://commons.wikimedia.org/wiki/Special:FilePath/The_Harvest.jpg?width=500");
    assert_eq!(e.full_image_url, "http://commons.wikimedia.org/wiki/Special:FilePath/The_Harvest.jpg");
    assert_eq!(e.web_url, "http://www.wikidata.org/entity/Q123");
}

#[test]
fn wikidata_label_falls_back_to_image_name() {
    let e = wikidata_to_entry("saam", &binding("http://www.wikidata.org/entity/Q9", Some("Q9"), None)).unwrap();
    assert_eq!(e.title, "The Harvest");
    let f = wikidata_to_entry("saam", &binding("http://www.wikidata.org/entity/Q9", None, None)).unwrap();
    assert_eq!(f.title, "The Harvest");
    assert_eq!(f.medium, "");
}

#[test]
fn medium_labels_are_appended_once() {
    let mut e = wikidata_to_entry("nga", &binding("http://www.wikidata.org/entity/Q1", Some("A"), Some("oil paint"))).unwrap();
    append_medium_label(&mut e, Some("canvas".to_string()));
    assert_eq!(e.medium, "oil paint; canvas");
    append_medium_label(&mut e, Some("CANVAS".to_string()));
    assert_eq!(e.medium, "oil paint; canvas");
    append_medium_label(&mut e, Some(String::new()));
    append_medium_label(&mut e, None);
    assert_eq!(e.medium, "oil paint; canvas");
    let mut blank = wikidata_to_entry("nga", &binding("http://www.wikidata.org/entity/Q2", Some("B"), None)).unwrap();
    append_medium_label(&mut blank, Some("panel".to_string()));
    assert_eq!(blank.medium, "panel");
}

#[test]
fn merge_groups_rows_by_work() {
    let mut merged: Vec<CatalogEntry> = Vec::new();
    merge_wikidata_bindings(
        "palace",
        vec![
            binding("http://www.wikidata.org/entity/Q1", Some("One"), Some("ink")),
            binding("http://www.wikidata.org/entity/Q2", Some("Two"), None),
            binding("http://www.wikidata.org/entity/Q1", Some("One"), Some("silk")),
        ],
        &mut merged,
    );
    merge_wikidata_bindings(
        "palace",
        vec![binding("http://www.wikidata.org/entity/Q2", Some("Two"), Some("paper"))],
        &mut merged,
    );
    assert_eq!(merged.len(), 2);
    assert_eq!(merged[0].title, "One");
    assert_eq!(merged[0].medium, "ink; silk");
    assert_eq!(merged[1].medium, "paper");
}

fn commons_page(title: &str, url: Option<&str>, thumb: Option<&str>, desc: Option<&str>) -> CommonsImagePage {
    CommonsImagePage {
        title: title.to_string(),
        imageinfo: Some(vec![CommonsImageInfo {
            url: url.map(|s| s.to_string()),
            thumburl: thumb.map(|s| s.to_string()),
            descriptionurl: desc.map(|s| s.to_string()),
        }]),
    }
}

#[test]
fn commons_entry_fields() {
    let e = commons_image_to_entry("namoc", 42, &commons_page("File:Horse_Painting.jpg", Some("https://u/full.jpg"), None, None)).unwrap();
    assert_eq!(e.source, "namoc");
    assert_eq!(e.id, "42");
    assert_eq!(e.title, "Horse Painting");
    assert_eq!(e.thumb_url, "https://u/full.jpg");
    assert_eq!(e.web_url, "https://commons.wikimedia.org/wiki/File:Horse_Painting.jpg");
    let f = commons_image_to_entry("namoc", 42, &commons_page("File:A.png", Some("https://u/a.png"), Some("https://u/t.png"), Some("https://d"))).unwrap();
    assert_eq!(f.thumb_url, "https://u/t.png");
    assert_eq!(f.web_url, "https://d");
    assert!(commons_image_to_entry("namoc", 1, &commons_page("File:A.png", None, None, None)).is_none());
    let empty = CommonsImagePage { title: "File:A.png".to_string(), imageinfo: Some(vec![]) };
    assert!(commons_image_to_entry("namoc", 1, &empty).is_none());
}

#[test]
fn commons_batches_of_fifty() {
    let ids: Vec<u64> = (1..=120).collect();
    let batches = page_id_batches(&ids);
    let lens: Vec<usize> = batches.iter().map(|b| b.len()).collect();
    assert_eq!(lens, vec![50, 50, 20]);
    assert_eq!(batches[2][0], 101);
    assert_eq!(join_page_ids(&vec![3, 14, 159]), "3|14|159");
    assert_eq!(join_page_ids(&vec![]), "");
}

#[test]
fn commons_batch_keeps_id_order() {
    let pages = vec![
        ("2".to_string(), commons_page("File:B.jpg", Some("https://b"), None, None)),
        ("1".to_string(), commons_page("File:A.jpg", Some("https://a"), None, None)),
    ];
    let r = commons_batch_entries("namoc", &vec![1, 3, 2], &pages);
    let titles: Vec<&str> = r.iter().map(|e| e.title.as_str()).collect();
    assert_eq!(titles, vec!["A", "B"]);
}

#[test]
fn search_urls() {
    assert_eq!(
        aic_search_url(true, 2),
        "https://api.artic.edu/api/v1/artworks/search?q=*&query%5Bterm%5D%5Bis_boosted%5D=true&limit=100&page=2&fields=id,title,artist_title,date_display,medium_display,classification_title,image_id,is_public_domain"
    );
    assert!(aic_search_url(false, 10).contains("is_public_domain%5D=true&limit=100&page=10&"));
    assert_eq!(
        cleveland_search_url("Drawing", 3),
        "https://openaccess-api.clevelandart.org/api/artworks/?has_image=1&type=Drawing&limit=100&skip=300&fields=id,title,creation_date,creators,type,technique,images"
    );
    assert_eq!(met_search_url(), "https://collectionapi.metmuseum.org/public/collection/v1/search");
    assert_eq!(met_object_url(45), "https://collectionapi.metmuseum.org/public/collection/v1/objects/45");
}

#[test]
fn wikidata_queries() {
    let base = wikidata_query_text("Q214867", false);
    assert!(base.starts_with("SELECT DISTINCT ?work ?workLabel ?image ?creatorLabel ?date ?mediumLabel WHERE {\n  { ?work wdt:P195 wd:Q214867. } UNION { ?work wdt:P276 wd:Q214867. }\n  ?work wdt:P18 ?image.\n  OPTIONAL"));
    assert!(base.ends_with("} LIMIT 250"));
    let oil = wikidata_query_text("Q214867", true);
    assert!(oil.contains("?work wdt:P18 ?image.\n  ?work wdt:P186 wd:Q296955.\n  OPTIONAL"));
    let museums = wikidata_museums();
    let codes: Vec<&str> = museums.iter().map(|m| m.source).collect();
    assert_eq!(codes, vec!["nga", "saam", "palace", "shanghai"]);
}

#[test]
fn cache_is_fresh_for_a_week() {
    let entries = vec![wikidata_to_entry("nga", &binding("http://www.wikidata.org/entity/Q1", Some("A"), None)).unwrap()];
    let cache = CatalogCache { fetched_at: 1000, entries: entries.clone() };
    let fresh = fresh_entries(1000 + CATALOG_TTL_SECS - 1, cache).unwrap();
    assert_eq!(fresh.len(), 1);
    let cache = CatalogCache { fetched_at: 1000, entries };
    assert!(fresh_entries(1000 + CATALOG_TTL_SECS, cache).is_none());
    assert_eq!(CATALOG_TTL_SECS, 604800);
    let future = CatalogCache { fetched_at: 5000, entries: vec![] };
    assert!(fresh_entries(4999, future).is_none());
}

#[test]
fn decimal_text() {
    assert_eq!(decimal_string(0), "0");
    assert_eq!(decimal_string(18446744073709551615), "18446744073709551615");
}

use artfetch::catalog::{Medium, MuseumSource};
use artfetch::layout::{
    artist_date, filter_tag, header_padding, page_bounds, page_size, position_text, range_text,
    resolution_tag, rule_len, take_chars, title_width,
};

#[test]
fn pages_and_ranges() {
    assert_eq!(page_bounds(25, 1, 10), (10, 20));
    assert_eq!(page_bounds(25, 2, 10), (20, 25));
    assert_eq!(range_text(25, 20, 25), "21-25 of 25");
    assert_eq!(range_text(0, 0, 0), "0 results");
    assert_eq!(position_text(4, 12), "5/12");
}

#[test]
fn header_parts() {
    assert_eq!(filter_tag(MuseumSource::Met, Medium::Chalk), "[The Met / Chalk/Charcoal]");
    assert_eq!(artist_date("Monet", "1890"), "Monet, 1890");
    assert_eq!(artist_date("", "1890"), "1890");
    assert_eq!(artist_date("Monet", ""), "Monet");
    assert_eq!(take_chars("Água-forte", 4), "Água");
    assert_eq!(take_chars("abc", 10), "abc");
}

#[test]
fn widths() {
    assert_eq!(rule_len(80), 60);
    assert_eq!(rule_len(40), 36);
    assert_eq!(rule_len(4), 0);
    assert_eq!(rule_len(3), 60);
    assert_eq!(title_width(120), 60);
    assert_eq!(title_width(30), 20);
    assert_eq!(header_padding(80, "[All / All]  1-16 of 100"), 44);
    assert_eq!(header_padding(20, "[All / All]  1-16 of 100"), 0);
    assert_eq!(page_size(24), 16);
    assert_eq!(page_size(9), 1);
    assert_eq!(page_size(3), 1);
}

#[test]
fn resolution_tags() {
    assert_eq!(resolution_tag(5120, 100), (true, "≥ 5K"));
    assert_eq!(resolution_tag(100, 2880), (true, "≥ 5K"));
    assert_eq!(resolution_tag(5119, 2879), (false, "< 5K"));
}

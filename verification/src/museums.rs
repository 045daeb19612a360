//! Museum API records and their conversion into catalog entries.
//!
//! The records hold, as plain values, what the JSON answers of the museum APIs
//! carry; the functions here decide which works enter the catalog and how
//! their fields are filled.

use vstd::prelude::*;
use std::collections::HashSet;
use crate::catalog::{entry_views, CatalogEntry, EntryView};
use crate::text::{
    after_last, before_first, before_last_or_all, cat, chars_of, decimal, decimal_chars,
    eq_ignore_ascii_case, first_occ, lemma_decimal_injective, lemma_trim_after_space, find_first, has_substring, lower_contains, opt_text,
    replace_char, spec_lowercase, spec_utf8_lossy, strip_prefix_or_all, string_of, trim,
};

verus! {

pub const AIC_IIIF: &'static str = "https://www.artic.edu/iiif/2";

pub const AIC_ARTWORK_PAGE: &'static str = "https://www.artic.edu/artworks/";

pub const CLEVELAND_ARTWORK_PAGE: &'static str = "https://www.clevelandart.org/art/";

pub const MET_SEARCH_PAGE: &'static str = "https://www.metmuseum.org/art/collection/search/";

// ── Art Institute of Chicago ────────────────────────────────────────────────

/// An artwork record of the Art Institute of Chicago API (absent fields read as empty).
#[derive(Clone, Debug)]
pub struct AicObject {
    pub id: u32,
    pub title: String,
    pub artist_title: String,
    pub date_display: String,
    pub medium_display: String,
    pub classification_title: String,
    pub image_id: String,
    pub is_public_domain: bool,
}

/// A classification that marks a painting or a drawing.
pub open spec fn aic_is_painting_or_drawing(classification: Seq<char>) -> bool {
    let c = spec_lowercase(classification);
    ||| has_substring(c, "painting"@)
    ||| has_substring(c, "oil on"@)
    ||| has_substring(c, "drawing"@)
    ||| has_substring(c, "watercolor"@)
    ||| has_substring(c, "crayon"@)
    ||| has_substring(c, "chalk"@)
    ||| has_substring(c, "pastel"@)
}

/// The IIIF image URL of an AIC image at a given size path, empty without an image.
pub open spec fn aic_image_url(image_id: Seq<char>, size: Seq<char>) -> Seq<char> {
    if image_id.len() == 0 {
        Seq::empty()
    } else {
        AIC_IIIF@ + "/"@ + image_id + size
    }
}

pub open spec fn aic_entry(obj: AicObject) -> EntryView {
    EntryView {
        source: "aic"@,
        id: decimal(obj.id as nat),
        title: obj.title@,
        artist: obj.artist_title@,
        date: obj.date_display@,
        medium: obj.medium_display@,
        thumb_url: aic_image_url(obj.image_id@, "/full/400,/0/default.jpg"@),
        full_image_url: aic_image_url(obj.image_id@, "/full/max/0/default.jpg"@),
        web_url: AIC_ARTWORK_PAGE@ + decimal(obj.id as nat),
    }
}

pub fn is_painting_or_drawing(obj: &AicObject) -> (r: bool)
    ensures
        r == aic_is_painting_or_drawing(obj.classification_title@),
{
    let c = obj.classification_title.as_str();
    lower_contains(c, "painting") || lower_contains(c, "oil on") || lower_contains(c, "drawing")
        || lower_contains(c, "watercolor") || lower_contains(c, "crayon") || lower_contains(
        c,
        "chalk",
    ) || lower_contains(c, "pastel")
}

fn aic_image(image_id: &String, size: &str) -> (r: String)
    ensures
        r@ == aic_image_url(image_id@, size@),
{
    if image_id.as_str().is_empty() {
        String::new()
    } else {
        let base = cat(AIC_IIIF, "/");
        let with_id = cat(base.as_str(), image_id.as_str());
        cat(with_id.as_str(), size)
    }
}

/// Decimal text of a number as a `String`.
pub fn decimal_string(n: u64) -> (r: String)
    ensures
        r@ == decimal(n as nat),
{
    string_of(&decimal_chars(n))
}

pub fn aic_to_entry(obj: &AicObject) -> (r: CatalogEntry)
    ensures
        r@ == aic_entry(*obj),
{
    let id = decimal_string(obj.id as u64);
    let web_url = cat(AIC_ARTWORK_PAGE, id.as_str());
    CatalogEntry {
        source: String::from_str("aic"),
        id,
        title: obj.title.clone(),
        artist: obj.artist_title.clone(),
        date: obj.date_display.clone(),
        medium: obj.medium_display.clone(),
        thumb_url: aic_image(&obj.image_id, "/full/400,/0/default.jpg"),
        full_image_url: aic_image(&obj.image_id, "/full/max/0/default.jpg"),
        web_url,
    }
}

// ── Cleveland Museum of Art ─────────────────────────────────────────────────

#[derive(Clone, Debug)]
pub struct ClevelandCreator {
    pub description: Option<String>,
}

#[derive(Clone, Debug)]
pub struct ClevelandImageUrl {
    pub url: Option<String>,
}

#[derive(Clone, Debug)]
pub struct ClevelandImages {
    pub web: Option<ClevelandImageUrl>,
    pub print: Option<ClevelandImageUrl>,
}

/// An artwork record of the Cleveland Museum of Art open-access API.
#[derive(Clone, Debug)]
pub struct ClevelandObject {
    pub id: u32,
    pub title: Option<String>,
    pub creation_date: Option<String>,
    pub creators: Option<Vec<ClevelandCreator>>,
    pub technique: Option<String>,
    pub images: Option<ClevelandImages>,
}

/// `s` up to the first `" ("`, or all of `s`.
pub open spec fn before_parenthetical(s: Seq<char>) -> Seq<char> {
    let i = first_occ(s, " ("@);
    if i == -1 {
        s
    } else {
        s.take(i)
    }
}

/// The URL of an optional image link, empty when either level is missing.
pub open spec fn image_link(o: Option<ClevelandImageUrl>) -> Seq<char> {
    match o {
        Some(u) => opt_text(u.url),
        None => Seq::empty(),
    }
}

/// The first creator's description without its parenthetical, empty when there is none.
pub open spec fn cleveland_artist(creators: Option<Vec<ClevelandCreator>>) -> Seq<char> {
    match creators {
        Some(v) => if v@.len() > 0 {
            match v@[0].description {
                Some(d) => before_parenthetical(d@),
                None => Seq::empty(),
            }
        } else {
            Seq::empty()
        },
        None => Seq::empty(),
    }
}

/// A Cleveland record enters the catalog when it has a title and a web image.
pub open spec fn cleveland_entry(obj: ClevelandObject) -> Option<EntryView> {
    let title = opt_text(obj.title);
    if title.len() == 0 {
        None
    } else {
        match obj.images {
            None => None,
            Some(images) => {
                let thumb = image_link(images.web);
                if thumb.len() == 0 {
                    None
                } else {
                    Some(
                        EntryView {
                            source: "cleveland"@,
                            id: decimal(obj.id as nat),
                            title,
                            artist: cleveland_artist(obj.creators),
                            date: opt_text(obj.creation_date),
                            medium: opt_text(obj.technique),
                            thumb_url: thumb,
                            full_image_url: image_link(images.print),
                            web_url: CLEVELAND_ARTWORK_PAGE@ + decimal(obj.id as nat),
                        },
                    )
                }
            },
        }
    }
}

/// `s` up to the first `" ("`.
pub fn strip_parenthetical(s: &str) -> (r: String)
    ensures
        r@ == before_parenthetical(s@),
{
    let v = chars_of(s);
    match find_first(&v, &chars_of(" (")) {
        Some(i) => string_of(&crate::text::slice(&v, 0, i)),
        None => String::from_str(s),
    }
}

fn text_or_empty(o: &Option<String>) -> (r: String)
    ensures
        r@ == opt_text(*o),
{
    match o {
        Some(s) => s.clone(),
        None => String::new(),
    }
}

fn link_or_empty(o: &Option<ClevelandImageUrl>) -> (r: String)
    ensures
        r@ == image_link(*o),
{
    match o {
        Some(u) => text_or_empty(&u.url),
        None => String::new(),
    }
}

pub fn cleveland_to_entry(obj: &ClevelandObject) -> (r: Option<CatalogEntry>)
    ensures
        match r {
            Some(e) => cleveland_entry(*obj) == Some(e@),
            None => cleveland_entry(*obj) is None,
        },
{
    let title = text_or_empty(&obj.title);
    if title.as_str().is_empty() {
        return None;
    }
    let images = match &obj.images {
        Some(images) => images,
        None => return None,
    };
    let thumb_url = link_or_empty(&images.web);
    let full_image_url = link_or_empty(&images.print);
    if thumb_url.as_str().is_empty() {
        return None;
    }
    let artist = match &obj.creators {
        Some(v) => if v.len() > 0 {
            match &v[0].description {
                Some(d) => strip_parenthetical(d.as_str()),
                None => String::new(),
            }
        } else {
            String::new()
        },
        None => String::new(),
    };
    let id = decimal_string(obj.id as u64);
    let web_url = cat(CLEVELAND_ARTWORK_PAGE, id.as_str());
    Some(
        CatalogEntry {
            source: String::from_str("cleveland"),
            id,
            title,
            artist,
            date: text_or_empty(&obj.creation_date),
            medium: text_or_empty(&obj.technique),
            thumb_url,
            full_image_url,
            web_url,
        },
    )
}

// ── The Metropolitan Museum of Art ──────────────────────────────────────────

/// An object record of the Met collection API (absent fields read as empty).
#[derive(Clone, Debug)]
pub struct MetObject {
    pub object_id: u32,
    pub is_public_domain: bool,
    pub title: String,
    pub artist_display_name: String,
    pub object_date: String,
    pub medium: String,
    pub primary_image: String,
    pub primary_image_small: String,
    pub object_url: String,
    pub object_name: String,
    pub classification: String,
}

/// The object name, classification and medium, joined by spaces, then lowercased.
pub open spec fn met_haystack(obj: MetObject) -> Seq<char> {
    spec_lowercase(obj.object_name@ + " "@ + obj.classification@ + " "@ + obj.medium@)
}

pub open spec fn met_is_painting_or_drawing(obj: MetObject) -> bool {
    let h = met_haystack(obj);
    ||| has_substring(h, "painting"@)
    ||| has_substring(h, "drawing"@)
    ||| has_substring(h, "watercolor"@)
    ||| has_substring(h, "pastel"@)
    ||| has_substring(h, "chalk"@)
    ||| has_substring(h, "ink"@)
}

/// A Met object enters the catalog when it has a title, a small image and a painting or
/// drawing kind; the web page defaults to the collection search page of the object.
pub open spec fn met_entry(obj: MetObject) -> Option<EntryView> {
    if obj.title@.len() == 0 || obj.primary_image_small@.len() == 0
        || !met_is_painting_or_drawing(obj) {
        None
    } else {
        Some(
            EntryView {
                source: "met"@,
                id: decimal(obj.object_id as nat),
                title: obj.title@,
                artist: obj.artist_display_name@,
                date: obj.object_date@,
                medium: obj.medium@,
                thumb_url: obj.primary_image_small@,
                full_image_url: if obj.primary_image@.len() == 0 {
                    obj.primary_image_small@
                } else {
                    obj.primary_image@
                },
                web_url: if obj.object_url@.len() == 0 {
                    MET_SEARCH_PAGE@ + decimal(obj.object_id as nat)
                } else {
                    obj.object_url@
                },
            },
        )
    }
}

pub fn is_met_painting_or_drawing(obj: &MetObject) -> (r: bool)
    ensures
        r == met_is_painting_or_drawing(*obj),
{
    let a = cat(obj.object_name.as_str(), " ");
    let b = cat(a.as_str(), obj.classification.as_str());
    let c = cat(b.as_str(), " ");
    let joined = cat(c.as_str(), obj.medium.as_str());
    let lower = crate::text::to_lowercase(joined.as_str());
    let h = chars_of(lower.as_str());
    crate::text::contains(&h, &chars_of("painting")) || crate::text::contains(&h, &chars_of("drawing"))
        || crate::text::contains(&h, &chars_of("watercolor")) || crate::text::contains(&h, &chars_of("pastel"))
        || crate::text::contains(&h, &chars_of("chalk")) || crate::text::contains(&h, &chars_of("ink"))
}

pub fn met_to_entry(obj: MetObject) -> (r: Option<CatalogEntry>)
    ensures
        match r {
            Some(e) => met_entry(obj) == Some(e@),
            None => met_entry(obj) is None,
        },
{
    if obj.title.as_str().is_empty() || obj.primary_image_small.as_str().is_empty()
        || !is_met_painting_or_drawing(&obj) {
        return None;
    }
    let id = decimal_string(obj.object_id as u64);
    let web_url = if obj.object_url.as_str().is_empty() {
        cat(MET_SEARCH_PAGE, id.as_str())
    } else {
        obj.object_url.clone()
    };
    let full_image_url = if obj.primary_image.as_str().is_empty() {
        obj.primary_image_small.clone()
    } else {
        obj.primary_image.clone()
    };
    Some(
        CatalogEntry {
            source: String::from_str("met"),
            id,
            title: obj.title.clone(),
            artist: obj.artist_display_name.clone(),
            date: obj.object_date.clone(),
            medium: obj.medium.clone(),
            thumb_url: obj.primary_image_small.clone(),
            full_image_url,
            web_url,
        },
    )
}

// ── Wikidata and Wikimedia Commons ──────────────────────────────────────────

pub const COMMONS_WIKI_PAGE: &'static str = "https://commons.wikimedia.org/wiki/";

/// One row of a Wikidata SPARQL answer: the work's entity URL, its label, its
/// Commons image URL, and the optional creator, inception date and material.
#[derive(Clone, Debug)]
pub struct WikidataBinding {
    pub work: String,
    pub work_label: Option<String>,
    pub image: String,
    pub creator_label: Option<String>,
    pub date: Option<String>,
    pub medium_label: Option<String>,
}

/// The value of one hexadecimal digit.
pub open spec fn hex(b: u8) -> Option<u8> {
    if 48 <= b <= 57 {
        Some((b - 48) as u8)
    } else if 97 <= b <= 102 {
        Some((b - 97 + 10) as u8)
    } else if 65 <= b <= 70 {
        Some((b - 65 + 10) as u8)
    } else {
        None
    }
}

/// Percent-decoding of bytes: `%` followed by two hex digits stands for one byte;
/// everything else, a lone or malformed `%` included, stands for itself.
pub open spec fn percent_decode(b: Seq<u8>) -> Seq<u8>
    decreases b.len(),
{
    if b.len() == 0 {
        Seq::empty()
    } else if b[0] == 37 && b.len() >= 3 && hex(b[1]) is Some && hex(b[2]) is Some {
        seq![(hex(b[1])->0 * 16 + hex(b[2])->0) as u8] + percent_decode(
            b.subrange(3, b.len() as int),
        )
    } else {
        seq![b[0]] + percent_decode(b.subrange(1, b.len() as int))
    }
}

/// The title that a Commons file URL names: the last path segment before any query,
/// percent-decoded, with underscores as spaces and without its extension.
pub open spec fn commons_url_title(url: Seq<char>) -> Seq<char> {
    let file = after_last(before_first(url, '?'), '/');
    let decoded = replace_char(
        spec_utf8_lossy(percent_decode(vstd::utf8::encode_utf8(file))),
        '_',
        ' ',
    );
    before_last_or_all(decoded, '.')
}

/// The title of a Commons `File:` page without prefix and extension, underscores as spaces.
pub open spec fn commons_file_title(title: Seq<char>) -> Seq<char> {
    replace_char(before_last_or_all(strip_prefix_or_all(title, "File:"@), '.'), '_', ' ')
}

pub open spec fn is_ascii_digit(c: char) -> bool {
    '0' <= c && c <= '9'
}

/// A leading four-digit year, else the date part of an ISO timestamp.
pub open spec fn year_of(date: Seq<char>) -> Seq<char> {
    if date.len() >= 4 && is_ascii_digit(date[0]) && is_ascii_digit(date[1]) && is_ascii_digit(
        date[2],
    ) && is_ascii_digit(date[3]) {
        date.take(4)
    } else {
        before_first(date, 'T')
    }
}

/// The entity id of a work: the last segment of its entity URL.
pub open spec fn wikidata_id(work: Seq<char>) -> Seq<char> {
    after_last(work, '/')
}

/// The label of a work: its Wikidata label unless missing, empty or just its id;
/// otherwise the title that its image file name gives.
pub open spec fn wikidata_title(b: WikidataBinding) -> Seq<char> {
    let id = wikidata_id(b.work@);
    match b.work_label {
        Some(l) => if l@.len() != 0 && l@ != id {
            l@
        } else {
            commons_url_title(b.image@)
        },
        None => commons_url_title(b.image@),
    }
}

pub open spec fn wikidata_entry(source: Seq<char>, b: WikidataBinding) -> Option<EntryView> {
    let title = wikidata_title(b);
    if title.len() == 0 {
        None
    } else {
        Some(
            EntryView {
                source,
                id: wikidata_id(b.work@),
                title,
                artist: opt_text(b.creator_label),
                date: match b.date {
                    Some(d) => year_of(d@),
                    None => Seq::empty(),
                },
                medium: opt_text(b.medium_label),
                thumb_url: b.image@ + "?width=500"@,
                full_image_url: b.image@,
                web_url: b.work@,
            },
        )
    }
}

pub fn hex_value(b: u8) -> (r: Option<u8>)
    ensures
        r == hex(b),
{
    if 48 <= b && b <= 57 {
        Some(b - 48)
    } else if 97 <= b && b <= 102 {
        Some(b - 97 + 10)
    } else if 65 <= b && b <= 70 {
        Some(b - 65 + 10)
    } else {
        None
    }
}

proof fn lemma_percent_step(b: Seq<u8>, i: int)
    requires
        0 <= i < b.len(),
    ensures
        ({
            let rest = b.subrange(i, b.len() as int);
            &&& rest[0] == b[i]
            &&& (b.len() - i >= 3 ==> rest[1] == b[i + 1] && rest[2] == b[i + 2])
            &&& (b.len() - i >= 3 ==> rest.subrange(3, rest.len() as int) =~= b.subrange(
                i + 3,
                b.len() as int,
            ))
            &&& rest.subrange(1, rest.len() as int) =~= b.subrange(i + 1, b.len() as int)
        }),
{
}

/// Percent-decodes the UTF-8 bytes of `s` and reads the result back as UTF-8,
/// replacing what is not valid UTF-8.
pub fn percent_decode_utf8(s: &str) -> (r: String)
    ensures
        r@ == spec_utf8_lossy(percent_decode(vstd::utf8::encode_utf8(s@))),
        vstd::utf8::valid_utf8(percent_decode(vstd::utf8::encode_utf8(s@))) ==> r@
            == vstd::utf8::decode_utf8(percent_decode(vstd::utf8::encode_utf8(s@))),
{
    let bytes = s.as_bytes();
    let ghost b = bytes@;
    let n = bytes.len();
    let mut out: Vec<u8> = Vec::new();
    let mut i: usize = 0;
    assert(b.subrange(0, n as int) =~= b);
    while i < n
        invariant
            n == b.len(),
            b == bytes@,
            i <= n,
            out@ + percent_decode(b.subrange(i as int, n as int)) == percent_decode(b),
        decreases n - i,
    {
        proof {
            lemma_percent_step(b, i as int);
        }
        if bytes[i] == 37 && n - i > 2 {
            match (hex_value(bytes[i + 1]), hex_value(bytes[i + 2])) {
                (Some(hi), Some(lo)) => {
                    out.push(hi * 16 + lo);
                    i += 3;
                    continue ;
                },
                _ => {},
            }
        }
        out.push(bytes[i]);
        i += 1;
    }
    assert(b.subrange(n as int, n as int) =~= Seq::<u8>::empty());
    assert(out@ =~= percent_decode(b));
    assert(b == vstd::utf8::encode_utf8(s@));
    crate::text::utf8_lossy(&out)
}

pub fn title_from_commons_url(url: &str) -> (r: String)
    ensures
        r@ == commons_url_title(url@),
{
    let v = chars_of(url);
    let path = crate::text::take_before_first(&v, '?');
    let file = crate::text::take_after_last(&path, '/');
    let decoded = percent_decode_utf8(string_of(&file).as_str());
    let spaced = crate::text::replace_chars(&chars_of(decoded.as_str()), '_', ' ');
    string_of(&crate::text::take_before_last_or_all(&spaced, '.'))
}

pub fn title_from_commons_file_title(title: &str) -> (r: String)
    ensures
        r@ == commons_file_title(title@),
{
    let trimmed = crate::text::strip_prefix_chars(&chars_of(title), &chars_of("File:"));
    let stem = crate::text::take_before_last_or_all(&trimmed, '.');
    string_of(&crate::text::replace_chars(&stem, '_', ' '))
}

pub fn short_year(date: &str) -> (r: String)
    ensures
        r@ == year_of(date@),
{
    let v = chars_of(date);
    if v.len() >= 4 && '0' <= v[0] && v[0] <= '9' && '0' <= v[1] && v[1] <= '9' && '0' <= v[2]
        && v[2] <= '9' && '0' <= v[3] && v[3] <= '9' {
        string_of(&crate::text::slice(&v, 0, 4))
    } else {
        string_of(&crate::text::take_before_first(&v, 'T'))
    }
}

pub fn wikidata_to_entry(source: &str, binding: &WikidataBinding) -> (r: Option<CatalogEntry>)
    ensures
        match r {
            Some(e) => wikidata_entry(source@, *binding) == Some(e@),
            None => wikidata_entry(source@, *binding) is None,
        },
{
    let id = string_of(&crate::text::take_after_last(&chars_of(binding.work.as_str()), '/'));
    let label = match &binding.work_label {
        Some(l) => if !l.as_str().is_empty() && !crate::text::same_text(l.as_str(), id.as_str()) {
            l.clone()
        } else {
            title_from_commons_url(binding.image.as_str())
        },
        None => title_from_commons_url(binding.image.as_str()),
    };
    if label.as_str().is_empty() {
        return None;
    }
    Some(
        CatalogEntry {
            source: String::from_str(source),
            id,
            title: label,
            artist: text_or_empty(&binding.creator_label),
            date: match &binding.date {
                Some(d) => short_year(d.as_str()),
                None => String::new(),
            },
            medium: text_or_empty(&binding.medium_label),
            thumb_url: cat(binding.image.as_str(), "?width=500"),
            full_image_url: binding.image.clone(),
            web_url: binding.work.clone(),
        },
    )
}

// ── Merging Wikidata rows ───────────────────────────────────────────────────

/// `s[i..j]` is one of the `;`-separated parts of `s` (as `split(';')` yields them).
pub open spec fn is_part(s: Seq<char>, i: int, j: int) -> bool {
    &&& 0 <= i <= j <= s.len()
    &&& (i == 0 || s[i - 1] == ';')
    &&& (j == s.len() || s[j] == ';')
    &&& forall|k: int| i <= k < j ==> s[k] != ';'
}

/// Some `;`-separated part of `medium`, trimmed, equals `label` up to ASCII case.
pub open spec fn has_medium_part(medium: Seq<char>, label: Seq<char>) -> bool {
    exists|i: int, j: int|
        is_part(medium, i, j) && #[trigger] eq_ignore_ascii_case(
            trim(medium.subrange(i, j)),
            label,
        )
}

/// The medium text after adding a further material label: unchanged when the label is
/// absent, empty or already listed; otherwise appended after `"; "` (or alone).
pub open spec fn with_medium_label(medium: Seq<char>, label: Option<Seq<char>>) -> Seq<char> {
    match label {
        None => medium,
        Some(l) => if l.len() == 0 || has_medium_part(medium, l) {
            medium
        } else if medium.len() == 0 {
            l
        } else {
            medium + "; "@ + l
        },
    }
}

pub open spec fn label_text(o: Option<String>) -> Option<Seq<char>> {
    match o {
        Some(s) => Some(s@),
        None => None,
    }
}

/// Whether some `;`-separated part of `medium`, trimmed, equals `label` ignoring ASCII case.
pub fn medium_has_part(medium: &Vec<char>, label: &Vec<char>) -> (r: bool)
    ensures
        r == has_medium_part(medium@, label@),
{
    let s = medium;
    let n = s.len();
    let mut start: usize = 0;
    loop
        invariant
            n == s.len(),
            s@ == medium@,
            start <= n,
            start == 0 || s@[start - 1] == ';',
            forall|i: int, j: int|
                #![trigger is_part(s@, i, j)]
                is_part(s@, i, j) && i < start ==> !eq_ignore_ascii_case(
                    trim(s@.subrange(i, j)),
                    label@,
                ),
        decreases n - start,
    {
        let mut end = start;
        while end < n && s[end] != ';'
            invariant
                start <= end <= n,
                n == s.len(),
                forall|k: int| start <= k < end ==> s@[k] != ';',
            decreases n - end,
        {
            end += 1;
        }
        assert(is_part(s@, start as int, end as int));
        let part = crate::text::trim_chars(&crate::text::slice(s, start, end));
        if crate::text::eq_ignore_case(&part, label) {
            assert(is_part(s@, start as int, end as int) && eq_ignore_ascii_case(
                trim(s@.subrange(start as int, end as int)),
                label@,
            ));
            return true;
        }
        assert forall|i: int, j: int|
            #![trigger is_part(s@, i, j)]
            is_part(s@, i, j) && i < end + 1 implies !eq_ignore_ascii_case(
            trim(s@.subrange(i, j)),
            label@,
        ) by {
            if i == start {
                if j < end {
                    assert(s@[j] != ';');
                } else if j > end {
                    assert(s@[end as int] != ';' || end == n);
                }
            } else if i > start {
                assert(s@[i - 1] == ';');
            }
        }
        if end == n {
            assert(!has_medium_part(s@, label@)) by {
                if has_medium_part(s@, label@) {
                    let (i, j) = choose|i: int, j: int|
                        is_part(s@, i, j) && #[trigger] eq_ignore_ascii_case(
                            trim(s@.subrange(i, j)),
                            label@,
                        );
                    assert(is_part(s@, i, j));
                }
            }
            return false;
        }
        start = end + 1;
    }
}

/// Adding a material label that is trimmed and holds no `;` a second time changes
/// nothing: the label is then one of the medium's parts.
pub proof fn lemma_medium_label_once(medium: Seq<char>, label: Seq<char>)
    requires
        trim(label) == label,
        forall|k: int| 0 <= k < label.len() ==> label[k] != ';',
    ensures
        with_medium_label(with_medium_label(medium, Some(label)), Some(label)) == with_medium_label(
            medium,
            Some(label),
        ),
{
    let once = with_medium_label(medium, Some(label));
    if label.len() == 0 || has_medium_part(medium, label) {
    } else {
        assert(eq_ignore_ascii_case(label, label));
        if medium.len() == 0 {
            assert(is_part(label, 0, label.len() as int));
            assert(label.subrange(0, label.len() as int) =~= label);
            assert(eq_ignore_ascii_case(trim(label.subrange(0, label.len() as int)), label));
        } else {
            let s = medium + "; "@ + label;
            assert(s == once);
            reveal_strlit("; ");
            let i = medium.len() + 1 as int;
            let j = s.len() as int;
            assert(s.subrange(i, j) =~= seq![' '] + label);
            lemma_trim_after_space(label);
            assert(is_part(s, i, j)) by {
                assert(s[i - 1] == ';');
                assert forall|k: int| i <= k < j implies s[k] != ';' by {
                    if k > i {
                        assert(s[k] == label[k - i - 1]);
                    }
                }
            }
            assert(eq_ignore_ascii_case(trim(s.subrange(i, j)), label));
        }
    }
}

/// Adds a material label to the medium of `entry` (see `with_medium_label`).
pub fn append_medium_label(entry: &mut CatalogEntry, label: Option<String>)
    ensures
        final(entry)@ == (EntryView {
            medium: with_medium_label(old(entry).medium@, label_text(label)),
            ..old(entry)@
        }),
{
    let label = match label {
        Some(l) => l,
        None => return ,
    };
    if label.as_str().is_empty() {
        return ;
    }
    if medium_has_part(&chars_of(entry.medium.as_str()), &chars_of(label.as_str())) {
        return ;
    }
    if !entry.medium.as_str().is_empty() {
        entry.medium.append("; ");
    }
    entry.medium.append(label.as_str());
}

/// `k` is the first position of an entry whose web URL is `key`, or `-1`.
pub open spec fn is_url_index(m: Seq<EntryView>, key: Seq<char>, k: int) -> bool {
    &&& -1 <= k < m.len()
    &&& k >= 0 ==> m[k].web_url == key
    &&& forall|j: int| 0 <= j < m.len() && (k == -1 || j < k) ==> #[trigger] m[j].web_url != key
}

pub open spec fn url_index(m: Seq<EntryView>, key: Seq<char>) -> int {
    choose|k: int| is_url_index(m, key, k)
}

/// One Wikidata row merged into the works gathered so far: a work already present
/// gains the row's material; a new work is appended when the row makes an entry.
pub open spec fn merge_step(source: Seq<char>, m: Seq<EntryView>, b: WikidataBinding) -> Seq<
    EntryView,
> {
    let k = url_index(m, b.work@);
    if k >= 0 {
        m.update(
            k,
            EntryView { medium: with_medium_label(m[k].medium, label_text(b.medium_label)), ..m[k] },
        )
    } else {
        match wikidata_entry(source, b) {
            Some(e) => m.push(e),
            None => m,
        }
    }
}

/// All rows merged in order.
pub open spec fn merge_bindings(source: Seq<char>, m: Seq<EntryView>, bs: Seq<WikidataBinding>) -> Seq<
    EntryView,
>
    decreases bs.len(),
{
    if bs.len() == 0 {
        m
    } else {
        merge_step(source, merge_bindings(source, m, bs.drop_last()), bs.last())
    }
}

/// No two entries share a web URL (for Wikidata works: no work is listed twice).
pub open spec fn distinct_urls(m: Seq<EntryView>) -> bool {
    forall|i: int, j: int| 0 <= i < j < m.len() ==> m[i].web_url != m[j].web_url
}

pub proof fn lemma_url_index(m: Seq<EntryView>, key: Seq<char>, k: int)
    requires
        is_url_index(m, key, k),
    ensures
        url_index(m, key) == k,
{
    let c = url_index(m, key);
    assert(is_url_index(m, key, c));
    if c >= 0 && k >= 0 {
        if c < k {
            assert(m[c].web_url != key);
        } else if k < c {
            assert(m[k].web_url != key);
        }
    } else if c >= 0 {
        assert(m[c].web_url != key);
    } else if k >= 0 {
        assert(m[k].web_url != key);
    }
}

fn find_url(m: &Vec<CatalogEntry>, key: &str) -> (r: Option<usize>)
    ensures
        match r {
            Some(k) => url_index(entry_views(m@), key@) == k as int && k < m.len(),
            None => url_index(entry_views(m@), key@) == -1,
        },
{
    let ghost views = entry_views(m@);
    let mut i: usize = 0;
    while i < m.len()
        invariant
            i <= m.len(),
            views == entry_views(m@),
            forall|j: int| 0 <= j < i ==> #[trigger] views[j].web_url != key@,
        decreases m.len() - i,
    {
        if crate::text::same_text(m[i].web_url.as_str(), key) {
            proof {
                lemma_url_index(views, key@, i as int);
            }
            return Some(i);
        }
        i += 1;
    }
    proof {
        lemma_url_index(views, key@, -1);
    }
    None
}

/// Merges Wikidata rows into the works gathered so far for one museum, keeping
/// each work once (keyed by its entity URL) in the order of first appearance.
pub fn merge_wikidata_bindings(
    source: &str,
    bindings: Vec<WikidataBinding>,
    merged: &mut Vec<CatalogEntry>,
)
    ensures
        entry_views(final(merged)@) == merge_bindings(source@, entry_views(old(merged)@), bindings@),
{
    let ghost start = entry_views(merged@);
    let mut i: usize = 0;
    while i < bindings.len()
        invariant
            i <= bindings.len(),
            entry_views(merged@) == merge_bindings(source@, start, bindings@.take(i as int)),
        decreases bindings.len() - i,
    {
        let b = &bindings[i];
        proof {
            assert(bindings@.take(i + 1).drop_last() =~= bindings@.take(i as int));
            assert(bindings@.take(i + 1).last() == bindings@[i as int]);
        }
        let ghost before = entry_views(merged@);
        match find_url(merged, b.work.as_str()) {
            Some(k) => {
                let mut e = merged[k].copy();
                append_medium_label(&mut e, b.medium_label.clone());
                merged.set(k, e);
                proof {
                    assert(entry_views(merged@) =~= merge_step(source@, before, *b));
                }
            },
            None => {
                match wikidata_to_entry(source, b) {
                    Some(e) => {
                        merged.push(e);
                        proof {
                            assert(entry_views(merged@) =~= merge_step(source@, before, *b));
                        }
                    },
                    None => {},
                }
            },
        }
        i += 1;
    }
    assert(bindings@.take(bindings.len() as int) =~= bindings@);
}

/// Merging Wikidata rows never lists a work twice.
pub proof fn lemma_merge_keeps_works_distinct(
    source: Seq<char>,
    m: Seq<EntryView>,
    bs: Seq<WikidataBinding>,
)
    requires
        distinct_urls(m),
    ensures
        distinct_urls(merge_bindings(source, m, bs)),
    decreases bs.len(),
{
    if bs.len() > 0 {
        lemma_merge_keeps_works_distinct(source, m, bs.drop_last());
        let prev = merge_bindings(source, m, bs.drop_last());
        let b = bs.last();
        let k = url_index(prev, b.work@);
        assert(is_url_index(prev, b.work@, k)) by {
            lemma_first_url_exists(prev, b.work@);
        }
        let next = merge_bindings(source, m, bs);
        assert forall|i: int, j: int| 0 <= i < j < next.len() implies next[i].web_url
            != next[j].web_url by {
            if k < 0 {
                if j == prev.len() {
                    assert(prev[i].web_url != b.work@);
                }
            }
        }
    }
}

proof fn lemma_first_url_exists(m: Seq<EntryView>, key: Seq<char>)
    ensures
        exists|k: int| is_url_index(m, key, k),
    decreases m.len(),
{
    if m.len() > 0 {
        let init = m.drop_last();
        lemma_first_url_exists(init, key);
        let k = choose|k: int| is_url_index(init, key, k);
        assert forall|j: int| 0 <= j < init.len() implies #[trigger] m[j] == init[j] by {}
        if k >= 0 {
            assert(is_url_index(m, key, k));
        } else if m.last().web_url == key {
            assert(is_url_index(m, key, m.len() - 1));
        } else {
            assert(is_url_index(m, key, -1));
        }
    } else {
        assert(is_url_index(m, key, -1));
    }
}

// ── Wikimedia Commons category ──────────────────────────────────────────────

#[derive(Clone, Debug)]
pub struct CommonsImageInfo {
    pub url: Option<String>,
    pub thumburl: Option<String>,
    pub descriptionurl: Option<String>,
}

/// A Commons file page as the `imageinfo` query returns it.
#[derive(Clone, Debug)]
pub struct CommonsImagePage {
    pub title: String,
    pub imageinfo: Option<Vec<CommonsImageInfo>>,
}

/// A Commons file enters the catalog when its first image info carries a URL.
pub open spec fn commons_entry(source: Seq<char>, pageid: u64, page: CommonsImagePage) -> Option<
    EntryView,
> {
    match page.imageinfo {
        None => None,
        Some(infos) => if infos@.len() == 0 {
            None
        } else {
            let image = infos@[0];
            match image.url {
                None => None,
                Some(full) => Some(
                    EntryView {
                        source,
                        id: decimal(pageid as nat),
                        title: commons_file_title(page.title@),
                        artist: Seq::empty(),
                        date: Seq::empty(),
                        medium: Seq::empty(),
                        thumb_url: match image.thumburl {
                            Some(t) => t@,
                            None => full@,
                        },
                        full_image_url: full@,
                        web_url: match image.descriptionurl {
                            Some(d) => d@,
                            None => COMMONS_WIKI_PAGE@ + page.title@,
                        },
                    },
                ),
            }
        },
    }
}

pub fn commons_image_to_entry(source: &str, pageid: u64, page: &CommonsImagePage) -> (r: Option<
    CatalogEntry,
>)
    ensures
        match r {
            Some(e) => commons_entry(source@, pageid, *page) == Some(e@),
            None => commons_entry(source@, pageid, *page) is None,
        },
{
    let infos = match &page.imageinfo {
        Some(v) => v,
        None => return None,
    };
    if infos.len() == 0 {
        return None;
    }
    let image = &infos[0];
    let full_image_url = match &image.url {
        Some(u) => u.clone(),
        None => return None,
    };
    let thumb_url = match &image.thumburl {
        Some(t) => t.clone(),
        None => full_image_url.clone(),
    };
    let web_url = match &image.descriptionurl {
        Some(d) => d.clone(),
        None => cat(COMMONS_WIKI_PAGE, page.title.as_str()),
    };
    Some(
        CatalogEntry {
            source: String::from_str(source),
            id: decimal_string(pageid),
            title: title_from_commons_file_title(page.title.as_str()),
            artist: String::new(),
            date: String::new(),
            medium: String::new(),
            thumb_url,
            full_image_url,
            web_url,
        },
    )
}

/// Page ids joined by `|`, as the `pageids` parameter of the Commons API takes them.
pub open spec fn joined_ids(ids: Seq<u64>) -> Seq<char>
    decreases ids.len(),
{
    if ids.len() == 0 {
        Seq::empty()
    } else if ids.len() == 1 {
        decimal(ids[0] as nat)
    } else {
        joined_ids(ids.drop_last()) + "|"@ + decimal(ids.last() as nat)
    }
}

pub fn join_page_ids(ids: &Vec<u64>) -> (r: String)
    ensures
        r@ == joined_ids(ids@),
{
    let mut out: Vec<char> = Vec::new();
    let mut i: usize = 0;
    while i < ids.len()
        invariant
            i <= ids.len(),
            out@ == joined_ids(ids@.take(i as int)),
        decreases ids.len() - i,
    {
        proof {
            assert(ids@.take(i + 1).drop_last() =~= ids@.take(i as int));
        }
        if i > 0 {
            out = crate::text::concat(&out, &chars_of("|"));
        }
        out = crate::text::concat(&out, &decimal_chars(ids[i]));
        i += 1;
    }
    assert(ids@.take(ids.len() as int) =~= ids@);
    string_of(&out)
}

/// The ids cut into consecutive batches of at most `size` (`slice::chunks`).
pub open spec fn batches(ids: Seq<u64>, size: nat) -> Seq<Seq<u64>>
    decreases ids.len(),
{
    if ids.len() == 0 || size == 0 {
        Seq::empty()
    } else if ids.len() <= size {
        seq![ids]
    } else {
        seq![ids.take(size as int)] + batches(ids.skip(size as int), size)
    }
}

/// Page ids in batches of 50, the most the Commons API takes in one query.
pub fn page_id_batches(ids: &Vec<u64>) -> (r: Vec<Vec<u64>>)
    ensures
        r@.map_values(|v: Vec<u64>| v@) == batches(ids@, 50),
{
    let mut out: Vec<Vec<u64>> = Vec::new();
    let mut start: usize = 0;
    let n = ids.len();
    assert(ids@.skip(0) =~= ids@);
    assert(out@.map_values(|v: Vec<u64>| v@) + batches(ids@, 50) =~= batches(ids@, 50));
    while start < n
        invariant
            start <= n == ids.len(),
            out@.map_values(|v: Vec<u64>| v@) + batches(ids@.skip(start as int), 50) == batches(
                ids@,
                50,
            ),
        decreases n - start,
    {
        let end = if n - start <= 50 {
            n
        } else {
            start + 50
        };
        let mut chunk: Vec<u64> = Vec::new();
        let mut k = start;
        while k < end
            invariant
                start <= k <= end <= n == ids.len(),
                chunk@ == ids@.subrange(start as int, k as int),
            decreases end - k,
        {
            chunk.push(ids[k]);
            k += 1;
            assert(chunk@ =~= ids@.subrange(start as int, k as int));
        }
        let ghost rest = ids@.skip(start as int);
        proof {
            if n - start <= 50 {
                assert(chunk@ =~= rest);
                assert(ids@.skip(end as int) =~= Seq::<u64>::empty());
            } else {
                assert(chunk@ =~= rest.take(50));
                assert(rest.skip(50) =~= ids@.skip(end as int));
            }
        }
        let ghost before = out@.map_values(|v: Vec<u64>| v@);
        out.push(chunk);
        assert(out@.map_values(|v: Vec<u64>| v@) =~= before.push(
            ids@.subrange(start as int, end as int),
        ));
        start = end;
    }
    assert(ids@.skip(n as int) =~= Seq::<u64>::empty());
    assert(out@.map_values(|v: Vec<u64>| v@) =~= out@.map_values(|v: Vec<u64>| v@) + Seq::<
        Seq<u64>,
    >::empty());
    out
}

/// `k` is the first page whose key is `key`, or `-1`.
pub open spec fn is_page_index(pages: Seq<(String, CommonsImagePage)>, key: Seq<char>, k: int) -> bool {
    &&& -1 <= k < pages.len()
    &&& k >= 0 ==> pages[k].0@ == key
    &&& forall|j: int| 0 <= j < pages.len() && (k == -1 || j < k) ==> #[trigger] pages[j].0@ != key
}

pub open spec fn page_index(pages: Seq<(String, CommonsImagePage)>, key: Seq<char>) -> int {
    choose|k: int| is_page_index(pages, key, k)
}

/// The entries of one batch: each page id, in order, whose page the answer holds and
/// whose page makes an entry.
pub open spec fn batch_entries(source: Seq<char>, ids: Seq<u64>, pages: Seq<(String, CommonsImagePage)>) -> Seq<
    EntryView,
>
    decreases ids.len(),
{
    if ids.len() == 0 {
        Seq::empty()
    } else {
        let prev = batch_entries(source, ids.drop_last(), pages);
        let id = ids.last();
        let k = page_index(pages, decimal(id as nat));
        if k >= 0 {
            match commons_entry(source, id, pages[k].1) {
                Some(e) => prev.push(e),
                None => prev,
            }
        } else {
            prev
        }
    }
}

proof fn lemma_page_index(pages: Seq<(String, CommonsImagePage)>, key: Seq<char>, k: int)
    requires
        is_page_index(pages, key, k),
    ensures
        page_index(pages, key) == k,
{
    let c = page_index(pages, key);
    assert(is_page_index(pages, key, c));
    if c >= 0 && k >= 0 {
        if c < k {
            assert(pages[c].0@ != key);
        } else if k < c {
            assert(pages[k].0@ != key);
        }
    } else if c >= 0 {
        assert(pages[c].0@ != key);
    } else if k >= 0 {
        assert(pages[k].0@ != key);
    }
}

fn find_page(pages: &Vec<(String, CommonsImagePage)>, key: &str) -> (r: Option<usize>)
    ensures
        match r {
            Some(k) => page_index(pages@, key@) == k as int && k < pages.len(),
            None => page_index(pages@, key@) == -1,
        },
{
    let mut i: usize = 0;
    while i < pages.len()
        invariant
            i <= pages.len(),
            forall|j: int| 0 <= j < i ==> #[trigger] pages@[j].0@ != key@,
        decreases pages.len() - i,
    {
        if crate::text::same_text(pages[i].0.as_str(), key) {
            proof {
                lemma_page_index(pages@, key@, i as int);
            }
            return Some(i);
        }
        i += 1;
    }
    proof {
        lemma_page_index(pages@, key@, -1);
    }
    None
}

/// Entries for one batch of page ids from the pages that the image-info answer holds,
/// keyed by page id. The answer is a JSON object, so each key occurs once in `pages`
/// and the first page found under a key is the page of that id.
pub fn commons_batch_entries(
    source: &str,
    ids: &Vec<u64>,
    pages: &Vec<(String, CommonsImagePage)>,
) -> (r: Vec<CatalogEntry>)
    ensures
        entry_views(r@) == batch_entries(source@, ids@, pages@),
{
    let mut out: Vec<CatalogEntry> = Vec::new();
    let mut i: usize = 0;
    while i < ids.len()
        invariant
            i <= ids.len(),
            entry_views(out@) == batch_entries(source@, ids@.take(i as int), pages@),
        decreases ids.len() - i,
    {
        proof {
            assert(ids@.take(i + 1).drop_last() =~= ids@.take(i as int));
        }
        let ghost before = entry_views(out@);
        let key = decimal_string(ids[i]);
        match find_page(pages, key.as_str()) {
            Some(k) => {
                match commons_image_to_entry(source, ids[i], &pages[k].1) {
                    Some(e) => {
                        out.push(e);
                        assert(entry_views(out@) =~= before.push(e@));
                    },
                    None => {},
                }
            },
            None => {},
        }
        i += 1;
    }
    assert(ids@.take(ids.len() as int) =~= ids@);
    out
}

// ── Gathering pages of results ──────────────────────────────────────────────

/// An AIC record is kept when it has a title, an image and a painting or drawing kind.
pub open spec fn aic_accepts(obj: AicObject) -> bool {
    obj.title@.len() != 0 && obj.image_id@.len() != 0 && aic_is_painting_or_drawing(
        obj.classification_title@,
    )
}

/// Ids seen and entries gathered after a list of AIC records: a kept record whose id
/// was not seen before adds its id and its entry; any other record changes nothing.
pub open spec fn aic_collect(seen: Set<u32>, entries: Seq<EntryView>, objs: Seq<AicObject>) -> (
    Set<u32>,
    Seq<EntryView>,
)
    decreases objs.len(),
{
    if objs.len() == 0 {
        (seen, entries)
    } else {
        let prev = aic_collect(seen, entries, objs.drop_last());
        let o = objs.last();
        if aic_accepts(o) && !prev.0.contains(o.id) {
            (prev.0.insert(o.id), prev.1.push(aic_entry(o)))
        } else {
            prev
        }
    }
}

/// Gathers one page of AIC search results into the catalog of the museum.
pub fn aic_add_page(seen: &mut HashSet<u32>, entries: &mut Vec<CatalogEntry>, objects: &Vec<AicObject>)
    ensures
        (final(seen)@, entry_views(final(entries)@)) == aic_collect(
            old(seen)@,
            entry_views(old(entries)@),
            objects@,
        ),
{
    broadcast use vstd::std_specs::hash::group_hash_axioms;

    let ghost s0 = seen@;
    let ghost e0 = entry_views(entries@);
    let mut i: usize = 0;
    while i < objects.len()
        invariant
            i <= objects.len(),
            (seen@, entry_views(entries@)) == aic_collect(s0, e0, objects@.take(i as int)),
        decreases objects.len() - i,
    {
        proof {
            assert(objects@.take(i + 1).drop_last() =~= objects@.take(i as int));
        }
        let obj = &objects[i];
        if !obj.title.as_str().is_empty() && !obj.image_id.as_str().is_empty()
            && is_painting_or_drawing(obj) && seen.insert(obj.id) {
            let ghost before = entry_views(entries@);
            entries.push(aic_to_entry(obj));
            assert(entry_views(entries@) =~= before.push(aic_entry(*obj)));
        }
        i += 1;
    }
    assert(objects@.take(objects.len() as int) =~= objects@);
}

/// `id` is the decimal text of a number in `s` that is not in `seen`.
pub open spec fn new_id_text(s: Set<u32>, seen: Set<u32>, id: Seq<char>) -> bool {
    exists|x: u32| #![trigger s.contains(x)] s.contains(x) && !seen.contains(x) && id == decimal(x as nat)
}

/// Gathering AIC pages records each kept artwork's id exactly once: every entry
/// added brings one id that was not seen before, and the entries added have pairwise
/// different ids, so no artwork is listed twice.
pub proof fn lemma_aic_ids_distinct(seen: Set<u32>, entries: Seq<EntryView>, objs: Seq<AicObject>)
    requires
        seen.finite(),
    ensures
        ({
            let (s, e) = aic_collect(seen, entries, objs);
            &&& s.finite()
            &&& seen.subset_of(s)
            &&& s.len() - seen.len() == e.len() - entries.len()
            &&& e.len() >= entries.len()
            &&& e.subrange(0, entries.len() as int) == entries
            &&& forall|k: int|
                #![trigger e[k]]
                entries.len() <= k < e.len() ==> new_id_text(s, seen, e[k].id)
            &&& forall|i: int, j: int| entries.len() <= i < j < e.len() ==> e[i].id != e[j].id
        }),
    decreases objs.len(),
{
    if objs.len() > 0 {
        lemma_aic_ids_distinct(seen, entries, objs.drop_last());
        let (ps, pe) = aic_collect(seen, entries, objs.drop_last());
        let o = objs.last();
        if aic_accepts(o) && !ps.contains(o.id) {
            let (s, e) = aic_collect(seen, entries, objs);
            assert(e == pe.push(aic_entry(o)));
            assert(s == ps.insert(o.id));
            assert(e.subrange(0, entries.len() as int) =~= pe.subrange(0, entries.len() as int));
            assert forall|k: int| #![trigger e[k]] entries.len() <= k < e.len() implies new_id_text(
                s,
                seen,
                e[k].id,
            ) by {
                if k == e.len() - 1 {
                    assert(e[k] == aic_entry(o));
                    assert(s.contains(o.id) && !seen.contains(o.id));
                } else {
                    assert(e[k] == pe[k]);
                    let x = choose|x: u32| #![trigger ps.contains(x)]
                        ps.contains(x) && !seen.contains(x) && pe[k].id == decimal(x as nat);
                    assert(s.contains(x));
                }
            }
            assert forall|i: int, j: int| entries.len() <= i < j < e.len() implies e[i].id != e[j].id by {
                if j == e.len() - 1 {
                    assert(e[i] == pe[i]);
                    let x = choose|x: u32| #![trigger ps.contains(x)]
                        ps.contains(x) && !seen.contains(x) && pe[i].id == decimal(x as nat);
                    if e[i].id == e[j].id {
                        lemma_decimal_injective(x as nat, o.id as nat);
                    }
                } else {
                    assert(e[i] == pe[i] && e[j] == pe[j]);
                }
            }
        } else {
            assert(aic_collect(seen, entries, objs) == (ps, pe));
        }
    } else {
        assert(entries.subrange(0, entries.len() as int) =~= entries);
    }
}

/// Entries that a page of Cleveland records contributes, in order.
pub open spec fn cleveland_page(objs: Seq<ClevelandObject>) -> Seq<EntryView>
    decreases objs.len(),
{
    if objs.len() == 0 {
        Seq::empty()
    } else {
        let prev = cleveland_page(objs.drop_last());
        match cleveland_entry(objs.last()) {
            Some(e) => prev.push(e),
            None => prev,
        }
    }
}

/// Gathers one page of Cleveland search results; answers whether the page held any
/// record, an empty page ending the paging.
pub fn cleveland_add_page(entries: &mut Vec<CatalogEntry>, objects: Vec<ClevelandObject>) -> (more: bool)
    ensures
        more == (objects@.len() > 0),
        entry_views(final(entries)@) == entry_views(old(entries)@) + cleveland_page(objects@),
{
    let ghost e0 = entry_views(entries@);
    let n = objects.len();
    let mut i: usize = 0;
    while i < n
        invariant
            i <= n == objects.len(),
            entry_views(entries@) == e0 + cleveland_page(objects@.take(i as int)),
        decreases n - i,
    {
        proof {
            assert(objects@.take(i + 1).drop_last() =~= objects@.take(i as int));
        }
        let ghost before = entry_views(entries@);
        match cleveland_to_entry(&objects[i]) {
            Some(e) => {
                entries.push(e);
                assert(entry_views(entries@) =~= before.push(e@));
            },
            None => {},
        }
        i += 1;
    }
    assert(objects@.take(n as int) =~= objects@);
    n > 0
}

/// Object ids after adding a search answer's ids: at most the first 250 are taken,
/// each one only when not yet listed.
pub open spec fn add_ids(ids: Seq<u32>, found: Seq<u32>) -> Seq<u32>
    decreases found.len(),
{
    if found.len() == 0 {
        ids
    } else {
        let prev = add_ids(ids, found.drop_last());
        if prev.contains(found.last()) {
            prev
        } else {
            prev.push(found.last())
        }
    }
}

pub const MET_IDS_PER_QUERY: usize = 250;

/// The ids that one Met search contributes: at most its first 250.
pub open spec fn capped(found: Seq<u32>) -> Seq<u32> {
    if found.len() > MET_IDS_PER_QUERY {
        found.take(MET_IDS_PER_QUERY as int)
    } else {
        found
    }
}

/// The Met object ids to fetch, in the order the searches found them, with the set
/// of the ids already listed.
pub struct MetIds {
    seen: HashSet<u32>,
    ids: Vec<u32>,
}

impl View for MetIds {
    type V = Seq<u32>;

    closed spec fn view(&self) -> Seq<u32> {
        self.ids@
    }
}

impl MetIds {
    /// The set holds exactly the listed ids.
    pub closed spec fn wf(&self) -> bool {
        forall|x: u32| #[trigger] self.seen@.contains(x) <==> self.ids@.contains(x)
    }

    /// No ids yet.
    pub fn new() -> (r: MetIds)
        ensures
            r.wf(),
            r@ == Seq::<u32>::empty(),
    {
        MetIds { seen: HashSet::new(), ids: Vec::new() }
    }

    /// Adds the ids that one Met search returned (at most 250 of them), each one
    /// only when not yet listed.
    pub fn add(&mut self, found: &Vec<u32>)
        requires
            old(self).wf(),
        ensures
            final(self).wf(),
            final(self)@ == add_ids(old(self)@, capped(found@)),
    {
        broadcast use vstd::std_specs::hash::group_hash_axioms;

        let ghost i0 = self.ids@;
        let n = if found.len() > MET_IDS_PER_QUERY {
            MET_IDS_PER_QUERY
        } else {
            found.len()
        };
        let ghost taken = found@.take(n as int);
        let mut i: usize = 0;
        while i < n
            invariant
                i <= n <= found.len(),
                taken == found@.take(n as int),
                self.ids@ == add_ids(i0, taken.take(i as int)),
                forall|x: u32| #[trigger] self.seen@.contains(x) <==> self.ids@.contains(x),
            decreases n - i,
        {
            proof {
                assert(taken.take(i + 1).drop_last() =~= taken.take(i as int));
            }
            let id = found[i];
            let ghost s_old = self.seen@;
            let ghost v_old = self.ids@;
            if self.seen.insert(id) {
                self.ids.push(id);
                assert forall|x: u32| #[trigger] self.seen@.contains(x) <==> self.ids@.contains(x) by {
                    if x == id {
                        assert(self.ids@[self.ids@.len() - 1] == id);
                    } else if self.ids@.contains(x) {
                        let k = choose|k: int| 0 <= k < self.ids@.len() && self.ids@[k] == x;
                        assert(v_old[k] == x);
                    } else if v_old.contains(x) {
                        let k = choose|k: int| 0 <= k < v_old.len() && v_old[k] == x;
                        assert(self.ids@[k] == x);
                    }
                }
            }
            i += 1;
        }
        assert(taken.take(n as int) =~= taken);
        assert(found.len() <= MET_IDS_PER_QUERY ==> found@.take(n as int) =~= found@);
    }

    /// The ids to fetch, in order.
    pub fn ids(&self) -> (r: &Vec<u32>)
        ensures
            r@ == self@,
    {
        &self.ids
    }
}

/// Adding ids never lists one twice.
pub proof fn lemma_add_ids_distinct(ids: Seq<u32>, found: Seq<u32>)
    requires
        ids.no_duplicates(),
    ensures
        add_ids(ids, found).no_duplicates(),
        forall|x: u32| #[trigger] add_ids(ids, found).contains(x) <==> ids.contains(x) || found.contains(x),
    decreases found.len(),
{
    if found.len() > 0 {
        lemma_add_ids_distinct(ids, found.drop_last());
        let prev = add_ids(ids, found.drop_last());
        assert forall|x: u32| #[trigger] add_ids(ids, found).contains(x) <==> ids.contains(x) || found.contains(x) by {
            if found.contains(x) && !found.drop_last().contains(x) {
                let k = choose|k: int| 0 <= k < found.len() && found[k] == x;
                if k < found.len() - 1 {
                    assert(found.drop_last()[k] == x);
                }
            }
            if found.drop_last().contains(x) {
                let k = choose|k: int| 0 <= k < found.drop_last().len() && found.drop_last()[k] == x;
                assert(found[k] == x);
            }
            if add_ids(ids, found).contains(x) && !prev.contains(x) {
                let k = choose|k: int| 0 <= k < add_ids(ids, found).len() && add_ids(ids, found)[k] == x;
                assert(k == prev.len());
                assert(found[found.len() - 1] == x);
            }
            if prev.contains(x) {
                let k = choose|k: int| 0 <= k < prev.len() && prev[k] == x;
                if !prev.contains(found.last()) {
                    assert(add_ids(ids, found)[k] == x);
                }
            }
            if x == found.last() {
                if !prev.contains(x) {
                    assert(add_ids(ids, found)[prev.len() as int] == x);
                }
            }
        }
    }
}

// ── Requests and the cache ──────────────────────────────────────────────────

pub const AIC_API: &'static str = "https://api.artic.edu/api/v1";

pub const CLEVELAND_API: &'static str = "https://openaccess-api.clevelandart.org/api/artworks/";

pub const MET_API: &'static str = "https://collectionapi.metmuseum.org/public/collection/v1";

pub const AIC_FIELDS: &'static str = "id,title,artist_title,date_display,medium_display,classification_title,image_id,is_public_domain";

pub const CLEVELAND_FIELDS: &'static str = "id,title,creation_date,creators,type,technique,images";

/// Results per page asked of the AIC and Cleveland APIs.
pub const PAGE_LIMIT: u32 = 100;

/// AIC pages of highlighted works read before the public-domain pages.
pub const AIC_HIGHLIGHT_PAGES: u32 = 5;

/// AIC pages of public-domain works read.
pub const AIC_PAGES: u32 = 10;

/// Cleveland pages read per type of work, at most.
pub const CLEVELAND_PAGES: u32 = 10;

/// How long a cached catalog stays fresh: one week.
pub const CATALOG_TTL_SECS: u64 = 7 * 24 * 3600;

/// The AIC search URL for one page of boosted (highlighted) or public-domain works.
pub open spec fn aic_search(boosted: bool, page: u32) -> Seq<char> {
    AIC_API@ + "/artworks/search?q=*&query%5Bterm%5D%5B"@ + (if boosted {
        "is_boosted"@
    } else {
        "is_public_domain"@
    }) + "%5D=true&limit=100&page="@ + decimal(page as nat) + "&fields="@ + AIC_FIELDS@
}

pub fn aic_search_url(boosted: bool, page: u32) -> (r: String)
    ensures
        r@ == aic_search(boosted, page),
{
    let a = cat(AIC_API, "/artworks/search?q=*&query%5Bterm%5D%5B");
    let b = cat(a.as_str(), if boosted { "is_boosted" } else { "is_public_domain" });
    let c = cat(b.as_str(), "%5D=true&limit=100&page=");
    let d = cat(c.as_str(), decimal_string(page as u64).as_str());
    let e = cat(d.as_str(), "&fields=");
    cat(e.as_str(), AIC_FIELDS)
}

/// The Cleveland search URL for one page (counted from 0) of works of a type.
pub open spec fn cleveland_search(art_type: Seq<char>, page: u32) -> Seq<char> {
    CLEVELAND_API@ + "?has_image=1&type="@ + art_type + "&limit=100&skip="@ + decimal(
        (page * 100) as nat,
    ) + "&fields="@ + CLEVELAND_FIELDS@
}

pub fn cleveland_search_url(art_type: &str, page: u32) -> (r: String)
    requires
        page * 100 <= u32::MAX,
    ensures
        r@ == cleveland_search(art_type@, page),
{
    let a = cat(CLEVELAND_API, "?has_image=1&type=");
    let b = cat(a.as_str(), art_type);
    let c = cat(b.as_str(), "&limit=100&skip=");
    let d = cat(c.as_str(), decimal_string((page * PAGE_LIMIT) as u64).as_str());
    let e = cat(d.as_str(), "&fields=");
    cat(e.as_str(), CLEVELAND_FIELDS)
}

pub fn met_search_url() -> (r: String)
    ensures
        r@ == MET_API@ + "/search"@,
{
    cat(MET_API, "/search")
}

pub fn met_object_url(id: u32) -> (r: String)
    ensures
        r@ == MET_API@ + "/objects/"@ + decimal(id as nat),
{
    let a = cat(MET_API, "/objects/");
    cat(a.as_str(), decimal_string(id as u64).as_str())
}

/// The SPARQL query for works held or located at a museum (`qid`), optionally only
/// those in oil paint, with label, image, creator, date and material.
pub open spec fn wikidata_query(qid: Seq<char>, oil_only: bool) -> Seq<char> {
    "SELECT DISTINCT ?work ?workLabel ?image ?creatorLabel ?date ?mediumLabel WHERE {\n  { ?work wdt:P195 wd:"@
        + qid + ". } UNION { ?work wdt:P276 wd:"@ + qid + ". }\n  ?work wdt:P18 ?image.\n"@
        + (if oil_only {
        "  ?work wdt:P186 wd:Q296955.\n"@
    } else {
        Seq::empty()
    })
        + "  OPTIONAL { ?work wdt:P170 ?creator. }\n  OPTIONAL { ?work wdt:P571 ?date. }\n  OPTIONAL { ?work wdt:P186 ?medium. }\n  SERVICE wikibase:label { bd:serviceParam wikibase:language \"en,zh\". }\n} LIMIT 250"@
}

pub fn wikidata_query_text(qid: &str, oil_only: bool) -> (r: String)
    ensures
        r@ == wikidata_query(qid@, oil_only),
{
    let a = cat(
        "SELECT DISTINCT ?work ?workLabel ?image ?creatorLabel ?date ?mediumLabel WHERE {\n  { ?work wdt:P195 wd:",
        qid,
    );
    let b = cat(a.as_str(), ". } UNION { ?work wdt:P276 wd:");
    let c = cat(b.as_str(), qid);
    let d = cat(c.as_str(), ". }\n  ?work wdt:P18 ?image.\n");
    let e = if oil_only {
        cat(d.as_str(), "  ?work wdt:P186 wd:Q296955.\n")
    } else {
        assert(d@ + Seq::<char>::empty() =~= d@);
        d
    };
    cat(
        e.as_str(),
        "  OPTIONAL { ?work wdt:P170 ?creator. }\n  OPTIONAL { ?work wdt:P571 ?date. }\n  OPTIONAL { ?work wdt:P186 ?medium. }\n  SERVICE wikibase:label { bd:serviceParam wikibase:language \"en,zh\". }\n} LIMIT 250",
    )
}

/// A museum whose works come from Wikidata.
pub struct WikidataMuseum {
    pub source: &'static str,
    pub label: &'static str,
    pub qid: &'static str,
}

/// The museums read from Wikidata, in the order they are fetched.
pub fn wikidata_museums() -> (r: Vec<WikidataMuseum>)
    ensures
        r@.len() == 4,
        r@[0].source@ == "nga"@ && r@[0].label@ == "National Gallery"@ && r@[0].qid@ == "Q214867"@,
        r@[1].source@ == "saam"@ && r@[1].label@ == "Smithsonian"@ && r@[1].qid@ == "Q1192305"@,
        r@[2].source@ == "palace"@ && r@[2].label@ == "Palace Museum"@ && r@[2].qid@ == "Q2047427"@,
        r@[3].source@ == "shanghai"@ && r@[3].label@ == "Shanghai Museum"@ && r@[3].qid@ == "Q1051293"@,
{
    let mut v: Vec<WikidataMuseum> = Vec::new();
    v.push(WikidataMuseum { source: "nga", label: "National Gallery", qid: "Q214867" });
    v.push(WikidataMuseum { source: "saam", label: "Smithsonian", qid: "Q1192305" });
    v.push(WikidataMuseum { source: "palace", label: "Palace Museum", qid: "Q2047427" });
    v.push(WikidataMuseum { source: "shanghai", label: "Shanghai Museum", qid: "Q1051293" });
    v
}

/// A saved catalog of one source with the time (seconds since the epoch) it was fetched.
pub struct CatalogCache {
    pub fetched_at: u64,
    pub entries: Vec<CatalogEntry>,
}

/// The cached entries while the cache is younger than a week at time `now`, else
/// nothing; a cache stamped later than `now` counts as stale.
pub fn fresh_entries(now: u64, cache: CatalogCache) -> (r: Option<Vec<CatalogEntry>>)
    ensures
        match r {
            Some(v) => cache.fetched_at <= now && now - cache.fetched_at < CATALOG_TTL_SECS
                && v@ == cache.entries@,
            None => cache.fetched_at > now || now - cache.fetched_at >= CATALOG_TTL_SECS,
        },
{
    if cache.fetched_at <= now && now - cache.fetched_at < CATALOG_TTL_SECS {
        Some(cache.entries)
    } else {
        None
    }
}

/// `SystemTime::now().duration_since(UNIX_EPOCH)` in whole seconds, `None` for a
/// clock set before 1970. It reads the clock, so nothing is stated of it.
#[verifier::external_body]
fn now_secs() -> Option<u64> {
    match std::time::SystemTime::now().duration_since(std::time::SystemTime::UNIX_EPOCH) {
        Ok(d) => Some(d.as_secs()),
        Err(_) => None,
    }
}

/// The cached entries if the cache is younger than a week by the clock now. A cache
/// stamped later than now counts as stale, and so does any cache while the clock
/// reads before 1970.
pub fn load_cache(cache: CatalogCache) -> (r: Option<Vec<CatalogEntry>>)
    ensures
        r matches Some(v) ==> v@ == cache.entries@,
{
    match now_secs() {
        Some(now) => fresh_entries(now, cache),
        None => None,
    }
}

/// A cache of `entries` stamped with the clock now (0 while the clock reads before
/// 1970).
pub fn cache_now(entries: Vec<CatalogEntry>) -> (r: CatalogCache)
    ensures
        r.entries@ == entries@,
{
    let fetched_at = match now_secs() {
        Some(now) => now,
        None => 0,
    };
    CatalogCache { fetched_at, entries }
}

// ── Laws of the catalog filters ─────────────────────────────────────────────

/// Which Met records enter the catalog: one with a title and a small image enters
/// exactly when its object name, classification and medium, joined by spaces and
/// lowercased, contain "painting", "drawing", "watercolor", "pastel", "chalk" or
/// "ink"; it then enters under source `met`, its object id and its title.
pub proof fn lemma_met_kinds_kept(obj: MetObject)
    requires
        obj.title@.len() > 0,
        obj.primary_image_small@.len() > 0,
    ensures
        ({
            let h = spec_lowercase(obj.object_name@ + " "@ + obj.classification@ + " "@ + obj.medium@);
            met_entry(obj) is Some <==> {
                ||| has_substring(h, "painting"@)
                ||| has_substring(h, "drawing"@)
                ||| has_substring(h, "watercolor"@)
                ||| has_substring(h, "pastel"@)
                ||| has_substring(h, "chalk"@)
                ||| has_substring(h, "ink"@)
            }
        }),
        met_entry(obj) matches Some(e) ==> e.source == "met"@ && e.id == decimal(obj.object_id as nat)
            && e.title == obj.title@ && e.thumb_url == obj.primary_image_small@,
{
}

/// Which AIC records enter the catalog: a record adds its entry exactly when it has a
/// title and an image, its lowercased classification contains "painting", "oil on",
/// "drawing", "watercolor", "crayon", "chalk" or "pastel", and its id was not seen
/// yet; the id is then recorded as seen. Any other record changes nothing.
pub proof fn lemma_aic_kinds_kept(seen: Set<u32>, entries: Seq<EntryView>, obj: AicObject)
    ensures
        ({
            let c = spec_lowercase(obj.classification_title@);
            let kind = {
                ||| has_substring(c, "painting"@)
                ||| has_substring(c, "oil on"@)
                ||| has_substring(c, "drawing"@)
                ||| has_substring(c, "watercolor"@)
                ||| has_substring(c, "crayon"@)
                ||| has_substring(c, "chalk"@)
                ||| has_substring(c, "pastel"@)
            };
            aic_collect(seen, entries, seq![obj]) == if obj.title@.len() > 0 && obj.image_id@.len() > 0
                && kind && !seen.contains(obj.id) {
                (seen.insert(obj.id), entries.push(aic_entry(obj)))
            } else {
                (seen, entries)
            }
        }),
{
    assert(seq![obj].drop_last() =~= Seq::<AicObject>::empty());
    assert(aic_collect(seen, entries, Seq::<AicObject>::empty()) == (seen, entries));
    assert(seq![obj].last() == obj);
}

} // verus!

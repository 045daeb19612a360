//! Google Arts & Culture pages: title, artist and image URLs from an asset page.

use vstd::prelude::*;
use crate::esrgan::views;
use crate::gallery::opt_view;
use crate::text::{
    chars_of, find_last, matches_at, occurs_at, first_where, is_first_where, last_occ, lemma_first_where, slice,
    string_of, take_before_last_or_all, trim, trim_chars, before_last_or_all,
};

verus! {

/// What scraper finds in an HTML page: the `attr` attribute of the first element that
/// matches the CSS selector `css` (`None` when nothing matches, the element lacks the
/// attribute, or the selector does not parse).
pub uninterp spec fn spec_first_attr(html: Seq<char>, css: Seq<char>, attr: Seq<char>) -> Option<
    Seq<char>,
>;

/// What scraper finds in an HTML page: the text of the first element that matches the
/// CSS selector `css` (`None` when nothing matches or the selector does not parse).
pub uninterp spec fn spec_first_text(html: Seq<char>, css: Seq<char>) -> Option<Seq<char>>;

/// `scraper::Html::parse_document`, `scraper::Selector::parse`, `Html::select` and
/// `Element::attr`: the attribute of the first match, as the name above says. The
/// result is claimed to depend on the three texts alone.
#[verifier::external_body]
fn first_attr(html: &str, css: &str, attr: &str) -> (r: Option<String>)
    ensures
        opt_view(r) == spec_first_attr(html@, css@, attr@),
{
    let doc = scraper::Html::parse_document(html);
    let sel = match scraper::Selector::parse(css) {
        Ok(sel) => sel,
        Err(_) => return None,
    };
    match doc.select(&sel).next() {
        Some(el) => el.value().attr(attr).map(String::from),
        None => None,
    }
}

/// `scraper::Html::parse_document`, `scraper::Selector::parse`, `Html::select` and
/// `ElementRef::text`: the text of the first match, as the name above says. The
/// result is claimed to depend on the two texts alone.
#[verifier::external_body]
fn first_text(html: &str, css: &str) -> (r: Option<String>)
    ensures
        opt_view(r) == spec_first_text(html@, css@),
{
    let doc = scraper::Html::parse_document(html);
    let sel = match scraper::Selector::parse(css) {
        Ok(sel) => sel,
        Err(_) => return None,
    };
    match doc.select(&sel).next() {
        Some(el) => Some(el.text().collect::<String>()),
        None => None,
    }
}

/// An image URL without its size parameter: everything before the last `=`.
pub fn strip_gac_size_param(url: &str) -> (r: String)
    ensures
        r@ == before_last_or_all(url@, '='),
{
    string_of(&take_before_last_or_all(&chars_of(url), '='))
}

/// `og:title` reads `Title - Artist`; split at the last ` - `, each half trimmed.
/// Without a separator the whole is the title and the artist is empty.
pub open spec fn og_title_parts(content: Seq<char>) -> (Seq<char>, Seq<char>) {
    let k = last_occ(content, " - "@);
    if k == -1 {
        (trim(content), Seq::empty())
    } else {
        (trim(content.take(k)), trim(content.skip(k + 3)))
    }
}

/// The dashes and bar that end the title part of a page's `<title>`.
pub open spec fn title_sep() -> spec_fn(char) -> bool {
    |c: char| c == '\u{2013}' || c == '\u{2014}' || c == '|'
}

/// A page's `<title>` up to its first dash or bar, trimmed.
pub open spec fn title_head(text: Seq<char>) -> Seq<char> {
    trim(text.take(first_where(text, title_sep())))
}

/// Title, artist, thumbnail URL and full-image base URL of a page, from its
/// `og:title` and `og:image` contents and the text of its `<title>`; the `<title>`
/// only serves when `og:title` gives no title.
pub open spec fn gac_fields_spec(
    og_title: Option<Seq<char>>,
    og_image: Option<Seq<char>>,
    title_text: Option<Seq<char>>,
) -> (Seq<char>, Seq<char>, Seq<char>, Seq<char>) {
    let (title0, artist) = match og_title {
        Some(c) => og_title_parts(c),
        None => (Seq::empty(), Seq::empty()),
    };
    let title = if title0.len() == 0 {
        match title_text {
            Some(t) => title_head(t),
            None => title0,
        }
    } else {
        title0
    };
    let (thumb, base) = match og_image {
        Some(c) => (c, before_last_or_all(c, '=')),
        None => (Seq::empty(), Seq::empty()),
    };
    (title, artist, thumb, base)
}

/// Splits an `og:title` content.
pub fn split_og_title(content: &str) -> (r: (String, String))
    ensures
        (r.0@, r.1@) == og_title_parts(content@),
{
    let v = chars_of(content);
    let sep = chars_of(" - ");
    proof {
        reveal_strlit(" - ");
    }
    match find_last(&v, &sep) {
        Some(k) => {
            assert(sep@.len() == 3);
            assert(occurs_at(v@, sep@, k as int));
            assert(k + 3 <= v.len());
            let head = slice(&v, 0, k);
            let tail = slice(&v, k + 3, v.len());
            assert(head@ =~= v@.take(k as int));
            assert(tail@ =~= v@.skip(k + 3));
            (string_of(&trim_chars(&head)), string_of(&trim_chars(&tail)))
        },
        None => (string_of(&trim_chars(&v)), String::new()),
    }
}

/// A `<title>` text up to its first dash or bar, trimmed.
pub fn title_before_separator(text: &str) -> (r: String)
    ensures
        r@ == title_head(text@),
{
    let v = chars_of(text);
    let mut i: usize = 0;
    while i < v.len() && !(v[i] == '\u{2013}' || v[i] == '\u{2014}' || v[i] == '|')
        invariant
            i <= v.len(),
            forall|j: int| 0 <= j < i ==> !(#[trigger] title_sep()(v@[j])),
        decreases v.len() - i,
    {
        i += 1;
    }
    proof {
        assert(is_first_where(v@, title_sep(), i as int));
        lemma_first_where(v@, title_sep(), i as int);
    }
    let head = slice(&v, 0, i);
    assert(head@ =~= v@.take(i as int));
    string_of(&trim_chars(&head))
}

/// Title, artist, thumbnail URL and image base URL from what the page holds.
pub fn gac_fields(og_title: Option<String>, og_image: Option<String>, title_text: Option<String>) -> (r: (
    String,
    String,
    String,
    String,
))
    ensures
        (r.0@, r.1@, r.2@, r.3@) == gac_fields_spec(
            opt_view(og_title),
            opt_view(og_image),
            opt_view(title_text),
        ),
{
    let (mut title, artist) = match og_title {
        Some(c) => split_og_title(c.as_str()),
        None => (String::new(), String::new()),
    };
    if title.as_str().is_empty() {
        if let Some(t) = title_text {
            title = title_before_separator(t.as_str());
        }
    }
    let (thumb, base) = match og_image {
        Some(c) => {
            let base = strip_gac_size_param(c.as_str());
            (c, base)
        },
        None => (String::new(), String::new()),
    };
    (title, artist, thumb, base)
}

/// The `og:title` selector, the `og:image` selector and the attribute they carry.
pub const OG_TITLE: &'static str = "meta[property='og:title']";

pub const OG_IMAGE: &'static str = "meta[property='og:image']";

pub const CONTENT: &'static str = "content";

/// Title, artist, thumbnail URL and image base URL of an asset page's HTML.
pub fn gac_metadata_from_html(body: &str) -> (r: (String, String, String, String))
    ensures
        (r.0@, r.1@, r.2@, r.3@) == gac_fields_spec(
            spec_first_attr(body@, OG_TITLE@, CONTENT@),
            spec_first_attr(body@, OG_IMAGE@, CONTENT@),
            spec_first_text(body@, "title"@),
        ),
{
    let og_title = first_attr(body, OG_TITLE, CONTENT);
    let og_image = first_attr(body, OG_IMAGE, CONTENT);
    let needs_title = match &og_title {
        Some(c) => {
            let (t, _) = split_og_title(c.as_str());
            t.as_str().is_empty()
        },
        None => true,
    };
    let title_text = if needs_title {
        first_text(body, "title")
    } else {
        None
    };
    gac_fields(og_title, og_image, title_text)
}

/// The command-line arguments taken as page URLs: those that start with `http`, in order.
pub open spec fn url_args(args: Seq<String>) -> Seq<Seq<char>>
    decreases args.len(),
{
    if args.len() == 0 {
        Seq::empty()
    } else {
        let init = url_args(args.drop_last());
        if "http"@.is_prefix_of(args.last()@) {
            init.push(args.last()@)
        } else {
            init
        }
    }
}

pub fn gac_urls(args: &Vec<String>) -> (r: Vec<String>)
    ensures
        views(r@) == url_args(args@),
{
    let mut r: Vec<String> = Vec::new();
    let prefix = chars_of("http");
    let mut i: usize = 0;
    assert(args@.take(0) =~= Seq::<String>::empty());
    assert(views(r@) =~= Seq::<Seq<char>>::empty());
    while i < args.len()
        invariant
            i <= args.len(),
            prefix@ == "http"@,
            views(r@) == url_args(args@.take(i as int)),
        decreases args.len() - i,
    {
        let a = chars_of(args[i].as_str());
        let keep = matches_at(&a, &prefix, 0);
        proof {
            assert(args@.take(i + 1).drop_last() =~= args@.take(i as int));
            assert(keep == "http"@.is_prefix_of(args@[i as int]@)) by {
                if keep {
                    assert(a@.subrange(0, prefix@.len() as int) == prefix@);
                } else if "http"@.is_prefix_of(a@) {
                    assert(a@.subrange(0, prefix@.len() as int) =~= prefix@);
                }
            }
        }
        if keep {
            let ghost before = r@;
            r.push(args[i].clone());
            assert(views(r@) =~= views(before).push(args@[i as int]@));
        }
        i += 1;
    }
    assert(args@.take(args@.len() as int) =~= args@);
    r
}

} // verus!

//! The lines of the screens: list rows, filter menu rows and the detail text,
//! coloured with ANSI escapes.

use vstd::prelude::*;
use crate::browse::{medium_for_key, medium_key, menu_label, menu_medium_label, source_for_key, source_key};
use crate::catalog::{source_label, CatalogEntry, Medium, MuseumSource};
use crate::esrgan::views;
use crate::gallery::{dimensions, dimensions_text, Piece};
use crate::kitty::{BOLD, CYAN, DIM, GREEN, INV, RST, YELLOW};
use crate::layout::{artist_date, artist_date_text, prefix_chars, reaches_5k, resolution_tag, take_chars};
use crate::museums::decimal_string;
use crate::text::{cat, chars_of, concat, decimal, string_of};

verus! {

// ── Padding ─────────────────────────────────────────────────────────────────

/// `n` spaces.
pub open spec fn spaces(n: nat) -> Seq<char> {
    Seq::new(n, |i: int| ' ')
}

/// `s` padded with spaces on the right to `w` characters (`{:<w}`).
pub open spec fn pad_right(s: Seq<char>, w: nat) -> Seq<char> {
    if s.len() < w {
        s + spaces((w - s.len()) as nat)
    } else {
        s
    }
}

/// `s` padded with spaces on the left to `w` characters (`{:>w}`).
pub open spec fn pad_left(s: Seq<char>, w: nat) -> Seq<char> {
    if s.len() < w {
        spaces((w - s.len()) as nat) + s
    } else {
        s
    }
}

fn spaces_chars(n: usize) -> (r: Vec<char>)
    ensures
        r@ == spaces(n as nat),
{
    let mut v: Vec<char> = Vec::new();
    let mut i: usize = 0;
    while i < n
        invariant
            i <= n,
            v@ == spaces(i as nat),
        decreases n - i,
    {
        v.push(' ');
        i += 1;
        assert(v@ =~= spaces(i as nat));
    }
    v
}

pub fn pad_right_string(s: &str, w: usize) -> (r: String)
    ensures
        r@ == pad_right(s@, w as nat),
{
    let v = chars_of(s);
    if v.len() < w {
        string_of(&concat(&v, &spaces_chars(w - v.len())))
    } else {
        String::from_str(s)
    }
}

pub fn pad_left_string(s: &str, w: usize) -> (r: String)
    ensures
        r@ == pad_left(s@, w as nat),
{
    let v = chars_of(s);
    if v.len() < w {
        string_of(&concat(&spaces_chars(w - v.len()), &v))
    } else {
        String::from_str(s)
    }
}

// ── Browse list ─────────────────────────────────────────────────────────────

/// The mark of a work whose file is on disk: a green tick, else a space.
pub open spec fn download_mark(downloaded: bool) -> Seq<char> {
    if downloaded {
        GREEN@ + "\u{2713}"@ + RST@
    } else {
        " "@
    }
}

/// The list row of the work at list position `i`: its number right-aligned, its
/// title cut to `max_title` characters and padded to that width, artist and date cut
/// and padded to 30, then the download mark; the selected row in reverse video.
pub open spec fn browse_row_text(
    i: nat,
    title: Seq<char>,
    artist: Seq<char>,
    date: Seq<char>,
    max_title: nat,
    selected: bool,
    downloaded: bool,
) -> Seq<char> {
    let num = pad_left(decimal(i + 1), 3) + "."@;
    let t = pad_right(prefix_chars(title, max_title), max_title);
    let who = pad_right(prefix_chars(artist_date_text(artist, date), 30), 30);
    if selected {
        "  "@ + INV@ + num + " "@ + t + "  "@ + who + RST@ + " "@ + download_mark(downloaded)
    } else {
        "  "@ + DIM@ + num + RST@ + " "@ + BOLD@ + t + RST@ + "  "@ + DIM@ + who + RST@ + " "@
            + download_mark(downloaded)
    }
}

/// Three texts one after the other.
fn join3(a: &str, b: &str, c: &str) -> (r: String)
    ensures
        r@ == a@ + b@ + c@,
{
    let x = cat(a, b);
    cat(x.as_str(), c)
}

pub fn browse_row(i: usize, entry: &CatalogEntry, max_title: usize, selected: bool, downloaded: bool) -> (r: String)
    requires
        i < usize::MAX,
    ensures
        r@ == browse_row_text(
            i as nat,
            entry.title@,
            entry.artist@,
            entry.date@,
            max_title as nat,
            selected,
            downloaded,
        ),
{
    let n = pad_left_string(decimal_string((i + 1) as u64).as_str(), 3);
    let num = cat(n.as_str(), ".");
    let t = pad_right_string(take_chars(entry.title.as_str(), max_title).as_str(), max_title);
    let ad = artist_date(entry.artist.as_str(), entry.date.as_str());
    let who = pad_right_string(take_chars(ad.as_str(), 30).as_str(), 30);
    let mark = if downloaded {
        join3(GREEN, "\u{2713}", RST)
    } else {
        String::from_str(" ")
    };
    if selected {
        let a = join3("  ", INV, num.as_str());
        let b = join3(a.as_str(), " ", t.as_str());
        let c = join3(b.as_str(), "  ", who.as_str());
        let d = join3(c.as_str(), RST, " ");
        cat(d.as_str(), mark.as_str())
    } else {
        let a = join3("  ", DIM, num.as_str());
        let b = join3(a.as_str(), RST, " ");
        let c = join3(b.as_str(), BOLD, t.as_str());
        let d = join3(c.as_str(), RST, "  ");
        let e = join3(d.as_str(), DIM, who.as_str());
        let f = join3(e.as_str(), RST, " ");
        cat(f.as_str(), mark.as_str())
    }
}

// ── Filter menu ─────────────────────────────────────────────────────────────

/// Rows of the filter menu: one per museum key `1`–`9`.
pub const MENU_ROWS: usize = 9;

/// The key of the museum in menu row `i` (`1`, `2`, …).
pub open spec fn source_key_char(i: int) -> char {
    (49 + i) as char
}

/// The key of the technique in menu row `i` (`a`, `b`, …).
pub open spec fn medium_key_char(i: int) -> char {
    (97 + i) as char
}

/// A menu entry: `[key] label`, in cyan when it is the active choice.
pub open spec fn menu_item(key: char, label: Seq<char>, active: bool) -> Seq<char> {
    if active {
        CYAN@ + "["@ + seq![key] + "] "@ + label + RST@
    } else {
        "["@ + seq![key] + "] "@ + label
    }
}

/// Row `i` of the filter menu: the museum whose key is `source_key_char(i)` (its
/// label padded to 20 characters), then the technique whose key is
/// `medium_key_char(i)` while there is one.
pub open spec fn menu_row_text(i: int, source: MuseumSource, filter: Medium) -> Seq<char> {
    let sk = source_key_char(i);
    let left = match source_for_key(sk) {
        Some(s) => menu_item(sk, pad_right(source_label(s), 20), s == source),
        None => spaces(24),
    };
    let mk = medium_key_char(i);
    let right = match medium_for_key(mk) {
        Some(m) => menu_item(mk, menu_medium_label(m), m == filter),
        None => Seq::empty(),
    };
    "  "@ + left + right
}

fn menu_item_string(key: char, label: &str, active: bool) -> (r: String)
    ensures
        r@ == menu_item(key, label@, active),
{
    let mut k: Vec<char> = Vec::new();
    k.push(key);
    let ks = string_of(&k);
    let a = join3("[", ks.as_str(), "] ");
    let b = cat(a.as_str(), label);
    if active {
        join3(CYAN, b.as_str(), RST)
    } else {
        b
    }
}

pub fn menu_row(i: usize, source: MuseumSource, filter: Medium) -> (r: String)
    requires
        i < MENU_ROWS,
    ensures
        r@ == menu_row_text(i as int, source, filter),
{
    let sk = (49u8 + i as u8) as char;
    let mk = (97u8 + i as u8) as char;
    assert(sk == source_key_char(i as int));
    assert(mk == medium_key_char(i as int));
    let left = match source_key(sk) {
        Some(s) => menu_item_string(sk, pad_right_string(s.label(), 20).as_str(), s == source),
        None => string_of(&spaces_chars(24)),
    };
    let right = match medium_key(mk) {
        Some(m) => menu_item_string(mk, menu_label(m), m == filter),
        None => String::new(),
    };
    join3("  ", left.as_str(), right.as_str())
}

// ── Detail screen ───────────────────────────────────────────────────────────

/// The line under the header when no image is shown: the thumbnail is on its way
/// when the piece has one, else the piece must be downloaded first.
pub open spec fn placeholder_text(thumb_url: Seq<char>) -> Seq<char> {
    if thumb_url.len() != 0 {
        "  "@ + DIM@ + "[loading thumbnail...]"@ + RST@
    } else {
        "  "@ + DIM@ + "[no preview \u{2014} press d to download]"@ + RST@
    }
}

pub fn preview_placeholder(piece: &Piece) -> (r: String)
    ensures
        r@ == placeholder_text(piece.thumb_url@),
{
    let a = join3("  ", DIM, if !piece.thumb_url.as_str().is_empty() {
        "[loading thumbnail...]"
    } else {
        "[no preview \u{2014} press d to download]"
    });
    cat(a.as_str(), RST)
}

/// The text lines of the detail screen: the title in bold and the artist dimmed
/// when present, then the size with its 5K tag (and `upscaled`), or `Downloaded`,
/// or, for a piece with no image to download, that note and its page.
pub open spec fn detail_lines_spec(piece: Piece, downloaded: bool) -> Seq<Seq<char>> {
    let title = if piece.title@.len() != 0 {
        seq!["  "@ + BOLD@ + piece.title@ + RST@]
    } else {
        Seq::empty()
    };
    let artist = if piece.artist@.len() != 0 {
        seq!["  "@ + DIM@ + piece.artist@ + RST@]
    } else {
        Seq::empty()
    };
    title + artist + detail_status_spec(piece, downloaded)
}

/// The status lines of the detail screen (see `detail_lines_spec`).
pub open spec fn detail_status_spec(piece: Piece, downloaded: bool) -> Seq<Seq<char>> {
    match piece.resolution {
        Some(res) => {
            let at_5k = reaches_5k(res[0], res[1]);
            seq![
                "  "@ + (if at_5k { GREEN@ } else { YELLOW@ }) + dimensions_text(res[0], res[1])
                    + " ("@ + (if at_5k { "\u{2265} 5K"@ } else { "< 5K"@ }) + ")"@ + RST@ + (
                if piece.upscaled {
                    " "@ + CYAN@ + "upscaled"@ + RST@
                } else {
                    Seq::empty()
                }),
            ]
        },
        None => if downloaded {
            seq!["  "@ + GREEN@ + "Downloaded"@ + RST@]
        } else if piece.primary_image@.len() == 0 && piece.image_base@.len() == 0 {
            seq![
                "  "@ + DIM@ + "Not available for download (non public domain)"@ + RST@,
                "  "@ + DIM@ + "View at: "@ + piece.url@ + RST@,
            ]
        } else {
            Seq::empty()
        },
    }
}

/// `lines` with `line` added, by views.
proof fn lemma_views_push(lines: Seq<String>, line: String)
    ensures
        views(lines.push(line)) == views(lines).push(line@),
{
    assert(views(lines.push(line)) =~= views(lines).push(line@));
}

pub fn detail_lines(piece: &Piece, downloaded: bool) -> (r: Vec<String>)
    ensures
        views(r@) == detail_lines_spec(*piece, downloaded),
{
    let ghost spec = detail_lines_spec(*piece, downloaded);
    let mut out: Vec<String> = Vec::new();
    assert(views(out@) =~= Seq::<Seq<char>>::empty());
    if !piece.title.as_str().is_empty() {
        let line = join3("  ", BOLD, cat(piece.title.as_str(), RST).as_str());
        proof {
            lemma_views_push(out@, line);
        }
        out.push(line);
    }
    let ghost title_lines = views(out@);
    assert(title_lines =~~= (if piece.title@.len() != 0 {
        seq!["  "@ + BOLD@ + piece.title@ + RST@]
    } else {
        Seq::<Seq<char>>::empty()
    }));
    if !piece.artist.as_str().is_empty() {
        let line = join3("  ", DIM, cat(piece.artist.as_str(), RST).as_str());
        proof {
            lemma_views_push(out@, line);
        }
        out.push(line);
    }
    let ghost head = views(out@);
    assert(head =~~= title_lines + (if piece.artist@.len() != 0 {
        seq!["  "@ + DIM@ + piece.artist@ + RST@]
    } else {
        Seq::<Seq<char>>::empty()
    }));
    let mut status: Vec<String> = Vec::new();
    match piece.resolution {
        Some(res) => {
            let (at_5k, tag) = resolution_tag(res[0], res[1]);
            let color = if at_5k {
                GREEN
            } else {
                YELLOW
            };
            let a = join3("  ", color, dimensions(res[0], res[1]).as_str());
            let b = join3(a.as_str(), " (", tag);
            let c = join3(b.as_str(), ")", RST);
            let line = if piece.upscaled {
                let u = join3(" ", CYAN, "upscaled");
                join3(c.as_str(), u.as_str(), RST)
            } else {
                assert(c@ + Seq::<char>::empty() =~= c@);
                c
            };
            status.push(line);
        },
        None => {
            if downloaded {
                status.push(join3("  ", GREEN, cat("Downloaded", RST).as_str()));
            } else if piece.primary_image.as_str().is_empty() && piece.image_base.as_str().is_empty() {
                status.push(join3("  ", DIM, cat("Not available for download (non public domain)", RST).as_str()));
                let v = join3("  ", DIM, "View at: ");
                status.push(join3(v.as_str(), piece.url.as_str(), RST));
            }
        },
    }
    let ghost st = status@;
    assert(views(st) =~~= detail_status_spec(*piece, downloaded));
    let ghost before = out@;
    out.append(&mut status);
    assert(out@ =~= before + st);
    assert(views(out@) =~= views(before) + views(st));
    out
}

} // verus!

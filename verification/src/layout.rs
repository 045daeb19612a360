//! The text of the browse and detail screens that does not depend on the terminal:
//! headers, labels, truncation and widths.

use vstd::prelude::*;
use crate::catalog::{medium_label, source_label, Medium, MuseumSource};
use crate::gallery::{byte_len, FIVE_K_H, FIVE_K_W};
use crate::museums::decimal_string;
use crate::text::{cat, chars_of, decimal, string_of};

verus! {

/// The first and one-past-last list positions shown on a page.
pub fn page_bounds(total: usize, page: usize, ps: usize) -> (r: (usize, usize))
    requires
        page * ps + ps <= usize::MAX,
    ensures
        r.0 == page * ps,
        r.1 == if page * ps + ps < total {
            page * ps + ps
        } else {
            total as int
        },
{
    let start = page * ps;
    let end = if start + ps < total {
        start + ps
    } else {
        total
    };
    (start, end)
}

/// `a-b of n` for a non-empty list, `0 results` for an empty one.
pub open spec fn range_label(total: usize, start: usize, end: usize) -> Seq<char> {
    if total > 0 {
        decimal((start + 1) as nat) + "-"@ + decimal(end as nat) + " of "@ + decimal(total as nat)
    } else {
        "0 results"@
    }
}

pub fn range_text(total: usize, start: usize, end: usize) -> (r: String)
    requires
        start < usize::MAX,
    ensures
        r@ == range_label(total, start, end),
{
    if total > 0 {
        let a = cat(decimal_string((start + 1) as u64).as_str(), "-");
        let b = cat(a.as_str(), decimal_string(end as u64).as_str());
        let c = cat(b.as_str(), " of ");
        cat(c.as_str(), decimal_string(total as u64).as_str())
    } else {
        String::from_str("0 results")
    }
}

/// `[museum / technique]`, the active filters shown in the browse header.
pub open spec fn filter_tag_text(source: MuseumSource, filter: Medium) -> Seq<char> {
    "["@ + source_label(source) + " / "@ + medium_label(filter) + "]"@
}

pub fn filter_tag(source: MuseumSource, filter: Medium) -> (r: String)
    ensures
        r@ == filter_tag_text(source, filter),
{
    let a = cat("[", source.label());
    let b = cat(a.as_str(), " / ");
    let c = cat(b.as_str(), filter.label());
    cat(c.as_str(), "]")
}

/// Artist and date of a work as one line: either alone when the other is empty.
pub open spec fn artist_date_text(artist: Seq<char>, date: Seq<char>) -> Seq<char> {
    if artist.len() == 0 {
        date
    } else if date.len() == 0 {
        artist
    } else {
        artist + ", "@ + date
    }
}

pub fn artist_date(artist: &str, date: &str) -> (r: String)
    ensures
        r@ == artist_date_text(artist@, date@),
{
    if artist.is_empty() {
        String::from_str(date)
    } else if date.is_empty() {
        String::from_str(artist)
    } else {
        let a = cat(artist, ", ");
        cat(a.as_str(), date)
    }
}

/// At most the first `n` characters of `s`.
pub open spec fn prefix_chars(s: Seq<char>, n: nat) -> Seq<char> {
    if s.len() > n {
        s.take(n as int)
    } else {
        s
    }
}

pub fn take_chars(s: &str, n: usize) -> (r: String)
    ensures
        r@ == prefix_chars(s@, n as nat),
{
    let v = chars_of(s);
    if v.len() > n {
        string_of(&crate::text::slice(&v, 0, n))
    } else {
        String::from_str(s)
    }
}

/// Width of the horizontal rule under a header: 60 columns, less on narrow terminals.
/// Below 4 columns the width computed in `usize` wraps around, and the rule keeps
/// its 60 columns.
pub fn rule_len(cols: usize) -> (r: usize)
    ensures
        r == if 4 <= cols && cols - 4 < 60 {
            cols - 4
        } else {
            60
        },
{
    if 4 <= cols && cols - 4 < 60 {
        cols - 4
    } else {
        60
    }
}

/// Characters of a title shown in the list: half the terminal, at least 20.
pub fn title_width(cols: usize) -> (r: usize)
    ensures
        r == if cols / 2 > 20 {
            cols / 2
        } else {
            20
        },
{
    if cols / 2 > 20 {
        cols / 2
    } else {
        20
    }
}

/// Spaces that right-align the header text after the 12 columns of the title.
pub fn header_padding(cols: usize, header: &str) -> (r: usize)
    ensures
        r == if 12 + byte_len(header@) < cols {
            cols - 12 - byte_len(header@)
        } else {
            0
        },
{
    let len = header.len();
    if len < cols && 12 < cols - len {
        cols - 12 - len
    } else {
        0
    }
}

/// Whether an image reaches 5K in either dimension.
pub open spec fn reaches_5k(w: u32, h: u32) -> bool {
    w >= FIVE_K_W || h >= FIVE_K_H
}

/// The resolution tag of the detail screen: `≥ 5K` or `< 5K`.
pub fn resolution_tag(w: u32, h: u32) -> (r: (bool, &'static str))
    ensures
        r.0 == reaches_5k(w, h),
        r.1@ == if reaches_5k(w, h) {
            "\u{2265} 5K"@
        } else {
            "< 5K"@
        },
{
    if w >= FIVE_K_W || h >= FIVE_K_H {
        (true, "\u{2265} 5K")
    } else {
        (false, "< 5K")
    }
}

/// `i/n`: the one-based position of the work in detail view within the list.
pub fn position_text(idx: usize, total: usize) -> (r: String)
    requires
        idx < usize::MAX,
    ensures
        r@ == decimal((idx + 1) as nat) + "/"@ + decimal(total as nat),
{
    let a = cat(decimal_string((idx + 1) as u64).as_str(), "/");
    cat(a.as_str(), decimal_string(total as u64).as_str())
}

/// Works listed per page on a terminal of `rows` lines: eight lines go to the header
/// and footer, and a page lists at least one work.
pub fn page_size(rows: u16) -> (r: usize)
    ensures
        r == if rows > 8 {
            rows - 8
        } else {
            1
        },
        r >= 1,
{
    if rows > 8 {
        (rows - 8) as usize
    } else {
        1
    }
}

} // verus!

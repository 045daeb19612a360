//! The browse list and the keyboard-driven state of the terminal browser.
//!
//! The terminal loop reads a key, hands it to [`Session::handle_key`], and performs
//! the [`Command`] that comes back (drawing, prompting, downloading).

use vstd::prelude::*;
use crate::catalog::{
    entry_views, medium_matches, source_matches, CatalogEntry, EntryView, Medium, MuseumSource,
};
use crate::text::{chars_of, contains, has_substring, spec_lowercase, to_lowercase};

verus! {

/// Which screen is shown.
#[derive(Clone, Copy, Debug, PartialEq, Eq, Structural)]
pub enum Screen {
    Browse,
    Detail,
}

/// The filtered, paged list of catalog works.
pub struct BrowseState {
    pub page: usize,
    pub selected: usize,
    pub source: MuseumSource,
    pub filter: Medium,
    pub query: String,
    /// Positions in the catalog of the works that pass the filters, in catalog order.
    pub filtered: Vec<usize>,
}

/// A work passes the filters: its museum, its technique, and — when the lowercased
/// query `q` is not empty — its lowercased title or artist containing `q`.
pub open spec fn passes(e: EntryView, source: MuseumSource, filter: Medium, q: Seq<char>) -> bool {
    &&& source_matches(source, e.source)
    &&& medium_matches(filter, e.medium)
    &&& (q.len() == 0 || has_substring(spec_lowercase(e.title), q) || has_substring(
        spec_lowercase(e.artist),
        q,
    ))
}

/// Positions `0..n` of the catalog whose works pass the filters, in increasing order.
pub open spec fn matching(
    catalog: Seq<EntryView>,
    source: MuseumSource,
    filter: Medium,
    q: Seq<char>,
    n: nat,
) -> Seq<usize>
    decreases n,
{
    if n == 0 {
        Seq::empty()
    } else {
        let prev = matching(catalog, source, filter, q, (n - 1) as nat);
        if passes(catalog[n - 1], source, filter, q) {
            prev.push((n - 1) as usize)
        } else {
            prev
        }
    }
}

/// The positions of the works that pass the current filters and query.
pub open spec fn filtered_for(
    catalog: Seq<CatalogEntry>,
    source: MuseumSource,
    filter: Medium,
    query: Seq<char>,
) -> Seq<usize> {
    let views = entry_views(catalog);
    matching(views, source, filter, spec_lowercase(query), views.len())
}

/// Every position `0..n`, in order.
pub open spec fn all_positions(n: nat) -> Seq<usize> {
    Seq::new(n, |i: int| i as usize)
}

/// With every museum, every technique and no query, every work passes.
pub proof fn lemma_matching_all(catalog: Seq<EntryView>, n: nat)
    requires
        n <= catalog.len(),
        n <= usize::MAX + 1,
    ensures
        matching(catalog, MuseumSource::All, Medium::All, Seq::empty(), n) == all_positions(n),
    decreases n,
{
    if n > 0 {
        lemma_matching_all(catalog, (n - 1) as nat);
        assert(passes(catalog[n - 1], MuseumSource::All, Medium::All, Seq::empty()));
        assert(all_positions((n - 1) as nat).push((n - 1) as usize) =~= all_positions(n));
    } else {
        assert(all_positions(0) =~= Seq::<usize>::empty());
    }
}

/// Whether a work passes the filters and the lowercased query `q`.
pub fn work_passes(e: &CatalogEntry, source: MuseumSource, filter: Medium, q: &Vec<char>) -> (r: bool)
    ensures
        r == passes(e@, source, filter, q@),
{
    if !source.matches(e) || !filter.matches(e) {
        return false;
    }
    if q.len() == 0 {
        return true;
    }
    let title = to_lowercase(e.title.as_str());
    if contains(&chars_of(title.as_str()), q) {
        return true;
    }
    let artist = to_lowercase(e.artist.as_str());
    contains(&chars_of(artist.as_str()), q)
}

impl BrowseState {
    /// An unfiltered list over `catalog`.
    pub fn new(catalog: &Vec<CatalogEntry>) -> (r: BrowseState)
        ensures
            r.page == 0,
            r.selected == 0,
            r.source == MuseumSource::All,
            r.filter == Medium::All,
            r.query@ == Seq::<char>::empty(),
            r.filtered@ == filtered_for(catalog@, MuseumSource::All, Medium::All, Seq::empty()),
            r.filtered@ == all_positions(catalog@.len()),
    {
        let mut b = BrowseState {
            page: 0,
            selected: 0,
            source: MuseumSource::All,
            filter: Medium::All,
            query: String::new(),
            filtered: Vec::new(),
        };
        b.refilter(catalog);
        assert(catalog@.len() == catalog.len());
        proof {
            lemma_matching_all(entry_views(catalog@), catalog@.len());
        }
        b
    }

    /// Recomputes the list for the current filters and query, back on its first page.
    pub fn refilter(&mut self, catalog: &Vec<CatalogEntry>)
        ensures
            final(self).filtered@ == filtered_for(
                catalog@,
                old(self).source,
                old(self).filter,
                old(self).query@,
            ),
            final(self).page == 0,
            final(self).selected == 0,
            final(self).source == old(self).source,
            final(self).filter == old(self).filter,
            final(self).query == old(self).query,
            old(self).query@.len() == 0 ==> final(self).filtered@ == matching(
                entry_views(catalog@),
                old(self).source,
                old(self).filter,
                Seq::empty(),
                catalog@.len(),
            ),
    {
        let ghost views = entry_views(catalog@);
        let lower = to_lowercase(self.query.as_str());
        let q = chars_of(lower.as_str());
        let mut out: Vec<usize> = Vec::new();
        let mut i: usize = 0;
        while i < catalog.len()
            invariant
                i <= catalog.len(),
                views == entry_views(catalog@),
                q@ == spec_lowercase(self.query@),
                out@ == matching(views, self.source, self.filter, q@, i as nat),
            decreases catalog.len() - i,
        {
            if work_passes(&catalog[i], self.source, self.filter, &q) {
                out.push(i);
            }
            i += 1;
        }
        proof {
            if self.query@.len() == 0 {
                assert(q@ =~= Seq::<char>::empty());
            }
        }
        self.filtered = out;
        self.page = 0;
        self.selected = 0;
    }
}

/// The browse list shows exactly the works that pass the filters: each listed
/// position is a work of the catalog that passes, every passing work is listed, and
/// the list follows catalog order without repeats.
pub proof fn lemma_matching_exact(
    catalog: Seq<EntryView>,
    source: MuseumSource,
    filter: Medium,
    q: Seq<char>,
    n: nat,
)
    requires
        n <= catalog.len(),
        n <= usize::MAX + 1,
    ensures
        ({
            let m = matching(catalog, source, filter, q, n);
            &&& forall|k: int| 0 <= k < m.len() ==> m[k] < n && passes(catalog[m[k] as int], source, filter, q)
            &&& forall|a: int, b: int| 0 <= a < b < m.len() ==> m[a] < m[b]
            &&& forall|i: int| 0 <= i < n && passes(catalog[i], source, filter, q) ==> m.contains(i as usize)
        }),
    decreases n,
{
    if n > 0 {
        lemma_matching_exact(catalog, source, filter, q, (n - 1) as nat);
        let prev = matching(catalog, source, filter, q, (n - 1) as nat);
        let m = matching(catalog, source, filter, q, n);
        assert forall|i: int| 0 <= i < n && passes(catalog[i], source, filter, q) implies m.contains(
            i as usize,
        ) by {
            if i < n - 1 {
                let k = choose|k: int| 0 <= k < prev.len() && prev[k] == i as usize;
                assert(m[k] == i as usize);
            } else {
                assert(m[prev.len() as int] == i as usize);
            }
        }
    }
}

// ── Keys and commands ───────────────────────────────────────────────────────

/// A key press, as the terminal loop reports it.
#[derive(Clone, Copy, Debug, PartialEq, Eq, Structural)]
pub enum Key {
    Char(char),
    Up,
    Down,
    Left,
    Right,
    Enter,
    Esc,
    /// Ctrl+C.
    CtrlC,
    Other,
}

/// What the terminal loop does after a key.
#[derive(Clone, Copy, Debug, PartialEq, Eq, Structural)]
pub enum Command {
    /// Leave the program.
    Quit,
    /// Draw the current screen again.
    Redraw,
    /// Nothing to do; not even a redraw.
    Ignore,
    /// Show the filter menu and read filter keys.
    FilterMenu,
    /// Prompt for a search query.
    Search,
    /// Show the work at this position of the list in detail view.
    OpenDetail(usize),
    /// Prompt for a Google Arts & Culture URL.
    AddGac,
    /// Download the current piece.
    Download,
    /// Upscale the current piece.
    Upscale,
    /// Open the downloaded file in the system viewer.
    OpenFile,
    /// Prompt for the download directory.
    Configure,
}

/// The screen, list position and detail position of a session.
#[derive(Clone, Copy, Debug, PartialEq, Eq, Structural)]
pub struct Nav {
    pub screen: Screen,
    pub page: usize,
    pub selected: usize,
    pub detail_idx: Option<usize>,
}

/// The browser's state between keys.
pub struct Session {
    pub screen: Screen,
    pub browse: BrowseState,
    /// The list position of the work shown in detail view, when it came from the list.
    pub detail_idx: Option<usize>,
}

pub open spec fn nav_of(s: Session) -> Nav {
    Nav { screen: s.screen, page: s.browse.page, selected: s.browse.selected, detail_idx: s.detail_idx }
}

/// Works on page `page` of `len` works, `ps` per page.
pub open spec fn page_items(len: int, page: int, ps: int) -> int {
    if page * ps >= len {
        0
    } else if len - page * ps < ps {
        len - page * ps
    } else {
        ps
    }
}

/// The last page of `len` works, `ps` per page (0 for an empty list).
pub open spec fn last_page(len: int, ps: int) -> int {
    (if len > 0 {
        len - 1
    } else {
        0
    }) / ps
}

/// What a key does on the browse screen of a list of `len` works, `ps` per page:
/// `j` or Up moves the selection up, `k` or Down down, `n`/`p` change page.
pub open spec fn browse_step(n: Nav, len: int, key: Key, ps: int) -> (Nav, Command) {
    if key == Key::Char('q') || key == Key::Esc || key == Key::CtrlC {
        (n, Command::Quit)
    } else if key == Key::Char('k') || key == Key::Down {
        let items = page_items(len, n.page as int, ps);
        if items > 0 {
            (
                Nav {
                    selected: (if n.selected + 1 < items - 1 {
                        n.selected + 1
                    } else {
                        items - 1
                    }) as usize,
                    ..n
                },
                Command::Redraw,
            )
        } else {
            (n, Command::Redraw)
        }
    } else if key == Key::Char('j') || key == Key::Up {
        (
            Nav {
                selected: (if n.selected > 0 {
                    n.selected - 1
                } else {
                    0
                }) as usize,
                ..n
            },
            Command::Redraw,
        )
    } else if key == Key::Char('n') || key == Key::Right {
        if n.page < last_page(len, ps) {
            (Nav { page: (n.page + 1) as usize, selected: 0, ..n }, Command::Redraw)
        } else {
            (n, Command::Redraw)
        }
    } else if key == Key::Char('p') || key == Key::Left {
        if n.page > 0 {
            (Nav { page: (n.page - 1) as usize, selected: 0, ..n }, Command::Redraw)
        } else {
            (n, Command::Redraw)
        }
    } else if key == Key::Char('f') {
        (n, Command::FilterMenu)
    } else if key == Key::Char('/') {
        (n, Command::Search)
    } else if key == Key::Enter {
        let idx = n.page * ps + n.selected;
        if len > 0 && idx < len {
            (
                Nav { screen: Screen::Detail, detail_idx: Some(idx as usize), ..n },
                Command::OpenDetail(idx as usize),
            )
        } else {
            (n, Command::Redraw)
        }
    } else if key == Key::Char('a') {
        (n, Command::AddGac)
    } else {
        (n, Command::Ignore)
    }
}

/// What a key does on the detail screen, `len` works being listed: `j` (Up, Left)
/// opens the previous work of the list, `k` (Down, Right) the next.
pub open spec fn detail_step(n: Nav, len: int, key: Key) -> (Nav, Command) {
    if key == Key::Char('q') || key == Key::CtrlC {
        (n, Command::Quit)
    } else if key == Key::Esc {
        (Nav { screen: Screen::Browse, ..n }, Command::Redraw)
    } else if key == Key::Char('k') || key == Key::Down || key == Key::Right {
        match n.detail_idx {
            Some(i) => if i + 1 < len {
                (Nav { detail_idx: Some((i + 1) as usize), ..n }, Command::OpenDetail((i + 1) as usize))
            } else {
                (n, Command::Redraw)
            },
            None => (n, Command::Redraw),
        }
    } else if key == Key::Char('j') || key == Key::Up || key == Key::Left {
        match n.detail_idx {
            Some(i) => if i > 0 {
                (Nav { detail_idx: Some((i - 1) as usize), ..n }, Command::OpenDetail((i - 1) as usize))
            } else {
                (n, Command::Redraw)
            },
            None => (n, Command::Redraw),
        }
    } else if key == Key::Char('d') {
        (n, Command::Download)
    } else if key == Key::Char('u') {
        (n, Command::Upscale)
    } else if key == Key::Char('o') {
        (n, Command::OpenFile)
    } else if key == Key::Char('a') {
        (n, Command::AddGac)
    } else if key == Key::Char('c') {
        (n, Command::Configure)
    } else {
        (n, Command::Ignore)
    }
}

pub open spec fn step(n: Nav, len: int, key: Key, ps: int) -> (Nav, Command) {
    match n.screen {
        Screen::Browse => browse_step(n, len, key, ps),
        Screen::Detail => detail_step(n, len, key),
    }
}

/// Works on the current page (`page_items`), without overflow.
pub fn items_on_page(len: usize, page: usize, ps: usize) -> (r: usize)
    ensures
        r == page_items(len as int, page as int, ps as int),
{
    match page.checked_mul(ps) {
        Some(start) => if start >= len {
            0
        } else if len - start < ps {
            len - start
        } else {
            ps
        },
        None => {
            assert(page * ps > usize::MAX);
            0
        },
    }
}

impl Session {
    /// A session on the browse screen of the unfiltered catalog.
    pub fn new(catalog: &Vec<CatalogEntry>) -> (r: Session)
        ensures
            r.screen == Screen::Browse,
            r.detail_idx is None,
            r.browse.page == 0 && r.browse.selected == 0,
            r.browse.source == MuseumSource::All && r.browse.filter == Medium::All,
            r.browse.query@ == Seq::<char>::empty(),
            r.browse.filtered@ == filtered_for(catalog@, MuseumSource::All, Medium::All, Seq::empty()),
            r.browse.filtered@ == all_positions(catalog@.len()),
    {
        Session { screen: Screen::Browse, browse: BrowseState::new(catalog), detail_idx: None }
    }

    /// Applies one key with `page_size` works per page.
    pub fn handle_key(&mut self, key: Key, page_size: usize) -> (r: Command)
        requires
            page_size >= 1,
        ensures
            (nav_of(*final(self)), r) == step(
                nav_of(*old(self)),
                old(self).browse.filtered@.len() as int,
                key,
                page_size as int,
            ),
            final(self).browse.filtered == old(self).browse.filtered,
            final(self).browse.source == old(self).browse.source,
            final(self).browse.filter == old(self).browse.filter,
            final(self).browse.query == old(self).browse.query,
    {
        let len = self.browse.filtered.len();
        match self.screen {
            Screen::Browse => {
                if key == Key::Char('q') || key == Key::Esc || key == Key::CtrlC {
                    Command::Quit
                } else if key == Key::Char('k') || key == Key::Down {
                    let items = items_on_page(len, self.browse.page, page_size);
                    if items > 0 {
                        self.browse.selected = if self.browse.selected < items - 1 {
                            self.browse.selected + 1
                        } else {
                            items - 1
                        };
                    }
                    Command::Redraw
                } else if key == Key::Char('j') || key == Key::Up {
                    if self.browse.selected > 0 {
                        self.browse.selected = self.browse.selected - 1;
                    }
                    Command::Redraw
                } else if key == Key::Char('n') || key == Key::Right {
                    let last = (if len > 0 {
                        len - 1
                    } else {
                        0
                    }) / page_size;
                    if self.browse.page < last {
                        self.browse.page = self.browse.page + 1;
                        self.browse.selected = 0;
                    }
                    Command::Redraw
                } else if key == Key::Char('p') || key == Key::Left {
                    if self.browse.page > 0 {
                        self.browse.page = self.browse.page - 1;
                        self.browse.selected = 0;
                    }
                    Command::Redraw
                } else if key == Key::Char('f') {
                    Command::FilterMenu
                } else if key == Key::Char('/') {
                    Command::Search
                } else if key == Key::Enter {
                    match self.browse.page.checked_mul(page_size) {
                        Some(start) => {
                            if len > 0 && start < len && self.browse.selected < len - start {
                                let idx = start + self.browse.selected;
                                self.screen = Screen::Detail;
                                self.detail_idx = Some(idx);
                                Command::OpenDetail(idx)
                            } else {
                                Command::Redraw
                            }
                        },
                        None => Command::Redraw,
                    }
                } else if key == Key::Char('a') {
                    Command::AddGac
                } else {
                    Command::Ignore
                }
            },
            Screen::Detail => {
                if key == Key::Char('q') || key == Key::CtrlC {
                    Command::Quit
                } else if key == Key::Esc {
                    self.screen = Screen::Browse;
                    Command::Redraw
                } else if key == Key::Char('k') || key == Key::Down || key == Key::Right {
                    match self.detail_idx {
                        Some(i) => if len > 0 && i < len - 1 {
                            self.detail_idx = Some(i + 1);
                            Command::OpenDetail(i + 1)
                        } else {
                            Command::Redraw
                        },
                        None => Command::Redraw,
                    }
                } else if key == Key::Char('j') || key == Key::Up || key == Key::Left {
                    match self.detail_idx {
                        Some(i) => if i > 0 {
                            self.detail_idx = Some(i - 1);
                            Command::OpenDetail(i - 1)
                        } else {
                            Command::Redraw
                        },
                        None => Command::Redraw,
                    }
                } else if key == Key::Char('d') {
                    Command::Download
                } else if key == Key::Char('u') {
                    Command::Upscale
                } else if key == Key::Char('o') {
                    Command::OpenFile
                } else if key == Key::Char('a') {
                    Command::AddGac
                } else if key == Key::Char('c') {
                    Command::Configure
                } else {
                    Command::Ignore
                }
            },
        }
    }
}

/// The list position is valid: the page lies within the list and the selection on it
/// (a selection of 0 standing for an empty page).
pub open spec fn in_list(n: Nav, len: int, ps: int) -> bool {
    &&& n.page <= last_page(len, ps)
    &&& (n.selected == 0 || n.selected < page_items(len, n.page as int, ps))
    &&& (n.detail_idx matches Some(i) ==> i < len)
}

/// With a fixed page size, no key moves the selection off its page or the page off
/// the list, and a work opened in detail view is always one of the list.
pub proof fn lemma_keys_stay_in_list(n: Nav, len: int, key: Key, ps: int)
    requires
        ps >= 1,
        len >= 0,
        in_list(n, len, ps),
    ensures
        in_list(step(n, len, key, ps).0, len, ps),
        step(n, len, key, ps).1 matches Command::OpenDetail(i) ==> 0 <= i < len,
{
    let (m, c) = step(n, len, key, ps);
    assert(0 <= last_page(len, ps)) by (nonlinear_arith)
        requires
            ps >= 1,
            len >= 0,
    ;
    if n.screen == Screen::Browse && (key == Key::Char('n') || key == Key::Right) && n.page
        < last_page(len, ps) {
        let p = n.page + 1;
        assert(p * ps < len) by (nonlinear_arith)
            requires
                p <= (if len > 0 {
                    len - 1
                } else {
                    0
                }) / ps,
                ps >= 1,
                p >= 1,
        ;
    }
}

/// Opening a work from the list and leaving detail view with Esc comes back to the
/// same page and selection.
pub proof fn lemma_detail_and_back(n: Nav, len: int, ps: int)
    requires
        n.screen == Screen::Browse,
        step(n, len, Key::Enter, ps).1 is OpenDetail,
    ensures
        ({
            let back = step(step(n, len, Key::Enter, ps).0, len, Key::Esc, ps).0;
            &&& back.screen == Screen::Browse
            &&& back.page == n.page
            &&& back.selected == n.selected
        }),
{
}

// ── Filter menu and search ──────────────────────────────────────────────────

/// The museum chosen by a key of the filter menu.
pub open spec fn source_for_key(c: char) -> Option<MuseumSource> {
    if c == '1' {
        Some(MuseumSource::All)
    } else if c == '2' {
        Some(MuseumSource::AIC)
    } else if c == '3' {
        Some(MuseumSource::Cleveland)
    } else if c == '4' {
        Some(MuseumSource::Met)
    } else if c == '5' {
        Some(MuseumSource::NationalGallery)
    } else if c == '6' {
        Some(MuseumSource::Smithsonian)
    } else if c == '7' {
        Some(MuseumSource::PalaceMuseum)
    } else if c == '8' {
        Some(MuseumSource::ShanghaiMuseum)
    } else if c == '9' {
        Some(MuseumSource::Namoc)
    } else {
        None
    }
}

/// The technique chosen by a key of the filter menu.
pub open spec fn medium_for_key(c: char) -> Option<Medium> {
    if c == 'a' {
        Some(Medium::All)
    } else if c == 'b' {
        Some(Medium::Oil)
    } else if c == 'c' {
        Some(Medium::Watercolor)
    } else if c == 'd' {
        Some(Medium::Tempera)
    } else if c == 'e' {
        Some(Medium::Ink)
    } else if c == 'f' {
        Some(Medium::Chalk)
    } else if c == 'g' {
        Some(Medium::Pastel)
    } else {
        None
    }
}

pub fn source_key(c: char) -> (r: Option<MuseumSource>)
    ensures
        r == source_for_key(c),
{
    if c == '1' {
        Some(MuseumSource::All)
    } else if c == '2' {
        Some(MuseumSource::AIC)
    } else if c == '3' {
        Some(MuseumSource::Cleveland)
    } else if c == '4' {
        Some(MuseumSource::Met)
    } else if c == '5' {
        Some(MuseumSource::NationalGallery)
    } else if c == '6' {
        Some(MuseumSource::Smithsonian)
    } else if c == '7' {
        Some(MuseumSource::PalaceMuseum)
    } else if c == '8' {
        Some(MuseumSource::ShanghaiMuseum)
    } else if c == '9' {
        Some(MuseumSource::Namoc)
    } else {
        None
    }
}

pub fn medium_key(c: char) -> (r: Option<Medium>)
    ensures
        r == medium_for_key(c),
{
    if c == 'a' {
        Some(Medium::All)
    } else if c == 'b' {
        Some(Medium::Oil)
    } else if c == 'c' {
        Some(Medium::Watercolor)
    } else if c == 'd' {
        Some(Medium::Tempera)
    } else if c == 'e' {
        Some(Medium::Ink)
    } else if c == 'f' {
        Some(Medium::Chalk)
    } else if c == 'g' {
        Some(Medium::Pastel)
    } else {
        None
    }
}

/// The label of a technique in the filter menu.
pub open spec fn menu_medium_label(m: Medium) -> Seq<char> {
    match m {
        Medium::Chalk => "Chalk / Charcoal"@,
        _ => crate::catalog::medium_label(m),
    }
}

pub fn menu_label(m: Medium) -> (r: &'static str)
    ensures
        r@ == menu_medium_label(m),
{
    match m {
        Medium::Chalk => "Chalk / Charcoal",
        _ => m.label(),
    }
}

impl BrowseState {
    /// Applies one key of the filter menu; answers whether it chose a filter (the menu
    /// stays open) or not (the menu closes and nothing changes).
    pub fn apply_filter_key(&mut self, c: char, catalog: &Vec<CatalogEntry>) -> (chosen: bool)
        ensures
            chosen == (source_for_key(c) is Some || medium_for_key(c) is Some),
            chosen ==> final(self).page == 0 && final(self).selected == 0
                && final(self).query == old(self).query && final(self).filtered@ == filtered_for(
                catalog@,
                final(self).source,
                final(self).filter,
                final(self).query@,
            ),
            source_for_key(c) matches Some(src) ==> final(self).source == src && final(self).filter
                == old(self).filter,
            medium_for_key(c) matches Some(m) ==> final(self).filter == m && final(self).source
                == old(self).source,
            !chosen ==> *final(self) == *old(self),
    {
        match source_key(c) {
            Some(src) => {
                self.source = src;
                self.refilter(catalog);
                true
            },
            None => match medium_key(c) {
                Some(m) => {
                    self.filter = m;
                    self.refilter(catalog);
                    true
                },
                None => false,
            },
        }
    }

    /// Sets the search query and recomputes the list.
    pub fn set_query(&mut self, query: String, catalog: &Vec<CatalogEntry>)
        ensures
            final(self).query == query,
            final(self).source == old(self).source,
            final(self).filter == old(self).filter,
            final(self).page == 0 && final(self).selected == 0,
            final(self).filtered@ == filtered_for(catalog@, old(self).source, old(self).filter, query@),
            query@.len() == 0 ==> final(self).filtered@ == matching(
                entry_views(catalog@),
                old(self).source,
                old(self).filter,
                Seq::empty(),
                catalog@.len(),
            ),
    {
        self.query = query;
        self.refilter(catalog);
    }
}

/// What pressing the upscale key leads to.
#[derive(Clone, Copy, Debug, PartialEq, Eq, Structural)]
pub enum UpscaleStep {
    /// The piece must be downloaded first.
    NeedsDownload,
    /// The piece was upscaled already.
    AlreadyUpscaled,
    /// Real-ESRGAN is missing: offer to install it, then upscale.
    OfferInstall,
    /// Upscale now.
    Run,
}

pub open spec fn upscale_step_of(downloaded: bool, upscaled: bool, installed: bool) -> UpscaleStep {
    if !downloaded {
        UpscaleStep::NeedsDownload
    } else if upscaled {
        UpscaleStep::AlreadyUpscaled
    } else if !installed {
        UpscaleStep::OfferInstall
    } else {
        UpscaleStep::Run
    }
}

pub fn upscale_step(downloaded: bool, upscaled: bool, installed: bool) -> (r: UpscaleStep)
    ensures
        r == upscale_step_of(downloaded, upscaled, installed),
{
    if !downloaded {
        UpscaleStep::NeedsDownload
    } else if upscaled {
        UpscaleStep::AlreadyUpscaled
    } else if !installed {
        UpscaleStep::OfferInstall
    } else {
        UpscaleStep::Run
    }
}

/// What pressing the open key leads to.
pub enum OpenStep {
    /// Open this file in the system viewer.
    Open(String),
    /// The piece has no downloaded file yet.
    NeedsDownload,
    /// The recorded file is gone: nothing happens.
    Nothing,
}

/// The file of a piece opens when it is recorded and on disk; a piece with no
/// recorded file must be downloaded first.
pub fn open_step(local_path: &Option<String>, downloaded: bool) -> (r: OpenStep)
    ensures
        match local_path {
            None => r is NeedsDownload,
            Some(p) => if downloaded {
                r matches OpenStep::Open(q) && q == p
            } else {
                r is Nothing
            },
        },
{
    match local_path {
        None => OpenStep::NeedsDownload,
        Some(p) => if downloaded {
            OpenStep::Open(p.clone())
        } else {
            OpenStep::Nothing
        },
    }
}

// ── Laws of the list and the keys ───────────────────────────────────────────

/// Search by title or artist: a work of the catalog is listed exactly when it passes
/// the museum and technique filters and the lowercased query is empty or is found in
/// its lowercased title or in its lowercased artist.
pub proof fn lemma_search_by_title_or_artist(
    catalog: Seq<CatalogEntry>,
    source: MuseumSource,
    filter: Medium,
    query: Seq<char>,
    i: int,
)
    requires
        0 <= i < catalog.len(),
        catalog.len() <= usize::MAX + 1,
    ensures
        filtered_for(catalog, source, filter, query).contains(i as usize) <==> {
            &&& source_matches(source, catalog[i].source@)
            &&& medium_matches(filter, catalog[i].medium@)
            &&& {
                ||| spec_lowercase(query).len() == 0
                ||| has_substring(spec_lowercase(catalog[i].title@), spec_lowercase(query))
                ||| has_substring(spec_lowercase(catalog[i].artist@), spec_lowercase(query))
            }
        },
{
    let views = entry_views(catalog);
    let q = spec_lowercase(query);
    lemma_matching_exact(views, source, filter, q, views.len());
    let m = matching(views, source, filter, q, views.len());
    assert(views[i] == catalog[i]@);
    if m.contains(i as usize) {
        let k = choose|k: int| 0 <= k < m.len() && m[k] == i as usize;
        assert(m[k] < views.len());
        assert(passes(views[m[k] as int], source, filter, q));
    }
}

/// The quitting keys: on the browse screen `q`, Esc and Ctrl+C quit; on the detail
/// screen `q` and Ctrl+C quit, while Esc goes back to the list, keeping its page and
/// selection.
pub proof fn lemma_quit_keys(n: Nav, len: int, ps: int)
    ensures
        n.screen == Screen::Browse ==> step(n, len, Key::Char('q'), ps).1 == Command::Quit
            && step(n, len, Key::Esc, ps).1 == Command::Quit && step(n, len, Key::CtrlC, ps).1
            == Command::Quit,
        n.screen == Screen::Detail ==> step(n, len, Key::Char('q'), ps).1 == Command::Quit
            && step(n, len, Key::CtrlC, ps).1 == Command::Quit,
        n.screen == Screen::Detail ==> step(n, len, Key::Esc, ps) == (
            Nav { screen: Screen::Browse, ..n },
            Command::Redraw,
        ),
{
}

/// The command keys: on the browse screen `f` opens the filter menu, `/` the search
/// prompt and `a` the Google Arts & Culture prompt; on the detail screen `d`
/// downloads, `u` upscales, `o` opens the file, `c` configures and `a` adds a URL.
/// None of them moves the list.
pub proof fn lemma_command_keys(n: Nav, len: int, ps: int)
    ensures
        n.screen == Screen::Browse ==> step(n, len, Key::Char('f'), ps) == (n, Command::FilterMenu)
            && step(n, len, Key::Char('/'), ps) == (n, Command::Search) && step(
            n,
            len,
            Key::Char('a'),
            ps,
        ) == (n, Command::AddGac),
        n.screen == Screen::Detail ==> step(n, len, Key::Char('d'), ps) == (n, Command::Download)
            && step(n, len, Key::Char('u'), ps) == (n, Command::Upscale) && step(
            n,
            len,
            Key::Char('o'),
            ps,
        ) == (n, Command::OpenFile) && step(n, len, Key::Char('c'), ps) == (n, Command::Configure)
            && step(n, len, Key::Char('a'), ps) == (n, Command::AddGac),
{
}

/// Moving through the list: on the browse screen `k` moves the selection one down
/// and `j` one up while it stays on the page, `n` and `p` turn to the next and
/// previous page (selecting its first work) while there is one, and Enter opens the
/// selected work; on the detail screen showing list position `i`, `k` opens the next
/// work of the list and `j` the previous one while there is one.
pub proof fn lemma_moving_keys(n: Nav, len: int, ps: int, i: usize)
    requires
        1 <= ps <= usize::MAX,
        len >= 0,
    ensures
        n.screen == Screen::Browse && n.selected + 1 < page_items(len, n.page as int, ps) ==> step(
            n,
            len,
            Key::Char('k'),
            ps,
        ).0.selected == n.selected + 1,
        n.screen == Screen::Browse && n.selected > 0 ==> step(n, len, Key::Char('j'), ps).0.selected
            == n.selected - 1,
        n.screen == Screen::Browse && (n.page + 1) * ps < len ==> step(n, len, Key::Char('n'), ps).0
            == (Nav { page: (n.page + 1) as usize, selected: 0, ..n }),
        n.screen == Screen::Browse && n.page > 0 ==> step(n, len, Key::Char('p'), ps).0 == (Nav {
            page: (n.page - 1) as usize,
            selected: 0,
            ..n
        }),
        n.screen == Screen::Browse && n.page * ps + n.selected < len ==> step(n, len, Key::Enter, ps)
            == (
            Nav {
                screen: Screen::Detail,
                detail_idx: Some((n.page * ps + n.selected) as usize),
                ..n
            },
            Command::OpenDetail((n.page * ps + n.selected) as usize),
        ),
        n.screen == Screen::Detail && n.detail_idx == Some(i) && i + 1 < len ==> step(
            n,
            len,
            Key::Char('k'),
            ps,
        ).1 == Command::OpenDetail((i + 1) as usize),
        n.screen == Screen::Detail && n.detail_idx == Some(i) && i > 0 ==> step(
            n,
            len,
            Key::Char('j'),
            ps,
        ).1 == Command::OpenDetail((i - 1) as usize),
{
    if n.screen == Screen::Browse && (n.page + 1) * ps < len {
        let p = n.page + 1;
        assert(p <= (len - 1) / ps) by (nonlinear_arith)
            requires
                p * ps < len,
                ps >= 1,
                p >= 1,
        ;
    }
}

} // verus!

//! The unified catalog entry and the two browse filters (museum and technique).

use vstd::prelude::*;
use crate::text::{
    chars_of, has_substring, lemma_lex_asymmetric, lemma_lex_irreflexive, lemma_lex_total,
    lemma_lex_transitive, lex_less, lex_lt, lower_contains, same_text, spec_lowercase, to_lowercase,
};

verus! {

/// One artwork, whatever museum it comes from.
#[derive(Clone, Debug)]
pub struct CatalogEntry {
    pub source: String,
    pub id: String,
    pub title: String,
    pub artist: String,
    pub date: String,
    pub medium: String,
    pub thumb_url: String,
    pub full_image_url: String,
    pub web_url: String,
}

/// The text of each field of a catalog entry.
pub struct EntryView {
    pub source: Seq<char>,
    pub id: Seq<char>,
    pub title: Seq<char>,
    pub artist: Seq<char>,
    pub date: Seq<char>,
    pub medium: Seq<char>,
    pub thumb_url: Seq<char>,
    pub full_image_url: Seq<char>,
    pub web_url: Seq<char>,
}

impl View for CatalogEntry {
    type V = EntryView;

    open spec fn view(&self) -> EntryView {
        EntryView {
            source: self.source@,
            id: self.id@,
            title: self.title@,
            artist: self.artist@,
            date: self.date@,
            medium: self.medium@,
            thumb_url: self.thumb_url@,
            full_image_url: self.full_image_url@,
            web_url: self.web_url@,
        }
    }
}

impl CatalogEntry {
    /// A field-by-field copy.
    pub fn copy(&self) -> (r: CatalogEntry)
        ensures
            r == *self,
            r@ == self@,
    {
        CatalogEntry {
            source: self.source.clone(),
            id: self.id.clone(),
            title: self.title.clone(),
            artist: self.artist.clone(),
            date: self.date.clone(),
            medium: self.medium.clone(),
            thumb_url: self.thumb_url.clone(),
            full_image_url: self.full_image_url.clone(),
            web_url: self.web_url.clone(),
        }
    }
}

/// Which museum the browse list is restricted to.
#[derive(Clone, Copy, Debug, PartialEq, Eq, Structural)]
pub enum MuseumSource {
    All,
    AIC,
    Cleveland,
    Met,
    NationalGallery,
    Smithsonian,
    PalaceMuseum,
    ShanghaiMuseum,
    Namoc,
}

/// The label shown for a museum filter.
pub open spec fn source_label(s: MuseumSource) -> Seq<char> {
    match s {
        MuseumSource::All => "All"@,
        MuseumSource::AIC => "Art Inst. Chicago"@,
        MuseumSource::Cleveland => "Cleveland Museum"@,
        MuseumSource::Met => "The Met"@,
        MuseumSource::NationalGallery => "National Gallery"@,
        MuseumSource::Smithsonian => "Smithsonian"@,
        MuseumSource::PalaceMuseum => "Palace Museum"@,
        MuseumSource::ShanghaiMuseum => "Shanghai Museum"@,
        MuseumSource::Namoc => "Natl. Art Museum China"@,
    }
}

/// The `source` code that catalog entries of a museum carry (none for `All`).
pub open spec fn source_code(s: MuseumSource) -> Option<Seq<char>> {
    match s {
        MuseumSource::All => None,
        MuseumSource::AIC => Some("aic"@),
        MuseumSource::Cleveland => Some("cleveland"@),
        MuseumSource::Met => Some("met"@),
        MuseumSource::NationalGallery => Some("nga"@),
        MuseumSource::Smithsonian => Some("saam"@),
        MuseumSource::PalaceMuseum => Some("palace"@),
        MuseumSource::ShanghaiMuseum => Some("shanghai"@),
        MuseumSource::Namoc => Some("namoc"@),
    }
}

/// An entry passes a museum filter when the filter is `All` or names the entry's source.
pub open spec fn source_matches(s: MuseumSource, source: Seq<char>) -> bool {
    match source_code(s) {
        None => true,
        Some(code) => source == code,
    }
}

impl MuseumSource {
    pub fn label(&self) -> (r: &'static str)
        ensures
            r@ == source_label(*self),
    {
        match self {
            MuseumSource::All => "All",
            MuseumSource::AIC => "Art Inst. Chicago",
            MuseumSource::Cleveland => "Cleveland Museum",
            MuseumSource::Met => "The Met",
            MuseumSource::NationalGallery => "National Gallery",
            MuseumSource::Smithsonian => "Smithsonian",
            MuseumSource::PalaceMuseum => "Palace Museum",
            MuseumSource::ShanghaiMuseum => "Shanghai Museum",
            MuseumSource::Namoc => "Natl. Art Museum China",
        }
    }

    pub fn matches(&self, entry: &CatalogEntry) -> (r: bool)
        ensures
            r == source_matches(*self, entry.source@),
    {
        let src = entry.source.as_str();
        match self {
            MuseumSource::All => true,
            MuseumSource::AIC => same_text(src, "aic"),
            MuseumSource::Cleveland => same_text(src, "cleveland"),
            MuseumSource::Met => same_text(src, "met"),
            MuseumSource::NationalGallery => same_text(src, "nga"),
            MuseumSource::Smithsonian => same_text(src, "saam"),
            MuseumSource::PalaceMuseum => same_text(src, "palace"),
            MuseumSource::ShanghaiMuseum => same_text(src, "shanghai"),
            MuseumSource::Namoc => same_text(src, "namoc"),
        }
    }
}

/// Which technique the browse list is restricted to.
#[derive(Clone, Copy, Debug, PartialEq, Eq, Structural)]
pub enum Medium {
    All,
    Oil,
    Watercolor,
    Tempera,
    Ink,
    Chalk,
    Pastel,
}

pub open spec fn medium_label(m: Medium) -> Seq<char> {
    match m {
        Medium::All => "All"@,
        Medium::Oil => "Oil"@,
        Medium::Watercolor => "Watercolor"@,
        Medium::Tempera => "Tempera"@,
        Medium::Ink => "Ink"@,
        Medium::Chalk => "Chalk/Charcoal"@,
        Medium::Pastel => "Pastel"@,
    }
}

/// An entry passes a technique filter when its lowercased medium text names the technique.
pub open spec fn medium_matches(m: Medium, medium: Seq<char>) -> bool {
    let l = spec_lowercase(medium);
    match m {
        Medium::All => true,
        Medium::Oil => has_substring(l, "oil"@),
        Medium::Watercolor => has_substring(l, "watercolor"@) || has_substring(l, "gouache"@),
        Medium::Tempera => has_substring(l, "tempera"@),
        Medium::Ink => has_substring(l, "ink"@),
        Medium::Chalk => has_substring(l, "chalk"@) || has_substring(l, "charcoal"@)
            || has_substring(l, "crayon"@) || has_substring(l, "graphite"@),
        Medium::Pastel => has_substring(l, "pastel"@),
    }
}

impl Medium {
    pub fn matches(&self, entry: &CatalogEntry) -> (r: bool)
        ensures
            r == medium_matches(*self, entry.medium@),
    {
        let m = entry.medium.as_str();
        match self {
            Medium::All => true,
            Medium::Oil => lower_contains(m, "oil"),
            Medium::Watercolor => lower_contains(m, "watercolor") || lower_contains(m, "gouache"),
            Medium::Tempera => lower_contains(m, "tempera"),
            Medium::Ink => lower_contains(m, "ink"),
            Medium::Chalk => {
                lower_contains(m, "chalk") || lower_contains(m, "charcoal") || lower_contains(
                    m,
                    "crayon",
                ) || lower_contains(m, "graphite")
            },
            Medium::Pastel => lower_contains(m, "pastel"),
        }
    }

    pub fn label(&self) -> (r: &'static str)
        ensures
            r@ == medium_label(*self),
    {
        match self {
            Medium::All => "All",
            Medium::Oil => "Oil",
            Medium::Watercolor => "Watercolor",
            Medium::Tempera => "Tempera",
            Medium::Ink => "Ink",
            Medium::Chalk => "Chalk/Charcoal",
            Medium::Pastel => "Pastel",
        }
    }
}

/// The text of each entry in a list.
pub open spec fn entry_views(v: Seq<CatalogEntry>) -> Seq<EntryView> {
    v.map_values(|e: CatalogEntry| e@)
}

// ── Catalog order ───────────────────────────────────────────────────────────

/// The sort key of an entry: its lowercased title.
pub open spec fn title_key(e: EntryView) -> Seq<char> {
    spec_lowercase(e.title)
}

/// Entry `i` of `all` precedes entry `j` in catalog order: by lowercased title,
/// equal titles keeping the order they had.
pub open spec fn comes_before(all: Seq<EntryView>, i: int, j: int) -> bool {
    ||| lex_lt(title_key(all[i]), title_key(all[j]))
    ||| (title_key(all[i]) == title_key(all[j]) && i < j)
}

/// `order` lists positions of `all` (each at most once) in catalog order.
pub open spec fn sorted_positions(all: Seq<EntryView>, order: Seq<usize>) -> bool {
    &&& order.no_duplicates()
    &&& forall|k: int| 0 <= k < order.len() ==> order[k] < all.len()
    &&& forall|a: int, b: int|
        0 <= a < b < order.len() ==> comes_before(all, order[a] as int, order[b] as int)
}

/// `r` holds the entries of `all`, each once, stably sorted by lowercased title
/// (what `sort_by` on lowercased titles gives).
pub open spec fn sorted_by_title(all: Seq<EntryView>, r: Seq<EntryView>) -> bool {
    exists|order: Seq<usize>|
        #![trigger sorted_positions(all, order)]
        {
            &&& order.len() == all.len()
            &&& sorted_positions(all, order)
            &&& r == order.map_values(|k: usize| all[k as int])
        }
}

proof fn lemma_insert_sorted(all: Seq<EntryView>, order: Seq<usize>, p: int, i: usize)
    requires
        sorted_positions(all, order),
        i < all.len(),
        0 <= p <= order.len(),
        forall|q: int| 0 <= q < order.len() ==> order[q] < i,
        forall|q: int|
            0 <= q < p ==> !lex_lt(title_key(all[i as int]), title_key(all[order[q] as int])),
        p < order.len() ==> lex_lt(title_key(all[i as int]), title_key(all[order[p] as int])),
    ensures
        sorted_positions(all, order.insert(p, i)),
        forall|q: int| 0 <= q < order.len() + 1 ==> order.insert(p, i)[q] < i + 1,
{
    let next = order.insert(p, i);
    let ki = title_key(all[i as int]);
    assert forall|a: int, b: int| 0 <= a < b < next.len() implies comes_before(
        all,
        next[a] as int,
        next[b] as int,
    ) by {
        if a < p && b < p {
            assert(next[a] == order[a] && next[b] == order[b]);
        } else if a < p && b == p {
            let ka = title_key(all[order[a] as int]);
            lemma_lex_total(ki, ka);
        } else if a < p {
            assert(next[a] == order[a] && next[b] == order[b - 1]);
        } else if a == p {
            let kp = title_key(all[order[p] as int]);
            let kb = title_key(all[order[b - 1] as int]);
            if b - 1 > p {
                assert(comes_before(all, order[p] as int, order[b - 1] as int));
                if lex_lt(kp, kb) {
                    lemma_lex_transitive(ki, kp, kb);
                }
            }
        } else {
            assert(next[a] == order[a - 1] && next[b] == order[b - 1]);
        }
    }
    assert forall|x: int, y: int| 0 <= x < y < next.len() implies next[x] != next[y] by {
        if x < p && y == p {
        } else if x == p && y > p {
            assert(next[y] == order[y - 1]);
        } else if x < p && y > p {
            assert(next[y] == order[y - 1]);
        } else if x > p {
            assert(next[x] == order[x - 1] && next[y] == order[y - 1]);
        }
    }
}

/// The catalog sorted by lowercased title; works with equal titles keep their order.
pub fn sort_by_title(all: Vec<CatalogEntry>) -> (r: Vec<CatalogEntry>)
    ensures
        sorted_by_title(entry_views(all@), entry_views(r@)),
{
    let ghost views = entry_views(all@);
    let n = all.len();
    let mut keys: Vec<Vec<char>> = Vec::new();
    let mut i: usize = 0;
    while i < n
        invariant
            i <= n == all.len(),
            views == entry_views(all@),
            keys@.len() == i,
            forall|k: int| 0 <= k < i ==> #[trigger] keys@[k]@ == title_key(views[k]),
        decreases n - i,
    {
        let lower = to_lowercase(all[i].title.as_str());
        keys.push(chars_of(lower.as_str()));
        i += 1;
    }
    let mut order: Vec<usize> = Vec::new();
    let mut i: usize = 0;
    while i < n
        invariant
            i <= n == all.len() == keys@.len(),
            views == entry_views(all@),
            forall|k: int| 0 <= k < n ==> #[trigger] keys@[k]@ == title_key(views[k]),
            order@.len() == i,
            sorted_positions(views, order@),
            forall|q: int| 0 <= q < order@.len() ==> order@[q] < i,
        decreases n - i,
    {
        let mut p: usize = 0;
        while p < order.len() && !lex_less(&keys[i], &keys[order[p]])
            invariant
                p <= order@.len(),
                i < n == all.len() == keys@.len(),
                sorted_positions(views, order@),
                forall|q: int| 0 <= q < order@.len() ==> order@[q] < i,
                forall|k: int| 0 <= k < n ==> #[trigger] keys@[k]@ == title_key(views[k]),
                forall|q: int|
                    0 <= q < p ==> !lex_lt(
                        title_key(views[i as int]),
                        title_key(views[order@[q] as int]),
                    ),
            decreases order@.len() - p,
        {
            assert(keys@[order@[p as int] as int]@ == title_key(views[order@[p as int] as int]));
            assert(keys@[i as int]@ == title_key(views[i as int]));
            p += 1;
        }
        proof {
            lemma_insert_sorted(views, order@, p as int, i);
        }
        order.insert(p, i);
        i += 1;
    }
    let mut r: Vec<CatalogEntry> = Vec::new();
    let mut k: usize = 0;
    while k < n
        invariant
            k <= n == all.len() == order@.len(),
            views == entry_views(all@),
            forall|q: int| 0 <= q < order@.len() ==> order@[q] < n,
            entry_views(r@) == order@.take(k as int).map_values(|x: usize| views[x as int]),
        decreases n - k,
    {
        let e = all[order[k]].copy();
        assert(views[order@[k as int] as int] == e@);
        let ghost before = entry_views(r@);
        r.push(e);
        assert(entry_views(r@) =~= before.push(e@));
        k += 1;
        assert(entry_views(r@) =~= order@.take(k as int).map_values(|x: usize| views[x as int]));
    }
    assert(order@.take(n as int) =~= order@);
    r
}

/// All museums' works in one catalog, in catalog order.
pub fn combine_catalogs(
    aic: Vec<CatalogEntry>,
    cleveland: Vec<CatalogEntry>,
    met: Vec<CatalogEntry>,
    wikidata: Vec<CatalogEntry>,
    namoc: Vec<CatalogEntry>,
) -> (r: Vec<CatalogEntry>)
    ensures
        sorted_by_title(
            entry_views(aic@ + cleveland@ + met@ + wikidata@ + namoc@),
            entry_views(r@),
        ),
{
    let mut all = aic;
    let mut cleveland = cleveland;
    let mut met = met;
    let mut wikidata = wikidata;
    let mut namoc = namoc;
    all.append(&mut cleveland);
    all.append(&mut met);
    all.append(&mut wikidata);
    all.append(&mut namoc);
    sort_by_title(all)
}

/// The museum filter: `All` lets every work through; each museum lets through
/// exactly the works whose source code is its own (`aic`, `cleveland`, `met`, `nga`,
/// `saam`, `palace`, `shanghai`, `namoc`).
pub proof fn lemma_source_filter(source: Seq<char>)
    ensures
        source_matches(MuseumSource::All, source),
        source_matches(MuseumSource::AIC, source) <==> source == "aic"@,
        source_matches(MuseumSource::Cleveland, source) <==> source == "cleveland"@,
        source_matches(MuseumSource::Met, source) <==> source == "met"@,
        source_matches(MuseumSource::NationalGallery, source) <==> source == "nga"@,
        source_matches(MuseumSource::Smithsonian, source) <==> source == "saam"@,
        source_matches(MuseumSource::PalaceMuseum, source) <==> source == "palace"@,
        source_matches(MuseumSource::ShanghaiMuseum, source) <==> source == "shanghai"@,
        source_matches(MuseumSource::Namoc, source) <==> source == "namoc"@,
{
}

/// The technique filter reads the lowercased medium text: oil; watercolor or
/// gouache; tempera; ink; chalk, charcoal, crayon or graphite; pastel; `All` lets
/// every work through.
pub proof fn lemma_technique_filter(medium: Seq<char>)
    ensures
        ({
            let l = spec_lowercase(medium);
            &&& medium_matches(Medium::All, medium)
            &&& medium_matches(Medium::Oil, medium) <==> has_substring(l, "oil"@)
            &&& medium_matches(Medium::Watercolor, medium) <==> (has_substring(l, "watercolor"@)
                || has_substring(l, "gouache"@))
            &&& medium_matches(Medium::Tempera, medium) <==> has_substring(l, "tempera"@)
            &&& medium_matches(Medium::Ink, medium) <==> has_substring(l, "ink"@)
            &&& medium_matches(Medium::Chalk, medium) <==> (has_substring(l, "chalk"@)
                || has_substring(l, "charcoal"@) || has_substring(l, "crayon"@) || has_substring(
                l,
                "graphite"@,
            ))
            &&& medium_matches(Medium::Pastel, medium) <==> has_substring(l, "pastel"@)
        }),
{
}

} // verus!

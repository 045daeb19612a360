//! The local collection: pieces (artworks opened in detail view), their file names,
//! and the decisions around downloading and upscaling them.

use vstd::prelude::*;
use crate::catalog::CatalogEntry;
use crate::museums::decimal_string;
use crate::text::{cat, chars_of, concat, decimal, last_index, last_pos, slice, string_of};

verus! {

/// Width of a 5K display.
pub const FIVE_K_W: u32 = 5120;

/// Height of a 5K display.
pub const FIVE_K_H: u32 = 2880;

/// An artwork of the local collection.
#[derive(Clone, Debug)]
pub struct Piece {
    pub url: String,
    pub title: String,
    pub artist: String,
    pub thumb_url: String,
    pub image_base: String,
    pub primary_image: String,
    pub local_path: Option<String>,
    pub resolution: Option<[u32; 2]>,
    pub upscaled: bool,
}

/// `char::is_alphanumeric` (Unicode `Alphabetic` or `Numeric`).
pub uninterp spec fn spec_is_alphanumeric(c: char) -> bool;

/// `char::is_alphanumeric`: Unicode `Alphabetic` or `Numeric`, which among ASCII
/// characters are exactly the letters and digits.
#[verifier::external_body]
pub(crate) fn is_alphanumeric(c: char) -> (r: bool)
    ensures
        r == spec_is_alphanumeric(c),
        (c as u32) < 128 ==> (r <==> (('a' <= c && c <= 'z') || ('A' <= c && c <= 'Z') || (
        '0' <= c && c <= '9'))),
{
    c.is_alphanumeric()
}

/// `Path::exists`: whether something is on disk at `path` right now.
#[verifier::external_body]
pub(crate) fn path_exists(path: &str) -> bool {
    std::path::Path::new(path).exists()
}

/// A character kept in file names; everything else becomes `_`.
pub open spec fn slug_char(c: char) -> char {
    if spec_is_alphanumeric(c) || c == '-' {
        c
    } else {
        '_'
    }
}

/// At most the first 60 characters of a title, each made safe for a file name.
pub open spec fn slug(title: Seq<char>) -> Seq<char> {
    let t = if title.len() > 60 {
        title.take(60)
    } else {
        title
    };
    t.map_values(|c: char| slug_char(c))
}

/// The length in bytes of the UTF-8 form of a string (`str::len`).
pub open spec fn byte_len(s: Seq<char>) -> nat {
    (vstd::utf8::encode_utf8(s).len() as usize) as nat
}

/// The file-name stem of a piece: its slug, `__`, and its URL's byte length modulo 10000.
pub open spec fn safe_name_of(title: Seq<char>, url: Seq<char>) -> Seq<char> {
    slug(title) + "__"@ + decimal(byte_len(url) % 10000)
}

/// A piece that needs upscaling: its resolution is known, below 5K in both
/// dimensions, and it was not upscaled yet.
pub open spec fn below_5k(resolution: Option<[u32; 2]>, upscaled: bool) -> bool {
    match resolution {
        Some(r) => r[0] < FIVE_K_W && r[1] < FIVE_K_H && !upscaled,
        None => false,
    }
}

impl Piece {
    /// The piece that a catalog entry opens in detail view.
    pub fn from_entry(e: &CatalogEntry) -> (r: Piece)
        ensures
            r.url@ == e.web_url@,
            r.title@ == e.title@,
            r.artist@ == e.artist@,
            r.thumb_url@ == e.thumb_url@,
            r.primary_image@ == e.full_image_url@,
            r.image_base@ == Seq::<char>::empty(),
            r.local_path is None,
            r.resolution is None,
            !r.upscaled,
    {
        Piece {
            url: e.web_url.clone(),
            title: e.title.clone(),
            artist: e.artist.clone(),
            thumb_url: e.thumb_url.clone(),
            image_base: String::new(),
            primary_image: e.full_image_url.clone(),
            local_path: None,
            resolution: None,
            upscaled: false,
        }
    }

    /// Whether the piece's downloaded file is on disk.
    pub fn is_downloaded(&self) -> (r: bool)
        ensures
            r ==> self.local_path is Some,
    {
        match &self.local_path {
            Some(p) => path_exists(p.as_str()),
            None => false,
        }
    }

    pub fn needs_upscale(&self) -> (r: bool)
        ensures
            r == below_5k(self.resolution, self.upscaled),
    {
        match self.resolution {
            Some(r) => r[0] < FIVE_K_W && r[1] < FIVE_K_H && !self.upscaled,
            None => false,
        }
    }

    /// A field-by-field copy.
    pub fn copy(&self) -> (r: Piece)
        ensures
            r == *self,
    {
        Piece {
            url: self.url.clone(),
            title: self.title.clone(),
            artist: self.artist.clone(),
            thumb_url: self.thumb_url.clone(),
            image_base: self.image_base.clone(),
            primary_image: self.primary_image.clone(),
            local_path: match &self.local_path {
                Some(p) => Some(p.clone()),
                None => None,
            },
            resolution: self.resolution,
            upscaled: self.upscaled,
        }
    }
}

/// The file-name stem under which a piece's files are kept.
pub fn safe_name(piece: &Piece) -> (r: String)
    ensures
        r@ == safe_name_of(piece.title@, piece.url@),
{
    let t = chars_of(piece.title.as_str());
    let n = if t.len() > 60 {
        60
    } else {
        t.len()
    };
    let ghost taken = if t@.len() > 60 {
        t@.take(60)
    } else {
        t@
    };
    let mut out: Vec<char> = Vec::new();
    let mut i: usize = 0;
    while i < n
        invariant
            i <= n <= t@.len(),
            taken == t@.take(n as int),
            out@ == taken.take(i as int).map_values(|c: char| slug_char(c)),
        decreases n - i,
    {
        let c = t[i];
        out.push(if is_alphanumeric(c) || c == '-' { c } else { '_' });
        i += 1;
        assert(out@ =~= taken.take(i as int).map_values(|c: char| slug_char(c)));
    }
    assert(taken.take(n as int) =~= taken);
    let bytes = piece.url.as_str().len();
    let slug_text = string_of(&out);
    assert(slug_text@ == slug(piece.title@));
    let stem = cat(slug_text.as_str(), "__");
    let num = decimal_string((bytes % 10000) as u64);
    cat(stem.as_str(), num.as_str())
}

/// `dir` joined with a relative file name, as `Path::join` does it on Unix.
pub open spec fn join_path(dir: Seq<char>, name: Seq<char>) -> Seq<char> {
    if dir.len() == 0 {
        name
    } else if dir.last() == '/' {
        dir + name
    } else {
        dir + "/"@ + name
    }
}

pub fn join(dir: &str, name: &str) -> (r: String)
    ensures
        r@ == join_path(dir@, name@),
{
    let d = chars_of(dir);
    if d.len() == 0 {
        String::from_str(name)
    } else if d[d.len() - 1] == '/' {
        cat(dir, name)
    } else {
        let with_sep = cat(dir, "/");
        cat(with_sep.as_str(), name)
    }
}

/// The cached preview of a piece (a downscaled copy of its download).
pub open spec fn preview_file(piece: Piece) -> Seq<char> {
    safe_name_of(piece.title@, piece.url@) + "_preview.jpg"@
}

/// The cached thumbnail of a piece.
pub open spec fn thumb_file(piece: Piece) -> Seq<char> {
    safe_name_of(piece.title@, piece.url@) + "_thumb.jpg"@
}

pub fn preview_file_name(piece: &Piece) -> (r: String)
    ensures
        r@ == preview_file(*piece),
{
    cat(safe_name(piece).as_str(), "_preview.jpg")
}

pub fn thumb_file_name(piece: &Piece) -> (r: String)
    ensures
        r@ == thumb_file(*piece),
{
    cat(safe_name(piece).as_str(), "_thumb.jpg")
}

/// Which image to show for a piece: its cached preview, else its cached thumbnail,
/// else its downloaded file, given which of them are on disk.
pub open spec fn preview_choice(
    piece: Piece,
    cache_dir: Seq<char>,
    preview_exists: bool,
    thumb_exists: bool,
    downloaded: bool,
) -> Option<Seq<char>> {
    if preview_exists {
        Some(join_path(cache_dir, preview_file(piece)))
    } else if thumb_exists {
        Some(join_path(cache_dir, thumb_file(piece)))
    } else if downloaded {
        match piece.local_path {
            Some(p) => Some(p@),
            None => None,
        }
    } else {
        None
    }
}

pub open spec fn opt_view(o: Option<String>) -> Option<Seq<char>> {
    match o {
        Some(s) => Some(s@),
        None => None,
    }
}

/// The image to show for a piece, given which files are on disk.
pub fn choose_preview(
    piece: &Piece,
    cache_dir: &str,
    preview_exists: bool,
    thumb_exists: bool,
    downloaded: bool,
) -> (r: Option<String>)
    ensures
        opt_view(r) == preview_choice(*piece, cache_dir@, preview_exists, thumb_exists, downloaded),
{
    if preview_exists {
        Some(join(cache_dir, preview_file_name(piece).as_str()))
    } else if thumb_exists {
        Some(join(cache_dir, thumb_file_name(piece).as_str()))
    } else if downloaded {
        match &piece.local_path {
            Some(p) => Some(p.clone()),
            None => None,
        }
    } else {
        None
    }
}

// ── Gallery ─────────────────────────────────────────────────────────────────

/// Settings kept between runs.
#[derive(Clone, Debug)]
pub struct Config {
    pub download_dir: String,
}

/// The local collection and its settings.
pub struct Gallery {
    pub pieces: Vec<Piece>,
    pub config: Config,
}

/// `k` is the first piece whose URL is `url`, or `-1`.
pub open spec fn is_piece_index(pieces: Seq<Piece>, url: Seq<char>, k: int) -> bool {
    &&& -1 <= k < pieces.len()
    &&& k >= 0 ==> pieces[k].url@ == url
    &&& forall|j: int| 0 <= j < pieces.len() && (k == -1 || j < k) ==> #[trigger] pieces[j].url@ != url
}

pub open spec fn piece_index(pieces: Seq<Piece>, url: Seq<char>) -> int {
    choose|k: int| is_piece_index(pieces, url, k)
}

/// No two pieces share a URL.
pub open spec fn distinct_pieces(pieces: Seq<Piece>) -> bool {
    forall|i: int, j: int| 0 <= i < j < pieces.len() ==> pieces[i].url@ != pieces[j].url@
}

pub proof fn lemma_piece_index(pieces: Seq<Piece>, url: Seq<char>, k: int)
    requires
        is_piece_index(pieces, url, k),
    ensures
        piece_index(pieces, url) == k,
{
    let c = piece_index(pieces, url);
    assert(is_piece_index(pieces, url, c));
    if c >= 0 && k >= 0 {
        if c < k {
            assert(pieces[c].url@ != url);
        } else if k < c {
            assert(pieces[k].url@ != url);
        }
    } else if c >= 0 {
        assert(pieces[c].url@ != url);
    } else if k >= 0 {
        assert(pieces[k].url@ != url);
    }
}

impl Gallery {
    /// Position of the first piece with the given URL.
    pub fn find_by_url(&self, url: &str) -> (r: Option<usize>)
        ensures
            match r {
                Some(k) => piece_index(self.pieces@, url@) == k as int && k < self.pieces@.len()
                    && self.pieces@[k as int].url@ == url@,
                None => piece_index(self.pieces@, url@) == -1,
            },
    {
        let mut i: usize = 0;
        while i < self.pieces.len()
            invariant
                i <= self.pieces@.len(),
                forall|j: int| 0 <= j < i ==> #[trigger] self.pieces@[j].url@ != url@,
            decreases self.pieces@.len() - i,
        {
            if crate::text::same_text(self.pieces[i].url.as_str(), url) {
                proof {
                    lemma_piece_index(self.pieces@, url@, i as int);
                }
                return Some(i);
            }
            i += 1;
        }
        proof {
            lemma_piece_index(self.pieces@, url@, -1);
        }
        None
    }

    /// Position of the piece with `piece`'s URL, appending `piece` when there is none.
    /// (The caller saves the collection when it grew.)
    pub fn get_or_insert(&mut self, piece: Piece) -> (r: usize)
        ensures
            final(self).config == old(self).config,
            piece_index(old(self).pieces@, piece.url@) >= 0 ==> final(self).pieces@ == old(
                self,
            ).pieces@ && r == piece_index(old(self).pieces@, piece.url@),
            piece_index(old(self).pieces@, piece.url@) == -1 ==> final(self).pieces@ == old(
                self,
            ).pieces@.push(piece) && r == old(self).pieces@.len(),
            r < final(self).pieces@.len(),
            final(self).pieces@[r as int].url@ == piece.url@,
    {
        match self.find_by_url(piece.url.as_str()) {
            Some(idx) => idx,
            None => {
                self.pieces.push(piece);
                self.pieces.len() - 1
            },
        }
    }

    /// The image to show for a piece: its cached preview or thumbnail under
    /// `cache_dir`, else its downloaded file, whichever is found on disk first. What is
    /// on disk is not known here, so the result is the choice for some answer of the disk.
    pub fn preview_path(&self, piece: &Piece, cache_dir: &str) -> (r: Option<String>)
        ensures
            exists|preview_exists: bool, thumb_exists: bool, downloaded: bool|
                opt_view(r) == #[trigger] preview_choice(
                    *piece,
                    cache_dir@,
                    preview_exists,
                    thumb_exists,
                    downloaded,
                ),
    {
        let preview = join(cache_dir, preview_file_name(piece).as_str());
        let preview_exists = path_exists(preview.as_str());
        let thumb_exists = if preview_exists {
            false
        } else {
            path_exists(join(cache_dir, thumb_file_name(piece).as_str()).as_str())
        };
        let downloaded = if preview_exists || thumb_exists {
            false
        } else {
            piece.is_downloaded()
        };
        let r = choose_preview(piece, cache_dir, preview_exists, thumb_exists, downloaded);
        assert(opt_view(r) == preview_choice(
            *piece,
            cache_dir@,
            preview_exists,
            thumb_exists,
            downloaded,
        ));
        r
    }
}

/// Adding a piece through `get_or_insert` never lists a URL twice, and adding the
/// same piece again changes nothing.
pub proof fn lemma_get_or_insert_distinct(pieces: Seq<Piece>, piece: Piece)
    requires
        distinct_pieces(pieces),
    ensures
        ({
            let k = piece_index(pieces, piece.url@);
            let next = if k >= 0 {
                pieces
            } else {
                pieces.push(piece)
            };
            &&& distinct_pieces(next)
            &&& piece_index(next, piece.url@) >= 0
        }),
{
    lemma_first_piece_exists(pieces, piece.url@);
    let k = piece_index(pieces, piece.url@);
    if k < 0 {
        let next = pieces.push(piece);
        assert(is_piece_index(next, piece.url@, pieces.len() as int));
        lemma_piece_index(next, piece.url@, pieces.len() as int);
    }
}

proof fn lemma_first_piece_exists(pieces: Seq<Piece>, url: Seq<char>)
    ensures
        is_piece_index(pieces, url, piece_index(pieces, url)),
{
    lemma_some_piece_index(pieces, url);
}

proof fn lemma_some_piece_index(pieces: Seq<Piece>, url: Seq<char>)
    ensures
        exists|k: int| is_piece_index(pieces, url, k),
    decreases pieces.len(),
{
    if pieces.len() > 0 {
        let init = pieces.drop_last();
        lemma_some_piece_index(init, url);
        let k = choose|k: int| is_piece_index(init, url, k);
        assert forall|j: int| 0 <= j < init.len() implies #[trigger] pieces[j].url@ == init[j].url@ by {
            assert(pieces[j] == init[j]);
        }
        if k >= 0 {
            assert(is_piece_index(pieces, url, k));
        } else if pieces.last().url@ == url {
            assert(is_piece_index(pieces, url, pieces.len() - 1));
        } else {
            assert(is_piece_index(pieces, url, -1));
        }
    } else {
        assert(is_piece_index(pieces, url, -1));
    }
}

// ── Downloading and upscaling ───────────────────────────────────────────────

/// Where the full image of a piece comes from.
pub enum DownloadPlan {
    /// Its file is already on disk.
    AlreadyDownloaded,
    /// A museum's full-size image URL.
    Direct(String),
    /// A deep-zoom page, with a plain full-size URL to fall back on.
    Zoom { page: String, fallback: String },
    /// Nothing can be downloaded.
    Unavailable,
}

/// The download route of a piece: nothing when it is on disk; its primary image when
/// it has one; else its deep-zoom page with `image_base=s0` as fallback; else nothing.
pub fn download_plan(piece: &Piece, downloaded: bool) -> (r: DownloadPlan)
    ensures
        match r {
            DownloadPlan::AlreadyDownloaded => downloaded,
            DownloadPlan::Direct(u) => !downloaded && piece.primary_image@.len() != 0 && u@
                == piece.primary_image@,
            DownloadPlan::Zoom { page, fallback } => !downloaded && piece.primary_image@.len() == 0
                && piece.image_base@.len() != 0 && page@ == piece.url@ && fallback@
                == piece.image_base@ + "=s0"@,
            DownloadPlan::Unavailable => !downloaded && piece.primary_image@.len() == 0
                && piece.image_base@.len() == 0,
        },
{
    if downloaded {
        DownloadPlan::AlreadyDownloaded
    } else if !piece.primary_image.as_str().is_empty() {
        DownloadPlan::Direct(piece.primary_image.clone())
    } else if !piece.image_base.as_str().is_empty() {
        DownloadPlan::Zoom {
            page: piece.url.clone(),
            fallback: cat(piece.image_base.as_str(), "=s0"),
        }
    } else {
        DownloadPlan::Unavailable
    }
}

/// A downloaded file counts when it could be read and holds more than 1000 bytes;
/// `size` is its length, `None` when it is missing or unreadable.
pub fn file_is_valid(size: Option<u64>) -> (r: bool)
    ensures
        r == (size matches Some(n) && n > 1000),
{
    match size {
        Some(n) => n > 1000,
        None => false,
    }
}

/// The file name of the `attempt`-th try at a free download name:
/// `name.jpg`, then `name_1.jpg`, `name_2.jpg`, …
pub open spec fn download_file(name: Seq<char>, attempt: u64) -> Seq<char> {
    if attempt == 0 {
        name + ".jpg"@
    } else {
        name + "_"@ + decimal(attempt as nat) + ".jpg"@
    }
}

pub fn download_file_name(name: &str, attempt: u64) -> (r: String)
    ensures
        r@ == download_file(name@, attempt),
{
    if attempt == 0 {
        cat(name, ".jpg")
    } else {
        let a = cat(name, "_");
        let b = cat(a.as_str(), decimal_string(attempt).as_str());
        cat(b.as_str(), ".jpg")
    }
}

/// After asking whether the name of attempt `attempt` is taken: the next attempt
/// while it is taken, nothing once a free name is found (or the numbers run out).
pub fn next_download_attempt(attempt: u64, taken: bool) -> (r: Option<u64>)
    ensures
        r == if taken && attempt < u64::MAX {
            Some((attempt + 1) as u64)
        } else {
            None
        },
{
    if taken && attempt < u64::MAX {
        Some(attempt + 1)
    } else {
        None
    }
}

/// The file a download goes to in `dir`: the first of `name.jpg`, `name_1.jpg`,
/// `name_2.jpg`, … that the disk reports free, so that no download overwrites a
/// file. Also gives the disk's answers, one per name tried (`true`: taken): every
/// name before the chosen one was reported taken, and the chosen one free (unless
/// the numbers ran out).
pub fn free_download_path(dir: &str, name: &str) -> (r: (String, Vec<bool>))
    ensures
        r.1@.len() >= 1,
        r.1@.len() - 1 <= u64::MAX,
        forall|j: int| 0 <= j < r.1@.len() - 1 ==> r.1@[j],
        !r.1@[r.1@.len() - 1] || r.1@.len() - 1 == u64::MAX,
        r.0@ == join_path(dir@, download_file(name@, (r.1@.len() - 1) as u64)),
{
    let mut attempt: u64 = 0;
    let mut answers: Vec<bool> = Vec::new();
    loop
        invariant
            answers@.len() == attempt,
            forall|j: int| 0 <= j < answers@.len() ==> answers@[j],
        decreases u64::MAX - attempt,
    {
        let path = join(dir, download_file_name(name, attempt).as_str());
        let taken = path_exists(path.as_str());
        answers.push(taken);
        match next_download_attempt(attempt, taken) {
            Some(next) => {
                attempt = next;
            },
            None => {
                return (path, answers);
            },
        }
    }
}

/// Width and height as `W×H`.
pub open spec fn dimensions_text(w: u32, h: u32) -> Seq<char> {
    decimal(w as nat) + "\u{00d7}"@ + decimal(h as nat)
}

pub fn dimensions(w: u32, h: u32) -> (r: String)
    ensures
        r@ == dimensions_text(w, h),
{
    let a = cat(decimal_string(w as u64).as_str(), "\u{00d7}");
    cat(a.as_str(), decimal_string(h as u64).as_str())
}

/// The status after a successful download, with a hint when the image is below 5K.
pub open spec fn downloaded_message(w: u32, h: u32, below: bool) -> Seq<char> {
    "Downloaded: "@ + dimensions_text(w, h) + if below {
        "  [below 5K \u{2014} press u to upscale]"@
    } else {
        Seq::empty()
    }
}

/// Records a finished download of `w`×`h` pixels at `path` and gives the status line.
pub fn record_download(piece: &mut Piece, path: String, w: u32, h: u32) -> (msg: String)
    ensures
        final(piece).local_path == Some(path),
        final(piece).resolution == Some([w, h]),
        final(piece).url == old(piece).url,
        final(piece).title == old(piece).title,
        final(piece).artist == old(piece).artist,
        final(piece).thumb_url == old(piece).thumb_url,
        final(piece).image_base == old(piece).image_base,
        final(piece).primary_image == old(piece).primary_image,
        final(piece).upscaled == old(piece).upscaled,
        msg@ == downloaded_message(w, h, below_5k(Some([w, h]), old(piece).upscaled)),
{
    piece.local_path = Some(path);
    piece.resolution = Some([w, h]);
    let base = cat("Downloaded: ", dimensions(w, h).as_str());
    if piece.needs_upscale() {
        cat(base.as_str(), "  [below 5K \u{2014} press u to upscale]")
    } else {
        assert(base@ + Seq::<char>::empty() =~= base@);
        base
    }
}

/// Records a finished upscale to `w`×`h` pixels at `path` and gives the status line.
pub fn record_upscale(piece: &mut Piece, path: String, w: u32, h: u32) -> (msg: String)
    ensures
        final(piece).local_path == Some(path),
        final(piece).resolution == Some([w, h]),
        final(piece).upscaled,
        final(piece).url == old(piece).url,
        final(piece).title == old(piece).title,
        final(piece).artist == old(piece).artist,
        final(piece).thumb_url == old(piece).thumb_url,
        final(piece).image_base == old(piece).image_base,
        final(piece).primary_image == old(piece).primary_image,
        msg@ == "Upscaled: "@ + dimensions_text(w, h),
{
    piece.local_path = Some(path);
    piece.resolution = Some([w, h]);
    piece.upscaled = true;
    cat("Upscaled: ", dimensions(w, h).as_str())
}

/// An upscaled piece no longer needs upscaling.
pub proof fn lemma_upscaled_is_done(resolution: Option<[u32; 2]>)
    ensures
        !below_5k(resolution, true),
{
}

/// A piece added from a Google Arts & Culture page: its URL, and the title, artist,
/// thumbnail URL and image base URL read from the page; nothing downloaded yet.
pub fn gac_piece(url: String, meta: (String, String, String, String)) -> (r: Piece)
    ensures
        r.url == url,
        r.title == meta.0,
        r.artist == meta.1,
        r.thumb_url == meta.2,
        r.image_base == meta.3,
        r.primary_image@ == Seq::<char>::empty(),
        r.local_path is None,
        r.resolution is None,
        !r.upscaled,
{
    let (title, artist, thumb_url, image_base) = meta;
    Piece {
        url,
        title,
        artist,
        thumb_url,
        image_base,
        primary_image: String::new(),
        local_path: None,
        resolution: None,
        upscaled: false,
    }
}

/// Where the upscaled copy of the file at `input` goes: beside it, named
/// `{stem}_2x.{extension}` (`Path::file_stem`, `Path::extension`, `Path::with_file_name`;
/// a name whose only dot leads has no extension).
pub open spec fn upscaled_path_spec(input: Seq<char>) -> Seq<char> {
    let slash = last_pos(input, '/');
    let dir = input.take(slash + 1);
    let name = input.skip(slash + 1);
    let dot = last_pos(name, '.');
    let (stem, ext) = if dot <= 0 {
        (name, Seq::empty())
    } else {
        (name.take(dot), name.skip(dot + 1))
    };
    dir + stem + "_2x."@ + ext
}

pub fn upscaled_path(input: &str) -> (r: String)
    ensures
        r@ == upscaled_path_spec(input@),
{
    let v = chars_of(input);
    let cut: usize = match last_index(&v, '/') {
        Some(i) => i + 1,
        None => 0,
    };
    let dir = slice(&v, 0, cut);
    let name = slice(&v, cut, v.len());
    assert(dir@ =~= v@.take(last_pos(v@, '/') + 1));
    assert(name@ =~= v@.skip(last_pos(v@, '/') + 1));
    let (stem, ext) = match last_index(&name, '.') {
        Some(d) => {
            if d == 0 {
                (name.clone(), Vec::new())
            } else {
                let st = slice(&name, 0, d);
                let ex = slice(&name, d + 1, name.len());
                assert(st@ =~= name@.take(d as int));
                assert(ex@ =~= name@.skip(d + 1));
                (st, ex)
            }
        },
        None => (name.clone(), Vec::new()),
    };
    let a = concat(&dir, &stem);
    let b = concat(&a, &chars_of("_2x."));
    let c = concat(&b, &ext);
    string_of(&c)
}

} // verus!

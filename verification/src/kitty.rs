//! Terminal escape sequences: colours and the Kitty graphics protocol.

use vstd::prelude::*;
use crate::text::{cat, chars_of, concat, slice, string_of};
use base64::Engine;

verus! {

pub const RST: &'static str = "\x1b[0m";

pub const BOLD: &'static str = "\x1b[1m";

pub const DIM: &'static str = "\x1b[90m";

pub const GREEN: &'static str = "\x1b[32m";

pub const YELLOW: &'static str = "\x1b[33m";

pub const CYAN: &'static str = "\x1b[36m";

pub const INV: &'static str = "\x1b[7m";

/// The graphics command that deletes every image the terminal shows (`a=d`).
pub fn kitty_clear() -> (r: &'static str)
    ensures
        r@ == seq!['\x1b', '_', 'G', 'a', '=', 'd', ';', '\x1b', '\\'],
{
    proof {
        reveal_strlit("\x1b_Ga=d;\x1b\\");
    }
    "\x1b_Ga=d;\x1b\\"
}

/// Base64 characters sent per graphics command.
pub const CHUNK: usize = 4096;

/// The character of a 6-bit value in the standard base64 alphabet (RFC 4648):
/// `A`–`Z`, `a`–`z`, `0`–`9`, `+`, `/`.
pub open spec fn b64_digit(v: int) -> char {
    if v < 26 {
        (65 + v) as char
    } else if v < 52 {
        (97 + v - 26) as char
    } else if v < 62 {
        (48 + v - 52) as char
    } else if v == 62 {
        '+'
    } else {
        '/'
    }
}

/// Standard base64 with padding (RFC 4648): every three bytes become four
/// characters of six bits each; a last group of one or two bytes is padded with `=`.
pub open spec fn base64_standard(d: Seq<u8>) -> Seq<char>
    decreases d.len(),
{
    if d.len() == 0 {
        Seq::empty()
    } else if d.len() == 1 {
        seq![b64_digit(d[0] as int / 4), b64_digit((d[0] as int % 4) * 16), '=', '=']
    } else if d.len() == 2 {
        seq![
            b64_digit(d[0] as int / 4),
            b64_digit((d[0] as int % 4) * 16 + d[1] as int / 16),
            b64_digit((d[1] as int % 16) * 4),
            '=',
        ]
    } else {
        seq![
            b64_digit(d[0] as int / 4),
            b64_digit((d[0] as int % 4) * 16 + d[1] as int / 16),
            b64_digit((d[1] as int % 16) * 4 + d[2] as int / 64),
            b64_digit(d[2] as int % 64),
        ] + base64_standard(d.skip(3))
    }
}

/// `base64::engine::general_purpose::STANDARD.encode`: standard base64 with padding,
/// as `base64_standard` spells it out. It panics only when the output length
/// overflows `usize`, which `requires` leaves out.
#[verifier::external_body]
fn base64_encode(data: &[u8]) -> (r: String)
    requires
        data@.len() / 3 * 4 + 4 <= usize::MAX,
    ensures
        r@ == base64_standard(data@),
{
    base64::engine::general_purpose::STANDARD.encode(data)
}

/// The piece of at most `CHUNK` characters of `b64` that starts at `at`.
pub open spec fn chunk_at(b64: Seq<char>, at: nat) -> Seq<char> {
    let end = if at + CHUNK < b64.len() {
        at + CHUNK
    } else {
        b64.len() as int
    };
    b64.subrange(at as int, end)
}

/// The graphics command that carries the piece starting at `at`: the first one asks
/// to transmit and show a PNG (`f=100,a=T`), and `m=1` announces that more follow.
pub open spec fn frame(b64: Seq<char>, at: nat) -> Seq<char> {
    (if at == 0 {
        "\x1b_Gf=100,a=T,m="@
    } else {
        "\x1b_Gm="@
    }) + (if at + CHUNK < b64.len() {
        "1"@
    } else {
        "0"@
    }) + ";"@ + chunk_at(b64, at) + "\x1b\\"@
}

/// The commands for the pieces of `b64` from position `at` on.
pub open spec fn frames_from(b64: Seq<char>, at: nat) -> Seq<char>
    decreases b64.len() + CHUNK - at,
{
    if at >= b64.len() {
        Seq::empty()
    } else {
        frame(b64, at) + frames_from(b64, (at + CHUNK) as nat)
    }
}

/// Concatenation of the pieces of `b64` from position `at` on.
pub open spec fn pieces_from(b64: Seq<char>, at: nat) -> Seq<char>
    decreases b64.len() + CHUNK - at,
{
    if at >= b64.len() {
        Seq::empty()
    } else {
        chunk_at(b64, at) + pieces_from(b64, (at + CHUNK) as nat)
    }
}

/// The pieces carried by the commands are exactly the base64 text, in order, each
/// at most `CHUNK` characters long.
pub proof fn lemma_pieces_cover(b64: Seq<char>, at: nat)
    requires
        at <= b64.len(),
    ensures
        pieces_from(b64, at) == b64.skip(at as int),
        forall|j: nat| j <= b64.len() ==> #[trigger] chunk_at(b64, j).len() <= CHUNK,
    decreases b64.len() + CHUNK - at,
{
    if at >= b64.len() {
        assert(b64.skip(at as int) =~= Seq::<char>::empty());
    } else if at + CHUNK < b64.len() {
        lemma_pieces_cover(b64, (at + CHUNK) as nat);
        assert(chunk_at(b64, at) + b64.skip(at + CHUNK) =~= b64.skip(at as int));
    } else {
        assert(pieces_from(b64, (at + CHUNK) as nat) == Seq::<char>::empty());
        assert(chunk_at(b64, at) =~= b64.skip(at as int));
    }
}

/// The graphics commands that show an image, one per piece, then a newline.
pub fn kitty_frames(b64: &str) -> (r: String)
    ensures
        r@ == frames_from(b64@, 0) + "\n"@,
{
    let v = chars_of(b64);
    let n = v.len();
    let mut out: Vec<char> = Vec::new();
    let mut offset: usize = 0;
    while offset < n
        invariant
            n == v@.len(),
            v@ == b64@,
            offset <= n,
            out@ + frames_from(v@, offset as nat) == frames_from(v@, 0),
        decreases n - offset,
    {
        let end = if n - offset > CHUNK {
            offset + CHUNK
        } else {
            n
        };
        let head = if offset == 0 {
            chars_of("\x1b_Gf=100,a=T,m=")
        } else {
            chars_of("\x1b_Gm=")
        };
        let more = if end < n {
            chars_of("1")
        } else {
            chars_of("0")
        };
        let mut f = concat(&head, &more);
        f = concat(&f, &chars_of(";"));
        f = concat(&f, &slice(&v, offset, end));
        f = concat(&f, &chars_of("\x1b\\"));
        assert(f@ == frame(v@, offset as nat));
        let ghost before = out@;
        out = concat(&out, &f);
        assert(out@ + frames_from(v@, (offset + CHUNK) as nat) =~= before + frames_from(
            v@,
            offset as nat,
        ));
        if end < n {
            offset = end;
        } else {
            assert(frames_from(v@, (offset + CHUNK) as nat) == Seq::<char>::empty());
            assert(out@ =~= out@ + frames_from(v@, n as nat));
            offset = n;
        }
    }
    let text = string_of(&out);
    cat(text.as_str(), "\n")
}

/// What a terminal receives to show a PNG image: its base64 text in graphics
/// commands of at most `CHUNK` characters each.
pub fn kitty_image(png: &[u8]) -> (r: String)
    requires
        png@.len() / 3 * 4 + 4 <= usize::MAX,
    ensures
        r@ == frames_from(base64_standard(png@), 0) + "\n"@,
{
    let b64 = base64_encode(png);
    kitty_frames(b64.as_str())
}

} // verus!

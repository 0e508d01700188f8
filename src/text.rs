//! Text helpers: rendering raw bytes for display and hex formatting.

use vstd::prelude::*;

verus! {

/// The character ESC (0x1B), which starts every escape sequence.
pub const ESC: char = '\u{1b}';

/// What `String::from_utf8_lossy` makes of a byte sequence.
pub uninterp spec fn utf8_lossy(b: Seq<u8>) -> Seq<char>;

/// The characters that stand for one decoded character in rendered raw bytes:
/// ESC becomes the four characters `\x1b`, every other character stays.
pub open spec fn escaped_char(c: char) -> Seq<char> {
    if c == ESC {
        seq!['\\', 'x', '1', 'b']
    } else {
        seq![c]
    }
}

/// `s` with every ESC replaced by the four characters `\x1b`.
pub open spec fn escape_esc(s: Seq<char>) -> Seq<char>
    decreases s.len(),
{
    if s.len() == 0 {
        Seq::empty()
    } else {
        escape_esc(s.drop_last()) + escaped_char(s.last())
    }
}

/// How raw bytes are shown to a user: decoded as UTF-8 (invalid sequences
/// replaced), then ESC written as `\x1b`.
pub open spec fn sanitized(raw: Seq<u8>) -> Seq<char> {
    escape_esc(utf8_lossy(raw))
}

/// The characters of an optional string.
pub open spec fn opt_view(o: Option<String>) -> Option<Seq<char>> {
    match o {
        Some(s) => Some(s@),
        None => None,
    }
}

/// True when every byte is ASCII.
pub open spec fn all_ascii(b: Seq<u8>) -> bool {
    forall|i: int| 0 <= i < b.len() ==> b[i] < 0x80
}

/// Relies on `String::from_utf8_lossy`, then `str::chars` to list the
/// decoded characters. ASCII is valid UTF-8 and decodes to itself.
#[verifier::external_body]
fn decode_lossy(b: &[u8]) -> (r: Vec<char>)
    ensures
        r@ == utf8_lossy(b@),
        all_ascii(b@) ==> r@ == b@.map_values(|x: u8| x as char),
{
    String::from_utf8_lossy(b).chars().collect()
}

/// Relies on `String::push`: appends one character.
#[verifier::external_body]
pub(crate) fn push_char(s: &mut String, c: char)
    ensures
        final(s)@ == old(s)@.push(c),
{
    s.push(c)
}

/// Convert escape code bytes into a user-facing string, replacing ESC with
/// the four characters `\x1b`.
pub fn sanitize_raw_bytes(raw_bytes: &[u8]) -> (r: String)
    ensures
        r@ == sanitized(raw_bytes@),
        all_ascii(raw_bytes@) ==> r@ == escape_esc(raw_bytes@.map_values(|x: u8| x as char)),
{
    let chars = decode_lossy(raw_bytes);
    let mut out = String::new();
    let mut i: usize = 0;
    while i < chars.len()
        invariant
            i <= chars@.len(),
            chars@ == utf8_lossy(raw_bytes@),
            out@ == escape_esc(chars@.subrange(0, i as int)),
        decreases chars@.len() - i,
    {
        let c = chars[i];
        if c == ESC {
            proof {
                reveal_strlit("\\x1b");
                assert("\\x1b"@ =~= seq!['\\', 'x', '1', 'b']);
            }
            out.append("\\x1b");
        } else {
            push_char(&mut out, c);
        }
        proof {
            let next = chars@.subrange(0, i + 1);
            assert(next.drop_last() =~= chars@.subrange(0, i as int));
            assert(next.last() == c);
        }
        i = i + 1;
    }
    assert(chars@.subrange(0, chars@.len() as int) =~= chars@);
    out
}

} // verus!

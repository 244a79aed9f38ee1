//! Rendering of command results: plain lines, and tokens shown without revealing them.
use vstd::prelude::*;
use vstd::utf8::{decode_utf8, encode_utf8, encode_utf8_decode_utf8, is_char_boundary};

use crate::text::push_char;

verus! {

/// Writes command results.
#[derive(Debug, Default)]
pub struct Renderer;

/// `n` asterisks.
pub open spec fn stars(n: nat) -> Seq<char> {
    Seq::new(n, |i: int| '*')
}

/// A token as shown to users: tokens of at most 4 bytes become one `*` per byte;
/// longer ones keep their first two and last two bytes around `...`.
pub open spec fn redacted_seq(token: Seq<char>) -> Seq<char> {
    let b = encode_utf8(token);
    if b.len() <= 4 {
        stars(b.len())
    } else {
        decode_utf8(b.take(2)) + "..."@ + decode_utf8(b.skip(b.len() - 2))
    }
}

/// `token`'s bytes can be cut after its first two and before its last two bytes,
/// which `redact_token` does for tokens longer than 4 bytes.
pub open spec fn redactable(token: Seq<char>) -> bool {
    let b = encode_utf8(token);
    b.len() > 4 ==> is_char_boundary(b, 2) && is_char_boundary(b, b.len() - 2)
}

impl Renderer {
    /// A renderer.
    pub fn new() -> (res: Renderer) {
        Renderer
    }

    /// Appends `message` and a newline to `writer`, as UTF-8 bytes.
    pub fn write_line(&self, writer: &mut Vec<u8>, message: &str)
        ensures
            final(writer)@ == old(writer)@ + encode_utf8(message@) + seq![10u8],
    {
        let bytes = message.as_bytes();
        let ghost start = writer@;
        let mut i: usize = 0;
        while i < bytes.len()
            invariant
                i <= bytes@.len(),
                bytes@ == encode_utf8(message@),
                writer@ == start + bytes@.take(i as int),
            decreases bytes@.len() - i,
        {
            writer.push(bytes[i]);
            proof {
                assert(bytes@.take(i + 1) =~= bytes@.take(i as int).push(bytes@[i as int]));
            }
            i = i + 1;
        }
        writer.push(10u8);
        proof {
            assert(bytes@.take(bytes@.len() as int) =~= bytes@);
        }
    }
}

/// A token as shown to users (see `redacted_seq`).
pub fn redact_token(token: &str) -> (res: String)
    requires
        redactable(token@),
    ensures
        res@ == redacted_seq(token@),
{
    let bytes = token.as_bytes();
    let len = bytes.len();
    if len <= 4 {
        let mut out = String::new();
        let mut i: usize = 0;
        while i < len
            invariant
                i <= len,
                len == encode_utf8(token@).len(),
                out@ == stars(i as nat),
            decreases len - i,
        {
            push_char(&mut out, '*');
            proof {
                assert(out@ =~= stars((i + 1) as nat));
            }
            i = i + 1;
        }
        return out;
    }
    let (prefix, rest) = token.split_at(2);
    let (_, suffix) = token.split_at(len - 2);
    proof {
        let b = encode_utf8(token@);
        encode_utf8_decode_utf8(prefix@);
        encode_utf8_decode_utf8(suffix@);
        assert(b.take(2) =~= encode_utf8(prefix@));
        assert(b.skip(b.len() - 2) =~= encode_utf8(suffix@));
    }
    let out = String::from_str(prefix);
    let out = out.concat("...");
    out.concat(suffix)
}

} // verus!

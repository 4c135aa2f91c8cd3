//! Normalization of request paths: percent-decoding and the trailing slash.
//!
//! Patterns are written against decoded text and against paths that end in
//! exactly one `/`. A request path is brought into that form before any
//! pattern sees it: every `%` with its two hexadecimal digits becomes the
//! byte they denote, all `/` at the end are dropped, and one `/` is added.

use crate::error::DispatchError;
use crate::text::string_from_utf8;
use vstd::prelude::*;
use vstd::utf8::{decode_utf8, encode_utf8, valid_utf8};

verus! {

/// The byte `%`.
pub const PERCENT: u8 = 0x25;

/// The byte `/`.
pub const SLASH: u8 = 0x2f;

/// Whether a byte is one of `0-9`, `a-f`, `A-F`.
pub open spec fn is_hex_digit(b: u8) -> bool {
    (0x30 <= b <= 0x39) || (0x41 <= b <= 0x46) || (0x61 <= b <= 0x66)
}

/// The number that a hexadecimal digit denotes.
pub open spec fn hex_value(b: u8) -> int {
    if 0x30 <= b <= 0x39 {
        b - 0x30
    } else if 0x41 <= b <= 0x46 {
        b - 0x41 + 10
    } else {
        b - 0x61 + 10
    }
}

/// `front` put before what `rest` holds, if it holds something.
pub open spec fn prepended(front: Seq<u8>, rest: Option<Seq<u8>>) -> Option<Seq<u8>> {
    match rest {
        Some(bytes) => Some(front + bytes),
        None => None,
    }
}

/// The bytes with every `%XX` replaced by the byte that the two digits
/// denote; nothing where a `%` is not followed by two hexadecimal digits.
pub open spec fn percent_decoded(bytes: Seq<u8>) -> Option<Seq<u8>>
    decreases bytes.len(),
{
    if bytes.len() == 0 {
        Some(Seq::empty())
    } else if bytes[0] != PERCENT {
        prepended(seq![bytes[0]], percent_decoded(bytes.skip(1)))
    } else if bytes.len() >= 3 && is_hex_digit(bytes[1]) && is_hex_digit(bytes[2]) {
        prepended(
            seq![(hex_value(bytes[1]) * 16 + hex_value(bytes[2])) as u8],
            percent_decoded(bytes.skip(3)),
        )
    } else {
        None
    }
}

/// The bytes without the `/` bytes at their end.
pub open spec fn without_trailing_slashes(bytes: Seq<u8>) -> Seq<u8>
    decreases bytes.len(),
{
    if bytes.len() > 0 && bytes.last() == SLASH {
        without_trailing_slashes(bytes.drop_last())
    } else {
        bytes
    }
}

/// The normalized form of a request path, or why it has none.
pub open spec fn normalized(raw: Seq<char>) -> Result<Seq<char>, DispatchError> {
    match percent_decoded(encode_utf8(raw)) {
        None => Err(DispatchError::MalformedPercentEncoding),
        Some(decoded) => {
            let bytes = without_trailing_slashes(decoded).push(SLASH);
            if valid_utf8(bytes) {
                Ok(decode_utf8(bytes))
            } else {
                Err(DispatchError::InvalidUtf8)
            }
        },
    }
}

/// The encoding of a text is the encoding of its parts, one after the other.
proof fn lemma_encode_concat(a: Seq<char>, b: Seq<char>)
    ensures
        encode_utf8(a + b) == encode_utf8(a) + encode_utf8(b),
    decreases a.len(),
{
    if a.len() == 0 {
        assert(a + b =~= b);
        assert(encode_utf8(a) + encode_utf8(b) =~= encode_utf8(b));
    } else {
        assert((a + b)[0] == a[0]);
        assert((a + b).drop_first() =~= a.drop_first() + b);
        lemma_encode_concat(a.drop_first(), b);
        assert(encode_utf8(a + b) =~= encode_utf8(a) + encode_utf8(b));
    }
}

/// The character `/` is encoded as the byte `/`.
proof fn lemma_encode_slash()
    ensures
        encode_utf8(seq!['/']) == seq![SLASH],
{
    let text = seq!['/'];
    assert(vstd::utf8::is_ascii_chars(text));
    vstd::utf8::is_ascii_chars_encode_utf8(text);
    assert(text[0] as u8 == SLASH);
    assert(encode_utf8(text) =~= seq![SLASH]);
}

/// A normalized path ends in exactly one `/`: its last character is `/`,
/// and the character before it, where there is one, is not.
pub proof fn lemma_normalized_ends_in_one_slash(raw: Seq<char>)
    requires
        normalized(raw) is Ok,
    ensures
        ({
            let path = normalized(raw)->Ok_0;
            &&& path.len() >= 1
            &&& path.last() == '/'
            &&& path.len() >= 2 ==> path[path.len() - 2] != '/'
        }),
{
    let decoded = percent_decoded(encode_utf8(raw))->0;
    let front = without_trailing_slashes(decoded);
    let bytes = front.push(SLASH);
    let path = decode_utf8(bytes);
    let last = bytes.len() - 1;
    lemma_no_trailing_slash_left(decoded);
    lemma_encode_slash();
    vstd::utf8::is_char_boundary_iff_not_is_continuation_byte(bytes, last);
    vstd::utf8::valid_utf8_split(bytes, last);
    vstd::utf8::decode_utf8_split(bytes, last);
    assert(bytes.subrange(0, last) =~= front);
    assert(bytes.subrange(last, bytes.len() as int) =~= seq![SLASH]);
    vstd::utf8::encode_utf8_decode_utf8(seq!['/']);
    let before = decode_utf8(front);
    assert(path =~= before + seq!['/']);
    if before.len() > 0 && before.last() == '/' {
        vstd::utf8::decode_utf8_encode_utf8(front);
        assert(before =~= before.drop_last() + seq!['/']);
        lemma_encode_concat(before.drop_last(), seq!['/']);
        assert(front.last() == SLASH);
    }
}

/// What is left after the trailing slashes are dropped does not end in `/`.
proof fn lemma_no_trailing_slash_left(bytes: Seq<u8>)
    ensures
        without_trailing_slashes(bytes).len() > 0 ==> without_trailing_slashes(bytes).last()
            != SLASH,
        without_trailing_slashes(bytes).len() <= bytes.len(),
    decreases bytes.len(),
{
    if bytes.len() > 0 && bytes.last() == SLASH {
        lemma_no_trailing_slash_left(bytes.drop_last());
    }
}

fn is_hex(b: u8) -> (r: bool)
    ensures
        r == is_hex_digit(b),
{
    (0x30 <= b && b <= 0x39) || (0x41 <= b && b <= 0x46) || (0x61 <= b && b <= 0x66)
}

fn hex(b: u8) -> (v: u8)
    requires
        is_hex_digit(b),
    ensures
        v == hex_value(b),
        v < 16,
{
    if 0x30 <= b && b <= 0x39 {
        b - 0x30
    } else if 0x41 <= b && b <= 0x46 {
        b - 0x41 + 10
    } else {
        b - 0x61 + 10
    }
}

/// Percent-decodes `bytes`.
fn percent_decode(bytes: &[u8]) -> (r: Option<Vec<u8>>)
    ensures
        match r {
            Some(decoded) => percent_decoded(bytes@) == Some(decoded@),
            None => percent_decoded(bytes@) is None,
        },
{
    let n = bytes.len();
    let mut out: Vec<u8> = Vec::new();
    let mut i: usize = 0;
    assert(bytes@.skip(0) =~= bytes@);
    assert(prepended(out@, percent_decoded(bytes@)) == percent_decoded(bytes@)) by {
        if percent_decoded(bytes@) is Some {
            assert(out@ + percent_decoded(bytes@)->0 =~= percent_decoded(bytes@)->0);
        }
    }
    while i < n
        invariant
            i <= n,
            n == bytes@.len(),
            percent_decoded(bytes@) == prepended(out@, percent_decoded(bytes@.skip(i as int))),
        decreases n - i,
    {
        let b = bytes[i];
        let ghost rest = bytes@.skip(i as int);
        let ghost done = out@;
        assert(rest[0] == b);
        if b != PERCENT {
            out.push(b);
            assert(rest.skip(1) =~= bytes@.skip(i + 1));
            proof {
                let tail = percent_decoded(rest.skip(1));
                if tail is Some {
                    assert(done + (seq![b] + tail->0) =~= out@ + tail->0);
                }
            }
            i += 1;
        } else if n - i >= 3 && is_hex(bytes[i + 1]) && is_hex(bytes[i + 2]) {
            assert(rest[1] == bytes@[i + 1] && rest[2] == bytes@[i + 2]);
            let value = hex(bytes[i + 1]) * 16 + hex(bytes[i + 2]);
            out.push(value);
            assert(rest.skip(3) =~= bytes@.skip(i + 3));
            proof {
                let tail = percent_decoded(rest.skip(3));
                if tail is Some {
                    assert(done + (seq![value] + tail->0) =~= out@ + tail->0);
                }
            }
            i += 3;
        } else {
            proof {
                if rest.len() >= 3 {
                    assert(rest[1] == bytes@[i + 1] && rest[2] == bytes@[i + 2]);
                }
            }
            return None;
        }
    }
    assert(bytes@.skip(n as int) =~= Seq::empty());
    assert(out@ + Seq::<u8>::empty() =~= out@);
    Some(out)
}

/// Brings a request path into the form that patterns are matched against.
///
/// Fails with `MalformedPercentEncoding` where a `%` is not followed by two
/// hexadecimal digits, and with `InvalidUtf8` where the decoded bytes are
/// not valid UTF-8.
pub fn normalize_path(raw: &str) -> (r: Result<String, DispatchError>)
    ensures
        match r {
            Ok(path) => normalized(raw@) == Ok::<Seq<char>, DispatchError>(path@),
            Err(e) => normalized(raw@) == Err::<Seq<char>, DispatchError>(e),
        },
{
    match percent_decode(raw.as_bytes()) {
        None => Err(DispatchError::MalformedPercentEncoding),
        Some(decoded) => {
            let mut bytes = decoded;
            let ghost all = bytes@;
            while bytes.len() > 0 && bytes[bytes.len() - 1] == SLASH
                invariant
                    without_trailing_slashes(all) == without_trailing_slashes(bytes@),
                decreases bytes.len(),
            {
                assert(bytes@.last() == SLASH);
                bytes.pop();
            }
            bytes.push(SLASH);
            match string_from_utf8(bytes) {
                Some(path) => Ok(path),
                None => Err(DispatchError::InvalidUtf8),
            }
        },
    }
}

} // verus!

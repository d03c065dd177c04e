use vstd::prelude::*;
use vstd::slice::{slice_index_get, slice_subrange};
use crate::error::FeedError;

verus! {

/// What strict UTF-8 decoding returns on the given bytes, or `None` where
/// the bytes are not valid UTF-8.
pub uninterp spec fn utf8_decoded(bytes: Seq<u8>) -> Option<Seq<char>>;

/// What strict windows-1251 decoding returns on the given bytes, or `None`
/// where a byte has no meaning in that encoding.
pub uninterp spec fn win1251_decoded(bytes: Seq<u8>) -> Option<Seq<char>>;

/// Relies on encoding's `UTF_8.decode` with the strict trap: it decodes
/// the bytes as UTF-8 or reports them invalid, and the result depends on
/// the bytes alone.
#[verifier::external_body]
fn utf8_decode(bytes: &[u8]) -> (r: Option<String>)
    ensures
        match r {
            Some(s) => utf8_decoded(bytes@) == Some(s@),
            None => utf8_decoded(bytes@) is None,
        },
{
    encoding::Encoding::decode(encoding::all::UTF_8, bytes, encoding::DecoderTrap::Strict).ok()
}

/// Relies on encoding's `WINDOWS_1251.decode` with the strict trap: it
/// decodes the bytes as windows-1251 or reports them invalid, and the
/// result depends on the bytes alone.
#[verifier::external_body]
fn win1251_decode(bytes: &[u8]) -> (r: Option<String>)
    ensures
        match r {
            Some(s) => win1251_decoded(bytes@) == Some(s@),
            None => win1251_decoded(bytes@) is None,
        },
{
    encoding::Encoding::decode(encoding::all::WINDOWS_1251, bytes, encoding::DecoderTrap::Strict)
        .ok()
}

/// A UTF-8 byte-order mark opens the byte sequence.
pub open spec fn has_bom(b: Seq<u8>) -> bool {
    b.len() >= 3 && b[0] == 0xEF && b[1] == 0xBB && b[2] == 0xBF
}

/// The text a byte sequence decodes to: after a UTF-8 byte-order mark the
/// rest is decoded as UTF-8; otherwise UTF-8 is tried first and
/// windows-1251 is the fallback.
pub open spec fn decode_spec(b: Seq<u8>) -> Option<Seq<char>> {
    if has_bom(b) {
        utf8_decoded(b.skip(3))
    } else if utf8_decoded(b) is Some {
        utf8_decoded(b)
    } else {
        win1251_decoded(b)
    }
}

/// Decodes the raw feed bytes to text, sniffing the byte-order mark and
/// falling back from UTF-8 to windows-1251.
pub fn decode(bytes: &[u8]) -> (r: Result<String, FeedError>)
    ensures
        match r {
            Ok(s) => decode_spec(bytes@) == Some(s@),
            Err(e) => decode_spec(bytes@) is None && e == FeedError::Decode,
        },
{
    if bytes.len() >= 3 && *slice_index_get(bytes, 0) == 0xEF && *slice_index_get(bytes, 1)
        == 0xBB && *slice_index_get(bytes, 2) == 0xBF {
        let rest = slice_subrange(bytes, 3, bytes.len());
        proof {
            assert(rest@ =~= bytes@.skip(3));
        }
        match utf8_decode(rest) {
            Some(s) => Ok(s),
            None => Err(FeedError::Decode),
        }
    } else {
        match utf8_decode(bytes) {
            Some(s) => Ok(s),
            None => match win1251_decode(bytes) {
                Some(s) => Ok(s),
                None => Err(FeedError::Decode),
            },
        }
    }
}

/// A UTF-8 byte-order mark is transparent: bytes that begin with the mark
/// decode to the same text as the bytes after it, whenever those bytes are
/// valid UTF-8 and do not themselves begin with a mark.
pub proof fn lemma_bom_transparent(with_bom: Seq<u8>, body: Seq<u8>)
    requires
        with_bom == seq![0xEFu8, 0xBBu8, 0xBFu8] + body,
        utf8_decoded(body) is Some,
        !has_bom(body),
    ensures
        decode_spec(with_bom) == decode_spec(body),
{
    assert(has_bom(with_bom));
    assert(with_bom.skip(3) =~= body);
}

} // verus!

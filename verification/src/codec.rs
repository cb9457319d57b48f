//! Transport encoding of terminal output.
//!
//! Raw terminal bytes are not guaranteed to be valid text, so each chunk is
//! carried base64-encoded; decoding on the consumer side restores the bytes
//! exactly, chunk for chunk and so stream for stream.

use vstd::prelude::*;

verus! {

/// What base64's standard-alphabet engine encodes a byte sequence to.
pub uninterp spec fn b64_of(b: Seq<u8>) -> Seq<char>;

/// Relies on base64's `Engine::encode` with the standard engine: the encoding
/// is a function of the input bytes alone, and an empty input encodes to an
/// empty string.
#[verifier::external_body]
fn b64_encode(data: &[u8]) -> (r: String)
    ensures
        r@ == b64_of(data@),
        data@.len() == 0 ==> r@.len() == 0,
{
    base64::Engine::encode(&base64::engine::general_purpose::STANDARD, data)
}

/// Relies on base64's `Engine::decode` with the same engine: decoding inverts
/// encoding, so an input that is the encoding of some bytes decodes to
/// exactly those bytes.
#[verifier::external_body]
fn b64_decode(s: &str) -> (r: Result<Vec<u8>, String>)
    ensures
        r matches Ok(v) ==> (forall|b: Seq<u8>| s@ == #[trigger] b64_of(b) ==> v@ == b),
        r is Err ==> (forall|b: Seq<u8>| s@ != #[trigger] b64_of(b)),
{
    match base64::Engine::decode(&base64::engine::general_purpose::STANDARD, s.as_bytes()) {
        Ok(v) => Ok(v),
        Err(e) => Err(e.to_string()),
    }
}

/// Encodes one chunk of terminal output for transport.
pub fn encode_chunk(data: &[u8]) -> (r: String)
    ensures
        r@ == b64_of(data@),
{
    b64_encode(data)
}

/// Decodes one transported payload back into raw bytes; payloads produced by
/// [`encode_chunk`] always decode to the chunk they were made from.
pub fn decode_chunk(s: &str) -> (r: Result<Vec<u8>, String>)
    ensures
        r matches Ok(v) ==> (forall|b: Seq<u8>| s@ == #[trigger] b64_of(b) ==> v@ == b),
        r is Err ==> (forall|b: Seq<u8>| s@ != #[trigger] b64_of(b)),
{
    b64_decode(s)
}

/// Encoding a chunk and decoding the payload gives the chunk back unchanged.
pub fn round_trip_chunk(data: &[u8]) -> (r: Vec<u8>)
    ensures
        r@ == data@,
{
    let payload = encode_chunk(data);
    match decode_chunk(payload.as_str()) {
        Ok(v) => v,
        Err(e) => {
            proof {
                assert(false);
            }
            Vec::new()
        }
    }
}

/// The views of a sequence of byte vectors.
pub open spec fn byte_views(v: Seq<Vec<u8>>) -> Seq<Seq<u8>> {
    v.map_values(|c: Vec<u8>| c@)
}

/// Encoding every chunk of a stream and decoding every payload restores the
/// chunks one for one, and with them the concatenation of the whole stream:
/// what the consumer reassembles is byte-for-byte what was read.
pub fn round_trip_stream(chunks: &Vec<Vec<u8>>) -> (r: Vec<Vec<u8>>)
    ensures
        byte_views(r@) == byte_views(chunks@),
        byte_views(r@).flatten() == byte_views(chunks@).flatten(),
{
    let n = chunks.len();
    let mut out: Vec<Vec<u8>> = Vec::new();
    let mut i: usize = 0;
    while i < n
        invariant
            n == chunks@.len(),
            i <= n,
            out@.len() == i,
            forall|j: int| 0 <= j < i ==> out@[j]@ == chunks@[j]@,
        decreases n - i,
    {
        let back = round_trip_chunk(chunks[i].as_slice());
        out.push(back);
        i += 1;
    }
    proof {
        assert(byte_views(out@) =~= byte_views(chunks@));
    }
    out
}

} // verus!

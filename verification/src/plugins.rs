//! Reference plugins, written directly against the typed capability
//! surface: an identity echo and an ASCII-uppercasing responder. They
//! give the adapter real implementations to dispatch to and the tests
//! something to load and call.

use vstd::prelude::*;
use crate::adapter::{FromBytes, IntoBytes, TypedPlugin, seq_views};
use crate::model::RuntimeError;

verus! {

/// Raw byte payload: decoding and encoding are both the identity, so
/// every byte string is a valid value.
pub struct RawBytes {
    pub bytes: Vec<u8>,
}

impl View for RawBytes {
    type V = Seq<u8>;

    open spec fn view(&self) -> Seq<u8> {
        self.bytes@
    }
}

impl FromBytes for RawBytes {
    open spec fn decode_spec(b: Seq<u8>) -> Option<Seq<u8>> {
        Some(b)
    }

    fn decode(b: Vec<u8>) -> (r: Option<Self>) {
        Some(RawBytes { bytes: b })
    }
}

impl IntoBytes for RawBytes {
    open spec fn encode_spec(v: Seq<u8>) -> Seq<u8> {
        v
    }

    fn encode(self) -> (r: Vec<u8>) {
        self.bytes
    }
}

/// The concatenation of a sequence of byte chunks, in order.
pub open spec fn spec_concat(chunks: Seq<Seq<u8>>) -> Seq<u8>
    decreases chunks.len(),
{
    if chunks.len() == 0 {
        Seq::empty()
    } else {
        spec_concat(chunks.drop_last()) + chunks.last()
    }
}

/// A plugin that echoes its input on every capability: a unary call
/// returns the payload unchanged, a server-stream call returns it as a
/// one-element stream, a client-stream call returns the concatenation
/// of the drained chunks, and a bidirectional call returns the chunks
/// unchanged.
pub struct EchoPlugin;

impl TypedPlugin for EchoPlugin {
    type In = RawBytes;

    type Out = RawBytes;

    open spec fn call_spec(&self, data: Seq<u8>) -> Result<Seq<u8>, RuntimeError> {
        Ok(data)
    }

    open spec fn call_stream_spec(&self, data: Seq<u8>) -> Result<Seq<Seq<u8>>, RuntimeError> {
        Ok(seq![data])
    }

    open spec fn call_from_stream_spec(&self, data: Seq<Seq<u8>>) -> Result<
        Seq<u8>,
        RuntimeError,
    > {
        Ok(spec_concat(data))
    }

    open spec fn call_stream_with_stream_spec(&self, data: Seq<Seq<u8>>) -> Result<
        Seq<Seq<u8>>,
        RuntimeError,
    > {
        Ok(data)
    }

    fn call(&self, data: RawBytes) -> (r: Result<RawBytes, RuntimeError>) {
        Ok(data)
    }

    fn call_stream(&self, data: RawBytes) -> (r: Result<Vec<RawBytes>, RuntimeError>) {
        let ghost d = data@;
        let mut outs: Vec<RawBytes> = Vec::new();
        outs.push(data);
        proof {
            assert(seq_views(outs@) =~= seq![d]);
        }
        Ok(outs)
    }

    fn call_from_stream(&self, data: Vec<RawBytes>) -> (r: Result<RawBytes, RuntimeError>) {
        let ghost orig = seq_views(data@);
        let mut rest = data;
        let mut acc: Vec<u8> = Vec::new();
        let mut i: usize = 0;
        let n = rest.len();
        while i < n
            invariant
                i <= n,
                n == orig.len(),
                rest@.len() == n - i,
                seq_views(rest@) == orig.subrange(i as int, n as int),
                acc@ == spec_concat(orig.take(i as int)),
            decreases n - i,
        {
            let ghost prev = rest@;
            let mut chunk = rest.remove(0);
            proof {
                assert forall|k: int| 0 <= k < rest@.len() implies #[trigger] seq_views(rest@)[k]
                    == orig.subrange(i + 1, n as int)[k] by {
                    assert(rest@[k] == prev[k + 1]);
                    assert(seq_views(prev)[k + 1] == prev[k + 1]@);
                }
                assert(seq_views(rest@) =~= orig.subrange(i + 1, n as int));
                assert(seq_views(prev)[0] == prev[0]@);
                assert(chunk@ == orig[i as int]);
            }
            acc.append(&mut chunk.bytes);
            proof {
                assert(orig.take(i + 1).drop_last() =~= orig.take(i as int));
                assert(orig.take(i + 1).last() == orig[i as int]);
            }
            i = i + 1;
        }
        proof {
            assert(orig.take(n as int) =~= orig);
        }
        Ok(RawBytes { bytes: acc })
    }

    fn call_stream_with_stream(&self, data: Vec<RawBytes>) -> (r: Result<
        Vec<RawBytes>,
        RuntimeError,
    >) {
        Ok(data)
    }
}

/// Where each byte of the uppercased payload comes from: ASCII letters
/// are mapped to their upper-case form, all other bytes stay.
pub open spec fn spec_ascii_upper(b: Seq<u8>) -> Seq<u8> {
    b.map_values(
        |x: u8|
            if 97 <= x <= 122 {
                (x - 32) as u8
            } else {
                x
            },
    )
}

/// A plugin whose unary call uppercases the ASCII letters of its
/// payload. The three stream capabilities are not offered and fail
/// with the fixed `NotImplemented` error.
pub struct UppercasePlugin;

impl TypedPlugin for UppercasePlugin {
    type In = RawBytes;

    type Out = RawBytes;

    open spec fn call_spec(&self, data: Seq<u8>) -> Result<Seq<u8>, RuntimeError> {
        Ok(spec_ascii_upper(data))
    }

    open spec fn call_stream_spec(&self, data: Seq<u8>) -> Result<Seq<Seq<u8>>, RuntimeError> {
        Err(RuntimeError::NotImplemented)
    }

    open spec fn call_from_stream_spec(&self, data: Seq<Seq<u8>>) -> Result<
        Seq<u8>,
        RuntimeError,
    > {
        Err(RuntimeError::NotImplemented)
    }

    open spec fn call_stream_with_stream_spec(&self, data: Seq<Seq<u8>>) -> Result<
        Seq<Seq<u8>>,
        RuntimeError,
    > {
        Err(RuntimeError::NotImplemented)
    }

    fn call(&self, data: RawBytes) -> (r: Result<RawBytes, RuntimeError>) {
        let ghost d = data@;
        let bytes = data.bytes;
        let mut upper: Vec<u8> = Vec::new();
        let mut i: usize = 0;
        while i < bytes.len()
            invariant
                i <= bytes.len(),
                bytes@ == d,
                upper@.len() == i as nat,
                forall|k: int| 0 <= k < i ==> upper@[k] == spec_ascii_upper(d)[k],
            decreases bytes.len() - i,
        {
            let x = bytes[i];
            if 97 <= x && x <= 122 {
                upper.push(x - 32);
            } else {
                upper.push(x);
            }
            i = i + 1;
        }
        proof {
            assert(upper@ =~= spec_ascii_upper(d));
        }
        Ok(RawBytes { bytes: upper })
    }

    fn call_stream(&self, data: RawBytes) -> (r: Result<Vec<RawBytes>, RuntimeError>) {
        Err(RuntimeError::NotImplemented)
    }

    fn call_from_stream(&self, data: Vec<RawBytes>) -> (r: Result<RawBytes, RuntimeError>) {
        Err(RuntimeError::NotImplemented)
    }

    fn call_stream_with_stream(&self, data: Vec<RawBytes>) -> (r: Result<
        Vec<RawBytes>,
        RuntimeError,
    >) {
        Err(RuntimeError::NotImplemented)
    }
}

} // verus!

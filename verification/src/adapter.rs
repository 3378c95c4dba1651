//! Capability adapter: turns a strongly-typed plugin implementation
//! into the uniform byte-oriented capability set the registry forwards
//! calls to, across the four call shapes (unary, server-stream,
//! client-stream, bidirectional-stream).
//!
//! Stream adaptation here is deliberately buffered, not incremental: an
//! inbound stream is fully drained and converted before the typed
//! handler runs (fail-fast: one undecodable element fails the whole
//! call before the plugin is consulted), and an outbound typed stream
//! is fully drained and converted before it is handed back.

use vstd::prelude::*;
use crate::model::RuntimeError;

verus! {

/// The mathematical values of a sequence of viewable values.
pub open spec fn seq_views<T: View>(s: Seq<T>) -> Seq<T::V> {
    s.map_values(|x: T| x@)
}

/// The byte views of a sequence of byte chunks.
pub open spec fn chunk_views(s: Seq<Vec<u8>>) -> Seq<Seq<u8>> {
    s.map_values(|c: Vec<u8>| c@)
}

/// Inbound half of the typed/byte boundary: which byte strings decode,
/// and to which mathematical value.
pub trait FromBytes: View + Sized {
    /// The partial decoding function this type implements.
    spec fn decode_spec(b: Seq<u8>) -> Option<Self::V>;

    /// Decode one payload; `None` exactly on the bytes that
    /// `decode_spec` rejects.
    fn decode(b: Vec<u8>) -> (r: Option<Self>)
        ensures
            match r {
                Some(v) => Self::decode_spec(b@) == Some(v@),
                None => Self::decode_spec(b@) is None,
            },
    ;
}

/// Outbound half of the typed/byte boundary: every value encodes.
pub trait IntoBytes: View + Sized {
    /// The total encoding function this type implements.
    spec fn encode_spec(v: Self::V) -> Seq<u8>;

    fn encode(self) -> (r: Vec<u8>)
        ensures
            r@ == Self::encode_spec(self@),
    ;
}

/// The typed surface a plugin author implements. `call` is the one
/// required capability; the three stream shapes are optional, and an
/// implementation that does not offer one returns the fixed
/// `NotImplemented` error from it (and says so in its `*_spec`), so the
/// capability set stays uniform across plugins.
pub trait TypedPlugin {
    type In: FromBytes;

    type Out: IntoBytes;

    /// Functional model of the unary capability.
    spec fn call_spec(&self, data: <Self::In as View>::V) -> Result<
        <Self::Out as View>::V,
        RuntimeError,
    >;

    /// Functional model of the server-stream capability.
    spec fn call_stream_spec(&self, data: <Self::In as View>::V) -> Result<
        Seq<<Self::Out as View>::V>,
        RuntimeError,
    >;

    /// Functional model of the client-stream capability.
    spec fn call_from_stream_spec(&self, data: Seq<<Self::In as View>::V>) -> Result<
        <Self::Out as View>::V,
        RuntimeError,
    >;

    /// Functional model of the bidirectional-stream capability.
    spec fn call_stream_with_stream_spec(&self, data: Seq<<Self::In as View>::V>) -> Result<
        Seq<<Self::Out as View>::V>,
        RuntimeError,
    >;

    fn call(&self, data: Self::In) -> (r: Result<Self::Out, RuntimeError>)
        ensures
            match (r, self.call_spec(data@)) {
                (Ok(out), Ok(o)) => out@ == o,
                (Err(e1), Err(e2)) => e1 == e2,
                _ => false,
            },
    ;

    fn call_stream(&self, data: Self::In) -> (r: Result<Vec<Self::Out>, RuntimeError>)
        ensures
            match (r, self.call_stream_spec(data@)) {
                (Ok(outs), Ok(os)) => seq_views(outs@) == os,
                (Err(e1), Err(e2)) => e1 == e2,
                _ => false,
            },
    ;

    fn call_from_stream(&self, data: Vec<Self::In>) -> (r: Result<Self::Out, RuntimeError>)
        ensures
            match (r, self.call_from_stream_spec(seq_views(data@))) {
                (Ok(out), Ok(o)) => out@ == o,
                (Err(e1), Err(e2)) => e1 == e2,
                _ => false,
            },
    ;

    fn call_stream_with_stream(&self, data: Vec<Self::In>) -> (r: Result<
        Vec<Self::Out>,
        RuntimeError,
    >)
        ensures
            match (r, self.call_stream_with_stream_spec(seq_views(data@))) {
                (Ok(outs), Ok(os)) => seq_views(outs@) == os,
                (Err(e1), Err(e2)) => e1 == e2,
                _ => false,
            },
    ;
}

/// What decoding a whole drained stream yields: the decoded elements in
/// order, or nothing as soon as any element fails to decode.
pub open spec fn spec_decode_all<T: FromBytes>(chunks: Seq<Seq<u8>>) -> Option<
    Seq<<T as View>::V>,
>
    decreases chunks.len(),
{
    if chunks.len() == 0 {
        Some(Seq::empty())
    } else {
        match (spec_decode_all::<T>(chunks.drop_last()), T::decode_spec(chunks.last())) {
            (Some(s), Some(v)) => Some(s.push(v)),
            _ => None,
        }
    }
}

/// One undecodable element anywhere makes the whole stream undecodable.
proof fn lemma_decode_all_none<T: FromBytes>(chunks: Seq<Seq<u8>>, i: int)
    requires
        0 <= i < chunks.len(),
        T::decode_spec(chunks[i]) is None,
    ensures
        spec_decode_all::<T>(chunks) is None,
    decreases chunks.len(),
{
    if i < chunks.len() - 1 {
        lemma_decode_all_none::<T>(chunks.drop_last(), i);
    }
}

/// Drain-and-convert of an inbound stream: every element must decode
/// before anything is returned; the first failure fails the whole
/// conversion with `ConversionError`.
#[verifier::loop_isolation(false)]
pub fn decode_all<T: FromBytes>(chunks: Vec<Vec<u8>>) -> (r: Result<Vec<T>, RuntimeError>)
    ensures
        match r {
            Ok(v) => spec_decode_all::<T>(chunk_views(chunks@)) == Some(seq_views(v@)),
            Err(e) => spec_decode_all::<T>(chunk_views(chunks@)) is None && e
                == RuntimeError::ConversionError,
        },
{
    let ghost orig = chunk_views(chunks@);
    let mut rest = chunks;
    let mut out: Vec<T> = Vec::new();
    let mut i: usize = 0;
    let n = rest.len();
    while i < n
        invariant
            i <= n,
            n == orig.len(),
            rest@.len() == n - i,
            chunk_views(rest@) == orig.subrange(i as int, n as int),
            spec_decode_all::<T>(orig.take(i as int)) == Some(seq_views(out@)),
        decreases n - i,
    {
        let ghost prev = rest@;
        let chunk = rest.remove(0);
        proof {
            assert forall|k: int| 0 <= k < rest@.len() implies #[trigger] chunk_views(rest@)[k]
                == orig.subrange(i + 1, n as int)[k] by {
                assert(rest@[k] == prev[k + 1]);
                assert(chunk_views(prev)[k + 1] == prev[k + 1]@);
                assert(chunk_views(prev)[k + 1] == orig.subrange(i as int, n as int)[k + 1]);
            }
            assert(chunk_views(rest@) =~= orig.subrange(i + 1, n as int));
            assert(chunk@ == chunk_views(prev)[0]);
            assert(chunk@ == orig[i as int]);
        }
        match T::decode(chunk) {
            Some(v) => {
                let ghost prev_out = out@;
                let ghost vv = v@;
                out.push(v);
                proof {
                    assert(orig.take(i + 1).drop_last() =~= orig.take(i as int));
                    assert(orig.take(i + 1).last() == orig[i as int]);
                    assert(seq_views(out@) =~= seq_views(prev_out).push(vv));
                }
            },
            None => {
                proof {
                    lemma_decode_all_none::<T>(orig, i as int);
                }
                return Err(RuntimeError::ConversionError);
            },
        }
        i = i + 1;
    }
    proof {
        assert(orig.take(n as int) =~= orig);
    }
    Ok(out)
}

/// Drain-and-convert of an outbound typed stream, order preserved.
pub fn encode_all<T: IntoBytes>(items: Vec<T>) -> (r: Vec<Vec<u8>>)
    ensures
        r@.len() == items@.len(),
        forall|i: int| 0 <= i < r@.len() ==> #[trigger] r@[i]@ == T::encode_spec(items@[i]@),
{
    let ghost orig = items@;
    let mut rest = items;
    let mut out: Vec<Vec<u8>> = Vec::new();
    let mut i: usize = 0;
    let n = rest.len();
    while i < n
        invariant
            i <= n,
            n == orig.len(),
            rest@.len() == n - i,
            rest@ == orig.subrange(i as int, n as int),
            out@.len() == i as nat,
            forall|k: int| 0 <= k < i ==> #[trigger] out@[k]@ == T::encode_spec(orig[k]@),
        decreases n - i,
    {
        let item = rest.remove(0);
        proof {
            assert(rest@ =~= orig.subrange(i + 1, n as int));
        }
        out.push(item.encode());
        i = i + 1;
    }
    out
}

/// Unary shape: decode the payload (a failure is a `ConversionError`
/// and the plugin is never consulted), run the typed `call`, encode the
/// result.
pub fn execute<P: TypedPlugin>(plugin: &P, data: Vec<u8>) -> (r: Result<Vec<u8>, RuntimeError>)
    ensures
        match <P::In as FromBytes>::decode_spec(data@) {
            None => r == Err::<Vec<u8>, RuntimeError>(RuntimeError::ConversionError),
            Some(v) => match plugin.call_spec(v) {
                Ok(o) => match r {
                    Ok(b) => b@ == <P::Out as IntoBytes>::encode_spec(o),
                    Err(_) => false,
                },
                Err(e) => r == Err::<Vec<u8>, RuntimeError>(e),
            },
        },
{
    match <P::In as FromBytes>::decode(data) {
        None => Err(RuntimeError::ConversionError),
        Some(v) => match plugin.call(v) {
            Ok(out) => Ok(out.encode()),
            Err(e) => Err(e),
        },
    }
}

/// Server-stream shape: decode the payload, run the typed
/// `call_stream`, convert the produced stream element-wise, order
/// preserved.
pub fn execute_stream<P: TypedPlugin>(plugin: &P, data: Vec<u8>) -> (r: Result<
    Vec<Vec<u8>>,
    RuntimeError,
>)
    ensures
        match <P::In as FromBytes>::decode_spec(data@) {
            None => r == Err::<Vec<Vec<u8>>, RuntimeError>(RuntimeError::ConversionError),
            Some(v) => match plugin.call_stream_spec(v) {
                Ok(os) => match r {
                    Ok(bs) => bs@.len() == os.len() && forall|i: int|
                        0 <= i < bs@.len() ==> #[trigger] bs@[i]@ == <P::Out as IntoBytes>::encode_spec(
                            os[i],
                        ),
                    Err(_) => false,
                },
                Err(e) => r == Err::<Vec<Vec<u8>>, RuntimeError>(e),
            },
        },
{
    match <P::In as FromBytes>::decode(data) {
        None => Err(RuntimeError::ConversionError),
        Some(v) => match plugin.call_stream(v) {
            Ok(outs) => Ok(encode_all(outs)),
            Err(e) => Err(e),
        },
    }
}

/// Client-stream shape: the inbound stream is fully drained and
/// converted first; if any element fails, the whole call fails before
/// the typed handler ever runs. Only then is `call_from_stream`
/// invoked.
pub fn execute_from_stream<P: TypedPlugin>(plugin: &P, chunks: Vec<Vec<u8>>) -> (r: Result<
    Vec<u8>,
    RuntimeError,
>)
    ensures
        match spec_decode_all::<P::In>(chunk_views(chunks@)) {
            None => r == Err::<Vec<u8>, RuntimeError>(RuntimeError::ConversionError),
            Some(vs) => match plugin.call_from_stream_spec(vs) {
                Ok(o) => match r {
                    Ok(b) => b@ == <P::Out as IntoBytes>::encode_spec(o),
                    Err(_) => false,
                },
                Err(e) => r == Err::<Vec<u8>, RuntimeError>(e),
            },
        },
{
    match decode_all::<P::In>(chunks) {
        Err(e) => Err(e),
        Ok(vs) => match plugin.call_from_stream(vs) {
            Ok(out) => Ok(out.encode()),
            Err(e) => Err(e),
        },
    }
}

/// Bidirectional shape: inbound fully drained and converted (fail-fast
/// as in the client-stream shape), outbound fully drained and
/// converted, order preserved.
pub fn execute_stream_with_stream<P: TypedPlugin>(plugin: &P, chunks: Vec<Vec<u8>>) -> (r: Result<
    Vec<Vec<u8>>,
    RuntimeError,
>)
    ensures
        match spec_decode_all::<P::In>(chunk_views(chunks@)) {
            None => r == Err::<Vec<Vec<u8>>, RuntimeError>(RuntimeError::ConversionError),
            Some(vs) => match plugin.call_stream_with_stream_spec(vs) {
                Ok(os) => match r {
                    Ok(bs) => bs@.len() == os.len() && forall|i: int|
                        0 <= i < bs@.len() ==> #[trigger] bs@[i]@ == <P::Out as IntoBytes>::encode_spec(
                            os[i],
                        ),
                    Err(_) => false,
                },
                Err(e) => r == Err::<Vec<Vec<u8>>, RuntimeError>(e),
            },
        },
{
    match decode_all::<P::In>(chunks) {
        Err(e) => Err(e),
        Ok(vs) => match plugin.call_stream_with_stream(vs) {
            Ok(outs) => Ok(encode_all(outs)),
            Err(e) => Err(e),
        },
    }
}

} // verus!

//! RPC boundary adapter: recovers a logical (plugin id, payload
//! stream) pair from one multiplexed transport stream, and maps
//! registry results to wire responses and stable error codes.
//!
//! The protocol for the two client-initiated streaming shapes: the
//! first message of the stream carries the plugin id, every later
//! message carries a data chunk. Anything else — an empty stream, a
//! first message that is not an id, an id after the first position, or
//! a message carrying neither field — is a `ProtocolError`, and the
//! call is aborted here, before anything reaches the registry.

use vstd::prelude::*;
use crate::id::PluginId;
use crate::model::RuntimeError;

verus! {

/// Mathematical value of a [`WireFrame`].
pub ghost enum FrameView {
    Id(Seq<char>),
    Data(Seq<u8>),
    Empty,
}

/// One message of a multiplexed request stream, mirroring the wire
/// format's one-of field: a plugin id, a data chunk, or neither (a
/// message the peer left empty).
pub enum WireFrame {
    Id(String),
    Data(Vec<u8>),
    Empty,
}

impl View for WireFrame {
    type V = FrameView;

    open spec fn view(&self) -> FrameView {
        match self {
            WireFrame::Id(s) => FrameView::Id(s@),
            WireFrame::Data(d) => FrameView::Data(d@),
            WireFrame::Empty => FrameView::Empty,
        }
    }
}

/// The frame views of a sequence of frames.
pub open spec fn frame_views(s: Seq<WireFrame>) -> Seq<FrameView> {
    s.map_values(|f: WireFrame| f@)
}

/// The chunks of the tail of a stream: every frame must be a data
/// chunk; any id or empty frame poisons the whole tail.
pub open spec fn spec_data_chunks(frames: Seq<FrameView>) -> Option<Seq<Seq<u8>>>
    decreases frames.len(),
{
    if frames.len() == 0 {
        Some(Seq::empty())
    } else {
        match (spec_data_chunks(frames.drop_last()), frames.last()) {
            (Some(cs), FrameView::Data(d)) => Some(cs.push(d)),
            _ => None,
        }
    }
}

/// What demultiplexing a whole stream yields: the id carried by the
/// first frame and the chunks of all later frames, or `ProtocolError`.
pub open spec fn spec_demux(frames: Seq<FrameView>) -> Result<
    (Seq<char>, Seq<Seq<u8>>),
    RuntimeError,
> {
    if frames.len() == 0 {
        Err(RuntimeError::ProtocolError)
    } else {
        match frames[0] {
            FrameView::Id(id) => match spec_data_chunks(frames.drop_first()) {
                Some(cs) => Ok((id, cs)),
                None => Err(RuntimeError::ProtocolError),
            },
            _ => Err(RuntimeError::ProtocolError),
        }
    }
}

/// A non-data frame anywhere in the tail poisons it.
proof fn lemma_data_chunks_none(frames: Seq<FrameView>, i: int)
    requires
        0 <= i < frames.len(),
        !(frames[i] is Data),
    ensures
        spec_data_chunks(frames) is None,
    decreases frames.len(),
{
    if i < frames.len() - 1 {
        lemma_data_chunks_none(frames.drop_last(), i);
    }
}

/// A stream whose first message is a data chunk (or an empty frame, or
/// nothing at all) is rejected as a `ProtocolError` before the
/// registry is ever consulted.
pub proof fn lemma_misplaced_first_frame_rejected(frames: Seq<FrameView>)
    requires
        frames.len() == 0 || !(frames[0] is Id),
    ensures
        spec_demux(frames) == Err::<(Seq<char>, Seq<Seq<u8>>), RuntimeError>(
            RuntimeError::ProtocolError,
        ),
{
}

/// An id frame anywhere after the first position is likewise rejected.
pub proof fn lemma_late_id_frame_rejected(frames: Seq<FrameView>, i: int)
    requires
        1 <= i < frames.len(),
        frames[i] is Id,
    ensures
        spec_demux(frames) == Err::<(Seq<char>, Seq<Seq<u8>>), RuntimeError>(
            RuntimeError::ProtocolError,
        ),
{
    lemma_data_chunks_none(frames.drop_first(), i - 1);
}

/// Demultiplex one drained request stream into the plugin id named by
/// its first message and the payload chunks of the rest.
#[verifier::loop_isolation(false)]
pub fn demux_request(frames: Vec<WireFrame>) -> (r: Result<
    (PluginId, Vec<Vec<u8>>),
    RuntimeError,
>)
    ensures
        match (r, spec_demux(frame_views(frames@))) {
            (Ok((pid, chunks)), Ok(parts)) => pid@ == parts.0 && chunks@.map_values(
                |c: Vec<u8>| c@,
            ) == parts.1,
            (Err(e1), Err(e2)) => e1 == e2,
            _ => false,
        },
{
    let ghost orig = frame_views(frames@);
    let mut rest = frames;
    if rest.len() == 0 {
        return Err(RuntimeError::ProtocolError);
    }
    let first = rest.remove(0);
    proof {
        assert forall|k: int| 0 <= k < rest@.len() implies #[trigger] frame_views(rest@)[k]
            == orig.drop_first()[k] by {
            assert(frame_views(rest@)[k] == rest@[k]@);
        }
        assert(frame_views(rest@) =~= orig.drop_first());
    }
    let id = match first {
        WireFrame::Id(s) => s,
        WireFrame::Data(_) => {
            return Err(RuntimeError::ProtocolError);
        },
        WireFrame::Empty => {
            return Err(RuntimeError::ProtocolError);
        },
    };
    let ghost tail = frame_views(rest@);
    let mut chunks: Vec<Vec<u8>> = Vec::new();
    let mut i: usize = 0;
    let n = rest.len();
    while i < n
        invariant
            i <= n,
            n == tail.len(),
            rest@.len() == n - i,
            frame_views(rest@) == tail.subrange(i as int, n as int),
            spec_data_chunks(tail.take(i as int)) == Some(
                chunks@.map_values(|c: Vec<u8>| c@),
            ),
        decreases n - i,
    {
        let ghost prev = rest@;
        let frame = rest.remove(0);
        proof {
            assert forall|k: int| 0 <= k < rest@.len() implies #[trigger] frame_views(rest@)[k]
                == tail.subrange(i + 1, n as int)[k] by {
                assert(rest@[k] == prev[k + 1]);
                assert(frame_views(prev)[k + 1] == prev[k + 1]@);
            }
            assert(frame_views(rest@) =~= tail.subrange(i + 1, n as int));
            assert(frame_views(prev)[0] == prev[0]@);
            assert(frame@ == tail[i as int]);
        }
        match frame {
            WireFrame::Data(d) => {
                let ghost prev_chunks = chunks@;
                let ghost dv = d@;
                chunks.push(d);
                proof {
                    assert(tail.take(i + 1).drop_last() =~= tail.take(i as int));
                    assert(tail.take(i + 1).last() == tail[i as int]);
                    assert(chunks@.map_values(|c: Vec<u8>| c@) =~= prev_chunks.map_values(
                        |c: Vec<u8>| c@,
                    ).push(dv));
                }
            },
            WireFrame::Id(_) => {
                proof {
                    lemma_data_chunks_none(tail, i as int);
                }
                return Err(RuntimeError::ProtocolError);
            },
            WireFrame::Empty => {
                proof {
                    lemma_data_chunks_none(tail, i as int);
                }
                return Err(RuntimeError::ProtocolError);
            },
        }
        i = i + 1;
    }
    proof {
        assert(tail.take(n as int) =~= tail);
    }
    Ok((PluginId::from(id), chunks))
}

/// A unary or server-stream request as it arrives over the wire:
/// the plugin id and one payload.
pub struct WireRequest {
    pub id: String,
    pub data: Vec<u8>,
}

/// A response envelope as it leaves over the wire: one payload.
pub struct WireResponse {
    pub data: Vec<u8>,
}

/// The stable wire error code of each failure, gRPC-style: 3 is
/// invalid-argument, 5 is not-found, 9 is failed-precondition, 12 is
/// unimplemented, and 13 is the generic internal error that shields
/// implementation detail.
pub open spec fn spec_wire_error_code(e: RuntimeError) -> u32 {
    match e {
        RuntimeError::NotFound => 5,
        RuntimeError::InvalidState => 9,
        RuntimeError::HandleMissing => 13,
        RuntimeError::ModuleLoadError(_) => 13,
        RuntimeError::PluginInitError => 13,
        RuntimeError::ConversionError => 3,
        RuntimeError::ProtocolError => 3,
        RuntimeError::PluginError(_) => 13,
        RuntimeError::NotImplemented => 12,
    }
}

pub fn wire_error_code(e: &RuntimeError) -> (c: u32)
    ensures
        c == spec_wire_error_code(*e),
{
    match e {
        RuntimeError::NotFound => 5,
        RuntimeError::InvalidState => 9,
        RuntimeError::HandleMissing => 13,
        RuntimeError::ModuleLoadError(_) => 13,
        RuntimeError::PluginInitError => 13,
        RuntimeError::ConversionError => 3,
        RuntimeError::ProtocolError => 3,
        RuntimeError::PluginError(_) => 13,
        RuntimeError::NotImplemented => 12,
    }
}

/// Wrap one registry result payload into the single-message envelope
/// used by the unary and client-stream shapes.
pub fn wrap_response(data: Vec<u8>) -> (r: WireResponse)
    ensures
        r.data@ == data@,
{
    WireResponse { data }
}

/// Wrap a produced stream into envelopes, element-wise, order
/// preserved, as the two server-producing shapes answer.
pub fn wrap_responses(chunks: Vec<Vec<u8>>) -> (r: Vec<WireResponse>)
    ensures
        r@.len() == chunks@.len(),
        forall|i: int| 0 <= i < r@.len() ==> #[trigger] r@[i].data@ == chunks@[i]@,
{
    let ghost orig = chunks@;
    let mut rest = chunks;
    let mut out: Vec<WireResponse> = Vec::new();
    let mut i: usize = 0;
    let n = rest.len();
    while i < n
        invariant
            i <= n,
            n == orig.len(),
            rest@.len() == n - i,
            forall|k: int| 0 <= k < rest@.len() ==> #[trigger] rest@[k]@ == orig[i + k]@,
            out@.len() == i as nat,
            forall|k: int| 0 <= k < i ==> #[trigger] out@[k].data@ == orig[k]@,
        decreases n - i,
    {
        let ghost prev = rest@;
        let data = rest.remove(0);
        proof {
            assert(data@ == prev[0]@);
            assert forall|k: int| 0 <= k < rest@.len() implies #[trigger] rest@[k]@ == orig[
                i + 1 + k
            ]@ by {
                assert(rest@[k] == prev[k + 1]);
            }
        }
        out.push(WireResponse { data });
        i = i + 1;
    }
    out
}

} // verus!

//! The key-value codec: bytes in, messages out; messages in, bytes out.
use vstd::prelude::*;
use crate::resp::{
    RedisFrame, Resp, DecodeError, EncodeError, frame_model, frames_model, resp_bytes, resps_bytes,
    valid_resp, is_type_byte, bad_number_line, frames_then_partial, wire_frame, wire_frames,
    lemma_wire_frames_index, lemma_frames_model, decode_frames, encode_frame,
};
use crate::message::{
    Message, MessageDetails, MessageValue, QueryMessage, QueryResponse, RawFrame, ASTHolder,
};
use crate::convert::{val_to_resp, value_to_frame};
use crate::classify::{
    classified_query, classified_response, process_redis_frame_query, process_redis_frame_response,
};

verus! {

broadcast use vstd::std_specs::vec::group_vec_axioms;

/// The key-value protocol has no response marker: the codec is told which side it reads.
#[derive(Debug, Clone, Copy, PartialEq, Eq, Structural)]
pub enum DecodeType {
    Query,
    Response,
}

/// Per-connection codec for the key-value protocol.
#[derive(Debug)]
pub struct RedisCodec {
    decode_type: DecodeType,
    enable_metadata: bool,
}

/// The frame a message stands on, if it stands on a key-value frame.
pub open spec fn original_resp(m: Message) -> Option<Resp> {
    match m.original {
        RawFrame::Redis(f) => Some(f@),
        _ => None,
    }
}

/// The frame rebuilt from a rewritten query: an array of its preserved command
/// frames where there are some, else its text as a simple string.
pub open spec fn query_frame(q: QueryMessage) -> Resp {
    match q.ast {
        Some(ASTHolder::Commands(v)) => Resp::Arr(frames_model(v@)),
        None => Resp::Simple(q.query_string@),
    }
}

/// The bytes `OK`.
pub open spec fn ok_text() -> Seq<u8> {
    seq![79u8, 75u8]
}

/// The frame rebuilt from a rewritten response: its result, else its error text,
/// else `+OK`.
pub open spec fn response_frame(r: QueryResponse) -> Resp {
    match r.result {
        Some(v) => val_to_resp(v@),
        None => match r.error {
            Some(MessageValue::Strings(s)) => Resp::Fail(s@),
            _ => Resp::Simple(ok_text()),
        },
    }
}

/// The frame that encoding a message writes: the original unless the message was
/// rewritten, else one rebuilt from its details.
pub open spec fn message_frame(m: Message) -> Option<Resp> {
    if !m.modified {
        original_resp(m)
    } else {
        match m.details {
            MessageDetails::Query(q) => Some(query_frame(q)),
            MessageDetails::Response(r) => Some(response_frame(r)),
            MessageDetails::Unknown => original_resp(m),
        }
    }
}

/// A message that can be encoded.
pub open spec fn message_encodable(m: Message) -> bool {
    message_frame(m) is Some && valid_resp(message_frame(m)->Some_0)
}

/// A message whose frame the encoder writes without fail: encodable, with
/// UTF-8 error texts.
pub open spec fn message_on_wire(m: Message) -> bool {
    message_frame(m) is Some && wire_frame(message_frame(m)->Some_0)
}

/// The bytes written for a run of encodable messages.
pub open spec fn messages_bytes(ms: Seq<Message>) -> Seq<u8>
    decreases ms.len(),
{
    if ms.len() == 0 {
        Seq::empty()
    } else {
        messages_bytes(ms.subrange(0, ms.len() - 1)) + resp_bytes(
            message_frame(ms[ms.len() - 1])->Some_0,
        )
    }
}

/// The key-value frames that a batch of messages stands on.
pub open spec fn originals(ms: Seq<Message>) -> Seq<Resp> {
    ms.map_values(|m: Message| original_resp(m)->Some_0)
}

impl RedisCodec {
    pub closed spec fn spec_decode_type(&self) -> DecodeType {
        self.decode_type
    }

    pub closed spec fn spec_enable_metadata(&self) -> bool {
        self.enable_metadata
    }

    /// The details a decoded message carries for the frame `f`.
    pub open spec fn details_for(&self, d: MessageDetails, f: Resp) -> bool {
        if self.spec_enable_metadata() {
            match self.spec_decode_type() {
                DecodeType::Response => d matches MessageDetails::Response(r)
                    && classified_response(r, f),
                DecodeType::Query => d matches MessageDetails::Query(q) && classified_query(q, f),
            }
        } else {
            d is Unknown
        }
    }

    /// A decoded message for the frame `f`: unmodified, standing on `f`.
    pub open spec fn decoded_as(&self, m: Message, f: Resp) -> bool {
        &&& !m.modified
        &&& original_resp(m) == Some(f)
        &&& self.details_for(m.details, f)
    }

    /// A codec for one side of a connection; classification is off.
    pub fn new(decode_type: DecodeType) -> (r: RedisCodec)
        ensures
            r.spec_decode_type() == decode_type,
            !r.spec_enable_metadata(),
    {
        RedisCodec { decode_type, enable_metadata: false }
    }

    /// Turns classification of decoded frames on or off.
    pub fn set_enable_metadata(&mut self, enable: bool)
        ensures
            final(self).spec_decode_type() == old(self).spec_decode_type(),
            final(self).spec_enable_metadata() == enable,
    {
        self.enable_metadata = enable;
    }

    /// Wraps a decoded frame in a message, classified where classification is on.
    pub fn frame_to_message(&self, frame: RedisFrame) -> (r: Message)
        ensures
            self.decoded_as(r, frame@),
    {
        if self.enable_metadata {
            let details = match self.decode_type {
                DecodeType::Response => MessageDetails::Response(
                    process_redis_frame_response(&frame),
                ),
                DecodeType::Query => MessageDetails::Query(process_redis_frame_query(&frame)),
            };
            Message::new(details, false, RawFrame::Redis(frame))
        } else {
            Message::new(MessageDetails::Unknown, false, RawFrame::Redis(frame))
        }
    }

    fn build_redis_response_frame(resp: QueryResponse) -> (r: RedisFrame)
        ensures
            r@ == response_frame(resp),
    {
        if let Some(result) = &resp.result {
            return value_to_frame(result);
        }
        if let Some(MessageValue::Strings(s)) = resp.error {
            return RedisFrame::Error(s);
        }
        let mut ok: Vec<u8> = Vec::new();
        ok.push(79u8);
        ok.push(75u8);
        assert(ok@ =~= ok_text());
        RedisFrame::SimpleString(ok)
    }

    fn build_redis_query_frame(query: QueryMessage) -> (r: RedisFrame)
        ensures
            r@ == query_frame(query),
    {
        match query.ast {
            Some(ASTHolder::Commands(frames)) => RedisFrame::Array(frames),
            None => RedisFrame::SimpleString(query.query_string),
        }
    }

    fn encode_message(&self, item: Message) -> (r: Result<RedisFrame, EncodeError>)
        ensures
            match message_frame(item) {
                Some(f) => r matches Ok(g) && g@ == f,
                None => r is Err,
            },
    {
        if !item.modified {
            get_redis_frame(item.original)
        } else {
            match item.details {
                MessageDetails::Query(qm) => Ok(RedisCodec::build_redis_query_frame(qm)),
                MessageDetails::Response(qr) => Ok(RedisCodec::build_redis_response_frame(qr)),
                MessageDetails::Unknown => get_redis_frame(item.original),
            }
        }
    }

    /// Takes every whole frame off the front of `src` as messages, in order.
    ///
    /// `Ok(None)` when not one whole frame is there yet; bytes after the last
    /// whole frame stay in `src`. On an error `src` is left alone.
    pub fn decode(&mut self, src: &mut Vec<u8>) -> (r: Result<Option<Vec<Message>>, DecodeError>)
        ensures
            *final(self) == *old(self),
            match r {
                Ok(Some(ms)) => {
                    &&& ms.len() > 0
                    &&& forall|i: int|
                        0 <= i < ms.len() ==> #[trigger] original_resp(ms@[i]) is Some
                            && old(self).decoded_as(ms@[i], original_resp(ms@[i])->Some_0)
                    &&& ms.len() + final(src)@.len() <= old(src)@.len()
                    &&& final(src)@ == old(src)@.subrange(
                        old(src)@.len() - final(src)@.len(),
                        old(src)@.len() as int,
                    )
                },
                _ => final(src)@ == old(src)@,
            },
            old(src)@.len() > 0 && !is_type_byte(old(src)@[0]) ==> r is Err,
            bad_number_line(old(src)@, 0) ==> r is Err,
            forall|fs: Seq<Resp>, g: Resp, k: int|
                #[trigger] frames_then_partial(old(src)@, fs, g, k) ==> if fs.len() == 0 {
                    r matches Ok(None)
                } else {
                    r matches Ok(Some(ms)) && originals(ms@) == fs && final(src)@ == resp_bytes(
                        g,
                    ).subrange(0, k)
                },
    {
        match decode_frames(src) {
            Err(e) => Err(e),
            Ok(None) => Ok(None),
            Ok(Some(frames)) => {
                let ghost fm = frames_model(frames@);
                proof {
                    lemma_frames_model(frames@);
                }
                let n: usize = frames.len();
                let mut frames = frames;
                let mut out: Vec<Message> = Vec::new();
                while frames.len() > 0
                    invariant
                        out.len() + frames.len() == n,
                        fm.len() == n,
                        frames_model(frames@) == fm.subrange(out.len() as int, n as int),
                        forall|i: int|
                            0 <= i < out.len() ==> #[trigger] original_resp(out@[i]) == Some(fm[i])
                                && self.decoded_as(out@[i], fm[i]),
                    decreases frames.len(),
                {
                    let ghost before = frames@;
                    let ghost done = out.len();
                    let f = frames.remove(0);
                    proof {
                        lemma_frames_model(before);
                        lemma_frames_model(frames@);
                        assert(frames@ =~= before.subrange(1, before.len() as int));
                        assert(frame_model(f) == frames_model(before)[0]);
                        assert(frames_model(before)[0] == fm[done as int]);
                        assert forall|j: int| 0 <= j < frames@.len() implies frames_model(frames@)[j]
                            == fm.subrange(done + 1, n as int)[j] by {
                            assert(frames_model(before)[j + 1] == fm.subrange(done as int, n as int)[j
                                + 1]);
                        }
                        assert(frames_model(frames@) =~= fm.subrange(done + 1, n as int));
                    }
                    let m = self.frame_to_message(f);
                    out.push(m);
                    assert(original_resp(out@[done as int]) == Some(fm[done as int]));
                }
                assert(originals(out@) =~= fm);
                Ok(Some(out))
            },
        }
    }

    /// Appends the bytes of each message in order, stopping at the first message
    /// that cannot be encoded; what was written for the messages before it stays.
    pub fn encode(&mut self, item: Vec<Message>, dst: &mut Vec<u8>) -> (r: Result<(), EncodeError>)
        ensures
            *final(self) == *old(self),
            r is Ok ==> forall|i: int| 0 <= i < item.len() ==> #[trigger] message_encodable(item@[i]),
            r is Ok ==> final(dst)@ == old(dst)@ + messages_bytes(item@),
            (exists|i: int| 0 <= i < item.len() && !#[trigger] message_encodable(item@[i])) ==> r is Err,
            (forall|i: int| 0 <= i < item.len() ==> #[trigger] message_on_wire(item@[i])) ==> r is Ok,
            r is Err ==> exists|k: int|
                0 <= k < item.len() && (forall|j: int|
                    0 <= j < k ==> message_encodable(#[trigger] item@[j])) && final(dst)@ == old(
                    dst,
                )@ + messages_bytes(item@.subrange(0, k)),
    {
        let ghost all = item@;
        let n: usize = item.len();
        let mut rest = item;
        let mut k: usize = 0;
        while rest.len() > 0
            invariant
                k + rest.len() == n,
                all.len() == n,
                all == item@,
                rest@ == all.subrange(k as int, n as int),
                forall|j: int| 0 <= j < k ==> #[trigger] message_encodable(all[j]),
                dst@ == old(dst)@ + messages_bytes(all.subrange(0, k as int)),
                *self == *old(self),
            decreases rest.len(),
        {
            let m = rest.remove(0);
            assert(m == all[k as int]);
            assert(rest@ =~= all.subrange(k + 1, n as int));
            let ghost pre = messages_bytes(all.subrange(0, k as int));
            assert(all.subrange(0, k + 1).subrange(0, k as int) =~= all.subrange(0, k as int));
            let frame = match self.encode_message(m) {
                Ok(f) => f,
                Err(e) => {
                    assert(!message_encodable(all[k as int]));
                    assert(!message_on_wire(all[k as int]));
                    assert(dst@ == old(dst)@ + messages_bytes(all.subrange(0, k as int)));
                    return Err(e);
                },
            };
            let ghost dst_before = dst@;
            match encode_frame(&frame, dst) {
                Ok(()) => {},
                Err(e) => {
                    assert(!message_on_wire(all[k as int]));
                    assert(dst@ == dst_before);
                    assert(dst@ == old(dst)@ + messages_bytes(all.subrange(0, k as int)));
                    return Err(e);
                },
            }
            assert(all.subrange(0, k + 1)[k as int] == all[k as int]);
            assert(dst@ == old(dst)@ + messages_bytes(all.subrange(0, k + 1))) by {
                assert(old(dst)@ + pre + resp_bytes(frame@) =~= old(dst)@ + (pre + resp_bytes(frame@)));
            }
            k = k + 1;
        }
        assert(all.subrange(0, n as int) =~= all);
        Ok(())
    }
}

/// The key-value frame of a message; an error for a frame of another protocol.
fn get_redis_frame(rf: RawFrame) -> (r: Result<RedisFrame, EncodeError>)
    ensures
        match rf {
            RawFrame::Redis(f) => r matches Ok(g) && g == f,
            _ => r is Err,
        },
{
    match rf {
        RawFrame::Redis(frame) => Ok(frame),
        _ => Err(EncodeError::UnsupportedFrame),
    }
}

/// Passthrough: messages that stand unmodified on wire frames are all written
/// without fail, and what encoding writes is exactly the bytes of those frames.
/// With the batch clause of `RedisCodec::decode`, encoding a decoded batch
/// gives back the bytes it was decoded from.
pub proof fn lemma_passthrough(ms: Seq<Message>)
    requires
        forall|i: int| 0 <= i < ms.len() ==> !(#[trigger] ms[i]).modified && original_resp(ms[i]) is Some,
        wire_frames(originals(ms)),
    ensures
        forall|i: int| 0 <= i < ms.len() ==> #[trigger] message_on_wire(ms[i]),
        forall|i: int| 0 <= i < ms.len() ==> #[trigger] message_encodable(ms[i]),
        messages_bytes(ms) == resps_bytes(originals(ms)),
    decreases ms.len(),
{
    assert forall|i: int| 0 <= i < ms.len() implies #[trigger] message_on_wire(ms[i]) by {
        lemma_wire_frames_index(originals(ms), i);
    }
    assert forall|i: int| 0 <= i < ms.len() implies #[trigger] message_encodable(ms[i]) by {
        assert(message_on_wire(ms[i]));
    }
    if ms.len() > 0 {
        let d = ms.subrange(0, ms.len() - 1);
        assert(originals(ms).subrange(0, ms.len() - 1) =~= originals(d));
        assert forall|i: int| 0 <= i < d.len() implies !(#[trigger] d[i]).modified && original_resp(d[i]) is Some by {
            assert(d[i] == ms[i]);
        }
        lemma_passthrough(d);
    }
}

} // verus!

//! Message codecs. A codec turns an outgoing message into bytes appended to
//! a frame buffer, and an incoming frame back into a message. The value
//! (de)serialisation itself is serde's; this module owns what happens to the
//! bytes around it: which bytes go into the frame, which bytes the parser is
//! shown, and which error a failure becomes.

use vstd::prelude::*;
use vstd::string::StringSliceAdditionalSpecFns;
use vstd::utf8::*;
use crate::buffer::{buffer_capacity, buffer_contents, buffer_put, buffer_remaining, buffer_room};

verus! {

broadcast use vstd::utf8::group_utf8_lib;

#[verifier::external_type_specification]
#[verifier::external_body]
pub struct ExUtf8Error(core::str::Utf8Error);

#[verifier::external_type_specification]
#[verifier::external_body]
pub struct ExJsonError(serde_json::Error);

#[verifier::external_type_specification]
#[verifier::external_body]
pub struct ExBincodeErrorKind(bincode::ErrorKind);

/// Why a frame could not be produced or understood.
#[derive(Debug)]
pub enum CodecError {
    /// The frame's bytes are not UTF-8, so they cannot hold JSON text.
    CouldntCreateString(core::str::Utf8Error),
    /// bincode refused the value or the bytes.
    BinCodeError(bincode::Error),
    /// serde_json refused the value or the text.
    JsonError(serde_json::Error),
}

/// `core::str::from_utf8`: as its documentation states, it succeeds exactly
/// when the bytes are well-formed UTF-8 (no overlong forms, no surrogates,
/// nothing above U+10FFFF), and the string it returns is those very bytes.
#[verifier::external_body]
fn str_from_utf8(bytes: &[u8]) -> (res: Result<&str, core::str::Utf8Error>)
    ensures
        res is Ok <==> valid_utf8(bytes@),
        res matches Ok(s) ==> s.spec_bytes() == bytes@,
{
    core::str::from_utf8(bytes)
}

/// What a serde_json outcome becomes once it leaves the JSON codec.
pub open spec fn json_result<T>(out: Result<T, serde_json::Error>) -> Result<T, CodecError> {
    match out {
        Ok(v) => Ok(v),
        Err(e) => Err(CodecError::JsonError(e)),
    }
}

/// What a bincode outcome becomes once it leaves the bincode codec.
pub open spec fn bincode_result<T>(out: Result<T, bincode::Error>) -> Result<T, CodecError> {
    match out {
        Ok(v) => Ok(v),
        Err(e) => Err(CodecError::BinCodeError(e)),
    }
}


/// What writing a JSON-rendered message does: `out` is the rendering, the
/// buffer goes from `before` to `after`, and the write returns `res`. A
/// rendering is appended as UTF-8 and the capacity stays; a failure leaves
/// the buffer as it was and becomes `CodecError::JsonError`.
pub open spec fn json_written(
    out: Result<String, serde_json::Error>,
    before: bytes::BytesMut,
    after: bytes::BytesMut,
    res: Result<(), CodecError>,
) -> bool {
    match out {
        Ok(text) => {
            &&& res is Ok
            &&& buffer_contents(after) == buffer_contents(before) + encode_utf8(text@)
            &&& buffer_capacity(after) == buffer_capacity(before)
        },
        Err(e) => {
            &&& res == Err::<(), CodecError>(CodecError::JsonError(e))
            &&& after == before
        },
    }
}

/// Every rendering that `encode` may give of `oe` fits in the room that
/// `buffer` has left.
pub open spec fn json_fits<OE, F: Fn(&OE) -> Result<String, serde_json::Error>>(
    oe: &OE,
    encode: F,
    buffer: bytes::BytesMut,
) -> bool {
    forall|out: Result<String, serde_json::Error>| #[trigger]
        call_ensures(encode, (oe,), out) ==> (out matches Ok(text) ==> encode_utf8(text@).len()
            <= buffer_room(buffer))
}

/// What `JsonCodec::serialize_outgoing` does: `encode` renders `oe`, and
/// the rendering is written as `json_written` says.
pub open spec fn json_serialized<OE, F: Fn(&OE) -> Result<String, serde_json::Error>>(
    oe: &OE,
    encode: F,
    before: bytes::BytesMut,
    after: bytes::BytesMut,
    res: Result<(), CodecError>,
) -> bool {
    exists|out: Result<String, serde_json::Error>| #[trigger]
        call_ensures(encode, (oe,), out) && json_written(out, before, after, res)
}

/// What `JsonCodec::deserialize_incoming` does with a frame: bytes that are
/// not UTF-8 give `CouldntCreateString`; otherwise `parse` is shown exactly
/// the frame's text and its outcome is returned, its error as
/// `CodecError::JsonError`.
pub open spec fn json_deserialized<IE, F: Fn(&str) -> Result<IE, serde_json::Error>>(
    bytes: Seq<u8>,
    parse: F,
    res: Result<IE, CodecError>,
) -> bool {
    &&& !valid_utf8(bytes) ==> (res matches Err(CodecError::CouldntCreateString(_)))
    &&& valid_utf8(bytes) ==> exists|s: &str, out: Result<IE, serde_json::Error>|
        {
            &&& s@ == decode_utf8(bytes)
            &&& #[trigger] call_ensures(parse, (s,), out)
            &&& res == json_result(out)
        }
}

/// What writing a bincode-encoded message does: `out` is the encoding, the
/// buffer goes from `before` to `after`, and the write returns `res`. An
/// encoding is appended and the capacity stays; a failure leaves the buffer
/// as it was and becomes `CodecError::BinCodeError`.
pub open spec fn bincode_written(
    out: Result<Vec<u8>, bincode::Error>,
    before: bytes::BytesMut,
    after: bytes::BytesMut,
    res: Result<(), CodecError>,
) -> bool {
    match out {
        Ok(data) => {
            &&& res is Ok
            &&& buffer_contents(after) == buffer_contents(before) + data@
            &&& buffer_capacity(after) == buffer_capacity(before)
        },
        Err(e) => {
            &&& res == Err::<(), CodecError>(CodecError::BinCodeError(e))
            &&& after == before
        },
    }
}

/// Every encoding that `encode` may give of `oe` fits in the room that
/// `buffer` has left.
pub open spec fn bincode_fits<OE, F: Fn(&OE) -> Result<Vec<u8>, bincode::Error>>(
    oe: &OE,
    encode: F,
    buffer: bytes::BytesMut,
) -> bool {
    forall|out: Result<Vec<u8>, bincode::Error>| #[trigger]
        call_ensures(encode, (oe,), out) ==> (out matches Ok(data) ==> data@.len() <= buffer_room(
            buffer,
        ))
}

/// What `BincodeCodec::serialize_outgoing` does: `encode` encodes `oe`, and
/// the encoding is written as `bincode_written` says.
pub open spec fn bincode_serialized<OE, F: Fn(&OE) -> Result<Vec<u8>, bincode::Error>>(
    oe: &OE,
    encode: F,
    before: bytes::BytesMut,
    after: bytes::BytesMut,
    res: Result<(), CodecError>,
) -> bool {
    exists|out: Result<Vec<u8>, bincode::Error>| #[trigger]
        call_ensures(encode, (oe,), out) && bincode_written(out, before, after, res)
}

/// What `BincodeCodec::deserialize_incoming` does with a frame: `parse` is
/// shown the whole frame and its outcome is returned, its error as
/// `CodecError::BinCodeError`.
pub open spec fn bincode_deserialized<IE, F: Fn(&[u8]) -> Result<IE, bincode::Error>>(
    bytes: &[u8],
    parse: F,
    res: Result<IE, CodecError>,
) -> bool {
    exists|out: Result<IE, bincode::Error>| #[trigger]
        call_ensures(parse, (bytes,), out) && res == bincode_result(out)
}

/// A JSON frame decodes back to the text it was written from: the bytes
/// appended to an empty buffer for `text` are valid UTF-8 and decode to
/// `text`.
pub proof fn lemma_json_frame_round_trip(text: Seq<char>)
    ensures
        valid_utf8(Seq::<u8>::empty() + encode_utf8(text)),
        decode_utf8(Seq::<u8>::empty() + encode_utf8(text)) == text,
{
    assert(Seq::<u8>::empty() + encode_utf8(text) =~= encode_utf8(text));
}

/// Two JSON texts written one after the other into a buffer read back as
/// the two texts one after the other: appending never disturbs the text
/// already in the frame.
pub proof fn lemma_json_frames_concatenate(first: Seq<char>, second: Seq<char>)
    ensures
        valid_utf8(encode_utf8(first) + encode_utf8(second)),
        decode_utf8(encode_utf8(first) + encode_utf8(second)) == first + second,
{
    let bytes = encode_utf8(first) + encode_utf8(second);
    assert(encode_utf8(first + second) =~= bytes) by {
        lemma_encode_utf8_concat(first, second);
    }
}

/// The encoding of a concatenation is the concatenation of the encodings.
proof fn lemma_encode_utf8_concat(first: Seq<char>, second: Seq<char>)
    ensures
        encode_utf8(first + second) == encode_utf8(first) + encode_utf8(second),
    decreases first.len(),
{
    if first.len() == 0 {
        assert(first + second =~= second);
        assert(encode_utf8(first) + encode_utf8(second) =~= encode_utf8(second));
    } else {
        lemma_encode_utf8_concat(first.drop_first(), second);
        assert((first + second).drop_first() =~= first.drop_first() + second);
        assert(encode_utf8(first + second) =~= encode_scalar(first[0] as u32) + encode_utf8(
            first.drop_first() + second,
        ));
    }
}

/// A message written by `JsonCodec::serialize_outgoing` into an empty
/// buffer is read back by `JsonCodec::deserialize_incoming` from that
/// buffer as the same message, whenever the parser reads back what the
/// renderer writes (serde_json's own round trip for the message type).
pub proof fn lemma_json_codec_round_trip<T, E, P>(
    v: &T,
    encode: E,
    parse: P,
    empty: bytes::BytesMut,
    frame: bytes::BytesMut,
    written: Result<(), CodecError>,
    read: Result<T, CodecError>,
) where
    E: Fn(&T) -> Result<String, serde_json::Error>,
    P: Fn(&str) -> Result<T, serde_json::Error>,

    requires
        forall|text: String, s: &str, out: Result<T, serde_json::Error>|
            #![trigger call_ensures(encode, (v,), Ok::<String, serde_json::Error>(text)), call_ensures(parse, (s,), out)]
            call_ensures(encode, (v,), Ok::<String, serde_json::Error>(text)) && s@ == text@
                && call_ensures(parse, (s,), out) ==> out == Ok::<T, serde_json::Error>(*v),
        buffer_contents(empty) == Seq::<u8>::empty(),
        json_serialized(v, encode, empty, frame, written),
        written is Ok,
        json_deserialized(buffer_contents(frame), parse, read),
    ensures
        read == Ok::<T, CodecError>(*v),
{
    let out = choose|out: Result<String, serde_json::Error>|
        #[trigger] call_ensures(encode, (v,), out) && json_written(out, empty, frame, written);
    let text = out->Ok_0;
    lemma_json_frame_round_trip(text@);
    assert(buffer_contents(frame) == Seq::<u8>::empty() + encode_utf8(text@));
    let (s, parsed) = choose|s: &str, parsed: Result<T, serde_json::Error>|
        {
            &&& s@ == decode_utf8(buffer_contents(frame))
            &&& #[trigger] call_ensures(parse, (s,), parsed)
            &&& read == json_result(parsed)
        };
    assert(call_ensures(encode, (v,), Ok::<String, serde_json::Error>(text)));
    assert(parsed == Ok::<T, serde_json::Error>(*v));
}

/// A message written by `BincodeCodec::serialize_outgoing` into an empty
/// buffer is read back by `BincodeCodec::deserialize_incoming` from that
/// buffer as the same message, whenever the decoder reads back what the
/// encoder writes (bincode's own round trip for the message type).
pub proof fn lemma_bincode_codec_round_trip<T, E, P>(
    v: &T,
    encode: E,
    parse: P,
    empty: bytes::BytesMut,
    frame: bytes::BytesMut,
    frame_bytes: &[u8],
    written: Result<(), CodecError>,
    read: Result<T, CodecError>,
) where
    E: Fn(&T) -> Result<Vec<u8>, bincode::Error>,
    P: Fn(&[u8]) -> Result<T, bincode::Error>,

    requires
        forall|data: Vec<u8>, b: &[u8], out: Result<T, bincode::Error>|
            #![trigger call_ensures(encode, (v,), Ok::<Vec<u8>, bincode::Error>(data)), call_ensures(parse, (b,), out)]
            call_ensures(encode, (v,), Ok::<Vec<u8>, bincode::Error>(data)) && b@ == data@
                && call_ensures(parse, (b,), out) ==> out == Ok::<T, bincode::Error>(*v),
        buffer_contents(empty) == Seq::<u8>::empty(),
        bincode_serialized(v, encode, empty, frame, written),
        written is Ok,
        frame_bytes@ == buffer_contents(frame),
        bincode_deserialized(frame_bytes, parse, read),
    ensures
        read == Ok::<T, CodecError>(*v),
{
    let out = choose|out: Result<Vec<u8>, bincode::Error>|
        #[trigger] call_ensures(encode, (v,), out) && bincode_written(out, empty, frame, written);
    let data = out->Ok_0;
    assert(buffer_contents(frame) =~= data@);
    let parsed = choose|parsed: Result<T, bincode::Error>|
        #[trigger] call_ensures(parse, (frame_bytes,), parsed) && read == bincode_result(parsed);
    assert(call_ensures(encode, (v,), Ok::<Vec<u8>, bincode::Error>(data)));
    assert(parsed == Ok::<T, bincode::Error>(*v));
}

/// Messages as JSON text, one message per frame.
pub struct JsonCodec;

impl JsonCodec {
    /// Renders an outgoing message with `encode` (serde_json's `to_string`)
    /// and puts the text into the frame buffer as UTF-8. The buffer is not
    /// grown: the text must fit in the room it has left. A rendering
    /// failure is handed back as `CodecError::JsonError` and leaves the
    /// buffer as it was.
    pub fn serialize_outgoing<OE, F>(oe: &OE, bytes: &mut bytes::BytesMut, encode: F) -> (res:
        Result<(), CodecError>) where F: Fn(&OE) -> Result<String, serde_json::Error>,

        requires
            call_requires(encode, (oe,)),
            json_fits(oe, encode, *old(bytes)),
        ensures
            json_serialized(oe, encode, *old(bytes), *final(bytes), res),
    {
        let out = encode(oe);
        match out {
            Ok(text) => {
                buffer_put(bytes, text.as_str().as_bytes());
                Ok(())
            },
            Err(e) => Err(CodecError::JsonError(e)),
        }
    }

    /// Like `serialize_outgoing`, for a buffer that may lack room: when the
    /// rendering does not fit, nothing is written and `None` comes back;
    /// otherwise the outcome of the write comes back in `Some`.
    pub fn serialize_outgoing_within_room<OE, F>(
        oe: &OE,
        bytes: &mut bytes::BytesMut,
        encode: F,
    ) -> (res: Option<Result<(), CodecError>>) where
        F: Fn(&OE) -> Result<String, serde_json::Error>,

        requires
            call_requires(encode, (oe,)),
        ensures
            exists|out: Result<String, serde_json::Error>|
                {
                    &&& #[trigger] call_ensures(encode, (oe,), out)
                    &&& if out matches Ok(text) && encode_utf8(text@).len() > buffer_room(
                        *old(bytes),
                    ) {
                        res is None && *final(bytes) == *old(bytes)
                    } else {
                        res matches Some(r) && json_written(out, *old(bytes), *final(bytes), r)
                    }
                },
    {
        let out = encode(oe);
        match out {
            Ok(text) => {
                let data = text.as_str().as_bytes();
                if data.len() <= buffer_remaining(bytes) {
                    buffer_put(bytes, data);
                    Some(Ok(()))
                } else {
                    None
                }
            },
            Err(e) => Some(Err(CodecError::JsonError(e))),
        }
    }

    /// Reads an incoming frame: the bytes must be UTF-8 text, which `parse`
    /// (serde_json's `from_str` for the expected message type) turns into a
    /// message. Bytes that are not UTF-8 give `CouldntCreateString` without
    /// calling `parse`; otherwise the parser sees exactly the frame's text
    /// and its outcome is returned, its error as `CodecError::JsonError`.
    pub fn deserialize_incoming<IE, F>(bytes: &[u8], parse: F) -> (res: Result<IE, CodecError>) where
        F: Fn(&str) -> Result<IE, serde_json::Error>,

        requires
            forall|s: &str| #[trigger] call_requires(parse, (s,)),
        ensures
            json_deserialized(bytes@, parse, res),
    {
        match str_from_utf8(bytes) {
            Ok(text) => {
                let out = parse(text);
                proof {
                    assert(text@ == decode_utf8(bytes@));
                }
                match out {
                    Ok(v) => Ok(v),
                    Err(e) => Err(CodecError::JsonError(e)),
                }
            },
            Err(e) => Err(CodecError::CouldntCreateString(e)),
        }
    }
}

/// Messages in bincode's binary form, one message per frame.
pub struct BincodeCodec;

impl BincodeCodec {
    /// Encodes an outgoing message with `encode` (bincode's `serialize`
    /// without a size limit) and puts the bytes into the frame buffer. The
    /// buffer is not grown: the encoding must fit in the room it has left.
    /// An encoding failure is handed back as `CodecError::BinCodeError` and
    /// leaves the buffer as it was.
    pub fn serialize_outgoing<OE, F>(oe: &OE, bytes: &mut bytes::BytesMut, encode: F) -> (res:
        Result<(), CodecError>) where F: Fn(&OE) -> Result<Vec<u8>, bincode::Error>,

        requires
            call_requires(encode, (oe,)),
            bincode_fits(oe, encode, *old(bytes)),
        ensures
            bincode_serialized(oe, encode, *old(bytes), *final(bytes), res),
    {
        let out = encode(oe);
        match out {
            Ok(data) => {
                buffer_put(bytes, data.as_slice());
                Ok(())
            },
            Err(e) => Err(CodecError::BinCodeError(e)),
        }
    }

    /// Like `serialize_outgoing`, for a buffer that may lack room: when the
    /// encoding does not fit, nothing is written and `None` comes back;
    /// otherwise the outcome of the write comes back in `Some`.
    pub fn serialize_outgoing_within_room<OE, F>(
        oe: &OE,
        bytes: &mut bytes::BytesMut,
        encode: F,
    ) -> (res: Option<Result<(), CodecError>>) where
        F: Fn(&OE) -> Result<Vec<u8>, bincode::Error>,

        requires
            call_requires(encode, (oe,)),
        ensures
            exists|out: Result<Vec<u8>, bincode::Error>|
                {
                    &&& #[trigger] call_ensures(encode, (oe,), out)
                    &&& if out matches Ok(data) && data@.len() > buffer_room(*old(bytes)) {
                        res is None && *final(bytes) == *old(bytes)
                    } else {
                        res matches Some(r) && bincode_written(out, *old(bytes), *final(bytes), r)
                    }
                },
    {
        let out = encode(oe);
        match out {
            Ok(data) => {
                if data.len() <= buffer_remaining(bytes) {
                    buffer_put(bytes, data.as_slice());
                    Some(Ok(()))
                } else {
                    None
                }
            },
            Err(e) => Some(Err(CodecError::BinCodeError(e))),
        }
    }

    /// Reads an incoming frame: `parse` (bincode's `deserialize` for the
    /// expected message type) is shown the whole frame, and its outcome is
    /// returned, its error as `CodecError::BinCodeError`.
    pub fn deserialize_incoming<IE, F>(bytes: &[u8], parse: F) -> (res: Result<IE, CodecError>) where
        F: Fn(&[u8]) -> Result<IE, bincode::Error>,

        requires
            call_requires(parse, (bytes,)),
        ensures
            bincode_deserialized(bytes, parse, res),
    {
        match parse(bytes) {
            Ok(v) => Ok(v),
            Err(e) => Err(CodecError::BinCodeError(e)),
        }
    }
}

} // verus!

//! The messages mesh nodes exchange, and their wire form.
use vstd::prelude::*;
use vstd::utf8::*;
use crate::error::RustMeshError;
use crate::wire::{
    put_bytes, put_string, put_u32, put_u64, read_error_text, take_bytes, take_string, take_u32,
    take_u64, write_error_text, invalid_tag_error,
    bytes_field, bytes_fit, le_u32_bytes, le_u64_bytes, parse_bytes, parse_str, parse_u32, parse_u64,
    str_field, str_fits, lemma_parse_bytes_encoded, lemma_parse_bytes_sound, lemma_parse_str_encoded,
    lemma_parse_str_sound, lemma_parse_u32_encoded, lemma_parse_u32_sound, lemma_parse_u64_encoded,
    lemma_parse_u64_sound,
};

verus! {

/// A payload published on a topic.
#[derive(Debug)]
pub struct PublishPayload {
    pub topic: String,
    pub data: Vec<u8>,
    pub timestamp: u64,
}

/// A request to subscribe to a topic.
#[derive(Debug)]
pub struct SubscribePayload {
    pub topic: String,
}

/// A remote procedure request.
#[derive(Debug)]
pub struct RequestPayload {
    pub request_id: u32,
    pub method: String,
    pub params: Vec<u8>,
}

/// The answer to a remote procedure request.
#[derive(Debug)]
pub struct ResponsePayload {
    pub request_id: u32,
    pub result: Vec<u8>,
    pub error: String,
}

/// A message used to measure the mesh.
#[derive(Debug)]
pub struct BenchmarkPayload {
    pub id: u32,
    pub timestamp: u64,
    pub payload: Vec<u8>,
}

/// A message exchanged between mesh nodes.
#[derive(Debug)]
pub enum Message {
    Publish(PublishPayload),
    Subscribe(SubscribePayload),
    Request(RequestPayload),
    Response(ResponsePayload),
    Benchmark(BenchmarkPayload),
}

/// The name of a message's kind.
pub open spec fn label_of(m: &Message) -> Seq<char> {
    match m {
        Message::Publish(_) => "Publish"@,
        Message::Subscribe(_) => "Subscribe"@,
        Message::Request(_) => "Request"@,
        Message::Response(_) => "Response"@,
        Message::Benchmark(_) => "Benchmark"@,
    }
}

impl Message {
    /// The name of this message's kind.
    pub fn type_label(&self) -> (name: &str)
        ensures
            name@ == label_of(self),
    {
        match self {
            Message::Publish(_) => "Publish",
            Message::Subscribe(_) => "Subscribe",
            Message::Request(_) => "Request",
            Message::Response(_) => "Response",
            Message::Benchmark(_) => "Benchmark",
        }
    }
}


/// What a message holds, as mathematical values.
pub enum MessageView {
    Publish { topic: Seq<char>, data: Seq<u8>, timestamp: u64 },
    Subscribe { topic: Seq<char> },
    Request { request_id: u32, method: Seq<char>, params: Seq<u8> },
    Response { request_id: u32, result: Seq<u8>, error: Seq<char> },
    Benchmark { id: u32, timestamp: u64, payload: Seq<u8> },
}

impl View for Message {
    type V = MessageView;

    open spec fn view(&self) -> MessageView {
        match self {
            Message::Publish(p) => MessageView::Publish {
                topic: p.topic@,
                data: p.data@,
                timestamp: p.timestamp,
            },
            Message::Subscribe(p) => MessageView::Subscribe { topic: p.topic@ },
            Message::Request(p) => MessageView::Request {
                request_id: p.request_id,
                method: p.method@,
                params: p.params@,
            },
            Message::Response(p) => MessageView::Response {
                request_id: p.request_id,
                result: p.result@,
                error: p.error@,
            },
            Message::Benchmark(p) => MessageView::Benchmark {
                id: p.id,
                timestamp: p.timestamp,
                payload: p.payload@,
            },
        }
    }
}

/// The tag that opens a message's encoding: the position of its kind.
pub open spec fn tag_of(m: MessageView) -> u32 {
    match m {
        MessageView::Publish { .. } => 0,
        MessageView::Subscribe { .. } => 1,
        MessageView::Request { .. } => 2,
        MessageView::Response { .. } => 3,
        MessageView::Benchmark { .. } => 4,
    }
}

/// The fields of a message, encoded in their declared order.
pub open spec fn body_wire(m: MessageView) -> Seq<u8> {
    match m {
        MessageView::Publish { topic, data, timestamp } => str_field(topic) + bytes_field(data)
            + le_u64_bytes(timestamp),
        MessageView::Subscribe { topic } => str_field(topic),
        MessageView::Request { request_id, method, params } => le_u32_bytes(request_id)
            + str_field(method) + bytes_field(params),
        MessageView::Response { request_id, result, error } => le_u32_bytes(request_id)
            + bytes_field(result) + str_field(error),
        MessageView::Benchmark { id, timestamp, payload } => le_u32_bytes(id) + le_u64_bytes(
            timestamp,
        ) + bytes_field(payload),
    }
}

/// The wire form of a message: its tag as a little-endian `u32`, then its fields.
pub open spec fn wire(m: MessageView) -> Seq<u8> {
    le_u32_bytes(tag_of(m)) + body_wire(m)
}

/// Every text and byte string of the message is small enough to be a field.
pub open spec fn fits(m: MessageView) -> bool {
    match m {
        MessageView::Publish { topic, data, .. } => str_fits(topic) && bytes_fit(data),
        MessageView::Subscribe { topic } => str_fits(topic),
        MessageView::Request { method, params, .. } => str_fits(method) && bytes_fit(params),
        MessageView::Response { result, error, .. } => bytes_fit(result) && str_fits(error),
        MessageView::Benchmark { payload, .. } => bytes_fit(payload),
    }
}

/// The bytes `b` begin with the wire form of `m`, a message that fits.
pub open spec fn decodes_as(b: Seq<u8>, m: MessageView) -> bool {
    &&& fits(m)
    &&& wire(m).len() <= b.len()
    &&& b.take(wire(m).len() as int) == wire(m)
}

/// Reading the fields of a message of kind `tag` from position `pos` of `b`.
pub open spec fn parse_body(tag: u32, b: Seq<u8>, pos: int) -> Option<MessageView> {
    if tag == 0 {
        match parse_str(b.skip(pos)) {
            None => None,
            Some((topic, k1)) => match parse_bytes(b.skip(pos + k1)) {
                None => None,
                Some((data, k2)) => match parse_u64(b.skip(pos + k1 + k2)) {
                    None => None,
                    Some((timestamp, _)) => Some(MessageView::Publish { topic, data, timestamp }),
                },
            },
        }
    } else if tag == 1 {
        match parse_str(b.skip(pos)) {
            None => None,
            Some((topic, _)) => Some(MessageView::Subscribe { topic }),
        }
    } else if tag == 2 {
        match parse_u32(b.skip(pos)) {
            None => None,
            Some((request_id, k1)) => match parse_str(b.skip(pos + k1)) {
                None => None,
                Some((method, k2)) => match parse_bytes(b.skip(pos + k1 + k2)) {
                    None => None,
                    Some((params, _)) => Some(
                        MessageView::Request { request_id, method, params },
                    ),
                },
            },
        }
    } else if tag == 3 {
        match parse_u32(b.skip(pos)) {
            None => None,
            Some((request_id, k1)) => match parse_bytes(b.skip(pos + k1)) {
                None => None,
                Some((result, k2)) => match parse_str(b.skip(pos + k1 + k2)) {
                    None => None,
                    Some((error, _)) => Some(MessageView::Response { request_id, result, error }),
                },
            },
        }
    } else if tag == 4 {
        match parse_u32(b.skip(pos)) {
            None => None,
            Some((id, k1)) => match parse_u64(b.skip(pos + k1)) {
                None => None,
                Some((timestamp, k2)) => match parse_bytes(b.skip(pos + k1 + k2)) {
                    None => None,
                    Some((payload, _)) => Some(MessageView::Benchmark { id, timestamp, payload }),
                },
            },
        }
    } else {
        None
    }
}

/// Reading a whole message from the start of `b`.
pub open spec fn parse_message(b: Seq<u8>) -> Option<MessageView> {
    match parse_u32(b) {
        None => None,
        Some((tag, k)) => parse_body(tag, b, k),
    }
}

proof fn lemma_take_split(b: Seq<u8>, a: int, c: int)
    requires
        0 <= a,
        0 <= c,
        a + c <= b.len(),
    ensures
        b.take(a + c) == b.take(a) + b.skip(a).take(c),
{
    assert(b.take(a + c) =~= b.take(a) + b.skip(a).take(c));
}

/// What a successful read took is the wire form of the message it gave.
proof fn lemma_parse_message_sound(b: Seq<u8>)
    ensures
        parse_message(b) matches Some(m) ==> decodes_as(b, m),
{
    if let Some(m) = parse_message(b) {
        lemma_parse_u32_sound(b);
        let (tag, k0) = parse_u32(b).unwrap();
        assert(k0 == 4);
        let b1 = b.skip(4int);
        match m {
            MessageView::Publish { topic, data, timestamp } => {
                lemma_parse_str_sound(b1);
                let k1 = parse_str(b1).unwrap().1;
                lemma_parse_bytes_sound(b.skip(4int + k1));
                let k2 = parse_bytes(b.skip(4int + k1)).unwrap().1;
                lemma_parse_u64_sound(b.skip(4int + k1 + k2));
                lemma_take_split(b, 4int + k1 + k2, 8);
                lemma_take_split(b, 4int + k1, k2);
                lemma_take_split(b, 4int, k1);
                assert(b.take(4int + k1 + k2 + 8) =~= wire(m));
            },
            MessageView::Subscribe { topic } => {
                lemma_parse_str_sound(b1);
                let k1 = parse_str(b1).unwrap().1;
                lemma_take_split(b, 4int, k1);
                assert(b.take(4int + k1) =~= wire(m));
            },
            MessageView::Request { request_id, method, params } => {
                lemma_parse_u32_sound(b1);
                lemma_parse_str_sound(b.skip(4int + 4));
                let k2 = parse_str(b.skip(4int + 4)).unwrap().1;
                lemma_parse_bytes_sound(b.skip(4int + 4 + k2));
                let k3 = parse_bytes(b.skip(4int + 4 + k2)).unwrap().1;
                lemma_take_split(b, 4int + 4 + k2, k3);
                lemma_take_split(b, 4int + 4, k2);
                lemma_take_split(b, 4int, 4);
                assert(b.take(4int + 4 + k2 + k3) =~= wire(m));
            },
            MessageView::Response { request_id, result, error } => {
                lemma_parse_u32_sound(b1);
                lemma_parse_bytes_sound(b.skip(4int + 4));
                let k2 = parse_bytes(b.skip(4int + 4)).unwrap().1;
                lemma_parse_str_sound(b.skip(4int + 4 + k2));
                let k3 = parse_str(b.skip(4int + 4 + k2)).unwrap().1;
                lemma_take_split(b, 4int + 4 + k2, k3);
                lemma_take_split(b, 4int + 4, k2);
                lemma_take_split(b, 4int, 4);
                assert(b.take(4int + 4 + k2 + k3) =~= wire(m));
            },
            MessageView::Benchmark { id, timestamp, payload } => {
                lemma_parse_u32_sound(b1);
                lemma_parse_u64_sound(b.skip(4int + 4));
                lemma_parse_bytes_sound(b.skip(4int + 4 + 8));
                let k3 = parse_bytes(b.skip(4int + 4 + 8)).unwrap().1;
                lemma_take_split(b, 4int + 4 + 8, k3);
                lemma_take_split(b, 4int + 4, 8);
                lemma_take_split(b, 4int, 4);
                assert(b.take(4int + 4 + 8 + k3) =~= wire(m));
            },
        }
    }
}

proof fn lemma_skip_past(b: Seq<u8>, a: int, x: Seq<u8>, y: Seq<u8>)
    requires
        0 <= a <= b.len(),
        b.skip(a) == x + y,
    ensures
        a + x.len() <= b.len(),
        b.skip(a + x.len()) == y,
{
    assert(b.skip(a).len() == b.len() - a);
    assert(a + x.len() <= b.len());
    assert(b.skip(a + x.len()).len() == y.len());
    assert forall|i: int| 0 <= i < y.len() implies b.skip(a + x.len())[i] == y[i] by {
        assert(b.skip(a)[x.len() + i] == (x + y)[x.len() + i]);
        assert(b.skip(a)[x.len() + i] == b[a + x.len() + i]);
        assert(b.skip(a + x.len())[i] == b[a + x.len() + i]);
    }
    assert(b.skip(a + x.len()) =~= y);
}

proof fn lemma_complete_publish(
    b: Seq<u8>,
    topic: Seq<char>,
    data: Seq<u8>,
    timestamp: u64,
    rest: Seq<u8>,
)
    requires
        str_fits(topic),
        bytes_fit(data),
        b.len() >= 4,
        b.skip(4) == str_field(topic) + (bytes_field(data) + (le_u64_bytes(timestamp) + rest)),
    ensures
        parse_body(0, b, 4) == Some(MessageView::Publish { topic, data, timestamp }),
{
    let t = bytes_field(data) + (le_u64_bytes(timestamp) + rest);
    lemma_parse_str_encoded(topic, t);
    lemma_skip_past(b, 4, str_field(topic), t);
    let k1 = str_field(topic).len() as int;
    lemma_parse_bytes_encoded(data, le_u64_bytes(timestamp) + rest);
    lemma_skip_past(b, 4 + k1, bytes_field(data), le_u64_bytes(timestamp) + rest);
    lemma_parse_u64_encoded(timestamp, rest);
}

proof fn lemma_complete_subscribe(
    b: Seq<u8>,
    topic: Seq<char>,
    rest: Seq<u8>,
)
    requires
        str_fits(topic),
        b.len() >= 4,
        b.skip(4) == str_field(topic) + rest,
    ensures
        parse_body(1, b, 4) == Some(MessageView::Subscribe { topic }),
{
    lemma_parse_str_encoded(topic, rest);
}

proof fn lemma_complete_request(
    b: Seq<u8>,
    request_id: u32,
    method: Seq<char>,
    params: Seq<u8>,
    rest: Seq<u8>,
)
    requires
        str_fits(method),
        bytes_fit(params),
        b.len() >= 4,
        b.skip(4) == le_u32_bytes(request_id) + (str_field(method) + (bytes_field(params) + rest)),
    ensures
        parse_body(2, b, 4) == Some(MessageView::Request { request_id, method, params }),
{
    let t = str_field(method) + (bytes_field(params) + rest);
    lemma_parse_u32_encoded(request_id, t);
    lemma_skip_past(b, 4, le_u32_bytes(request_id), t);
    lemma_parse_str_encoded(method, bytes_field(params) + rest);
    lemma_skip_past(b, 8, str_field(method), bytes_field(params) + rest);
    lemma_parse_bytes_encoded(params, rest);
}

proof fn lemma_complete_response(
    b: Seq<u8>,
    request_id: u32,
    result: Seq<u8>,
    error: Seq<char>,
    rest: Seq<u8>,
)
    requires
        bytes_fit(result),
        str_fits(error),
        b.len() >= 4,
        b.skip(4) == le_u32_bytes(request_id) + (bytes_field(result) + (str_field(error) + rest)),
    ensures
        parse_body(3, b, 4) == Some(MessageView::Response { request_id, result, error }),
{
    let t = bytes_field(result) + (str_field(error) + rest);
    lemma_parse_u32_encoded(request_id, t);
    lemma_skip_past(b, 4, le_u32_bytes(request_id), t);
    lemma_parse_bytes_encoded(result, str_field(error) + rest);
    lemma_skip_past(b, 8, bytes_field(result), str_field(error) + rest);
    lemma_parse_str_encoded(error, rest);
}

proof fn lemma_complete_benchmark(
    b: Seq<u8>,
    id: u32,
    timestamp: u64,
    payload: Seq<u8>,
    rest: Seq<u8>,
)
    requires
        bytes_fit(payload),
        b.len() >= 4,
        b.skip(4) == le_u32_bytes(id) + (le_u64_bytes(timestamp) + (bytes_field(payload) + rest)),
    ensures
        parse_body(4, b, 4) == Some(MessageView::Benchmark { id, timestamp, payload }),
{
    let t = le_u64_bytes(timestamp) + (bytes_field(payload) + rest);
    lemma_parse_u32_encoded(id, t);
    lemma_skip_past(b, 4, le_u32_bytes(id), t);
    lemma_parse_u64_encoded(timestamp, bytes_field(payload) + rest);
    lemma_skip_past(b, 8, le_u64_bytes(timestamp), bytes_field(payload) + rest);
    lemma_parse_bytes_encoded(payload, rest);
}

/// Bytes that begin with the wire form of a message that fits read as that message.
proof fn lemma_parse_message_complete(b: Seq<u8>, m: MessageView)
    requires
        decodes_as(b, m),
    ensures
        parse_message(b) == Some(m),
{
    let w = wire(m);
    let rest = b.skip(w.len() as int);
    assert(b =~= w + rest);
    lemma_parse_u32_encoded(tag_of(m), body_wire(m) + rest);
    assert(b =~= le_u32_bytes(tag_of(m)) + (body_wire(m) + rest));
    assert(b.skip(4int) =~= body_wire(m) + rest);
    match m {
        MessageView::Publish { topic, data, timestamp } => {
            assert(b.skip(4int) =~= str_field(topic) + (bytes_field(data) + (le_u64_bytes(
                timestamp,
            ) + rest)));
            lemma_complete_publish(b, topic, data, timestamp, rest);
        },
        MessageView::Subscribe { topic } => {
            lemma_complete_subscribe(b, topic, rest);
        },
        MessageView::Request { request_id, method, params } => {
            assert(b.skip(4int) =~= le_u32_bytes(request_id) + (str_field(method) + (bytes_field(
                params,
            ) + rest)));
            lemma_complete_request(b, request_id, method, params, rest);
        },
        MessageView::Response { request_id, result, error } => {
            assert(b.skip(4int) =~= le_u32_bytes(request_id) + (bytes_field(result) + (str_field(
                error,
            ) + rest)));
            lemma_complete_response(b, request_id, result, error, rest);
        },
        MessageView::Benchmark { id, timestamp, payload } => {
            assert(b.skip(4int) =~= le_u32_bytes(id) + (le_u64_bytes(timestamp) + (bytes_field(
                payload,
            ) + rest)));
            lemma_complete_benchmark(b, id, timestamp, payload, rest);
        },
    }
}


impl Message {
    /// Appends the wire form of this message, or fails when a field is too large.
    fn write_wire(&self, out: &mut Vec<u8>) -> (r: Result<(), wincode::WriteError>)
        ensures
            (r is Ok) == fits(self@),
            r is Ok ==> final(out)@ == old(out)@ + wire(self@),
    {
        let ghost start = out@;
        match self {
            Message::Publish(p) => {
                put_u32(out, 0);
                put_string(out, &p.topic)?;
                put_bytes(out, &p.data)?;
                put_u64(out, p.timestamp);
            },
            Message::Subscribe(p) => {
                put_u32(out, 1);
                put_string(out, &p.topic)?;
            },
            Message::Request(p) => {
                put_u32(out, 2);
                put_u32(out, p.request_id);
                put_string(out, &p.method)?;
                put_bytes(out, &p.params)?;
            },
            Message::Response(p) => {
                put_u32(out, 3);
                put_u32(out, p.request_id);
                put_bytes(out, &p.result)?;
                put_string(out, &p.error)?;
            },
            Message::Benchmark(p) => {
                put_u32(out, 4);
                put_u32(out, p.id);
                put_u64(out, p.timestamp);
                put_bytes(out, &p.payload)?;
            },
        }
        assert(out@ =~= start + wire(self@));
        Ok(())
    }

    /// Encodes the message into its wire form.
    ///
    /// Fails, with a serialization error, exactly when one of its texts or
    /// byte strings is larger than `FIELD_LIMIT` bytes.
    pub fn to_bytes(&self) -> (r: Result<Vec<u8>, RustMeshError>)
        ensures
            (r is Ok) == fits(self@),
            r matches Ok(b) ==> b@ == wire(self@),
            r matches Err(e) ==> e is Serialization,
    {
        let mut out: Vec<u8> = Vec::new();
        match self.write_wire(&mut out) {
            Ok(()) => {
                assert(out@ =~= wire(self@));
                Ok(out)
            },
            Err(e) => Err(RustMeshError::Serialization(write_error_text(&e))),
        }
    }

    /// Reads a message from the start of `data`.
    fn read_wire(data: &[u8]) -> (r: Result<Message, wincode::ReadError>)
        ensures
            match r {
                Ok(m) => parse_message(data@) == Some(m@),
                Err(_) => parse_message(data@) is None,
            },
    {
        assert(data@.skip(0) =~= data@);
        proof {
            lemma_parse_u32_sound(data@);
        }
        let (tag, pos) = take_u32(data, 0)?;
        if tag == 0 {
            let (topic, p1) = take_string(data, pos)?;
            let (payload, p2) = take_bytes(data, p1)?;
            let (timestamp, _p3) = take_u64(data, p2)?;
            Ok(Message::Publish(PublishPayload { topic, data: payload, timestamp }))
        } else if tag == 1 {
            let (topic, _p1) = take_string(data, pos)?;
            Ok(Message::Subscribe(SubscribePayload { topic }))
        } else if tag == 2 {
            let (request_id, p1) = take_u32(data, pos)?;
            let (method, p2) = take_string(data, p1)?;
            let (params, _p3) = take_bytes(data, p2)?;
            Ok(Message::Request(RequestPayload { request_id, method, params }))
        } else if tag == 3 {
            let (request_id, p1) = take_u32(data, pos)?;
            let (result, p2) = take_bytes(data, p1)?;
            let (error, _p3) = take_string(data, p2)?;
            Ok(Message::Response(ResponsePayload { request_id, result, error }))
        } else if tag == 4 {
            let (id, p1) = take_u32(data, pos)?;
            let (timestamp, p2) = take_u64(data, p1)?;
            let (payload, _p3) = take_bytes(data, p2)?;
            Ok(Message::Benchmark(BenchmarkPayload { id, timestamp, payload }))
        } else {
            Err(invalid_tag_error(tag))
        }
    }

    /// Decodes a message from the start of `data`; bytes after it are ignored.
    ///
    /// Succeeds exactly when `data` begins with the wire form of a message
    /// that fits, and then returns that message; otherwise fails with a
    /// deserialization error.
    pub fn from_bytes(data: &[u8]) -> (r: Result<Message, RustMeshError>)
        ensures
            r matches Ok(m) ==> decodes_as(data@, m@),
            r is Err ==> forall|m: MessageView| !#[trigger] decodes_as(data@, m),
            r matches Err(e) ==> e is Deserialization,
    {
        proof {
            lemma_parse_message_sound(data@);
        }
        match Message::read_wire(data) {
            Ok(m) => Ok(m),
            Err(e) => {
                assert forall|m: MessageView| !#[trigger] decodes_as(data@, m) by {
                    if decodes_as(data@, m) {
                        lemma_parse_message_complete(data@, m);
                    }
                }
                Err(RustMeshError::Deserialization(read_error_text(&e)))
            },
        }
    }
}

/// Wire forms do not overlap: when the bytes `b` begin with the wire forms of
/// two messages that fit, the two messages are the same.
pub proof fn law_wire_unambiguous(b: Seq<u8>, m1: MessageView, m2: MessageView)
    requires
        decodes_as(b, m1),
        decodes_as(b, m2),
    ensures
        m1 == m2,
{
    lemma_parse_message_complete(b, m1);
    lemma_parse_message_complete(b, m2);
}

/// Decoding what encoding produced gives the message back: the wire form of a
/// message that fits, followed by any bytes, decodes as that message and as no
/// other.
pub proof fn law_decode_encoded(m: MessageView, rest: Seq<u8>)
    requires
        fits(m),
    ensures
        decodes_as(wire(m) + rest, m),
        forall|x: MessageView| #[trigger] decodes_as(wire(m) + rest, x) ==> x == m,
{
    let b = wire(m) + rest;
    assert(b.take(wire(m).len() as int) =~= wire(m));
    assert forall|x: MessageView| #[trigger] decodes_as(b, x) implies x == m by {
        law_wire_unambiguous(b, x, m);
    }
}

/// Bytes after a message are ignored: what the bytes `b` decode as, they still
/// decode as with more bytes after them.
pub proof fn law_trailing_bytes_ignored(b: Seq<u8>, extra: Seq<u8>, m: MessageView)
    requires
        decodes_as(b, m),
    ensures
        decodes_as(b + extra, m),
{
    assert((b + extra).take(wire(m).len() as int) =~= b.take(wire(m).len() as int));
}

/// Distinct messages that fit have distinct wire forms.
pub proof fn law_wire_injective(m1: MessageView, m2: MessageView)
    requires
        fits(m1),
        fits(m2),
        wire(m1) == wire(m2),
    ensures
        m1 == m2,
{
    law_decode_encoded(m1, Seq::empty());
    assert(wire(m2) + Seq::<u8>::empty() =~= wire(m1) + Seq::<u8>::empty());
    law_decode_encoded(m2, Seq::empty());
}

} // verus!

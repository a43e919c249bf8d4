use rustmesh::error::RustMeshError;
use rustmesh::message::{
    BenchmarkPayload, Message, PublishPayload, RequestPayload, ResponsePayload, SubscribePayload,
};
use rustmesh::wire::FIELD_LIMIT;

#[test]
fn test_message_serialization() {
    let msg = Message::Publish(PublishPayload {
        topic: "test".to_string(),
        data: vec![1, 2, 3],
        timestamp: 123456789,
    });

    let result = msg.to_bytes().unwrap();
    let deserialized = Message::from_bytes(&result).unwrap();

    match deserialized {
        Message::Publish(PublishPayload {
            topic,
            data,
            timestamp,
        }) => {
            assert_eq!(topic, "test");
            assert_eq!(data, vec![1, 2, 3]);
            assert_eq!(timestamp, 123456789);
        }
        _ => panic!("Wrong message type"),
    }
}

#[test]
fn test_message_name() {
    let msg = Message::Publish(PublishPayload {
        topic: "test".to_string(),
        data: vec![1, 2, 3],
        timestamp: 123456789,
    });

    assert_eq!(msg.type_label(), "Publish");
}

#[test]
fn every_kind_has_its_label() {
    let sub = Message::Subscribe(SubscribePayload { topic: "t".to_string() });
    let req = Message::Request(RequestPayload { request_id: 1, method: "m".to_string(), params: vec![] });
    let resp = Message::Response(ResponsePayload { request_id: 1, result: vec![], error: String::new() });
    let bench = Message::Benchmark(BenchmarkPayload { id: 1, timestamp: 2, payload: vec![] });
    assert_eq!(sub.type_label(), "Subscribe");
    assert_eq!(req.type_label(), "Request");
    assert_eq!(resp.type_label(), "Response");
    assert_eq!(bench.type_label(), "Benchmark");
}

#[test]
fn publish_wire_form_is_exact() {
    let msg = Message::Publish(PublishPayload {
        topic: "ab".to_string(),
        data: vec![9],
        timestamp: 0x0102,
    });
    let bytes = msg.to_bytes().unwrap();
    let mut expected = vec![0u8, 0, 0, 0];
    expected.extend_from_slice(&2u64.to_le_bytes());
    expected.extend_from_slice(b"ab");
    expected.extend_from_slice(&1u64.to_le_bytes());
    expected.push(9);
    expected.extend_from_slice(&0x0102u64.to_le_bytes());
    assert_eq!(bytes, expected);
}

#[test]
fn request_wire_form_is_exact() {
    let msg = Message::Request(RequestPayload {
        request_id: 7,
        method: "é".to_string(),
        params: vec![1, 2],
    });
    let bytes = msg.to_bytes().unwrap();
    let mut expected = vec![2u8, 0, 0, 0, 7, 0, 0, 0];
    expected.extend_from_slice(&2u64.to_le_bytes());
    expected.extend_from_slice("é".as_bytes());
    expected.extend_from_slice(&2u64.to_le_bytes());
    expected.extend_from_slice(&[1, 2]);
    assert_eq!(bytes, expected);
}

#[test]
fn every_kind_round_trips_with_trailing_bytes() {
    let msgs = vec![
        Message::Subscribe(SubscribePayload { topic: "mesh/events".to_string() }),
        Message::Request(RequestPayload { request_id: 42, method: "ping".to_string(), params: vec![5, 6] }),
        Message::Response(ResponsePayload { request_id: 42, result: vec![7], error: "none".to_string() }),
        Message::Benchmark(BenchmarkPayload { id: 3, timestamp: u64::MAX, payload: vec![0; 100] }),
    ];
    for msg in msgs {
        let mut bytes = msg.to_bytes().unwrap();
        bytes.extend_from_slice(&[0xAA, 0xBB]);
        let back = Message::from_bytes(&bytes).unwrap();
        assert_eq!(format!("{:?}", back), format!("{:?}", msg));
    }
}

#[test]
fn unknown_tag_is_refused() {
    let bytes = vec![5u8, 0, 0, 0, 0, 0, 0, 0, 0, 0, 0, 0];
    match Message::from_bytes(&bytes) {
        Err(RustMeshError::Deserialization(text)) => assert!(text.contains('5')),
        other => panic!("unexpected {:?}", other),
    }
}

#[test]
fn truncated_input_is_refused() {
    let msg = Message::Subscribe(SubscribePayload { topic: "topic".to_string() });
    let bytes = msg.to_bytes().unwrap();
    assert!(matches!(Message::from_bytes(&bytes[..bytes.len() - 1]), Err(RustMeshError::Deserialization(_))));
    assert!(matches!(Message::from_bytes(&[]), Err(RustMeshError::Deserialization(_))));
}

#[test]
fn invalid_text_is_refused() {
    let mut bytes = vec![1u8, 0, 0, 0];
    bytes.extend_from_slice(&1u64.to_le_bytes());
    bytes.push(0xFF);
    assert!(matches!(Message::from_bytes(&bytes), Err(RustMeshError::Deserialization(_))));
}

#[test]
fn oversized_field_is_refused() {
    let msg = Message::Benchmark(BenchmarkPayload { id: 1, timestamp: 1, payload: vec![0; FIELD_LIMIT + 1] });
    assert!(matches!(msg.to_bytes(), Err(RustMeshError::Serialization(_))));
    let ok = Message::Benchmark(BenchmarkPayload { id: 1, timestamp: 1, payload: vec![0; FIELD_LIMIT] });
    assert!(ok.to_bytes().is_ok());
}

#[test]
fn oversized_announced_length_is_refused() {
    let mut bytes = vec![1u8, 0, 0, 0];
    bytes.extend_from_slice(&((FIELD_LIMIT as u64) + 1).to_le_bytes());
    assert!(matches!(Message::from_bytes(&bytes), Err(RustMeshError::Deserialization(_))));
}

#[test]
fn error_texts() {
    assert_eq!(RustMeshError::Timeout.to_string(), "Timeout");
    assert_eq!(RustMeshError::Io("x".to_string()).to_string(), "IO Error: x");
    assert_eq!(RustMeshError::LibP2P("y".to_string()).to_string(), "libp2p Error: y");
    assert_eq!(RustMeshError::NotFound("z".to_string()).to_string(), "Not Found Error: z");
}

#[test]
fn distinct_messages_have_distinct_bytes() {
    let a = Message::Subscribe(SubscribePayload { topic: "a".to_string() });
    let b = Message::Subscribe(SubscribePayload { topic: "b".to_string() });
    let c = Message::Request(RequestPayload { request_id: 0, method: String::new(), params: vec![] });
    assert_ne!(a.to_bytes().unwrap(), b.to_bytes().unwrap());
    assert_ne!(a.to_bytes().unwrap(), c.to_bytes().unwrap());
}

#[test]
fn first_of_two_messages_is_decoded() {
    let a = Message::Benchmark(BenchmarkPayload { id: 9, timestamp: 10, payload: vec![1] });
    let b = Message::Subscribe(SubscribePayload { topic: "next".to_string() });
    let mut bytes = a.to_bytes().unwrap();
    bytes.extend(b.to_bytes().unwrap());
    match Message::from_bytes(&bytes).unwrap() {
        Message::Benchmark(p) => {
            assert_eq!(p.id, 9);
            assert_eq!(p.timestamp, 10);
            assert_eq!(p.payload, vec![1]);
        }
        other => panic!("unexpected {:?}", other),
    }
}

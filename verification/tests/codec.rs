use rpc::codec::{
    decode_args, decode_reply, decode_request, decode_response, encode_args, encode_reply,
    encode_request, encode_response, Reply, RequestEnvelope, ResponseEnvelope,
};
use rpc::error::RpcError;
use rpc::service::{Call, Operation};

fn request(request_id: u64, operation: &str, deadline: Option<u64>, payload: &[u8]) -> RequestEnvelope {
    RequestEnvelope {
        request_id,
        operation: String::from(operation),
        deadline,
        payload: payload.to_vec(),
    }
}

#[test]
fn request_frame_layout_without_deadline() {
    let frame = encode_request(&request(1, "ping", None, &[]));
    assert_eq!(
        frame,
        vec![1, 0, 0, 0, 0, 0, 0, 0, 0, 4, 0, 0, 0, 0, 0, 0, 0, b'p', b'i', b'n', b'g']
    );
}

#[test]
fn request_frame_layout_with_deadline_and_payload() {
    let frame = encode_request(&request(0x0102, "echo", Some(258), &[0xaa, 0xbb]));
    let mut expected = vec![2, 1, 0, 0, 0, 0, 0, 0];
    expected.push(1);
    expected.extend_from_slice(&[2, 1, 0, 0, 0, 0, 0, 0]);
    expected.extend_from_slice(&[4, 0, 0, 0, 0, 0, 0, 0]);
    expected.extend_from_slice(b"echo");
    expected.extend_from_slice(&[0xaa, 0xbb]);
    assert_eq!(frame, expected);
}

#[test]
fn request_ids_are_little_endian() {
    let frame = encode_request(&request(u64::MAX - 1, "", None, &[]));
    assert_eq!(&frame[..8], &[0xfe, 0xff, 0xff, 0xff, 0xff, 0xff, 0xff, 0xff]);
    assert_eq!(frame.len(), 17);
}

#[test]
fn requests_are_read_back() {
    let samples = vec![
        request(0, "", None, &[]),
        request(1, "ping", None, &[]),
        request(7, "echo", Some(0), b"hello"),
        request(u64::MAX, "delay", Some(u64::MAX), &[2, 0, 0, 0, 0, 0, 0, 0]),
        request(99, "gr\u{fc}\u{df}e", Some(12345), &[0, 1, 2, 255]),
        request(3, "unknown operation", None, &[0; 300]),
    ];
    for sample in samples {
        assert_eq!(decode_request(&encode_request(&sample)), Ok(sample));
    }
}

#[test]
fn a_request_frame_cut_short_is_malformed() {
    let frame = encode_request(&request(5, "delay", Some(9), &[]));
    for cut in 0..frame.len() {
        assert_eq!(decode_request(&frame[..cut]), Err(RpcError::MalformedMessage), "cut at {}", cut);
    }
    assert!(decode_request(&frame).is_ok());
}

#[test]
fn a_request_with_a_bad_deadline_flag_is_malformed() {
    let mut frame = encode_request(&request(5, "ping", None, &[]));
    frame[8] = 2;
    assert_eq!(decode_request(&frame), Err(RpcError::MalformedMessage));
    frame[8] = 255;
    assert_eq!(decode_request(&frame), Err(RpcError::MalformedMessage));
}

#[test]
fn a_request_whose_name_is_not_utf8_is_malformed() {
    let mut frame = encode_request(&request(5, "ping", None, &[1]));
    frame[17] = 0xff;
    assert_eq!(decode_request(&frame), Err(RpcError::MalformedMessage));
}

#[test]
fn a_request_whose_name_runs_past_the_frame_is_malformed() {
    let mut frame = encode_request(&request(5, "ping", None, &[]));
    frame[9] = 5;
    assert_eq!(decode_request(&frame), Err(RpcError::MalformedMessage));
    frame[9] = 4;
    frame[16] = 0x80;
    assert_eq!(decode_request(&frame), Err(RpcError::MalformedMessage));
}

#[test]
fn the_empty_frame_is_malformed() {
    assert_eq!(decode_request(&[]), Err(RpcError::MalformedMessage));
    assert_eq!(decode_response(&[]), Err(RpcError::MalformedMessage));
}

#[test]
fn response_frame_layout() {
    let frame = encode_response(&ResponseEnvelope { request_id: 3, payload: vec![0, b'o', b'k'] });
    assert_eq!(frame, vec![3, 0, 0, 0, 0, 0, 0, 0, 0, b'o', b'k']);
}

#[test]
fn responses_are_read_back() {
    for (request_id, payload) in [(0u64, vec![]), (1, vec![2]), (u64::MAX, vec![0, 1, 2, 3]), (77, vec![9; 100])] {
        let sample = ResponseEnvelope { request_id, payload };
        assert_eq!(decode_response(&encode_response(&sample)), Ok(sample));
    }
}

#[test]
fn a_response_frame_shorter_than_an_id_is_malformed() {
    for len in 0..8 {
        assert_eq!(decode_response(&vec![0u8; len]), Err(RpcError::MalformedMessage));
    }
    assert_eq!(
        decode_response(&[0u8; 8]),
        Ok(ResponseEnvelope { request_id: 0, payload: vec![] })
    );
}

#[test]
fn every_response_frame_that_is_read_is_the_frame_of_what_was_read() {
    let frame = vec![9, 8, 7, 6, 5, 4, 3, 2, 1, 0, 255];
    let response = decode_response(&frame).unwrap();
    assert_eq!(response.request_id, 0x0203040506070809);
    assert_eq!(encode_response(&response), frame);
}

#[test]
fn reply_payload_layout() {
    assert_eq!(encode_reply(&Reply::Success(String::from("Pong"))), vec![0, b'P', b'o', b'n', b'g']);
    assert_eq!(encode_reply(&Reply::Failure(String::from("no"))), vec![1, b'n', b'o']);
    assert_eq!(encode_reply(&Reply::UnknownOperation), vec![2]);
    assert_eq!(encode_reply(&Reply::Success(String::new())), vec![0]);
}

#[test]
fn replies_are_read_back() {
    let samples = vec![
        Reply::Success(String::from("hello")),
        Reply::Success(String::new()),
        Reply::Failure(String::from("out of range")),
        Reply::Failure(String::new()),
        Reply::Success(String::from("\u{1f600}")),
        Reply::UnknownOperation,
    ];
    for sample in samples {
        assert_eq!(decode_reply(&encode_reply(&sample)), Ok(sample));
    }
}

#[test]
fn a_reply_payload_that_is_no_reply_is_malformed() {
    assert_eq!(decode_reply(&[]), Err(RpcError::MalformedMessage));
    assert_eq!(decode_reply(&[3]), Err(RpcError::MalformedMessage));
    assert_eq!(decode_reply(&[255, b'a']), Err(RpcError::MalformedMessage));
    assert_eq!(decode_reply(&[2, 0]), Err(RpcError::MalformedMessage));
    assert_eq!(decode_reply(&[0, 0xff]), Err(RpcError::MalformedMessage));
    assert_eq!(decode_reply(&[1, 0xc3]), Err(RpcError::MalformedMessage));
}

#[test]
fn argument_payload_layout() {
    assert_eq!(encode_args(&Call::Ping), Vec::<u8>::new());
    assert_eq!(encode_args(&Call::Echo(String::from("hi"))), vec![b'h', b'i']);
    assert_eq!(encode_args(&Call::Delay(2)), vec![2, 0, 0, 0, 0, 0, 0, 0]);
    assert_eq!(encode_args(&Call::Delay(0x0100)), vec![0, 1, 0, 0, 0, 0, 0, 0]);
}

#[test]
fn arguments_are_read_back_under_their_operation() {
    let samples = vec![
        Call::Ping,
        Call::Echo(String::new()),
        Call::Echo(String::from("hello")),
        Call::Delay(0),
        Call::Delay(2),
        Call::Delay(u64::MAX),
    ];
    for sample in samples {
        assert_eq!(decode_args(sample.operation(), &encode_args(&sample)), Ok(sample));
    }
}

#[test]
fn arguments_that_do_not_fit_the_operation_are_malformed() {
    assert_eq!(decode_args(Operation::Ping, &[0]), Err(RpcError::MalformedMessage));
    assert_eq!(decode_args(Operation::Echo, &[0xff]), Err(RpcError::MalformedMessage));
    assert_eq!(decode_args(Operation::Delay, &[]), Err(RpcError::MalformedMessage));
    assert_eq!(decode_args(Operation::Delay, &[0; 7]), Err(RpcError::MalformedMessage));
    assert_eq!(decode_args(Operation::Delay, &[0; 9]), Err(RpcError::MalformedMessage));
}

#[test]
fn the_same_bytes_mean_different_calls_under_different_operations() {
    let payload = [b'a'; 8];
    assert_eq!(decode_args(Operation::Echo, &payload), Ok(Call::Echo(String::from("aaaaaaaa"))));
    assert_eq!(decode_args(Operation::Delay, &payload), Ok(Call::Delay(0x6161616161616161)));
}

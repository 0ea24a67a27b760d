use latency_probe::codec::{decode, encode, server_step, ProtocolError, TimePacket, ECHO_LEN,
    PROBE_LEN};

#[test]
fn round_trip_without_response() {
    let p = TimePacket { send_time: 123456789, resp_time: None };
    let bytes = encode(&p);
    assert_eq!(bytes.len(), PROBE_LEN);
    assert_eq!(decode(&bytes), Ok(p));
}

#[test]
fn round_trip_with_response() {
    let p = TimePacket { send_time: 42, resp_time: Some(99) };
    let bytes = encode(&p);
    assert_eq!(bytes.len(), ECHO_LEN);
    assert_eq!(decode(&bytes), Ok(p));
}

#[test]
fn exact_wire_layout() {
    let p = TimePacket { send_time: 0x0102030405060708, resp_time: None };
    let bytes = encode(&p);
    assert_eq!(
        bytes,
        vec![0x08, 0x07, 0x06, 0x05, 0x04, 0x03, 0x02, 0x01, 0x00]
    );
    let q = TimePacket { send_time: 1, resp_time: Some(0x0A0B) };
    let b2 = encode(&q);
    assert_eq!(
        b2,
        vec![1, 0, 0, 0, 0, 0, 0, 0, 0x01, 0x0B, 0x0A, 0, 0, 0, 0, 0, 0]
    );
}

#[test]
fn truncated_inputs_fail() {
    assert_eq!(decode(&[]), Err(ProtocolError::Truncated));
    assert_eq!(decode(&[1, 2, 3, 4, 5]), Err(ProtocolError::Truncated));
    // eight timestamp bytes but no tag
    assert_eq!(decode(&[0; 8]), Err(ProtocolError::Truncated));
    // tag says a response time follows, but the bytes end
    let mut b = vec![0u8; 9];
    b[8] = 1;
    assert_eq!(decode(&b), Err(ProtocolError::Truncated));
    let mut b16 = vec![0u8; 16];
    b16[8] = 1;
    assert_eq!(decode(&b16), Err(ProtocolError::Truncated));
}

#[test]
fn bad_tag_fails() {
    let mut b = vec![0u8; 9];
    b[8] = 2;
    assert_eq!(decode(&b), Err(ProtocolError::InvalidTag));
    b[8] = 255;
    assert_eq!(decode(&b), Err(ProtocolError::InvalidTag));
}

#[test]
fn decode_ignores_trailing_bytes() {
    let p = TimePacket { send_time: 7, resp_time: None };
    let mut bytes = encode(&p);
    bytes.extend_from_slice(&[9, 9, 9]);
    assert_eq!(decode(&bytes), Ok(p));
}

#[test]
fn server_step_stamps_response() {
    let p = TimePacket { send_time: 5000, resp_time: None };
    let bytes = encode(&p);
    let echoed = server_step(&bytes, 6000).unwrap();
    assert_eq!(
        decode(&echoed),
        Ok(TimePacket { send_time: 5000, resp_time: Some(6000) })
    );
}

#[test]
fn server_step_passes_errors_through() {
    assert_eq!(server_step(&[0, 1, 2], 6000), Err(ProtocolError::Truncated));
    let mut b = vec![0u8; 9];
    b[8] = 7;
    assert_eq!(server_step(&b, 6000), Err(ProtocolError::InvalidTag));
}

#[test]
fn fresh_probe_has_no_response_time() {
    let p = TimePacket::new();
    assert_eq!(p.resp_time, None);
}

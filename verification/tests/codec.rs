//! The uplink body and frame: exact bytes, content length, and the
//! response grammar round trip.

use sensor_node::json::encode_envelope;
use sensor_node::numfmt::{fmt_centi, fmt_i64, fmt_u64, parse_u16};
use sensor_node::types::{Climate, MetricRequestBody, Topic};
use sensor_node::wire::{
    build_envelope_request, build_metric_request, parse_response, render_response,
    ResponseParseError,
};

fn sample_envelope() -> MetricRequestBody {
    MetricRequestBody {
        topic: Topic::Climate(Climate {
            temperature_centi: 2250,
            humidity_centi: 4100,
            co2_ppm: 650,
        }),
        timestamp: 1700000000,
        device_id: vec![1, 2, 171],
    }
}

#[test]
fn envelope_json_exact() {
    let body = encode_envelope(&sample_envelope());
    let expected = br#"{"topic":{"Climate":{"temperature_celsius":22.5,"humidity":41.0,"co2_ppm":650}},"timestamp":1700000000,"device_id":[1,2,171]}"#;
    assert_eq!(body, expected.to_vec());
}

#[test]
fn envelope_json_negative_and_two_fraction_digits() {
    let e = MetricRequestBody {
        topic: Topic::Climate(Climate {
            temperature_centi: -525,
            humidity_centi: 2255,
            co2_ppm: -1,
        }),
        timestamp: -7,
        device_id: vec![],
    };
    let body = encode_envelope(&e);
    let expected = br#"{"topic":{"Climate":{"temperature_celsius":-5.25,"humidity":22.55,"co2_ppm":-1}},"timestamp":-7,"device_id":[]}"#;
    assert_eq!(body, expected.to_vec());
}

#[test]
fn number_rendering_edges() {
    assert_eq!(fmt_u64(0), b"0".to_vec());
    assert_eq!(fmt_u64(18446744073709551615), b"18446744073709551615".to_vec());
    assert_eq!(fmt_i64(i64::MIN), b"-9223372036854775808".to_vec());
    assert_eq!(fmt_centi(0), b"0.0".to_vec());
    assert_eq!(fmt_centi(5), b"0.05".to_vec());
    assert_eq!(fmt_centi(-10), b"-0.1".to_vec());
}

#[test]
fn request_frame_exact_with_content_length() {
    let server = b"10.0.0.7:3000".to_vec();
    let body = b"abc".to_vec();
    let req = build_metric_request(&server, &body);
    let expected = b"POST /metric HTTP/1.1\r\nHost: 10.0.0.7:3000\r\nUser-Agent: esp32\r\nAccept: */*\r\nContent-Type: application/json\r\nContent-Length: 3\r\n\r\nabc\r\n";
    assert_eq!(req, expected.to_vec());
}

#[test]
fn request_content_length_matches_encoded_envelope() {
    let e = sample_envelope();
    let body = encode_envelope(&e);
    let req = build_envelope_request(&b"example:80".to_vec(), &e);
    let marker = b"Content-Length: ";
    let pos = req
        .windows(marker.len())
        .position(|w| w == marker)
        .expect("request must carry a Content-Length header");
    let after = &req[pos + marker.len()..];
    let digits: Vec<u8> = after.iter().copied().take_while(|b| b.is_ascii_digit()).collect();
    let announced: usize = String::from_utf8(digits).unwrap().parse().unwrap();
    assert_eq!(announced, body.len());
}

#[test]
fn response_parse_handwritten() {
    let raw = b"HTTP/1.1 404 Not Found\r\nContent-Type: text/plain\r\nServer: x\r\n\r\nnope\r\nreally\r\n".to_vec();
    let resp = parse_response(&raw).unwrap();
    assert_eq!(resp.status, 404);
    assert_eq!(
        resp.headers,
        vec![b"Content-Type: text/plain".to_vec(), b"Server: x".to_vec()]
    );
    assert_eq!(resp.body, vec![b"nope".to_vec(), b"really".to_vec()]);
}

#[test]
fn response_roundtrip_recovers_everything() {
    let headers = vec![b"Content-Type: application/json".to_vec(), b"Connection: close".to_vec()];
    let body = vec![br#"{"message":[111,107]}"#.to_vec()];
    let raw = render_response(201, &headers, &body);
    let resp = parse_response(&raw).unwrap();
    assert_eq!(resp.status, 201);
    assert_eq!(resp.headers, headers);
    assert_eq!(resp.body, body);
}

#[test]
fn response_roundtrip_no_headers_no_body() {
    let raw = render_response(200, &vec![], &vec![]);
    let resp = parse_response(&raw).unwrap();
    assert_eq!(resp.status, 200);
    assert!(resp.headers.is_empty());
    assert!(resp.body.is_empty());
}

#[test]
fn response_parse_errors() {
    assert!(matches!(
        parse_response(&Vec::new()),
        Err(ResponseParseError::NoStatusLine)
    ));
    assert!(matches!(
        parse_response(&b"HTTP/1.1\r\n".to_vec()),
        Err(ResponseParseError::NoStatusCode)
    ));
    assert!(matches!(
        parse_response(&b"HTTP/1.1 abc OK\r\n".to_vec()),
        Err(ResponseParseError::BadStatusCode)
    ));
    assert!(matches!(
        parse_response(&b"HTTP/1.1 99999 OK\r\n".to_vec()),
        Err(ResponseParseError::BadStatusCode)
    ));
}

#[test]
fn parse_u16_bounds() {
    assert_eq!(parse_u16(&b"0".to_vec()), Some(0));
    assert_eq!(parse_u16(&b"65535".to_vec()), Some(65535));
    assert_eq!(parse_u16(&b"65536".to_vec()), None);
    assert_eq!(parse_u16(&b"".to_vec()), None);
    assert_eq!(parse_u16(&b"1 2".to_vec()), None);
}

use socks5::address::{format_endpoint, format_ip_addr, Addr};
use socks5::dial::{dial_plan, makeword, v6_segments, DialPlan};
use socks5::error::ProxyError;
use socks5::relay::{Relay, RelayAction, RelayEvent, Side};
use socks5::reply::success_reply;
use socks5::session::{Credentials, Next, Phase, Session};

fn creds() -> Credentials {
    Credentials { username: b"alice".to_vec(), password: b"s3cret".to_vec() }
}

fn expect_read(step: &socks5::session::Step, reply: &[u8], n: usize) {
    assert_eq!(step.reply, reply.to_vec());
    match step.next {
        Next::Read(m) => assert_eq!(m, n),
        ref other => panic!("expected a read, got {:?}", other),
    }
}

fn expect_close(step: &socks5::session::Step, reply: &[u8], e: ProxyError) {
    assert_eq!(step.reply, reply.to_vec());
    match step.next {
        Next::Close(got) => assert_eq!(got, e),
        ref other => panic!("expected a close, got {:?}", other),
    }
}

#[test]
fn formats_v4_dotted_decimal() {
    assert_eq!(format_ip_addr(&Addr::V4([127, 0, 0, 1])).unwrap(), "127.0.0.1");
    assert_eq!(format_ip_addr(&Addr::V4([255, 10, 0, 99])).unwrap(), "255.10.0.99");
}

#[test]
fn formats_v6_as_decimal_octets() {
    let b = [32, 1, 13, 184, 0, 0, 0, 0, 0, 0, 0, 0, 0, 0, 0, 1];
    assert_eq!(format_ip_addr(&Addr::V6(b)).unwrap(), "32:1:13:184:0:0:0:0:0:0:0:0:0:0:0:1");
}

#[test]
fn formats_domain_as_text() {
    assert_eq!(format_ip_addr(&Addr::Domain(b"example.com".to_vec())).unwrap(), "example.com");
    let utf8 = "bücher.de".as_bytes().to_vec();
    assert_eq!(format_ip_addr(&Addr::Domain(utf8)).unwrap(), "bücher.de");
    assert_eq!(format_ip_addr(&Addr::Domain(Vec::new())).unwrap(), "");
}

#[test]
fn rejects_domain_that_is_not_utf8() {
    let r = format_ip_addr(&Addr::Domain(vec![0x66, 0xff, 0x6f]));
    assert_eq!(r, Err(ProxyError::EncodingError));
}

#[test]
fn formats_endpoint_with_port() {
    assert_eq!(format_endpoint(&Addr::V4([10, 0, 0, 2]), 8080).unwrap(), "10.0.0.2:8080");
    assert_eq!(format_endpoint(&Addr::Domain(b"a.b".to_vec()), 0).unwrap(), "a.b:0");
    assert_eq!(format_endpoint(&Addr::V4([1, 2, 3, 4]), 65535).unwrap(), "1.2.3.4:65535");
}

#[test]
fn success_reply_echoes_v4_request() {
    let r = success_reply(&Addr::V4([127, 0, 0, 1]), 0x1f90);
    assert_eq!(r, vec![5, 0, 0, 1, 127, 0, 0, 1, 0x1f, 0x90]);
}

#[test]
fn success_reply_echoes_v6_request() {
    let b = [1u8, 2, 3, 4, 5, 6, 7, 8, 9, 10, 11, 12, 13, 14, 15, 16];
    let r = success_reply(&Addr::V6(b), 443);
    let mut want = vec![5u8, 0, 0, 4];
    want.extend_from_slice(&b);
    want.extend_from_slice(&[1, 187]);
    assert_eq!(r, want);
}

#[test]
fn success_reply_echoes_domain_request() {
    let r = success_reply(&Addr::Domain(b"host".to_vec()), 256);
    assert_eq!(r, vec![5, 0, 0, 3, 4, b'h', b'o', b's', b't', 1, 0]);
}

#[test]
fn makes_words_high_byte_first() {
    assert_eq!(makeword(0x12, 0x34), 0x1234);
    assert_eq!(makeword(0, 0xff), 0xff);
    assert_eq!(makeword(0xff, 0xff), 0xffff);
}

#[test]
fn v6_segments_pair_bytes() {
    let b = [0x20, 0x01, 0x0d, 0xb8, 0, 0, 0, 0, 0, 0, 0, 0, 0, 0, 0, 1];
    assert_eq!(v6_segments(&b), [0x2001, 0x0db8, 0, 0, 0, 0, 0, 1]);
}

#[test]
fn dial_plan_by_variant() {
    match dial_plan(&Addr::V4([192, 168, 1, 1]), 80).unwrap() {
        DialPlan::Text(s) => assert_eq!(s, "192.168.1.1:80"),
        other => panic!("unexpected {:?}", other),
    }
    match dial_plan(&Addr::Domain(b"localhost".to_vec()), 22).unwrap() {
        DialPlan::Text(s) => assert_eq!(s, "localhost:22"),
        other => panic!("unexpected {:?}", other),
    }
    let mut b = [0u8; 16];
    b[15] = 1;
    match dial_plan(&Addr::V6(b), 9000).unwrap() {
        DialPlan::V6 { segments, port } => {
            assert_eq!(segments, [0, 0, 0, 0, 0, 0, 0, 1]);
            assert_eq!(port, 9000);
        },
        other => panic!("unexpected {:?}", other),
    }
    assert!(matches!(dial_plan(&Addr::Domain(vec![0xc3]), 1), Err(ProxyError::EncodingError)));
}

#[test]
fn no_auth_selected_when_password_not_offered() {
    for methods in [vec![0u8], vec![1u8], vec![0u8, 1, 3], vec![]] {
        let mut s = Session::new(creds());
        let st = s.feed(&[5, methods.len() as u8]);
        expect_read(&st, &[], methods.len());
        let st = s.feed(&methods);
        expect_read(&st, &[5, 0], 4);
        assert_eq!(s.phase, Phase::Request);
    }
}

#[test]
fn rejects_wrong_greeting_version() {
    let mut s = Session::new(creds());
    let st = s.feed(&[4, 1]);
    expect_close(&st, &[], ProxyError::ProtocolViolation);
    assert_eq!(s.phase, Phase::Done);
}

fn to_auth(s: &mut Session) {
    s.feed(&[5, 2]);
    let st = s.feed(&[0, 2]);
    expect_read(&st, &[5, 2], 2);
}

#[test]
fn accepts_matching_credentials() {
    let mut s = Session::new(creds());
    to_auth(&mut s);
    expect_read(&s.feed(&[1, 5]), &[], 5);
    expect_read(&s.feed(b"alice"), &[], 1);
    expect_read(&s.feed(&[6]), &[], 6);
    expect_read(&s.feed(b"s3cret"), &[1, 0], 4);
    assert_eq!(s.phase, Phase::Request);
}

#[test]
fn refuses_wrong_password() {
    let mut s = Session::new(creds());
    to_auth(&mut s);
    s.feed(&[1, 5]);
    s.feed(b"alice");
    s.feed(&[6]);
    expect_close(&s.feed(b"s3creT"), &[1, 1], ProxyError::AuthFailure);
    assert_eq!(s.phase, Phase::Done);
}

#[test]
fn refuses_wrong_username() {
    let mut s = Session::new(creds());
    to_auth(&mut s);
    s.feed(&[1, 5]);
    s.feed(b"alicf");
    s.feed(&[6]);
    expect_close(&s.feed(b"s3cret"), &[1, 1], ProxyError::AuthFailure);
}

#[test]
fn refuses_wrong_lengths_and_auth_version() {
    let mut s = Session::new(creds());
    to_auth(&mut s);
    expect_close(&s.feed(&[1, 4]), &[1, 1], ProxyError::AuthFailure);
    assert_eq!(s.phase, Phase::Done);

    let mut s = Session::new(creds());
    to_auth(&mut s);
    expect_close(&s.feed(&[2, 5]), &[], ProxyError::ProtocolViolation);

    let mut s = Session::new(creds());
    to_auth(&mut s);
    s.feed(&[1, 5]);
    s.feed(b"alice");
    expect_close(&s.feed(&[7]), &[1, 1], ProxyError::AuthFailure);
    assert_eq!(s.phase, Phase::Done);
}

fn to_request(s: &mut Session) {
    s.feed(&[5, 1]);
    s.feed(&[0]);
}

#[test]
fn parses_v4_connect() {
    let mut s = Session::new(creds());
    to_request(&mut s);
    expect_read(&s.feed(&[5, 1, 0, 1]), &[], 4);
    expect_read(&s.feed(&[127, 0, 0, 1]), &[], 2);
    let st = s.feed(&[0x1f, 0x90]);
    assert!(st.reply.is_empty());
    match st.next {
        Next::Connect { addr: Addr::V4(b), port, plan: DialPlan::Text(t) } => {
            assert_eq!(b, [127, 0, 0, 1]);
            assert_eq!(port, 8080);
            assert_eq!(t, "127.0.0.1:8080");
        },
        other => panic!("unexpected {:?}", other),
    }
    assert_eq!(s.phase, Phase::Done);
}

#[test]
fn parses_v6_connect() {
    let mut s = Session::new(creds());
    to_request(&mut s);
    expect_read(&s.feed(&[5, 1, 0, 4]), &[], 16);
    let mut b = [0u8; 16];
    b[0] = 0xfe;
    b[1] = 0x80;
    b[15] = 7;
    expect_read(&s.feed(&b), &[], 2);
    match s.feed(&[0, 22]).next {
        Next::Connect { addr: Addr::V6(got), port, plan: DialPlan::V6 { segments, port: p } } => {
            assert_eq!(got, b);
            assert_eq!(port, 22);
            assert_eq!(p, 22);
            assert_eq!(segments, [0xfe80, 0, 0, 0, 0, 0, 0, 7]);
        },
        other => panic!("unexpected {:?}", other),
    }
}

#[test]
fn parses_domain_connect() {
    let mut s = Session::new(creds());
    to_request(&mut s);
    expect_read(&s.feed(&[5, 1, 0, 3]), &[], 1);
    expect_read(&s.feed(&[11]), &[], 11);
    expect_read(&s.feed(b"example.org"), &[], 2);
    match s.feed(&[1, 187]).next {
        Next::Connect { addr: Addr::Domain(d), port, plan: DialPlan::Text(t) } => {
            assert_eq!(d, b"example.org".to_vec());
            assert_eq!(port, 443);
            assert_eq!(t, "example.org:443");
        },
        other => panic!("unexpected {:?}", other),
    }
}

#[test]
fn domain_not_utf8_closes_silently() {
    let mut s = Session::new(creds());
    to_request(&mut s);
    s.feed(&[5, 1, 0, 3]);
    s.feed(&[2]);
    s.feed(&[0xff, 0xfe]);
    expect_close(&s.feed(&[0, 80]), &[], ProxyError::EncodingError);
}

#[test]
fn unsupported_command_closes_silently() {
    for cmd in [0u8, 2, 3, 9] {
        let mut s = Session::new(creds());
        to_request(&mut s);
        expect_close(&s.feed(&[5, cmd, 0, 1]), &[], ProxyError::ProtocolViolation);
        assert_eq!(s.phase, Phase::Done);
    }
}

#[test]
fn unknown_address_type_closes_silently() {
    for atyp in [0u8, 2, 5, 255] {
        let mut s = Session::new(creds());
        to_request(&mut s);
        expect_close(&s.feed(&[5, 1, 0, atyp]), &[], ProxyError::ProtocolViolation);
    }
}

#[test]
fn wrong_request_version_closes_silently() {
    let mut s = Session::new(creds());
    to_request(&mut s);
    expect_close(&s.feed(&[4, 1, 0, 1]), &[], ProxyError::ProtocolViolation);
}

fn forward(a: RelayAction) -> (Side, Vec<u8>, bool) {
    match a {
        RelayAction::Forward { to, bytes, last } => (to, bytes, last),
        RelayAction::Stop => panic!("expected a forward"),
    }
}

#[test]
fn relay_forwards_interleaved_bytes_verbatim() {
    let mut r = Relay::new();
    let mut to_target = Vec::new();
    let mut to_client = Vec::new();
    let events = [
        (Side::Client, b"GET / HTTP/1.1\r\n".to_vec()),
        (Side::Target, b"HTTP/1.1 200 OK\r\n".to_vec()),
        (Side::Client, b"Host: x\r\n\r\n".to_vec()),
        (Side::Target, vec![0u8, 1, 2, 255]),
        (Side::Target, b"body".to_vec()),
    ];
    for (from, bytes) in events.iter() {
        let (to, out, last) = forward(r.on_event(RelayEvent::Read { from: *from, bytes: bytes.clone() }));
        assert!(!last);
        match to {
            Side::Target => to_target.extend_from_slice(&out),
            Side::Client => to_client.extend_from_slice(&out),
        }
    }
    assert_eq!(to_target, b"GET / HTTP/1.1\r\nHost: x\r\n\r\n".to_vec());
    let mut want = b"HTTP/1.1 200 OK\r\n".to_vec();
    want.extend_from_slice(&[0, 1, 2, 255]);
    want.extend_from_slice(b"body");
    assert_eq!(to_client, want);
    assert!(r.is_open());
}

#[test]
fn relay_ends_on_target_eof() {
    let mut r = Relay::new();
    let (to, bytes, last) = forward(r.on_event(RelayEvent::Read { from: Side::Target, bytes: Vec::new() }));
    assert_eq!(to, Side::Client);
    assert!(bytes.is_empty());
    assert!(last);
    assert!(!r.is_open());
    assert!(matches!(
        r.on_event(RelayEvent::Read { from: Side::Client, bytes: b"late".to_vec() }),
        RelayAction::Stop
    ));
}

#[test]
fn relay_ends_on_failures() {
    let mut r = Relay::new();
    assert!(matches!(r.on_event(RelayEvent::ReadFailed { from: Side::Client }), RelayAction::Stop));
    assert!(!r.is_open());

    let mut r = Relay::new();
    forward(r.on_event(RelayEvent::Read { from: Side::Client, bytes: vec![1] }));
    assert!(matches!(r.on_event(RelayEvent::WriteFailed), RelayAction::Stop));
    assert!(!r.is_open());
}

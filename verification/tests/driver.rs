//! The challenge/retry driver: request bytes, token splicing, and the
//! full challenge-then-answer exchange.
use gamequery::a2s::handle_response;
use gamequery::a2s::set_challenge;
use gamequery::a2s::ExchangeStep;
use gamequery::a2s::QueryKind;
use gamequery::misc::ServerQueryError;
use gamequery::packet::begin_reassembly;
use gamequery::packet::ReassemblyStatus;

#[test]
fn test_request_bytes() {
    assert_eq!(
        QueryKind::Info.initial_request(),
        b"\xFF\xFF\xFF\xFF\x54Source Engine Query\x00".to_vec()
    );
    assert_eq!(
        QueryKind::Info.template(),
        b"\xFF\xFF\xFF\xFF\x54Source Engine Query\x00\xFF\xFF\xFF\xFF".to_vec()
    );
    assert_eq!(
        QueryKind::Players.initial_request(),
        b"\xFF\xFF\xFF\xFF\x55\xFF\xFF\xFF\xFF".to_vec()
    );
    assert_eq!(QueryKind::Players.template(), QueryKind::Players.initial_request());
    assert_eq!(
        QueryKind::Rules.initial_request(),
        b"\xFF\xFF\xFF\xFF\x56\xFF\xFF\xFF\xFF".to_vec()
    );
    assert_eq!(QueryKind::Rules.template(), QueryKind::Rules.initial_request());
    assert_eq!(QueryKind::Info.response_marker(), 0x49);
    assert_eq!(QueryKind::Players.response_marker(), 0x44);
    assert_eq!(QueryKind::Rules.response_marker(), 0x45);
}

#[test]
fn test_set_challenge_round_trip() {
    let mut buf: Vec<u8> = vec![1, 2, 3, 4, 5, 6, 7, 8, 9];
    let token: Vec<u8> = vec![0xaa, 0xbb, 0xcc, 0xdd];
    set_challenge(&mut buf, &token);
    // the prefix is untouched and reading the slot back gives the token
    assert_eq!(&buf[..5], &[1, 2, 3, 4, 5]);
    assert_eq!(&buf[5..], &token[..]);
}

#[test]
fn test_set_challenge_whole_buffer() {
    // slot offset zero: a token as long as the template
    let mut buf: Vec<u8> = vec![0, 0, 0, 0];
    let token: Vec<u8> = vec![9, 8, 7, 6];
    set_challenge(&mut buf, &token);
    assert_eq!(buf, token);
}

#[test]
fn test_challenge_then_deliver() {
    let kind = QueryKind::Info;
    let template = kind.template();
    let marker = kind.response_marker();

    // the server's two replies, one datagram each
    let challenge_datagram: Vec<u8> =
        vec![0xff, 0xff, 0xff, 0xff, 0x41, 0xaa, 0xbb, 0xcc, 0xdd];
    let mut answer_datagram: Vec<u8> = vec![0xff, 0xff, 0xff, 0xff, 0x49, 0x07];
    answer_datagram.extend_from_slice(b"name\0map\0folder\0game\0");
    answer_datagram.extend_from_slice(&[0xe1, 0x10, 3, 4, 1, 0x64, 0x6c, 0x00, 0x01]);

    let mut resends = 0;
    let mut payload = None;
    for datagram in [challenge_datagram, answer_datagram] {
        let logical = match begin_reassembly(datagram).unwrap() {
            ReassemblyStatus::Complete(buf) => buf,
            ReassemblyStatus::Pending(_) => panic!("single datagrams only"),
        };
        match handle_response(&template, &logical, marker).unwrap() {
            ExchangeStep::Resend(req) => {
                resends += 1;
                // the resent request is the template with the token bytes
                // spliced into its challenge slot
                assert_eq!(req.len(), template.len());
                assert_eq!(&req[..template.len() - 4], &template[..template.len() - 4]);
                assert_eq!(&req[template.len() - 4..], &[0xaa, 0xbb, 0xcc, 0xdd]);
            }
            ExchangeStep::Deliver(p) => {
                payload = Some(p);
            }
        }
    }
    assert_eq!(resends, 1, "exactly one resend");
    let payload = payload.expect("the second reply is substantive");
    assert_eq!(payload[0], 0x07, "the marker byte was dropped");
}

#[test]
fn test_wrong_marker_rejected() {
    let template = QueryKind::Info.template();
    let response: Vec<u8> = vec![0x45, 0x01];
    let r = handle_response(&template, &response, 0x49);
    assert!(matches!(r, Err(ServerQueryError::InvalidData)));
}

#[test]
fn test_empty_response_rejected() {
    let template = QueryKind::Players.template();
    let r = handle_response(&template, &vec![], 0x44);
    assert!(matches!(r, Err(ServerQueryError::InvalidData)));
}

#[test]
fn test_short_challenge_rejected() {
    // a challenge marker without a full token is no challenge
    let template = QueryKind::Rules.template();
    let response: Vec<u8> = vec![0x41, 0xaa, 0xbb];
    let r = handle_response(&template, &response, 0x45);
    assert!(matches!(r, Err(ServerQueryError::InvalidData)));
}

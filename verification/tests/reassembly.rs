//! The datagram reassembler: single packets, fragments in any arrival
//! order, the duplicated-marker strip, and every malformed-datagram
//! rejection.
use gamequery::misc::ServerQueryError;
use gamequery::packet::begin_reassembly;
use gamequery::packet::ReassemblyStatus;

/// One fragment datagram: multi-packet header, id field, total, index,
/// max-packet-size, payload.
fn fragment(id: u32, total: u8, index: u8, payload: &[u8]) -> Vec<u8> {
    let mut d = vec![0xfe, 0xff, 0xff, 0xff];
    d.extend_from_slice(&id.to_le_bytes());
    d.push(total);
    d.push(index);
    d.extend_from_slice(&1400i16.to_le_bytes());
    d.extend_from_slice(payload);
    d
}

/// Feeds the datagrams in the given order and returns the logical buffer.
fn reassemble(datagrams: &[Vec<u8>]) -> Result<Vec<u8>, ServerQueryError> {
    let mut status = begin_reassembly(datagrams[0].clone())?;
    let mut fed = 1;
    loop {
        match status {
            ReassemblyStatus::Complete(buf) => {
                assert_eq!(fed, datagrams.len(), "all datagrams must be consumed");
                return Ok(buf);
            }
            ReassemblyStatus::Pending(pending) => {
                status = pending.add_datagram(datagrams[fed].clone())?;
                fed += 1;
            }
        }
    }
}

#[test]
fn test_single_packet() {
    let buf = reassemble(&[vec![0xff, 0xff, 0xff, 0xff, 0x49, 0x01, 0x02]]).unwrap();
    assert_eq!(buf, vec![0x49, 0x01, 0x02]);
}

#[test]
fn test_unknown_header_rejected() {
    let r = begin_reassembly(vec![0x00, 0x00, 0x00, 0x00, 0x49]);
    assert!(matches!(r, Err(ServerQueryError::InvalidData)));
}

#[test]
fn test_short_datagram_rejected() {
    let r = begin_reassembly(vec![0xff, 0xff]);
    assert!(matches!(r, Err(ServerQueryError::InvalidData)));
}

#[test]
fn test_truncated_descriptor_rejected() {
    // multi-packet header but the descriptor is cut short
    let r = begin_reassembly(vec![0xfe, 0xff, 0xff, 0xff, 0x01, 0x02]);
    assert!(matches!(r, Err(ServerQueryError::InvalidData)));
}

#[test]
fn test_compressed_fragment_rejected() {
    // the id field's high bit set means a compressed payload: always
    // invalid data, whatever the payload holds
    let r = begin_reassembly(fragment(0x8000_0001, 2, 0, b"anything"));
    assert!(matches!(r, Err(ServerQueryError::InvalidData)));
    let r = begin_reassembly(fragment(0x8000_0001, 2, 0, b""));
    assert!(matches!(r, Err(ServerQueryError::InvalidData)));
}

#[test]
fn test_compressed_later_fragment_rejected() {
    let st = begin_reassembly(fragment(7, 2, 0, b"ab")).unwrap();
    match st {
        ReassemblyStatus::Pending(p) => {
            let r = p.add_datagram(fragment(0x8000_0007, 2, 1, b"cd"));
            assert!(matches!(r, Err(ServerQueryError::InvalidData)));
        }
        ReassemblyStatus::Complete(_) => panic!("two fragments were announced"),
    }
}

#[test]
fn test_index_at_total_rejected() {
    let r = begin_reassembly(fragment(7, 2, 2, b"ab"));
    assert!(matches!(r, Err(ServerQueryError::InvalidData)));
}

#[test]
fn test_zero_total_rejected() {
    let r = begin_reassembly(fragment(7, 0, 0, b"ab"));
    assert!(matches!(r, Err(ServerQueryError::InvalidData)));
}

#[test]
fn test_single_packet_header_mid_reassembly_rejected() {
    let st = begin_reassembly(fragment(7, 2, 0, b"ab")).unwrap();
    match st {
        ReassemblyStatus::Pending(p) => {
            let r = p.add_datagram(vec![0xff, 0xff, 0xff, 0xff, 0x49]);
            assert!(matches!(r, Err(ServerQueryError::InvalidData)));
        }
        ReassemblyStatus::Complete(_) => panic!("two fragments were announced"),
    }
}

#[test]
fn test_one_fragment_completes() {
    let buf = reassemble(&[fragment(7, 1, 0, b"hello")]).unwrap();
    assert_eq!(buf, b"hello".to_vec());
}

#[test]
fn test_reverse_order_same_buffer_two_fragments() {
    let forward = [fragment(7, 2, 0, b"first-"), fragment(7, 2, 1, b"second")];
    let reverse = [fragment(7, 2, 1, b"second"), fragment(7, 2, 0, b"first-")];
    let a = reassemble(&forward).unwrap();
    let b = reassemble(&reverse).unwrap();
    assert_eq!(a, b);
    assert_eq!(a, b"first-second".to_vec());
}

#[test]
fn test_reverse_order_same_buffer_five_fragments() {
    let parts: [&[u8]; 5] = [b"aa", b"bb", b"cc", b"dd", b"ee"];
    let mut forward = Vec::new();
    for (i, p) in parts.iter().enumerate() {
        forward.push(fragment(9, 5, i as u8, p));
    }
    let mut reverse: Vec<Vec<u8>> = forward.clone();
    reverse.reverse();
    let a = reassemble(&forward).unwrap();
    let b = reassemble(&reverse).unwrap();
    assert_eq!(a, b);
    assert_eq!(a, b"aabbccddee".to_vec());
}

#[test]
fn test_duplicated_marker_stripped() {
    // some servers duplicate the single-packet marker inside the first
    // fragment's payload: the logical buffer drops it
    let forward = [
        fragment(3, 2, 0, &[0xff, 0xff, 0xff, 0xff, 0x44, 0x01]),
        fragment(3, 2, 1, &[0x02, 0x03]),
    ];
    let buf = reassemble(&forward).unwrap();
    assert_eq!(buf, vec![0x44, 0x01, 0x02, 0x03]);
}

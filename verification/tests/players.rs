//! The A2S_PLAYER decoder, including the lenient truncation policy.
use gamequery::a2s_players::A2SPlayers;
use gamequery::misc::ServerQueryError;

/// One wire player record: index, name, score, duration as an IEEE-754
/// 32-bit float, all little-endian.
fn player_record(index: u8, name: &str, score: i32, duration: f32) -> Vec<u8> {
    let mut d = vec![index];
    d.extend_from_slice(name.as_bytes());
    d.push(0);
    d.extend_from_slice(&score.to_le_bytes());
    d.extend_from_slice(&duration.to_bits().to_le_bytes());
    d
}

#[test]
fn test_players_basic() {
    let mut payload = vec![2u8];
    payload.extend_from_slice(&player_record(0, "alice", 17, 12.5));
    payload.extend_from_slice(&player_record(1, "bob", -3, 0.25));
    let r = A2SPlayers::decode(payload).unwrap();
    assert_eq!(r.players.len(), 2);
    assert_eq!(r.players[0].name, "alice");
    assert_eq!(r.players[0].score, 17);
    assert_eq!(f32::from_bits(r.players[0].duration_bits), 12.5);
    assert_eq!(r.players[1].name, "bob");
    assert_eq!(r.players[1].score, -3);
    assert_eq!(f32::from_bits(r.players[1].duration_bits), 0.25);
}

#[test]
fn test_players_truncated_returns_prefix() {
    // three players announced, only two complete records present: the
    // two-element list comes back, not an error
    let mut payload = vec![3u8];
    payload.extend_from_slice(&player_record(0, "alice", 17, 12.5));
    payload.extend_from_slice(&player_record(1, "bob", -3, 0.25));
    payload.push(2);
    payload.extend_from_slice(b"carol\0");
    payload.extend_from_slice(&[0x01, 0x02]); // score cut short
    let r = A2SPlayers::decode(payload).unwrap();
    assert_eq!(r.players.len(), 2);
    assert_eq!(r.players[0].name, "alice");
    assert_eq!(r.players[1].name, "bob");
}

#[test]
fn test_players_empty() {
    let r = A2SPlayers::decode(vec![0u8]).unwrap();
    assert_eq!(r.players.len(), 0);
}

#[test]
fn test_players_missing_count_rejected() {
    let r = A2SPlayers::decode(vec![]);
    assert!(matches!(r, Err(ServerQueryError::InvalidData)));
}

#[test]
fn test_players_count_without_records() {
    // the count byte alone: the very first record is incomplete
    let r = A2SPlayers::decode(vec![5u8]).unwrap();
    assert_eq!(r.players.len(), 0);
}

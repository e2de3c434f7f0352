use carlink::movement::{Movement, MovementPacketDecodeError, MovementSetError};

#[test]
fn new_movement_is_zeroed() {
    let m = Movement::new();
    assert_eq!(m.movement_command, [0, 0]);
    assert_eq!(m.checksum, 0);
    assert!(m.packet.is_none());
}

#[test]
fn set_accelerate_updates_checksum() {
    let mut m = Movement::new();
    m.set_accelerate(10).unwrap();
    assert_eq!(m.movement_command[0], 10);
    assert_eq!(m.checksum, 11);
    m.set_turn(20).unwrap();
    assert_eq!(m.movement_command[1], 20);
    assert_eq!(m.checksum, 31);
}

#[test]
fn set_accelerate_rejects_out_of_range() {
    let mut m = Movement::new();
    assert!(matches!(m.set_accelerate(101), Err(MovementSetError::IncorrectNumber)));
    assert!(matches!(m.set_accelerate(-101), Err(MovementSetError::IncorrectNumber)));
    assert_eq!(m.movement_command, [0, 0]);
    assert_eq!(m.checksum, 0);
    assert!(m.set_accelerate(100).is_ok());
    assert!(m.set_accelerate(-100).is_ok());
}

#[test]
fn set_turn_rejects_out_of_range() {
    let mut m = Movement::new();
    assert!(matches!(m.set_turn(127), Err(MovementSetError::IncorrectNumber)));
    assert!(matches!(m.set_turn(-128), Err(MovementSetError::IncorrectNumber)));
    assert_eq!(m.checksum, 0);
}

#[test]
fn generate_packet_layout() {
    let mut m = Movement::new();
    m.set_accelerate(2).unwrap();
    m.set_turn(3).unwrap();
    let p = m.generate_packet();
    assert_eq!(p, [1, 2, 3, 0, 6]);
    assert_eq!(m.packet, Some(p));
}

#[test]
fn generate_packet_negative_values() {
    let mut m = Movement::new();
    m.set_accelerate(-5).unwrap();
    m.set_turn(7).unwrap();
    // checksum = -5 + 7 + 1 = 3; -5 is 0xFB as a byte
    let p = m.generate_packet();
    assert_eq!(p, [1, 0xFB, 7, 0, 3]);
}

#[test]
fn generate_packet_negative_checksum() {
    let mut m = Movement::new();
    m.set_accelerate(-100).unwrap();
    m.set_turn(-100).unwrap();
    // checksum = -199 = 0xFF39 big-endian
    let p = m.generate_packet();
    assert_eq!(p, [1, 0x9C, 0x9C, 0xFF, 0x39]);
}

#[test]
fn decode_packet_roundtrip() {
    let mut m = Movement::new();
    m.set_accelerate(-42).unwrap();
    m.set_turn(99).unwrap();
    let p = m.generate_packet();
    let d = Movement::decode_packet(p).unwrap();
    assert_eq!(d.movement_command, m.movement_command);
    assert_eq!(d.checksum, m.checksum);
    assert_eq!(d.packet, Some(p));
}

#[test]
fn decode_packet_rejects_wrong_marker() {
    let r = Movement::decode_packet([2, 0, 0, 0, 1]);
    assert!(matches!(r, Err(MovementPacketDecodeError::NotMovementPacket)));
}

#[test]
fn decode_packet_rejects_bad_checksum() {
    let r = Movement::decode_packet([1, 2, 3, 0, 7]);
    assert!(matches!(r, Err(MovementPacketDecodeError::ChecksumNotValid)));
}

//! Fixed-layout five-byte command packets for remote movement orders.
//!
//! A packet carries a command marker, two signed percentage values
//! (acceleration and turn), and a two-byte big-endian additive checksum.

use vstd::prelude::*;

verus! {

/// Marker byte that opens every movement packet.
pub const COMMAND_NUMBER: u8 = 1;

#[derive(Debug, Clone)]
pub struct Movement {
    /// Movement order: acceleration percentage, turn percentage.
    pub movement_command: [i8; 2],
    pub checksum: i16,
    pub packet: Option<[u8; 5]>,
}

#[derive(Debug, Clone, PartialEq, Eq)]
pub enum MovementSetError {
    IncorrectNumber,
}

#[derive(Debug, Clone, PartialEq, Eq)]
pub enum MovementPacketDecodeError {
    ChecksumNotValid,
    NotMovementPacket,
}

/// The checksum of a packet: the two command bytes plus the command marker,
/// summed as mathematical integers.
pub open spec fn checksum_spec(cmd0: i8, cmd1: i8) -> int {
    cmd0 + cmd1 + COMMAND_NUMBER
}

/// The unsigned byte that carries a signed command value (two's complement).
pub open spec fn u8_of_i8(b: i8) -> int {
    if b >= 0 {
        b as int
    } else {
        b + 256
    }
}

/// The signed command value carried by an unsigned packet byte.
pub open spec fn i8_of_u8(b: u8) -> int {
    if b < 128 {
        b as int
    } else {
        b - 256
    }
}

/// The 16-bit two's-complement bit pattern of a checksum, as an integer in [0, 65536).
pub open spec fn i16_bits(c: i16) -> int {
    if c >= 0 {
        c as int
    } else {
        c + 65536
    }
}

/// High byte of the big-endian checksum encoding.
pub open spec fn checksum_hi(c: i16) -> int {
    i16_bits(c) / 256
}

/// Low byte of the big-endian checksum encoding.
pub open spec fn checksum_lo(c: i16) -> int {
    i16_bits(c) % 256
}

/// The signed checksum recovered from its two big-endian packet bytes.
pub open spec fn checksum_of_bytes(hi: u8, lo: u8) -> int {
    if hi * 256 + lo >= 32768 {
        hi * 256 + lo - 65536
    } else {
        hi * 256 + lo
    }
}

impl Movement {
    pub fn new() -> (r: Self)
        ensures
            r.movement_command[0] == 0,
            r.movement_command[1] == 0,
            r.checksum == 0,
            r.packet is None,
    {
        Movement { movement_command: [0, 0], checksum: 0, packet: None }
    }

    /// Sets the acceleration percentage and refreshes the checksum;
    /// values outside -100..=100 are rejected and leave the order unchanged.
    pub fn set_accelerate(&mut self, percent: i8) -> (r: Result<(), MovementSetError>)
        ensures
            -100 <= percent <= 100 ==> r is Ok
                && final(self).movement_command[0] == percent
                && final(self).movement_command[1] == old(self).movement_command[1]
                && final(self).checksum == checksum_spec(percent, old(self).movement_command[1])
                && final(self).packet == old(self).packet,
            !(-100 <= percent <= 100) ==> (r matches Err(MovementSetError::IncorrectNumber))
                && *final(self) == *old(self),
    {
        if percent < -100 || percent > 100 {
            return Err(MovementSetError::IncorrectNumber);
        }
        self.movement_command = [percent, self.movement_command[1]];
        self.set_checksum();
        Ok(())
    }

    /// Sets the turn percentage and refreshes the checksum;
    /// values outside -100..=100 are rejected and leave the order unchanged.
    pub fn set_turn(&mut self, percent: i8) -> (r: Result<(), MovementSetError>)
        ensures
            -100 <= percent <= 100 ==> r is Ok
                && final(self).movement_command[1] == percent
                && final(self).movement_command[0] == old(self).movement_command[0]
                && final(self).checksum == checksum_spec(old(self).movement_command[0], percent)
                && final(self).packet == old(self).packet,
            !(-100 <= percent <= 100) ==> (r matches Err(MovementSetError::IncorrectNumber))
                && *final(self) == *old(self),
    {
        if percent < -100 || percent > 100 {
            return Err(MovementSetError::IncorrectNumber);
        }
        self.movement_command = [self.movement_command[0], percent];
        self.set_checksum();
        Ok(())
    }

    /// Recomputes the checksum from the current command bytes.
    pub fn set_checksum(&mut self)
        ensures
            final(self).movement_command == old(self).movement_command,
            final(self).packet == old(self).packet,
            final(self).checksum == checksum_spec(
                old(self).movement_command[0],
                old(self).movement_command[1],
            ),
    {
        let mut checksum: i16 = 0;
        checksum = checksum + self.movement_command[0] as i16;
        checksum = checksum + self.movement_command[1] as i16;
        checksum = checksum + COMMAND_NUMBER as i16;
        self.checksum = checksum;
    }

    /// Lays the order out as a five-byte packet: marker, the two command
    /// bytes, and the checksum in big-endian order. The packet is also
    /// remembered on the order itself.
    pub fn generate_packet(&mut self) -> (r: [u8; 5])
        ensures
            r[0] == COMMAND_NUMBER,
            r[1] == u8_of_i8(old(self).movement_command[0]),
            r[2] == u8_of_i8(old(self).movement_command[1]),
            r[3] == checksum_hi(old(self).checksum),
            r[4] == checksum_lo(old(self).checksum),
            final(self).packet == Some(r),
            final(self).movement_command == old(self).movement_command,
            final(self).checksum == old(self).checksum,
    {
        let bits_signed: i32 = self.checksum as i32;
        let bits: i32 = if bits_signed < 0 {
            bits_signed + 65536
        } else {
            bits_signed
        };
        let hi: u8 = (bits / 256) as u8;
        let lo: u8 = (bits % 256) as u8;
        let b0: u8 = if self.movement_command[0] < 0 {
            (self.movement_command[0] as i32 + 256) as u8
        } else {
            self.movement_command[0] as u8
        };
        let b1: u8 = if self.movement_command[1] < 0 {
            (self.movement_command[1] as i32 + 256) as u8
        } else {
            self.movement_command[1] as u8
        };
        let created_packet: [u8; 5] = [COMMAND_NUMBER, b0, b1, hi, lo];
        self.packet = Some(created_packet);
        created_packet
    }

    /// Reads a packet back into an order. Fails when the marker byte is
    /// wrong, or when the carried checksum does not match the one recomputed
    /// from the command bytes.
    pub fn decode_packet(packet: [u8; 5]) -> (r: Result<Self, MovementPacketDecodeError>)
        ensures
            packet[0] != COMMAND_NUMBER ==> (r matches Err(
                MovementPacketDecodeError::NotMovementPacket,
            )),
            packet[0] == COMMAND_NUMBER && checksum_of_bytes(packet[3], packet[4])
                != checksum_spec(i8_of_u8(packet[1]) as i8, i8_of_u8(packet[2]) as i8) ==> (
            r matches Err(MovementPacketDecodeError::ChecksumNotValid)),
            packet[0] == COMMAND_NUMBER && checksum_of_bytes(packet[3], packet[4])
                == checksum_spec(i8_of_u8(packet[1]) as i8, i8_of_u8(packet[2]) as i8) ==> (
            r matches Ok(m)
                && m.movement_command[0] == i8_of_u8(packet[1])
                && m.movement_command[1] == i8_of_u8(packet[2])
                && m.checksum == checksum_of_bytes(packet[3], packet[4])
                && m.packet == Some(packet)),
    {
        if packet[0] != COMMAND_NUMBER {
            return Err(MovementPacketDecodeError::NotMovementPacket);
        }

        let carried: i32 = (packet[3] as i32) * 256 + (packet[4] as i32);
        let checksum: i16 = if carried >= 32768 {
            (carried - 65536) as i16
        } else {
            carried as i16
        };

        let c0: i8 = if packet[1] >= 128 {
            (packet[1] as i32 - 256) as i8
        } else {
            packet[1] as i8
        };
        let c1: i8 = if packet[2] >= 128 {
            (packet[2] as i32 - 256) as i8
        } else {
            packet[2] as i8
        };

        let expected: i16 = c0 as i16 + c1 as i16 + COMMAND_NUMBER as i16;

        if expected != checksum {
            return Err(MovementPacketDecodeError::ChecksumNotValid);
        }

        Ok(Movement { movement_command: [c0, c1], checksum, packet: Some(packet) })
    }
}

/// Encoding and decoding invert each other: a packet generated from an order
/// whose checksum matches its command bytes decodes to that same order.
pub proof fn lemma_packet_roundtrip(cmd0: i8, cmd1: i8, c: i16)
    requires
        c == checksum_spec(cmd0, cmd1),
    ensures
        i8_of_u8((u8_of_i8(cmd0)) as u8) == cmd0,
        i8_of_u8((u8_of_i8(cmd1)) as u8) == cmd1,
        checksum_of_bytes((checksum_hi(c)) as u8, (checksum_lo(c)) as u8) == c,
{
    let bits = i16_bits(c);
    assert(0 <= bits < 65536);
    assert(bits == 256 * (bits / 256) + bits % 256) by (nonlinear_arith);
    assert(0 <= bits / 256 < 256) by (nonlinear_arith)
        requires
            0 <= bits < 65536,
    ;
    assert(0 <= bits % 256 < 256) by (nonlinear_arith);
}

} // verus!

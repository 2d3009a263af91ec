//! Wire frames of the UART bootloader protocol.
//!
//! Every frame is a short byte sequence. Command frames carry the opcode and
//! its bitwise complement; address and data frames end in an XOR checksum of
//! all the bytes before it.

use vstd::prelude::*;

verus! {

/// Byte the bootloader answers to accept a frame.
pub const ACK: u8 = 0x79;

/// Byte the bootloader answers to reject a frame.
pub const NACK: u8 = 0x1F;

/// Byte that lets the bootloader measure the baud rate and start listening.
pub const SYNC: u8 = 0x7F;

/// Opcode: report the product id.
pub const GET_ID: u8 = 0x02;

/// Opcode: write up to 256 bytes to memory.
pub const WRITE_MEMORY: u8 = 0x31;

/// Opcode: erase flash, addressed by 16-bit page codes.
pub const EXTENDED_ERASE: u8 = 0x44;

/// Largest payload of one write-memory command.
pub const CHUNK: usize = 256;

/// XOR of all bytes of `s`; zero for the empty sequence.
pub open spec fn xor_sum(s: Seq<u8>) -> u8
    decreases s.len(),
{
    if s.len() == 0 {
        0u8
    } else {
        xor_sum(s.drop_last()) ^ s.last()
    }
}

/// A frame whose last byte is the XOR of all the bytes before it.
pub open spec fn checksummed(frame: Seq<u8>) -> bool {
    frame.len() >= 1 && frame.last() == xor_sum(frame.drop_last())
}

/// The four bytes of an address, most significant first.
pub open spec fn address_bytes(address: u32) -> Seq<u8> {
    seq![
        ((address >> 24) & 0xff) as u8,
        ((address >> 16) & 0xff) as u8,
        ((address >> 8) & 0xff) as u8,
        (address & 0xff) as u8,
    ]
}

/// The number that four bytes spell, most significant first.
pub open spec fn address_value(bytes: Seq<u8>) -> u32
    recommends
        bytes.len() == 4,
{
    ((bytes[0] as u32) << 24) | ((bytes[1] as u32) << 16) | ((bytes[2] as u32) << 8) | (
    bytes[3] as u32)
}

pub open spec fn command_frame_spec(opcode: u8) -> Seq<u8> {
    seq![opcode, !opcode]
}

pub open spec fn address_frame_spec(address: u32) -> Seq<u8> {
    address_bytes(address).push(xor_sum(address_bytes(address)))
}

/// Length byte, payload, checksum over both.
pub open spec fn data_frame_spec(payload: Seq<u8>) -> Seq<u8>
    recommends
        1 <= payload.len() <= 256,
{
    let body = seq![(payload.len() - 1) as u8] + payload;
    body.push(xor_sum(body))
}

/// The "erase everything" page code with its checksum.
pub open spec fn erase_all_frame_spec() -> Seq<u8> {
    seq![0xFFu8, 0xFFu8, 0x00u8]
}

pub proof fn lemma_xor_sum_push(s: Seq<u8>, b: u8)
    ensures
        xor_sum(s.push(b)) == xor_sum(s) ^ b,
{
    assert(s.push(b).drop_last() =~= s);
}

proof fn lemma_xor_zero(b: u8)
    ensures
        0u8 ^ b == b,
{
    assert(0u8 ^ b == b) by (bit_vector);
}

/// Splitting an address into bytes and reading them back gives the address.
pub proof fn lemma_address_bytes_round_trip(address: u32)
    ensures
        address_bytes(address).len() == 4,
        address_value(address_bytes(address)) == address,
{
    let b0: u8 = ((address >> 24) & 0xff) as u8;
    let b1: u8 = ((address >> 16) & 0xff) as u8;
    let b2: u8 = ((address >> 8) & 0xff) as u8;
    let b3: u8 = (address & 0xff) as u8;
    assert(((((address >> 24) & 0xff) as u8) as u32) << 24 | ((((address >> 16) & 0xff) as u8) as u32)
        << 16 | ((((address >> 8) & 0xff) as u8) as u32) << 8 | (((address & 0xff) as u8) as u32)
        == address) by (bit_vector);
}

/// Opcode followed by its complement.
pub fn command_frame(opcode: u8) -> (frame: Vec<u8>)
    ensures
        frame@ == command_frame_spec(opcode),
        frame@.len() == 2,
        frame@[0] == opcode,
        frame@[1] == !frame@[0],
{
    let mut frame: Vec<u8> = Vec::new();
    frame.push(opcode);
    frame.push(!opcode);
    assert(frame@ =~= command_frame_spec(opcode));
    frame
}

/// Four address bytes, most significant first, then their XOR.
pub fn address_frame(address: u32) -> (frame: Vec<u8>)
    ensures
        frame@ == address_frame_spec(address),
        frame@.len() == 5,
        frame@.subrange(0, 4) == address_bytes(address),
        address_value(frame@.subrange(0, 4)) == address,
        checksummed(frame@),
{
    let h3: u32 = (address >> 24) & 0xff;
    let h2: u32 = (address >> 16) & 0xff;
    let h1: u32 = (address >> 8) & 0xff;
    let h0: u32 = address & 0xff;
    assert(((address >> 24) & 0xff) < 256 && ((address >> 16) & 0xff) < 256 && ((address >> 8)
        & 0xff) < 256 && (address & 0xff) < 256) by (bit_vector);
    let b0: u8 = h3 as u8;
    let b1: u8 = h2 as u8;
    let b2: u8 = h1 as u8;
    let b3: u8 = h0 as u8;
    let sum: u8 = b0 ^ b1 ^ b2 ^ b3;
    let mut frame: Vec<u8> = Vec::new();
    frame.push(b0);
    frame.push(b1);
    frame.push(b2);
    frame.push(b3);
    frame.push(sum);
    proof {
        let bytes = address_bytes(address);
        assert(bytes =~= seq![b0, b1, b2, b3]);
        let s0 = Seq::<u8>::empty();
        lemma_xor_sum_push(s0, b0);
        lemma_xor_sum_push(s0.push(b0), b1);
        lemma_xor_sum_push(s0.push(b0).push(b1), b2);
        lemma_xor_sum_push(s0.push(b0).push(b1).push(b2), b3);
        assert(s0.push(b0).push(b1).push(b2).push(b3) =~= bytes);
        lemma_xor_zero(b0);
        assert(xor_sum(bytes) == sum);
        assert(frame@ =~= address_frame_spec(address));
        assert(frame@.subrange(0, 4) =~= bytes);
        assert(frame@.drop_last() =~= bytes);
        lemma_address_bytes_round_trip(address);
    }
    frame
}

/// The payload's length minus one, the payload, and the XOR of all of these.
pub fn data_frame(payload: &[u8]) -> (frame: Vec<u8>)
    requires
        1 <= payload@.len() <= 256,
    ensures
        frame@ == data_frame_spec(payload@),
        frame@.len() == payload@.len() + 2,
        frame@[0] == payload@.len() - 1,
        frame@.subrange(1, payload@.len() as int + 1) == payload@,
        checksummed(frame@),
{
    let n: usize = payload.len();
    let head: u8 = (n - 1) as u8;
    let mut frame: Vec<u8> = Vec::new();
    frame.push(head);
    let mut sum: u8 = head;
    proof {
        lemma_xor_sum_push(Seq::<u8>::empty(), head);
        lemma_xor_zero(head);
        assert(Seq::<u8>::empty().push(head) =~= seq![head]);
        assert(frame@ =~= seq![head] + payload@.take(0));
    }
    let mut i: usize = 0;
    while i < n
        invariant
            i <= n,
            n == payload@.len(),
            frame@ == seq![head] + payload@.take(i as int),
            sum == xor_sum(frame@),
        decreases n - i,
    {
        let b: u8 = payload[i];
        proof {
            lemma_xor_sum_push(frame@, b);
            assert((seq![head] + payload@.take(i as int)).push(b) =~= seq![head] + payload@.take(
                i + 1,
            ));
        }
        frame.push(b);
        sum = sum ^ b;
        i = i + 1;
    }
    proof {
        assert(payload@.take(n as int) =~= payload@);
    }
    let ghost body = frame@;
    frame.push(sum);
    proof {
        assert(frame@.drop_last() =~= body);
        assert(frame@ =~= data_frame_spec(payload@));
        assert(frame@.subrange(1, payload@.len() as int + 1) =~= payload@);
    }
    frame
}

/// `0xFF 0xFF` selects every page; the third byte is the XOR of the two.
pub fn erase_all_frame() -> (frame: Vec<u8>)
    ensures
        frame@ == erase_all_frame_spec(),
        checksummed(frame@),
{
    let mut frame: Vec<u8> = Vec::new();
    frame.push(0xFF);
    frame.push(0xFF);
    frame.push(0x00);
    proof {
        assert(frame@ =~= erase_all_frame_spec());
        let s0 = Seq::<u8>::empty();
        lemma_xor_sum_push(s0, 0xFFu8);
        lemma_xor_sum_push(s0.push(0xFFu8), 0xFFu8);
        assert(frame@.drop_last() =~= s0.push(0xFFu8).push(0xFFu8));
        assert((0u8 ^ 0xFFu8) ^ 0xFFu8 == 0u8) by (bit_vector);
    }
    frame
}

} // verus!

//! Wire-level protocol with the actor.
//!
//! Every message is framed as a 32-bit little-endian length prefix followed
//! by exactly that many bytes of body. A body is a 32-bit little-endian tag
//! followed by a fixed-size header and, for packet-bearing messages, the
//! payload bytes. Times travel as whole seconds plus microseconds, with the
//! microsecond part below one million.
//!
//! Actor to guest the bodies are, by tag:
//! - `DeliverPacket`: tag, source and destination address, payload length,
//!   payload bytes;
//! - `GotoDeadline`: tag, seconds, microseconds;
//! - `EndSimulation`: tag alone.
//!
//! Guest to actor:
//! - `AtDeadline`: tag alone;
//! - `SendPacket`: tag, seconds, microseconds, source, destination, payload
//!   length, payload bytes.
use vstd::prelude::*;

use crate::binser::{
    u32_from_le,
    u32_le,
    u32_to_le,
    u64_from_le,
    u64_le,
    u64_to_le,
    Endianness,
    Error,
    FromBytes,
    SizedAsBytes,
    ToBytes,
    Validate,
};
use crate::buffer_pool::{Buffer, BufferPool};
use crate::time::Dur;
use crate::MAX_PACKET_SIZE;

verus! {

/// A time on the wire: whole seconds and sub-second microseconds.
#[derive(Clone, Copy, Debug, PartialEq, Eq, Structural)]
pub struct Time {
    pub seconds: u64,
    pub useconds: u64,
}

/// Payload length header of a packet-bearing message.
#[derive(Clone, Copy, Debug, PartialEq, Eq, Structural)]
pub struct Packet {
    pub size: u32,
}

/// Source and destination of a packet, as IPv4 addresses in network byte
/// order.
#[derive(Clone, Copy, Debug, PartialEq, Eq, Structural)]
pub struct PacketMeta {
    pub src: u32,
    pub dst: u32,
}

/// Header of the actor's message that opens the next time slice.
#[derive(Clone, Copy, Debug, PartialEq, Eq, Structural)]
pub struct GoToDeadline {
    pub deadline: Time,
}

/// Header of the guest's outgoing packet message.
#[derive(Clone, Copy, Debug, PartialEq, Eq, Structural)]
pub struct SendPacket {
    pub send_time: Time,
    pub src: u32,
    pub dest: u32,
    pub packet: Packet,
}

impl SizedAsBytes for Time {
    open spec fn spec_num_bytes() -> nat {
        16
    }

    fn num_bytes() -> usize {
        16
    }
}

impl Validate for Time {
    open spec fn spec_valid(&self) -> bool {
        true
    }

    fn validate(v: &Time, endianness: Endianness) -> bool {
        true
    }
}

impl ToBytes for Time {
    open spec fn le_bytes(self) -> Seq<u8> {
        u64_le(self.seconds) + u64_le(self.useconds)
    }

    fn to_bytes(self, out: &mut Vec<u8>, endianness: Endianness) {
        u64_to_le(self.seconds, out);
        u64_to_le(self.useconds, out);
    }
}

impl FromBytes for Time {
    fn from_bytes(bytes: &Vec<u8>, pos: usize, endianness: Endianness) -> Result<
        (Time, usize),
        Error,
    > {
        let n: usize = bytes.len();
        if pos >= n || n - pos < 16 {
            Err(Error::MissingData)
        } else {
            let seconds: u64 = u64_from_le(bytes, pos);
            let useconds: u64 = u64_from_le(bytes, pos + 8);
            proof {
                assert(u64_le(seconds) + u64_le(useconds) =~= bytes@.subrange(
                    pos as int,
                    pos + 16,
                ));
            }
            Ok((Time { seconds, useconds }, pos + 16))
        }
    }
}

impl SizedAsBytes for Packet {
    open spec fn spec_num_bytes() -> nat {
        4
    }

    fn num_bytes() -> usize {
        4
    }
}

impl Validate for Packet {
    open spec fn spec_valid(&self) -> bool {
        true
    }

    fn validate(v: &Packet, endianness: Endianness) -> bool {
        true
    }
}

impl ToBytes for Packet {
    open spec fn le_bytes(self) -> Seq<u8> {
        u32_le(self.size)
    }

    fn to_bytes(self, out: &mut Vec<u8>, endianness: Endianness) {
        u32_to_le(self.size, out);
    }
}

impl FromBytes for Packet {
    fn from_bytes(bytes: &Vec<u8>, pos: usize, endianness: Endianness) -> Result<
        (Packet, usize),
        Error,
    > {
        let n: usize = bytes.len();
        if pos >= n || n - pos < 4 {
            Err(Error::MissingData)
        } else {
            let size: u32 = u32_from_le(bytes, pos);
            Ok((Packet { size }, pos + 4))
        }
    }
}

impl SizedAsBytes for PacketMeta {
    open spec fn spec_num_bytes() -> nat {
        8
    }

    fn num_bytes() -> usize {
        8
    }
}

impl Validate for PacketMeta {
    open spec fn spec_valid(&self) -> bool {
        true
    }

    fn validate(v: &PacketMeta, endianness: Endianness) -> bool {
        true
    }
}

impl ToBytes for PacketMeta {
    open spec fn le_bytes(self) -> Seq<u8> {
        u32_le(self.src) + u32_le(self.dst)
    }

    fn to_bytes(self, out: &mut Vec<u8>, endianness: Endianness) {
        u32_to_le(self.src, out);
        u32_to_le(self.dst, out);
    }
}

impl FromBytes for PacketMeta {
    fn from_bytes(bytes: &Vec<u8>, pos: usize, endianness: Endianness) -> Result<
        (PacketMeta, usize),
        Error,
    > {
        let n: usize = bytes.len();
        if pos >= n || n - pos < 8 {
            Err(Error::MissingData)
        } else {
            let src: u32 = u32_from_le(bytes, pos);
            let dst: u32 = u32_from_le(bytes, pos + 4);
            proof {
                assert(u32_le(src) + u32_le(dst) =~= bytes@.subrange(pos as int, pos + 8));
            }
            Ok((PacketMeta { src, dst }, pos + 8))
        }
    }
}

impl SizedAsBytes for GoToDeadline {
    open spec fn spec_num_bytes() -> nat {
        16
    }

    fn num_bytes() -> usize {
        16
    }
}

impl Validate for GoToDeadline {
    open spec fn spec_valid(&self) -> bool {
        true
    }

    fn validate(v: &GoToDeadline, endianness: Endianness) -> bool {
        true
    }
}

impl ToBytes for GoToDeadline {
    open spec fn le_bytes(self) -> Seq<u8> {
        self.deadline.le_bytes()
    }

    fn to_bytes(self, out: &mut Vec<u8>, endianness: Endianness) {
        self.deadline.to_bytes(out, endianness);
    }
}

impl FromBytes for GoToDeadline {
    fn from_bytes(bytes: &Vec<u8>, pos: usize, endianness: Endianness) -> Result<
        (GoToDeadline, usize),
        Error,
    > {
        match Time::from_bytes(bytes, pos, endianness) {
            Ok((deadline, next)) => Ok((GoToDeadline { deadline }, next)),
            Err(e) => Err(e),
        }
    }
}

impl SizedAsBytes for SendPacket {
    open spec fn spec_num_bytes() -> nat {
        28
    }

    fn num_bytes() -> usize {
        28
    }
}

impl Validate for SendPacket {
    open spec fn spec_valid(&self) -> bool {
        true
    }

    fn validate(v: &SendPacket, endianness: Endianness) -> bool {
        true
    }
}

impl ToBytes for SendPacket {
    open spec fn le_bytes(self) -> Seq<u8> {
        self.send_time.le_bytes() + u32_le(self.src) + u32_le(self.dest) + self.packet.le_bytes()
    }

    fn to_bytes(self, out: &mut Vec<u8>, endianness: Endianness) {
        self.send_time.to_bytes(out, endianness);
        u32_to_le(self.src, out);
        u32_to_le(self.dest, out);
        self.packet.to_bytes(out, endianness);
    }
}

impl FromBytes for SendPacket {
    fn from_bytes(bytes: &Vec<u8>, pos: usize, endianness: Endianness) -> Result<
        (SendPacket, usize),
        Error,
    > {
        let n: usize = bytes.len();
        if pos >= n || n - pos < 28 {
            Err(Error::MissingData)
        } else {
            let seconds: u64 = u64_from_le(bytes, pos);
            let useconds: u64 = u64_from_le(bytes, pos + 8);
            let src: u32 = u32_from_le(bytes, pos + 16);
            let dest: u32 = u32_from_le(bytes, pos + 20);
            let size: u32 = u32_from_le(bytes, pos + 24);
            let r = SendPacket {
                send_time: Time { seconds, useconds },
                src,
                dest,
                packet: Packet { size },
            };
            proof {
                assert(r.le_bytes() =~= bytes@.subrange(pos as int, pos + 28));
            }
            Ok((r, pos + 28))
        }
    }
}

/// Tag of a message from the actor.
#[derive(Clone, Copy, Debug, PartialEq, Eq, Structural)]
pub enum MsgInType {
    DeliverPacket,
    GoToDeadline,
    EndSimulation,
}

impl MsgInType {
    /// The numeric value written on the wire for this tag.
    pub open spec fn spec_tag(self) -> u32 {
        match self {
            MsgInType::DeliverPacket => 0,
            MsgInType::GoToDeadline => 1,
            MsgInType::EndSimulation => 2,
        }
    }

    pub fn tag(self) -> (r: u32)
        ensures
            r == self.spec_tag(),
    {
        match self {
            MsgInType::DeliverPacket => 0,
            MsgInType::GoToDeadline => 1,
            MsgInType::EndSimulation => 2,
        }
    }
}

impl SizedAsBytes for MsgInType {
    open spec fn spec_num_bytes() -> nat {
        4
    }

    fn num_bytes() -> usize {
        4
    }
}

impl Validate for MsgInType {
    open spec fn spec_valid(&self) -> bool {
        true
    }

    fn validate(v: &MsgInType, endianness: Endianness) -> bool {
        true
    }
}

impl ToBytes for MsgInType {
    open spec fn le_bytes(self) -> Seq<u8> {
        u32_le(self.spec_tag())
    }

    fn to_bytes(self, out: &mut Vec<u8>, endianness: Endianness) {
        u32_to_le(self.tag(), out);
    }
}

impl FromBytes for MsgInType {
    fn from_bytes(bytes: &Vec<u8>, pos: usize, endianness: Endianness) -> Result<
        (MsgInType, usize),
        Error,
    > {
        let n: usize = bytes.len();
        if pos >= n || n - pos < 4 {
            Err(Error::MissingData)
        } else {
            let v: u32 = u32_from_le(bytes, pos);
            let ghost window = bytes@.subrange(pos as int, pos + 4);
            if v == 0 {
                Ok((MsgInType::DeliverPacket, pos + 4))
            } else if v == 1 {
                Ok((MsgInType::GoToDeadline, pos + 4))
            } else if v == 2 {
                Ok((MsgInType::EndSimulation, pos + 4))
            } else {
                proof {
                    assert forall|t: MsgInType| #[trigger] t.le_bytes() == window implies
                        !t.spec_valid() by {
                        lemma_u32_le_injective(t.spec_tag(), v);
                    }
                }
                Err(Error::InvalidData)
            }
        }
    }
}

/// Tag of a message to the actor.
#[derive(Clone, Copy, Debug, PartialEq, Eq, Structural)]
pub enum MsgOutType {
    AtDeadline,
    SendPacket,
}

impl MsgOutType {
    /// The numeric value written on the wire for this tag.
    pub open spec fn spec_tag(self) -> u32 {
        match self {
            MsgOutType::AtDeadline => 0,
            MsgOutType::SendPacket => 1,
        }
    }

    pub fn tag(self) -> (r: u32)
        ensures
            r == self.spec_tag(),
    {
        match self {
            MsgOutType::AtDeadline => 0,
            MsgOutType::SendPacket => 1,
        }
    }
}

impl SizedAsBytes for MsgOutType {
    open spec fn spec_num_bytes() -> nat {
        4
    }

    fn num_bytes() -> usize {
        4
    }
}

impl Validate for MsgOutType {
    open spec fn spec_valid(&self) -> bool {
        true
    }

    fn validate(v: &MsgOutType, endianness: Endianness) -> bool {
        true
    }
}

impl ToBytes for MsgOutType {
    open spec fn le_bytes(self) -> Seq<u8> {
        u32_le(self.spec_tag())
    }

    fn to_bytes(self, out: &mut Vec<u8>, endianness: Endianness) {
        u32_to_le(self.tag(), out);
    }
}

impl FromBytes for MsgOutType {
    fn from_bytes(bytes: &Vec<u8>, pos: usize, endianness: Endianness) -> Result<
        (MsgOutType, usize),
        Error,
    > {
        let n: usize = bytes.len();
        if pos >= n || n - pos < 4 {
            Err(Error::MissingData)
        } else {
            let v: u32 = u32_from_le(bytes, pos);
            let ghost window = bytes@.subrange(pos as int, pos + 4);
            if v == 0 {
                Ok((MsgOutType::AtDeadline, pos + 4))
            } else if v == 1 {
                Ok((MsgOutType::SendPacket, pos + 4))
            } else {
                proof {
                    assert forall|t: MsgOutType| #[trigger] t.le_bytes() == window implies
                        !t.spec_valid() by {
                        lemma_u32_le_injective(t.spec_tag(), v);
                    }
                }
                Err(Error::InvalidData)
            }
        }
    }
}

/// Distinct 32-bit values have distinct little-endian encodings.
pub proof fn lemma_u32_le_injective(a: u32, b: u32)
    ensures
        u32_le(a) == u32_le(b) ==> a == b,
{
    if u32_le(a) == u32_le(b) {
        assert(a == a % 256 + ((a / 256) % 256) * 256 + ((a / 65536) % 256) * 65536 + ((a
            / 16777216) % 256) * 16777216) by (bit_vector);
        assert(b == b % 256 + ((b / 256) % 256) * 256 + ((b / 65536) % 256) * 65536 + ((b
            / 16777216) % 256) * 16777216) by (bit_vector);
        assert(u32_le(a)[0] == u32_le(b)[0] && u32_le(a)[1] == u32_le(b)[1] && u32_le(a)[2]
            == u32_le(b)[2] && u32_le(a)[3] == u32_le(b)[3]);
    }
}

/// A packet delivered by the actor: addresses and the raw payload bytes.
#[derive(Debug)]
pub struct DeliverPacket {
    pub src: u32,
    pub dst: u32,
    pub payload: Vec<u8>,
}

impl DeliverPacket {
    pub fn src(&self) -> (r: u32)
        ensures
            r == self.src,
    {
        self.src
    }

    pub fn dst(&self) -> (r: u32)
        ensures
            r == self.dst,
    {
        self.dst
    }

    pub fn payload(&self) -> (r: &Vec<u8>)
        ensures
            r@ == self.payload@,
    {
        &self.payload
    }
}

/// A message from the actor.
#[derive(Debug)]
pub enum MsgIn {
    DeliverPacket(DeliverPacket),
    GoToDeadline(Dur),
    EndSimulation,
}

/// A message to the actor. An outgoing packet carries its send time, the
/// source and destination addresses and the payload bytes.
#[derive(Debug)]
pub enum MsgOut {
    AtDeadline,
    SendPacket(Dur, u32, u32, Vec<u8>),
}

/// Which messages the codec accepts for encoding: payloads no longer than
/// [`MAX_PACKET_SIZE`] and canonical times. The wire carries microseconds,
/// so a sub-microsecond part is truncated by the encoding.
pub open spec fn msg_in_wf(m: MsgIn) -> bool {
    match m {
        MsgIn::DeliverPacket(d) => d.payload@.len() <= MAX_PACKET_SIZE,
        MsgIn::GoToDeadline(t) => t.wf(),
        MsgIn::EndSimulation => true,
    }
}

/// Same acceptance condition on the guest-to-actor side.
pub open spec fn msg_out_wf(m: MsgOut) -> bool {
    match m {
        MsgOut::AtDeadline => true,
        MsgOut::SendPacket(t, src, dst, p) => t.wf() && p@.len() <= MAX_PACKET_SIZE,
    }
}

/// The wire tag of an actor-to-guest message.
pub open spec fn spec_msg_in_tag(m: MsgIn) -> u32 {
    match m {
        MsgIn::DeliverPacket(_) => 0,
        MsgIn::GoToDeadline(_) => 1,
        MsgIn::EndSimulation => 2,
    }
}

/// The wire tag of a guest-to-actor message.
pub open spec fn spec_msg_out_tag(m: MsgOut) -> u32 {
    match m {
        MsgOut::AtDeadline => 0,
        MsgOut::SendPacket(_, _, _, _) => 1,
    }
}

/// The body bytes (everything after the length prefix) of an
/// actor-to-guest message.
pub open spec fn spec_msg_in_body(m: MsgIn) -> Seq<u8> {
    match m {
        MsgIn::DeliverPacket(d) => u32_le(0) + u32_le(d.src) + u32_le(d.dst) + u32_le(
            d.payload@.len() as u32,
        ) + d.payload@,
        MsgIn::GoToDeadline(t) => u32_le(1) + u64_le(t.secs) + u64_le((t.nanos / 1000) as u64),
        MsgIn::EndSimulation => u32_le(2),
    }
}

/// The body bytes of the guest's outgoing packet message, over the
/// payload as a byte sequence.
pub open spec fn spec_send_packet_body(t: Dur, src: u32, dst: u32, payload: Seq<u8>) -> Seq<u8> {
    u32_le(1) + u64_le(t.secs) + u64_le((t.nanos / 1000) as u64) + u32_le(src) + u32_le(dst)
        + u32_le(payload.len() as u32) + payload
}

/// The body bytes of a guest-to-actor message.
pub open spec fn spec_msg_out_body(m: MsgOut) -> Seq<u8> {
    match m {
        MsgOut::AtDeadline => u32_le(0),
        MsgOut::SendPacket(t, src, dst, p) => spec_send_packet_body(t, src, dst, p@),
    }
}

/// A framed message: the body's length as 32-bit little-endian, then the
/// body.
pub open spec fn spec_frame(body: Seq<u8>) -> Seq<u8> {
    u32_le(body.len() as u32) + body
}

/// Copies `bytes[from..to]` into a fresh vector.
pub fn bytes_range_to_vec(bytes: &Vec<u8>, from: usize, to: usize) -> (r: Vec<u8>)
    requires
        from <= to <= bytes@.len(),
    ensures
        r@ =~= bytes@.subrange(from as int, to as int),
{
    let mut out: Vec<u8> = Vec::new();
    let mut i: usize = from;
    while i < to
        invariant
            from <= i <= to <= bytes@.len(),
            out@ =~= bytes@.subrange(from as int, i as int),
        decreases to - i,
    {
        out.push(bytes[i]);
        i = i + 1;
    }
    out
}

/// Encodes an actor-to-guest message body.
pub fn msg_in_to_bytes(msg: &MsgIn) -> (r: Vec<u8>)
    requires
        msg_in_wf(*msg),
    ensures
        r@ =~= spec_msg_in_body(*msg),
{
    let mut out: Vec<u8> = Vec::new();
    match msg {
        MsgIn::DeliverPacket(d) => {
            u32_to_le(0, &mut out);
            u32_to_le(d.src, &mut out);
            u32_to_le(d.dst, &mut out);
            u32_to_le(d.payload.len() as u32, &mut out);
            out.extend_from_slice(d.payload.as_slice());
        },
        MsgIn::GoToDeadline(t) => {
            u32_to_le(1, &mut out);
            u64_to_le(t.as_secs(), &mut out);
            u64_to_le(t.subsec_micros() as u64, &mut out);
        },
        MsgIn::EndSimulation => {
            u32_to_le(2, &mut out);
        },
    }
    out
}

/// Encodes a guest-to-actor message body.
pub fn msg_out_to_bytes(msg: &MsgOut) -> (r: Vec<u8>)
    requires
        msg_out_wf(*msg),
    ensures
        r@ =~= spec_msg_out_body(*msg),
{
    let mut out: Vec<u8> = Vec::new();
    match msg {
        MsgOut::AtDeadline => {
            u32_to_le(0, &mut out);
        },
        MsgOut::SendPacket(t, src, dst, p) => {
            u32_to_le(1, &mut out);
            u64_to_le(t.as_secs(), &mut out);
            u64_to_le(t.subsec_micros() as u64, &mut out);
            u32_to_le(*src, &mut out);
            u32_to_le(*dst, &mut out);
            u32_to_le(p.len() as u32, &mut out);
            out.extend_from_slice(p.as_slice());
        },
    }
    out
}

/// What an encoded actor-to-guest body looks like, by tag: its length, the
/// byte windows its fields occupy, and the bounds the accepted messages
/// obey.
proof fn lemma_msg_in_body_shape(m: MsgIn)
    requires
        msg_in_wf(m),
    ensures
        spec_msg_in_body(m).len() >= 4,
        spec_msg_in_body(m).subrange(0, 4) == u32_le(spec_msg_in_tag(m)),
        m matches MsgIn::DeliverPacket(d) ==> spec_msg_in_body(m).len() == 16 + d.payload@.len()
            && spec_msg_in_body(m).subrange(4, 8) == u32_le(d.src) && spec_msg_in_body(
            m,
        ).subrange(8, 12) == u32_le(d.dst) && spec_msg_in_body(m).subrange(12, 16) == u32_le(
            d.payload@.len() as u32,
        ) && spec_msg_in_body(m).subrange(16, spec_msg_in_body(m).len() as int) == d.payload@,
        m matches MsgIn::GoToDeadline(t) ==> spec_msg_in_body(m).len() == 20 && spec_msg_in_body(
            m,
        ).subrange(4, 12) == u64_le(t.secs) && spec_msg_in_body(m).subrange(12, 20) == u64_le(
            (t.nanos / 1000) as u64,
        ) && (t.nanos / 1000) < 1_000_000,
        m matches MsgIn::EndSimulation ==> spec_msg_in_body(m).len() == 4,
{
    let body = spec_msg_in_body(m);
    match m {
        MsgIn::DeliverPacket(d) => {
            assert(body.subrange(0, 4) =~= u32_le(0));
            assert(body.subrange(4, 8) =~= u32_le(d.src));
            assert(body.subrange(8, 12) =~= u32_le(d.dst));
            assert(body.subrange(12, 16) =~= u32_le(d.payload@.len() as u32));
            assert(body.subrange(16, body.len() as int) =~= d.payload@);
        },
        MsgIn::GoToDeadline(t) => {
            assert(body.subrange(0, 4) =~= u32_le(1));
            assert(body.subrange(4, 12) =~= u64_le(t.secs));
            assert(body.subrange(12, 20) =~= u64_le((t.nanos / 1000) as u64));
        },
        MsgIn::EndSimulation => {
            assert(body.subrange(0, 4) =~= u32_le(2));
        },
    }
}

/// The counterpart of [`lemma_msg_in_body_shape`] for guest-to-actor
/// bodies.
proof fn lemma_msg_out_body_shape(m: MsgOut)
    requires
        msg_out_wf(m),
    ensures
        spec_msg_out_body(m).len() >= 4,
        spec_msg_out_body(m).subrange(0, 4) == u32_le(spec_msg_out_tag(m)),
        m matches MsgOut::AtDeadline ==> spec_msg_out_body(m).len() == 4,
        m matches MsgOut::SendPacket(t, src, dst, p) ==> spec_msg_out_body(m).len() == 32
            + p@.len() && spec_msg_out_body(m).subrange(4, 12) == u64_le(t.secs)
            && spec_msg_out_body(m).subrange(12, 20) == u64_le((t.nanos / 1000) as u64)
            && spec_msg_out_body(m).subrange(20, 24) == u32_le(src) && spec_msg_out_body(
            m,
        ).subrange(24, 28) == u32_le(dst) && spec_msg_out_body(m).subrange(28, 32) == u32_le(
            p@.len() as u32,
        ) && spec_msg_out_body(m).subrange(32, spec_msg_out_body(m).len() as int) == p@ && (t.nanos
            / 1000) < 1_000_000,
{
    let body = spec_msg_out_body(m);
    match m {
        MsgOut::AtDeadline => {
            assert(body.subrange(0, 4) =~= u32_le(0));
        },
        MsgOut::SendPacket(t, src, dst, p) => {
            assert(body.subrange(0, 4) =~= u32_le(1));
            assert(body.subrange(4, 12) =~= u64_le(t.secs));
            assert(body.subrange(12, 20) =~= u64_le((t.nanos / 1000) as u64));
            assert(body.subrange(20, 24) =~= u32_le(src));
            assert(body.subrange(24, 28) =~= u32_le(dst));
            assert(body.subrange(28, 32) =~= u32_le(p@.len() as u32));
            assert(body.subrange(32, body.len() as int) =~= p@);
        },
    }
}

/// Decodes an actor-to-guest message body.
///
/// Succeeds exactly on the encodings of accepted messages: on success the
/// returned message is accepted and encodes back to `body`; on failure no
/// accepted message encodes to `body`. A body shorter than a tag fails
/// with `MissingData`; one whose tag is unknown fails with `InvalidData`;
/// a deadline whose microsecond part reaches one million fails with
/// `InvalidData`.
pub fn msg_in_from_bytes(body: &Vec<u8>) -> (r: Result<MsgIn, Error>)
    ensures
        match r {
            Ok(m) => msg_in_wf(m) && spec_msg_in_body(m) == body@,
            Err(_) => forall|m: MsgIn| msg_in_wf(m) ==> #[trigger] spec_msg_in_body(m) != body@,
        },
        body@.len() < 4 ==> r == Err::<MsgIn, Error>(Error::MissingData),
        body@.len() >= 4 && body@.subrange(0, 4) != u32_le(0) && body@.subrange(0, 4) != u32_le(1)
            && body@.subrange(0, 4) != u32_le(2) ==> r == Err::<MsgIn, Error>(Error::InvalidData),
        forall|s: u64, us: u64|
            body@ == #[trigger] (u32_le(1) + u64_le(s) + u64_le(us)) && us >= 1_000_000 ==> r
                == Err::<MsgIn, Error>(Error::InvalidData),
        // a decoded time is canonical at microsecond resolution
        r matches Ok(MsgIn::GoToDeadline(t)) ==> t.nanos % 1000 == 0,
        // truncated or malformed packet-bearing bodies, by kind
        body@.len() >= 4 && body@.subrange(0, 4) == u32_le(0) && body@.len() < 16 ==> r == Err::<
            MsgIn,
            Error,
        >(Error::MissingData),
        body@.len() >= 16 && body@.subrange(0, 4) == u32_le(0) ==> (forall|s: u32|
            #[trigger] u32_le(s) == body@.subrange(12, 16) ==> {
                &&& (s > MAX_PACKET_SIZE ==> r == Err::<MsgIn, Error>(Error::InvalidData))
                &&& (16 + s < body@.len() ==> r == Err::<MsgIn, Error>(Error::InvalidData))
                &&& (s <= MAX_PACKET_SIZE && 16 + s > body@.len() ==> r == Err::<MsgIn, Error>(
                    Error::MissingData,
                ))
            }),
        // truncated or padded deadline and end-of-simulation bodies
        4 <= body@.len() < 20 && body@.subrange(0, 4) == u32_le(1) ==> r == Err::<MsgIn, Error>(
            Error::MissingData,
        ),
        body@.len() > 20 && body@.subrange(0, 4) == u32_le(1) ==> r == Err::<MsgIn, Error>(
            Error::InvalidData,
        ),
        body@.len() > 4 && body@.subrange(0, 4) == u32_le(2) ==> r == Err::<MsgIn, Error>(
            Error::InvalidData,
        ),
{
    let n: usize = body.len();
    if n < 4 {
        proof {
            assert forall|m: MsgIn| msg_in_wf(m) implies #[trigger] spec_msg_in_body(m) != body@ by {
                lemma_msg_in_body_shape(m);
            }
        }
        return Err(Error::MissingData);
    }
    let tag: u32 = u32_from_le(body, 0);
    proof {
        assert(body@.subrange(0, 4) == u32_le(tag));
        // the tag window determines the tag value
        assert forall|v: u32| #[trigger] u32_le(v) == body@.subrange(0, 4) implies v == tag by {
            lemma_u32_le_injective(v, tag);
        }
    }
    if tag == 0 {
        // DeliverPacket: meta, size, payload
        if n < 16 {
            proof {
                assert forall|m: MsgIn| msg_in_wf(m) implies #[trigger] spec_msg_in_body(m)
                    != body@ by {
                    lemma_msg_in_body_shape(m);
                    if spec_msg_in_body(m) == body@ {
                        lemma_u32_le_injective(spec_msg_in_tag(m), tag);
                    }
                }
            }
            return Err(Error::MissingData);
        }
        let src: u32 = u32_from_le(body, 4);
        let dst: u32 = u32_from_le(body, 8);
        let size: u32 = u32_from_le(body, 12);
        proof {
            // the length field determines the announced payload size
            assert forall|s: u32| #[trigger] u32_le(s) == body@.subrange(12, 16) implies s
                == size by {
                lemma_u32_le_injective(s, size);
            }
        }
        let size_ok: bool = size as usize <= MAX_PACKET_SIZE && 16 + size as usize == n;
        if !size_ok {
            let big: bool = size as usize > MAX_PACKET_SIZE || 16 + (size as usize) < n;
            proof {
                assert forall|m: MsgIn| msg_in_wf(m) implies #[trigger] spec_msg_in_body(m)
                    != body@ by {
                    lemma_msg_in_body_shape(m);
                    if spec_msg_in_body(m) == body@ {
                        lemma_u32_le_injective(spec_msg_in_tag(m), tag);
                        if let MsgIn::DeliverPacket(d) = m {
                            lemma_u32_le_injective(d.payload@.len() as u32, size);
                        }
                    }
                }
            }
            if big {
                return Err(Error::InvalidData);
            } else {
                return Err(Error::MissingData);
            }
        }
        let payload: Vec<u8> = bytes_range_to_vec(body, 16, n);
        let d = DeliverPacket { src, dst, payload };
        proof {
            assert(spec_msg_in_body(MsgIn::DeliverPacket(d)) =~= body@);
        }
        Ok(MsgIn::DeliverPacket(d))
    } else if tag == 1 {
        // GoToDeadline: seconds, microseconds
        if n < 20 {
            proof {
                assert forall|m: MsgIn| msg_in_wf(m) implies #[trigger] spec_msg_in_body(m)
                    != body@ by {
                    lemma_msg_in_body_shape(m);
                    if spec_msg_in_body(m) == body@ {
                        lemma_u32_le_injective(spec_msg_in_tag(m), tag);
                    }
                }
            }
            return Err(Error::MissingData);
        }
        if n > 20 {
            proof {
                assert forall|m: MsgIn| msg_in_wf(m) implies #[trigger] spec_msg_in_body(m)
                    != body@ by {
                    lemma_msg_in_body_shape(m);
                    if spec_msg_in_body(m) == body@ {
                        lemma_u32_le_injective(spec_msg_in_tag(m), tag);
                    }
                }
                lemma_oob_useconds(body@);
            }
            return Err(Error::InvalidData);
        }
        let seconds: u64 = u64_from_le(body, 4);
        let useconds: u64 = u64_from_le(body, 12);
        proof {
            lemma_goto_deadline_windows(body@, seconds, useconds);
        }
        if useconds >= 1_000_000 {
            proof {
                assert forall|m: MsgIn| msg_in_wf(m) implies #[trigger] spec_msg_in_body(m)
                    != body@ by {
                    lemma_msg_in_body_shape(m);
                    if spec_msg_in_body(m) == body@ {
                        lemma_u32_le_injective(spec_msg_in_tag(m), tag);
                        if let MsgIn::GoToDeadline(t) = m {
                            lemma_u64_le_injective((t.nanos / 1000) as u64, useconds);
                        }
                    }
                }
            }
            return Err(Error::InvalidData);
        }
        let t = Dur { secs: seconds, nanos: (useconds as u32) * 1000 };
        proof {
            assert(spec_msg_in_body(MsgIn::GoToDeadline(t)) =~= body@);
            assert(t.nanos % 1000 == 0) by (nonlinear_arith)
                requires
                    t.nanos == (useconds as u32) * 1000,
                    useconds < 1_000_000,
            ;
        }
        Ok(MsgIn::GoToDeadline(t))
    } else if tag == 2 {
        // EndSimulation: the tag alone
        if n > 4 {
            proof {
                assert forall|m: MsgIn| msg_in_wf(m) implies #[trigger] spec_msg_in_body(m)
                    != body@ by {
                    lemma_msg_in_body_shape(m);
                    if spec_msg_in_body(m) == body@ {
                        lemma_u32_le_injective(spec_msg_in_tag(m), tag);
                    }
                }
                lemma_oob_useconds(body@);
            }
            return Err(Error::InvalidData);
        }
        proof {
            assert(spec_msg_in_body(MsgIn::EndSimulation) =~= body@);
        }
        Ok(MsgIn::EndSimulation)
    } else {
        proof {
            assert forall|m: MsgIn| msg_in_wf(m) implies #[trigger] spec_msg_in_body(m) != body@ by {
                lemma_msg_in_body_shape(m);
                if spec_msg_in_body(m) == body@ {
                    lemma_u32_le_injective(spec_msg_in_tag(m), tag);
                }
            }
            lemma_oob_useconds(body@);
        }
        Err(Error::InvalidData)
    }
}

/// If the body has a deadline's exact shape with the known field windows,
/// the decoded fields agree with any claimed ones.
proof fn lemma_goto_deadline_windows(body: Seq<u8>, seconds: u64, useconds: u64)
    requires
        body.len() == 20,
        u64_le(seconds) == body.subrange(4, 12),
        u64_le(useconds) == body.subrange(12, 20),
    ensures
        forall|s: u64, us: u64|
            body == #[trigger] (u32_le(1) + u64_le(s) + u64_le(us)) ==> s == seconds && us
                == useconds,
{
    assert forall|s: u64, us: u64|
        body == #[trigger] (u32_le(1) + u64_le(s) + u64_le(us)) implies s == seconds && us
        == useconds by {
        assert(body.subrange(4, 12) =~= u64_le(s));
        assert(body.subrange(12, 20) =~= u64_le(us));
        lemma_u64_le_injective(s, seconds);
        lemma_u64_le_injective(us, useconds);
    }
}

/// A body of the wrong length or with another tag is no deadline message
/// at all, so the out-of-bounds-microseconds clause holds of it vacuously.
proof fn lemma_oob_useconds(body: Seq<u8>)
    requires
        body.len() != 20 || body.subrange(0, 4) != u32_le(1),
    ensures
        forall|s: u64, us: u64| body != #[trigger] (u32_le(1) + u64_le(s) + u64_le(us)),
{
    assert forall|s: u64, us: u64| body != #[trigger] (u32_le(1) + u64_le(s) + u64_le(us)) by {
        let enc = u32_le(1) + u64_le(s) + u64_le(us);
        assert(enc.len() == 20);
        assert(enc.subrange(0, 4) =~= u32_le(1));
    }
}

/// Decodes a guest-to-actor message body; the mirror of
/// [`msg_in_from_bytes`], used by the actor's side of the conversation and
/// by tests that check what the guest emitted.
pub fn msg_out_from_bytes(body: &Vec<u8>) -> (r: Result<MsgOut, Error>)
    ensures
        match r {
            Ok(m) => msg_out_wf(m) && spec_msg_out_body(m) == body@,
            Err(_) => forall|m: MsgOut| msg_out_wf(m) ==> #[trigger] spec_msg_out_body(m) != body@,
        },
        body@.len() < 4 ==> r == Err::<MsgOut, Error>(Error::MissingData),
        // a decoded time is canonical at microsecond resolution
        r matches Ok(MsgOut::SendPacket(t, _, _, _)) ==> t.nanos % 1000 == 0,
{
    let n: usize = body.len();
    if n < 4 {
        proof {
            assert forall|m: MsgOut| msg_out_wf(m) implies #[trigger] spec_msg_out_body(m)
                != body@ by {
                lemma_msg_out_body_shape(m);
            }
        }
        return Err(Error::MissingData);
    }
    let tag: u32 = u32_from_le(body, 0);
    proof {
        assert(body@.subrange(0, 4) == u32_le(tag));
    }
    if tag == 0 {
        // AtDeadline: the tag alone
        if n > 4 {
            proof {
                assert forall|m: MsgOut| msg_out_wf(m) implies #[trigger] spec_msg_out_body(m)
                    != body@ by {
                    lemma_msg_out_body_shape(m);
                    if spec_msg_out_body(m) == body@ {
                        lemma_u32_le_injective(spec_msg_out_tag(m), tag);
                    }
                }
            }
            return Err(Error::InvalidData);
        }
        proof {
            assert(spec_msg_out_body(MsgOut::AtDeadline) =~= body@);
        }
        Ok(MsgOut::AtDeadline)
    } else if tag == 1 {
        // SendPacket: time, meta, size, payload
        if n < 32 {
            proof {
                assert forall|m: MsgOut| msg_out_wf(m) implies #[trigger] spec_msg_out_body(m)
                    != body@ by {
                    lemma_msg_out_body_shape(m);
                    if spec_msg_out_body(m) == body@ {
                        lemma_u32_le_injective(spec_msg_out_tag(m), tag);
                    }
                }
            }
            return Err(Error::MissingData);
        }
        let seconds: u64 = u64_from_le(body, 4);
        let useconds: u64 = u64_from_le(body, 12);
        let src: u32 = u32_from_le(body, 20);
        let dst: u32 = u32_from_le(body, 24);
        let size: u32 = u32_from_le(body, 28);
        let size_ok: bool = size as usize <= MAX_PACKET_SIZE && 32 + size as usize == n;
        if !size_ok || useconds >= 1_000_000 {
            let missing: bool = size_ok || (size as usize <= MAX_PACKET_SIZE && 32 + (size as usize) > n);
            proof {
                assert forall|m: MsgOut| msg_out_wf(m) implies #[trigger] spec_msg_out_body(m)
                    != body@ by {
                    lemma_msg_out_body_shape(m);
                    if spec_msg_out_body(m) == body@ {
                        lemma_u32_le_injective(spec_msg_out_tag(m), tag);
                        if let MsgOut::SendPacket(t, msrc, mdst, p) = m {
                            lemma_u32_le_injective(p@.len() as u32, size);
                            lemma_u64_le_injective((t.nanos / 1000) as u64, useconds);
                        }
                    }
                }
            }
            if missing {
                return Err(Error::MissingData);
            } else {
                return Err(Error::InvalidData);
            }
        }
        let payload: Vec<u8> = bytes_range_to_vec(body, 32, n);
        let t = Dur { secs: seconds, nanos: (useconds as u32) * 1000 };
        proof {
            assert(spec_msg_out_body(MsgOut::SendPacket(t, src, dst, payload)) =~= body@);
            assert(t.nanos % 1000 == 0) by (nonlinear_arith)
                requires
                    t.nanos == (useconds as u32) * 1000,
                    useconds < 1_000_000,
            ;
        }
        Ok(MsgOut::SendPacket(t, src, dst, payload))
    } else {
        proof {
            assert forall|m: MsgOut| msg_out_wf(m) implies #[trigger] spec_msg_out_body(m)
                != body@ by {
                lemma_msg_out_body_shape(m);
                if spec_msg_out_body(m) == body@ {
                    lemma_u32_le_injective(spec_msg_out_tag(m), tag);
                }
            }
        }
        Err(Error::InvalidData)
    }
}

/// Checks the payload bound and wraps the parts into a deliverable packet
/// message.
pub fn new_deliver_packet(src: u32, dst: u32, payload: Vec<u8>) -> (r: Result<MsgIn, Error>)
    ensures
        payload@.len() <= MAX_PACKET_SIZE ==> (r matches Ok(m) && m == MsgIn::DeliverPacket(
            (DeliverPacket { src, dst, payload }),
        ) && msg_in_wf(m)),
        payload@.len() > MAX_PACKET_SIZE ==> r == Err::<MsgIn, Error>(Error::InvalidData),
{
    if payload.len() <= MAX_PACKET_SIZE {
        Ok(MsgIn::DeliverPacket(DeliverPacket { src, dst, payload }))
    } else {
        Err(Error::InvalidData)
    }
}

/// Prepends the 32-bit little-endian length prefix to a message body.
pub fn frame_bytes(body: &Vec<u8>) -> (r: Vec<u8>)
    requires
        body@.len() <= u32::MAX,
    ensures
        r@ =~= spec_frame(body@),
{
    let mut out: Vec<u8> = Vec::new();
    u32_to_le(body.len() as u32, &mut out);
    out.extend_from_slice(body.as_slice());
    out
}

/// Reads a frame's length prefix: the number of body bytes that follow,
/// and the position where they start.
pub fn read_prefixed_size(bytes: &Vec<u8>, pos: usize) -> (r: Result<(usize, usize), Error>)
    ensures
        pos + 4 > bytes@.len() ==> r == Err::<(usize, usize), Error>(Error::MissingData),
        pos + 4 <= bytes@.len() ==> (r matches Ok((size, next)) && next == pos + 4 && size
            <= u32::MAX && u32_le(size as u32) == bytes@.subrange(pos as int, pos + 4)),
{
    let n: usize = bytes.len();
    if pos >= n || n - pos < 4 {
        Err(Error::MissingData)
    } else {
        let size: u32 = u32_from_le(bytes, pos);
        Ok((size as usize, pos + 4))
    }
}

/// Splits one frame off the front of `bytes[pos..]`, holding its body to
/// `max_size` bytes, as the inbound buffer pool does: a larger frame fails
/// with `InvalidData`, a truncated one with `MissingData`.
pub fn decode_frame(bytes: &Vec<u8>, pos: usize, max_size: usize) -> (r: Result<
    (Vec<u8>, usize),
    Error,
>)
    ensures
        match r {
            Ok((body, next)) => body@.len() <= max_size && next == pos + 4 + body@.len()
                && next <= bytes@.len() && spec_frame(body@) == bytes@.subrange(
                pos as int,
                next as int,
            ),
            Err(e) => e == Error::MissingData || e == Error::InvalidData,
        },
        pos + 4 > bytes@.len() ==> r == Err::<(Vec<u8>, usize), Error>(Error::MissingData),
        pos + 4 <= bytes@.len() ==> (forall|s: u32|
            #[trigger] u32_le(s) == bytes@.subrange(pos as int, pos + 4) ==> {
                &&& (s <= max_size && pos + 4 + s <= bytes@.len() ==> r is Ok)
                &&& (s > max_size ==> r == Err::<(Vec<u8>, usize), Error>(Error::InvalidData))
                &&& (s <= max_size && pos + 4 + s > bytes@.len() ==> r == Err::<
                    (Vec<u8>, usize),
                    Error,
                >(Error::MissingData))
            }),
{
    let n: usize = bytes.len();
    let (size, start) = match read_prefixed_size(bytes, pos) {
        Ok(p) => p,
        Err(e) => {
            return Err(e);
        },
    };
    proof {
        // the length prefix determines the announced size
        assert forall|s: u32| #[trigger] u32_le(s) == bytes@.subrange(pos as int, pos + 4)
            implies s == size by {
            lemma_u32_le_injective(s, size as u32);
        }
    }
    if size > max_size {
        return Err(Error::InvalidData);
    }
    if size > n - start {
        return Err(Error::MissingData);
    }
    let body: Vec<u8> = bytes_range_to_vec(bytes, start, start + size);
    proof {
        assert(spec_frame(body@) =~= bytes@.subrange(pos as int, pos + 4 + body@.len()));
    }
    Ok((body, start + size))
}

/// An outgoing packet under construction: addresses, the send time
/// recorded by the application, and the leased pool buffer that holds the
/// payload bytes. The deadline handler fixes the final send time and turns
/// it into a [`MsgOut::SendPacket`] with [`SendPacketBuilder::finish`].
#[derive(Debug)]
pub struct SendPacketBuilder {
    pub src: u32,
    pub dst: u32,
    pub send_time: Dur,
    pub payload: Buffer,
}

impl SendPacketBuilder {
    pub fn new(src: u32, dst: u32, send_time: Dur, payload: Buffer) -> (r: SendPacketBuilder)
        ensures
            r == (SendPacketBuilder { src, dst, send_time, payload }),
    {
        SendPacketBuilder { src, dst, send_time, payload }
    }

    pub fn src(&self) -> (r: u32)
        ensures
            r == self.src,
    {
        self.src
    }

    pub fn dst(&self) -> (r: u32)
        ensures
            r == self.dst,
    {
        self.dst
    }

    pub fn send_time(&self) -> (r: Dur)
        ensures
            r == self.send_time,
    {
        self.send_time
    }

    pub fn set_send_time(&mut self, send_time: Dur)
        ensures
            *final(self) == (SendPacketBuilder {
                send_time,
                ..*old(self)
            }),
    {
        self.send_time = send_time;
    }

    /// Fixes the send time, reads the payload out of the pool, releases
    /// the leased buffer and yields the finished outgoing message.
    pub fn finish(self, send_time: Dur, pool: &mut BufferPool) -> (r: MsgOut)
        requires
            old(pool).wf(),
            old(pool).valid_buffer(self.payload),
        ensures
            final(pool).wf(),
            final(pool).spec_buffer_size() == old(pool).spec_buffer_size(),
            final(pool).spec_num_buffers() == old(pool).spec_num_buffers(),
            final(pool).inner.buffers@ == old(pool).inner.buffers@,
            final(pool).inner.buffer_busy@ == old(pool).inner.buffer_busy@.update(
                self.payload.index as int,
                false,
            ),
            r matches MsgOut::SendPacket(t, src, dst, p) && t == send_time && src == self.src
                && dst == self.dst && p@ == old(pool).buffer_view(self.payload),
    {
        let payload: Vec<u8> = pool.buffer_to_vec(&self.payload);
        pool.free_buffer(self.payload);
        MsgOut::SendPacket(send_time, self.src, self.dst, payload)
    }
}

/// Whether two guest-to-actor messages carry the same information.
pub open spec fn msg_out_equiv(m1: MsgOut, m2: MsgOut) -> bool {
    match (m1, m2) {
        (MsgOut::AtDeadline, MsgOut::AtDeadline) => true,
        (MsgOut::SendPacket(t1, src1, dst1, p1), MsgOut::SendPacket(t2, src2, dst2, p2)) => t1.secs
            == t2.secs && t1.nanos / 1000 == t2.nanos / 1000 && src1 == src2 && dst1 == dst2
            && p1@ == p2@,
        _ => false,
    }
}

/// Round-trip law: the encoding of accepted guest-to-actor messages is
/// injective, so decoding the bytes the guest emitted can only yield the
/// original send time, source, destination and payload.
pub proof fn lemma_msg_out_encoding_injective(m1: MsgOut, m2: MsgOut)
    requires
        msg_out_wf(m1),
        msg_out_wf(m2),
        spec_msg_out_body(m1) == spec_msg_out_body(m2),
    ensures
        msg_out_equiv(m1, m2),
{
    lemma_msg_out_body_shape(m1);
    lemma_msg_out_body_shape(m2);
    lemma_u32_le_injective(spec_msg_out_tag(m1), spec_msg_out_tag(m2));
    if let MsgOut::SendPacket(t1, src1, dst1, p1) = m1 {
        if let MsgOut::SendPacket(t2, src2, dst2, p2) = m2 {
            lemma_u64_le_injective(t1.secs, t2.secs);
            lemma_u64_le_injective((t1.nanos / 1000) as u64, (t2.nanos / 1000) as u64);
            lemma_u32_le_injective(src1, src2);
            lemma_u32_le_injective(dst1, dst2);
            assert(p1@ =~= p2@);
        }
    }
}

/// The same round-trip law for actor-to-guest messages.
pub proof fn lemma_msg_in_encoding_injective(m1: MsgIn, m2: MsgIn)
    requires
        msg_in_wf(m1),
        msg_in_wf(m2),
        spec_msg_in_body(m1) == spec_msg_in_body(m2),
    ensures
        match (m1, m2) {
            (MsgIn::DeliverPacket(d1), MsgIn::DeliverPacket(d2)) => d1.src == d2.src && d1.dst
                == d2.dst && d1.payload@ == d2.payload@,
            (MsgIn::GoToDeadline(t1), MsgIn::GoToDeadline(t2)) => t1.secs == t2.secs && t1.nanos
                / 1000 == t2.nanos / 1000,
            (MsgIn::EndSimulation, MsgIn::EndSimulation) => true,
            _ => false,
        },
{
    lemma_msg_in_body_shape(m1);
    lemma_msg_in_body_shape(m2);
    lemma_u32_le_injective(spec_msg_in_tag(m1), spec_msg_in_tag(m2));
    if let MsgIn::DeliverPacket(d1) = m1 {
        if let MsgIn::DeliverPacket(d2) = m2 {
            lemma_u32_le_injective(d1.src, d2.src);
            lemma_u32_le_injective(d1.dst, d2.dst);
            assert(d1.payload@ =~= d2.payload@);
        }
    }
    if let MsgIn::GoToDeadline(t1) = m1 {
        if let MsgIn::GoToDeadline(t2) = m2 {
            lemma_u64_le_injective(t1.secs, t2.secs);
            lemma_u64_le_injective((t1.nanos / 1000) as u64, (t2.nanos / 1000) as u64);
        }
    }
}

/// Distinct 64-bit values have distinct little-endian encodings.
pub proof fn lemma_u64_le_injective(a: u64, b: u64)
    ensures
        u64_le(a) == u64_le(b) ==> a == b,
{
    if u64_le(a) == u64_le(b) {
        assert(a == a % 256 + ((a / 256) % 256) * 256 + ((a / 65536) % 256) * 65536 + ((a
            / 16777216) % 256) * 16777216 + ((a / 4294967296) % 256) * 4294967296 + ((a
            / 1099511627776) % 256) * 1099511627776 + ((a / 281474976710656) % 256)
            * 281474976710656 + ((a / 72057594037927936) % 256) * 72057594037927936)
            by (bit_vector);
        assert(b == b % 256 + ((b / 256) % 256) * 256 + ((b / 65536) % 256) * 65536 + ((b
            / 16777216) % 256) * 16777216 + ((b / 4294967296) % 256) * 4294967296 + ((b
            / 1099511627776) % 256) * 1099511627776 + ((b / 281474976710656) % 256)
            * 281474976710656 + ((b / 72057594037927936) % 256) * 72057594037927936)
            by (bit_vector);
        assert(u64_le(a)[0] == u64_le(b)[0] && u64_le(a)[1] == u64_le(b)[1] && u64_le(a)[2]
            == u64_le(b)[2] && u64_le(a)[3] == u64_le(b)[3] && u64_le(a)[4] == u64_le(b)[4]
            && u64_le(a)[5] == u64_le(b)[5] && u64_le(a)[6] == u64_le(b)[6] && u64_le(a)[7]
            == u64_le(b)[7]);
    }
}

} // verus!

//! Ethernet frame inspection and address rewriting for tap-backed guests.
//!
//! Works on raw Ethernet II frames: reads the EtherType and the IPv4
//! addresses, derives a deterministic MAC address from an IPv4 address,
//! rewrites both MAC addresses of a frame, and crafts the answer to an
//! ARP request. Addresses travel in network byte order; a four-byte
//! address field is turned into the host value whose little-endian bytes
//! are those four bytes, as a direct reinterpretation of memory does.
use vstd::prelude::*;

use crate::binser::{u32_from_le, u32_le};

verus! {

/// The protocol carried by an Ethernet II frame.
#[derive(Clone, Copy, Debug, PartialEq, Eq, Structural)]
#[non_exhaustive]
pub enum EtherType {
    Other,
    IPv4,
    ARP,
}

/// Reads the EtherType of an Ethernet II frame; a frame shorter than one
/// header is malformed.
pub fn get_ethertype(packet: &Vec<u8>) -> (r: Result<EtherType, &'static str>)
    ensures
        (r is Err) <==> packet@.len() < 14,
        packet@.len() >= 14 ==> r == Ok::<EtherType, &'static str>(
            if packet@[12] == 0x08 && packet@[13] == 0x00 {
                EtherType::IPv4
            } else if packet@[12] == 0x08 && packet@[13] == 0x06 {
                EtherType::ARP
            } else {
                EtherType::Other
            },
        ),
{
    if packet.len() < 14 {
        return Err("malformed packet");
    }
    if packet[12] == 0x08 && packet[13] == 0x00 {
        Ok(EtherType::IPv4)
    } else if packet[12] == 0x08 && packet[13] == 0x06 {
        Ok(EtherType::ARP)
    } else {
        Ok(EtherType::Other)
    }
}

/// Whether a frame is an IPv4 packet long enough to carry the fixed IPv4
/// header.
pub open spec fn spec_ipv4_frame_ok(packet: Seq<u8>) -> bool {
    packet.len() >= 34 && packet[12] == 0x08 && packet[13] == 0x00
}

/// Reads the source IPv4 address of an IPv4-over-Ethernet frame, in
/// network byte order.
pub fn get_source_ipv4(packet: &Vec<u8>) -> (r: Result<u32, &'static str>)
    ensures
        (r is Ok) <==> spec_ipv4_frame_ok(packet@),
        r matches Ok(a) ==> u32_le(a) == packet@.subrange(26, 30),
{
    if packet.len() < 14 {
        Err("malformed packet")
    } else if packet[12] != 0x08 || packet[13] != 0x00 {
        Err("Not an IPv4 packet or not an Ethernet II frame")
    } else if packet.len() < 34 {
        Err("IPv4 packet too small")
    } else {
        Ok(u32_from_le(packet, 26))
    }
}

/// Reads the destination IPv4 address, in network byte order.
pub fn get_destination_ipv4(packet: &Vec<u8>) -> (r: Result<u32, &'static str>)
    ensures
        (r is Ok) <==> spec_ipv4_frame_ok(packet@),
        r matches Ok(a) ==> u32_le(a) == packet@.subrange(30, 34),
{
    if packet.len() < 14 {
        Err("malformed packet")
    } else if packet[12] != 0x08 || packet[13] != 0x00 {
        Err("Not an IPv4 packet or not an Ethernet II frame")
    } else if packet.len() < 34 {
        Err("IPv4 packet too small")
    } else {
        Ok(u32_from_le(packet, 30))
    }
}

/// The deterministic locally administered MAC address derived from an
/// IPv4 address.
pub open spec fn spec_mac_from_ip(ipv4: u32) -> Seq<u8> {
    seq![0x02u8, 0x42u8] + u32_le(ipv4)
}

/// Derives the deterministic MAC address for an IPv4 address.
pub fn get_unique_mac_from_ip(ipv4: u32) -> (r: Vec<u8>)
    ensures
        r@ =~= spec_mac_from_ip(ipv4),
{
    let mut buf: Vec<u8> = Vec::new();
    buf.push(0x02);
    buf.push(0x42);
    crate::binser::u32_to_le(ipv4, &mut buf);
    buf
}

/// Rewrites the destination MAC for broadcast delivery; with
/// deterministic per-address MACs this is a no-op.
pub fn broadcast_dest_mac(packet: &mut Vec<u8>) -> (r: Result<(), &'static str>)
    ensures
        r is Ok,
        final(packet)@ == old(packet)@,
{
    Ok(())
}

/// What a frame's MAC addresses are rewritten to: the deterministic MACs
/// of its IPv4 destination and source.
pub open spec fn spec_determinized(packet: Seq<u8>) -> Seq<u8> {
    spec_mac_from_ip(le_u32_at(packet, 30)) + spec_mac_from_ip(le_u32_at(packet, 26))
        + packet.skip(12)
}

/// The value whose little-endian bytes stand at `pos`.
pub open spec fn le_u32_at(packet: Seq<u8>, pos: int) -> u32 {
    (packet[pos] + packet[pos + 1] * 256 + packet[pos + 2] * 65536 + packet[pos + 3]
        * 16777216) as u32
}

/// Replaces both MAC addresses of a valid IPv4 frame by the
/// deterministic MACs of its destination and source addresses; any
/// other frame is refused untouched.
pub fn determinize_macs(packet: &mut Vec<u8>) -> (r: Result<(), &'static str>)
    ensures
        (r is Ok) <==> (spec_ipv4_frame_ok(old(packet)@) && old(packet)@[14] / 16 == 4),
        r is Ok ==> final(packet)@ == spec_determinized(old(packet)@),
        r is Err ==> final(packet)@ == old(packet)@,
{
    let ethertype = match get_ethertype(packet) {
        Ok(e) => e,
        Err(_) => {
            return Err("This function expects a valid IPv4 packet");
        },
    };
    if !matches!(ethertype, EtherType::IPv4) || packet.len() < 34 || packet[14] / 16 != 4 {
        return Err("This function expects a valid IPv4 packet");
    }
    let destination: u32 = match get_destination_ipv4(packet) {
        Ok(a) => a,
        Err(_) => {
            return Err("This function expects a valid IPv4 packet");
        },
    };
    let source: u32 = match get_source_ipv4(packet) {
        Ok(a) => a,
        Err(_) => {
            return Err("This function expects a valid IPv4 packet");
        },
    };
    let dst_mac: Vec<u8> = get_unique_mac_from_ip(destination);
    let src_mac: Vec<u8> = get_unique_mac_from_ip(source);
    let mut i: usize = 0;
    while i < 6
        invariant
            i <= 6,
            packet@.len() == old(packet)@.len(),
            old(packet)@.len() >= 34,
            dst_mac@.len() == 6,
            forall|j: int| 0 <= j < i ==> packet@[j] == dst_mac@[j],
            forall|j: int| i <= j < old(packet)@.len() ==> packet@[j] == old(packet)@[j],
        decreases 6 - i,
    {
        packet[i] = dst_mac[i];
        i = i + 1;
    }
    let mut k: usize = 0;
    while k < 6
        invariant
            k <= 6,
            packet@.len() == old(packet)@.len(),
            old(packet)@.len() >= 34,
            src_mac@.len() == 6,
            dst_mac@.len() == 6,
            forall|j: int| 0 <= j < 6 ==> packet@[j] == dst_mac@[j],
            forall|j: int| 0 <= j < k ==> packet@[6 + j] == src_mac@[j],
            forall|j: int| 6 + k <= j < old(packet)@.len() ==> packet@[j] == old(packet)@[j],
        decreases 6 - k,
    {
        packet[6 + k] = src_mac[k];
        k = k + 1;
    }
    proof {
        lemma_u32_le_at(old(packet)@, 30, destination);
        lemma_u32_le_at(old(packet)@, 26, source);
        assert(packet@ =~= spec_determinized(old(packet)@));
    }
    Ok(())
}

/// A value whose little-endian bytes stand at `pos` is the
/// recombination of those bytes.
proof fn lemma_u32_le_at(packet: Seq<u8>, pos: int, v: u32)
    requires
        0 <= pos,
        pos + 4 <= packet.len(),
        u32_le(v) == packet.subrange(pos, pos + 4),
    ensures
        v == le_u32_at(packet, pos),
{
    crate::binser::lemma_u32_le_bijective(
        packet[pos],
        packet[pos + 1],
        packet[pos + 2],
        packet[pos + 3],
    );
    crate::wire::lemma_u32_le_injective(v, le_u32_at(packet, pos));
}

/// Whether a 42-byte frame is an ARP request this crate can answer:
/// Ethernet ARP, hardware type Ethernet, protocol IPv4, standard
/// lengths, operation "request".
pub open spec fn spec_arp_request_ok(p: Seq<u8>) -> bool {
    &&& p.len() == 42
    &&& p[12] == 0x08 && p[13] == 0x06
    &&& p[14] == 0x00 && p[15] == 0x01
    &&& p[16] == 0x08 && p[17] == 0x00
    &&& p[18] == 6 && p[19] == 4
    &&& p[20] == 0x00 && p[21] == 0x01
}

/// The ARP reply to a request: addressed to the sender, from the
/// deterministic MAC of the requested address, answering with that MAC.
pub open spec fn spec_arp_response(p: Seq<u8>) -> Seq<u8> {
    let target_mac = spec_mac_from_ip(le_u32_at(p, 38));
    p.subrange(22, 28)  // destination: the requester's hardware address
     + target_mac  // source: the answering MAC
     + seq![0x08u8, 0x06u8]  // EtherType: ARP
     + seq![0x00u8, 0x01u8]  // hardware type
     + seq![0x08u8, 0x00u8]  // protocol type
     + seq![6u8, 4u8]  // hardware and protocol lengths
     + seq![0x00u8, 0x02u8]  // operation: reply
     + target_mac  // sender hardware address
     + p.subrange(38, 42)  // sender protocol address: the requested one
     + p.subrange(22, 28)  // target hardware address
     + p.subrange(28, 32)  // target protocol address
}

/// Crafts the reply to an ARP request, standing in for the absent peer:
/// succeeds exactly on answerable requests and returns the 42-byte
/// reply frame.
pub fn spoof_arp_response(packet: &Vec<u8>) -> (r: Result<Vec<u8>, &'static str>)
    ensures
        (r is Ok) <==> spec_arp_request_ok(packet@),
        r matches Ok(resp) ==> resp@ == spec_arp_response(packet@),
{
    if packet.len() != 42 {
        return Err("Unsupported ARP packet length");
    }
    if packet[12] != 0x08 || packet[13] != 0x06 {
        return Err("Not actually an ARP packet");
    }
    if packet[14] != 0x00 || packet[15] != 0x01 || packet[16] != 0x08 || packet[17] != 0x00
        || packet[18] != 6 || packet[19] != 4 {
        return Err("Unsupported ARP packet type");
    }
    if packet[20] != 0x00 || packet[21] != 0x01 {
        return Err("Not an ARP request");
    }
    let target_proto_cast: u32 = u32_from_le(packet, 38);
    let target_mac: Vec<u8> = get_unique_mac_from_ip(target_proto_cast);

    let mut response: Vec<u8> = Vec::new();
    extend_from_range(&mut response, packet, 22, 28);
    response.extend_from_slice(target_mac.as_slice());
    response.push(0x08);
    response.push(0x06);
    response.push(0x00);
    response.push(0x01);
    response.push(0x08);
    response.push(0x00);
    response.push(6);
    response.push(4);
    response.push(0x00);
    response.push(0x02);
    response.extend_from_slice(target_mac.as_slice());
    extend_from_range(&mut response, packet, 38, 42);
    extend_from_range(&mut response, packet, 22, 28);
    extend_from_range(&mut response, packet, 28, 32);
    proof {
        lemma_u32_le_at(packet@, 38, target_proto_cast);
        assert(response@ =~= spec_arp_response(packet@));
    }
    Ok(response)
}

/// Appends `src[from..to]` to `out`.
fn extend_from_range(out: &mut Vec<u8>, src: &Vec<u8>, from: usize, to: usize)
    requires
        from <= to <= src@.len(),
    ensures
        final(out)@ =~= old(out)@ + src@.subrange(from as int, to as int),
{
    let mut i: usize = from;
    while i < to
        invariant
            from <= i <= to <= src@.len(),
            out@ =~= old(out)@ + src@.subrange(from as int, i as int),
        decreases to - i,
    {
        out.push(src[i]);
        i = i + 1;
    }
}

} // verus!

//! Clock virtualization, duration arithmetic, sequence lock and
//! Ethernet helper tests.
use tansiv_client::docker::{
    get_cgroup_freeze_path, get_offset_shm_path, get_tap_interface_name, u32_to_decimal,
};
use tansiv_client::seq_lock::SeqLock;
use tansiv_client::tap_packet::{
    broadcast_dest_mac, determinize_macs, get_destination_ipv4, get_ethertype, get_source_ipv4,
    get_unique_mac_from_ip, spoof_arp_response, EtherType,
};
use tansiv_client::time::Dur;
use tansiv_client::timer::TimerContext;

#[test]
fn dur_arithmetic_exact() {
    let a = Dur::new(1, 999_999_999);
    let b = Dur::new(0, 2);
    let sum = a.add(b);
    assert_eq!(sum.as_secs(), 2);
    assert_eq!(sum.subsec_nanos(), 1);
    let diff = sum.sub(b);
    assert_eq!(diff.as_secs(), 1);
    assert_eq!(diff.subsec_nanos(), 999_999_999);
    assert!(b.lt(&a));
    assert!(b.le(&a));
    assert!(!a.le(&b));
    assert!(Dur::zero().is_zero());
    assert_eq!(Dur::from_micros(1500).subsec_nanos(), 1_500_000);
    assert_eq!(Dur::from_micros(1500).as_secs(), 0);
    assert_eq!(Dur::from_nanos(2_000_000_001).as_secs(), 2);
    assert_eq!(b.saturating_sub(a).as_secs(), 0);
    assert!(b.saturating_sub(a).is_zero());
    assert!(a.checked_add(b).is_some());
    assert!(Dur::new(u64::MAX, 999_999_999).checked_add(b).is_none());
}

#[test]
fn seq_lock_read_write() {
    let mut lock: SeqLock<i128> = SeqLock::new(7);
    assert_eq!(lock.read(), 7);
    assert_eq!(lock.seq_count, 0);
    lock.write(-3);
    assert_eq!(lock.read(), -3);
    // the counter passed through an odd value and is even again
    assert_eq!(lock.seq_count % 2, 0);
    assert!(lock.seq_count > 0);
}

#[test]
fn timer_slice_bookkeeping() {
    let mut timer = TimerContext::new(Dur::zero());
    assert!(timer.stopped);
    assert!(timer.at_deadline);
    let (arm, offset) = timer.start(Dur::from_micros(100), Dur::zero(), Dur::zero());
    assert_eq!(offset.as_secs(), 0);
    assert_eq!(arm.subsec_micros(), 100);
    assert!(!timer.stopped);
    assert!(!timer.at_deadline);
    assert_eq!(timer.simulation_next_deadline().subsec_micros(), 100);
    // the slice stays ordered as it advances
    let freeze = timer.freeze_time(Dur::from_micros(100), Dur::from_micros(100));
    assert_eq!(timer.simulation_previous_deadline().subsec_micros(), 0);
    let arm2 = timer.thaw_time_to_deadline(
        Some(freeze),
        Dur::from_micros(250),
        Dur::from_micros(100),
        Dur::from_micros(100),
    );
    assert_eq!(arm2.subsec_micros(), 250);
    assert_eq!(timer.simulation_next_deadline().subsec_micros(), 250);
    assert!(timer.prev_deadline.subsec_micros() <= timer.next_deadline.subsec_micros());
    timer.stop();
    assert!(timer.stopped);
}

#[test]
fn timer_simulation_clock_follows_offset() {
    let mut timer = TimerContext::new(Dur::zero());
    // starting at raw clock 3 s puts simulation time zero there
    let (_, _) = timer.start(Dur::from_micros(100), Dur::new(3, 0), Dur::new(3, 0));
    let now = timer.simulation_now(Dur::new(3, 40_000));
    assert_eq!(now.as_secs(), 0);
    assert_eq!(now.subsec_micros(), 40);
}

#[test]
fn timer_overrun_check() {
    let mut timer = TimerContext::new(Dur::zero());
    let (_, _) = timer.start(Dur::from_micros(100), Dur::zero(), Dur::zero());
    // inside the slice: no overrun
    assert!(timer
        .check_deadline_overrun(Dur::from_micros(99), None)
        .is_none());
    assert!(timer
        .check_deadline_overrun(Dur::from_micros(100), None)
        .is_none());
    // past the slice: deferred with its own time
    assert_eq!(
        timer
            .check_deadline_overrun(Dur::from_micros(150), None)
            .expect("overrun")
            .subsec_micros(),
        150
    );
    // a later message already waiting raises the time
    assert_eq!(
        timer
            .check_deadline_overrun(Dur::from_micros(150), Some(Dur::from_micros(180)))
            .expect("overrun")
            .subsec_micros(),
        180
    );
    assert_eq!(
        timer
            .check_deadline_overrun(Dur::from_micros(150), Some(Dur::from_micros(120)))
            .expect("overrun")
            .subsec_micros(),
        150
    );
}

fn ipv4_frame(src: [u8; 4], dst: [u8; 4]) -> Vec<u8> {
    let mut frame = vec![0u8; 34];
    frame[12] = 0x08;
    frame[13] = 0x00;
    frame[14] = 0x45;
    for k in 0..4 {
        frame[26 + k] = src[k];
        frame[30 + k] = dst[k];
    }
    frame
}

#[test]
fn ethertype_detection() {
    assert!(matches!(
        get_ethertype(&ipv4_frame([10, 0, 0, 1], [10, 0, 1, 1])),
        Ok(EtherType::IPv4)
    ));
    let mut arp = vec![0u8; 42];
    arp[12] = 0x08;
    arp[13] = 0x06;
    assert!(matches!(get_ethertype(&arp), Ok(EtherType::ARP)));
    let mut other = vec![0u8; 14];
    other[12] = 0x86;
    other[13] = 0xDD;
    assert!(matches!(get_ethertype(&other), Ok(EtherType::Other)));
    assert!(get_ethertype(&vec![0u8; 13]).is_err());
}

#[test]
fn ipv4_address_extraction() {
    let frame = ipv4_frame([10, 0, 0, 1], [10, 0, 1, 1]);
    // network byte order: the first byte is the low byte of the value
    let src = get_source_ipv4(&frame).expect("IPv4 frame");
    let dst = get_destination_ipv4(&frame).expect("IPv4 frame");
    assert_eq!(src, u32::from_le_bytes([10, 0, 0, 1]));
    assert_eq!(dst, u32::from_le_bytes([10, 0, 1, 1]));
    assert!(get_source_ipv4(&vec![0u8; 20]).is_err());
}

#[test]
fn deterministic_mac_from_ip() {
    let ip = u32::from_le_bytes([10, 0, 0, 1]);
    assert_eq!(get_unique_mac_from_ip(ip), vec![0x02, 0x42, 10, 0, 0, 1]);
}

#[test]
fn determinize_macs_rewrites_both() {
    let mut frame = ipv4_frame([10, 0, 0, 1], [10, 0, 1, 1]);
    determinize_macs(&mut frame).expect("valid IPv4 frame");
    assert_eq!(&frame[0..6], &[0x02, 0x42, 10, 0, 1, 1]);
    assert_eq!(&frame[6..12], &[0x02, 0x42, 10, 0, 0, 1]);
    // the rest of the frame is untouched
    assert_eq!(frame[12], 0x08);
    assert_eq!(&frame[26..30], &[10, 0, 0, 1]);

    let mut not_ipv4 = vec![0u8; 34];
    assert!(determinize_macs(&mut not_ipv4).is_err());

    let mut broadcast = ipv4_frame([1, 2, 3, 4], [5, 6, 7, 8]);
    assert!(broadcast_dest_mac(&mut broadcast).is_ok());
}

#[test]
fn arp_response_spoofing() {
    // An ARP request: who has 10.0.1.1? tell 10.0.0.1
    let mut request = vec![0u8; 42];
    request[12] = 0x08;
    request[13] = 0x06;
    request[14] = 0x00;
    request[15] = 0x01;
    request[16] = 0x08;
    request[17] = 0x00;
    request[18] = 6;
    request[19] = 4;
    request[20] = 0x00;
    request[21] = 0x01;
    // sender hardware and protocol addresses
    for k in 0..6 {
        request[22 + k] = 0x10 + k as u8;
    }
    request[28..32].copy_from_slice(&[10, 0, 0, 1]);
    // target protocol address
    request[38..42].copy_from_slice(&[10, 0, 1, 1]);

    let response = spoof_arp_response(&request).expect("answerable request");
    assert_eq!(response.len(), 42);
    // addressed back to the sender
    assert_eq!(&response[0..6], &request[22..28]);
    // from the deterministic MAC of the requested address
    assert_eq!(&response[6..12], &[0x02, 0x42, 10, 0, 1, 1]);
    // an ARP reply
    assert_eq!(&response[12..14], &[0x08, 0x06]);
    assert_eq!(&response[20..22], &[0x00, 0x02]);
    // answering with that MAC and address
    assert_eq!(&response[22..28], &[0x02, 0x42, 10, 0, 1, 1]);
    assert_eq!(&response[28..32], &[10, 0, 1, 1]);
    assert_eq!(&response[32..38], &request[22..28]);
    assert_eq!(&response[38..42], &[10, 0, 0, 1]);

    // a reply is not a request
    let mut reply = request.clone();
    reply[21] = 0x02;
    assert!(spoof_arp_response(&reply).is_err());
    // wrong length
    assert!(spoof_arp_response(&vec![0u8; 41]).is_err());
}

#[test]
fn docker_paths_exact() {
    assert_eq!(u32_to_decimal(0), "0");
    assert_eq!(u32_to_decimal(7), "7");
    assert_eq!(u32_to_decimal(1500), "1500");
    assert_eq!(u32_to_decimal(u32::MAX), "4294967295");
    assert_eq!(get_offset_shm_path(3), "/dev/shm/tansiv-time-3");
    assert_eq!(get_tap_interface_name(12), "tapt12");
    assert_eq!(
        get_cgroup_freeze_path("deadbeef"),
        "/sys/fs/cgroup/unified/docker/deadbeef/cgroup.freeze"
    );
}

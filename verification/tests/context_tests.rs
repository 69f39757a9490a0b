//! End-to-end scenarios through the core state machine, with the byte
//! frames checked against the codec.
use tansiv_client::buffer_pool::Error as PoolError;
use tansiv_client::context::{AfterDeadline, Config, Context};
use tansiv_client::error::Error;
use tansiv_client::time::Dur;
use tansiv_client::wire::{
    decode_frame, msg_out_from_bytes, new_deliver_packet, MsgIn, MsgOut,
};
use tansiv_client::MAX_PACKET_SIZE;

// IPv4 addresses in network byte order: the first octet is the low byte.
fn local_vsg_address() -> u32 {
    u32::from_le_bytes([10, 0, 0, 1])
}

fn remote_vsg_address() -> u32 {
    u32::from_le_bytes([10, 0, 1, 1])
}

fn test_config() -> Config {
    Config::new(
        String::from("titi"),
        local_vsg_address(),
        10,
        100_000_000,
        24,
        Dur::zero(),
    )
    .expect("the options are valid")
}

fn started_context() -> Context {
    let mut context = Context::new(&test_config());
    let first = MsgIn::GoToDeadline(Dur::from_micros(100));
    context
        .start(&first, Dur::zero(), Dur::zero())
        .expect("start with a deadline succeeds");
    context
}

/// One simulated timer expiry: freeze, flush, read the given actor
/// messages, apply the outcome. Returns the emitted frames and the new
/// timer arm target, if any.
fn run_deadline(context: &mut Context, incoming: Vec<MsgIn>, now: Dur) -> (Vec<Vec<u8>>, Option<Dur>) {
    let freeze = context.timer_context.freeze_time(now, now);
    let frames = context.at_deadline_flush();
    let mut outcome: Option<AfterDeadline> = None;
    for msg in incoming {
        if let Some(after) = context.handle_actor_msg(msg) {
            outcome = Some(after);
            break;
        }
    }
    let after = outcome.expect("the actor terminates every slice");
    let arm = context.apply_after_deadline(&after, freeze, now);
    (frames, arm)
}

#[test]
fn config_rejects_zero_values() {
    assert!(Config::new(String::from("titi"), 0, 0, 1, 0, Dur::zero()).is_none());
    assert!(Config::new(String::from("titi"), 0, 1, 0, 0, Dur::zero()).is_none());
    assert!(Config::new(String::from("titi"), 0, 1, 1, 0, Dur::zero()).is_some());
}

#[test]
fn start_stop() {
    // The actor opens with a 100 microsecond slice, then ends the
    // simulation; the start offset is the configured time origin.
    let mut context = Context::new(&test_config());
    let first = MsgIn::GoToDeadline(Dur::from_micros(100));
    let (arm, deadline, offset) = context
        .start(&first, Dur::zero(), Dur::zero())
        .expect("start with a deadline succeeds");
    assert_eq!(offset.as_secs(), 0);
    assert_eq!(offset.subsec_nanos(), 0);
    assert_eq!(deadline.subsec_micros(), 100);
    assert_eq!(arm.subsec_micros(), 100);

    let now = Dur::from_micros(100);
    let (frames, rearm) = run_deadline(&mut context, vec![MsgIn::EndSimulation], now);
    // Nothing was sent: the only frame is the deadline acknowledgement.
    assert_eq!(frames.len(), 1);
    let (body, _) = decode_frame(&frames[0], 0, MAX_PACKET_SIZE).expect("valid frame");
    assert!(matches!(msg_out_from_bytes(&body), Ok(MsgOut::AtDeadline)));
    assert!(rearm.is_none());
    assert!(context.timer_context.stopped);
    context.stop();
}

#[test]
fn start_already() {
    let mut context = started_context();
    let again = MsgIn::GoToDeadline(Dur::from_micros(200));
    match context.start(&again, Dur::zero(), Dur::zero()) {
        Err(Error::AlreadyStarted) => (),
        _ => panic!("a second start must fail"),
    }
    context.stop();
}

#[test]
fn protocol_violation_on_start() {
    // The actor's first message is a packet delivery: start fails, the
    // context can still be stopped cleanly.
    let mut context = Context::new(&test_config());
    let first = new_deliver_packet(local_vsg_address(), remote_vsg_address(), b"oops".to_vec())
        .expect("within bounds");
    match context.start(&first, Dur::zero(), Dur::zero()) {
        Err(Error::ProtocolViolation) => (),
        _ => panic!("expected a protocol violation"),
    }
    context.stop();
    assert!(context.timer_context.stopped);
}

#[test]
fn send() {
    // One packet sent during the first slice is emitted at the deadline
    // and decodes back to the original addresses and payload.
    let mut context = started_context();
    let now = Dur::from_micros(50);
    context
        .send(remote_vsg_address(), &b"Foo msg".to_vec(), now)
        .expect("send succeeds");

    let deadline_now = Dur::from_micros(100);
    let (frames, _) = run_deadline(&mut context, vec![MsgIn::EndSimulation], deadline_now);
    assert_eq!(frames.len(), 2);
    let (body, _) = decode_frame(&frames[0], 0, MAX_PACKET_SIZE + 32).expect("valid frame");
    match msg_out_from_bytes(&body) {
        Ok(MsgOut::SendPacket(t, src, dst, payload)) => {
            assert_eq!(src, local_vsg_address());
            assert_eq!(dst, remote_vsg_address());
            assert_eq!(payload.as_slice(), b"Foo msg");
            // the send time lies inside the slice
            assert!(t.as_secs() == 0 && t.subsec_micros() < 100);
        }
        _ => panic!("expected the sent packet"),
    }
    let (ack, _) = decode_frame(&frames[1], 0, MAX_PACKET_SIZE).expect("valid frame");
    assert!(matches!(msg_out_from_bytes(&ack), Ok(MsgOut::AtDeadline)));
}

#[test]
fn send_empty_payload() {
    // An empty payload is allowed and yields a zero-length payload frame.
    let mut context = started_context();
    context
        .send(remote_vsg_address(), &Vec::new(), Dur::from_micros(10))
        .expect("empty payload is allowed");
    let (frames, _) = run_deadline(
        &mut context,
        vec![MsgIn::EndSimulation],
        Dur::from_micros(100),
    );
    assert_eq!(frames.len(), 2);
    let (body, _) = decode_frame(&frames[0], 0, MAX_PACKET_SIZE).expect("valid frame");
    match msg_out_from_bytes(&body) {
        Ok(MsgOut::SendPacket(_, _, _, payload)) => assert_eq!(payload.len(), 0),
        _ => panic!("expected the empty packet"),
    }
}

#[test]
fn send_max_packet_size_boundary() {
    // Exactly the maximum size succeeds; one byte more is refused and
    // emits nothing, and a later small send still succeeds.
    let mut context = started_context();
    context
        .send(
            remote_vsg_address(),
            &vec![0u8; MAX_PACKET_SIZE],
            Dur::from_micros(10),
        )
        .expect("the maximum payload is allowed");
    match context.send(
        remote_vsg_address(),
        &vec![0u8; MAX_PACKET_SIZE + 1],
        Dur::from_micros(20),
    ) {
        Err(Error::SizeTooBig) => (),
        _ => panic!("an oversized payload must be refused"),
    }
    context
        .send(remote_vsg_address(), &b"Foo msg".to_vec(), Dur::from_micros(90))
        .expect("a small payload still goes through");
    // The refused send still counts for pacing, so the later packet is
    // paced past the first deadline and goes out in the second slice;
    // the oversized payload itself leaves no frame anywhere.
    let (frames, _) = run_deadline(
        &mut context,
        vec![MsgIn::GoToDeadline(Dur::from_micros(400))],
        Dur::from_micros(100),
    );
    assert_eq!(frames.len(), 2);
    let (body, _) = decode_frame(&frames[0], 0, MAX_PACKET_SIZE + 32).expect("valid frame");
    match msg_out_from_bytes(&body) {
        Ok(MsgOut::SendPacket(_, _, _, payload)) => assert_eq!(payload.len(), MAX_PACKET_SIZE),
        _ => panic!("expected the full-size packet"),
    }
    let (frames2, _) = run_deadline(
        &mut context,
        vec![MsgIn::EndSimulation],
        Dur::from_micros(400),
    );
    assert_eq!(frames2.len(), 2);
    let (body2, _) = decode_frame(&frames2[0], 0, MAX_PACKET_SIZE).expect("valid frame");
    match msg_out_from_bytes(&body2) {
        Ok(MsgOut::SendPacket(_, _, _, payload)) => assert_eq!(payload.as_slice(), b"Foo msg"),
        _ => panic!("expected the paced packet"),
    }
}

#[test]
fn send_too_big() {
    let mut context = started_context();
    match context.send(
        remote_vsg_address(),
        &vec![0u8; MAX_PACKET_SIZE + 1],
        Dur::from_micros(10),
    ) {
        Err(Error::SizeTooBig) => (),
        _ => panic!("an oversized payload must be refused"),
    }
    // Terminate gracefully.
    context
        .send(remote_vsg_address(), &b"Foo msg".to_vec(), Dur::from_micros(20))
        .expect("send failed");
    context.stop();
}

#[test]
fn send_pool_exhaustion() {
    // With 10 slots, the eleventh pending send is refused.
    let mut context = started_context();
    for k in 0..10u64 {
        context
            .send(remote_vsg_address(), &vec![1u8], Dur::from_micros(10 + k))
            .expect("a slot is free");
    }
    match context.send(remote_vsg_address(), &vec![1u8], Dur::from_micros(90)) {
        Err(Error::NoMemoryAvailable) => (),
        _ => panic!("expected exhaustion"),
    }
}

#[test]
fn uplink_pacing_records_floor() {
    // Consecutive sends keep at least the transmission time of the
    // previous packet between their recorded times:
    // (1000 + 24) bytes * 8 / 100 Mbit/s = 81920 ns.
    let mut context = started_context();
    let now = Dur::from_micros(50);
    context
        .send(remote_vsg_address(), &vec![0u8; 1000], now)
        .expect("send succeeds");
    let t1 = context.last_send.1;
    assert_eq!(t1.subsec_nanos(), 50_000);
    context
        .send(remote_vsg_address(), &vec![0u8; 1000], now)
        .expect("send succeeds");
    let t2 = context.last_send.1;
    assert_eq!(t2.subsec_nanos(), 50_000 + 81_920);
    assert_eq!(context.last_send.2, 1);
}

#[test]
fn recv() {
    // The actor delivers one packet; recv returns it once.
    let mut context = started_context();
    let delivered = new_deliver_packet(
        local_vsg_address(),
        remote_vsg_address(),
        b"Foo msg".to_vec(),
    )
    .expect("within bounds");
    let now = Dur::from_micros(100);
    assert!(context.poll().is_none());
    let (_, _) = run_deadline(
        &mut context,
        vec![delivered, MsgIn::EndSimulation],
        now,
    );
    assert!(context.poll().is_some());

    let mut buffer = vec![0u8; 7];
    let (src, dst, len) = context.recv(&mut buffer).expect("one packet queued");
    assert_eq!(src, local_vsg_address());
    assert_eq!(dst, remote_vsg_address());
    assert_eq!(len, 7);
    assert_eq!(&buffer[..len], b"Foo msg");
    // at most one recv returns it
    assert!(matches!(
        context.recv(&mut buffer),
        Err(Error::NoMessageAvailable)
    ));
    context.stop();
}

#[test]
fn recv_too_big() {
    let mut context = started_context();
    let delivered = new_deliver_packet(
        local_vsg_address(),
        remote_vsg_address(),
        b"Foo msg".to_vec(),
    )
    .expect("within bounds");
    let (_, _) = run_deadline(
        &mut context,
        vec![delivered, MsgIn::EndSimulation],
        Dur::from_micros(100),
    );
    let orig: &[u8] = b"fOO~MS";
    let mut buffer = orig.to_vec();
    match context.recv(&mut buffer) {
        Err(Error::SizeTooBig) => (),
        _ => panic!("a short buffer must be refused"),
    }
    assert_eq!(buffer.as_slice(), orig);
    context.stop();
}

#[test]
fn surplus_packets_are_dropped() {
    // With a queue of 2 slots, a third delivery is dropped silently.
    let mut context = Context::new(
        &Config::new(
            String::from("titi"),
            local_vsg_address(),
            2,
            100_000_000,
            24,
            Dur::zero(),
        )
        .expect("the options are valid"),
    );
    context
        .start(
            &MsgIn::GoToDeadline(Dur::from_micros(100)),
            Dur::zero(),
            Dur::zero(),
        )
        .expect("start succeeds");
    let mut deliveries: Vec<MsgIn> = Vec::new();
    for k in 0..3u8 {
        deliveries.push(
            new_deliver_packet(local_vsg_address(), remote_vsg_address(), vec![k])
                .expect("within bounds"),
        );
    }
    deliveries.push(MsgIn::EndSimulation);
    let (_, _) = run_deadline(&mut context, deliveries, Dur::from_micros(100));
    let mut buffer = vec![0u8; 4];
    assert!(context.recv(&mut buffer).is_ok());
    assert!(context.recv(&mut buffer).is_ok());
    assert!(matches!(
        context.recv(&mut buffer),
        Err(Error::NoMessageAvailable)
    ));
}

#[test]
fn recv_delayed() {
    // The actor runs several empty slices before delivering: the
    // deadline advances each time and the delivery arrives in the last
    // slice.
    let mut context = started_context();
    let cycles: u64 = 10;
    for k in 1..cycles {
        let now = Dur::from_micros(100 * k);
        let next = MsgIn::GoToDeadline(Dur::from_micros(100 * (k + 1)));
        let (frames, rearm) = run_deadline(&mut context, vec![next], now);
        assert_eq!(frames.len(), 1);
        assert!(rearm.is_some());
        assert_eq!(
            context.timer_context.next_deadline.subsec_micros() as u64,
            100 * (k + 1)
        );
        assert!(context.poll().is_none());
    }
    let delivered = new_deliver_packet(
        local_vsg_address(),
        remote_vsg_address(),
        b"Foo msg".to_vec(),
    )
    .expect("within bounds");
    let (_, _) = run_deadline(
        &mut context,
        vec![delivered, MsgIn::EndSimulation],
        Dur::from_micros(100 * cycles),
    );
    let mut buffer = vec![0u8; 7];
    let (_, _, len) = context.recv(&mut buffer).expect("delivered in time");
    assert_eq!(&buffer[..len], b"Foo msg");
    // the packet could not be observed before the last slice began
    assert!(
        context.timer_context.prev_deadline.subsec_micros() as u64 >= 100 * (cycles - 1)
    );
}

#[test]
fn no_deadline_after_stop() {
    // Once stopped, the handler outcome neither rearms nor calls back.
    let mut context = started_context();
    context.stop();
    let after = AfterDeadline::NextDeadline(Dur::from_micros(200));
    let rearm = context.apply_after_deadline(&after, Dur::from_micros(100), Dur::from_micros(100));
    assert!(rearm.is_none());
    assert!(context.timer_context.stopped);
}

#[test]
fn deadline_regression_ends_simulation() {
    let mut context = started_context();
    let after = AfterDeadline::NextDeadline(Dur::from_micros(50));
    let rearm = context.apply_after_deadline(&after, Dur::from_micros(100), Dur::from_micros(100));
    assert!(rearm.is_none());
    assert!(context.timer_context.stopped);
}

#[test]
fn overrun_send_is_deferred_to_its_slice() {
    // A packet timestamped past the slice's end is not emitted at this
    // deadline; it goes out in the slice that covers its timestamp.
    let mut context = started_context();
    context
        .send(remote_vsg_address(), &b"late".to_vec(), Dur::from_micros(150))
        .expect("send succeeds");
    let next = MsgIn::GoToDeadline(Dur::from_micros(200));
    let (frames, _) = run_deadline(&mut context, vec![next], Dur::from_micros(100));
    // only the acknowledgement: the packet waits for the next slice
    assert_eq!(frames.len(), 1);
    let (frames2, _) = run_deadline(
        &mut context,
        vec![MsgIn::EndSimulation],
        Dur::from_micros(200),
    );
    assert_eq!(frames2.len(), 2);
    let (body, _) = decode_frame(&frames2[0], 0, MAX_PACKET_SIZE).expect("valid frame");
    match msg_out_from_bytes(&body) {
        Ok(MsgOut::SendPacket(t, _, _, payload)) => {
            assert_eq!(payload.as_slice(), b"late");
            assert_eq!(t.subsec_micros(), 150);
        }
        _ => panic!("expected the deferred packet"),
    }
}

#[test]
fn early_send_is_clamped_to_slice_start() {
    // A packet timestamped before the previous deadline is clamped to it.
    let mut context = started_context();
    let next = MsgIn::GoToDeadline(Dur::from_micros(200));
    let (_, _) = run_deadline(&mut context, vec![next], Dur::from_micros(100));
    // now the slice is [100, 200); timestamp 30 is before its start
    context
        .send(remote_vsg_address(), &b"early".to_vec(), Dur::from_micros(30))
        .expect("send succeeds");
    let (frames, _) = run_deadline(
        &mut context,
        vec![MsgIn::EndSimulation],
        Dur::from_micros(200),
    );
    let (body, _) = decode_frame(&frames[0], 0, MAX_PACKET_SIZE).expect("valid frame");
    match msg_out_from_bytes(&body) {
        Ok(MsgOut::SendPacket(t, _, _, _)) => assert_eq!(t.subsec_micros(), 100),
        _ => panic!("expected the clamped packet"),
    }
}

#[test]
fn gettimeofday_h1() {
    // With a one-hour origin the application clock shows one hour at
    // simulation start.
    let offset = Dur::new(3600, 0);
    let mut context = Context::new(
        &Config::new(
            String::from("titi"),
            local_vsg_address(),
            10,
            100_000_000,
            24,
            offset,
        )
        .expect("the options are valid"),
    );
    let (_, _, reported) = context
        .start(
            &MsgIn::GoToDeadline(Dur::from_micros(100)),
            Dur::zero(),
            Dur::zero(),
        )
        .expect("start succeeds");
    assert_eq!(reported.as_secs(), 3600);
    // after starting at local time zero, the adjusted clock shows the
    // origin plus the local time
    let tv = context.gettimeofday(Dur::from_micros(10));
    assert_eq!(tv.as_secs(), 3600);
    assert_eq!(tv.subsec_micros(), 10);
}

#[test]
fn poll() {
    // poll reports a packet exactly when one is queued.
    let mut context = started_context();
    assert!(context.poll().is_none());
    let delivered = new_deliver_packet(
        local_vsg_address(),
        remote_vsg_address(),
        b"Foo msg".to_vec(),
    )
    .expect("within bounds");
    let (_, _) = run_deadline(
        &mut context,
        vec![delivered, MsgIn::EndSimulation],
        Dur::from_micros(100),
    );
    assert!(context.poll().is_some());
    let mut buffer = vec![0u8; 7];
    context.recv(&mut buffer).expect("one packet queued");
    assert!(context.poll().is_none());
    context.stop();
}

#[test]
fn gettimeofday() {
    // With a zero origin the application clock follows the local clock.
    let mut context = started_context();
    let tv = context.gettimeofday(Dur::from_micros(25));
    assert!(tv.as_secs() < 10);
    assert_eq!(tv.subsec_micros(), 25);
    context
        .send(remote_vsg_address(), &b"This is the end".to_vec(), Dur::from_micros(30))
        .expect("send succeeds");
    context.stop();
}

#[test]
fn message_loop() {
    // Feeding actor messages one by one: deliveries keep the slice open,
    // a deadline or the end of the simulation terminates it.
    let mut context = started_context();
    let delivered = new_deliver_packet(local_vsg_address(), remote_vsg_address(), vec![1, 2, 3])
        .expect("within bounds");
    assert!(context.handle_actor_msg(delivered).is_none());
    match context.handle_actor_msg(MsgIn::GoToDeadline(Dur::from_micros(300))) {
        Some(AfterDeadline::NextDeadline(d)) => assert_eq!(d.subsec_micros(), 300),
        _ => panic!("a deadline terminates the slice"),
    }
    match context.handle_actor_msg(MsgIn::EndSimulation) {
        Some(AfterDeadline::EndSimulation) => (),
        _ => panic!("the end of the simulation terminates the slice"),
    }
}

#[test]
fn error_conversions() {
    let e: Error = Error::from(PoolError::SizeTooBig);
    assert!(matches!(e, Error::SizeTooBig));
    let e2: Error = Error::from(PoolError::NoBufferAvailable);
    assert!(matches!(e2, Error::NoMemoryAvailable));
    let io = std::io::Error::new(std::io::ErrorKind::BrokenPipe, "gone");
    let e3: Error = Error::from(io);
    assert!(matches!(e3, Error::IoError(_)));
}

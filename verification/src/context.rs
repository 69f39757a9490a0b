//! The deadline-driven core tying clock, queues and codec together.
//!
//! A `Context` owns the state that the public operations — `start`,
//! `stop`, `send`, `recv`, `poll`, `gettimeofday` — and the deadline
//! handler work on. The surrounding program performs the socket reads and
//! writes, the clock reads and the timer arming; it hands decoded
//! messages and clock readings in, and carries framed bytes and timer
//! targets out. Every decision in between is made here.
use vstd::prelude::*;

use crate::buffer_pool::{self, BufferPool};
use crate::error::Error;
use crate::output_msg_set::{self, OutputMsg, OutputMsgSet};
use crate::time::Dur;
use crate::timer::TimerContext;
use crate::waitfree_array_queue::{self, WaitfreeArrayQueue};
use crate::wire::{DeliverPacket, MsgIn, SendPacketBuilder};
use crate::MAX_PACKET_SIZE;

verus! {

/// The validated options the core consumes.
#[derive(Debug)]
pub struct Config {
    /// Path of the UNIX socket the surrounding program connects to the
    /// actor on; carried, not interpreted.
    pub actor_socket: String,
    /// Local IPv4 address in network byte order, set as source on
    /// outgoing packets.
    pub address: u32,
    /// Slots in the inbound queue, the output pool and the output set.
    pub num_buffers: usize,
    /// Uplink rate in bits per second; drives pacing.
    pub uplink_bandwidth: usize,
    /// Bytes charged per packet on top of the payload for pacing.
    pub uplink_overhead: usize,
    /// The application's wall-clock epoch at simulation time zero.
    pub time_offset: Dur,
}

impl Config {
    /// Validity of the options: non-zero buffer count and bandwidth, and
    /// a buffer count small enough for the pool arithmetic.
    pub open spec fn wf(self) -> bool {
        &&& self.num_buffers > 0
        &&& self.num_buffers <= usize::MAX / MAX_PACKET_SIZE
        &&& self.uplink_bandwidth > 0
        &&& self.time_offset.wf()
    }

    /// Accepts exactly the valid option combinations.
    pub fn new(
        actor_socket: String,
        address: u32,
        num_buffers: usize,
        uplink_bandwidth: usize,
        uplink_overhead: usize,
        time_offset: Dur,
    ) -> (r: Option<Config>)
        requires
            time_offset.wf(),
        ensures
            match r {
                Some(c) => c.wf() && c.address == address && c.num_buffers == num_buffers
                    && c.uplink_bandwidth == uplink_bandwidth && c.uplink_overhead
                    == uplink_overhead && c.time_offset == time_offset,
                None => num_buffers == 0 || num_buffers > usize::MAX / MAX_PACKET_SIZE
                    || uplink_bandwidth == 0,
            },
    {
        if num_buffers == 0 || num_buffers > usize::MAX / MAX_PACKET_SIZE || uplink_bandwidth == 0 {
            None
        } else {
            Some(
                Config {
                    actor_socket,
                    address,
                    num_buffers,
                    uplink_bandwidth,
                    uplink_overhead,
                    time_offset,
                },
            )
        }
    }
}

/// What the deadline handler reports when its slice ends.
#[derive(Debug)]
pub enum AfterDeadline {
    NextDeadline(Dur),
    EndSimulation,
}

/// Transmission time of `size` payload bytes plus the per-packet
/// overhead at `bandwidth` bits per second, in nanoseconds: the uplink
/// pacing floor between consecutive sends.
pub open spec fn spec_pacing_ns(size: usize, overhead: usize, bandwidth: usize) -> int
    recommends
        bandwidth > 0,
{
    ((size + overhead) * 8 * 1_000_000_000) / (bandwidth as int)
}

/// All messages whose payload buffers are currently leased: those waiting
/// in the output set and those deferred to a later slice.
pub open spec fn spec_held_msgs(c: Context) -> Seq<OutputMsg> {
    c.outgoing_messages.spec_msgs() + c.upcoming_messages@
}

/// Every message's lease is live and its send time canonical.
pub open spec fn msgs_valid(pool: BufferPool, msgs: Seq<OutputMsg>) -> bool {
    forall|i: int|
        0 <= i < msgs.len() ==> (#[trigger] msgs[i]).send_time.wf() && pool.valid_buffer(
            msgs[i].payload,
        )
}

/// No two messages lease the same pool slot.
pub open spec fn msgs_distinct(msgs: Seq<OutputMsg>) -> bool {
    forall|i: int, j: int|
        0 <= i < j < msgs.len() ==> (#[trigger] msgs[i]).payload.index != (
        #[trigger] msgs[j]).payload.index
}

/// The core state machine.
#[derive(Debug)]
pub struct Context {
    /// Local IPv4 address in network byte order.
    pub address: u32,
    /// Uplink rate in bits per second; never zero.
    pub uplink_bandwidth: usize,
    /// Pacing overhead in bytes per packet.
    pub uplink_overhead: usize,
    /// Packets delivered by the actor, awaiting `recv`.
    pub input_queue: WaitfreeArrayQueue,
    /// Clock virtualization state.
    pub timer_context: TimerContext,
    /// Size, recorded send time and delay count of the last send.
    pub last_send: (usize, Dur, usize),
    /// Pool backing the payloads of outgoing packets.
    pub output_buffer_pool: BufferPool,
    /// Outgoing packets produced during the current slice.
    pub outgoing_messages: OutputMsgSet,
    /// Packets timestamped past the slice, waiting for a later one;
    /// sorted by send time, all of them timestamped after the start of
    /// the current slice.
    pub upcoming_messages: Vec<OutputMsg>,
    /// One-shot start guard.
    pub started: bool,
}

impl Context {
    pub open spec fn wf(self) -> bool {
        &&& self.uplink_bandwidth > 0
        &&& self.last_send.1.wf()
        &&& self.timer_context.wf()
        &&& self.output_buffer_pool.wf()
        &&& self.output_buffer_pool.spec_buffer_size() == MAX_PACKET_SIZE
        &&& self.outgoing_messages.wf()
        &&& msgs_valid(self.output_buffer_pool, spec_held_msgs(self))
        &&& msgs_distinct(spec_held_msgs(self))
        &&& sorted_by_send_time(self.upcoming_messages@)
        &&& forall|i: int|
            0 <= i < self.upcoming_messages@.len() ==> (
            #[trigger] self.upcoming_messages@[i]).send_time.spec_ns()
                >= self.timer_context.prev_deadline.spec_ns()
    }

    /// Builds the core state from a validated configuration.
    pub fn new(config: &Config) -> (r: Context)
        requires
            config.wf(),
        ensures
            r.wf(),
            r.address == config.address,
            r.uplink_bandwidth == config.uplink_bandwidth,
            r.uplink_overhead == config.uplink_overhead,
            r.input_queue.spec_contents() == Seq::<DeliverPacket>::empty(),
            r.input_queue.spec_capacity() == config.num_buffers,
            r.timer_context.time_offset == config.time_offset,
            r.timer_context.stopped,
            r.timer_context.prev_deadline.spec_ns() == 0,
            r.timer_context.next_deadline.spec_ns() == 0,
            r.last_send.0 == 0 && r.last_send.1.spec_ns() == 0 && r.last_send.2 == 0,
            r.outgoing_messages.spec_msgs() == Seq::<OutputMsg>::empty(),
            r.upcoming_messages@ == Seq::<OutputMsg>::empty(),
            !r.started,
    {
        proof {
            assert(MAX_PACKET_SIZE * config.num_buffers <= usize::MAX) by (nonlinear_arith)
                requires
                    config.num_buffers <= usize::MAX / MAX_PACKET_SIZE,
                    MAX_PACKET_SIZE == 2048usize,
            ;
        }
        let r = Context {
            address: config.address,
            uplink_bandwidth: config.uplink_bandwidth,
            uplink_overhead: config.uplink_overhead,
            input_queue: WaitfreeArrayQueue::new(config.num_buffers),
            timer_context: TimerContext::new(config.time_offset),
            last_send: (0, Dur::zero(), 0),
            output_buffer_pool: BufferPool::new(MAX_PACKET_SIZE, config.num_buffers),
            outgoing_messages: OutputMsgSet::new(config.num_buffers),
            upcoming_messages: Vec::new(),
            started: false,
        };
        r
    }

    /// Handles the first message from the actor.
    ///
    /// Exactly one `start` consumes it: a second call fails with
    /// `AlreadyStarted` whatever the first one returned. A first message
    /// other than the next deadline is a `ProtocolViolation`; the context
    /// can still be stopped cleanly afterwards. On the expected deadline
    /// message the timer state is armed and the call returns the raw
    /// instant to program the back-end timer at, the deadline to report
    /// to the deadline callback, and the configured time origin, which is
    /// the context's offset from simulation time zero.
    pub fn start(&mut self, first_msg: &MsgIn, now: Dur, local_now: Dur) -> (r: Result<
        (Dur, Dur, Dur),
        Error,
    >)
        requires
            old(self).wf(),
            now.wf(),
            local_now.wf(),
            !old(self).started ==> old(self).upcoming_messages@.len() == 0,
            crate::wire::msg_in_wf(*first_msg),
            first_msg matches MsgIn::GoToDeadline(d) ==> old(self).timer_context.next_deadline.spec_ns() <= d.spec_ns() && now.spec_ns() + d.spec_ns()
                - old(self).timer_context.next_deadline.spec_ns() <= Dur::max_value().spec_ns(),
        ensures
            final(self).wf(),
            old(self).started ==> r is Err && r == Err::<(Dur, Dur, Dur), Error>(
                Error::AlreadyStarted,
            ) && *final(self) == *old(self),
            !old(self).started ==> final(self).started && match *first_msg {
                MsgIn::GoToDeadline(d) => r matches Ok((arm, deadline, offset)) && deadline == d
                    && offset == old(self).timer_context.time_offset && arm.spec_ns()
                    == now.spec_ns() + d.spec_ns() - old(self).timer_context.next_deadline.spec_ns() && !final(self).timer_context.stopped
                    && final(self).timer_context.next_deadline == d
                    // only the start guard and the timer state change
                    && *final(self) == (Context {
                    started: true,
                    timer_context: final(self).timer_context,
                    ..*old(self)
                })
                    // the timer is armed: thawed with the offsets initialized
                    && !final(self).timer_context.at_deadline && final(self).timer_context.prev_deadline == old(self).timer_context.next_deadline && final(self).timer_context.time_offset == old(self).timer_context.time_offset && final(self).timer_context.current_deadline == old(self).timer_context.current_deadline
                    && final(self).timer_context.simulation_time.spec_offset() == -now.spec_ns()
                    && final(self).timer_context.application_time.spec_offset() == old(self).timer_context.current_deadline.spec_ns() - local_now.spec_ns(),
                // on a protocol violation the timer is never armed: only
                // the one-shot start guard changes
                _ => r == Err::<(Dur, Dur, Dur), Error>(Error::ProtocolViolation) && *final(self)
                    == (Context { started: true, ..*old(self) }),
            },
    {
        if self.started {
            return Err(Error::AlreadyStarted);
        }
        self.started = true;
        match first_msg {
            MsgIn::GoToDeadline(d) => {
                let deadline: Dur = *d;
                let (arm, offset) = self.timer_context.start(deadline, now, local_now);
                Ok((arm, deadline, offset))
            },
            _ => Err(Error::ProtocolViolation),
        }
    }

    /// Disarms the timer.
    pub fn stop(&mut self)
        requires
            old(self).wf(),
        ensures
            final(self).wf(),
            final(self).timer_context.stopped,
            *final(self) == (Context {
                timer_context: final(self).timer_context,
                ..*old(self)
            }),
            final(self).timer_context == (TimerContext {
                stopped: true,
                ..old(self).timer_context
            }),
    {
        self.timer_context.stop()
    }

    /// Sorts a packet read from the actor during deadline handling.
    ///
    /// A delivered packet goes onto the inbound queue — when the queue is
    /// full the packet is dropped, never more than one `recv` can return
    /// it — and the slice goes on. The next deadline or the end of the
    /// simulation terminates the slice.
    pub fn handle_actor_msg(&mut self, msg: MsgIn) -> (r: Option<AfterDeadline>)
        requires
            old(self).wf(),
        ensures
            final(self).wf(),
            final(self).input_queue.spec_capacity() == old(self).input_queue.spec_capacity(),
            *final(self) == (Context { input_queue: final(self).input_queue, ..*old(self) }),
            match msg {
                MsgIn::DeliverPacket(d) => r is None && if old(self).input_queue.spec_contents().len()
                    < old(self).input_queue.spec_capacity() {
                    final(self).input_queue.spec_contents() == old(self).input_queue.spec_contents().push(d)
                } else {
                    final(self).input_queue.spec_contents() == old(self).input_queue.spec_contents()
                },
                MsgIn::GoToDeadline(d) => r matches Some(AfterDeadline::NextDeadline(t)) && t == d
                    && final(self).input_queue.spec_contents() == old(self).input_queue.spec_contents(),
                MsgIn::EndSimulation => r matches Some(AfterDeadline::EndSimulation) && final(self).input_queue.spec_contents() == old(self).input_queue.spec_contents(),
            },
    {
        match msg {
            MsgIn::DeliverPacket(d) => {
                match self.input_queue.push(d) {
                    Ok(()) => (),
                    Err(waitfree_array_queue::Error::NoSlotAvailable { item: _ }) => {
                        // Queue full: the surplus packet is dropped.
                    },
                }
                None
            },
            MsgIn::GoToDeadline(d) => Some(AfterDeadline::NextDeadline(d)),
            MsgIn::EndSimulation => Some(AfterDeadline::EndSimulation),
        }
    }

    /// Applies the outcome of a slice once the handler has read it.
    ///
    /// After `stop` nothing happens and no new deadline comes back, so no
    /// further deadline callback can fire. The end of the simulation
    /// disarms the timer the same way. A new deadline thaws local time
    /// and yields the raw instant to program the back-end timer at; a
    /// deadline that went backwards is a protocol violation and ends the
    /// simulation instead.
    pub fn apply_after_deadline(&mut self, after: &AfterDeadline, freeze_time: Dur, now: Dur) -> (r:
        Option<Dur>)
        requires
            old(self).wf(),
            freeze_time.wf(),
            now.wf(),
            freeze_time.spec_ns() <= now.spec_ns(),
            after matches AfterDeadline::NextDeadline(d) ==> d.wf() && now.spec_ns() + d.spec_ns()
                - old(self).timer_context.next_deadline.spec_ns() <= Dur::max_value().spec_ns(),
            old(self).timer_context.application_time.spec_offset() - (now.spec_ns()
                - freeze_time.spec_ns()) >= i128::MIN,
            old(self).timer_context.simulation_time.spec_offset() - (now.spec_ns()
                - freeze_time.spec_ns()) >= i128::MIN,
            forall|i: int|
                0 <= i < old(self).upcoming_messages@.len() ==> (#[trigger] old(self).upcoming_messages@[i]).send_time.spec_ns() >= old(self).timer_context.next_deadline.spec_ns(),
        ensures
            final(self).wf(),
            old(self).timer_context.stopped ==> r is None && *final(self) == *old(self),
            !old(self).timer_context.stopped ==> match *after {
                AfterDeadline::NextDeadline(d) => if d.spec_ns() >= old(self).timer_context.next_deadline.spec_ns() {
                    r matches Some(arm) && arm.spec_ns() == now.spec_ns() + d.spec_ns() - old(self).timer_context.next_deadline.spec_ns() && final(self).timer_context.next_deadline == d && final(self).timer_context.prev_deadline
                        == old(self).timer_context.next_deadline && !final(self).timer_context.stopped && !final(self).timer_context.at_deadline
                } else {
                    r is None && final(self).timer_context.stopped
                },
                AfterDeadline::EndSimulation => r is None && final(self).timer_context.stopped,
            },
    {
        if self.timer_context.stopped {
            return None;
        }
        match after {
            AfterDeadline::NextDeadline(d) => {
                let deadline: Dur = *d;
                if deadline.lt(&self.timer_context.next_deadline) {
                    // The actor moved time backwards: give up cleanly.
                    self.timer_context.stop();
                    None
                } else {
                    let arm: Dur = self.timer_context.thaw_time_to_deadline(
                        Some(freeze_time),
                        deadline,
                        now,
                        now,
                    );
                    Some(arm)
                }
            },
            AfterDeadline::EndSimulation => {
                self.timer_context.stop();
                None
            },
        }
    }

    /// Whether a packet is waiting for `recv`.
    pub fn poll(&self) -> (r: Option<()>)
        ensures
            r is Some <==> self.input_queue.spec_contents().len() > 0,
    {
        if self.input_queue.is_empty() {
            None
        } else {
            Some(())
        }
    }

    /// The wall-clock time the application should observe.
    pub fn gettimeofday(&self, local_now: Dur) -> (r: Dur)
        requires
            self.wf(),
            local_now.wf(),
            !self.timer_context.at_deadline ==> 0 <= local_now.spec_ns()
                + self.timer_context.application_time.spec_offset() <= Dur::max_value().spec_ns(),
        ensures
            r.wf(),
            self.timer_context.at_deadline ==> r == self.timer_context.current_deadline,
            !self.timer_context.at_deadline ==> r.spec_ns() == local_now.spec_ns()
                + self.timer_context.application_time.spec_offset(),
    {
        self.timer_context.application_now(local_now)
    }

    /// Takes the next delivered packet.
    ///
    /// Fails with `NoMessageAvailable` exactly when the queue is empty.
    /// Otherwise the head is removed; when the caller's buffer is shorter
    /// than its payload the packet is discarded with `SizeTooBig` and the
    /// buffer untouched, else the payload fills the buffer's prefix and
    /// the source, destination and payload length come back.
    pub fn recv(&mut self, msg: &mut Vec<u8>) -> (r: Result<(u32, u32, usize), Error>)
        requires
            old(self).wf(),
        ensures
            final(self).wf(),
            *final(self) == (Context { input_queue: final(self).input_queue, ..*old(self) }),
            old(self).input_queue.spec_contents().len() == 0 ==> (r matches Err(
                Error::NoMessageAvailable,
            )) && final(self).input_queue.spec_contents() == old(self).input_queue.spec_contents()
                && final(msg)@ == old(msg)@,
            old(self).input_queue.spec_contents().len() > 0 ==> final(self).input_queue.spec_contents() == old(self).input_queue.spec_contents().subrange(
                1,
                old(self).input_queue.spec_contents().len() as int,
            ) && ({
                let head = old(self).input_queue.spec_contents()[0];
                if old(msg)@.len() >= head.payload@.len() {
                    r matches Ok((src, dst, len)) && src == head.src && dst == head.dst && len
                        == head.payload@.len() && final(msg)@ == head.payload@ + old(
                        msg,
                    )@.subrange(head.payload@.len() as int, old(msg)@.len() as int)
                } else {
                    r matches Err(Error::SizeTooBig) && final(msg)@ == old(msg)@
                }
            }),
    {
        match self.input_queue.pop() {
            Some(msg_in) => {
                let payload: &Vec<u8> = msg_in.payload();
                let len: usize = payload.len();
                if msg.len() >= len {
                    let mut i: usize = 0;
                    while i < len
                        invariant
                            i <= len,
                            len == payload@.len(),
                            msg@.len() == old(msg)@.len(),
                            len <= old(msg)@.len(),
                            forall|j: int| 0 <= j < i ==> msg@[j] == payload@[j],
                            forall|j: int| i <= j < old(msg)@.len() ==> msg@[j] == old(msg)@[j],
                        decreases len - i,
                    {
                        msg[i] = payload[i];
                        i = i + 1;
                    }
                    proof {
                        assert(msg@ =~= msg_in.payload@ + old(msg)@.subrange(
                            msg_in.payload@.len() as int,
                            old(msg)@.len() as int,
                        ));
                    }
                    Ok((msg_in.src(), msg_in.dst(), len))
                } else {
                    Err(Error::SizeTooBig)
                }
            },
            None => Err(Error::NoMessageAvailable),
        }
    }
}

/// What a waiting message will put on the wire: its send time, source,
/// destination, and the payload bytes its lease covers in the pool.
pub open spec fn msg_view(pool: BufferPool, m: OutputMsg) -> (Dur, u32, u32, Seq<u8>) {
    (m.send_time, m.src, m.dst, pool.buffer_view(m.payload))
}

/// Inserting a message on a fresh pool slot into the held messages keeps
/// every lease live and all leases distinct.
proof fn lemma_msgs_wf_insert(
    held_old: Seq<OutputMsg>,
    k: int,
    m: OutputMsg,
    held_new: Seq<OutputMsg>,
    pool_old: BufferPool,
    pool_new: BufferPool,
)
    requires
        0 <= k <= held_old.len(),
        held_new == held_old.subrange(0, k) + seq![m] + held_old.subrange(
            k,
            held_old.len() as int,
        ),
        msgs_valid(pool_old, held_old),
        msgs_distinct(held_old),
        pool_new.valid_buffer(m.payload),
        m.send_time.wf(),
        forall|i: int|
            0 <= i < held_old.len() ==> (#[trigger] held_old[i]).payload.index
                != m.payload.index,
        forall|b: crate::buffer_pool::Buffer|
            pool_old.valid_buffer(b) && b.index != m.payload.index ==> pool_new.valid_buffer(b),
    ensures
        msgs_valid(pool_new, held_new),
        msgs_distinct(held_new),
{
    assert forall|i: int| 0 <= i < held_new.len() implies (
    #[trigger] held_new[i]).send_time.wf() && pool_new.valid_buffer(held_new[i].payload) by {
        if i < k {
            assert(held_new[i] == held_old[i]);
        } else if i == k {
            assert(held_new[i] == m);
        } else {
            assert(held_new[i] == held_old[i - 1]);
        }
    }
    assert forall|i: int, j: int| 0 <= i < j < held_new.len() implies (
    #[trigger] held_new[i]).payload.index != (#[trigger] held_new[j]).payload.index by {
        let oi: int = if i < k {
            i
        } else {
            i - 1
        };
        let oj: int = if j < k {
            j
        } else {
            j - 1
        };
        if i != k && j != k {
            assert(held_new[i] == held_old[oi] && held_new[j] == held_old[oj]);
        } else if i == k {
            assert(held_new[i] == m && held_new[j] == held_old[oj]);
        } else {
            assert(held_new[j] == m && held_new[i] == held_old[oi]);
        }
    }
}

impl Context {
    /// The earliest instant at which the next packet may be timestamped:
    /// the last recorded send time plus the transmission time of the
    /// last packet at the configured uplink rate.
    pub open spec fn spec_next_send_floor(self) -> int {
        self.last_send.1.spec_ns() + spec_pacing_ns(
            self.last_send.0,
            self.uplink_overhead,
            self.uplink_bandwidth,
        )
    }

    /// Computes the pacing floor.
    fn next_send_floor(&self) -> (r: Dur)
        requires
            self.wf(),
            self.spec_next_send_floor() <= Dur::max_value().spec_ns(),
        ensures
            r.wf(),
            r.spec_ns() == self.spec_next_send_floor(),
    {
        let sum: u128 = self.last_send.0 as u128 + self.uplink_overhead as u128;
        proof {
            assert(sum * 8_000_000_000u128 < u128::MAX) by (nonlinear_arith)
                requires
                    sum <= 0x2_0000_0000_0000_0000u128,
            ;
        }
        let delta: u128 = (sum * 8_000_000_000) / (self.uplink_bandwidth as u128);
        proof {
            assert(delta <= sum * 8_000_000_000u128) by (nonlinear_arith)
                requires
                    delta == (sum * 8_000_000_000u128) as int / (self.uplink_bandwidth as u128)
                        as int,
                    self.uplink_bandwidth >= 1,
            ;
            assert(delta as int == spec_pacing_ns(
                self.last_send.0,
                self.uplink_overhead,
                self.uplink_bandwidth,
            ));
            crate::time::lemma_max_value_ns();
        }
        let floor: i128 = self.last_send.1.as_nanos_i128() + delta as i128;
        Dur::from_signed_nanos(floor)
    }

    /// Queues a payload for transmission to `dst` at the current
    /// simulation time `now`.
    ///
    /// Uplink pacing first: the recorded send time is `now`, or the
    /// pacing floor when `now` comes too early — then the packet counts
    /// as delayed — and the (size, time, delays) record is updated even
    /// when the send fails afterwards. A payload above
    /// [`MAX_PACKET_SIZE`] is refused with `SizeTooBig`; an exhausted
    /// pool or output set with `NoMemoryAvailable`; otherwise exactly one
    /// new message joins the output set, carrying this payload, the
    /// recorded send time, the context's address as source and `dst` as
    /// destination. The messages already waiting are untouched.
    pub fn send(&mut self, dst: u32, msg: &Vec<u8>, now: Dur) -> (r: Result<(), Error>)
        requires
            old(self).wf(),
            now.wf(),
            old(self).spec_next_send_floor() <= Dur::max_value().spec_ns(),
            old(self).last_send.2 < usize::MAX,
        ensures
            final(self).wf(),
            final(self).address == old(self).address,
            final(self).uplink_bandwidth == old(self).uplink_bandwidth,
            final(self).uplink_overhead == old(self).uplink_overhead,
            final(self).input_queue == old(self).input_queue,
            final(self).timer_context == old(self).timer_context,
            final(self).upcoming_messages@ == old(self).upcoming_messages@,
            final(self).started == old(self).started,
            final(self).output_buffer_pool.spec_num_buffers() == old(self).output_buffer_pool.spec_num_buffers(),
            final(self).outgoing_messages.spec_num_slots() == old(self).outgoing_messages.spec_num_slots(),
            // the pacing record is updated on every call, even a failed one
            final(self).last_send.0 == msg@.len(),
            final(self).last_send.1.wf(),
            final(self).last_send.1.spec_ns() == if now.spec_ns() >= old(self).spec_next_send_floor() {
                now.spec_ns()
            } else {
                old(self).spec_next_send_floor()
            },
            final(self).last_send.1.spec_ns() >= old(self).spec_next_send_floor(),
            final(self).last_send.2 == if now.spec_ns() >= old(self).spec_next_send_floor() {
                old(self).last_send.2 as int
            } else {
                old(self).last_send.2 + 1
            },
            // failures, exactly
            (r == Err::<(), Error>(Error::SizeTooBig)) <==> msg@.len() > MAX_PACKET_SIZE,
            r == Err::<(), Error>(Error::NoMemoryAvailable) ==> (forall|i: int|
                0 <= i < old(self).output_buffer_pool.spec_num_buffers() ==> old(self).output_buffer_pool.inner.buffer_busy@[i]) || (forall|i: int|
                0 <= i < old(self).outgoing_messages.spec_num_slots() ==> old(self).outgoing_messages.slot_busy@[i]),
            msg@.len() <= MAX_PACKET_SIZE && (forall|i: int|
                0 <= i < old(self).output_buffer_pool.spec_num_buffers() ==> old(self).output_buffer_pool.inner.buffer_busy@[i]) ==> r == Err::<(), Error>(
                Error::NoMemoryAvailable,
            ),
            // success is owed when the payload fits and both a pool slot
            // and an output slot are free
            msg@.len() <= MAX_PACKET_SIZE && !(forall|i: int|
                0 <= i < old(self).output_buffer_pool.spec_num_buffers() ==> old(self).output_buffer_pool.inner.buffer_busy@[i]) && !(forall|i: int|
                0 <= i < old(self).outgoing_messages.spec_num_slots() ==> old(self).outgoing_messages.slot_busy@[i]) ==> r is Ok,
            // on failure nothing is queued and the pool ends unchanged
            r is Err ==> final(self).outgoing_messages.spec_msgs() == old(self).outgoing_messages.spec_msgs() && final(self).output_buffer_pool.inner.buffer_busy@
                == old(self).output_buffer_pool.inner.buffer_busy@,
            // on success exactly one new message, with this payload
            r is Ok ==> msg@.len() <= MAX_PACKET_SIZE && (exists|k: int|
                0 <= k <= old(self).outgoing_messages.spec_msgs().len() && final(self).outgoing_messages.spec_msgs() =~= old(self).outgoing_messages.spec_msgs(
                ).subrange(0, k) + seq![
                    (SendPacketBuilder {
                        src: old(self).address,
                        dst: dst,
                        send_time: final(self).last_send.1,
                        payload: final(self).outgoing_messages.spec_msgs()[k].payload,
                    }),
                ] + old(self).outgoing_messages.spec_msgs().subrange(
                    k,
                    old(self).outgoing_messages.spec_msgs().len() as int,
                ) && final(self).output_buffer_pool.buffer_view(
                    final(self).outgoing_messages.spec_msgs()[k].payload,
                ) == msg@),
            // the messages already waiting keep their wire views
            forall|i: int|
                0 <= i < spec_held_msgs(*old(self)).len() ==> msg_view(
                    final(self).output_buffer_pool,
                    #[trigger] spec_held_msgs(*old(self))[i],
                ) == msg_view(old(self).output_buffer_pool, spec_held_msgs(*old(self))[i]),
    {
        let floor: Dur = self.next_send_floor();
        let mut delayed: usize = self.last_send.2;
        let send_time: Dur;
        if now.lt(&floor) {
            send_time = floor;
            delayed = delayed + 1;
        } else {
            send_time = now;
        }
        self.last_send = (msg.len(), send_time, delayed);

        let buffer = match self.output_buffer_pool.allocate_buffer(msg.len()) {
            Ok(b) => b,
            Err(buffer_pool::Error::SizeTooBig) => {
                return Err(Error::SizeTooBig);
            },
            Err(buffer_pool::Error::NoBufferAvailable) => {
                return Err(Error::NoMemoryAvailable);
            },
        };
        let ghost pool_before_copy = self.output_buffer_pool;
        self.output_buffer_pool.buffer_copy_from_slice(&buffer, msg);
        proof {
            lemma_views_preserved_outside(
                pool_before_copy,
                self.output_buffer_pool,
                spec_held_msgs(*old(self)),
                buffer.index,
            );
            assert(msgs_valid(self.output_buffer_pool, spec_held_msgs(*old(self)))) by {
                assert forall|i: int| 0 <= i < spec_held_msgs(*old(self)).len() implies (
                #[trigger] spec_held_msgs(*old(self))[i]).send_time.wf()
                    && self.output_buffer_pool.valid_buffer(
                    spec_held_msgs(*old(self))[i].payload,
                ) by {
                    assert(old(self).output_buffer_pool.valid_buffer(
                        spec_held_msgs(*old(self))[i].payload,
                    ));
                }
            }
        }
        let builder = SendPacketBuilder::new(self.address, dst, send_time, buffer);
        let ghost held_before = spec_held_msgs(*old(self));
        let ghost pool_now = self.output_buffer_pool;
        match self.outgoing_messages.insert(builder) {
            Ok(()) => {
                proof {
                    let i = choose|i: int|
                        0 <= i < old(self).outgoing_messages.spec_num_slots() && !old(self).outgoing_messages.slot_busy@[i] && self.outgoing_messages.slots@ == old(self).outgoing_messages.slots@.update(i, Some(builder))
                            && self.outgoing_messages.slot_busy@ == old(self).outgoing_messages.slot_busy@.update(i, true);
                    output_msg_set::lemma_slot_msgs_update_some(
                        old(self).outgoing_messages.slots@,
                        i,
                        builder,
                    );
                    let k = output_msg_set::spec_slot_msgs(
                        old(self).outgoing_messages.slots@.take(i),
                    ).len() as int;
                    assert(old(self).outgoing_messages.spec_msgs().subrange(0, k)
                        =~= output_msg_set::spec_slot_msgs(
                        old(self).outgoing_messages.slots@.take(i),
                    ));
                    assert(old(self).outgoing_messages.spec_msgs().subrange(
                        k,
                        old(self).outgoing_messages.spec_msgs().len() as int,
                    ) =~= output_msg_set::spec_slot_msgs(
                        old(self).outgoing_messages.slots@.skip(i + 1),
                    ));
                    assert(self.outgoing_messages.spec_msgs() =~= old(self).outgoing_messages.spec_msgs().subrange(0, k) + seq![builder] + old(self).outgoing_messages.spec_msgs().subrange(
                        k,
                        old(self).outgoing_messages.spec_msgs().len() as int,
                    ));
                    assert(spec_held_msgs(*self) =~= held_before.subrange(0, k) + seq![builder]
                        + held_before.subrange(k, held_before.len() as int)) by {
                        assert(held_before.subrange(k, held_before.len() as int) =~= old(self).outgoing_messages.spec_msgs().subrange(
                            k,
                            old(self).outgoing_messages.spec_msgs().len() as int,
                        ) + old(self).upcoming_messages@);
                    }
                    lemma_msgs_wf_insert(
                        held_before,
                        k,
                        builder,
                        spec_held_msgs(*self),
                        old(self).output_buffer_pool,
                        self.output_buffer_pool,
                    );
                    assert(self.outgoing_messages.spec_msgs()[k] == builder);
                }
                Ok(())
            },
            Err(output_msg_set::Error::NoSlotAvailable { msg: returned }) => {
                let ghost pool_full = self.output_buffer_pool;
                self.output_buffer_pool.free_buffer(returned.payload);
                proof {
                    assert(self.output_buffer_pool.inner.buffer_busy@ =~= old(self).output_buffer_pool.inner.buffer_busy@);
                    lemma_views_preserved_outside(
                        pool_now,
                        self.output_buffer_pool,
                        held_before,
                        returned.payload.index,
                    );
                    assert(msgs_valid(self.output_buffer_pool, spec_held_msgs(*self))) by {
                        assert forall|i: int| 0 <= i < spec_held_msgs(*self).len() implies (
                        #[trigger] spec_held_msgs(*self)[i]).send_time.wf()
                            && self.output_buffer_pool.valid_buffer(
                            spec_held_msgs(*self)[i].payload,
                        ) by {
                            assert(spec_held_msgs(*self)[i] == held_before[i]);
                            assert(old(self).output_buffer_pool.valid_buffer(
                                held_before[i].payload,
                            ));
                        }
                    }
                }
                Err(Error::NoMemoryAvailable)
            },
        }
    }
}

/// Changing one slot's bytes or busy flag leaves every message leased on
/// another slot with the same wire view, because leases on different
/// slots cover disjoint byte ranges.
proof fn lemma_views_preserved_outside(
    pool_old: BufferPool,
    pool_new: BufferPool,
    msgs: Seq<OutputMsg>,
    touched: usize,
)
    requires
        pool_old.wf(),
        pool_new.wf(),
        pool_new.spec_buffer_size() == pool_old.spec_buffer_size(),
        pool_new.spec_num_buffers() == pool_old.spec_num_buffers(),
        pool_new.inner.buffers@.len() == pool_old.inner.buffers@.len(),
        msgs_valid(pool_old, msgs),
        forall|i: int|
            0 <= i < msgs.len() ==> (#[trigger] msgs[i]).payload.index != touched,
        touched < pool_old.spec_num_buffers(),
        pool_old.inner.buffer_busy@[touched as int],
        forall|i: int|
            0 <= i < pool_new.inner.buffers@.len() && !(touched * pool_old.spec_buffer_size() <= i
                < touched * pool_old.spec_buffer_size() + pool_old.spec_buffer_size())
                ==> pool_new.inner.buffers@[i] == pool_old.inner.buffers@[i],
    ensures
        forall|i: int|
            0 <= i < msgs.len() ==> pool_new.buffer_view((#[trigger] msgs[i]).payload)
                == pool_old.buffer_view(msgs[i].payload),
{
    assert forall|i: int| 0 <= i < msgs.len() implies pool_new.buffer_view((
    #[trigger] msgs[i]).payload) == pool_old.buffer_view(msgs[i].payload) by {
        let b = msgs[i].payload;
        crate::buffer_pool::lemma_buffers_disjoint(
            pool_old,
            b,
            (crate::buffer_pool::Buffer {
                index: touched,
                inner: (crate::bytes_buffer::BytesBuffer {
                    size: pool_old.spec_buffer_size(),
                }),
            }),
        );
        crate::bytes_buffer::lemma_slot_range_in_arena(
            pool_old.spec_buffer_size() as int,
            pool_old.spec_num_buffers() as int,
            b.index as int,
            b.inner.size as int,
        );
        crate::bytes_buffer::lemma_slot_range_in_arena(
            pool_old.spec_buffer_size() as int,
            pool_old.spec_num_buffers() as int,
            touched as int,
            pool_old.spec_buffer_size() as int,
        );
        assert(pool_new.buffer_view(b) =~= pool_old.buffer_view(b));
    }
}

/// The wire views of a run of waiting messages.
pub open spec fn msgs_views(pool: BufferPool, msgs: Seq<OutputMsg>) -> Seq<(Dur, u32, u32, Seq<u8>)> {
    Seq::new(msgs.len(), |i: int| msg_view(pool, msgs[i]))
}

/// The disposition of the messages drained at a deadline, processed in
/// drain order with the current slice `[prev, next]` and the already
/// deferred messages `pending`:
/// - a message timestamped past the slice's end is deferred, its time
///   raised to the last deferred one's when that is later, so deferred
///   times never regress;
/// - a message timestamped before the slice's start — produced late in
///   the previous slice — is clamped to `prev`;
/// - every other message is emitted with its own timestamp.
/// The result is the emitted views, in order, and the deferred views.
pub open spec fn spec_flush_steps(
    views: Seq<(Dur, u32, u32, Seq<u8>)>,
    prev: Dur,
    next: Dur,
    pending: Seq<(Dur, u32, u32, Seq<u8>)>,
) -> (Seq<(Dur, u32, u32, Seq<u8>)>, Seq<(Dur, u32, u32, Seq<u8>)>)
    decreases views.len(),
{
    if views.len() == 0 {
        (Seq::empty(), pending)
    } else {
        let m = views[0];
        if m.0.spec_ns() > next.spec_ns() {
            let fixed = if pending.len() > 0 && pending.last().0.spec_ns() > m.0.spec_ns() {
                pending.last().0
            } else {
                m.0
            };
            spec_flush_steps(views.skip(1), prev, next, pending.push((fixed, m.1, m.2, m.3)))
        } else {
            let t = if m.0.spec_ns() < prev.spec_ns() {
                prev
            } else {
                m.0
            };
            let rec = spec_flush_steps(views.skip(1), prev, next, pending);
            (seq![(t, m.1, m.2, m.3)] + rec.0, rec.1)
        }
    }
}

/// How many deferred messages the slice ending at `next` releases: the
/// longest prefix timestamped at or before `next`.
pub open spec fn spec_due_count(pending: Seq<(Dur, u32, u32, Seq<u8>)>, next: Dur) -> nat
    decreases pending.len(),
{
    if pending.len() == 0 {
        0
    } else if pending[0].0.spec_ns() <= next.spec_ns() {
        (1 + spec_due_count(pending.skip(1), next)) as nat
    } else {
        0
    }
}

/// Exactly-once emission law: when none of the drained messages overran
/// the slice, the flush emits exactly one entry per drained message, in
/// drain order, with the same source, destination and payload bytes —
/// only the send time may move, clamped up to the slice's start — and
/// defers nothing new. Together with `Context::send`, which queues
/// exactly one message holding the caller's payload, every successful
/// send leads to exactly one `SendPacket` frame carrying that payload.
pub proof fn lemma_flush_emits_all_in_slice(
    views: Seq<(Dur, u32, u32, Seq<u8>)>,
    prev: Dur,
    next: Dur,
    pending: Seq<(Dur, u32, u32, Seq<u8>)>,
)
    requires
        forall|k: int| 0 <= k < views.len() ==> (#[trigger] views[k]).0.spec_ns() <= next.spec_ns(),
    ensures
        spec_flush_steps(views, prev, next, pending).0.len() == views.len(),
        spec_flush_steps(views, prev, next, pending).1 == pending,
        forall|k: int|
            0 <= k < views.len() ==> {
                let emitted = #[trigger] spec_flush_steps(views, prev, next, pending).0[k];
                emitted.1 == views[k].1 && emitted.2 == views[k].2 && emitted.3 == views[k].3
                    && emitted.0.spec_ns() == if views[k].0.spec_ns() < prev.spec_ns() {
                    prev.spec_ns()
                } else {
                    views[k].0.spec_ns()
                }
            },
    decreases views.len(),
{
    if views.len() > 0 {
        let m = views[0];
        lemma_flush_emits_all_in_slice(views.skip(1), prev, next, pending);
        let t = if m.0.spec_ns() < prev.spec_ns() {
            prev
        } else {
            m.0
        };
        let rec = spec_flush_steps(views.skip(1), prev, next, pending);
        assert forall|k: int| 0 <= k < views.len() implies {
            let emitted = #[trigger] spec_flush_steps(views, prev, next, pending).0[k];
            emitted.1 == views[k].1 && emitted.2 == views[k].2 && emitted.3 == views[k].3
                && emitted.0.spec_ns() == if views[k].0.spec_ns() < prev.spec_ns() {
                prev.spec_ns()
            } else {
                views[k].0.spec_ns()
            }
        } by {
            if k == 0 {
                assert(spec_flush_steps(views, prev, next, pending).0[0] == (t, m.1, m.2, m.3));
            } else {
                assert(spec_flush_steps(views, prev, next, pending).0[k] == rec.0[k - 1]);
                assert(views[k] == views.skip(1)[k - 1]);
            }
        }
    }
}

/// Every message the flush emits carries a send time inside the slice:
/// at or after its start and at or before its end.
pub proof fn lemma_flush_times_in_slice(
    views: Seq<(Dur, u32, u32, Seq<u8>)>,
    prev: Dur,
    next: Dur,
    pending: Seq<(Dur, u32, u32, Seq<u8>)>,
)
    requires
        prev.spec_ns() <= next.spec_ns(),
    ensures
        forall|k: int|
            0 <= k < spec_flush_steps(views, prev, next, pending).0.len() ==> prev.spec_ns() <= (
            #[trigger] spec_flush_steps(views, prev, next, pending).0[k]).0.spec_ns()
                <= next.spec_ns(),
    decreases views.len(),
{
    if views.len() > 0 {
        let m = views[0];
        if m.0.spec_ns() > next.spec_ns() {
            let fixed = if pending.len() > 0 && pending.last().0.spec_ns() > m.0.spec_ns() {
                pending.last().0
            } else {
                m.0
            };
            lemma_flush_times_in_slice(
                views.skip(1),
                prev,
                next,
                pending.push((fixed, m.1, m.2, m.3)),
            );
            assert(spec_flush_steps(views, prev, next, pending).0 == spec_flush_steps(
                views.skip(1),
                prev,
                next,
                pending.push((fixed, m.1, m.2, m.3)),
            ).0);
        } else {
            lemma_flush_times_in_slice(views.skip(1), prev, next, pending);
            let t = if m.0.spec_ns() < prev.spec_ns() {
                prev
            } else {
                m.0
            };
            let rec = spec_flush_steps(views.skip(1), prev, next, pending);
            assert forall|k: int|
                0 <= k < spec_flush_steps(views, prev, next, pending).0.len() implies prev.spec_ns()
                <= (#[trigger] spec_flush_steps(views, prev, next, pending).0[k]).0.spec_ns()
                <= next.spec_ns() by {
                if k == 0 {
                    assert(spec_flush_steps(views, prev, next, pending).0[0] == (t, m.1, m.2, m.3));
                } else {
                    assert(spec_flush_steps(views, prev, next, pending).0[k] == rec.0[k - 1]);
                }
            }
        }
    }
}

impl Context {
    /// Flushes the slice that just ended: drains the output set, defers
    /// or emits each message, releases the deferred messages that the
    /// slice covers, and closes with the deadline acknowledgement.
    ///
    /// Returns the framed bytes to write to the actor, in order: one
    /// `SendPacket` frame per emitted message — drained ones first, then
    /// the deferred ones that came due — and one final `AtDeadline`
    /// frame. The emitted times are exactly those of
    /// [`spec_flush_steps`] and [`spec_due_count`]; the output set is
    /// empty afterwards and the messages still deferred are all
    /// timestamped past the slice.
    #[verifier::rlimit(80)]
    pub fn at_deadline_flush(&mut self) -> (frames: Vec<Vec<u8>>)
        requires
            old(self).wf(),
            old(self).timer_context.at_deadline,
        ensures
            final(self).wf(),
            final(self).address == old(self).address,
            final(self).uplink_bandwidth == old(self).uplink_bandwidth,
            final(self).uplink_overhead == old(self).uplink_overhead,
            final(self).input_queue == old(self).input_queue,
            final(self).timer_context == old(self).timer_context,
            final(self).last_send == old(self).last_send,
            final(self).started == old(self).started,
            final(self).output_buffer_pool.spec_buffer_size() == old(self).output_buffer_pool.spec_buffer_size(),
            final(self).output_buffer_pool.spec_num_buffers() == old(self).output_buffer_pool.spec_num_buffers(),
            final(self).output_buffer_pool.inner.buffers@ == old(self).output_buffer_pool.inner.buffers@,
            final(self).outgoing_messages.spec_msgs() == Seq::<OutputMsg>::empty(),
            final(self).outgoing_messages.spec_num_slots() == old(self).outgoing_messages.spec_num_slots(),
            ({
                let prev = old(self).timer_context.prev_deadline;
                let next = old(self).timer_context.next_deadline;
                let steps = spec_flush_steps(
                    msgs_views(
                        old(self).output_buffer_pool,
                        old(self).outgoing_messages.spec_msgs(),
                    ),
                    prev,
                    next,
                    msgs_views(old(self).output_buffer_pool, old(self).upcoming_messages@),
                );
                let emits = steps.0;
                let pending = steps.1;
                let due = spec_due_count(pending, next) as int;
                &&& frames@.len() == emits.len() + due + 1
                &&& (forall|k: int|
                    0 <= k < emits.len() ==> (#[trigger] frames@[k])@
                        == crate::wire::spec_frame(
                        crate::wire::spec_send_packet_body(
                            emits[k].0,
                            emits[k].1,
                            emits[k].2,
                            emits[k].3,
                        ),
                    ))
                &&& (forall|k: int|
                    0 <= k < due ==> (#[trigger] frames@[emits.len() + k])@
                        == crate::wire::spec_frame(
                        crate::wire::spec_send_packet_body(
                            pending[k].0,
                            pending[k].1,
                            pending[k].2,
                            pending[k].3,
                        ),
                    ))
                &&& frames@[frames@.len() - 1]@ == crate::wire::spec_frame(
                    crate::wire::spec_msg_out_body(crate::wire::MsgOut::AtDeadline),
                )
                &&& msgs_views(final(self).output_buffer_pool, final(self).upcoming_messages@)
                    == pending.skip(due)
                &&& (forall|i: int|
                    0 <= i < final(self).upcoming_messages@.len() ==> (#[trigger] final(self).upcoming_messages@[i]).send_time.spec_ns() > next.spec_ns())
            }),
    {
        let prev: Dur = self.timer_context.simulation_previous_deadline();
        let next: Dur = self.timer_context.simulation_next_deadline();
        let mut msgs: Vec<OutputMsg> = self.outgoing_messages.drain();
        let ghost pool0 = self.output_buffer_pool;
        let ghost views0 = msgs_views(pool0, msgs@);
        let ghost up0 = msgs_views(pool0, self.upcoming_messages@);
        let mut frames: Vec<Vec<u8>> = Vec::new();
        let ghost mut emits_acc: Seq<(Dur, u32, u32, Seq<u8>)> = Seq::empty();

        proof {
            assert(msgs_views(self.output_buffer_pool, msgs@) =~= views0);
        }
        while msgs.len() > 0
            invariant
                prev == old(self).timer_context.prev_deadline,
                next == old(self).timer_context.next_deadline,
                prev.wf(),
                next.wf(),
                prev.spec_ns() <= next.spec_ns(),
                self.timer_context == old(self).timer_context,
                self.timer_context.wf(),
                self.address == old(self).address,
                self.uplink_bandwidth == old(self).uplink_bandwidth,
                self.uplink_overhead == old(self).uplink_overhead,
                self.input_queue == old(self).input_queue,
                self.last_send == old(self).last_send,
                self.started == old(self).started,
                self.uplink_bandwidth > 0,
                self.last_send.1.wf(),
                self.output_buffer_pool.wf(),
                self.output_buffer_pool.spec_buffer_size() == MAX_PACKET_SIZE,
                self.output_buffer_pool.spec_buffer_size() == pool0.spec_buffer_size(),
                self.output_buffer_pool.spec_num_buffers() == pool0.spec_num_buffers(),
                self.output_buffer_pool.inner.buffers@ == pool0.inner.buffers@,
                pool0.spec_buffer_size() == old(self).output_buffer_pool.spec_buffer_size(),
                pool0.spec_num_buffers() == old(self).output_buffer_pool.spec_num_buffers(),
                pool0.inner.buffers@ == old(self).output_buffer_pool.inner.buffers@,
                self.outgoing_messages.wf(),
                self.outgoing_messages.spec_msgs() == Seq::<OutputMsg>::empty(),
                self.outgoing_messages.spec_num_slots() == old(self).outgoing_messages.spec_num_slots(),
                msgs_valid(self.output_buffer_pool, msgs@ + self.upcoming_messages@),
                msgs_distinct(msgs@ + self.upcoming_messages@),
                sorted_by_send_time(self.upcoming_messages@),
                forall|i: int|
                    0 <= i < self.upcoming_messages@.len() ==> (
                    #[trigger] self.upcoming_messages@[i]).send_time.spec_ns() >= prev.spec_ns(),
                spec_flush_steps(views0, prev, next, up0) == ({
                    let rec = spec_flush_steps(
                        msgs_views(self.output_buffer_pool, msgs@),
                        prev,
                        next,
                        msgs_views(self.output_buffer_pool, self.upcoming_messages@),
                    );
                    (emits_acc + rec.0, rec.1)
                }),
                frames@.len() == emits_acc.len(),
                forall|k: int|
                    0 <= k < emits_acc.len() ==> (#[trigger] frames@[k])@
                        == crate::wire::spec_frame(
                        crate::wire::spec_send_packet_body(
                            emits_acc[k].0,
                            emits_acc[k].1,
                            emits_acc[k].2,
                            emits_acc[k].3,
                        ),
                    ),
            decreases msgs.len(),
        {
            let ghost msgs_pre = msgs@;
            let ghost up_pre = self.upcoming_messages@;
            let ghost pool_pre = self.output_buffer_pool;
            let ghost v = msg_view(self.output_buffer_pool, msgs@[0]);
            let m: OutputMsg = msgs.remove(0);
            proof {
                assert(msgs_views(pool_pre, msgs_pre).skip(1) =~= msgs_views(pool_pre, msgs@));
                assert(msgs_views(pool_pre, msgs_pre)[0] == v);
                assert(msgs_pre =~= seq![m] + msgs@);
                assert((msgs_pre + up_pre)[0] == m);
                assert(m.send_time.wf() && pool_pre.valid_buffer(m.payload));
                if up_pre.len() > 0 {
                    assert((msgs_pre + up_pre)[msgs_pre.len() + up_pre.len() - 1] == up_pre.last());
                    assert(up_pre.last().send_time.wf());
                }
            }
            let upcoming_last: Option<Dur> = if self.upcoming_messages.len() > 0 {
                Some(self.upcoming_messages[self.upcoming_messages.len() - 1].send_time())
            } else {
                None
            };
            match self.timer_context.check_deadline_overrun(m.send_time(), upcoming_last) {
                Some(fixed) => {
                    let mut deferred: OutputMsg = m;
                    deferred.set_send_time(fixed);
                    self.upcoming_messages.push(deferred);
                    proof {
                        assert(msgs_views(self.output_buffer_pool, self.upcoming_messages@)
                            =~= msgs_views(pool_pre, up_pre).push((fixed, v.1, v.2, v.3)));
                        assert forall|i: int| 0 <= i < (msgs@ + self.upcoming_messages@).len()
                            implies (#[trigger] (msgs@
                            + self.upcoming_messages@)[i]).send_time.wf()
                            && self.output_buffer_pool.valid_buffer(
                            (msgs@ + self.upcoming_messages@)[i].payload,
                        ) by {
                            let all_pre = msgs_pre + up_pre;
                            if i < (msgs@ + self.upcoming_messages@).len() - 1 {
                                assert((msgs@ + self.upcoming_messages@)[i] == all_pre[i + 1]);
                            } else {
                                assert((msgs@ + self.upcoming_messages@)[i] == deferred);
                                assert(all_pre[0] == m);
                            }
                        }
                        assert forall|i: int, j: int|
                            0 <= i < j < (msgs@ + self.upcoming_messages@).len() implies (
                        #[trigger] (msgs@ + self.upcoming_messages@)[i]).payload.index != (
                        #[trigger] (msgs@ + self.upcoming_messages@)[j]).payload.index by {
                            let all_pre = msgs_pre + up_pre;
                            let cur = msgs@ + self.upcoming_messages@;
                            if j < cur.len() - 1 {
                                assert(cur[i] == all_pre[i + 1] && cur[j] == all_pre[j + 1]);
                            } else {
                                assert(cur[j] == deferred && deferred.payload == m.payload
                                    && all_pre[0] == m);
                                assert(cur[i] == all_pre[i + 1]);
                            }
                        }
                    }
                },
                None => {
                    let t: Dur = if m.send_time().lt(&prev) {
                        prev
                    } else {
                        m.send_time()
                    };
                    let ghost mpayload = m.payload;
                    let out: crate::wire::MsgOut = m.finish(t, &mut self.output_buffer_pool);
                    proof {
                        crate::bytes_buffer::lemma_slot_range_in_arena(
                            pool_pre.spec_buffer_size() as int,
                            pool_pre.spec_num_buffers() as int,
                            mpayload.index as int,
                            mpayload.inner.size as int,
                        );
                        assert(pool_pre.buffer_view(mpayload).len() == mpayload.inner.size);
                        assert(out matches crate::wire::MsgOut::SendPacket(t2, _, _, p) && t2 == t
                            && p@.len() <= MAX_PACKET_SIZE);
                        assert(crate::wire::msg_out_wf(out));
                    }
                    proof {
                        assert(msgs_valid(self.output_buffer_pool, msgs@
                            + self.upcoming_messages@)) by {
                            let all_pre = msgs_pre + up_pre;
                            let cur = msgs@ + self.upcoming_messages@;
                            assert forall|i: int| 0 <= i < cur.len() implies (
                            #[trigger] cur[i]).send_time.wf()
                                && self.output_buffer_pool.valid_buffer(cur[i].payload) by {
                                assert(cur[i] == all_pre[i + 1]);
                                assert(all_pre[0] == m);
                            }
                        }
                        assert(msgs_distinct(msgs@ + self.upcoming_messages@)) by {
                            let all_pre = msgs_pre + up_pre;
                            let cur = msgs@ + self.upcoming_messages@;
                            assert forall|i: int, j: int| 0 <= i < j < cur.len() implies (
                            #[trigger] cur[i]).payload.index != (
                            #[trigger] cur[j]).payload.index by {
                                assert(cur[i] == all_pre[i + 1] && cur[j] == all_pre[j + 1]);
                            }
                        }
                    }
                    let body: Vec<u8> = crate::wire::msg_out_to_bytes(&out);
                    let frame: Vec<u8> = crate::wire::frame_bytes(&body);
                    frames.push(frame);
                    proof {
                        emits_acc = emits_acc.push((t, v.1, v.2, v.3));
                        assert(msgs_views(self.output_buffer_pool, msgs@) =~= msgs_views(
                            pool_pre,
                            msgs@,
                        ));
                        assert(msgs_views(self.output_buffer_pool, self.upcoming_messages@)
                            =~= msgs_views(pool_pre, up_pre));
                        assert(body@ == crate::wire::spec_send_packet_body(t, v.1, v.2, v.3));
                        let rec = spec_flush_steps(
                            msgs_views(self.output_buffer_pool, msgs@),
                            prev,
                            next,
                            msgs_views(self.output_buffer_pool, self.upcoming_messages@),
                        );
                        assert(spec_flush_steps(
                            msgs_views(pool_pre, msgs_pre),
                            prev,
                            next,
                            msgs_views(pool_pre, up_pre),
                        ) == (seq![(t, v.1, v.2, v.3)] + rec.0, rec.1));
                        assert(emits_acc + rec.0 =~= emits_acc.drop_last() + (seq![
                            (t, v.1, v.2, v.3),
                        ] + rec.0));
                    }
                },
            }
        }
        proof {
            assert(msgs@ + self.upcoming_messages@ =~= self.upcoming_messages@);
            assert(spec_flush_steps(views0, prev, next, up0).0 =~= emits_acc) by {
                assert(msgs_views(self.output_buffer_pool, msgs@)
                    =~= Seq::<(Dur, u32, u32, Seq<u8>)>::empty());
                assert(emits_acc + Seq::<(Dur, u32, u32, Seq<u8>)>::empty() =~= emits_acc);
            }
        }
        let ghost pending = spec_flush_steps(views0, prev, next, up0).1;
        let ghost emits = spec_flush_steps(views0, prev, next, up0).0;
        let ghost mut popped: int = 0;
        proof {
            assert(pending.skip(0) =~= pending);
        }

        loop
            invariant
                prev == old(self).timer_context.prev_deadline,
                next == old(self).timer_context.next_deadline,
                prev.wf(),
                next.wf(),
                prev.spec_ns() <= next.spec_ns(),
                self.timer_context == old(self).timer_context,
                self.timer_context.wf(),
                self.address == old(self).address,
                self.uplink_bandwidth == old(self).uplink_bandwidth,
                self.uplink_overhead == old(self).uplink_overhead,
                self.input_queue == old(self).input_queue,
                self.last_send == old(self).last_send,
                self.started == old(self).started,
                self.uplink_bandwidth > 0,
                self.last_send.1.wf(),
                self.output_buffer_pool.wf(),
                self.output_buffer_pool.spec_buffer_size() == MAX_PACKET_SIZE,
                self.output_buffer_pool.spec_num_buffers() == pool0.spec_num_buffers(),
                self.output_buffer_pool.inner.buffers@ == pool0.inner.buffers@,
                pool0.spec_buffer_size() == old(self).output_buffer_pool.spec_buffer_size(),
                pool0.spec_num_buffers() == old(self).output_buffer_pool.spec_num_buffers(),
                pool0.inner.buffers@ == old(self).output_buffer_pool.inner.buffers@,
                self.outgoing_messages.wf(),
                self.outgoing_messages.spec_msgs() == Seq::<OutputMsg>::empty(),
                self.outgoing_messages.spec_num_slots() == old(self).outgoing_messages.spec_num_slots(),
                msgs_valid(self.output_buffer_pool, self.upcoming_messages@),
                msgs_distinct(self.upcoming_messages@),
                sorted_by_send_time(self.upcoming_messages@),
                forall|i: int|
                    0 <= i < self.upcoming_messages@.len() ==> (
                    #[trigger] self.upcoming_messages@[i]).send_time.spec_ns() >= prev.spec_ns(),
                0 <= popped,
                popped + self.upcoming_messages@.len() == pending.len(),
                msgs_views(self.output_buffer_pool, self.upcoming_messages@) == pending.skip(
                    popped,
                ),
                spec_due_count(pending, next) == popped + spec_due_count(
                    pending.skip(popped),
                    next,
                ) || (spec_due_count(pending.skip(popped), next) == 0 && spec_due_count(
                    pending,
                    next,
                ) == popped),
                frames@.len() == emits.len() + popped,
                forall|k: int|
                    0 <= k < emits.len() ==> (#[trigger] frames@[k])@
                        == crate::wire::spec_frame(
                        crate::wire::spec_send_packet_body(
                            emits[k].0,
                            emits[k].1,
                            emits[k].2,
                            emits[k].3,
                        ),
                    ),
                forall|k: int|
                    0 <= k < popped ==> (#[trigger] frames@[emits.len() + k])@
                        == crate::wire::spec_frame(
                        crate::wire::spec_send_packet_body(
                            pending[k].0,
                            pending[k].1,
                            pending[k].2,
                            pending[k].3,
                        ),
                    ),
            ensures
                self.upcoming_messages@.len() == 0 || self.upcoming_messages@[0].send_time.spec_ns()
                    > next.spec_ns(),
                spec_due_count(pending.skip(popped), next) == 0,
            decreases self.upcoming_messages@.len(),
        {
            if self.upcoming_messages.len() == 0 {
                proof {
                    assert(pending.skip(popped) =~= msgs_views(
                        self.output_buffer_pool,
                        self.upcoming_messages@,
                    ));
                }
                break ;
            }
            proof {
                assert(self.upcoming_messages@[0].send_time.wf()
                    && self.output_buffer_pool.valid_buffer(self.upcoming_messages@[0].payload));
            }
            let head_time: Dur = self.upcoming_messages[0].send_time();
            if next.lt(&head_time) {
                break ;
            }
            let ghost up_pre = self.upcoming_messages@;
            let ghost pool_pre = self.output_buffer_pool;
            let ghost v = msg_view(self.output_buffer_pool, self.upcoming_messages@[0]);
            let m: OutputMsg = self.upcoming_messages.remove(0);
            let t: Dur = m.send_time();
            let ghost mpayload = m.payload;
            let out: crate::wire::MsgOut = m.finish(t, &mut self.output_buffer_pool);
            proof {
                crate::bytes_buffer::lemma_slot_range_in_arena(
                    pool_pre.spec_buffer_size() as int,
                    pool_pre.spec_num_buffers() as int,
                    mpayload.index as int,
                    mpayload.inner.size as int,
                );
                assert(pool_pre.buffer_view(mpayload).len() == mpayload.inner.size);
                assert(out matches crate::wire::MsgOut::SendPacket(t2, _, _, p) && t2 == t
                    && p@.len() <= MAX_PACKET_SIZE);
                assert(crate::wire::msg_out_wf(out));
            }
            proof {
                assert(msgs_valid(self.output_buffer_pool, self.upcoming_messages@)) by {
                    assert forall|i: int| 0 <= i < self.upcoming_messages@.len() implies (
                    #[trigger] self.upcoming_messages@[i]).send_time.wf()
                        && self.output_buffer_pool.valid_buffer(
                        self.upcoming_messages@[i].payload,
                    ) by {
                        assert(self.upcoming_messages@[i] == up_pre[i + 1]);
                        assert(up_pre[0] == m);
                    }
                }
            }
            let body: Vec<u8> = crate::wire::msg_out_to_bytes(&out);
            let frame: Vec<u8> = crate::wire::frame_bytes(&body);
            frames.push(frame);
            proof {
                assert(msgs_views(self.output_buffer_pool, self.upcoming_messages@)
                    =~= msgs_views(pool_pre, up_pre).skip(1));
                assert(msgs_views(pool_pre, up_pre).skip(1) =~= pending.skip(popped + 1));
                assert(pending.skip(popped)[0] == v);
                assert(body@ == crate::wire::spec_send_packet_body(v.0, v.1, v.2, v.3));
                assert(pending[popped] == pending.skip(popped)[0]);
                popped = popped + 1;
            }
        }

        let at_deadline_body: Vec<u8> = crate::wire::msg_out_to_bytes(
            &crate::wire::MsgOut::AtDeadline,
        );
        let at_deadline_frame: Vec<u8> = crate::wire::frame_bytes(&at_deadline_body);
        frames.push(at_deadline_frame);
        proof {
            assert(spec_due_count(pending, next) == popped);
            assert(msgs_views(self.output_buffer_pool, self.upcoming_messages@) =~= pending.skip(
                popped,
            ));
            if self.upcoming_messages@.len() > 0 {
                assert forall|i: int| 0 <= i < self.upcoming_messages@.len() implies (
                #[trigger] self.upcoming_messages@[i]).send_time.spec_ns() > next.spec_ns() by {
                    assert(self.upcoming_messages@[0].send_time.spec_ns() > next.spec_ns());
                }
            }
        }
        frames
    }
}

/// Uplink pacing law: between two consecutive successful sends, the
/// recorded send times are at least the transmission time of the first
/// packet apart. `Context::send` ensures that the time it records is at
/// least the pacing floor of the state it starts from; applied to the
/// state `c1` left by one send — whose record holds that send's size and
/// time — the time `c2` records for the next send keeps the required
/// distance.
pub proof fn lemma_uplink_pacing(c1: Context, c2: Context)
    requires
        c2.last_send.1.spec_ns() >= c1.spec_next_send_floor(),
        c2.uplink_overhead == c1.uplink_overhead,
        c2.uplink_bandwidth == c1.uplink_bandwidth,
    ensures
        c2.last_send.1.spec_ns() - c1.last_send.1.spec_ns() >= spec_pacing_ns(
            c1.last_send.0,
            c1.uplink_overhead,
            c1.uplink_bandwidth,
        ),
{
}

/// Non-decreasing send times.
pub open spec fn sorted_by_send_time(msgs: Seq<OutputMsg>) -> bool {
    forall|i: int, j: int|
        0 <= i < j < msgs.len() ==> (#[trigger] msgs[i]).send_time.spec_ns() <= (
        #[trigger] msgs[j]).send_time.spec_ns()
}

} // verus!

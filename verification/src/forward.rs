//! Forwarding a message as register writes.
//!
//! A message becomes six writes, one for each of its points, always in the
//! same order. The register client belongs to the caller: a [`Forwarder`]
//! names the write that is due, is told how it went, and stops at the first
//! write that fails. Nothing is retried and nothing rolled back.

use crate::message::DeviceMessage;
use vstd::prelude::*;

verus! {

/// The points of a message, in the order in which they are forwarded.
#[derive(Clone, Copy, Debug, PartialEq, Eq, Structural)]
pub enum Point {
    /// Battery reading.
    Battery,
    /// Temperature reading.
    Temperature,
    /// The three vibration readings.
    Vibration,
    /// Message counter.
    MessageSequence,
    /// Firmware version.
    FirmwareVersion,
    /// Signal strength.
    SignalStrength,
}

/// Number of writes that forward one message.
pub const WRITE_COUNT: usize = 6;

/// One operation on the register client.
#[derive(Clone, Copy, Debug, PartialEq, Eq)]
pub enum RegisterWrite {
    /// Write `value` to the register at `address`.
    Single { address: u16, value: u16 },
    /// Write `values` to the three registers from `address` on, in one
    /// operation.
    Multiple { address: u16, values: [u16; 3] },
}

/// How a write on the register client ended.
#[derive(Clone, Copy, Debug, PartialEq, Eq, Structural)]
pub enum WriteOutcome {
    /// The client accepted the write.
    Written,
    /// The client reported an error.
    Failed,
}

/// The write that failed, and the point it was for.
#[derive(Clone, Copy, Debug, PartialEq, Eq)]
pub struct ForwardError {
    /// The point whose write failed.
    pub point: Point,
    /// The write that failed.
    pub write: RegisterWrite,
}

/// Where the forwarding of a message stands.
#[derive(Clone, Copy, Debug, PartialEq, Eq, Structural)]
pub enum ForwardState {
    /// The write for this point is due; its outcome is awaited.
    Awaiting(Point),
    /// All six writes went through.
    Finished,
    /// The write for this point failed; later points were not written.
    Aborted(Point),
}

/// What a [`Forwarder`] wants done next.
#[derive(Clone, Copy, Debug, PartialEq, Eq)]
pub enum ForwardAction {
    /// Perform this write and report its outcome.
    Write(RegisterWrite),
    /// Forwarding is over, with this result.
    Done(Result<(), ForwardError>),
}

impl Point {
    /// Place of the point in the forwarding order, counted from 0.
    pub open spec fn index(self) -> int {
        match self {
            Point::Battery => 0,
            Point::Temperature => 1,
            Point::Vibration => 2,
            Point::MessageSequence => 3,
            Point::FirmwareVersion => 4,
            Point::SignalStrength => 5,
        }
    }

    /// The point at place `index` of the forwarding order.
    pub open spec fn at(index: int) -> Point
        recommends
            0 <= index < WRITE_COUNT,
    {
        if index <= 0 {
            Point::Battery
        } else if index == 1 {
            Point::Temperature
        } else if index == 2 {
            Point::Vibration
        } else if index == 3 {
            Point::MessageSequence
        } else if index == 4 {
            Point::FirmwareVersion
        } else {
            Point::SignalStrength
        }
    }

    /// The point forwarded after this one, if there is one.
    pub open spec fn following(self) -> Option<Point> {
        if self.index() + 1 < WRITE_COUNT {
            Some(Point::at(self.index() + 1))
        } else {
            None
        }
    }

    /// The point forwarded after this one; `None` after the last.
    pub fn next(self) -> (next: Option<Point>)
        ensures
            next == self.following(),
    {
        match self {
            Point::Battery => Some(Point::Temperature),
            Point::Temperature => Some(Point::Vibration),
            Point::Vibration => Some(Point::MessageSequence),
            Point::MessageSequence => Some(Point::FirmwareVersion),
            Point::FirmwareVersion => Some(Point::SignalStrength),
            Point::SignalStrength => None,
        }
    }
}

/// The six writes that forward `message`, in their order: for each point its
/// identifier is the address and its reading the value, both widened without
/// change. The vibration point carries its three readings x, y, z in one
/// write to three registers in a row.
pub open spec fn write_plan(message: DeviceMessage) -> Seq<RegisterWrite> {
    seq![
        RegisterWrite::Single {
            address: message.batt_pid1 as u16,
            value: message.batt_value as u16,
        },
        RegisterWrite::Single {
            address: message.temp_pid2 as u16,
            value: message.temp_value as u16,
        },
        RegisterWrite::Multiple {
            address: message.vib_pid3 as u16,
            values: [message.vib_x, message.vib_y, message.vib_z],
        },
        RegisterWrite::Single {
            address: message.msg_num_pid5 as u16,
            value: message.msg_num_value,
        },
        RegisterWrite::Single {
            address: message.version_pid11 as u16,
            value: message.version_value as u16,
        },
        RegisterWrite::Single {
            address: message.rssi_pid6 as u16,
            value: message.rssi_value as u16,
        },
    ]
}

/// The write that forwards `point` of `message`.
pub open spec fn write_for(message: DeviceMessage, point: Point) -> RegisterWrite {
    write_plan(message)[point.index()]
}

/// One step of forwarding `message`: the state after `outcome` was reported
/// in `state`, and what is to be done next.
///
/// After a write that went through the next point is due, or forwarding has
/// finished. After a write that failed forwarding is aborted. Once finished
/// or aborted, forwarding stays so and repeats its result.
pub open spec fn forward_step(message: DeviceMessage, state: ForwardState, outcome: WriteOutcome) -> (
    ForwardState,
    ForwardAction,
) {
    match state {
        ForwardState::Awaiting(point) => match outcome {
            WriteOutcome::Written => match point.following() {
                Some(next) => (
                    ForwardState::Awaiting(next),
                    ForwardAction::Write(write_for(message, next)),
                ),
                None => (ForwardState::Finished, ForwardAction::Done(Ok(()))),
            },
            WriteOutcome::Failed => (
                ForwardState::Aborted(point),
                ForwardAction::Done(Err(ForwardError { point, write: write_for(message, point) })),
            ),
        },
        ForwardState::Finished => (ForwardState::Finished, ForwardAction::Done(Ok(()))),
        ForwardState::Aborted(point) => (
            ForwardState::Aborted(point),
            ForwardAction::Done(Err(ForwardError { point, write: write_for(message, point) })),
        ),
    }
}

/// Computes the write that forwards `point` of `message`.
pub fn register_write(message: &DeviceMessage, point: Point) -> (write: RegisterWrite)
    ensures
        write == write_for(*message, point),
{
    match point {
        Point::Battery => RegisterWrite::Single {
            address: message.batt_pid1 as u16,
            value: message.batt_value as u16,
        },
        Point::Temperature => RegisterWrite::Single {
            address: message.temp_pid2 as u16,
            value: message.temp_value as u16,
        },
        Point::Vibration => RegisterWrite::Multiple {
            address: message.vib_pid3 as u16,
            values: [message.vib_x, message.vib_y, message.vib_z],
        },
        Point::MessageSequence => RegisterWrite::Single {
            address: message.msg_num_pid5 as u16,
            value: message.msg_num_value,
        },
        Point::FirmwareVersion => RegisterWrite::Single {
            address: message.version_pid11 as u16,
            value: message.version_value as u16,
        },
        Point::SignalStrength => RegisterWrite::Single {
            address: message.rssi_pid6 as u16,
            value: message.rssi_value as u16,
        },
    }
}

/// Computes the six writes that forward `message`, in their order.
pub fn register_writes(message: &DeviceMessage) -> (writes: [RegisterWrite; WRITE_COUNT])
    ensures
        writes@ == write_plan(*message),
{
    let writes = [
        register_write(message, Point::Battery),
        register_write(message, Point::Temperature),
        register_write(message, Point::Vibration),
        register_write(message, Point::MessageSequence),
        register_write(message, Point::FirmwareVersion),
        register_write(message, Point::SignalStrength),
    ];
    assert(writes@ =~= write_plan(*message));
    writes
}

/// Forwards one message, write by write.
#[derive(Clone, Copy, Debug, PartialEq, Eq)]
pub struct Forwarder {
    /// The message that is being forwarded.
    pub message: DeviceMessage,
    /// How far forwarding has come.
    pub state: ForwardState,
}

impl Forwarder {
    /// Starts forwarding `message`: the write for the first point is due.
    pub fn begin(message: DeviceMessage) -> (start: (Forwarder, ForwardAction))
        ensures
            start.0.message == message,
            start.0.state == ForwardState::Awaiting(Point::Battery),
            start.1 == ForwardAction::Write(write_for(message, Point::Battery)),
    {
        let forwarder = Forwarder { message, state: ForwardState::Awaiting(Point::Battery) };
        (forwarder, ForwardAction::Write(register_write(&message, Point::Battery)))
    }

    /// Takes in how the write that was due ended and says what to do next.
    pub fn on_outcome(&mut self, outcome: WriteOutcome) -> (action: ForwardAction)
        ensures
            final(self).message == old(self).message,
            final(self).state == forward_step(old(self).message, old(self).state, outcome).0,
            action == forward_step(old(self).message, old(self).state, outcome).1,
    {
        match self.state {
            ForwardState::Awaiting(point) => match outcome {
                WriteOutcome::Written => match point.next() {
                    Some(next) => {
                        self.state = ForwardState::Awaiting(next);
                        ForwardAction::Write(register_write(&self.message, next))
                    },
                    None => {
                        self.state = ForwardState::Finished;
                        ForwardAction::Done(Ok(()))
                    },
                },
                WriteOutcome::Failed => {
                    self.state = ForwardState::Aborted(point);
                    ForwardAction::Done(
                        Err(ForwardError { point, write: register_write(&self.message, point) }),
                    )
                },
            },
            ForwardState::Finished => ForwardAction::Done(Ok(())),
            ForwardState::Aborted(point) => ForwardAction::Done(
                Err(ForwardError { point, write: register_write(&self.message, point) }),
            ),
        }
    }
}

/// Forwarding `message` while the writes end as `outcomes` say, one outcome
/// for each write performed: the state reached, and all writes that were due
/// on the way, the first one included.
pub open spec fn forward_run(message: DeviceMessage, outcomes: Seq<WriteOutcome>) -> (
    ForwardState,
    Seq<RegisterWrite>,
)
    decreases outcomes.len(),
{
    if outcomes.len() == 0 {
        (ForwardState::Awaiting(Point::Battery), seq![write_for(message, Point::Battery)])
    } else {
        let before = forward_run(message, outcomes.drop_last());
        let step = forward_step(message, before.0, outcomes.last());
        match step.1 {
            ForwardAction::Write(write) => (step.0, before.1.push(write)),
            ForwardAction::Done(_) => (step.0, before.1),
        }
    }
}

/// All of `outcomes` are [`WriteOutcome::Written`].
pub open spec fn all_written(outcomes: Seq<WriteOutcome>) -> bool {
    forall|i: int| 0 <= i < outcomes.len() ==> outcomes[i] == WriteOutcome::Written
}

/// Forwarding never leaves the plan: however the writes end, those that were
/// due are a leading part of the plan, none skipped, repeated or out of
/// order. They reach up to the point that is awaited or that failed, and are
/// the whole plan once forwarding has finished.
pub proof fn lemma_forward_follows_plan(message: DeviceMessage, outcomes: Seq<WriteOutcome>)
    ensures
        forward_run(message, outcomes).1 == match forward_run(message, outcomes).0 {
            ForwardState::Awaiting(point) => write_plan(message).take(point.index() + 1),
            ForwardState::Aborted(point) => write_plan(message).take(point.index() + 1),
            ForwardState::Finished => write_plan(message),
        },
    decreases outcomes.len(),
{
    let plan = write_plan(message);
    if outcomes.len() == 0 {
        assert(forward_run(message, outcomes).1 =~= plan.take(1));
    } else {
        lemma_forward_follows_plan(message, outcomes.drop_last());
        let before = forward_run(message, outcomes.drop_last());
        match before.0 {
            ForwardState::Awaiting(point) => {
                if outcomes.last() == WriteOutcome::Written {
                    if point.index() + 1 < WRITE_COUNT {
                        assert(plan.take(point.index() + 1).push(plan[point.index() + 1])
                            =~= plan.take(point.index() + 2));
                    } else {
                        assert(plan.take(point.index() + 1) =~= plan);
                    }
                }
            },
            _ => {},
        }
    }
}

/// While every write goes through and fewer than six have been performed, the
/// writes that were due are the leading ones of the plan, and the next of the
/// plan is awaited.
pub proof fn lemma_forward_in_order(message: DeviceMessage, outcomes: Seq<WriteOutcome>)
    requires
        all_written(outcomes),
        outcomes.len() < WRITE_COUNT,
    ensures
        forward_run(message, outcomes).0 == ForwardState::Awaiting(Point::at(outcomes.len() as int)),
        forward_run(message, outcomes).1 == write_plan(message).take(outcomes.len() as int + 1),
    decreases outcomes.len(),
{
    let plan = write_plan(message);
    if outcomes.len() == 0 {
        assert(forward_run(message, outcomes).1 =~= plan.take(1));
    } else {
        let earlier = outcomes.drop_last();
        lemma_forward_in_order(message, earlier);
        assert(outcomes.last() == WriteOutcome::Written);
        assert(plan.take(earlier.len() as int + 1).push(plan[outcomes.len() as int]) =~= plan.take(
            outcomes.len() as int + 1,
        ));
    }
}

/// Six writes that all go through are exactly the plan, in its order, and
/// forwarding then finishes with success.
pub proof fn lemma_forward_all_written(message: DeviceMessage, outcomes: Seq<WriteOutcome>)
    requires
        all_written(outcomes),
        outcomes.len() == WRITE_COUNT,
    ensures
        forward_run(message, outcomes).0 == ForwardState::Finished,
        forward_run(message, outcomes).1 == write_plan(message),
        forward_step(
            message,
            forward_run(message, outcomes.drop_last()).0,
            outcomes.last(),
        ).1 == ForwardAction::Done(Ok(())),
{
    let plan = write_plan(message);
    lemma_forward_in_order(message, outcomes.drop_last());
    assert(outcomes.last() == WriteOutcome::Written);
    assert(plan.take(WRITE_COUNT as int) =~= plan);
}

/// The first write that fails ends forwarding: where `passed` writes went
/// through and the next one failed, the writes that were due are the first
/// `passed + 1` of the plan, the failure is reported with the write that
/// failed, and whatever is reported `later`, no further write becomes due.
pub proof fn lemma_forward_stops_at_failure(
    message: DeviceMessage,
    passed: Seq<WriteOutcome>,
    later: Seq<WriteOutcome>,
)
    requires
        all_written(passed),
        passed.len() < WRITE_COUNT,
    ensures
        forward_run(message, passed.push(WriteOutcome::Failed) + later).0 == ForwardState::Aborted(
            Point::at(passed.len() as int),
        ),
        forward_run(message, passed.push(WriteOutcome::Failed) + later).1 == write_plan(
            message,
        ).take(passed.len() as int + 1),
        forward_step(
            message,
            forward_run(message, passed).0,
            WriteOutcome::Failed,
        ).1 matches ForwardAction::Done(Err(error)) && error.point == Point::at(
            passed.len() as int,
        ) && error.write == write_plan(message)[passed.len() as int],
    decreases later.len(),
{
    let outcomes = passed.push(WriteOutcome::Failed) + later;
    lemma_forward_in_order(message, passed);
    if later.len() == 0 {
        assert(outcomes =~= passed.push(WriteOutcome::Failed));
        assert(outcomes.drop_last() =~= passed);
    } else {
        lemma_forward_stops_at_failure(message, passed, later.drop_last());
        assert(outcomes.drop_last() =~= passed.push(WriteOutcome::Failed) + later.drop_last());
    }
}

} // verus!

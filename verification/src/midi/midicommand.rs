//! The throttle of one bound control: which of its values are forwarded to the mixer.

use vstd::prelude::*;
use super::clock::now_ms;
use crate::motu::level::{easing_circ, easing_circ_micros, unit_micros, Level};
use crate::motu::motucommand::{with_level, MotuCommand};

verus! {

/// The raw value that a new binding compares its first event with.
pub const INITIAL_LAST_RAW: u8 = 127;

/// The time that a new binding carries before its first event, in milliseconds.
pub const INITIAL_TIME_MS: u64 = 10000;

/// One control of the surface, the command that it drives, and the state of its
/// throttle: the event in hand, and the last event that was forwarded.
#[derive(Debug)]
pub struct MidiCommand {
    /// The message that the control sends: its first two bytes identify the control.
    pub message: [u8; 3],
    /// The value of the event in hand.
    pub midi_value: u8,
    /// The value of the last forwarded event.
    pub prev_midi_value: u8,
    /// The command that the control drives, with the level of the latest event.
    pub motu_command: MotuCommand,
    /// The time of the event in hand, in milliseconds.
    pub timestamp: u64,
    /// The time of the last forwarded event, in milliseconds.
    pub prev_timestamp: u64,
}

/// The change in value that the throttle judges by: the distance between the new
/// value and the last forwarded one, or 1000 after more than a second.
pub open spec fn judged_delta(raw: int, last_raw: int, delta_time: int) -> int {
    if delta_time > 1000 {
        1000
    } else if raw >= last_raw {
        raw - last_raw
    } else {
        last_raw - raw
    }
}

/// Whether an event is forwarded: `raw` is its value, `last_raw` the last forwarded
/// value, and `delta_time` the milliseconds since the last forwarded event.
pub open spec fn should_forward(raw: int, last_raw: int, delta_time: int) -> bool {
    let delta_value = judged_delta(raw, last_raw, delta_time);
    ||| 10 < delta_time <= 100 && delta_value > 5
    ||| 100 < delta_time <= 150 && delta_value > 2
    ||| 150 < delta_time <= 250 && delta_value > 0
    ||| delta_time > 250 && delta_value > 0
    ||| delta_value > 30
    ||| raw <= 2
    ||| raw >= 125
}

/// The level that a raw value stands for: its position between 0 and 127, eased.
pub open spec fn eased_micros(raw: int) -> int {
    easing_circ_micros(unit_micros(raw))
}

/// Whether `after` and `outcome` are what an event with the value `midi_value` at
/// the clock reading `now` makes of the binding `before`. The bound command takes
/// the eased level of the value; a forwarded event hands out the updated command
/// and becomes the last forwarded event; a suppressed one leaves the throttle as
/// it was; an unreadable clock changes nothing and its error is handed back.
pub open spec fn event_step(
    before: MidiCommand,
    after: MidiCommand,
    midi_value: u8,
    now: Result<u64, String>,
    outcome: Result<Option<MotuCommand>, String>,
) -> bool {
    &&& after.message == before.message
    &&& match now {
        Ok(now_ms) => {
            let forwarded = should_forward(
                midi_value as int,
                before.prev_midi_value as int,
                now_ms - before.prev_timestamp,
            );
            &&& after.midi_value == midi_value
            &&& after.timestamp == now_ms
            &&& after.motu_command@ == with_level(
                before.motu_command@,
                eased_micros(midi_value as int),
            )
            &&& forwarded ==> {
                &&& outcome matches Ok(Some(command))
                &&& command@ == after.motu_command@
                &&& after.prev_midi_value == midi_value
                &&& after.prev_timestamp == now_ms
            }
            &&& !forwarded ==> {
                &&& outcome matches Ok(None)
                &&& after.prev_midi_value == before.prev_midi_value
                &&& after.prev_timestamp == before.prev_timestamp
            }
        },
        Err(reason) => {
            &&& outcome == Err::<Option<MotuCommand>, String>(reason)
            &&& after.midi_value == before.midi_value
            &&& after.timestamp == before.timestamp
            &&& after.prev_midi_value == before.prev_midi_value
            &&& after.prev_timestamp == before.prev_timestamp
            &&& after.motu_command == before.motu_command
        },
    }
}

/// The values at both ends of a control's travel are forwarded whatever the state.
pub proof fn lemma_end_stops_forwarded(last_raw: int, delta_time: int)
    ensures
        should_forward(0, last_raw, delta_time),
        should_forward(127, last_raw, delta_time),
{
}

/// A jump of more than 30 is forwarded whatever the timing, and after more than a
/// second every event is forwarded.
pub proof fn lemma_large_changes_forwarded(raw: int, last_raw: int, delta_time: int)
    ensures
        raw - last_raw > 30 || last_raw - raw > 30 ==> should_forward(raw, last_raw, delta_time),
        delta_time > 1000 ==> should_forward(raw, last_raw, delta_time),
{
}

/// Within ten milliseconds of the last forwarded event, only end stops and jumps
/// of more than 30 are forwarded.
pub proof fn lemma_quick_repeats_suppressed(raw: int, last_raw: int, delta_time: int)
    requires
        delta_time <= 10,
        2 < raw < 125,
        -30 <= raw - last_raw <= 30,
    ensures
        !should_forward(raw, last_raw, delta_time),
{
}

impl MidiCommand {
    /// Binds the control that sends `message` to `motu_command`. The message must
    /// have three bytes. The new throttle compares its first event with the value
    /// 127 at time 0, so that a first low value counts as a large drop.
    pub fn new(message: &[u8], motu_command: MotuCommand) -> (binding: Option<MidiCommand>)
        ensures
            binding is Some <==> message.len() == 3,
            binding matches Some(b) ==> {
                &&& b.message@ == message@
                &&& b.motu_command == motu_command
                &&& b.midi_value == 0
                &&& b.prev_midi_value == 127
                &&& b.timestamp == 10000
                &&& b.prev_timestamp == 0
            },
    {
        if message.len() == 3 {
            let binding = MidiCommand {
                message: [message[0], message[1], message[2]],
                motu_command,
                timestamp: INITIAL_TIME_MS,
                midi_value: 0,
                prev_midi_value: INITIAL_LAST_RAW,
                prev_timestamp: 0,
            };
            assert(binding.message@ =~= message@);
            Some(binding)
        } else {
            None
        }
    }

    /// The distance between the value in hand and the last forwarded value.
    pub fn delta_value(&self) -> (delta: u8)
        ensures
            delta == judged_delta(self.midi_value as int, self.prev_midi_value as int, 0),
    {
        if self.midi_value >= self.prev_midi_value {
            self.midi_value - self.prev_midi_value
        } else {
            self.prev_midi_value - self.midi_value
        }
    }

    /// The milliseconds from the last forwarded event to the event in hand; 0 where
    /// the clock went backwards.
    pub fn delta_time(&self) -> (delta: u64)
        ensures
            delta == if self.timestamp >= self.prev_timestamp {
                self.timestamp - self.prev_timestamp
            } else {
                0
            },
    {
        if self.timestamp >= self.prev_timestamp {
            self.timestamp - self.prev_timestamp
        } else {
            0
        }
    }

    /// Decides whether the event in hand is forwarded. If it is, it becomes the last
    /// forwarded event; if it is not, the throttle stays as it was, so that a run of
    /// small changes is compared with the last forwarded value until one of them
    /// passes.
    pub fn do_throttle(&mut self) -> (forwarded: bool)
        ensures
            forwarded == should_forward(
                old(self).midi_value as int,
                old(self).prev_midi_value as int,
                old(self).timestamp - old(self).prev_timestamp,
            ),
            old(self).midi_value <= 2 || old(self).midi_value >= 125 ==> forwarded,
            final(self).midi_value == old(self).midi_value,
            final(self).timestamp == old(self).timestamp,
            final(self).message == old(self).message,
            final(self).motu_command == old(self).motu_command,
            forwarded ==> {
                &&& final(self).prev_midi_value == old(self).midi_value
                &&& final(self).prev_timestamp == old(self).timestamp
            },
            !forwarded ==> {
                &&& final(self).prev_midi_value == old(self).prev_midi_value
                &&& final(self).prev_timestamp == old(self).prev_timestamp
            },
    {
        let delta_time = self.delta_time();
        let delta_value: u16 = if delta_time > 1000 {
            1000
        } else {
            self.delta_value() as u16
        };
        if (100 >= delta_time && delta_time > 10 && delta_value > 5) || (150 >= delta_time
            && delta_time > 100 && delta_value > 2) || (250 >= delta_time && delta_time > 150
            && delta_value > 0) || (delta_time > 250 && delta_value > 0) || delta_value > 30
            || self.midi_value <= 2 || self.midi_value >= 125 {
            self.prev_midi_value = self.midi_value;
            self.prev_timestamp = self.timestamp;
            true
        } else {
            false
        }
    }

    /// Takes in an event: the value `midi_value` at the time that `now` gives. The
    /// bound command gets the eased level of the value. Where the clock could not
    /// be read, nothing changes and the clock's error is handed back.
    pub fn set_midi_value_at(&mut self, midi_value: u8, now: Result<u64, String>) -> (outcome:
        Result<(), String>)
        requires
            midi_value <= 127,
        ensures
            outcome is Ok <==> now is Ok,
            final(self).message == old(self).message,
            final(self).prev_midi_value == old(self).prev_midi_value,
            final(self).prev_timestamp == old(self).prev_timestamp,
            match now {
                Ok(now_ms) => {
                    &&& final(self).midi_value == midi_value
                    &&& final(self).timestamp == now_ms
                    &&& final(self).motu_command@ == with_level(
                        old(self).motu_command@,
                        eased_micros(midi_value as int),
                    )
                },
                Err(reason) => {
                    &&& outcome == Err::<(), String>(reason)
                    &&& final(self).midi_value == old(self).midi_value
                    &&& final(self).timestamp == old(self).timestamp
                    &&& final(self).motu_command == old(self).motu_command
                },
            },
    {
        match now {
            Ok(now_ms) => {
                self.midi_value = midi_value;
                self.timestamp = now_ms;
                self.motu_command.set_value(easing_circ(Level::from_raw(midi_value)));
                Ok(())
            },
            Err(reason) => Err(reason),
        }
    }

    /// Takes in an event with the value `midi_value` at the time that the wall
    /// clock shows. Where the clock could not be read, nothing changes and the
    /// clock's error is handed back.
    pub fn set_midi_value(&mut self, midi_value: u8) -> (outcome: Result<(), String>)
        requires
            midi_value <= 127,
        ensures
            final(self).message == old(self).message,
            final(self).prev_midi_value == old(self).prev_midi_value,
            final(self).prev_timestamp == old(self).prev_timestamp,
            outcome is Ok ==> {
                &&& final(self).midi_value == midi_value
                &&& final(self).motu_command@ == with_level(
                    old(self).motu_command@,
                    eased_micros(midi_value as int),
                )
            },
            outcome is Err ==> {
                &&& final(self).midi_value == old(self).midi_value
                &&& final(self).timestamp == old(self).timestamp
                &&& final(self).motu_command == old(self).motu_command
            },
    {
        self.set_midi_value_at(midi_value, now_ms())
    }

    /// Takes in an event and decides on it: `Ok(Some(command))` with the updated
    /// command where the event is forwarded, `Ok(None)` where it is suppressed, and
    /// the clock's error, with nothing changed, where the clock could not be read.
    pub fn on_event(&mut self, midi_value: u8, now: Result<u64, String>) -> (outcome: Result<
        Option<MotuCommand>,
        String,
    >)
        requires
            midi_value <= 127,
        ensures
            event_step(*old(self), *final(self), midi_value, now, outcome),
    {
        match self.set_midi_value_at(midi_value, now) {
            Ok(()) => {
                if self.do_throttle() {
                    Ok(Some(self.motu_command.copy()))
                } else {
                    Ok(None)
                }
            },
            Err(reason) => Err(reason),
        }
    }
}

} // verus!

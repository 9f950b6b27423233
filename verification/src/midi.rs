//! The control surface: its messages, and the commands bound to its controls.

pub mod clock;
pub mod midicommand;
pub mod miditype;
pub mod ports;

use vstd::prelude::*;
use vstd::string::*;
use crate::config::Config;
use crate::motu::motucommand::MotuCommand;
use self::clock::now_ms;
use self::midicommand::{event_step, MidiCommand};
use self::miditype::{class_code, class_of_status, status_class, MidiType};

verus! {

/// Whether a message is a control message: it has three bytes.
pub open spec fn is_control_message(message: Seq<u8>) -> bool {
    message.len() == 3
}

/// Whether a binding is for the control that sent `message`: their first two bytes agree.
pub open spec fn binds(binding: MidiCommand, message: Seq<u8>) -> bool {
    message.len() >= 2 && binding.message[0] == message[0] && binding.message[1] == message[1]
}

/// The first byte of the messages of class `class` on the surface's channel
/// `midi_channel`, counted from 1.
pub open spec fn status_byte(class: MidiType, midi_channel: int) -> int {
    class_code(class) * 16 + (midi_channel - 1)
}

/// Tells whether a message is a control message.
pub fn is_midi(message: &[u8]) -> (control: bool)
    ensures
        control == is_control_message(message@),
{
    message.len() == 3
}

/// The class of a control message.
pub fn midi_type(message: &[u8]) -> (class: Option<MidiType>)
    ensures
        class == if is_control_message(message@) {
            Some(status_class(message@[0]))
        } else {
            None
        },
{
    if message.len() == 3 {
        Some(class_of_status(message[0]))
    } else {
        None
    }
}

/// The channel of a control message, counted from 1: one more than the lower half
/// of its first byte.
pub fn channel(message: &[u8]) -> (number: Option<u8>)
    ensures
        number == if is_control_message(message@) {
            Some((message@[0] % 16 + 1) as u8)
        } else {
            None
        },
{
    if is_midi(message) {
        let status: u8 = message[0];
        let low: u8 = status & 0x0F;
        assert(low == status % 16) by (bit_vector)
            requires
                low == status & 0x0F,
        ;
        Some(low + 1)
    } else {
        None
    }
}

/// Finds the first binding for the control that sent `message`.
pub fn find_binding(bindings: &Vec<MidiCommand>, message: &[u8]) -> (found: Option<usize>)
    ensures
        match found {
            Some(i) => {
                &&& i < bindings.len()
                &&& binds(bindings[i as int], message@)
                &&& forall|j: int| 0 <= j < i ==> !binds(bindings[j], message@)
            },
            None => forall|j: int| 0 <= j < bindings.len() ==> !binds(bindings[j], message@),
        },
{
    if message.len() < 2 {
        return None;
    }
    let mut i: usize = 0;
    while i < bindings.len()
        invariant
            i <= bindings.len(),
            message.len() >= 2,
            forall|j: int| 0 <= j < i ==> !binds(bindings[j], message@),
        decreases bindings.len() - i,
    {
        if bindings[i].message[0] == message[0] && bindings[i].message[1] == message[1] {
            return Some(i);
        }
        i = i + 1;
    }
    None
}

/// Whether `binding` is the fresh binding of the control `entry.0` of class `class`
/// on the surface's channel `midi_channel` to the command `entry.1`.
pub open spec fn is_fresh_binding(
    binding: MidiCommand,
    class: MidiType,
    midi_channel: int,
    entry: (usize, MotuCommand),
) -> bool {
    &&& binding.message@ == seq![status_byte(class, midi_channel) as u8, entry.0 as u8, 0u8]
    &&& binding.motu_command@ == entry.1@
    &&& binding.midi_value == 0
    &&& binding.prev_midi_value == 127
    &&& binding.timestamp == 10000
    &&& binding.prev_timestamp == 0
}

/// Whether every control number of a mapping fits a byte.
pub open spec fn fits_bytes(mapping: Seq<(usize, MotuCommand)>) -> bool {
    forall|i: int| 0 <= i < mapping.len() ==> (#[trigger] mapping[i]).0 <= 255
}

/// Appends a fresh binding for each entry of a mapping. Stops at the first control
/// number that does not fit a byte, and tells so.
fn push_bindings(
    out: &mut Vec<MidiCommand>,
    mapping: &Vec<(usize, MotuCommand)>,
    class: MidiType,
    midi_channel: u8,
) -> (complete: bool)
    requires
        1 <= midi_channel <= 16,
        class != MidiType::Undefined,
    ensures
        complete == fits_bytes(mapping@),
        complete ==> final(out)@.len() == old(out)@.len() + mapping.len(),
        complete ==> forall|i: int|
            0 <= i < old(out)@.len() ==> final(out)@[i] == old(out)@[i],
        complete ==> forall|i: int|
            0 <= i < mapping.len() ==> is_fresh_binding(
                #[trigger] final(out)@[old(out)@.len() + i],
                class,
                midi_channel as int,
                mapping[i],
            ),
{
    let code: u8 = match class {
        MidiType::CC => 11,
        MidiType::NoteOn => 9,
        MidiType::NoteOff => 8,
        MidiType::Undefined => 255,
    };
    let status: u8 = code * 16 + (midi_channel - 1);
    let ghost start = out@;
    let mut i: usize = 0;
    while i < mapping.len()
        invariant
            i <= mapping.len(),
            1 <= midi_channel <= 16,
            status == status_byte(class, midi_channel as int),
            out@.len() == start.len() + i,
            forall|k: int| 0 <= k < start.len() ==> out@[k] == start[k],
            forall|k: int| 0 <= k < i ==> (#[trigger] mapping[k]).0 <= 255,
            forall|k: int|
                0 <= k < i ==> is_fresh_binding(
                    #[trigger] out@[start.len() + k],
                    class,
                    midi_channel as int,
                    mapping[k],
                ),
        decreases mapping.len() - i,
    {
        let key: usize = mapping[i].0;
        if key > 255 {
            return false;
        }
        let message: [u8; 3] = [status, key as u8, 0];
        let ghost before = out@;
        match MidiCommand::new(message.as_slice(), mapping[i].1.copy()) {
            Some(binding) => {
                out.push(binding);
                assert(out@[start.len() + i].message@ =~= seq![status, key as u8, 0u8]);
                assert forall|k: int| 0 <= k < i + 1 implies is_fresh_binding(
                    #[trigger] out@[start.len() + k],
                    class,
                    midi_channel as int,
                    mapping[k],
                ) by {
                    if k < i {
                        assert(out@[start.len() + k] == before[start.len() + k]);
                    }
                }
            },
            None => {
                assert(false);
            },
        }
        i = i + 1;
    }
    true
}

/// The bindings that a configuration asks for: the controller changes first, then
/// the pressed notes, then the released notes, each mapping in its own order. A
/// configuration without a surface, with a channel outside 1 to 16, or with a
/// control number that does not fit a byte is refused.
pub fn control_bindings(config: &Config) -> (bindings: Result<Vec<MidiCommand>, String>)
    ensures
        match bindings {
            Ok(list) => {
                let cc = config.midi_mapping_cc@;
                let on = config.midi_mapping_note_on@;
                let off = config.midi_mapping_note_off@;
                &&& config.midi_config matches Some(surface)
                &&& 1 <= surface.midi_channel <= 16
                &&& fits_bytes(cc) && fits_bytes(on) && fits_bytes(off)
                &&& list.len() == cc.len() + on.len() + off.len()
                &&& forall|i: int|
                    0 <= i < cc.len() ==> is_fresh_binding(
                        #[trigger] list[i],
                        MidiType::CC,
                        surface.midi_channel as int,
                        cc[i],
                    )
                &&& forall|i: int|
                    0 <= i < on.len() ==> is_fresh_binding(
                        #[trigger] list[cc.len() + i],
                        MidiType::NoteOn,
                        surface.midi_channel as int,
                        on[i],
                    )
                &&& forall|i: int|
                    0 <= i < off.len() ==> is_fresh_binding(
                        #[trigger] list[cc.len() + on.len() + i],
                        MidiType::NoteOff,
                        surface.midi_channel as int,
                        off[i],
                    )
            },
            Err(reason) => match config.midi_config {
                None => reason@ == "No MIDI configuration"@,
                Some(surface) => if surface.midi_channel < 1 || surface.midi_channel > 16 {
                    reason@ == "Invalid MIDI channel"@
                } else {
                    &&& reason@ == "Invalid control number"@
                    &&& !(fits_bytes(config.midi_mapping_cc@) && fits_bytes(
                        config.midi_mapping_note_on@,
                    ) && fits_bytes(config.midi_mapping_note_off@))
                },
            },
        },
{
    let midi_channel: u8 = match &config.midi_config {
        Some(surface) => surface.midi_channel,
        None => {
            return Err(String::from_str("No MIDI configuration"));
        },
    };
    if midi_channel < 1 || midi_channel > 16 {
        return Err(String::from_str("Invalid MIDI channel"));
    }
    let mut list: Vec<MidiCommand> = Vec::new();
    if !push_bindings(&mut list, &config.midi_mapping_cc, MidiType::CC, midi_channel) {
        return Err(String::from_str("Invalid control number"));
    }
    let ghost first = list@;
    if !push_bindings(&mut list, &config.midi_mapping_note_on, MidiType::NoteOn, midi_channel) {
        return Err(String::from_str("Invalid control number"));
    }
    let ghost second = list@;
    if !push_bindings(&mut list, &config.midi_mapping_note_off, MidiType::NoteOff, midi_channel) {
        return Err(String::from_str("Invalid control number"));
    }
    proof {
        let cc = config.midi_mapping_cc@;
        let on = config.midi_mapping_note_on@;
        assert forall|i: int| 0 <= i < cc.len() implies is_fresh_binding(
            #[trigger] list[i],
            MidiType::CC,
            midi_channel as int,
            cc[i],
        ) by {
            assert(list[i] == second[i]);
            assert(second[i] == first[i]);
            assert(first[0 + i] == first[i]);
        }
        assert forall|i: int| 0 <= i < on.len() implies is_fresh_binding(
            #[trigger] list[cc.len() + i],
            MidiType::NoteOn,
            midi_channel as int,
            on[i],
        ) by {
            assert(list[cc.len() + i] == second[first.len() + i]);
        }
    }
    Ok(list)
}

/// Takes in one message of the surface at the clock reading `now`. A message of
/// three bytes whose third byte is a 7-bit value goes to the first binding for
/// its control, which decides whether its command is forwarded. Any other
/// message, and one from a control without a binding, changes nothing.
pub fn handle_message(
    bindings: &mut Vec<MidiCommand>,
    message: &[u8],
    now: Result<u64, String>,
) -> (outcome: Result<Option<MotuCommand>, String>)
    ensures
        final(bindings).len() == old(bindings).len(),
        match concerned(old(bindings)@, message@) {
            Some(i) => {
                &&& event_step(old(bindings)[i], final(bindings)[i], message@[2], now, outcome)
                &&& forall|j: int|
                    0 <= j < old(bindings).len() && j != i ==> final(bindings)[j] == old(
                        bindings,
                    )[j]
            },
            None => outcome == Ok::<Option<MotuCommand>, String>(None) && final(bindings)@ == old(
                bindings,
            )@,
        },
{
    if !is_midi(message) || message[2] > 127 {
        return Ok(None);
    }
    match find_binding(bindings, message) {
        Some(i) => {
            proof {
                lemma_concerned(bindings@, message@, i as int);
            }
            let mut binding = bindings.remove(i);
            let outcome = binding.on_event(message[2], now);
            bindings.insert(i, binding);
            outcome
        },
        None => Ok(None),
    }
}

/// Takes in one message of the surface at the time that the wall clock shows.
pub fn receive(bindings: &mut Vec<MidiCommand>, message: &[u8]) -> (outcome: Result<
    Option<MotuCommand>,
    String,
>)
    ensures
        final(bindings).len() == old(bindings).len(),
        concerned(old(bindings)@, message@) is None ==> outcome == Ok::<
            Option<MotuCommand>,
            String,
        >(None) && final(bindings)@ == old(bindings)@,
        concerned(old(bindings)@, message@) matches Some(i) ==> {
            &&& exists|now: Result<u64, String>|
                event_step(old(bindings)[i], final(bindings)[i], message@[2], now, outcome)
            &&& forall|j: int|
                0 <= j < old(bindings).len() && j != i ==> final(bindings)[j] == old(bindings)[j]
        },
{
    let now = now_ms();
    handle_message(bindings, message, now)
}

/// The position of the binding that a message concerns: the first binding for its
/// control, where the message has three bytes and its third byte is a 7-bit value.
pub open spec fn concerned(bindings: Seq<MidiCommand>, message: Seq<u8>) -> Option<int> {
    if is_control_message(message) && message[2] <= 127 && (exists|i: int|
        0 <= i < bindings.len() && binds(bindings[i], message)) {
        Some(first_bound(bindings, message))
    } else {
        None
    }
}

/// The position of the first binding for the control that sent `message`, or the
/// number of bindings where there is none.
pub open spec fn first_bound(bindings: Seq<MidiCommand>, message: Seq<u8>) -> int
    decreases bindings.len(),
{
    if bindings.len() == 0 {
        0
    } else if binds(bindings[0], message) {
        0
    } else {
        1 + first_bound(bindings.skip(1), message)
    }
}

/// The first binding for a control is the one before which no binding is for it.
pub proof fn lemma_first_bound(bindings: Seq<MidiCommand>, message: Seq<u8>, i: int)
    requires
        0 <= i <= bindings.len(),
        forall|j: int| 0 <= j < i ==> !binds(bindings[j], message),
        i < bindings.len() ==> binds(bindings[i], message),
    ensures
        first_bound(bindings, message) == i,
    decreases bindings.len(),
{
    if bindings.len() > 0 && i > 0 {
        assert(!binds(bindings[0], message));
        let rest = bindings.skip(1);
        assert forall|j: int| 0 <= j < i - 1 implies !binds(rest[j], message) by {
            assert(rest[j] == bindings[j + 1]);
        }
        lemma_first_bound(rest, message, i - 1);
    }
}

/// A message that has a binding concerns the first binding for its control.
proof fn lemma_concerned(bindings: Seq<MidiCommand>, message: Seq<u8>, i: int)
    requires
        is_control_message(message),
        message[2] <= 127,
        0 <= i < bindings.len(),
        binds(bindings[i], message),
        forall|j: int| 0 <= j < i ==> !binds(bindings[j], message),
    ensures
        concerned(bindings, message) == Some(i),
{
    lemma_first_bound(bindings, message, i);
}

} // verus!

//! The classes of control-surface messages.

use vstd::prelude::*;
use vstd::string::*;
use vstd::std_specs::convert::FromSpecImpl;

verus! {

/// The class of a three-byte message, told by the upper half of its first byte.
#[derive(Debug, PartialEq, Eq, Clone, Copy, Structural)]
pub enum MidiType {
    CC,
    NoteOn,
    NoteOff,
    Undefined,
}

/// The class that a status byte names: 11 in its upper half is a controller change,
/// 9 a pressed note, 8 a released note.
pub open spec fn status_class(status: u8) -> MidiType {
    if status / 16 == 11 {
        MidiType::CC
    } else if status / 16 == 9 {
        MidiType::NoteOn
    } else if status / 16 == 8 {
        MidiType::NoteOff
    } else {
        MidiType::Undefined
    }
}

/// The class of a message: that of its first byte where it has three bytes.
pub open spec fn message_class(message: Seq<u8>) -> MidiType {
    if message.len() == 3 {
        status_class(message[0])
    } else {
        MidiType::Undefined
    }
}

/// The upper half of a status byte that names a class; 255 for no class.
pub open spec fn class_code(class: MidiType) -> u8 {
    match class {
        MidiType::CC => 11,
        MidiType::NoteOn => 9,
        MidiType::NoteOff => 8,
        MidiType::Undefined => 255,
    }
}

/// The display name of a class.
pub open spec fn class_text(class: MidiType) -> Seq<char> {
    match class {
        MidiType::CC => "CC"@,
        MidiType::NoteOn => "NoteOn"@,
        MidiType::NoteOff => "NoteOff"@,
        MidiType::Undefined => "UNDEFINED"@,
    }
}

/// Tells the class that a status byte names.
pub fn class_of_status(status: u8) -> (class: MidiType)
    ensures
        class == status_class(status),
{
    let upper: u8 = status >> 4;
    assert(upper == status / 16) by (bit_vector)
        requires
            upper == status >> 4,
    ;
    if upper == 11 {
        MidiType::CC
    } else if upper == 9 {
        MidiType::NoteOn
    } else if upper == 8 {
        MidiType::NoteOff
    } else {
        MidiType::Undefined
    }
}

impl MidiType {
    /// The display name of the class.
    pub fn to_string(&self) -> (text: String)
        ensures
            text@ == class_text(*self),
    {
        match self {
            MidiType::CC => String::from_str("CC"),
            MidiType::NoteOn => String::from_str("NoteOn"),
            MidiType::NoteOff => String::from_str("NoteOff"),
            MidiType::Undefined => String::from_str("UNDEFINED"),
        }
    }
}

impl<'a> From<&'a [u8]> for MidiType {
    /// The class of a message.
    fn from(message: &'a [u8]) -> (class: MidiType) {
        if message.len() == 3 {
            class_of_status(message[0])
        } else {
            MidiType::Undefined
        }
    }
}

impl<'a> FromSpecImpl<&'a [u8]> for MidiType {
    open spec fn obeys_from_spec() -> bool {
        true
    }

    open spec fn from_spec(message: &'a [u8]) -> MidiType {
        message_class(message@)
    }
}

impl<'a> From<&'a u8> for MidiType {
    /// The class that a status byte names.
    fn from(midi_type: &'a u8) -> (class: MidiType) {
        class_of_status(*midi_type)
    }
}

impl<'a> FromSpecImpl<&'a u8> for MidiType {
    open spec fn obeys_from_spec() -> bool {
        true
    }

    open spec fn from_spec(midi_type: &'a u8) -> MidiType {
        status_class(*midi_type)
    }
}

impl From<MidiType> for u8 {
    /// The upper half of a status byte that names the class; 255 for no class.
    fn from(midi_type: MidiType) -> (code: u8) {
        match midi_type {
            MidiType::CC => 0xB,
            MidiType::NoteOn => 0x9,
            MidiType::NoteOff => 0x8,
            MidiType::Undefined => 0xFF,
        }
    }
}

impl FromSpecImpl<MidiType> for u8 {
    open spec fn obeys_from_spec() -> bool {
        true
    }

    open spec fn from_spec(midi_type: MidiType) -> u8 {
        class_code(midi_type)
    }
}

} // verus!

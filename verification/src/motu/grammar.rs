//! The textual command grammar: `vol(3)`, `send(1,2)`, `send(1,2,3)`, `mute(4)`,
//! `unmute(4)`, `monitor(on)`, `monitor(off)`, `print` and `init`.
//!
//! A string is read by the first keyword that it holds, in the order `vol`, `send`,
//! `unmute`, `mute`, `monitor`, `print`, `init`. The keyword with its opening
//! parenthesis and every closing parenthesis are taken out, and what is left holds
//! the fields.

use vstd::prelude::*;
use vstd::string::*;
use super::channel::{Channel, ChannelType};
use super::level::Level;
use super::motucommand::{CommandView, MotuCommand};
use crate::text::{
    chars_of, contains, integer_in_range, matches_at, occurs, parse_integer, piece_views,
    remove_all, remove_char, split, split_on, without, without_char,
};

verus! {

/// The level that a fader command read from text starts with, in millionths.
pub const TEXT_VOLUME_MICROS: i64 = 660_000;

/// The level that a send command read from text starts with, in millionths.
pub const TEXT_SEND_MICROS: i64 = 330_000;

/// What is left of `s` when `opening` and every closing parenthesis are taken out.
pub open spec fn fields_text(s: Seq<char>, opening: Seq<char>) -> Seq<char> {
    without_char(without(s, opening), ')')
}

/// The channel number that a field writes, if it writes one.
pub open spec fn field_number(field: Seq<char>) -> Option<int> {
    integer_in_range(field, true, i32::MIN as int, i32::MAX as int)
}

/// The reference to the channel of tier `kind` with the number `n`.
pub open spec fn channel_ref(n: int, kind: ChannelType) -> Channel {
    Channel { channel_number: n as i32, channel_type: kind }
}

/// The command that the fields of a `send` string stand for: two fields make a send,
/// three to seven a toggle over the aux buses from the second field on.
pub open spec fn parse_send(fields: Seq<Seq<char>>) -> Result<CommandView, Seq<char>> {
    if 2 <= fields.len() < 8 && (forall|i: int|
        0 <= i < fields.len() ==> field_number(#[trigger] fields[i]) is Some) {
        if fields.len() == 2 {
            Ok(
                CommandView::Send {
                    channel: channel_ref(field_number(fields[0])->0, ChannelType::Chan),
                    aux_channel: channel_ref(field_number(fields[1])->0, ChannelType::Aux),
                    value: 330_000,
                },
            )
        } else {
            Ok(
                CommandView::ToggleSend {
                    channel: channel_ref(field_number(fields[0])->0, ChannelType::Chan),
                    aux_channels: Seq::new(
                        (fields.len() - 1) as nat,
                        |i: int| channel_ref(field_number(fields[i + 1])->0, ChannelType::Aux),
                    ),
                    active_sends: 0,
                },
            )
        }
    } else {
        Err("Invalid send"@)
    }
}

/// The command that a string stands for, or the message that names what was wrong with it.
pub open spec fn parse_command(s: Seq<char>) -> Result<CommandView, Seq<char>> {
    if occurs(s, "vol"@) {
        match field_number(fields_text(s, "vol("@)) {
            Some(n) => Ok(
                CommandView::Volume {
                    channel: channel_ref(n, ChannelType::Chan),
                    volume: 660_000,
                },
            ),
            None => Err("Invalid volume"@),
        }
    } else if occurs(s, "send"@) {
        parse_send(split_on(fields_text(s, "send("@), ','))
    } else if occurs(s, "unmute"@) {
        match field_number(fields_text(s, "unmute("@)) {
            Some(n) => Ok(CommandView::Unmute(channel_ref(n, ChannelType::Chan))),
            None => Err("Invalid unmute"@),
        }
    } else if occurs(s, "mute"@) {
        match field_number(fields_text(s, "mute("@)) {
            Some(n) => Ok(CommandView::Mute(channel_ref(n, ChannelType::Chan))),
            None => Err("Invalid mute"@),
        }
    } else if occurs(s, "monitor"@) {
        let state = fields_text(s, "monitor("@);
        if state == "on"@ {
            Ok(CommandView::EnableMonitoring)
        } else if state == "off"@ {
            Ok(CommandView::DisableMonitoring)
        } else {
            Err("Invalid monitor"@)
        }
    } else if occurs(s, "print"@) {
        Ok(CommandView::PrintSettings)
    } else if occurs(s, "init"@) {
        Ok(CommandView::Init)
    } else {
        Err("Invalid command"@)
    }
}

/// Whether a command and a message are the outcome `expected`.
pub open spec fn is_outcome(
    outcome: Result<MotuCommand, String>,
    expected: Result<CommandView, Seq<char>>,
) -> bool {
    match (outcome, expected) {
        (Ok(command), Ok(view)) => command@ == view,
        (Err(message), Err(text)) => message@ == text,
        _ => false,
    }
}

/// Tells whether `chars` holds the text `word`.
fn holds(chars: &Vec<char>, word: &str) -> (found: bool)
    ensures
        found == occurs(chars@, word@),
{
    let pattern = chars_of(word);
    contains(chars, &pattern)
}

/// Tells whether `chars` is the text `word`.
fn is_word(chars: &Vec<char>, word: &str) -> (same: bool)
    ensures
        same == (chars@ == word@),
{
    let pattern = chars_of(word);
    let same = chars.len() == pattern.len() && matches_at(chars, &pattern, 0);
    proof {
        if chars.len() == pattern.len() {
            assert(chars@.subrange(0, pattern.len() as int) =~= chars@);
        }
    }
    same
}

/// Takes `opening` and every closing parenthesis out of `chars`.
fn fields_of(chars: &Vec<char>, opening: &str) -> (fields: Vec<char>)
    requires
        opening@.len() > 0,
    ensures
        fields@ == fields_text(chars@, opening@),
{
    let pattern = chars_of(opening);
    let rest = remove_all(chars, &pattern);
    remove_char(&rest, ')')
}

/// Reads a channel number from a field.
fn number_of(field: &Vec<char>) -> (number: Option<i32>)
    ensures
        match number {
            Some(n) => field_number(field@) == Some(n as int),
            None => field_number(field@) is None,
        },
{
    match parse_integer(field, true, -2147483648, 2147483647) {
        Some(n) => Some(n as i32),
        None => None,
    }
}

/// Reads the command that the fields of a `send` string stand for.
fn send_of(fields: &Vec<Vec<char>>) -> (outcome: Result<MotuCommand, String>)
    ensures
        is_outcome(outcome, parse_send(piece_views(fields@))),
{
    let ghost views = piece_views(fields@);
    let count = fields.len();
    if count < 2 || count >= 8 {
        return Err(String::from_str("Invalid send"));
    }
    let mut numbers: Vec<i32> = Vec::new();
    let mut i: usize = 0;
    while i < count
        invariant
            i <= count,
            count == fields.len(),
            views == piece_views(fields@),
            numbers.len() == i,
            forall|k: int|
                0 <= k < i ==> field_number(#[trigger] views[k]) == Some(numbers[k] as int),
        decreases count - i,
    {
        match number_of(&fields[i]) {
            Some(n) => {
                numbers.push(n);
            },
            None => {
                proof {
                    assert(field_number(views[i as int]) is None);
                }
                return Err(String::from_str("Invalid send"));
            },
        }
        i = i + 1;
    }
    let channel = Channel::new(numbers[0], ChannelType::Chan);
    if count == 2 {
        let aux_channel = Channel::new(numbers[1], ChannelType::Aux);
        Ok(MotuCommand::Send { channel, aux_channel, value: Level { micros: TEXT_SEND_MICROS } })
    } else {
        let mut aux_channels: Vec<Channel> = Vec::new();
        let mut k: usize = 1;
        while k < count
            invariant
                1 <= k <= count,
                count == numbers.len(),
                aux_channels.len() == k - 1,
                forall|j: int|
                    0 <= j < k - 1 ==> aux_channels[j] == channel_ref(
                        numbers[j + 1] as int,
                        ChannelType::Aux,
                    ),
            decreases count - k,
        {
            aux_channels.push(Channel::new(numbers[k], ChannelType::Aux));
            k = k + 1;
        }
        let command = MotuCommand::ToggleSend { channel, aux_channels, active_sends: 0 };
        proof {
            let expected = parse_send(views);
            assert(expected is Ok);
            assert(command@->ToggleSend_aux_channels =~= expected->Ok_0->ToggleSend_aux_channels);
        }
        Ok(command)
    }
}

impl MotuCommand {
    /// Reads a command from its text. A string that holds none of the keywords, or
    /// whose fields are not the numbers that its keyword asks for, is refused with a
    /// message that names the keyword.
    pub fn from_str(s: &str) -> (outcome: Result<MotuCommand, String>)
        ensures
            is_outcome(outcome, parse_command(s@)),
    {
        let chars = chars_of(s);
        proof {
            reveal_strlit("vol(");
            reveal_strlit("send(");
            reveal_strlit("unmute(");
            reveal_strlit("mute(");
            reveal_strlit("monitor(");
        }
        if holds(&chars, "vol") {
            match number_of(&fields_of(&chars, "vol(")) {
                Some(n) => Ok(
                    MotuCommand::Volume {
                        channel: Channel::new(n, ChannelType::Chan),
                        volume: Level { micros: TEXT_VOLUME_MICROS },
                    },
                ),
                None => Err(String::from_str("Invalid volume")),
            }
        } else if holds(&chars, "send") {
            let fields = split(&fields_of(&chars, "send("), ',');
            send_of(&fields)
        } else if holds(&chars, "unmute") {
            match number_of(&fields_of(&chars, "unmute(")) {
                Some(n) => Ok(MotuCommand::Unmute(Channel::new(n, ChannelType::Chan))),
                None => Err(String::from_str("Invalid unmute")),
            }
        } else if holds(&chars, "mute") {
            match number_of(&fields_of(&chars, "mute(")) {
                Some(n) => Ok(MotuCommand::Mute(Channel::new(n, ChannelType::Chan))),
                None => Err(String::from_str("Invalid mute")),
            }
        } else if holds(&chars, "monitor") {
            let state = fields_of(&chars, "monitor(");
            if is_word(&state, "on") {
                Ok(MotuCommand::EnableMonitoring)
            } else if is_word(&state, "off") {
                Ok(MotuCommand::DisableMonitoring)
            } else {
                Err(String::from_str("Invalid monitor"))
            }
        } else if holds(&chars, "print") {
            Ok(MotuCommand::PrintSettings)
        } else if holds(&chars, "init") {
            Ok(MotuCommand::Init)
        } else {
            Err(String::from_str("Invalid command"))
        }
    }
}

} // verus!

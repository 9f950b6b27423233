//! The mixer's command vocabulary and the wire form of each command.

use vstd::prelude::*;
use vstd::string::*;
use vstd::arithmetic::div_mod::{lemma_add_mod_noop, lemma_small_mod};
use vstd::arithmetic::power2::{lemma2_to64, lemma_pow2_pos, lemma_pow2_unfold, pow2};
use super::channel::{channel_text, kind_text, Channel, ChannelType};
use super::level::{level_text, push_level, Level};
use crate::text::{int_text, push_int};

verus! {

/// The most sends that one toggle command can cycle through: one per bit of its mask.
pub const MAX_AUX_CHANNELS: usize = 8;

/// One mixer operation.
#[derive(Debug, PartialEq, Eq, Clone)]
pub enum MotuCommand {
    /// Unmute every monitor group.
    EnableMonitoring,
    /// Mute every monitor group.
    DisableMonitoring,
    /// Show the channel topology; nothing is sent.
    PrintSettings,
    /// Set a channel's fader.
    Volume { channel: Channel, volume: Level },
    /// Set how much of a channel goes to an aux bus.
    Send { channel: Channel, aux_channel: Channel, value: Level },
    Mute(Channel),
    Unmute(Channel),
    /// Reset every fader, every send and every monitor group.
    Init,
    /// Switch a channel's sends to several aux buses on and off; bit `i` of
    /// `active_sends` is the state of `aux_channels[i]`.
    ToggleSend { channel: Channel, aux_channels: Vec<Channel>, active_sends: u8 },
}

/// A command as a mathematical value: levels in millionths, the aux list as a sequence.
pub ghost enum CommandView {
    EnableMonitoring,
    DisableMonitoring,
    PrintSettings,
    Volume { channel: Channel, volume: int },
    Send { channel: Channel, aux_channel: Channel, value: int },
    Mute(Channel),
    Unmute(Channel),
    Init,
    ToggleSend { channel: Channel, aux_channels: Seq<Channel>, active_sends: int },
}

impl View for MotuCommand {
    type V = CommandView;

    open spec fn view(&self) -> CommandView {
        match *self {
            MotuCommand::EnableMonitoring => CommandView::EnableMonitoring,
            MotuCommand::DisableMonitoring => CommandView::DisableMonitoring,
            MotuCommand::PrintSettings => CommandView::PrintSettings,
            MotuCommand::Volume { channel, volume } => CommandView::Volume {
                channel,
                volume: volume@,
            },
            MotuCommand::Send { channel, aux_channel, value } => CommandView::Send {
                channel,
                aux_channel,
                value: value@,
            },
            MotuCommand::Mute(channel) => CommandView::Mute(channel),
            MotuCommand::Unmute(channel) => CommandView::Unmute(channel),
            MotuCommand::Init => CommandView::Init,
            MotuCommand::ToggleSend { channel, aux_channels, active_sends } => {
                CommandView::ToggleSend {
                    channel,
                    aux_channels: aux_channels@,
                    active_sends: active_sends as int,
                }
            },
        }
    }
}

/// The start of every address of a channel, without the leading slash.
pub open spec fn matrix_path(channel: Channel) -> Seq<char> {
    "mix/"@ + kind_text(channel.channel_type) + "/"@ + int_text(channel.channel_number as int)
        + "/matrix/"@
}

/// The address that a command writes to, without the leading slash; `None` for the
/// commands that have no address of their own.
pub open spec fn address_path(command: CommandView) -> Option<Seq<char>> {
    match command {
        CommandView::Volume { channel, .. } => Some(matrix_path(channel) + "fader"@),
        CommandView::Send { channel, aux_channel, .. } => Some(
            matrix_path(channel) + "aux/"@ + int_text(aux_channel.channel_number as int)
                + "/send"@,
        ),
        CommandView::Mute(channel) => Some(matrix_path(channel) + "mute"@),
        CommandView::Unmute(channel) => Some(matrix_path(channel) + "mute"@),
        _ => None,
    }
}

/// The value that a command writes to its address.
pub open spec fn wire_value(command: CommandView) -> Seq<char> {
    match command {
        CommandView::Volume { volume, .. } => level_text(volume),
        CommandView::Send { value, .. } => level_text(value),
        CommandView::Mute(_) => "1"@,
        CommandView::Unmute(_) => "0"@,
        _ => Seq::empty(),
    }
}

/// The per-message form of a command: its address and its value.
pub open spec fn osc_projection(command: CommandView) -> Option<(Seq<char>, Seq<char>)> {
    match address_path(command) {
        Some(path) => Some(("/"@ + path, wire_value(command))),
        None => None,
    }
}

/// The bulk form of a command: its address without the leading slash, in double
/// quotes, then a colon and its value.
pub open spec fn bulk_fragment(command: CommandView) -> Option<Seq<char>> {
    match address_path(command) {
        Some(path) => Some("\""@ + path + "\":"@ + wire_value(command)),
        None => None,
    }
}

/// The commands of a list as mathematical values.
pub open spec fn command_views(commands: Seq<MotuCommand>) -> Seq<CommandView> {
    Seq::new(commands.len(), |i: int| commands[i]@)
}

/// Whether a command can be sent as it is, without being expanded first.
pub open spec fn is_primitive(command: CommandView) -> bool {
    command is Volume || command is Send || command is Mute || command is Unmute
}

/// Exactly the fader, send, mute and unmute commands have a wire form, in both transports.
pub proof fn lemma_projection_total(command: CommandView)
    ensures
        osc_projection(command) is Some <==> is_primitive(command),
        bulk_fragment(command) is Some <==> is_primitive(command),
        osc_projection(command) is None <==> (command is EnableMonitoring
            || command is DisableMonitoring || command is PrintSettings || command is Init
            || command is ToggleSend),
{
}

/// The number of mask states that a toggle over `count` sends cycles through: two
/// to the power `count`, and no more than the 256 states of the eight-bit mask.
pub open spec fn toggle_modulus(count: nat) -> nat {
    if count < 8 {
        pow2(count)
    } else {
        256
    }
}

/// The mask after one toggle: the next state of the cycle through all on/off
/// combinations of `count` sends.
pub open spec fn next_mask(mask: int, count: nat) -> int {
    (mask + 1) % (toggle_modulus(count) as int)
}

/// The mask after `times` toggles.
pub open spec fn toggled(mask: int, count: nat, times: nat) -> int
    decreases times,
{
    if times == 0 {
        mask
    } else {
        next_mask(toggled(mask, count, (times - 1) as nat), count)
    }
}

/// Toggling counts the mask up and wraps it around: after `times` toggles the mask
/// has advanced by `times`, modulo the number of on/off combinations.
pub proof fn lemma_toggle_advances(mask: int, count: nat, times: nat)
    requires
        0 <= mask,
        times >= 1,
    ensures
        toggled(mask, count, times) == (mask + times) % (toggle_modulus(count) as int),
    decreases times,
{
    let m = toggle_modulus(count) as int;
    lemma_pow2_pos(count);
    reveal_with_fuel(toggled, 2);
    if times > 1 {
        lemma_toggle_advances(mask, count, (times - 1) as nat);
        let earlier = mask + times - 1;
        assert(toggled(mask, count, times) == (earlier % m + 1) % m);
        if m > 1 {
            lemma_add_mod_noop(earlier, 1, m);
            lemma_small_mod(1, m as nat);
        } else {
            assert((earlier % 1 + 1) % 1 == 0 && (earlier + 1) % 1 == 0);
        }
    }
}

/// A mask that names a combination comes back to itself after as many toggles as
/// there are combinations.
pub proof fn lemma_toggle_cycle(mask: int, count: nat)
    requires
        0 <= mask < toggle_modulus(count),
    ensures
        toggled(mask, count, toggle_modulus(count)) == mask,
{
    let m = toggle_modulus(count) as int;
    lemma_toggle_advances(mask, count, toggle_modulus(count));
    lemma_add_mod_noop(mask, m, m);
    lemma_small_mod(mask as nat, m as nat);
    assert(m % m == 0) by (nonlinear_arith)
        requires
            m > 0,
    ;
}

/// The state of send `i` in `mask`.
pub open spec fn mask_bit(mask: int, i: nat) -> bool {
    (mask / (pow2(i) as int)) % 2 == 1
}

/// The command with its scalar replaced by `level`; a toggle command takes its
/// next mask state instead.
pub open spec fn with_level(command: CommandView, level: int) -> CommandView {
    match command {
        CommandView::Volume { channel, .. } => CommandView::Volume { channel, volume: level },
        CommandView::Send { channel, aux_channel, .. } => CommandView::Send {
            channel,
            aux_channel,
            value: level,
        },
        CommandView::ToggleSend { channel, aux_channels, active_sends } => {
            CommandView::ToggleSend {
                channel,
                aux_channels,
                active_sends: next_mask(active_sends, aux_channels.len()),
            }
        },
        _ => command,
    }
}

/// Computes two to the power `n`.
pub fn power_of_two(n: usize) -> (power: u16)
    requires
        n <= 8,
    ensures
        power == pow2(n as nat),
        1 <= power <= 256,
{
    let mut power: u16 = 1;
    let mut i: usize = 0;
    proof {
        lemma2_to64();
    }
    while i < n
        invariant
            i <= n <= 8,
            power == pow2(i as nat),
            1 <= power,
            i < 8 ==> power <= 128,
            i == 8 ==> power == 256,
        decreases n - i,
    {
        proof {
            lemma_pow2_unfold((i + 1) as nat);
            lemma2_to64();
        }
        power = power * 2;
        i = i + 1;
    }
    power
}

/// Reads the state of send `i` from `mask`.
pub fn send_is_active(mask: u8, i: usize) -> (active: bool)
    ensures
        active == mask_bit(mask as int, i as nat),
{
    if i >= 8 {
        proof {
            lemma_pow2_large(i as nat);
            assert(mask as int / (pow2(i as nat) as int) == 0) by (nonlinear_arith)
                requires
                    0 <= mask < 256,
                    pow2(i as nat) >= 256,
            ;
        }
        false
    } else {
        let divisor: u16 = power_of_two(i);
        (mask as u16 / divisor) % 2 == 1
    }
}

/// From the eighth power on, the powers of two are at least 256.
pub proof fn lemma_pow2_large(i: nat)
    requires
        i >= 8,
    ensures
        pow2(i) >= 256,
    decreases i,
{
    lemma2_to64();
    if i > 8 {
        lemma_pow2_large((i - 1) as nat);
        lemma_pow2_unfold(i);
    }
}

/// The name of a tier as a debug dump writes it.
pub open spec fn kind_dump(kind: ChannelType) -> Seq<char> {
    match kind {
        ChannelType::Aux => "Aux"@,
        ChannelType::Chan => "Chan"@,
        ChannelType::Group => "Group"@,
    }
}

/// One channel reference in an indented dump of a list: four lines, each ended by a newline.
pub open spec fn channel_dump(channel: Channel) -> Seq<char> {
    "    Channel {\n        channel_number: "@ + int_text(channel.channel_number as int)
        + ",\n        channel_type: "@ + kind_dump(channel.channel_type) + ",\n    },\n"@
}

/// The dumps of the channel references of a list, one after the other.
pub open spec fn channel_dumps(channels: Seq<Channel>) -> Seq<char>
    decreases channels.len(),
{
    if channels.len() == 0 {
        Seq::empty()
    } else {
        channel_dumps(channels.drop_last()) + channel_dump(channels.last())
    }
}

/// The indented dump of a list of channel references; `[]` for the empty list.
pub open spec fn channel_list_dump(channels: Seq<Channel>) -> Seq<char> {
    if channels.len() == 0 {
        "[]"@
    } else {
        "[\n"@ + channel_dumps(channels) + "]"@
    }
}

/// The display text of a command.
pub open spec fn command_text(command: CommandView) -> Seq<char> {
    match command {
        CommandView::EnableMonitoring => "EnableMonitoring"@,
        CommandView::DisableMonitoring => "DisableMonitoring"@,
        CommandView::PrintSettings => "PrintSettings"@,
        CommandView::Volume { channel, volume } => "Volume: "@ + channel_text(channel) + " "@
            + level_text(volume),
        CommandView::Send { channel, aux_channel, value } => "Send: "@ + channel_text(channel)
            + " "@ + channel_text(aux_channel) + " "@ + level_text(value),
        CommandView::Mute(channel) => "Mute: "@ + channel_text(channel),
        CommandView::Unmute(channel) => "Unmute: "@ + channel_text(channel),
        CommandView::Init => "Init"@,
        CommandView::ToggleSend { channel, aux_channels, active_sends } => "Send: "@
            + channel_text(channel) + " "@ + channel_list_dump(aux_channels) + " "@ + int_text(
            active_sends,
        ),
    }
}

/// Appends the indented dump of a list of channel references.
fn push_channel_list(out: &mut String, channels: &Vec<Channel>)
    ensures
        final(out)@ == old(out)@ + channel_list_dump(channels@),
{
    if channels.len() == 0 {
        out.append("[]");
        return ;
    }
    out.append("[\n");
    let ghost start = out@;
    let mut i: usize = 0;
    assert(start + channel_dumps(channels@.take(0)) =~= start);
    while i < channels.len()
        invariant
            i <= channels.len(),
            out@ == start + channel_dumps(channels@.take(i as int)),
        decreases channels.len() - i,
    {
        let ghost before = out@;
        let channel = channels[i];
        out.append("    Channel {\n        channel_number: ");
        push_int(out, channel.channel_number as i64);
        out.append(",\n        channel_type: ");
        match channel.channel_type {
            ChannelType::Aux => {
                out.append("Aux");
            },
            ChannelType::Chan => {
                out.append("Chan");
            },
            ChannelType::Group => {
                out.append("Group");
            },
        }
        out.append(",\n    },\n");
        proof {
            assert(channels@.take(i + 1).drop_last() =~= channels@.take(i as int));
            assert(channels@.take(i + 1).last() == channel);
            assert(out@ =~= before + channel_dump(channel));
            assert(out@ =~= start + (channel_dumps(channels@.take(i as int)) + channel_dump(
                channel,
            )));
        }
        i = i + 1;
    }
    out.append("]");
    proof {
        assert(channels@.take(i as int) =~= channels@);
        assert(out@ =~= old(out)@ + ("[\n"@ + channel_dumps(channels@) + "]"@));
    }
}

impl MotuCommand {
    /// A copy of the command.
    pub fn copy(&self) -> (command: MotuCommand)
        ensures
            command@ == self@,
    {
        match self {
            MotuCommand::EnableMonitoring => MotuCommand::EnableMonitoring,
            MotuCommand::DisableMonitoring => MotuCommand::DisableMonitoring,
            MotuCommand::PrintSettings => MotuCommand::PrintSettings,
            MotuCommand::Volume { channel, volume } => MotuCommand::Volume {
                channel: *channel,
                volume: *volume,
            },
            MotuCommand::Send { channel, aux_channel, value } => MotuCommand::Send {
                channel: *channel,
                aux_channel: *aux_channel,
                value: *value,
            },
            MotuCommand::Mute(channel) => MotuCommand::Mute(*channel),
            MotuCommand::Unmute(channel) => MotuCommand::Unmute(*channel),
            MotuCommand::Init => MotuCommand::Init,
            MotuCommand::ToggleSend { channel, aux_channels, active_sends } => {
                let mut copied: Vec<Channel> = Vec::new();
                let mut i: usize = 0;
                while i < aux_channels.len()
                    invariant
                        i <= aux_channels.len(),
                        copied@ == aux_channels@.take(i as int),
                    decreases aux_channels.len() - i,
                {
                    copied.push(aux_channels[i]);
                    assert(copied@ =~= aux_channels@.take(i + 1));
                    i = i + 1;
                }
                assert(aux_channels@.take(i as int) =~= aux_channels@);
                MotuCommand::ToggleSend {
                    channel: *channel,
                    aux_channels: copied,
                    active_sends: *active_sends,
                }
            },
        }
    }

    /// The display text of the command.
    pub fn to_string(&self) -> (text: String)
        ensures
            text@ == command_text(self@),
    {
        match self {
            MotuCommand::EnableMonitoring => String::from_str("EnableMonitoring"),
            MotuCommand::DisableMonitoring => String::from_str("DisableMonitoring"),
            MotuCommand::PrintSettings => String::from_str("PrintSettings"),
            MotuCommand::Init => String::from_str("Init"),
            MotuCommand::Volume { channel, volume } => {
                let mut text = String::from_str("Volume: ");
                text.append(channel.to_string().as_str());
                text.append(" ");
                push_level(&mut text, *volume);
                text
            },
            MotuCommand::Send { channel, aux_channel, value } => {
                let mut text = String::from_str("Send: ");
                text.append(channel.to_string().as_str());
                text.append(" ");
                text.append(aux_channel.to_string().as_str());
                text.append(" ");
                push_level(&mut text, *value);
                text
            },
            MotuCommand::Mute(channel) => {
                let mut text = String::from_str("Mute: ");
                text.append(channel.to_string().as_str());
                text
            },
            MotuCommand::Unmute(channel) => {
                let mut text = String::from_str("Unmute: ");
                text.append(channel.to_string().as_str());
                text
            },
            MotuCommand::ToggleSend { channel, aux_channels, active_sends } => {
                let mut text = String::from_str("Send: ");
                text.append(channel.to_string().as_str());
                text.append(" ");
                push_channel_list(&mut text, aux_channels);
                text.append(" ");
                push_int(&mut text, *active_sends as i64);
                text
            },
        }
    }

    /// The address of the command without its leading slash, for the commands that have one.
    fn path(&self) -> (path: Option<String>)
        ensures
            path is Some <==> address_path(self@) is Some,
            path matches Some(p) ==> Some(p@) == address_path(self@),
    {
        let channel = match self {
            MotuCommand::Volume { channel, .. } => *channel,
            MotuCommand::Send { channel, .. } => *channel,
            MotuCommand::Mute(channel) => *channel,
            MotuCommand::Unmute(channel) => *channel,
            _ => {
                return None;
            },
        };
        let mut path = String::from_str("mix/");
        path.append(channel.channel_type.name());
        path.append("/");
        push_int(&mut path, channel.channel_number as i64);
        path.append("/matrix/");
        match self {
            MotuCommand::Volume { .. } => {
                path.append("fader");
            },
            MotuCommand::Send { aux_channel, .. } => {
                path.append("aux/");
                push_int(&mut path, aux_channel.channel_number as i64);
                path.append("/send");
            },
            _ => {
                path.append("mute");
            },
        }
        Some(path)
    }

    /// Appends the value that the command writes to its address.
    fn push_value(&self, out: &mut String)
        ensures
            final(out)@ == old(out)@ + wire_value(self@),
    {
        match self {
            MotuCommand::Volume { volume, .. } => {
                push_level(out, *volume);
            },
            MotuCommand::Send { value, .. } => {
                push_level(out, *value);
            },
            MotuCommand::Mute(_) => {
                out.append("1");
            },
            MotuCommand::Unmute(_) => {
                out.append("0");
            },
            _ => {
                assert(old(out)@ + Seq::<char>::empty() =~= old(out)@);
            },
        }
    }

    /// The bulk form of the command: `"<address without leading slash>":<value>`.
    /// `None` for the commands that must be expanded before they can be sent.
    pub fn http_command(&self) -> (fragment: Option<String>)
        ensures
            fragment is Some <==> is_primitive(self@),
            match fragment {
                Some(text) => Some(text@) == bulk_fragment(self@),
                None => bulk_fragment(self@) is None,
            },
    {
        match self.path() {
            Some(path) => {
                let mut text = String::from_str("\"");
                text.append(path.as_str());
                text.append("\":");
                self.push_value(&mut text);
                Some(text)
            },
            None => None,
        }
    }

    /// The per-message form of the command: its address and its value.
    /// `None` for the commands that must be expanded before they can be sent.
    pub fn osc_command(&self) -> (message: Option<(String, String)>)
        ensures
            message is Some <==> is_primitive(self@),
            match message {
                Some((address, value)) => Some((address@, value@)) == osc_projection(self@),
                None => osc_projection(self@) is None,
            },
    {
        match self.path() {
            Some(path) => {
                let mut address = String::from_str("/");
                address.append(path.as_str());
                let mut value = String::new();
                self.push_value(&mut value);
                assert(Seq::<char>::empty() + wire_value(self@) =~= wire_value(self@));
                Some((address, value))
            },
            None => None,
        }
    }

    /// Replaces the command's level by `new_value`. A toggle command ignores the
    /// value and moves to its next mask state; a command without a scalar stays as it is.
    pub fn set_value(&mut self, new_value: Level)
        ensures
            final(self)@ == with_level(old(self)@, new_value@),
    {
        match self {
            MotuCommand::Volume { volume, .. } => {
                *volume = new_value;
            },
            MotuCommand::Send { value, .. } => {
                *value = new_value;
            },
            MotuCommand::ToggleSend { aux_channels, active_sends, .. } => {
                let count = aux_channels.len();
                if count >= 8 {
                    *active_sends = if *active_sends == 255 {
                        0
                    } else {
                        *active_sends + 1
                    };
                } else {
                    let modulus: u16 = power_of_two(count);
                    *active_sends = ((*active_sends as u16 + 1) % modulus) as u8;
                }
            },
            _ => {},
        }
    }
}

} // verus!

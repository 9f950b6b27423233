//! Network endpoints in text form, and the commands that the program's options ask for.

use vstd::prelude::*;
use vstd::string::*;
use crate::motu::channel::{Channel, ChannelType};
use crate::motu::level::Level;
use crate::motu::motucommand::{command_views, CommandView, MotuCommand};
use crate::text::{
    chars_of, decimal_digits, integer_in_range, parse_integer, piece_views, push_decimal, split,
    split_on,
};

verus! {

/// The port that an endpoint has where its text names none.
pub const DEFAULT_PORT: u16 = 8000;

/// An IPv4 address.
#[derive(Debug, Clone, Copy, PartialEq, Eq)]
pub struct IpAddress {
    octets: [u8; 4],
}

/// An IPv4 address and a port.
#[derive(Debug, Clone, Copy, PartialEq, Eq)]
pub struct IpEndpoint {
    pub address: IpAddress,
    pub port: u16,
}

/// The number that one dotted field of an address writes, if it is an octet.
pub open spec fn octet_value(field: Seq<char>) -> Option<int> {
    integer_in_range(field, false, 0, 255)
}

/// The four octets that a dotted address writes, if it writes four.
pub open spec fn address_value(s: Seq<char>) -> Option<Seq<u8>> {
    let fields = split_on(s, '.');
    if fields.len() == 4 && (forall|i: int|
        0 <= i < 4 ==> octet_value(#[trigger] fields[i]) is Some) {
        Some(Seq::new(4, |i: int| octet_value(fields[i])->0 as u8))
    } else {
        None
    }
}

/// The address and port that an endpoint text writes, or what is wrong with it.
/// The port is optional and follows the address after a colon.
pub open spec fn endpoint_value(s: Seq<char>) -> Result<(Seq<u8>, int), Seq<char>> {
    let parts = split_on(s, ':');
    if parts.len() > 2 {
        Err("Invalid IP endpoint format"@)
    } else {
        match address_value(parts[0]) {
            None => Err("Invalid IP address format"@),
            Some(octets) => if parts.len() == 2 {
                match integer_in_range(parts[1], false, 0, 65535) {
                    Some(port) => Ok((octets, port)),
                    None => Err("Invalid port number format"@),
                }
            } else {
                Ok((octets, 8000))
            },
        }
    }
}

/// The dotted text of four octets.
pub open spec fn address_text(octets: Seq<u8>) -> Seq<char> {
    decimal_digits(octets[0] as nat) + "."@ + decimal_digits(octets[1] as nat) + "."@
        + decimal_digits(octets[2] as nat) + "."@ + decimal_digits(octets[3] as nat)
}

/// The text of an endpoint: the dotted address, a colon and the port.
pub open spec fn endpoint_text(octets: Seq<u8>, port: int) -> Seq<char> {
    address_text(octets) + ":"@ + decimal_digits(port as nat)
}

impl View for IpAddress {
    type V = Seq<u8>;

    /// The four octets of the address.
    closed spec fn view(&self) -> Seq<u8> {
        self.octets@
    }
}

/// Reads the four octets of a dotted address.
fn octets_of(chars: &Vec<char>) -> (address: Option<IpAddress>)
    ensures
        match address {
            Some(a) => address_value(chars@) == Some(a@),
            None => address_value(chars@) is None,
        },
{
    let fields = split(chars, '.');
    let ghost views = piece_views(fields@);
    if fields.len() != 4 {
        return None;
    }
    let mut octets: Vec<u8> = Vec::new();
    let mut i: usize = 0;
    while i < 4
        invariant
            i <= 4,
            fields.len() == 4,
            views == piece_views(fields@),
            views == split_on(chars@, '.'),
            octets.len() == i,
            forall|k: int|
                0 <= k < i ==> octet_value(#[trigger] views[k]) == Some(octets[k] as int),
        decreases 4 - i,
    {
        match parse_integer(&fields[i], false, 0, 255) {
            Some(v) => {
                octets.push(v as u8);
            },
            None => {
                proof {
                    assert(octet_value(views[i as int]) is None);
                }
                return None;
            },
        }
        i = i + 1;
    }
    let address = IpAddress { octets: [octets[0], octets[1], octets[2], octets[3]] };
    proof {
        assert(address@ =~= address_value(chars@)->0);
    }
    Some(address)
}

/// Reads an endpoint from its characters.
fn endpoint_of(chars: &Vec<char>) -> (endpoint: Result<IpEndpoint, String>)
    ensures
        match endpoint {
            Ok(e) => endpoint_value(chars@) == Ok::<(Seq<u8>, int), Seq<char>>(
                (e.address@, e.port as int),
            ),
            Err(message) => endpoint_value(chars@) == Err::<(Seq<u8>, int), Seq<char>>(message@),
        },
{
    let parts = split(chars, ':');
    let ghost views = piece_views(parts@);
    if parts.len() > 2 {
        return Err(String::from_str("Invalid IP endpoint format"));
    }
    let address = match octets_of(&parts[0]) {
        Some(address) => address,
        None => {
            return Err(String::from_str("Invalid IP address format"));
        },
    };
    if parts.len() == 2 {
        match parse_integer(&parts[1], false, 0, 65535) {
            Some(port) => Ok(IpEndpoint { address, port: port as u16 }),
            None => Err(String::from_str("Invalid port number format")),
        }
    } else {
        Ok(IpEndpoint { address, port: DEFAULT_PORT })
    }
}

impl IpAddress {
    /// The address `0.0.0.0`.
    pub fn unspecified() -> (address: IpAddress)
        ensures
            address@ == seq![0u8, 0u8, 0u8, 0u8],
    {
        let address = IpAddress { octets: [0, 0, 0, 0] };
        assert(address@ =~= seq![0u8, 0u8, 0u8, 0u8]);
        address
    }

    /// Reads a dotted address: four fields between dots, each a number up to 255.
    pub fn from_str(s: &str) -> (address: Result<IpAddress, String>)
        ensures
            match address {
                Ok(a) => address_value(s@) == Some(a@),
                Err(message) => address_value(s@) is None && message@
                    == "Invalid IP address format"@,
            },
    {
        match octets_of(&chars_of(s)) {
            Some(address) => Ok(address),
            None => Err(String::from_str("Invalid IP address format")),
        }
    }

    /// Reads a dotted address; text that is none gives `0.0.0.0`.
    pub fn from(ip: &str) -> (address: IpAddress)
        ensures
            address@ == match address_value(ip@) {
                Some(octets) => octets,
                None => seq![0u8, 0u8, 0u8, 0u8],
            },
    {
        match octets_of(&chars_of(ip)) {
            Some(address) => address,
            None => IpAddress::unspecified(),
        }
    }

    /// The dotted text of the address.
    pub fn to_string(&self) -> (text: String)
        ensures
            text@ == address_text(self@),
    {
        let mut text = String::new();
        push_decimal(&mut text, self.octets[0] as u64);
        text.append(".");
        push_decimal(&mut text, self.octets[1] as u64);
        text.append(".");
        push_decimal(&mut text, self.octets[2] as u64);
        text.append(".");
        push_decimal(&mut text, self.octets[3] as u64);
        assert(text@ =~= address_text(self@));
        text
    }
}

impl IpEndpoint {
    /// Reads an endpoint from text that writes one.
    pub fn new(address: String) -> (endpoint: IpEndpoint)
        requires
            endpoint_value(address@) is Ok,
        ensures
            endpoint_value(address@) == Ok::<(Seq<u8>, int), Seq<char>>(
                (endpoint.address@, endpoint.port as int),
            ),
    {
        match endpoint_of(&chars_of(address.as_str())) {
            Ok(endpoint) => endpoint,
            Err(_) => IpEndpoint { address: IpAddress::unspecified(), port: DEFAULT_PORT },
        }
    }

    /// Reads an endpoint: a dotted address, and after a colon a port up to 65535.
    /// Without a port the endpoint has port 8000.
    pub fn from_str(s: &str) -> (endpoint: Result<IpEndpoint, String>)
        ensures
            match endpoint {
                Ok(e) => endpoint_value(s@) == Ok::<(Seq<u8>, int), Seq<char>>(
                    (e.address@, e.port as int),
                ),
                Err(message) => endpoint_value(s@) == Err::<(Seq<u8>, int), Seq<char>>(message@),
            },
    {
        endpoint_of(&chars_of(s))
    }

    /// Reads an endpoint; text that writes none gives `0.0.0.0:8000`.
    pub fn from(ip: &str) -> (endpoint: IpEndpoint)
        ensures
            (endpoint.address@, endpoint.port as int) == match endpoint_value(ip@) {
                Ok(value) => value,
                Err(_) => (seq![0u8, 0u8, 0u8, 0u8], 8000int),
            },
    {
        match endpoint_of(&chars_of(ip)) {
            Ok(endpoint) => endpoint,
            Err(_) => IpEndpoint { address: IpAddress::unspecified(), port: DEFAULT_PORT },
        }
    }

    /// The text of the endpoint: the dotted address, a colon and the port.
    pub fn to_string(&self) -> (text: String)
        ensures
            text@ == endpoint_text(self.address@, self.port as int),
    {
        let mut text = self.address.to_string();
        text.append(":");
        push_decimal(&mut text, self.port as u64);
        text
    }
}

impl Default for IpAddress {
    /// The address `0.0.0.0`.
    fn default() -> (address: IpAddress)
        ensures
            address@ == seq![0u8, 0u8, 0u8, 0u8],
    {
        IpAddress::unspecified()
    }
}

impl Default for IpEndpoint {
    /// The endpoint `0.0.0.0:0`.
    fn default() -> (endpoint: IpEndpoint)
        ensures
            endpoint.address@ == seq![0u8, 0u8, 0u8, 0u8],
            endpoint.port == 0,
    {
        IpEndpoint { address: IpAddress::unspecified(), port: 0 }
    }
}

/// The options that the program is started with.
#[derive(Debug)]
pub struct Args {
    /// The path of the configuration file.
    pub config: String,
    /// Switch monitoring on or off.
    pub monitor: Option<bool>,
    /// The channel that `volume` and `send_amount` are about.
    pub channel: Option<i32>,
    /// The fader level to set on `channel`.
    pub volume: Option<Level>,
    /// The mixer's endpoint, in place of the configured one.
    pub ip_address: Option<IpEndpoint>,
    pub port: Option<u16>,
    /// Show the channel topology.
    pub list_channels: bool,
    /// The aux bus that `channel` is sent to.
    pub aux_channel: Option<i32>,
    /// The level of the send from `channel` to `aux_channel`; 0 where none is given.
    pub send_amount: Option<Level>,
    /// Reset the mixer first.
    pub init: bool,
    pub verbose: bool,
}

/// The commands that the options ask for, in the order in which they are run: the
/// reset, the monitoring switch, the send, the fader, the topology dump.
pub open spec fn requested_commands(
    init: bool,
    monitor: Option<bool>,
    channel: Option<i32>,
    aux_channel: Option<i32>,
    send_amount: Option<Level>,
    volume: Option<Level>,
    list_channels: bool,
) -> Seq<CommandView> {
    (if init {
        seq![CommandView::Init]
    } else {
        Seq::empty()
    }) + (match monitor {
        Some(true) => seq![CommandView::EnableMonitoring],
        Some(false) => seq![CommandView::DisableMonitoring],
        None => Seq::empty(),
    }) + (match (channel, aux_channel) {
        (Some(c), Some(a)) => seq![
            CommandView::Send {
                channel: Channel { channel_number: c, channel_type: ChannelType::Chan },
                aux_channel: Channel { channel_number: a, channel_type: ChannelType::Aux },
                value: match send_amount {
                    Some(amount) => amount@,
                    None => 0,
                },
            },
        ],
        _ => Seq::empty(),
    }) + (match (channel, volume) {
        (Some(c), Some(v)) => seq![
            CommandView::Volume {
                channel: Channel { channel_number: c, channel_type: ChannelType::Chan },
                volume: v@,
            },
        ],
        _ => Seq::empty(),
    }) + (if list_channels {
        seq![CommandView::PrintSettings]
    } else {
        Seq::empty()
    })
}

impl Args {
    /// The path of the configuration file.
    pub fn config_file_name(&self) -> (name: String)
        ensures
            name@ == self.config@,
    {
        self.config.clone()
    }

    /// The commands that the options ask for, in the order in which they are run.
    pub fn motu_commands(&self) -> (commands: Vec<MotuCommand>)
        ensures
            command_views(commands@) == requested_commands(
                self.init,
                self.monitor,
                self.channel,
                self.aux_channel,
                self.send_amount,
                self.volume,
                self.list_channels,
            ),
    {
        let mut motu_commands: Vec<MotuCommand> = Vec::new();
        if self.init {
            motu_commands.push(MotuCommand::Init);
        }
        match self.monitor {
            Some(true) => {
                motu_commands.push(MotuCommand::EnableMonitoring);
            },
            Some(false) => {
                motu_commands.push(MotuCommand::DisableMonitoring);
            },
            None => {},
        }
        match (self.channel, self.aux_channel) {
            (Some(channel), Some(send_to_channel)) => {
                let value = match self.send_amount {
                    Some(amount) => amount,
                    None => Level::zero(),
                };
                motu_commands.push(
                    MotuCommand::Send {
                        channel: Channel::new(channel, ChannelType::Chan),
                        aux_channel: Channel::new(send_to_channel, ChannelType::Aux),
                        value,
                    },
                );
            },
            _ => {},
        }
        match (self.channel, self.volume) {
            (Some(channel), Some(volume)) => {
                motu_commands.push(
                    MotuCommand::Volume {
                        channel: Channel::new(channel, ChannelType::Chan),
                        volume,
                    },
                );
            },
            _ => {},
        }
        if self.list_channels {
            motu_commands.push(MotuCommand::PrintSettings);
        }
        assert(command_views(motu_commands@) =~= requested_commands(
            self.init,
            self.monitor,
            self.channel,
            self.aux_channel,
            self.send_amount,
            self.volume,
            self.list_channels,
        ));
        motu_commands
    }
}

} // verus!

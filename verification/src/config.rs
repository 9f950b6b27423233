//! The configuration that the bridge is started with.

use vstd::prelude::*;
use crate::args::IpEndpoint;
use crate::motu::motucommand::MotuCommand;
use crate::motu::topology::ChannelNames;

verus! {

/// A mixer operation as a control mapping may name it.
#[derive(Debug)]
pub enum MidiCommand {
    Vol(usize),
    Send(usize, usize),
    Init,
    MonitorOn,
    MonitorOff,
}

/// The control surface to listen to.
#[derive(Debug, Clone)]
pub struct MidiConfig {
    /// A part of the input device's name.
    pub input: String,
    pub output: String,
    /// The surface's channel, from 1 to 16.
    pub midi_channel: u8,
}

/// Where the mixer is reached.
#[derive(Debug)]
pub struct NetworkConfig {
    pub ip_address: IpEndpoint,
}

/// The whole configuration: the mixer's endpoint, the channel topology and the
/// commands bound to the controls of the surface.
#[derive(Debug)]
pub struct Config {
    /// The endpoint in use: the one given at start, or else the configured one.
    pub ip_address: IpEndpoint,
    pub network: NetworkConfig,
    pub aux_channels: ChannelNames,
    pub channels: ChannelNames,
    pub monitor_groups: ChannelNames,
    pub midi_config: Option<MidiConfig>,
    /// The command of each bound controller number.
    pub midi_mapping_cc: Vec<(usize, MotuCommand)>,
    /// The command of each bound note, when it is pressed.
    pub midi_mapping_note_on: Vec<(usize, MotuCommand)>,
    /// The command of each bound note, when it is released.
    pub midi_mapping_note_off: Vec<(usize, MotuCommand)>,
}

impl Config {
    /// Settles the endpoint in use: `arg_ip` where one is given, else the endpoint
    /// that the configuration names. Nothing else changes.
    pub fn build(config: Config, arg_ip: Option<IpEndpoint>) -> (built: Config)
        ensures
            built.ip_address == match arg_ip {
                Some(ip) => ip,
                None => config.network.ip_address,
            },
            built.network == config.network,
            built.aux_channels == config.aux_channels,
            built.channels == config.channels,
            built.monitor_groups == config.monitor_groups,
            built.midi_config == config.midi_config,
            built.midi_mapping_cc == config.midi_mapping_cc,
            built.midi_mapping_note_on == config.midi_mapping_note_on,
            built.midi_mapping_note_off == config.midi_mapping_note_off,
    {
        let mut config = config;
        config.ip_address = match arg_ip {
            Some(ip) => ip,
            None => config.network.ip_address,
        };
        config
    }
}

} // verus!

//! Typed references to addressable mixer objects.

use vstd::prelude::*;
use vstd::string::*;
use crate::text::{int_text, push_int};

verus! {

/// The three tiers of the mixer's channel topology.
#[derive(Debug, PartialEq, Eq, Clone, Copy, Structural)]
pub enum ChannelType {
    Aux,
    Chan,
    Group,
}

/// One addressable mixer object: a tier and an index within it.
#[derive(Debug, PartialEq, Eq, Clone, Copy, Structural)]
pub struct Channel {
    pub channel_number: i32,
    pub channel_type: ChannelType,
}

/// The name of a tier as it appears in addresses and in display text.
pub open spec fn kind_text(kind: ChannelType) -> Seq<char> {
    match kind {
        ChannelType::Aux => "aux"@,
        ChannelType::Chan => "chan"@,
        ChannelType::Group => "group"@,
    }
}

/// The display text of a channel reference: the tier's name, then the index in parentheses.
pub open spec fn channel_text(channel: Channel) -> Seq<char> {
    kind_text(channel.channel_type) + "("@ + int_text(channel.channel_number as int) + ")"@
}

impl ChannelType {
    /// The name of the tier.
    pub fn name(&self) -> (name: &'static str)
        ensures
            name@ == kind_text(*self),
    {
        match self {
            ChannelType::Aux => "aux",
            ChannelType::Chan => "chan",
            ChannelType::Group => "group",
        }
    }

    /// The display text of the tier: its name.
    pub fn to_string(&self) -> (text: String)
        ensures
            text@ == kind_text(*self),
    {
        String::from_str(self.name())
    }
}

impl Channel {
    /// The reference to the channel of tier `channel_type` with the index `arg`.
    pub fn new(arg: i32, channel_type: ChannelType) -> (channel: Channel)
        ensures
            channel == (Channel { channel_number: arg, channel_type }),
    {
        Channel { channel_number: arg, channel_type }
    }

    /// The index of the channel within its tier.
    pub fn channel_number(&self) -> (number: i32)
        ensures
            number == self.channel_number,
    {
        self.channel_number
    }

    /// The tier of the channel.
    pub fn channel_type(&self) -> (kind: &ChannelType)
        ensures
            *kind == self.channel_type,
    {
        &self.channel_type
    }

    /// The display text of the reference, such as `chan(3)`.
    pub fn to_string(&self) -> (text: String)
        ensures
            text@ == channel_text(*self),
    {
        let mut text = String::from_str(self.channel_type.name());
        text.append("(");
        push_int(&mut text, self.channel_number as i64);
        text.append(")");
        text
    }
}

} // verus!

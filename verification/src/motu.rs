//! The mixer: expansion of commands over the channel topology, and the choice of
//! transport for a run of commands.

pub mod channel;
pub mod grammar;
pub mod level;
pub mod motucommand;
pub mod topology;

use vstd::prelude::*;
use vstd::string::*;
use crate::config::Config;
use crate::text::{decimal_digits, push_decimal};
use self::channel::{Channel, ChannelType};
use self::level::Level;
use self::motucommand::{
    bulk_fragment, command_views, is_primitive, mask_bit, osc_projection, send_is_active,
    CommandView, MotuCommand,
};
use self::topology::ChannelNames;

verus! {

/// The number of wire commands from which a run goes out as one bulk request.
pub const BATCH_THRESHOLD: usize = 10;

/// The indices of the three tiers of the topology, each in ascending order.
pub ghost struct Topology {
    pub channels: Seq<usize>,
    pub aux_channels: Seq<usize>,
    pub monitor_groups: Seq<usize>,
}

/// The reference to the channel of tier `kind` at `index`.
pub open spec fn indexed(index: usize, kind: ChannelType) -> Channel {
    Channel { channel_number: index as i32, channel_type: kind }
}

/// One command per monitor group, in the order of `groups`: a mute where `mute`
/// holds, else an unmute.
pub open spec fn group_commands(groups: Seq<usize>, mute: bool) -> Seq<CommandView> {
    Seq::new(
        groups.len(),
        |i: int|
            if mute {
                CommandView::Mute(indexed(groups[i], ChannelType::Group))
            } else {
                CommandView::Unmute(indexed(groups[i], ChannelType::Group))
            },
    )
}

/// The sends of `channel` to each of `auxes`, all closed, in the order of `auxes`.
pub open spec fn closed_sends(channel: usize, auxes: Seq<usize>) -> Seq<CommandView> {
    Seq::new(
        auxes.len(),
        |i: int|
            CommandView::Send {
                channel: indexed(channel, ChannelType::Chan),
                aux_channel: indexed(auxes[i], ChannelType::Aux),
                value: 0,
            },
    )
}

/// The reset of one channel: its fader at 1, then its sends, all closed.
pub open spec fn channel_reset(channel: usize, auxes: Seq<usize>) -> Seq<CommandView> {
    seq![CommandView::Volume { channel: indexed(channel, ChannelType::Chan), volume: 1_000_000 }]
        + closed_sends(channel, auxes)
}

/// The resets of `channels`, one channel after the other.
pub open spec fn channel_resets(channels: Seq<usize>, auxes: Seq<usize>) -> Seq<CommandView>
    decreases channels.len(),
{
    if channels.len() == 0 {
        Seq::empty()
    } else {
        channel_resets(channels.drop_last(), auxes) + channel_reset(channels.last(), auxes)
    }
}

/// One send of `channel` per aux bus of a toggle, in list order: open where the
/// bus's bit of `mask` is set, closed where it is not.
pub open spec fn toggle_commands(channel: Channel, aux_channels: Seq<Channel>, mask: int) -> Seq<
    CommandView,
> {
    Seq::new(
        aux_channels.len(),
        |i: int|
            CommandView::Send {
                channel,
                aux_channel: aux_channels[i],
                value: if mask_bit(mask, i as nat) {
                    1_000_000
                } else {
                    0
                },
            },
    )
}

/// The primitive commands that a command stands for in a topology.
pub open spec fn expansion(command: CommandView, topology: Topology) -> Seq<CommandView> {
    match command {
        CommandView::EnableMonitoring => group_commands(topology.monitor_groups, false),
        CommandView::DisableMonitoring => group_commands(topology.monitor_groups, true),
        CommandView::Init => channel_resets(topology.channels, topology.aux_channels)
            + group_commands(topology.monitor_groups, false),
        CommandView::ToggleSend { channel, aux_channels, active_sends } => toggle_commands(
            channel,
            aux_channels,
            active_sends,
        ),
        CommandView::PrintSettings => Seq::empty(),
        _ => seq![command],
    }
}

/// The expansions of the commands of a list, one after the other.
pub open spec fn flat_expansion(commands: Seq<CommandView>, topology: Topology) -> Seq<
    CommandView,
>
    decreases commands.len(),
{
    if commands.len() == 0 {
        Seq::empty()
    } else {
        flat_expansion(commands.drop_last(), topology) + expansion(commands.last(), topology)
    }
}

/// The number of commands in a list that ask for the topology to be shown.
pub open spec fn print_requests(commands: Seq<CommandView>) -> nat
    decreases commands.len(),
{
    if commands.len() == 0 {
        0
    } else if commands.last() is PrintSettings {
        print_requests(commands.drop_last()) + 1
    } else {
        print_requests(commands.drop_last())
    }
}

/// The bulk fragments of the commands of a list that have one, in order.
pub open spec fn fragments(commands: Seq<CommandView>) -> Seq<Seq<char>>
    decreases commands.len(),
{
    if commands.len() == 0 {
        Seq::empty()
    } else {
        match bulk_fragment(commands.last()) {
            Some(fragment) => fragments(commands.drop_last()).push(fragment),
            None => fragments(commands.drop_last()),
        }
    }
}

/// The pieces of a list, with a comma and a space between each two.
pub open spec fn comma_joined(pieces: Seq<Seq<char>>) -> Seq<char>
    decreases pieces.len(),
{
    if pieces.len() == 0 {
        Seq::empty()
    } else if pieces.len() == 1 {
        pieces[0]
    } else {
        comma_joined(pieces.drop_last()) + ", "@ + pieces.last()
    }
}

/// The body of a bulk update: the fragments of the commands, joined, in braces.
pub open spec fn payload_text(commands: Seq<CommandView>) -> Seq<char> {
    "{"@ + comma_joined(fragments(commands)) + "}"@
}

/// The lines of one table: for each channel its index, a colon, a space and its name.
pub open spec fn table_lines(indices: Seq<usize>, names: Seq<Seq<char>>) -> Seq<char>
    decreases indices.len(),
{
    if indices.len() == 0 || names.len() != indices.len() {
        Seq::empty()
    } else {
        table_lines(indices.drop_last(), names.drop_last()) + decimal_digits(
            indices.last() as nat,
        ) + ": "@ + names.last() + "\n"@
    }
}

/// The dump of a topology: the three tables under their headings.
pub open spec fn settings_text(
    channels: ChannelNames,
    aux_channels: ChannelNames,
    monitor_groups: ChannelNames,
) -> Seq<char> {
    "Channels:\n"@ + table_lines(channels.indices(), channels.names()) + "Aux Channels:\n"@
        + table_lines(aux_channels.indices(), aux_channels.names()) + "Monitor Groups:\n"@
        + table_lines(monitor_groups.indices(), monitor_groups.names())
}

/// The bulk body for the commands of a list: their fragments, joined by a comma
/// and a space, in braces. Commands without a wire form are passed over.
pub fn json_payload(commands: &[MotuCommand]) -> (payload: String)
    ensures
        payload@ == payload_text(command_views(commands@)),
{
    let ghost views = command_views(commands@);
    let mut payload = String::from_str("{");
    let mut first = true;
    let mut i: usize = 0;
    assert(views.take(0) =~= Seq::<CommandView>::empty());
    while i < commands.len()
        invariant
            i <= commands.len(),
            views == command_views(commands@),
            first == (fragments(views.take(i as int)).len() == 0),
            payload@ == "{"@ + comma_joined(fragments(views.take(i as int))),
        decreases commands.len() - i,
    {
        proof {
            assert(views.take(i + 1).drop_last() =~= views.take(i as int));
            assert(views.take(i + 1).last() == commands[i as int]@);
        }
        let ghost before = fragments(views.take(i as int));
        match commands[i].http_command() {
            Some(fragment) => {
                proof {
                    assert(before.push(fragment@).drop_last() =~= before);
                }
                if first {
                    first = false;
                    proof {
                        assert(before =~= Seq::<Seq<char>>::empty());
                        assert("{"@ + comma_joined(before) + fragment@ =~= "{"@ + fragment@);
                    }
                } else {
                    payload.append(", ");
                    proof {
                        assert(("{"@ + comma_joined(before) + ", "@) + fragment@ =~= "{"@ + (
                        comma_joined(before) + ", "@ + fragment@));
                    }
                }
                payload.append(fragment.as_str());
            },
            None => {},
        }
        i = i + 1;
    }
    payload.append("}");
    proof {
        assert(views.take(i as int) =~= views);
    }
    payload
}

/// The mixer as the bridge knows it: where it is reached, and its channel topology.
#[derive(Debug)]
pub struct Motu {
    http_client_url: String,
    server_address: String,
    aux_channels: ChannelNames,
    channels: ChannelNames,
    monitor_groups: ChannelNames,
}

/// How the wire commands of a run go out.
#[derive(Debug, PartialEq, Eq)]
pub enum Delivery {
    /// One bulk request to `url`, whose body is `body`: the fragments of the
    /// commands, joined, in braces.
    Bulk { url: String, body: String },
    /// One message per command, each an address and a value, sent in order.
    Messages(Vec<(String, String)>),
}

/// What a run of commands asks of the outside: topology dumps to show, then wire
/// commands to deliver.
#[derive(Debug, PartialEq, Eq)]
pub struct Dispatch {
    /// One dump of the topology for each command that asked for one.
    pub reports: Vec<String>,
    pub delivery: Delivery,
}

/// Whether `messages` are the per-message forms of `commands`, in order.
pub open spec fn messages_of(messages: Seq<(String, String)>, commands: Seq<CommandView>) -> bool {
    &&& messages.len() == commands.len()
    &&& forall|i: int|
        0 <= i < messages.len() ==> Some((#[trigger] messages[i].0@, messages[i].1@))
            == osc_projection(commands[i])
}

/// Every command of an expansion has a wire form.
pub proof fn lemma_expansion_primitive(command: CommandView, topology: Topology, i: int)
    requires
        0 <= i < expansion(command, topology).len(),
    ensures
        is_primitive(expansion(command, topology)[i]),
{
    if command is Init {
        let resets = channel_resets(topology.channels, topology.aux_channels);
        if i < resets.len() {
            lemma_resets_primitive(topology.channels, topology.aux_channels, i);
        }
    }
}

/// Every command of the resets of a list of channels is a fader or a send command.
pub proof fn lemma_resets_primitive(channels: Seq<usize>, auxes: Seq<usize>, i: int)
    requires
        0 <= i < channel_resets(channels, auxes).len(),
    ensures
        is_primitive(channel_resets(channels, auxes)[i]),
    decreases channels.len(),
{
    if channels.len() > 0 {
        let earlier = channel_resets(channels.drop_last(), auxes);
        if i < earlier.len() {
            lemma_resets_primitive(channels.drop_last(), auxes, i);
        }
    }
}

/// Every command of the expansion of a list has a wire form.
pub proof fn lemma_flat_expansion_primitive(commands: Seq<CommandView>, topology: Topology, i: int)
    requires
        0 <= i < flat_expansion(commands, topology).len(),
    ensures
        is_primitive(flat_expansion(commands, topology)[i]),
    decreases commands.len(),
{
    if commands.len() > 0 {
        let earlier = flat_expansion(commands.drop_last(), topology);
        if i < earlier.len() {
            lemma_flat_expansion_primitive(commands.drop_last(), topology, i);
        } else {
            lemma_expansion_primitive(commands.last(), topology, i - earlier.len());
        }
    }
}

/// The resets of `n` channels over `m` aux buses are `n + n * m` commands.
pub proof fn lemma_resets_len(channels: Seq<usize>, auxes: Seq<usize>)
    ensures
        channel_resets(channels, auxes).len() == channels.len() + channels.len() * auxes.len(),
    decreases channels.len(),
{
    if channels.len() > 0 {
        lemma_resets_len(channels.drop_last(), auxes);
        assert((channels.len() - 1) * auxes.len() + auxes.len() == channels.len() * auxes.len())
            by (nonlinear_arith);
    } else {
        assert(0 * auxes.len() == 0) by (nonlinear_arith);
    }
}

/// The size of an expansion in a topology of `n` channels, `m` aux buses and `g`
/// monitor groups: `g` commands for either monitoring switch, `n + n * m + g` for
/// a reset, one per listed aux bus for a toggle, none for a topology dump, and one
/// for any other command.
pub proof fn lemma_expansion_len(command: CommandView, topology: Topology)
    ensures
        command is EnableMonitoring || command is DisableMonitoring ==> expansion(
            command,
            topology,
        ).len() == topology.monitor_groups.len(),
        command is Init ==> expansion(command, topology).len() == topology.channels.len()
            + topology.channels.len() * topology.aux_channels.len()
            + topology.monitor_groups.len(),
        command matches CommandView::ToggleSend { aux_channels, .. } ==> expansion(
            command,
            topology,
        ).len() == aux_channels.len(),
        command is PrintSettings ==> expansion(command, topology).len() == 0,
        is_primitive(command) ==> expansion(command, topology) == seq![command],
{
    lemma_resets_len(topology.channels, topology.aux_channels);
}

/// Appends one mute or unmute command per monitor group.
fn push_group_commands(out: &mut Vec<MotuCommand>, groups: &ChannelNames, mute: bool)
    ensures
        command_views(final(out)@) == command_views(old(out)@) + group_commands(
            groups.indices(),
            mute,
        ),
{
    proof {
        use_type_invariant(groups);
    }
    let ghost start = command_views(out@);
    let ghost all = group_commands(groups.indices(), mute);
    let count = groups.len();
    let mut i: usize = 0;
    assert(start + all.take(0) =~= start);
    while i < count
        invariant
            i <= count,
            groups.wf(),
            count == groups.indices().len(),
            all == group_commands(groups.indices(), mute),
            command_views(out@) == start + all.take(i as int),
        decreases count - i,
    {
        let index = groups.index_at(i);
        let channel = Channel::new(index as i32, ChannelType::Group);
        let ghost before = command_views(out@);
        if mute {
            out.push(MotuCommand::Mute(channel));
        } else {
            out.push(MotuCommand::Unmute(channel));
        }
        assert(command_views(out@) =~= before.push(all[i as int]));
        assert(start + all.take(i + 1) =~= (start + all.take(i as int)).push(all[i as int]));
        i = i + 1;
    }
    assert(all.take(i as int) =~= all);
}

/// Appends the reset of one channel: its fader at 1, then its sends, all closed.
fn push_channel_reset(out: &mut Vec<MotuCommand>, index: usize, auxes: &ChannelNames)
    requires
        index <= i32::MAX,
    ensures
        command_views(final(out)@) == command_views(old(out)@) + channel_reset(
            index,
            auxes.indices(),
        ),
{
    proof {
        use_type_invariant(auxes);
    }
    let ghost start = command_views(out@);
    let ghost sends = closed_sends(index, auxes.indices());
    let channel = Channel::new(index as i32, ChannelType::Chan);
    out.push(MotuCommand::Volume { channel, volume: Level::one() });
    let ghost head = command_views(out@);
    assert(head =~= start + seq![
        CommandView::Volume { channel: indexed(index, ChannelType::Chan), volume: 1_000_000 },
    ]);
    let count = auxes.len();
    let mut i: usize = 0;
    assert(head + sends.take(0) =~= head);
    while i < count
        invariant
            i <= count,
            auxes.wf(),
            count == auxes.indices().len(),
            index <= i32::MAX,
            channel == indexed(index, ChannelType::Chan),
            sends == closed_sends(index, auxes.indices()),
            command_views(out@) == head + sends.take(i as int),
        decreases count - i,
    {
        let aux_index = auxes.index_at(i);
        let ghost before = command_views(out@);
        out.push(
            MotuCommand::Send {
                channel,
                aux_channel: Channel::new(aux_index as i32, ChannelType::Aux),
                value: Level::zero(),
            },
        );
        assert(command_views(out@) =~= before.push(sends[i as int]));
        assert(head + sends.take(i + 1) =~= (head + sends.take(i as int)).push(sends[i as int]));
        i = i + 1;
    }
    assert(sends.take(i as int) =~= sends);
    assert(head + sends =~= start + channel_reset(index, auxes.indices()));
}

/// Appends one send per aux bus of a toggle, open or closed as its bit of `mask` says.
fn push_toggle_commands(
    out: &mut Vec<MotuCommand>,
    channel: Channel,
    aux_channels: &Vec<Channel>,
    mask: u8,
)
    ensures
        command_views(final(out)@) == command_views(old(out)@) + toggle_commands(
            channel,
            aux_channels@,
            mask as int,
        ),
{
    let ghost start = command_views(out@);
    let ghost all = toggle_commands(channel, aux_channels@, mask as int);
    let mut i: usize = 0;
    assert(start + all.take(0) =~= start);
    while i < aux_channels.len()
        invariant
            i <= aux_channels.len(),
            all == toggle_commands(channel, aux_channels@, mask as int),
            command_views(out@) == start + all.take(i as int),
        decreases aux_channels.len() - i,
    {
        let ghost before = command_views(out@);
        out.push(
            MotuCommand::Send {
                channel,
                aux_channel: aux_channels[i],
                value: Level::from_bit(send_is_active(mask, i)),
            },
        );
        assert(command_views(out@) =~= before.push(all[i as int]));
        assert(start + all.take(i + 1) =~= (start + all.take(i as int)).push(all[i as int]));
        i = i + 1;
    }
    assert(all.take(i as int) =~= all);
}

/// Appends the lines of one table to a dump.
fn push_table_lines(out: &mut String, table: &ChannelNames)
    ensures
        final(out)@ == old(out)@ + table_lines(table.indices(), table.names()),
{
    let ghost start = out@;
    let ghost indices = table.indices();
    let ghost names = table.names();
    let count = table.len();
    let mut i: usize = 0;
    assert(start + table_lines(indices.take(0), names.take(0)) =~= start);
    while i < count
        invariant
            i <= count,
            count == indices.len(),
            count == names.len(),
            indices == table.indices(),
            names == table.names(),
            out@ == start + table_lines(indices.take(i as int), names.take(i as int)),
        decreases count - i,
    {
        let ghost before = out@;
        push_decimal(out, table.index_at(i) as u64);
        out.append(": ");
        out.append(table.name_at(i).as_str());
        out.append("\n");
        proof {
            assert(indices.take(i + 1).drop_last() =~= indices.take(i as int));
            assert(names.take(i + 1).drop_last() =~= names.take(i as int));
            assert(out@ =~= before + (decimal_digits(indices[i as int] as nat) + ": "@
                + names[i as int] + "\n"@));
            assert(out@ =~= start + table_lines(indices.take(i + 1), names.take(i + 1)));
        }
        i = i + 1;
    }
    assert(indices.take(i as int) =~= indices);
    assert(names.take(i as int) =~= names);
}

impl Motu {
    /// The table of input channels.
    pub closed spec fn channels(&self) -> ChannelNames {
        self.channels
    }

    /// The table of aux buses.
    pub closed spec fn aux_channels(&self) -> ChannelNames {
        self.aux_channels
    }

    /// The table of monitor groups.
    pub closed spec fn monitor_groups(&self) -> ChannelNames {
        self.monitor_groups
    }

    /// The address that bulk requests go to.
    pub closed spec fn bulk_url(&self) -> Seq<char> {
        self.http_client_url@
    }

    /// The host and port that messages go to.
    pub closed spec fn message_address(&self) -> Seq<char> {
        self.server_address@
    }

    /// The indices of the three tiers.
    pub open spec fn topology(&self) -> Topology {
        Topology {
            channels: self.channels().indices(),
            aux_channels: self.aux_channels().indices(),
            monitor_groups: self.monitor_groups().indices(),
        }
    }

    /// What holds of every mixer: each of its three tables lists its indices in
    /// strictly ascending order, and each index fits a channel reference.
    pub open spec fn wf(&self) -> bool {
        self.channels().wf() && self.aux_channels().wf() && self.monitor_groups().wf()
    }

    /// The mixer at `ip`, with the topology of `config`: messages go to `ip:port`,
    /// bulk requests to `http://ip/datastore`.
    pub fn new(ip: &str, port: &str, config: &Config) -> (motu: Motu)
        ensures
            motu.wf(),
            motu.bulk_url() == "http://"@ + ip@ + "/datastore"@,
            motu.message_address() == ip@ + ":"@ + port@,
            motu.channels().indices() == config.channels.indices(),
            motu.channels().names() == config.channels.names(),
            motu.aux_channels().indices() == config.aux_channels.indices(),
            motu.aux_channels().names() == config.aux_channels.names(),
            motu.monitor_groups().indices() == config.monitor_groups.indices(),
            motu.monitor_groups().names() == config.monitor_groups.names(),
    {
        let mut server_address = String::from_str(ip);
        server_address.append(":");
        server_address.append(port);
        let mut http_client_url = String::from_str("http://");
        http_client_url.append(ip);
        http_client_url.append("/datastore");
        Motu {
            http_client_url,
            server_address,
            aux_channels: config.aux_channels.copy(),
            channels: config.channels.copy(),
            monitor_groups: config.monitor_groups.copy(),
        }
    }

    /// The address that bulk requests go to.
    pub fn http_client_url(&self) -> (url: &String)
        ensures
            url@ == self.bulk_url(),
    {
        &self.http_client_url
    }

    /// The host and port that messages go to.
    pub fn server_address(&self) -> (address: &String)
        ensures
            address@ == self.message_address(),
    {
        &self.server_address
    }

    /// Expands a command into the primitive commands that it stands for in this
    /// topology, in ascending index order within each tier.
    pub fn process_commands(&self, command: &MotuCommand) -> (commands: Vec<MotuCommand>)
        ensures
            command_views(commands@) == expansion(command@, self.topology()),
            self.wf(),
    {
        proof {
            use_type_invariant(&self.channels);
            use_type_invariant(&self.aux_channels);
            use_type_invariant(&self.monitor_groups);
        }
        let mut commands: Vec<MotuCommand> = Vec::new();
        assert(command_views(commands@) =~= Seq::<CommandView>::empty());
        match command {
            MotuCommand::PrintSettings => {},
            MotuCommand::EnableMonitoring => {
                push_group_commands(&mut commands, &self.monitor_groups, false);
            },
            MotuCommand::DisableMonitoring => {
                push_group_commands(&mut commands, &self.monitor_groups, true);
            },
            MotuCommand::Init => {
                let ghost channels = self.channels.indices();
                let ghost auxes = self.aux_channels.indices();
                let count = self.channels.len();
                let mut i: usize = 0;
                assert(channels.take(0) =~= Seq::<usize>::empty());
                while i < count
                    invariant
                        i <= count,
                        self.wf(),
                        count == channels.len(),
                        channels == self.channels.indices(),
                        auxes == self.aux_channels.indices(),
                        command_views(commands@) == channel_resets(channels.take(i as int), auxes),
                    decreases count - i,
                {
                    proof {
                        assert(channels.take(i + 1).drop_last() =~= channels.take(i as int));
                    }
                    let index = self.channels.index_at(i);
                    push_channel_reset(&mut commands, index, &self.aux_channels);
                    i = i + 1;
                }
                assert(channels.take(i as int) =~= channels);
                push_group_commands(&mut commands, &self.monitor_groups, false);
            },
            MotuCommand::ToggleSend { channel, aux_channels, active_sends } => {
                push_toggle_commands(&mut commands, *channel, aux_channels, *active_sends);
            },
            _ => {
                commands.push(command.copy());
                assert(command_views(commands@) =~= seq![command@]);
            },
        }
        assert(Seq::<CommandView>::empty() + expansion(command@, self.topology()) =~= expansion(
            command@,
            self.topology(),
        ));
        commands
    }

    /// The dump of the topology: the channels, the aux buses and the monitor groups,
    /// each table under its heading and in ascending index order.
    pub fn print_settings(&self) -> (dump: String)
        ensures
            dump@ == settings_text(self.channels(), self.aux_channels(), self.monitor_groups()),
    {
        let mut dump = String::from_str("Channels:\n");
        push_table_lines(&mut dump, &self.channels);
        dump.append("Aux Channels:\n");
        push_table_lines(&mut dump, &self.aux_channels);
        dump.append("Monitor Groups:\n");
        push_table_lines(&mut dump, &self.monitor_groups);
        dump
    }

    /// The message that carries one command: its address and its value. A command
    /// without a wire form is refused.
    pub fn send(&self, command: MotuCommand) -> (message: Result<(String, String), String>)
        ensures
            message is Ok <==> is_primitive(command@),
            match message {
                Ok((address, value)) => Some((address@, value@)) == osc_projection(command@),
                Err(reason) => reason@ == "No message found"@,
            },
    {
        match command.osc_command() {
            Some(message) => Ok(message),
            None => Err(String::from_str("No message found")),
        }
    }

    /// Plans a run of commands. Every command is expanded, the expansions are taken
    /// together in order, and from ten wire commands on they go out as one bulk
    /// request; fewer go out as one message each. A command that asks for the
    /// topology adds a dump to the reports.
    pub fn run(&self, commands: &[MotuCommand]) -> (dispatch: Dispatch)
        ensures
            dispatch.reports.len() == print_requests(command_views(commands@)),
            forall|i: int|
                0 <= i < dispatch.reports.len() ==> (#[trigger] dispatch.reports[i])@
                    == settings_text(self.channels(), self.aux_channels(), self.monitor_groups()),
            match dispatch.delivery {
                Delivery::Bulk { url, body } => {
                    &&& flat_expansion(command_views(commands@), self.topology()).len() >= 10
                    &&& url@ == self.bulk_url()
                    &&& body@ == payload_text(
                        flat_expansion(command_views(commands@), self.topology()),
                    )
                },
                Delivery::Messages(messages) => {
                    &&& flat_expansion(command_views(commands@), self.topology()).len() < 10
                    &&& messages_of(
                        messages@,
                        flat_expansion(command_views(commands@), self.topology()),
                    )
                },
            },
    {
        let ghost views = command_views(commands@);
        let ghost topology = self.topology();
        let mut wire: Vec<MotuCommand> = Vec::new();
        let mut reports: Vec<String> = Vec::new();
        let mut i: usize = 0;
        assert(views.take(0) =~= Seq::<CommandView>::empty());
        assert(command_views(wire@) =~= Seq::<CommandView>::empty());
        while i < commands.len()
            invariant
                i <= commands.len(),
                views == command_views(commands@),
                topology == self.topology(),
                command_views(wire@) == flat_expansion(views.take(i as int), topology),
                reports.len() == print_requests(views.take(i as int)),
                forall|k: int|
                    0 <= k < reports.len() ==> (#[trigger] reports[k])@ == settings_text(
                        self.channels(),
                        self.aux_channels(),
                        self.monitor_groups(),
                    ),
            decreases commands.len() - i,
        {
            proof {
                assert(views.take(i + 1).drop_last() =~= views.take(i as int));
                assert(views.take(i + 1).last() == commands[i as int]@);
            }
            if let MotuCommand::PrintSettings = &commands[i] {
                reports.push(self.print_settings());
            }
            let mut expanded = self.process_commands(&commands[i]);
            let ghost before = command_views(wire@);
            let ghost added = command_views(expanded@);
            wire.append(&mut expanded);
            assert(command_views(wire@) =~= before + added);
            i = i + 1;
        }
        proof {
            assert(views.take(i as int) =~= views);
        }
        let ghost flat = flat_expansion(views, topology);
        let delivery = if wire.len() >= BATCH_THRESHOLD {
            let body = json_payload(wire.as_slice());
            Delivery::Bulk { url: self.http_client_url.clone(), body }
        } else {
            let mut messages: Vec<(String, String)> = Vec::new();
            let mut k: usize = 0;
            while k < wire.len()
                invariant
                    k <= wire.len(),
                    flat == flat_expansion(views, topology),
                    command_views(wire@) == flat,
                    messages.len() == k,
                    forall|j: int|
                        0 <= j < k ==> Some((#[trigger] messages[j].0@, messages[j].1@))
                            == osc_projection(flat[j]),
                decreases wire.len() - k,
            {
                proof {
                    lemma_flat_expansion_primitive(views, topology, k as int);
                    assert(flat[k as int] == wire[k as int]@);
                }
                let ghost before = messages@;
                match wire[k].osc_command() {
                    Some(message) => {
                        messages.push(message);
                        proof {
                            assert(Some((message.0@, message.1@)) == osc_projection(flat[k as int]));
                            assert forall|j: int| 0 <= j < k + 1 implies Some(
                                (#[trigger] messages[j].0@, messages[j].1@),
                            ) == osc_projection(flat[j]) by {
                                if j < k {
                                    assert(messages[j] == before[j]);
                                }
                            }
                        }
                    },
                    None => {},
                }
                k = k + 1;
            }
            Delivery::Messages(messages)
        };
        Dispatch { reports, delivery }
    }
}

} // verus!

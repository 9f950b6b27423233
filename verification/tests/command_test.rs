use motuman::motu::channel::{Channel, ChannelType};
use motuman::motu::level::Level;
use motuman::motu::motucommand::{power_of_two, send_is_active, MotuCommand, MAX_AUX_CHANNELS};

fn chan(n: i32) -> Channel {
    Channel::new(n, ChannelType::Chan)
}

fn aux(n: i32) -> Channel {
    Channel::new(n, ChannelType::Aux)
}

fn level(micros: i64) -> Level {
    Level { micros }
}

fn pair(address: &str, value: &str) -> Option<(String, String)> {
    Some((String::from(address), String::from(value)))
}

fn coarse_commands() -> Vec<MotuCommand> {
    vec![
        MotuCommand::EnableMonitoring,
        MotuCommand::DisableMonitoring,
        MotuCommand::PrintSettings,
        MotuCommand::Init,
        MotuCommand::ToggleSend {
            channel: chan(1),
            aux_channels: vec![aux(1), aux(2)],
            active_sends: 1,
        },
    ]
}

#[test]
fn channel_accessors_and_display() {
    let c = Channel::new(7, ChannelType::Group);
    assert_eq!(c.channel_number(), 7);
    assert_eq!(*c.channel_type(), ChannelType::Group);
    assert_eq!(c.to_string(), "group(7)");
    assert_eq!(chan(12).to_string(), "chan(12)");
    assert_eq!(aux(-3).to_string(), "aux(-3)");
    assert_eq!(chan(i32::MIN).to_string(), "chan(-2147483648)");
    assert_eq!(ChannelType::Aux.to_string(), "aux");
    assert_eq!(ChannelType::Chan.name(), "chan");
    assert_eq!(c, Channel { channel_number: 7, channel_type: ChannelType::Group });
    assert_ne!(chan(7), c);
}

#[test]
fn projection_of_primitive_commands() {
    let volume = MotuCommand::Volume { channel: chan(3), volume: level(500_000) };
    assert_eq!(volume.osc_command(), pair("/mix/chan/3/matrix/fader", "0.5"));
    assert_eq!(
        volume.http_command(),
        Some(String::from("\"mix/chan/3/matrix/fader\":0.5"))
    );
    let send = MotuCommand::Send { channel: chan(3), aux_channel: aux(2), value: level(0) };
    assert_eq!(send.osc_command(), pair("/mix/chan/3/matrix/aux/2/send", "0"));
    assert_eq!(
        send.http_command(),
        Some(String::from("\"mix/chan/3/matrix/aux/2/send\":0"))
    );
    let mute = MotuCommand::Mute(Channel::new(4, ChannelType::Group));
    assert_eq!(mute.osc_command(), pair("/mix/group/4/matrix/mute", "1"));
    assert_eq!(mute.http_command(), Some(String::from("\"mix/group/4/matrix/mute\":1")));
    let unmute = MotuCommand::Unmute(aux(10));
    assert_eq!(unmute.osc_command(), pair("/mix/aux/10/matrix/mute", "0"));
    assert_eq!(unmute.http_command(), Some(String::from("\"mix/aux/10/matrix/mute\":0")));
}

#[test]
fn projection_is_none_for_coarse_commands() {
    for command in coarse_commands() {
        assert_eq!(command.osc_command(), None, "{:?}", command);
        assert_eq!(command.http_command(), None, "{:?}", command);
    }
}

#[test]
fn projection_writes_unclamped_levels() {
    let loud = MotuCommand::Volume { channel: chan(1), volume: level(4_000_000) };
    assert_eq!(loud.osc_command(), pair("/mix/chan/1/matrix/fader", "4"));
    let negative = MotuCommand::Volume { channel: chan(1), volume: level(-250_000) };
    assert_eq!(negative.osc_command(), pair("/mix/chan/1/matrix/fader", "-0.25"));
}

#[test]
fn set_value_replaces_the_level() {
    let mut volume = MotuCommand::Volume { channel: chan(3), volume: level(1) };
    volume.set_value(level(750_000));
    assert_eq!(volume, MotuCommand::Volume { channel: chan(3), volume: level(750_000) });
    let mut send = MotuCommand::Send { channel: chan(3), aux_channel: aux(1), value: level(1) };
    send.set_value(level(250_000));
    assert_eq!(
        send,
        MotuCommand::Send { channel: chan(3), aux_channel: aux(1), value: level(250_000) }
    );
}

#[test]
fn set_value_leaves_other_commands_alone() {
    for mut command in vec![
        MotuCommand::EnableMonitoring,
        MotuCommand::DisableMonitoring,
        MotuCommand::PrintSettings,
        MotuCommand::Init,
        MotuCommand::Mute(chan(1)),
        MotuCommand::Unmute(chan(1)),
    ] {
        let before = command.copy();
        command.set_value(level(123));
        assert_eq!(command, before);
    }
}

fn mask_of(command: &MotuCommand) -> u8 {
    match command {
        MotuCommand::ToggleSend { active_sends, .. } => *active_sends,
        _ => panic!("not a toggle"),
    }
}

#[test]
fn toggle_cycles_through_all_masks_twice() {
    let mut toggle = MotuCommand::ToggleSend {
        channel: chan(1),
        aux_channels: vec![aux(1), aux(2), aux(3)],
        active_sends: 0,
    };
    let mut seen = Vec::new();
    for _ in 0..16 {
        toggle.set_value(level(999));
        seen.push(mask_of(&toggle));
    }
    assert_eq!(seen, vec![1, 2, 3, 4, 5, 6, 7, 0, 1, 2, 3, 4, 5, 6, 7, 0]);
}

#[test]
fn toggle_wraps_by_the_number_of_sends() {
    let toggle = |count: usize, mask: u8| {
        let mut command = MotuCommand::ToggleSend {
            channel: chan(1),
            aux_channels: vec![aux(1); count],
            active_sends: mask,
        };
        command.set_value(level(0));
        mask_of(&command)
    };
    assert_eq!(toggle(0, 0), 0);
    assert_eq!(toggle(1, 0), 1);
    assert_eq!(toggle(1, 1), 0);
    assert_eq!(toggle(2, 3), 0);
    assert_eq!(toggle(2, 5), 2);
    assert_eq!(toggle(7, 127), 0);
    assert_eq!(toggle(8, 254), 255);
    assert_eq!(toggle(MAX_AUX_CHANNELS, 255), 0);
    assert_eq!(toggle(9, 255), 0);
    assert_eq!(toggle(9, 17), 18);
}

#[test]
fn powers_and_bits() {
    assert_eq!(power_of_two(0), 1);
    assert_eq!(power_of_two(3), 8);
    assert_eq!(power_of_two(8), 256);
    assert!(send_is_active(0b101, 0));
    assert!(!send_is_active(0b101, 1));
    assert!(send_is_active(0b101, 2));
    assert!(send_is_active(0x80, 7));
    assert!(!send_is_active(0xFF, 8));
    assert!(!send_is_active(0xFF, 1000));
}

#[test]
fn copy_equals_its_source() {
    let mut all = coarse_commands();
    all.push(MotuCommand::Volume { channel: chan(1), volume: level(5) });
    all.push(MotuCommand::Send { channel: chan(1), aux_channel: aux(2), value: level(6) });
    all.push(MotuCommand::Mute(chan(9)));
    all.push(MotuCommand::Unmute(chan(9)));
    for command in all {
        assert_eq!(command.copy(), command);
    }
}

#[test]
fn display_text_of_commands() {
    assert_eq!(MotuCommand::EnableMonitoring.to_string(), "EnableMonitoring");
    assert_eq!(MotuCommand::DisableMonitoring.to_string(), "DisableMonitoring");
    assert_eq!(MotuCommand::PrintSettings.to_string(), "PrintSettings");
    assert_eq!(MotuCommand::Init.to_string(), "Init");
    assert_eq!(
        MotuCommand::Volume { channel: chan(1), volume: level(660_000) }.to_string(),
        "Volume: chan(1) 0.66"
    );
    assert_eq!(
        MotuCommand::Send { channel: chan(1), aux_channel: aux(2), value: level(330_000) }
            .to_string(),
        "Send: chan(1) aux(2) 0.33"
    );
    assert_eq!(MotuCommand::Mute(chan(5)).to_string(), "Mute: chan(5)");
    assert_eq!(MotuCommand::Unmute(chan(5)).to_string(), "Unmute: chan(5)");
}

#[test]
fn display_text_of_a_toggle_dumps_its_list() {
    let toggle = MotuCommand::ToggleSend {
        channel: chan(1),
        aux_channels: vec![aux(2), aux(3)],
        active_sends: 5,
    };
    let expected = format!(
        "Send: {} {:#?} {}",
        "chan(1)",
        vec![aux(2), aux(3)],
        5
    );
    assert_eq!(toggle.to_string(), expected);
    assert_eq!(
        toggle.to_string(),
        "Send: chan(1) [\n    Channel {\n        channel_number: 2,\n        channel_type: Aux,\n    },\n    Channel {\n        channel_number: 3,\n        channel_type: Aux,\n    },\n] 5"
    );
    let empty = MotuCommand::ToggleSend { channel: chan(1), aux_channels: vec![], active_sends: 0 };
    assert_eq!(empty.to_string(), "Send: chan(1) [] 0");
}

#[test]
fn grammar_reads_every_form() {
    assert_eq!(
        MotuCommand::from_str("vol(3)"),
        Ok(MotuCommand::Volume { channel: chan(3), volume: level(660_000) })
    );
    assert_eq!(
        MotuCommand::from_str("send(1,2)"),
        Ok(MotuCommand::Send { channel: chan(1), aux_channel: aux(2), value: level(330_000) })
    );
    assert_eq!(
        MotuCommand::from_str("send(1,2,3)"),
        Ok(MotuCommand::ToggleSend {
            channel: chan(1),
            aux_channels: vec![aux(2), aux(3)],
            active_sends: 0
        })
    );
    assert_eq!(MotuCommand::from_str("mute(4)"), Ok(MotuCommand::Mute(chan(4))));
    assert_eq!(MotuCommand::from_str("unmute(4)"), Ok(MotuCommand::Unmute(chan(4))));
    assert_eq!(MotuCommand::from_str("monitor(on)"), Ok(MotuCommand::EnableMonitoring));
    assert_eq!(MotuCommand::from_str("monitor(off)"), Ok(MotuCommand::DisableMonitoring));
    assert_eq!(MotuCommand::from_str("print"), Ok(MotuCommand::PrintSettings));
    assert_eq!(MotuCommand::from_str("init"), Ok(MotuCommand::Init));
}

#[test]
fn grammar_reads_signs_and_limits() {
    assert_eq!(
        MotuCommand::from_str("vol(-2)"),
        Ok(MotuCommand::Volume { channel: chan(-2), volume: level(660_000) })
    );
    assert_eq!(
        MotuCommand::from_str("vol(+2147483647)"),
        Ok(MotuCommand::Volume { channel: chan(2147483647), volume: level(660_000) })
    );
    assert_eq!(
        MotuCommand::from_str("mute(-2147483648)"),
        Ok(MotuCommand::Mute(chan(i32::MIN)))
    );
    assert_eq!(
        MotuCommand::from_str("vol(2147483648)"),
        Err(String::from("Invalid volume"))
    );
    assert_eq!(MotuCommand::from_str("mute(007)"), Ok(MotuCommand::Mute(chan(7))));
}

#[test]
fn grammar_reads_toggles_of_two_to_six_sends() {
    assert_eq!(
        MotuCommand::from_str("send(1,2,3,4,5,6,7)"),
        Ok(MotuCommand::ToggleSend {
            channel: chan(1),
            aux_channels: vec![aux(2), aux(3), aux(4), aux(5), aux(6), aux(7)],
            active_sends: 0
        })
    );
    assert_eq!(
        MotuCommand::from_str("send(1,2,3,4,5,6,7,8)"),
        Err(String::from("Invalid send"))
    );
}

#[test]
fn grammar_names_the_faulty_keyword() {
    assert_eq!(MotuCommand::from_str("vol(x)"), Err(String::from("Invalid volume")));
    assert_eq!(MotuCommand::from_str("vol()"), Err(String::from("Invalid volume")));
    assert_eq!(MotuCommand::from_str("vol( 3)"), Err(String::from("Invalid volume")));
    assert_eq!(MotuCommand::from_str("send(1)"), Err(String::from("Invalid send")));
    assert_eq!(MotuCommand::from_str("send()"), Err(String::from("Invalid send")));
    assert_eq!(MotuCommand::from_str("send(1,x)"), Err(String::from("Invalid send")));
    assert_eq!(MotuCommand::from_str("send(1,2,x)"), Err(String::from("Invalid send")));
    assert_eq!(MotuCommand::from_str("send(1,2,3,x)"), Err(String::from("Invalid send")));
    assert_eq!(MotuCommand::from_str("send(1,2,)"), Err(String::from("Invalid send")));
    assert_eq!(MotuCommand::from_str("unmute(x)"), Err(String::from("Invalid unmute")));
    assert_eq!(MotuCommand::from_str("mute(x)"), Err(String::from("Invalid mute")));
    assert_eq!(MotuCommand::from_str("monitor(maybe)"), Err(String::from("Invalid monitor")));
    assert_eq!(MotuCommand::from_str("monitor"), Err(String::from("Invalid monitor")));
    assert_eq!(MotuCommand::from_str("bogus"), Err(String::from("Invalid command")));
    assert_eq!(MotuCommand::from_str(""), Err(String::from("Invalid command")));
}

#[test]
fn grammar_goes_by_the_first_keyword_in_its_order() {
    assert_eq!(
        MotuCommand::from_str("unmute(vol(3))"),
        Err(String::from("Invalid volume"))
    );
    assert_eq!(MotuCommand::from_str("vol(vol(3))"), Ok(MotuCommand::Volume {
        channel: chan(3),
        volume: level(660_000)
    }));
    assert_eq!(MotuCommand::from_str("unmute(3)"), Ok(MotuCommand::Unmute(chan(3))));
    assert_eq!(MotuCommand::from_str("3)mute("), Ok(MotuCommand::Mute(chan(3))));
    assert_eq!(MotuCommand::from_str("please print"), Ok(MotuCommand::PrintSettings));
    assert_eq!(MotuCommand::from_str("printinit"), Ok(MotuCommand::PrintSettings));
}

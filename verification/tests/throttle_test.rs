use motuman::args::IpEndpoint;
use motuman::config::{Config, MidiCommand as MappedCommand, MidiConfig, NetworkConfig};
use motuman::midi::midicommand::MidiCommand;
use motuman::midi::miditype::{class_of_status, MidiType};
use motuman::midi::ports::{choose_port, port_from_answer, PortChoice};
use motuman::midi::{
    channel, control_bindings, find_binding, handle_message, is_midi, midi_type, receive,
};
use motuman::motu::channel::{Channel, ChannelType};
use motuman::motu::level::{easing_circ, isqrt, Level, LEVEL_SCALE};
use motuman::motu::motucommand::MotuCommand;
use motuman::motu::topology::ChannelNames;

fn fader(n: i32) -> MotuCommand {
    MotuCommand::Volume { channel: Channel::new(n, ChannelType::Chan), volume: Level { micros: 0 } }
}

fn fader_at(n: i32, micros: i64) -> MotuCommand {
    MotuCommand::Volume { channel: Channel::new(n, ChannelType::Chan), volume: Level { micros } }
}

fn binding(last_raw: u8, last_emit_time_ms: u64) -> MidiCommand {
    let mut b = MidiCommand::new(&[0xB0, 7, 0], fader(1)).unwrap();
    b.prev_midi_value = last_raw;
    b.prev_timestamp = last_emit_time_ms;
    b
}

fn forwarded(last_raw: u8, last_emit_time_ms: u64, raw: u8, now: u64) -> bool {
    let mut b = binding(last_raw, last_emit_time_ms);
    let outcome = b.on_event(raw, Ok(now)).unwrap();
    if outcome.is_some() {
        assert_eq!((b.prev_midi_value, b.prev_timestamp), (raw, now));
    } else {
        assert_eq!((b.prev_midi_value, b.prev_timestamp), (last_raw, last_emit_time_ms));
    }
    outcome.is_some()
}

#[test]
fn level_text_is_a_trimmed_decimal() {
    let text = |micros: i64| Level { micros }.to_string();
    assert_eq!(text(0), "0");
    assert_eq!(text(1), "0.000001");
    assert_eq!(text(10), "0.00001");
    assert_eq!(text(100), "0.0001");
    assert_eq!(text(500_000), "0.5");
    assert_eq!(text(660_000), "0.66");
    assert_eq!(text(330_000), "0.33");
    assert_eq!(text(1_000_000), "1");
    assert_eq!(text(1_500_000), "1.5");
    assert_eq!(text(-500_000), "-0.5");
    assert_eq!(text(12_345_678), "12.345678");
    assert_eq!(text(133_975), "0.133975");
    assert_eq!(text(i64::MIN), "-9223372036854.775808");
    assert_eq!(text(i64::MAX), "9223372036854.775807");
}

#[test]
fn level_constructors() {
    assert_eq!(LEVEL_SCALE, 1_000_000);
    assert_eq!(Level::zero(), Level { micros: 0 });
    assert_eq!(Level::one(), Level { micros: 1_000_000 });
    assert_eq!(Level::from_bit(true), Level::one());
    assert_eq!(Level::from_bit(false), Level::zero());
    assert_eq!(Level::from_raw(0), Level::zero());
    assert_eq!(Level::from_raw(1), Level { micros: 7_874 });
    assert_eq!(Level::from_raw(64), Level { micros: 503_937 });
    assert_eq!(Level::from_raw(127), Level::one());
}

#[test]
fn integer_square_root_rounds_down() {
    assert_eq!(isqrt(0), 0);
    assert_eq!(isqrt(1), 1);
    assert_eq!(isqrt(3), 1);
    assert_eq!(isqrt(4), 2);
    assert_eq!(isqrt(15), 3);
    assert_eq!(isqrt(16), 4);
    assert_eq!(isqrt(999_999_999_999), 999_999);
    assert_eq!(isqrt(1_000_000_000_000), 1_000_000);
    assert_eq!(isqrt(u64::MAX), 4_294_967_295);
}

#[test]
fn easing_has_exact_values() {
    let ease = |micros: i64| easing_circ(Level { micros }).micros;
    assert_eq!(ease(0), 0);
    assert_eq!(ease(1_000_000), 1_000_000);
    assert_eq!(ease(600_000), 200_000);
    assert_eq!(ease(-600_000), 200_000);
    assert_eq!(ease(500_000), 133_975);
    assert_eq!(ease(999_999), 998_586);
    assert_eq!(ease(-1_000_000), 1_000_000);
}

#[test]
fn easing_never_decreases_over_the_raw_values() {
    let mut previous = -1;
    for raw in 0..=127u8 {
        let eased = easing_circ(Level::from_raw(raw)).micros;
        assert!(eased >= previous, "raw {}", raw);
        assert!((0..=1_000_000).contains(&eased));
        let x = f64::from(raw) / 127.0;
        let curve = 1.0 - (1.0 - x * x).sqrt();
        assert!((eased as f64 / 1e6 - curve).abs() < 2e-5, "raw {}", raw);
        previous = eased;
    }
    assert_eq!(easing_circ(Level::from_raw(0)).micros, 0);
    assert_eq!(easing_circ(Level::from_raw(64)).micros, 136_260);
    assert_eq!(easing_circ(Level::from_raw(127)).micros, 1_000_000);
}

#[test]
fn new_binding_starts_high_at_time_zero() {
    let b = MidiCommand::new(&[0xB0, 7, 99], fader(1)).unwrap();
    assert_eq!(b.message, [0xB0, 7, 99]);
    assert_eq!(b.motu_command, fader(1));
    assert_eq!(b.midi_value, 0);
    assert_eq!(b.prev_midi_value, 127);
    assert_eq!(b.timestamp, 10000);
    assert_eq!(b.prev_timestamp, 0);
    assert_eq!(b.delta_value(), 127);
    assert_eq!(b.delta_time(), 10000);
}

#[test]
fn new_binding_needs_three_bytes() {
    assert!(MidiCommand::new(&[], fader(1)).is_none());
    assert!(MidiCommand::new(&[0xB0, 7], fader(1)).is_none());
    assert!(MidiCommand::new(&[0xB0, 7, 0, 0], fader(1)).is_none());
}

#[test]
fn deltas_are_distances() {
    let mut b = binding(64, 500);
    b.midi_value = 60;
    b.timestamp = 750;
    assert_eq!(b.delta_value(), 4);
    assert_eq!(b.delta_time(), 250);
    b.midi_value = 70;
    b.timestamp = 400;
    assert_eq!(b.delta_value(), 6);
    assert_eq!(b.delta_time(), 0);
}

#[test]
fn end_stops_are_always_forwarded() {
    for last_raw in [0u8, 1, 64, 126, 127] {
        for (last_emit, now) in [(0u64, 0u64), (100, 100), (100, 105), (100, 50), (0, 5000)] {
            for raw in [0u8, 1, 2, 125, 126, 127] {
                assert!(forwarded(last_raw, last_emit, raw, now));
            }
        }
    }
}

#[test]
fn small_changes_coalesce_until_a_threshold_fires() {
    let mut b = binding(64, 0);
    assert_eq!(b.on_event(65, Ok(20)), Ok(None));
    assert_eq!((b.prev_midi_value, b.prev_timestamp), (64, 0));
    assert_eq!((b.midi_value, b.timestamp), (65, 20));
    let outcome = b.on_event(70, Ok(260));
    assert_eq!(outcome, Ok(Some(fader_at(1, 165_615))));
    assert_eq!((b.prev_midi_value, b.prev_timestamp), (70, 260));
    assert_eq!(b.motu_command, fader_at(1, 165_615));
}

#[test]
fn thresholds_depend_on_the_time_since_the_last_forwarded_event() {
    // Up to 10 ms only jumps of more than 30 pass.
    assert!(!forwarded(60, 1000, 90, 1010));
    assert!(forwarded(60, 1000, 91, 1010));
    assert!(forwarded(60, 1000, 29, 1000));
    assert!(!forwarded(60, 1000, 30, 1000));
    // From 11 to 100 ms a change of more than 5 passes.
    assert!(!forwarded(60, 1000, 65, 1011));
    assert!(forwarded(60, 1000, 66, 1011));
    assert!(forwarded(60, 1000, 54, 1100));
    assert!(!forwarded(60, 1000, 55, 1100));
    // From 101 to 150 ms a change of more than 2 passes.
    assert!(!forwarded(60, 1000, 62, 1101));
    assert!(forwarded(60, 1000, 63, 1101));
    assert!(forwarded(60, 1000, 57, 1150));
    assert!(!forwarded(60, 1000, 58, 1150));
    // From 151 ms on any change passes.
    assert!(forwarded(60, 1000, 61, 1151));
    assert!(!forwarded(60, 1000, 60, 1151));
    assert!(forwarded(60, 1000, 59, 1250));
    assert!(forwarded(60, 1000, 61, 1251));
    assert!(!forwarded(60, 1000, 60, 1251));
    assert!(!forwarded(60, 1000, 60, 2000));
}

#[test]
fn after_a_second_every_event_is_forwarded() {
    assert!(!forwarded(60, 1000, 60, 2000));
    assert!(forwarded(60, 1000, 60, 2001));
    assert!(forwarded(60, 0, 60, u64::MAX));
}

#[test]
fn a_clock_that_went_backwards_counts_as_no_time() {
    assert!(!forwarded(60, 1000, 61, 900));
    assert!(!forwarded(60, 1000, 90, 0));
    assert!(forwarded(60, 1000, 91, 0));
}

#[test]
fn a_failed_clock_changes_nothing() {
    let mut b = binding(64, 300);
    b.midi_value = 10;
    b.timestamp = 400;
    b.motu_command = fader_at(1, 77);
    let outcome = b.on_event(127, Err(String::from("clock unavailable")));
    assert_eq!(outcome, Err(String::from("clock unavailable")));
    assert_eq!((b.midi_value, b.timestamp), (10, 400));
    assert_eq!((b.prev_midi_value, b.prev_timestamp), (64, 300));
    assert_eq!(b.motu_command, fader_at(1, 77));
    assert_eq!(
        b.set_midi_value_at(5, Err(String::from("no clock"))),
        Err(String::from("no clock"))
    );
    assert_eq!((b.midi_value, b.timestamp), (10, 400));
}

#[test]
fn every_event_updates_the_bound_command() {
    let mut b = binding(64, 0);
    assert_eq!(b.set_midi_value_at(65, Ok(5)), Ok(()));
    assert_eq!(b.motu_command, fader_at(1, 140_902));
    assert_eq!((b.midi_value, b.timestamp), (65, 5));
    assert!(!b.do_throttle());
    assert_eq!((b.prev_midi_value, b.prev_timestamp), (64, 0));
    assert_eq!(b.set_midi_value_at(100, Ok(6)), Ok(()));
    assert_eq!(b.motu_command, fader_at(1, 383_559));
    assert!(b.do_throttle());
    assert_eq!((b.prev_midi_value, b.prev_timestamp), (100, 6));
}

#[test]
fn a_bound_toggle_advances_on_every_event() {
    let toggle = |mask: u8| MotuCommand::ToggleSend {
        channel: Channel::new(1, ChannelType::Chan),
        aux_channels: vec![Channel::new(1, ChannelType::Aux), Channel::new(2, ChannelType::Aux)],
        active_sends: mask,
    };
    let mut b = MidiCommand::new(&[0x90, 60, 0], toggle(0)).unwrap();
    assert_eq!(b.on_event(127, Ok(1)), Ok(Some(toggle(1))));
    assert_eq!(b.on_event(127, Ok(2)), Ok(Some(toggle(2))));
    assert_eq!(b.on_event(126, Ok(3)), Ok(Some(toggle(3))));
    assert_eq!(b.on_event(127, Ok(4)), Ok(Some(toggle(0))));
}

#[test]
fn set_midi_value_reads_the_wall_clock() {
    let mut b = binding(64, 0);
    assert_eq!(b.set_midi_value(100), Ok(()));
    assert_eq!(b.midi_value, 100);
    assert_eq!(b.motu_command, fader_at(1, 383_559));
    // Any time after the year 2020 and before the year 2200.
    assert!(b.timestamp > 1_577_836_800_000);
    assert!(b.timestamp < 7_258_118_400_000);
    assert!(b.do_throttle());
}

#[test]
fn message_classes() {
    assert_eq!(class_of_status(0xB0), MidiType::CC);
    assert_eq!(class_of_status(0xBF), MidiType::CC);
    assert_eq!(class_of_status(0x93), MidiType::NoteOn);
    assert_eq!(class_of_status(0x80), MidiType::NoteOff);
    assert_eq!(class_of_status(0xC0), MidiType::Undefined);
    assert_eq!(class_of_status(0x0B), MidiType::Undefined);
    assert_eq!(MidiType::from(&[0xB1u8, 2, 3][..]), MidiType::CC);
    assert_eq!(MidiType::from(&[0x91u8, 2, 3][..]), MidiType::NoteOn);
    assert_eq!(MidiType::from(&[0x81u8, 2, 3][..]), MidiType::NoteOff);
    assert_eq!(MidiType::from(&[0xE1u8, 2, 3][..]), MidiType::Undefined);
    assert_eq!(MidiType::from(&[0xB1u8, 2][..]), MidiType::Undefined);
    assert_eq!(MidiType::from(&0x9Fu8), MidiType::NoteOn);
    assert_eq!(u8::from(MidiType::CC), 0xB);
    assert_eq!(u8::from(MidiType::NoteOn), 0x9);
    assert_eq!(u8::from(MidiType::NoteOff), 0x8);
    assert_eq!(u8::from(MidiType::Undefined), 0xFF);
    assert_eq!(MidiType::CC.to_string(), "CC");
    assert_eq!(MidiType::NoteOn.to_string(), "NoteOn");
    assert_eq!(MidiType::NoteOff.to_string(), "NoteOff");
    assert_eq!(MidiType::Undefined.to_string(), "UNDEFINED");
}

#[test]
fn message_helpers() {
    assert!(is_midi(&[0xB0, 1, 2]));
    assert!(!is_midi(&[0xB0, 1]));
    assert!(!is_midi(&[]));
    assert_eq!(midi_type(&[0xB0, 1, 2]), Some(MidiType::CC));
    assert_eq!(midi_type(&[0x10, 1, 2]), Some(MidiType::Undefined));
    assert_eq!(midi_type(&[0xB0, 1]), None);
    assert_eq!(channel(&[0xB0, 1, 2]), Some(1));
    assert_eq!(channel(&[0x9F, 1, 2]), Some(16));
    assert_eq!(channel(&[0x9F, 1]), None);
}

fn surface_config(midi_channel: Option<u8>) -> Config {
    Config {
        ip_address: IpEndpoint::from("127.0.0.1"),
        network: NetworkConfig { ip_address: IpEndpoint::from("127.0.0.1") },
        aux_channels: ChannelNames::new(),
        channels: ChannelNames::new(),
        monitor_groups: ChannelNames::new(),
        midi_config: midi_channel.map(|midi_channel| MidiConfig {
            input: String::from("surface"),
            output: String::from("surface"),
            midi_channel,
        }),
        midi_mapping_cc: vec![(7, fader(1)), (8, fader(2))],
        midi_mapping_note_on: vec![(60, MotuCommand::Mute(Channel::new(1, ChannelType::Chan)))],
        midi_mapping_note_off: vec![(60, MotuCommand::Unmute(Channel::new(1, ChannelType::Chan)))],
    }
}

#[test]
fn bindings_follow_the_mappings() {
    let bindings = control_bindings(&surface_config(Some(3))).unwrap();
    let summary: Vec<([u8; 3], MotuCommand)> =
        bindings.iter().map(|b| (b.message, b.motu_command.copy())).collect();
    assert_eq!(
        summary,
        vec![
            ([0xB2, 7, 0], fader(1)),
            ([0xB2, 8, 0], fader(2)),
            ([0x92, 60, 0], MotuCommand::Mute(Channel::new(1, ChannelType::Chan))),
            ([0x82, 60, 0], MotuCommand::Unmute(Channel::new(1, ChannelType::Chan))),
        ]
    );
    for b in &bindings {
        assert_eq!((b.midi_value, b.prev_midi_value, b.timestamp, b.prev_timestamp), (0, 127, 10000, 0));
    }
    assert_eq!(control_bindings(&surface_config(Some(1))).unwrap()[0].message, [0xB0, 7, 0]);
    assert_eq!(control_bindings(&surface_config(Some(16))).unwrap()[0].message, [0xBF, 7, 0]);
}

#[test]
fn bindings_refuse_a_faulty_configuration() {
    assert_eq!(
        control_bindings(&surface_config(None)).err(),
        Some(String::from("No MIDI configuration"))
    );
    assert_eq!(
        control_bindings(&surface_config(Some(0))).err(),
        Some(String::from("Invalid MIDI channel"))
    );
    assert_eq!(
        control_bindings(&surface_config(Some(17))).err(),
        Some(String::from("Invalid MIDI channel"))
    );
    let mut config = surface_config(Some(1));
    config.midi_mapping_note_off.push((256, MotuCommand::Init));
    assert_eq!(
        control_bindings(&config).err(),
        Some(String::from("Invalid control number"))
    );
    let mut config = surface_config(Some(1));
    config.midi_mapping_cc.push((255, MotuCommand::Init));
    assert_eq!(control_bindings(&config).unwrap().len(), 5);
}

#[test]
fn the_first_binding_of_a_control_is_found() {
    let mut bindings = control_bindings(&surface_config(Some(1))).unwrap();
    bindings.push(MidiCommand::new(&[0xB0, 8, 0], fader(99)).unwrap());
    assert_eq!(find_binding(&bindings, &[0xB0, 7, 5]), Some(0));
    assert_eq!(find_binding(&bindings, &[0xB0, 8, 5]), Some(1));
    assert_eq!(find_binding(&bindings, &[0x90, 60, 5]), Some(2));
    assert_eq!(find_binding(&bindings, &[0x80, 60, 5]), Some(3));
    assert_eq!(find_binding(&bindings, &[0xB0, 9, 5]), None);
    assert_eq!(find_binding(&bindings, &[0xB1, 7, 5]), None);
    assert_eq!(find_binding(&bindings, &[0xB0]), None);
    assert_eq!(find_binding(&bindings, &[0xB0, 7]), Some(0));
}

#[test]
fn a_message_drives_only_its_own_binding() {
    let mut bindings = control_bindings(&surface_config(Some(1))).unwrap();
    let outcome = handle_message(&mut bindings, &[0xB0, 8, 127], Ok(42));
    assert_eq!(outcome, Ok(Some(fader_at(2, 1_000_000))));
    assert_eq!(bindings.len(), 4);
    assert_eq!((bindings[1].prev_midi_value, bindings[1].prev_timestamp), (127, 42));
    assert_eq!(bindings[1].message, [0xB0, 8, 0]);
    for i in [0usize, 2, 3] {
        assert_eq!((bindings[i].midi_value, bindings[i].timestamp), (0, 10000));
        assert_eq!((bindings[i].prev_midi_value, bindings[i].prev_timestamp), (127, 0));
    }
    assert_eq!(bindings[0].motu_command, fader(1));
    // The next small move of the same control is withheld.
    assert_eq!(handle_message(&mut bindings, &[0xB0, 8, 120], Ok(45)), Ok(None));
    assert_eq!(bindings[1].motu_command, fader_at(2, 672_587));
    assert_eq!((bindings[1].prev_midi_value, bindings[1].prev_timestamp), (127, 42));
}

#[test]
fn other_messages_change_nothing() {
    let mut bindings = control_bindings(&surface_config(Some(1))).unwrap();
    for message in [&[0xB0u8, 9, 1][..], &[0xB0, 7][..], &[][..], &[0xB0, 7, 128][..], &[0xB0, 7, 1, 1][..]] {
        assert_eq!(handle_message(&mut bindings, message, Ok(1)), Ok(None));
        assert_eq!(
            handle_message(&mut bindings, message, Err(String::from("no clock"))),
            Ok(None)
        );
    }
    for b in &bindings {
        assert_eq!((b.midi_value, b.prev_midi_value, b.timestamp, b.prev_timestamp), (0, 127, 10000, 0));
    }
    assert_eq!(
        handle_message(&mut bindings, &[0xB0, 7, 1], Err(String::from("no clock"))),
        Err(String::from("no clock"))
    );
    assert_eq!(bindings[0].timestamp, 10000);
}

#[test]
fn receive_stamps_events_with_the_wall_clock() {
    let mut bindings = control_bindings(&surface_config(Some(1))).unwrap();
    assert_eq!(receive(&mut bindings, &[0xB0, 7, 0]), Ok(Some(fader(1))));
    assert!(bindings[0].prev_timestamp > 1_577_836_800_000);
    assert_eq!(bindings[0].prev_midi_value, 0);
    assert_eq!(receive(&mut bindings, &[0xB5, 7, 0]), Ok(None));
}

#[test]
fn the_port_is_chosen_by_name_without_regard_to_case() {
    let names = |list: &[&str]| list.iter().map(|s| String::from(*s)).collect::<Vec<String>>();
    assert_eq!(choose_port(&names(&["Through", "USB MIDI Device", "midi 2"]), "Midi"), PortChoice::Named(1));
    assert_eq!(choose_port(&names(&["ABC Midi"]), "MIDI"), PortChoice::Named(0));
    assert_eq!(choose_port(&names(&["Through"]), "midi"), PortChoice::Only);
    assert_eq!(choose_port(&names(&["Through", "Other"]), "midi"), PortChoice::Ask);
    assert_eq!(choose_port(&names(&[]), "midi"), PortChoice::Missing);
    assert_eq!(choose_port(&names(&["a", "b"]), ""), PortChoice::Named(0));
    assert_eq!(choose_port(&names(&["ÄRGER", "x"]), "ärger"), PortChoice::Named(0));
}

#[test]
fn the_answer_picks_a_port() {
    assert_eq!(port_from_answer("1", 3), Ok(1));
    assert_eq!(port_from_answer(" 2\n", 3), Ok(2));
    assert_eq!(port_from_answer("\t0 \r\n", 3), Ok(0));
    assert_eq!(port_from_answer("+1", 3), Ok(1));
    for answer in ["3", "", "   ", "one", "-1", "1 2", "99999999999999999999"] {
        assert_eq!(
            port_from_answer(answer, 3),
            Err(String::from("invalid input port selected")),
            "{:?}",
            answer
        );
    }
    assert_eq!(port_from_answer("0", 0), Err(String::from("invalid input port selected")));
}

#[test]
fn mapped_commands_can_be_named() {
    let named = vec![
        MappedCommand::Vol(1),
        MappedCommand::Send(1, 2),
        MappedCommand::Init,
        MappedCommand::MonitorOn,
        MappedCommand::MonitorOff,
    ];
    assert_eq!(format!("{:?}", named[1]), "Send(1, 2)");
    assert_eq!(named.len(), 5);
}

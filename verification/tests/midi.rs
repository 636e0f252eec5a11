//! Surface messages, input parsing, and banked controller state.

use xtouch_wing::data::{InternalFunction, LabelError};
use xtouch_wing::meters::MeterKind;
use xtouch_wing::midi::{
    channel_aftertouch_message, clean_button_messages, colour_sysex, controller_message,
    lcd_text_messages, main_display_messages, note_on_message, parse_midi_message,
    pitch_bend_message, seven_segment, wing_colour, ConfigError, Controller, MidiEvent,
    NoteAction, SurfaceAction, SurfaceError,
};
use xtouch_wing::settings::{ControllerAssignments, FaderBank};
use xtouch_wing::Value;

fn assignments(banks: Vec<(Option<&str>, Vec<&str>)>, buttons: Vec<(u32, &str)>) -> ControllerAssignments {
    ControllerAssignments {
        banks: banks
            .into_iter()
            .map(|(name, faders)| FaderBank {
                name: name.map(|n| n.to_string()),
                faders: faders.into_iter().map(|f| f.to_string()).collect(),
            })
            .collect(),
        fader_buttons: Vec::new(),
        fixed_faders: Vec::new(),
        fixed_buttons: buttons.into_iter().map(|(k, l)| (k, l.to_string())).collect(),
    }
}

fn two_bank_controller() -> Controller {
    Controller::new(&assignments(
        vec![
            (Some("Bank A"), vec!["Channel 1", "Channel 2"]),
            (Some("Bank B"), vec!["Bus 1", "Bus 2"]),
        ],
        vec![(46, "Previous Bank"), (47, "Next Bank")],
    ))
    .unwrap()
}

#[test]
fn channel_message_encodings() {
    assert_eq!(note_on_message(0, 46, 127), vec![0x90, 46, 127]);
    assert_eq!(note_on_message(3, 200, 200), vec![0x93, 200 & 0x7f, 200 & 0x7f]);
    assert_eq!(pitch_bend_message(2, 0x1234), vec![0xe2, 0x34, 0x24]);
    assert_eq!(controller_message(0, 75, 8), vec![0xb0, 75, 8]);
    assert_eq!(channel_aftertouch_message(0, 0x35), vec![0xd0, 0x35]);
}

#[test]
fn clean_buttons_covers_all_notes() {
    let msgs = clean_button_messages();
    assert_eq!(msgs.len(), 115);
    assert_eq!(msgs[0], vec![0x90, 0, 0]);
    assert_eq!(msgs[114], vec![0x90, 114, 0]);
}

#[test]
fn colour_table_and_sysex() {
    assert_eq!(wing_colour(0), 0);
    assert_eq!(wing_colour(1), 7);
    assert_eq!(wing_colour(3), 4);
    assert_eq!(wing_colour(12), 5);
    assert_eq!(wing_colour(13), 7);
    assert_eq!(wing_colour(-1), 7);

    let sysex = colour_sysex(&vec![1, 2, 3, 4, 5, 6, 7, 0]);
    assert_eq!(
        sysex,
        vec![0xf0, 0x00, 0x00, 0x66, 0x14, 0x72, 1, 2, 3, 4, 5, 6, 7, 0, 0xf7]
    );
}

#[test]
fn seven_segment_table() {
    assert_eq!(seven_segment(' '), Some(0));
    assert_eq!(seven_segment('A'), Some(1));
    assert_eq!(seven_segment('z'), Some(26));
    assert_eq!(seven_segment('0'), Some(48));
    assert_eq!(seven_segment(':'), Some(34));
    assert_eq!(seven_segment('@'), Some(38));
    assert_eq!(seven_segment('\u{7}'), None);
}

#[test]
fn lcd_text_splits_at_first_space() {
    let msgs = lcd_text_messages("AB CD", 0);
    assert_eq!(msgs.len(), 2);
    assert_eq!(
        msgs[0],
        vec![0xf0, 0x00, 0x00, 0x66, 0x14, 0x12, 0, b'A', b'B', b' ', b' ', b' ', b' ', b' ', 0xf7]
    );
    assert_eq!(
        msgs[1],
        vec![0xf0, 0x00, 0x00, 0x66, 0x14, 0x12, 56, b'C', b'D', b' ', b' ', b' ', b' ', b' ', 0xf7]
    );
}

#[test]
fn lcd_text_without_space_splits_by_width() {
    let msgs = lcd_text_messages("ABCDEFGHIJ", 1);
    assert_eq!(msgs.len(), 2);
    assert_eq!(
        msgs[0],
        vec![0xf0, 0x00, 0x00, 0x66, 0x14, 0x12, 7, b'A', b'B', b'C', b'D', b'E', b'F', b'G', 0xf7]
    );
    assert_eq!(
        msgs[1],
        vec![0xf0, 0x00, 0x00, 0x66, 0x14, 0x12, 63, b'H', b'I', b'J', b' ', b' ', b' ', b' ', 0xf7]
    );
}

#[test]
fn lcd_display_index_out_of_range_is_dropped() {
    assert!(lcd_text_messages("Hello", 8).is_empty());
}

#[test]
fn main_display_covers_all_positions() {
    let msgs = main_display_messages("HI");
    // Every position has a rendering (blanks clear stale digits).
    assert_eq!(msgs.len(), 12);
    // Two leading blanks, then the text, then blanks.
    assert_eq!(msgs[0], vec![0xb0, 75, 0]);
    assert_eq!(msgs[1], vec![0xb0, 74, 0]);
    assert_eq!(msgs[2], vec![0xb0, 73, 8]);
    assert_eq!(msgs[3], vec![0xb0, 72, 9]);
    assert_eq!(msgs[4], vec![0xb0, 71, 0]);
}

#[test]
fn midi_parsing() {
    assert_eq!(
        parse_midi_message(&vec![0x90, 46, 127]),
        Some(MidiEvent::NoteOn { channel: 0, key: 46, vel: 127 })
    );
    assert_eq!(
        parse_midi_message(&vec![0xe3, 0x01, 0x40]),
        Some(MidiEvent::PitchBend { channel: 3, bend: 0x01 + 0x40 * 128 })
    );
    assert_eq!(parse_midi_message(&vec![0x90, 200, 1]), None);
    assert_eq!(parse_midi_message(&vec![0xb0, 1, 1]), None);
    assert_eq!(parse_midi_message(&vec![0x90, 46]), None);
    assert_eq!(parse_midi_message(&vec![]), None);
}

#[test]
fn controller_construction_and_errors() {
    let controller = two_bank_controller();
    assert_eq!(controller.current_bank(), 0);
    assert_eq!(controller.bank_count(), 2);
    assert_eq!(controller.bank_name().as_deref(), Some("Bank A"));

    let bad_fader = Controller::new(&assignments(vec![(None, vec!["Channel"])], vec![]));
    assert_eq!(bad_fader.unwrap_err(), ConfigError::Fader(LabelError::MissingIndex));

    let bad_button = Controller::new(&assignments(vec![], vec![(1, "Launch")]));
    assert!(matches!(bad_button.unwrap_err(), ConfigError::Button(_)));
}

#[test]
fn fader_move_becomes_surface_action() {
    let mut controller = two_bank_controller();
    let bits = (-10.0f32).to_bits();
    let actions = controller.process_osc_input("/ch/1/fdr", &Value::Float(bits)).unwrap();
    assert_eq!(actions, vec![SurfaceAction::MoveFader { fader_index: 0, db_bits: bits }]);

    // A value of the wrong variant is dropped.
    let actions = controller.process_osc_input("/ch/1/fdr", &Value::Int(3)).unwrap();
    assert!(actions.is_empty());

    // A path no fader of the bank matches produces nothing.
    let actions = controller.process_osc_input("/bus/1/fdr", &Value::Float(bits)).unwrap();
    assert!(actions.is_empty());
}

#[test]
fn scribble_colour_updates_cache_and_emits_sysex() {
    let mut controller = two_bank_controller();
    let actions = controller.process_osc_input("/ch/2/$col", &Value::Int(3)).unwrap();
    assert_eq!(
        actions,
        vec![SurfaceAction::Midi(vec![
            0xf0, 0x00, 0x00, 0x66, 0x14, 0x72, 7, 4, 7, 7, 7, 7, 7, 7, 0xf7
        ])]
    );
}

#[test]
fn scribble_name_emits_lcd_messages() {
    let mut controller = two_bank_controller();
    let actions = controller
        .process_osc_input("/ch/1/$name", &Value::Str("Vox".to_string()))
        .unwrap();
    assert_eq!(actions.len(), 2);
    match &actions[0] {
        SurfaceAction::Midi(bytes) => assert_eq!(bytes[6], 0),
        other => panic!("expected bytes, got {:?}", other),
    }
}

#[test]
fn bank_switching_wraps() {
    let mut controller = two_bank_controller();
    controller.do_function(InternalFunction::NextBank);
    assert_eq!(controller.current_bank(), 1);
    assert_eq!(controller.bank_name().as_deref(), Some("Bank B"));
    controller.do_function(InternalFunction::NextBank);
    assert_eq!(controller.current_bank(), 0);
    controller.do_function(InternalFunction::PreviousBank);
    assert_eq!(controller.current_bank(), 1);

    // After switching, the second bank's faders answer.
    let bits = 0.0f32.to_bits();
    let actions = controller.process_osc_input("/bus/2/fdr", &Value::Float(bits)).unwrap();
    assert_eq!(actions, vec![SurfaceAction::MoveFader { fader_index: 1, db_bits: bits }]);
}

#[test]
fn button_leds_follow_bank_position() {
    let mut controller = two_bank_controller();
    // On the first bank only the next-bank LED is lit.
    assert_eq!(controller.button_led_message(47), Some(vec![0x90, 47, 127]));
    assert_eq!(controller.button_led_message(46), Some(vec![0x90, 46, 0]));
    assert_eq!(controller.button_led_message(99), None);
    controller.do_function(InternalFunction::NextBank);
    assert_eq!(controller.button_led_message(47), Some(vec![0x90, 47, 0]));
    assert_eq!(controller.button_led_message(46), Some(vec![0x90, 46, 127]));

    let all = controller.button_led_messages();
    assert_eq!(all.len(), 2);
}

#[test]
fn note_on_dispatch() {
    let controller = two_bank_controller();
    assert_eq!(controller.handle_note_on(46, 0), NoteAction::Released);
    assert_eq!(controller.handle_note_on(46, 64), NoteAction::UnsupportedVelocity);
    assert_eq!(
        controller.handle_note_on(46, 127),
        NoteAction::Function(InternalFunction::PreviousBank)
    );
    assert_eq!(
        controller.handle_note_on(47, 127),
        NoteAction::Function(InternalFunction::NextBank)
    );
    assert_eq!(controller.handle_note_on(99, 127), NoteAction::Unassigned);
}

#[test]
fn bank_meters_and_fader_targets() {
    let controller = two_bank_controller();
    assert_eq!(controller.bank_meters(), vec![MeterKind::Channel(1), MeterKind::Channel(2)]);
    assert_eq!(controller.pitch_bend_target(0).as_deref(), Some("/ch/1/fdr"));
    assert_eq!(controller.pitch_bend_target(1).as_deref(), Some("/ch/2/fdr"));
    assert_eq!(controller.pitch_bend_target(2), None);

    let paths = controller.bank_fader_paths(xtouch_wing::data::PathType::ScribbleName);
    assert_eq!(paths, vec!["/ch/1/$name".to_string(), "/ch/2/$name".to_string()]);
}

#[test]
fn empty_bank_list_reports_missing_bank() {
    let mut controller = Controller::new(&assignments(vec![], vec![])).unwrap();
    let result = controller.process_osc_input("/ch/1/fdr", &Value::Int(1));
    assert_eq!(result.unwrap_err(), SurfaceError::BankNotFound);
}

#[test]
fn lcd_long_text_with_space_splits_by_width() {
    // A space does not help once the text cannot fit both rows.
    let msgs = lcd_text_messages("AB CDEFGHIJKLMNOP", 0);
    assert_eq!(
        msgs[0],
        vec![0xf0, 0x00, 0x00, 0x66, 0x14, 0x12, 0, b'A', b'B', b' ', b'C', b'D', b'E', b'F', 0xf7]
    );
    assert_eq!(
        msgs[1],
        vec![0xf0, 0x00, 0x00, 0x66, 0x14, 0x12, 56, b'G', b'H', b'I', b'J', b'K', b'L', b'M', 0xf7]
    );
}

#[test]
fn main_display_long_text_drops_the_offset() {
    let msgs = main_display_messages("ABCDEFGHIJKL");
    assert_eq!(msgs.len(), 12);
    // Eleven characters or more start at the leftmost position.
    assert_eq!(msgs[0], vec![0xb0, 75, 1]);
    assert_eq!(msgs[11], vec![0xb0, 64, 12]);
}

#[test]
fn scribble_led_path_is_ignored_by_the_surface() {
    let mut controller = two_bank_controller();
    let actions = controller.process_osc_input("/ch/1/led", &Value::Int(1)).unwrap();
    assert!(actions.is_empty());
}

#[test]
fn out_of_palette_colour_falls_back_to_white() {
    let mut controller = two_bank_controller();
    let actions = controller.process_osc_input("/ch/1/$col", &Value::Int(99)).unwrap();
    assert_eq!(
        actions,
        vec![SurfaceAction::Midi(vec![
            0xf0, 0x00, 0x00, 0x66, 0x14, 0x72, 7, 7, 7, 7, 7, 7, 7, 7, 0xf7
        ])]
    );
}

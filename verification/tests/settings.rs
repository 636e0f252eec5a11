//! The built-in configuration and surface layout.

use xtouch_wing::midi::Controller;
use xtouch_wing::settings::{ControllerAssignments, MidiDefinition, Settings};

#[test]
fn built_in_assignments_cover_the_console() {
    let assignments = ControllerAssignments::x_touch_full();
    assert_eq!(assignments.banks.len(), 12);
    assert_eq!(assignments.banks[0].name.as_deref(), Some("CH 1-8"));
    assert_eq!(
        assignments.banks[0].faders,
        (1..=8).map(|i| format!("Channel {}", i)).collect::<Vec<_>>()
    );
    assert_eq!(assignments.banks[4].faders[7], "Channel 40");
    assert_eq!(assignments.banks[8].name.as_deref(), Some("MAIN"));
    assert_eq!(assignments.banks[8].faders.len(), 4);
    assert_eq!(assignments.banks[11].faders[0], "DCA 9");
    assert_eq!(assignments.fader_buttons, vec!["Rec", "Solo", "Mute"]);
    assert!(assignments.fixed_faders.is_empty());
    assert_eq!(
        assignments.fixed_buttons,
        vec![(46, "Previous Bank".to_string()), (47, "Next Bank".to_string())]
    );
}

#[test]
fn built_in_assignments_configure_a_surface() {
    let assignments = ControllerAssignments::x_touch_full();
    let controller = Controller::new(&assignments).unwrap();
    assert_eq!(controller.current_bank(), 0);
    assert_eq!(controller.bank_count(), 12);
    assert_eq!(controller.pitch_bend_target(0).as_deref(), Some("/ch/1/fdr"));
    assert_eq!(controller.bank_name().as_deref(), Some("CH 1-8"));
}

#[test]
fn built_in_definition_layout() {
    let definition = MidiDefinition::x_touch_full();
    assert_eq!(definition.faders.len(), 9);
    for ch in 0..8u8 {
        let fader = &definition.faders[ch as usize];
        assert_eq!(fader.channel, ch);
        assert_eq!(fader.buttons.len(), 5);
        for (btn, button) in fader.buttons.iter().enumerate() {
            assert_eq!(button.channel, ch);
            assert_eq!(button.key, ch + btn as u8 * 8);
        }
    }
    assert_eq!(definition.faders[8].channel, 8);
    assert!(definition.faders[8].buttons.is_empty());
    assert_eq!(definition.faders[8].description.as_deref(), Some("Master Fader"));

    assert_eq!(definition.buttons.len(), 62);
    assert_eq!(definition.buttons[0].key, 40);
    assert_eq!(definition.buttons[0].description.as_deref(), Some("Track"));
    assert_eq!(definition.buttons[61].key, 101);
    assert!(definition.buttons.iter().all(|b| b.channel == 0));
}

#[test]
fn default_settings() {
    let settings = Settings::default();
    assert_eq!(settings.faders.len(), 8);
    assert_eq!(settings.faders[0].osc, "ch.1.fdr");
    assert_eq!(settings.faders[7].osc, "ch.8.fdr");
    assert_eq!(settings.master.osc, "dca.1.fdr");
    assert_eq!(settings.console.ip, "127.0.0.1");
    assert_eq!(settings.console.port, 2223);
    assert_eq!(settings.midi.input, "X-Touch");
    assert_eq!(settings.midi.output, "X-Touch");
    assert_eq!(settings.midi.assignments.banks.len(), 12);
    assert_eq!(settings.midi_definition.faders.len(), 9);
    assert_eq!(settings.mqtt.host, "localhost");
    assert_eq!(settings.mqtt.port, 1883);
}

#[test]
fn built_in_banks_name_every_strip_kind() {
    let assignments = ControllerAssignments::x_touch_full();
    assert_eq!(assignments.banks[5].faders[0], "Aux 1");
    assert_eq!(assignments.banks[6].faders[0], "Bus 1");
    assert_eq!(assignments.banks[7].faders[7], "Bus 16");
    assert_eq!(assignments.banks[8].faders[3], "Main 4");
    assert_eq!(assignments.banks[9].faders[0], "Matrix 1");
    assert_eq!(assignments.banks[10].faders[0], "DCA 1");
}

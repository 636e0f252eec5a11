//! Fader and button labels, and the path convention.

use xtouch_wing::data::{
    ButtonError, Fader, InternalButton, InternalFunction, LabelError, OscButton, PathType,
};
use xtouch_wing::meters::MeterKind;

#[test]
fn channel_label_parses() {
    let fader = Fader::new_from_label("Channel 1").unwrap();
    assert_eq!(fader.get_osc_path(PathType::Fader), "/ch/1/fdr");
    assert_eq!(fader.get_osc_path(PathType::Panning), "/ch/1/pan");
    assert_eq!(fader.get_osc_path(PathType::Mute), "/ch/1/mute");
    assert_eq!(fader.get_osc_path(PathType::ScribbleColour), "/ch/1/$col");
    assert_eq!(fader.get_osc_path(PathType::ScribbleName), "/ch/1/$name");
    assert_eq!(fader.get_osc_path(PathType::ScribbleLed), "/ch/1led");
    assert_eq!(fader.get_meter(), Some(MeterKind::Channel(1)));
}

#[test]
fn label_keywords_and_directories() {
    assert_eq!(
        Fader::new_from_label("Matrix 4").unwrap().get_osc_path(PathType::Fader),
        "/mtx/4/fdr"
    );
    assert_eq!(
        Fader::new_from_label("lr 2").unwrap().get_osc_path(PathType::Fader),
        "/main/2/fdr"
    );
    assert_eq!(
        Fader::new_from_label("DCA 16").unwrap().get_meter(),
        Some(MeterKind::Dca(16))
    );
    assert_eq!(
        Fader::new_from_label("aux 3").unwrap().get_meter(),
        Some(MeterKind::Aux(3))
    );
    // Written digits are kept in the path, the parsed value in the meter.
    let padded = Fader::new_from_label("bus 07").unwrap();
    assert_eq!(padded.get_osc_path(PathType::Fader), "/bus/07/fdr");
    assert_eq!(padded.get_meter(), Some(MeterKind::Bus(7)));
}

#[test]
fn label_errors() {
    assert_eq!(Fader::new_from_label("Channel").unwrap_err(), LabelError::MissingIndex);
    assert_eq!(Fader::new_from_label("Foo 3").unwrap_err(), LabelError::UnknownFaderType);
    assert_eq!(Fader::new_from_label("Channel x").unwrap_err(), LabelError::InvalidFormat);
    assert_eq!(Fader::new_from_label("").unwrap_err(), LabelError::InvalidFormat);
    assert_eq!(Fader::new_from_label(" Channel 1").unwrap_err(), LabelError::InvalidFormat);
    assert_eq!(Fader::new_from_label("Channel 1 2").unwrap_err(), LabelError::InvalidFormat);
    assert_eq!(Fader::new_from_label("Channel 300").unwrap_err(), LabelError::InvalidIndex);
    // A digit glued to the word is part of the word.
    assert_eq!(Fader::new_from_label("Channel1").unwrap_err(), LabelError::UnknownFaderType);
}

#[test]
fn path_matching_round_trip() {
    let fader = Fader::new_from_label("Channel 1").unwrap();
    assert_eq!(fader.path_matches("/ch/1/fdr"), Some(PathType::Fader));
    assert_eq!(fader.path_matches("/ch/1/pan"), Some(PathType::Panning));
    assert_eq!(fader.path_matches("/ch/1/mute"), Some(PathType::Mute));
    assert_eq!(fader.path_matches("/ch/1/$col"), Some(PathType::ScribbleColour));
    assert_eq!(fader.path_matches("/ch/1/$name"), Some(PathType::ScribbleName));
    assert_eq!(fader.path_matches("/ch/1/led"), Some(PathType::ScribbleLed));
    assert_eq!(fader.path_matches("/ch/2/fdr"), None);
    assert_eq!(fader.path_matches("/ch/1/gain"), None);
    assert_eq!(fader.path_matches("fdr"), None);
    assert_eq!(fader.path_matches(""), None);
}

#[test]
fn osc_button_keeps_its_label() {
    let button = OscButton::new_from_label("/ch/1/mute").unwrap();
    assert_eq!(button.osc_name, "/ch/1/mute");
}

#[test]
fn internal_button_labels() {
    assert_eq!(
        InternalButton::new_from_label("Previous Bank").unwrap().function,
        InternalFunction::PreviousBank
    );
    assert_eq!(
        InternalButton::new_from_label("next bank").unwrap().function,
        InternalFunction::NextBank
    );
    assert_eq!(
        InternalButton::new_from_label("Launch").unwrap_err(),
        ButtonError::UnknownFunction
    );
    assert_eq!(
        InternalButton::new(InternalFunction::NextBank).function,
        InternalFunction::NextBank
    );
}

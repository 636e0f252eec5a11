//! Configuration structures: which console to reach, which MIDI ports
//! to open, and how the surface's banks, faders and buttons are laid
//! out.  Reading a configuration from disk or the environment is the
//! runtime's job; this module defines the shapes and the built-in
//! defaults.

use vstd::prelude::*;

verus! {

/// One fader slot bound to a console parameter path.
#[derive(Debug, Clone, PartialEq)]
pub struct FaderAssignment {
    pub osc: String,
}

/// The console endpoint to connect to.
#[derive(Debug, Clone, PartialEq)]
pub struct ConsoleSettings {
    pub ip: String,
    pub port: u16,
}

/// One bank: a named group of fader labels mapped onto the surface's
/// physical faders at one time.
#[derive(Debug, Clone, PartialEq)]
pub struct FaderBank {
    pub name: Option<String>,
    pub faders: Vec<String>,
}

/// How the surface's controls are assigned: its banks, the per-strip
/// button roles, and fixed faders and buttons keyed by their MIDI
/// note, each note bound at most once.
#[derive(Debug, Clone, PartialEq)]
pub struct ControllerAssignments {
    pub banks: Vec<FaderBank>,
    pub fader_buttons: Vec<String>,
    pub fixed_faders: Vec<(u32, String)>,
    pub fixed_buttons: Vec<(u32, String)>,
}

/// The MIDI ports of the surface and its control assignments.
#[derive(Debug, Clone, PartialEq)]
pub struct ControllerSettings {
    pub input: String,
    pub output: String,
    pub assignments: ControllerAssignments,
}

/// One physical button of the surface.
#[derive(Debug, Clone, PartialEq)]
pub struct MidiButton {
    pub channel: u8,
    pub key: u8,
    pub description: Option<String>,
}

/// One physical fader of the surface with its attached buttons.
#[derive(Debug, Clone, PartialEq)]
pub struct MidiFader {
    pub channel: u8,
    pub buttons: Vec<MidiButton>,
    pub description: Option<String>,
}

/// The surface's physical layout: its faders and free-standing buttons.
#[derive(Debug, Clone, PartialEq)]
pub struct MidiDefinition {
    pub faders: Vec<MidiFader>,
    pub buttons: Vec<MidiButton>,
}

/// The broker an auxiliary MQTT announcement is published to.
#[derive(Debug, Clone, PartialEq)]
pub struct MqttSettings {
    pub host: String,
    pub port: u16,
}

/// The whole configuration.
#[derive(Debug, Clone, PartialEq)]
pub struct Settings {
    pub faders: Vec<FaderAssignment>,
    pub master: FaderAssignment,
    pub console: ConsoleSettings,
    pub midi: ControllerSettings,
    pub midi_definition: MidiDefinition,
    pub mqtt: MqttSettings,
}

/// The index written in decimal, for the strip numbers the built-in
/// layout uses.
fn digits_str(n: u8) -> (r: &'static str)
    requires
        1 <= n <= 40,
    ensures
        r@.len() > 0,
        r@.len() <= 2,
        forall|i: int| 0 <= i < r@.len() ==> crate::data::is_digit_char(#[trigger] r@[i]),
        crate::data::digits_val(r@) == n,
        r@[0] != '0',
{
    match n {
        1 => {
            proof {
                reveal_strlit("1");
                assert("1"@ =~= seq!['1']);
                crate::data::lemma_digits_val_1('1');
            }
            "1"
        },
        2 => {
            proof {
                reveal_strlit("2");
                assert("2"@ =~= seq!['2']);
                crate::data::lemma_digits_val_1('2');
            }
            "2"
        },
        3 => {
            proof {
                reveal_strlit("3");
                assert("3"@ =~= seq!['3']);
                crate::data::lemma_digits_val_1('3');
            }
            "3"
        },
        4 => {
            proof {
                reveal_strlit("4");
                assert("4"@ =~= seq!['4']);
                crate::data::lemma_digits_val_1('4');
            }
            "4"
        },
        5 => {
            proof {
                reveal_strlit("5");
                assert("5"@ =~= seq!['5']);
                crate::data::lemma_digits_val_1('5');
            }
            "5"
        },
        6 => {
            proof {
                reveal_strlit("6");
                assert("6"@ =~= seq!['6']);
                crate::data::lemma_digits_val_1('6');
            }
            "6"
        },
        7 => {
            proof {
                reveal_strlit("7");
                assert("7"@ =~= seq!['7']);
                crate::data::lemma_digits_val_1('7');
            }
            "7"
        },
        8 => {
            proof {
                reveal_strlit("8");
                assert("8"@ =~= seq!['8']);
                crate::data::lemma_digits_val_1('8');
            }
            "8"
        },
        9 => {
            proof {
                reveal_strlit("9");
                assert("9"@ =~= seq!['9']);
                crate::data::lemma_digits_val_1('9');
            }
            "9"
        },
        10 => {
            proof {
                reveal_strlit("10");
                assert("10"@ =~= seq!['1', '0']);
                crate::data::lemma_digits_val_2('1', '0');
            }
            "10"
        },
        11 => {
            proof {
                reveal_strlit("11");
                assert("11"@ =~= seq!['1', '1']);
                crate::data::lemma_digits_val_2('1', '1');
            }
            "11"
        },
        12 => {
            proof {
                reveal_strlit("12");
                assert("12"@ =~= seq!['1', '2']);
                crate::data::lemma_digits_val_2('1', '2');
            }
            "12"
        },
        13 => {
            proof {
                reveal_strlit("13");
                assert("13"@ =~= seq!['1', '3']);
                crate::data::lemma_digits_val_2('1', '3');
            }
            "13"
        },
        14 => {
            proof {
                reveal_strlit("14");
                assert("14"@ =~= seq!['1', '4']);
                crate::data::lemma_digits_val_2('1', '4');
            }
            "14"
        },
        15 => {
            proof {
                reveal_strlit("15");
                assert("15"@ =~= seq!['1', '5']);
                crate::data::lemma_digits_val_2('1', '5');
            }
            "15"
        },
        16 => {
            proof {
                reveal_strlit("16");
                assert("16"@ =~= seq!['1', '6']);
                crate::data::lemma_digits_val_2('1', '6');
            }
            "16"
        },
        17 => {
            proof {
                reveal_strlit("17");
                assert("17"@ =~= seq!['1', '7']);
                crate::data::lemma_digits_val_2('1', '7');
            }
            "17"
        },
        18 => {
            proof {
                reveal_strlit("18");
                assert("18"@ =~= seq!['1', '8']);
                crate::data::lemma_digits_val_2('1', '8');
            }
            "18"
        },
        19 => {
            proof {
                reveal_strlit("19");
                assert("19"@ =~= seq!['1', '9']);
                crate::data::lemma_digits_val_2('1', '9');
            }
            "19"
        },
        20 => {
            proof {
                reveal_strlit("20");
                assert("20"@ =~= seq!['2', '0']);
                crate::data::lemma_digits_val_2('2', '0');
            }
            "20"
        },
        21 => {
            proof {
                reveal_strlit("21");
                assert("21"@ =~= seq!['2', '1']);
                crate::data::lemma_digits_val_2('2', '1');
            }
            "21"
        },
        22 => {
            proof {
                reveal_strlit("22");
                assert("22"@ =~= seq!['2', '2']);
                crate::data::lemma_digits_val_2('2', '2');
            }
            "22"
        },
        23 => {
            proof {
                reveal_strlit("23");
                assert("23"@ =~= seq!['2', '3']);
                crate::data::lemma_digits_val_2('2', '3');
            }
            "23"
        },
        24 => {
            proof {
                reveal_strlit("24");
                assert("24"@ =~= seq!['2', '4']);
                crate::data::lemma_digits_val_2('2', '4');
            }
            "24"
        },
        25 => {
            proof {
                reveal_strlit("25");
                assert("25"@ =~= seq!['2', '5']);
                crate::data::lemma_digits_val_2('2', '5');
            }
            "25"
        },
        26 => {
            proof {
                reveal_strlit("26");
                assert("26"@ =~= seq!['2', '6']);
                crate::data::lemma_digits_val_2('2', '6');
            }
            "26"
        },
        27 => {
            proof {
                reveal_strlit("27");
                assert("27"@ =~= seq!['2', '7']);
                crate::data::lemma_digits_val_2('2', '7');
            }
            "27"
        },
        28 => {
            proof {
                reveal_strlit("28");
                assert("28"@ =~= seq!['2', '8']);
                crate::data::lemma_digits_val_2('2', '8');
            }
            "28"
        },
        29 => {
            proof {
                reveal_strlit("29");
                assert("29"@ =~= seq!['2', '9']);
                crate::data::lemma_digits_val_2('2', '9');
            }
            "29"
        },
        30 => {
            proof {
                reveal_strlit("30");
                assert("30"@ =~= seq!['3', '0']);
                crate::data::lemma_digits_val_2('3', '0');
            }
            "30"
        },
        31 => {
            proof {
                reveal_strlit("31");
                assert("31"@ =~= seq!['3', '1']);
                crate::data::lemma_digits_val_2('3', '1');
            }
            "31"
        },
        32 => {
            proof {
                reveal_strlit("32");
                assert("32"@ =~= seq!['3', '2']);
                crate::data::lemma_digits_val_2('3', '2');
            }
            "32"
        },
        33 => {
            proof {
                reveal_strlit("33");
                assert("33"@ =~= seq!['3', '3']);
                crate::data::lemma_digits_val_2('3', '3');
            }
            "33"
        },
        34 => {
            proof {
                reveal_strlit("34");
                assert("34"@ =~= seq!['3', '4']);
                crate::data::lemma_digits_val_2('3', '4');
            }
            "34"
        },
        35 => {
            proof {
                reveal_strlit("35");
                assert("35"@ =~= seq!['3', '5']);
                crate::data::lemma_digits_val_2('3', '5');
            }
            "35"
        },
        36 => {
            proof {
                reveal_strlit("36");
                assert("36"@ =~= seq!['3', '6']);
                crate::data::lemma_digits_val_2('3', '6');
            }
            "36"
        },
        37 => {
            proof {
                reveal_strlit("37");
                assert("37"@ =~= seq!['3', '7']);
                crate::data::lemma_digits_val_2('3', '7');
            }
            "37"
        },
        38 => {
            proof {
                reveal_strlit("38");
                assert("38"@ =~= seq!['3', '8']);
                crate::data::lemma_digits_val_2('3', '8');
            }
            "38"
        },
        39 => {
            proof {
                reveal_strlit("39");
                assert("39"@ =~= seq!['3', '9']);
                crate::data::lemma_digits_val_2('3', '9');
            }
            "39"
        },
        40 => {
            proof {
                reveal_strlit("40");
                assert("40"@ =~= seq!['4', '0']);
                crate::data::lemma_digits_val_2('4', '0');
            }
            "40"
        },
        _ => {
            proof {
                assert(false);
            }
            "1"
        },
    }
}

/// The labels naming `count` consecutive strips of one kind, starting
/// at `base`.
#[verifier::loop_isolation(false)]
fn labels_range(kw: &str, base: u8, count: u8) -> (r: Vec<String>)
    requires
        1 <= base,
        base + count <= 41,
        kw@.len() > 0,
        forall|i: int| 0 <= i < kw@.len() ==> crate::data::is_word_char(#[trigger] kw@[i]),
    ensures
        r@.len() == count,
        forall|j: int|
            0 <= j < count ==> crate::data::label_shape((#[trigger] r@[j])@, kw@, base + j),
{
    let mut r: Vec<String> = Vec::new();
    let mut j: u8 = 0;
    while j < count
        invariant
            j <= count,
            r@.len() == j,
            forall|p: int|
                0 <= p < j ==> crate::data::label_shape((#[trigger] r@[p])@, kw@, base + p),
        decreases count - j,
    {
        let ds = digits_str(base + j);
        let label = String::from_str(kw).concat(" ").concat(ds);
        proof {
            reveal_strlit(" ");
            assert(" "@ =~= seq![' ']);
            assert(label@ =~= kw@ + seq![' '] + ds@);
            crate::data::lemma_label_concat_parse(kw@, ds@);
            assert(crate::data::label_shape(label@, kw@, (base + j) as int));
        }
        r.push(label);
        j = j + 1;
    }
    r
}

/// One bank of the built-in layout: its display name and the labels
/// of `count` consecutive strips of one kind.
pub open spec fn is_x_touch_bank(
    b: FaderBank,
    name: Seq<char>,
    kw: Seq<char>,
    base: int,
    count: int,
) -> bool {
    &&& b.name matches Some(n) && n@ == name
    &&& b.faders@.len() == count
    &&& forall|j: int|
        0 <= j < count ==> crate::data::label_shape((#[trigger] b.faders@[j])@, kw, base + j)
}

/// The built-in control assignments: twelve banks covering the
/// console's strips, and the two bank-switch buttons.
pub open spec fn is_x_touch_full_assignments(a: ControllerAssignments) -> bool {
    &&& a.banks@.len() == 12
    &&& is_x_touch_bank(a.banks@[0], "CH 1-8"@, "Channel"@, 1, 8)
    &&& is_x_touch_bank(a.banks@[1], "CH 9-16"@, "Channel"@, 9, 8)
    &&& is_x_touch_bank(a.banks@[2], "CH 17-24"@, "Channel"@, 17, 8)
    &&& is_x_touch_bank(a.banks@[3], "CH 25-32"@, "Channel"@, 25, 8)
    &&& is_x_touch_bank(a.banks@[4], "CH 33-40"@, "Channel"@, 33, 8)
    &&& is_x_touch_bank(a.banks@[5], "AUX 1-8"@, "Aux"@, 1, 8)
    &&& is_x_touch_bank(a.banks@[6], "BUS 1-8"@, "Bus"@, 1, 8)
    &&& is_x_touch_bank(a.banks@[7], "BUS 9-16"@, "Bus"@, 9, 8)
    &&& is_x_touch_bank(a.banks@[8], "MAIN"@, "Main"@, 1, 4)
    &&& is_x_touch_bank(a.banks@[9], "MATRIX"@, "Matrix"@, 1, 8)
    &&& is_x_touch_bank(a.banks@[10], "DCA 1-8"@, "DCA"@, 1, 8)
    &&& is_x_touch_bank(a.banks@[11], "DCA 9-16"@, "DCA"@, 9, 8)
    &&& a.fader_buttons@.len() == 3
    &&& a.fader_buttons@[0]@ == "Rec"@
    &&& a.fader_buttons@[1]@ == "Solo"@
    &&& a.fader_buttons@[2]@ == "Mute"@
    &&& a.fixed_faders@.len() == 0
    &&& a.fixed_buttons@.len() == 2
    &&& a.fixed_buttons@[0].0 == 46 && a.fixed_buttons@[0].1@ == "Previous Bank"@
    &&& a.fixed_buttons@[1].0 == 47 && a.fixed_buttons@[1].1@ == "Next Bank"@
}

/// One named bank of consecutive strips.
fn make_bank(name: &str, kw: &str, base: u8, count: u8) -> (b: FaderBank)
    requires
        1 <= base,
        base + count <= 41,
        kw@.len() > 0,
        forall|i: int| 0 <= i < kw@.len() ==> crate::data::is_word_char(#[trigger] kw@[i]),
    ensures
        is_x_touch_bank(b, name@, kw@, base as int, count as int),
{
    FaderBank { name: Some(name.to_owned()), faders: labels_range(kw, base, count) }
}

impl ControllerAssignments {
    /// The built-in control assignments for the supported surface.
    pub fn x_touch_full() -> (r: ControllerAssignments)
        ensures
            is_x_touch_full_assignments(r),
    {
        proof {
            reveal_strlit("Channel");
            reveal_strlit("Aux");
            reveal_strlit("Bus");
            reveal_strlit("Main");
            reveal_strlit("Matrix");
            reveal_strlit("DCA");
            assert forall|i: int| 0 <= i < "Channel"@.len() implies crate::data::is_word_char(
                #[trigger] "Channel"@[i]) by {}
            assert forall|i: int| 0 <= i < "Aux"@.len() implies crate::data::is_word_char(
                #[trigger] "Aux"@[i]) by {}
            assert forall|i: int| 0 <= i < "Bus"@.len() implies crate::data::is_word_char(
                #[trigger] "Bus"@[i]) by {}
            assert forall|i: int| 0 <= i < "Main"@.len() implies crate::data::is_word_char(
                #[trigger] "Main"@[i]) by {}
            assert forall|i: int| 0 <= i < "Matrix"@.len() implies crate::data::is_word_char(
                #[trigger] "Matrix"@[i]) by {}
            assert forall|i: int| 0 <= i < "DCA"@.len() implies crate::data::is_word_char(
                #[trigger] "DCA"@[i]) by {}
        }
        let mut banks: Vec<FaderBank> = Vec::new();
        banks.push(make_bank("CH 1-8", "Channel", 1, 8));
        banks.push(make_bank("CH 9-16", "Channel", 9, 8));
        banks.push(make_bank("CH 17-24", "Channel", 17, 8));
        banks.push(make_bank("CH 25-32", "Channel", 25, 8));
        banks.push(make_bank("CH 33-40", "Channel", 33, 8));
        banks.push(make_bank("AUX 1-8", "Aux", 1, 8));
        banks.push(make_bank("BUS 1-8", "Bus", 1, 8));
        banks.push(make_bank("BUS 9-16", "Bus", 9, 8));
        banks.push(make_bank("MAIN", "Main", 1, 4));
        banks.push(make_bank("MATRIX", "Matrix", 1, 8));
        banks.push(make_bank("DCA 1-8", "DCA", 1, 8));
        banks.push(make_bank("DCA 9-16", "DCA", 9, 8));
        let mut fader_buttons: Vec<String> = Vec::new();
        fader_buttons.push("Rec".to_owned());
        fader_buttons.push("Solo".to_owned());
        fader_buttons.push("Mute".to_owned());
        let fixed_faders: Vec<(u32, String)> = Vec::new();
        let mut fixed_buttons: Vec<(u32, String)> = Vec::new();
        fixed_buttons.push((46, "Previous Bank".to_owned()));
        fixed_buttons.push((47, "Next Bank".to_owned()));
        ControllerAssignments { banks, fader_buttons, fixed_faders, fixed_buttons }
    }
}

/// The MIDI notes of the surface's free-standing buttons, in layout
/// order.
pub open spec fn x_touch_button_keys() -> Seq<u8> {
    seq![40u8, 42, 44, 41, 43, 45, 52, 53, 51, 62, 63, 64, 65, 66, 67, 68, 69, 50, 54, 55, 56, 57, 58, 59, 60, 61, 70, 71, 72, 73, 74, 75, 76, 77, 78, 79, 80, 81, 82, 83, 84, 85, 86, 87, 88, 89, 90, 91, 92, 93, 94, 95, 46, 47, 48, 49, 96, 97, 98, 99, 100, 101]
}

/// The built-in physical layout: eight strips of five buttons each,
/// a master fader, and the free-standing buttons.
pub open spec fn is_x_touch_full_definition(d: MidiDefinition) -> bool {
    &&& d.faders@.len() == 9
    &&& forall|ch: int|
        0 <= ch < 8 ==> {
            &&& (#[trigger] d.faders@[ch]).channel == ch
            &&& d.faders@[ch].buttons@.len() == 5
            &&& forall|b: int|
                0 <= b < 5 ==> (#[trigger] d.faders@[ch].buttons@[b]).channel == ch
                    && d.faders@[ch].buttons@[b].key == ch + b * 8
        }
    &&& d.faders@[8].channel == 8
    &&& d.faders@[8].buttons@.len() == 0
    &&& d.buttons@.len() == 62
    &&& forall|i: int| 0 <= i < 62 ==> (#[trigger] d.buttons@[i]).channel == 0
    &&& d.buttons@.map_values(|b: MidiButton| b.key) == x_touch_button_keys()
}

impl MidiDefinition {
    /// The built-in physical layout for the supported surface.
    #[verifier::loop_isolation(false)]
    #[verifier::rlimit(100)]
    pub fn x_touch_full() -> (r: MidiDefinition)
        ensures
            is_x_touch_full_definition(r),
    {
        let mut faders: Vec<MidiFader> = Vec::new();
        let mut ch: u8 = 0;
        while ch < 8
            invariant
                ch <= 8,
                faders@.len() == ch,
                forall|p: int|
                    0 <= p < ch ==> {
                        &&& (#[trigger] faders@[p]).channel == p
                        &&& faders@[p].buttons@.len() == 5
                        &&& forall|b: int|
                            0 <= b < 5 ==> (#[trigger] faders@[p].buttons@[b]).channel == p
                                && faders@[p].buttons@[b].key == p + b * 8
                    },
            decreases 8 - ch,
        {
            let mut chan_buttons: Vec<MidiButton> = Vec::new();
            let mut btn: u8 = 0;
            while btn < 5
                invariant
                    btn <= 5,
                    chan_buttons@.len() == btn,
                    forall|b: int|
                        0 <= b < btn ==> (#[trigger] chan_buttons@[b]).channel == ch
                            && chan_buttons@[b].key == ch + b * 8,
                decreases 5 - btn,
            {
                let name: &str = if btn == 0 {
                    "Rec"
                } else if btn == 1 {
                    "Solo"
                } else if btn == 2 {
                    "Mute"
                } else if btn == 3 {
                    "Select"
                } else {
                    "Encoder Push"
                };
                chan_buttons.push(
                    MidiButton { channel: ch, key: ch + btn * 8, description: Some(name.to_owned()) },
                );
                btn = btn + 1;
            }
            let description = Some(String::from_str("Channel ").concat(digits_str(ch + 1)));
            faders.push(MidiFader { channel: ch, buttons: chan_buttons, description });
            ch = ch + 1;
        }
        faders.push(
            MidiFader { channel: 8, buttons: Vec::new(), description: Some("Master Fader".to_owned()) },
        );

        let mut buttons: Vec<MidiButton> = Vec::new();
        buttons.push(MidiButton { channel: 0, key: 40, description: Some("Track".to_owned()) });
        buttons.push(MidiButton { channel: 0, key: 42, description: Some("Pan".to_owned()) });
        buttons.push(MidiButton { channel: 0, key: 44, description: Some("EQ".to_owned()) });
        buttons.push(MidiButton { channel: 0, key: 41, description: Some("Send".to_owned()) });
        buttons.push(MidiButton { channel: 0, key: 43, description: Some("Plug-In".to_owned()) });
        buttons.push(MidiButton { channel: 0, key: 45, description: Some("Inst".to_owned()) });
        buttons.push(MidiButton { channel: 0, key: 52, description: Some("Name/Value".to_owned()) });
        buttons.push(MidiButton { channel: 0, key: 53, description: Some("SMTPE".to_owned()) });
        buttons.push(MidiButton { channel: 0, key: 51, description: Some("Global View".to_owned()) });
        buttons.push(MidiButton { channel: 0, key: 62, description: Some("MIDI Tracks".to_owned()) });
        buttons.push(MidiButton { channel: 0, key: 63, description: Some("Inputs".to_owned()) });
        buttons.push(MidiButton { channel: 0, key: 64, description: Some("Audio Tracks".to_owned()) });
        buttons.push(MidiButton { channel: 0, key: 65, description: Some("Audio Inst".to_owned()) });
        buttons.push(MidiButton { channel: 0, key: 66, description: Some("Aux".to_owned()) });
        buttons.push(MidiButton { channel: 0, key: 67, description: Some("Buses".to_owned()) });
        buttons.push(MidiButton { channel: 0, key: 68, description: Some("Outputs".to_owned()) });
        buttons.push(MidiButton { channel: 0, key: 69, description: Some("User".to_owned()) });
        buttons.push(MidiButton { channel: 0, key: 50, description: Some("Flip".to_owned()) });
        buttons.push(MidiButton { channel: 0, key: 54, description: Some("F1".to_owned()) });
        buttons.push(MidiButton { channel: 0, key: 55, description: Some("F2".to_owned()) });
        buttons.push(MidiButton { channel: 0, key: 56, description: Some("F3".to_owned()) });
        buttons.push(MidiButton { channel: 0, key: 57, description: Some("F4".to_owned()) });
        buttons.push(MidiButton { channel: 0, key: 58, description: Some("F5".to_owned()) });
        buttons.push(MidiButton { channel: 0, key: 59, description: Some("F6".to_owned()) });
        buttons.push(MidiButton { channel: 0, key: 60, description: Some("F7".to_owned()) });
        buttons.push(MidiButton { channel: 0, key: 61, description: Some("F8".to_owned()) });
        buttons.push(MidiButton { channel: 0, key: 70, description: Some("Shift".to_owned()) });
        buttons.push(MidiButton { channel: 0, key: 71, description: Some("Option".to_owned()) });
        buttons.push(MidiButton { channel: 0, key: 72, description: Some("Ctrl".to_owned()) });
        buttons.push(MidiButton { channel: 0, key: 73, description: Some("Alt".to_owned()) });
        buttons.push(MidiButton { channel: 0, key: 74, description: Some("Read/Off".to_owned()) });
        buttons.push(MidiButton { channel: 0, key: 75, description: Some("Write".to_owned()) });
        buttons.push(MidiButton { channel: 0, key: 76, description: Some("Trim".to_owned()) });
        buttons.push(MidiButton { channel: 0, key: 77, description: Some("Touch".to_owned()) });
        buttons.push(MidiButton { channel: 0, key: 78, description: Some("Latch".to_owned()) });
        buttons.push(MidiButton { channel: 0, key: 79, description: Some("Group".to_owned()) });
        buttons.push(MidiButton { channel: 0, key: 80, description: Some("Save".to_owned()) });
        buttons.push(MidiButton { channel: 0, key: 81, description: Some("Undo".to_owned()) });
        buttons.push(MidiButton { channel: 0, key: 82, description: Some("Cancel".to_owned()) });
        buttons.push(MidiButton { channel: 0, key: 83, description: Some("Enter".to_owned()) });
        buttons.push(MidiButton { channel: 0, key: 84, description: Some("Marker".to_owned()) });
        buttons.push(MidiButton { channel: 0, key: 85, description: Some("Nudge".to_owned()) });
        buttons.push(MidiButton { channel: 0, key: 86, description: Some("Cycle".to_owned()) });
        buttons.push(MidiButton { channel: 0, key: 87, description: Some("Drop".to_owned()) });
        buttons.push(MidiButton { channel: 0, key: 88, description: Some("Replace".to_owned()) });
        buttons.push(MidiButton { channel: 0, key: 89, description: Some("Click".to_owned()) });
        buttons.push(MidiButton { channel: 0, key: 90, description: Some("Solo".to_owned()) });
        buttons.push(MidiButton { channel: 0, key: 91, description: Some("Rewind".to_owned()) });
        buttons.push(MidiButton { channel: 0, key: 92, description: Some("Forward".to_owned()) });
        buttons.push(MidiButton { channel: 0, key: 93, description: Some("Stop".to_owned()) });
        buttons.push(MidiButton { channel: 0, key: 94, description: Some("Play".to_owned()) });
        buttons.push(MidiButton { channel: 0, key: 95, description: Some("Record".to_owned()) });
        buttons.push(MidiButton { channel: 0, key: 46, description: Some("Bank Left".to_owned()) });
        buttons.push(MidiButton { channel: 0, key: 47, description: Some("Bank Right".to_owned()) });
        buttons.push(MidiButton { channel: 0, key: 48, description: Some("Channel Left".to_owned()) });
        buttons.push(MidiButton { channel: 0, key: 49, description: Some("Channel Right".to_owned()) });
        buttons.push(MidiButton { channel: 0, key: 96, description: Some("Up".to_owned()) });
        buttons.push(MidiButton { channel: 0, key: 97, description: Some("Down".to_owned()) });
        buttons.push(MidiButton { channel: 0, key: 98, description: Some("Left".to_owned()) });
        buttons.push(MidiButton { channel: 0, key: 99, description: Some("Right".to_owned()) });
        buttons.push(MidiButton { channel: 0, key: 100, description: Some("Enter".to_owned()) });
        buttons.push(MidiButton { channel: 0, key: 101, description: Some("Scrub".to_owned()) });
        proof {
            assert(buttons@.map_values(|b: MidiButton| b.key) =~= x_touch_button_keys());
            assert forall|i: int| 0 <= i < 62 implies (#[trigger] buttons@[i]).channel == 0 by {}
        }
        MidiDefinition { faders, buttons }
    }
}

/// The whole built-in configuration: the local console, the built-in
/// surface layout, and a local broker.
pub open spec fn is_default_settings(s: Settings) -> bool {
    &&& s.faders@.len() == 8
    &&& s.faders@[0].osc@ == "ch.1.fdr"@
    &&& s.faders@[1].osc@ == "ch.2.fdr"@
    &&& s.faders@[2].osc@ == "ch.3.fdr"@
    &&& s.faders@[3].osc@ == "ch.4.fdr"@
    &&& s.faders@[4].osc@ == "ch.5.fdr"@
    &&& s.faders@[5].osc@ == "ch.6.fdr"@
    &&& s.faders@[6].osc@ == "ch.7.fdr"@
    &&& s.faders@[7].osc@ == "ch.8.fdr"@
    &&& s.master.osc@ == "dca.1.fdr"@
    &&& s.console.ip@ == "127.0.0.1"@
    &&& s.console.port == 2223
    &&& s.midi.input@ == "X-Touch"@
    &&& s.midi.output@ == "X-Touch"@
    &&& is_x_touch_full_assignments(s.midi.assignments)
    &&& is_x_touch_full_definition(s.midi_definition)
    &&& s.mqtt.host@ == "localhost"@
    &&& s.mqtt.port == 1883
}

impl Default for Settings {
    /// The built-in configuration used when nothing overrides it.
    fn default() -> (r: Settings)
        ensures
            is_default_settings(r),
    {
        let mut faders: Vec<FaderAssignment> = Vec::new();
        faders.push(FaderAssignment { osc: "ch.1.fdr".to_owned() });
        faders.push(FaderAssignment { osc: "ch.2.fdr".to_owned() });
        faders.push(FaderAssignment { osc: "ch.3.fdr".to_owned() });
        faders.push(FaderAssignment { osc: "ch.4.fdr".to_owned() });
        faders.push(FaderAssignment { osc: "ch.5.fdr".to_owned() });
        faders.push(FaderAssignment { osc: "ch.6.fdr".to_owned() });
        faders.push(FaderAssignment { osc: "ch.7.fdr".to_owned() });
        faders.push(FaderAssignment { osc: "ch.8.fdr".to_owned() });
        Settings {
            faders,
            master: FaderAssignment { osc: "dca.1.fdr".to_owned() },
            console: ConsoleSettings { ip: "127.0.0.1".to_owned(), port: 2223 },
            midi: ControllerSettings {
                input: "X-Touch".to_owned(),
                output: "X-Touch".to_owned(),
                assignments: ControllerAssignments::x_touch_full(),
            },
            midi_definition: MidiDefinition::x_touch_full(),
            mqtt: MqttSettings { host: "localhost".to_owned(), port: 1883 },
        }
    }
}


} // verus!

//! Control-surface logic: the byte-level MIDI messages the surface
//! understands, and the bank, button and display state behind them.
//!
//! Everything here computes messages and decisions; connecting to the
//! MIDI ports and converting fader levels (floating point) is the
//! runtime's job.

use vstd::prelude::*;
use vstd::utf8::encode_utf8;

use crate::data::{Fader, InternalButton, InternalFunction, PathType};
use crate::meters::MeterKind;
use crate::settings::ControllerAssignments;
use crate::value::{Value, ValueModel};

verus! {

/// A note-on channel message.
pub fn note_on_message(channel: u8, key: u8, vel: u8) -> (r: Vec<u8>)
    ensures
        r@ == seq![(0x90u8 | (channel & 0x0f)) as u8, (key & 0x7f) as u8, (vel & 0x7f) as u8],
{
    let mut r: Vec<u8> = Vec::new();
    r.push(0x90u8 | (channel & 0x0f));
    r.push(key & 0x7f);
    r.push(vel & 0x7f);
    assert(r@ =~= seq![(0x90u8 | (channel & 0x0f)) as u8, (key & 0x7f) as u8, (vel & 0x7f) as u8]);
    r
}

/// A pitch-bend channel message carrying a 14-bit bend value.
pub fn pitch_bend_message(channel: u8, bend: u16) -> (r: Vec<u8>)
    ensures
        r@ == seq![
            (0xe0u8 | (channel & 0x0f)) as u8,
            (bend & 0x7f) as u8,
            ((bend >> 7) & 0x7f) as u8,
        ],
{
    let mut r: Vec<u8> = Vec::new();
    r.push(0xe0u8 | (channel & 0x0f));
    r.push((bend & 0x7f) as u8);
    r.push(((bend >> 7) & 0x7f) as u8);
    assert(r@ =~= seq![
        (0xe0u8 | (channel & 0x0f)) as u8,
        (bend & 0x7f) as u8,
        ((bend >> 7) & 0x7f) as u8,
    ]);
    r
}

/// A control-change channel message.
pub fn controller_message(channel: u8, controller: u8, value: u8) -> (r: Vec<u8>)
    ensures
        r@ == seq![
            (0xb0u8 | (channel & 0x0f)) as u8,
            (controller & 0x7f) as u8,
            (value & 0x7f) as u8,
        ],
{
    let mut r: Vec<u8> = Vec::new();
    r.push(0xb0u8 | (channel & 0x0f));
    r.push(controller & 0x7f);
    r.push(value & 0x7f);
    assert(r@ =~= seq![
        (0xb0u8 | (channel & 0x0f)) as u8,
        (controller & 0x7f) as u8,
        (value & 0x7f) as u8,
    ]);
    r
}

/// A channel-aftertouch message, used for the surface's meter bridge.
pub fn channel_aftertouch_message(channel: u8, vel: u8) -> (r: Vec<u8>)
    ensures
        r@ == seq![(0xd0u8 | (channel & 0x0f)) as u8, (vel & 0x7f) as u8],
{
    let mut r: Vec<u8> = Vec::new();
    r.push(0xd0u8 | (channel & 0x0f));
    r.push(vel & 0x7f);
    assert(r@ =~= seq![(0xd0u8 | (channel & 0x0f)) as u8, (vel & 0x7f) as u8]);
    r
}

/// The messages that clear every button LED on the surface: one
/// note-on with velocity 0 for each of the notes 0 to 114.
pub fn clean_button_messages() -> (r: Vec<Vec<u8>>)
    ensures
        r.deep_view().len() == 115,
        forall|i: int|
            0 <= i < 115 ==> r.deep_view()[i] == seq![0x90u8, i as u8, 0u8],
{
    let mut r: Vec<Vec<u8>> = Vec::new();
    let mut note: u8 = 0;
    while note < 115
        invariant
            note <= 115,
            r.deep_view().len() == note,
            forall|i: int| 0 <= i < note ==> r.deep_view()[i] == seq![0x90u8, i as u8, 0u8],
        decreases 115 - note,
    {
        let ghost pre = r.deep_view();
        let msg = note_on_message(0, note, 0);
        proof {
            assert((0x90u8 | (0u8 & 0x0fu8)) == 0x90u8) by (bit_vector);
            assert((0u8 & 0x7fu8) == 0u8) by (bit_vector);
            assert(note & 0x7fu8 == note) by (bit_vector)
                requires
                    note < 115u8,
            ;
            assert(msg@ =~= seq![0x90u8, note as u8, 0u8]);
        }
        r.push(msg);
        proof {
            assert(r.deep_view() =~~= pre.push(seq![0x90u8, note as u8, 0u8]));
        }
        note = note + 1;
    }
    r
}

/// The surface colour that renders a console scribble colour; indices
/// outside the console's palette fall back to white.
pub open spec fn spec_wing_colour(index: int) -> u8 {
    if index == 0 {
        0
    } else if index == 1 {
        7
    } else if index == 2 {
        6
    } else if index == 3 {
        4
    } else if index == 4 {
        7
    } else if index == 5 {
        2
    } else if index == 6 {
        2
    } else if index == 7 {
        3
    } else if index == 8 {
        3
    } else if index == 9 {
        1
    } else if index == 10 {
        1
    } else if index == 11 {
        5
    } else if index == 12 {
        5
    } else {
        7
    }
}

/// Exec lookup for [`spec_wing_colour`].
pub fn wing_colour(index: i32) -> (r: u8)
    ensures
        r == spec_wing_colour(index as int),
{
    if index == 0 {
        0
    } else if index == 1 {
        7
    } else if index == 2 {
        6
    } else if index == 3 {
        4
    } else if index == 4 {
        7
    } else if index == 5 {
        2
    } else if index == 6 {
        2
    } else if index == 7 {
        3
    } else if index == 8 {
        3
    } else if index == 9 {
        1
    } else if index == 10 {
        1
    } else if index == 11 {
        5
    } else if index == 12 {
        5
    } else {
        7
    }
}

/// The system-exclusive message that sets all eight scribble strip
/// colours at once.
pub open spec fn spec_colour_sysex(colours: Seq<u8>) -> Seq<u8> {
    seq![0xf0u8, 0x00u8, 0x00u8, 0x66u8, 0x14u8, 0x72u8] + colours + seq![0xf7u8]
}

/// Build the scribble-colour system-exclusive message.
pub fn colour_sysex(colours: &Vec<u8>) -> (r: Vec<u8>)
    requires
        colours@.len() == 8,
    ensures
        r@ == spec_colour_sysex(colours@),
{
    let mut r: Vec<u8> = Vec::new();
    r.push(0xf0);
    r.push(0x00);
    r.push(0x00);
    r.push(0x66);
    r.push(0x14);
    r.push(0x72);
    let mut i: usize = 0;
    while i < 8
        invariant
            i <= 8,
            colours@.len() == 8,
            r@ == seq![0xf0u8, 0x00u8, 0x00u8, 0x66u8, 0x14u8, 0x72u8] + colours@.subrange(
                0,
                i as int,
            ),
        decreases 8 - i,
    {
        r.push(colours[i]);
        assert(r@ =~= seq![0xf0u8, 0x00u8, 0x00u8, 0x66u8, 0x14u8, 0x72u8] + colours@.subrange(
            0,
            i + 1,
        ));
        i = i + 1;
    }
    r.push(0xf7);
    proof {
        assert(colours@.subrange(0, 8) =~= colours@);
        assert(r@ =~= spec_colour_sysex(colours@));
    }
    r
}

/// The 7-segment rendering of a character on the surface's main
/// display, if it has one.
pub open spec fn spec_seven_segment(c: char) -> Option<u8> {
    let u = c as u32;
    if u == 32 || u == 127 {
        Some(0u8)
    } else if u == 33 {
        Some(59u8)
    } else if u == 34 {
        Some(39u8)
    } else if u == 58 {
        Some(34u8)
    } else if 35 <= u && u <= 63 {
        Some(u as u8)
    } else if u == 64 {
        Some(38u8)
    } else if 65 <= u && u <= 90 {
        Some((u - 64) as u8)
    } else if 91 <= u && u <= 96 {
        Some((u - 64) as u8)
    } else if 97 <= u && u <= 122 {
        Some((u - 96) as u8)
    } else if u == 123 {
        Some(27u8)
    } else if u == 124 {
        Some(28u8)
    } else if u == 125 {
        Some(29u8)
    } else if u == 126 {
        Some(31u8)
    } else {
        None
    }
}

/// Exec lookup for [`spec_seven_segment`].
pub fn seven_segment(c: char) -> (r: Option<u8>)
    ensures
        r == spec_seven_segment(c),
{
    let u = c as u32;
    if u == 32 || u == 127 {
        Some(0)
    } else if u == 33 {
        Some(59)
    } else if u == 34 {
        Some(39)
    } else if u == 58 {
        Some(34)
    } else if 35 <= u && u <= 63 {
        Some(u as u8)
    } else if u == 64 {
        Some(38)
    } else if 65 <= u && u <= 90 {
        Some((u - 64) as u8)
    } else if 91 <= u && u <= 96 {
        Some((u - 64) as u8)
    } else if 97 <= u && u <= 122 {
        Some((u - 96) as u8)
    } else if u == 123 {
        Some(27)
    } else if u == 124 {
        Some(28)
    } else if u == 125 {
        Some(29)
    } else if u == 126 {
        Some(31)
    } else {
        None
    }
}

/// Index of the first space in a sequence from position `i` on, or -1.
pub open spec fn first_space_from(s: Seq<char>, i: int) -> int
    decreases s.len() - i,
{
    if 0 <= i < s.len() {
        if s[i] == ' ' {
            i
        } else {
            first_space_from(s, i + 1)
        }
    } else {
        -1
    }
}

proof fn lemma_first_space_found(s: Seq<char>, i: int, k: int)
    requires
        0 <= i <= k < s.len(),
        forall|j: int| i <= j < k ==> s[j] != ' ',
        s[k] == ' ',
    ensures
        first_space_from(s, i) == k,
    decreases k - i,
{
    if i < k {
        lemma_first_space_found(s, i + 1, k);
    }
}

proof fn lemma_first_space_none(s: Seq<char>, i: int)
    requires
        0 <= i,
        forall|j: int| i <= j < s.len() ==> s[j] != ' ',
    ensures
        first_space_from(s, i) == -1,
    decreases s.len() - i,
{
    if i < s.len() {
        lemma_first_space_none(s, i + 1);
    }
}

/// How a scribble text is split over the display's two rows: at the
/// first space when there is one and the text fits both rows, else the
/// first seven characters and the next seven.
pub open spec fn spec_lcd_rows(text: Seq<char>) -> (Seq<char>, Seq<char>) {
    let fs = first_space_from(text, 0);
    if fs >= 0 && text.len() <= 14 {
        (text.subrange(0, fs), text.subrange(fs + 1, text.len() as int))
    } else {
        let a_end = if text.len() < 7 {
            text.len() as int
        } else {
            7
        };
        let b_end = if text.len() < 14 {
            text.len() as int
        } else {
            14
        };
        (text.subrange(0, a_end), text.subrange(a_end, b_end))
    }
}

/// A display row's bytes, padded with spaces to the row width.
pub open spec fn spec_padded_row(b: Seq<u8>) -> Seq<u8> {
    if b.len() >= 7 {
        b
    } else {
        b + Seq::new((7 - b.len()) as nat, |i: int| 32u8)
    }
}

/// The system-exclusive message that writes one scribble row at a byte
/// offset into the display memory.
pub open spec fn spec_lcd_sysex(offset: u8, row: Seq<char>) -> Seq<u8> {
    seq![0xf0u8, 0x00u8, 0x00u8, 0x66u8, 0x14u8, 0x12u8, offset] + spec_padded_row(
        encode_utf8(row),
    ) + seq![0xf7u8]
}

/// The bytes of a row, padded with spaces to the row width.
fn padded_row_bytes(row: &str) -> (r: Vec<u8>)
    ensures
        r@ == spec_padded_row(encode_utf8(row@)),
{
    let mut bytes = row.as_bytes_vec();
    let ghost b = encode_utf8(row@);
    assert(bytes@ == b);
    if bytes.len() >= 7 {
        return bytes;
    }
    while bytes.len() < 7
        invariant
            b.len() < 7 ==> b.len() <= bytes@.len() <= 7,
            b.len() >= 7 ==> bytes@ == b,
            bytes@.subrange(0, b.len() as int) == b,
            forall|j: int| b.len() <= j < bytes@.len() ==> bytes@[j] == 32u8,
        decreases 7 - bytes@.len(),
    {
        bytes.push(32);
    }
    proof {
        assert(bytes@ =~= spec_padded_row(b));
    }
    bytes
}

/// Build the message that writes one scribble row.
fn lcd_sysex(offset: u8, row: &str) -> (r: Vec<u8>)
    ensures
        r@ == spec_lcd_sysex(offset, row@),
{
    let mut r: Vec<u8> = Vec::new();
    r.push(0xf0);
    r.push(0x00);
    r.push(0x00);
    r.push(0x66);
    r.push(0x14);
    r.push(0x12);
    r.push(offset);
    let ghost header = seq![0xf0u8, 0x00u8, 0x00u8, 0x66u8, 0x14u8, 0x12u8, offset];
    assert(r@ =~= header);
    let body = padded_row_bytes(row);
    let mut i: usize = 0;
    while i < body.len()
        invariant
            i <= body@.len(),
            body@ == spec_padded_row(encode_utf8(row@)),
            r@ == header + body@.subrange(0, i as int),
        decreases body@.len() - i,
    {
        r.push(body[i]);
        assert(r@ =~= header + body@.subrange(0, i + 1));
        i = i + 1;
    }
    proof {
        assert(body@.subrange(0, body@.len() as int) =~= body@);
    }
    r.push(0xf7);
    proof {
        assert(r@ =~= spec_lcd_sysex(offset, row@));
    }
    r
}

/// The two messages that write a text to one scribble strip display,
/// split over its rows; a display index beyond the surface's eight
/// strips produces nothing.
pub fn lcd_text_messages(text: &str, disp: u8) -> (r: Vec<Vec<u8>>)
    ensures
        disp >= 8 ==> r.deep_view() == Seq::<Seq<u8>>::empty(),
        disp < 8 ==> r.deep_view() == seq![
            spec_lcd_sysex((disp * 7) as u8, spec_lcd_rows(text@).0),
            spec_lcd_sysex((disp * 7 + 56) as u8, spec_lcd_rows(text@).1),
        ],
{
    if disp >= 8 {
        let r: Vec<Vec<u8>> = Vec::new();
        assert(r.deep_view() =~= Seq::<Seq<u8>>::empty());
        return r;
    }

    let len = text.unicode_len();
    let ghost s = text@;

    // Find the first space, if any.
    let mut k: usize = 0;
    let mut space_at: usize = 0;
    let mut has_space = false;
    while k < len && !has_space
        invariant
            k <= len,
            len == s.len(),
            s == text@,
            !has_space ==> forall|j: int| 0 <= j < k ==> s[j] != ' ',
            has_space ==> k < len && space_at == k && s[k as int] == ' ' && forall|j: int|
                0 <= j < k ==> s[j] != ' ',
        decreases len - k + (if has_space {
            0int
        } else {
            1int
        }),
    {
        if text.get_char(k) == ' ' {
            space_at = k;
            has_space = true;
        } else {
            k = k + 1;
        }
    }
    proof {
        if has_space {
            lemma_first_space_found(s, 0, space_at as int);
        } else {
            lemma_first_space_none(s, 0);
        }
    }

    let (row1, row2): (&str, &str) = if has_space && len <= 14 {
        (text.substring_char(0, space_at), text.substring_char(space_at + 1, len))
    } else {
        let a_end = if len < 7 {
            len
        } else {
            7
        };
        let b_end = if len < 14 {
            len
        } else {
            14
        };
        (text.substring_char(0, a_end), text.substring_char(a_end, b_end))
    };
    proof {
        assert(row1@ == spec_lcd_rows(s).0);
        assert(row2@ == spec_lcd_rows(s).1);
    }

    let m1 = lcd_sysex(disp * 7, row1);
    let m2 = lcd_sysex(disp * 7 + 56, row2);
    let mut r: Vec<Vec<u8>> = Vec::new();
    r.push(m1);
    r.push(m2);
    proof {
        assert(r.deep_view() =~~= seq![
            spec_lcd_sysex((disp * 7) as u8, spec_lcd_rows(s).0),
            spec_lcd_sysex((disp * 7 + 56) as u8, spec_lcd_rows(s).1),
        ]);
    }
    r
}

/// The character shown at position `i` of the main display, given the
/// text (already truncated to the display width) and its offset.
pub open spec fn spec_display_char(text: Seq<char>, text_offset: int, i: int) -> char {
    if i >= text_offset && i - text_offset < text.len() {
        text[i - text_offset]
    } else {
        ' '
    }
}

/// The control-change message for position `i` of the main display,
/// if its character has a 7-segment rendering.  Position 0 is the
/// rightmost control number.
pub open spec fn spec_display_msg_at(text: Seq<char>, text_offset: int, i: int) -> Option<
    Seq<u8>,
> {
    match spec_seven_segment(spec_display_char(text, text_offset, i)) {
        Some(v) => Some(seq![0xb0u8, (75 - i) as u8, v]),
        None => None,
    }
}

/// The messages for the first `n` positions of the main display.
pub open spec fn spec_display_msgs(text: Seq<char>, text_offset: int, n: int) -> Seq<Seq<u8>>
    decreases n,
{
    if n <= 0 {
        Seq::empty()
    } else {
        spec_display_msgs(text, text_offset, n - 1) + match spec_display_msg_at(
            text,
            text_offset,
            n - 1,
        ) {
            Some(m) => seq![m],
            None => Seq::<Seq<u8>>::empty(),
        }
    }
}

/// The text shown on the main display: at most twelve characters,
/// shifted right by two positions unless it would not fit then.
pub open spec fn spec_display_text(text: Seq<char>) -> Seq<char> {
    if text.len() <= 12 {
        text
    } else {
        text.subrange(0, 12)
    }
}

/// The offset applied to the display text: two blank positions on the
/// right, unless the text needs them.
pub open spec fn spec_display_offset(text: Seq<char>) -> int {
    if spec_display_text(text).len() > 10 {
        0
    } else {
        2
    }
}

/// The messages that write a text to the surface's main 7-segment
/// display, covering all twelve positions so that stale digits are
/// cleared; characters with no 7-segment rendering are skipped.
pub fn main_display_messages(text: &str) -> (r: Vec<Vec<u8>>)
    ensures
        r.deep_view() == spec_display_msgs(spec_display_text(text@), spec_display_offset(text@), 12),
{
    let len = text.unicode_len();
    let shown: &str = if len <= 12 {
        text
    } else {
        text.substring_char(0, 12)
    };
    let shown_len = text_min(len, 12);
    assert(shown@ == spec_display_text(text@));
    assert(shown_len == shown@.len());
    let text_offset: usize = if shown_len > 10 {
        0
    } else {
        2
    };
    assert(text_offset as int == spec_display_offset(text@));

    let ghost st = shown@;
    let ghost off = text_offset as int;
    let mut r: Vec<Vec<u8>> = Vec::new();
    let mut i: usize = 0;
    while i < 12
        invariant
            i <= 12,
            st == shown@,
            off == text_offset as int,
            text_offset <= 2,
            shown@.len() <= 12,
            shown_len == shown@.len(),
            r.deep_view() == spec_display_msgs(st, off, i as int),
        decreases 12 - i,
    {
        let ch: char = if i >= text_offset && i - text_offset < shown_len {
            shown.get_char(i - text_offset)
        } else {
            ' '
        };
        assert(ch == spec_display_char(st, off, i as int));
        match seven_segment(ch) {
            Some(v) => {
                let ghost pre = r.deep_view();
                let cc = 75 - (i as u8);
                let msg = controller_message(0, cc, v);
                proof {
                    assert((0xb0u8 | (0u8 & 0x0fu8)) == 0xb0u8) by (bit_vector);
                    assert(cc & 0x7f == cc) by (bit_vector)
                        requires cc <= 75u8;
                    assert(v & 0x7f == v) by (bit_vector)
                        requires v <= 120u8;
                    assert(spec_seven_segment(ch) == Some(v));
                    assert(v <= 120) by {
                        assert(spec_seven_segment(ch) matches Some(x) ==> x <= 120);
                    }
                    assert(msg@ =~= seq![0xb0u8, (75 - i as int) as u8, v]);
                }
                r.push(msg);
                proof {
                    assert(r.deep_view() =~~= pre.push(seq![0xb0u8, (75 - i as int) as u8, v]));
                    assert(r.deep_view() =~~= spec_display_msgs(st, off, i + 1));
                }
            },
            None => {
                proof {
                    assert(spec_display_msgs(st, off, i + 1) =~~= spec_display_msgs(
                        st,
                        off,
                        i as int,
                    ));
                }
            },
        }
        i = i + 1;
    }
    r
}

/// The smaller of two lengths.
fn text_min(a: usize, b: usize) -> (r: usize)
    ensures
        r == if a < b {
            a as int
        } else {
            b as int
        },
{
    if a < b {
        a
    } else {
        b
    }
}

/// One thing the surface runtime must do in response to an accepted
/// parameter update: send raw MIDI bytes, or move a motorized fader to
/// a level given in decibels (whose conversion to a fader position is
/// floating-point work the runtime owns).
#[derive(Debug, Clone, PartialEq)]
pub enum SurfaceAction {
    Midi(Vec<u8>),
    MoveFader { fader_index: usize, db_bits: u32 },
}

/// The mathematical shape of a [`SurfaceAction`].
pub enum SurfaceActionModel {
    Midi(Seq<u8>),
    MoveFader { fader_index: int, db_bits: u32 },
}

impl View for SurfaceAction {
    type V = SurfaceActionModel;

    open spec fn view(&self) -> SurfaceActionModel {
        match self {
            SurfaceAction::Midi(bytes) => SurfaceActionModel::Midi(bytes@),
            SurfaceAction::MoveFader { fader_index, db_bits } => SurfaceActionModel::MoveFader {
                fader_index: *fader_index as int,
                db_bits: *db_bits,
            },
        }
    }
}

impl DeepView for SurfaceAction {
    type V = SurfaceActionModel;

    open spec fn deep_view(&self) -> SurfaceActionModel {
        self.view()
    }
}

/// Why a surface configuration was rejected.
#[derive(Debug, Clone, Copy, PartialEq, Eq, Structural)]
pub enum ConfigError {
    /// A bank names a fader by an invalid label.
    Fader(crate::data::LabelError),
    /// A fixed button names an unknown function.
    Button(crate::data::ButtonError),
}

/// Why a surface input could not be processed.
#[derive(Debug, Clone, Copy, PartialEq, Eq, Structural)]
pub enum SurfaceError {
    /// The current bank index points outside the configured banks.
    BankNotFound,
}

/// A MIDI event of the surface that the hub understands.
#[derive(Debug, Clone, Copy, PartialEq, Eq, Structural)]
pub enum MidiEvent {
    NoteOn { channel: u8, key: u8, vel: u8 },
    PitchBend { channel: u8, bend: u16 },
}

/// Parse one MIDI channel message.  Exactly the three-byte note-on and
/// pitch-bend messages with well-formed data bytes are understood;
/// everything else is for the runtime to log and drop.
pub fn parse_midi_message(bytes: &Vec<u8>) -> (r: Option<MidiEvent>)
    ensures
        ({
            let b = bytes@;
            if b.len() == 3 && b[1] < 128 && b[2] < 128 {
                if b[0] & 0xf0 == 0x90 {
                    r == Some(
                        MidiEvent::NoteOn {
                            channel: (b[0] & 0x0f) as u8,
                            key: b[1],
                            vel: b[2],
                        },
                    )
                } else if b[0] & 0xf0 == 0xe0 {
                    r == Some(
                        MidiEvent::PitchBend {
                            channel: (b[0] & 0x0f) as u8,
                            bend: (b[1] + b[2] * 128) as u16,
                        },
                    )
                } else {
                    r is None
                }
            } else {
                r is None
            }
        }),
{
    if bytes.len() != 3 {
        return None;
    }
    let status = bytes[0];
    let d1 = bytes[1];
    let d2 = bytes[2];
    if d1 >= 128 || d2 >= 128 {
        return None;
    }
    if status & 0xf0 == 0x90 {
        Some(MidiEvent::NoteOn { channel: status & 0x0f, key: d1, vel: d2 })
    } else if status & 0xf0 == 0xe0 {
        let bend: u16 = (d1 as u16) + (d2 as u16) * 128;
        Some(MidiEvent::PitchBend { channel: status & 0x0f, bend })
    } else {
        None
    }
}

/// What a note-on from the surface means.
#[derive(Debug, Clone, Copy, PartialEq, Eq, Structural)]
pub enum NoteAction {
    /// Velocity zero: the button was released; nothing to do.
    Released,
    /// A velocity this surface does not produce; log and drop.
    UnsupportedVelocity,
    /// A bound button was pressed: run its internal function.
    Function(InternalFunction),
    /// No function is bound to this note.
    Unassigned,
}

/// A bound button's label parses to this button.
pub open spec fn button_matches_label(b: InternalButton, s: Seq<char>) -> bool {
    if crate::data::matches_ci(s, "previous bank"@) {
        b.function == InternalFunction::PreviousBank
    } else {
        crate::data::matches_ci(s, "next bank"@) && b.function == InternalFunction::NextBank
    }
}

/// A button label names a known internal function.
pub open spec fn button_label_valid(s: Seq<char>) -> bool {
    crate::data::matches_ci(s, "previous bank"@) || crate::data::matches_ci(s, "next bank"@)
}

/// The per-fader part of one accepted update: which messages go out
/// and how the colour cache changes, for a parameter of this fader.
/// A value of the wrong variant for the parameter is dropped (the
/// runtime logs it), and a strip index beyond the surface's eight
/// strips changes nothing.
pub open spec fn spec_fader_step(
    colours: Seq<u8>,
    fader_index: int,
    path: PathType,
    v: ValueModel,
) -> (Seq<SurfaceActionModel>, Seq<u8>) {
    match path {
        PathType::Fader => match v {
            ValueModel::Float(bits) => (
                seq![SurfaceActionModel::MoveFader { fader_index, db_bits: bits }],
                colours,
            ),
            _ => (Seq::empty(), colours),
        },
        PathType::ScribbleColour => match v {
            ValueModel::Int(ci) => {
                if 0 <= fader_index < 8 {
                    let new_colours = colours.update(fader_index, spec_wing_colour(ci as int));
                    (
                        seq![SurfaceActionModel::Midi(spec_colour_sysex(new_colours))],
                        new_colours,
                    )
                } else {
                    (Seq::empty(), colours)
                }
            },
            _ => (Seq::empty(), colours),
        },
        PathType::ScribbleName => match v {
            ValueModel::Str(name) => {
                if 0 <= fader_index < 8 {
                    (
                        seq![
                            SurfaceActionModel::Midi(
                                spec_lcd_sysex((fader_index * 7) as u8, spec_lcd_rows(name).0),
                            ),
                            SurfaceActionModel::Midi(
                                spec_lcd_sysex(
                                    (fader_index * 7 + 56) as u8,
                                    spec_lcd_rows(name).1,
                                ),
                            ),
                        ],
                        colours,
                    )
                } else {
                    (Seq::empty(), colours)
                }
            },
            _ => (Seq::empty(), colours),
        },
        _ => (Seq::empty(), colours),
    }
}

/// One accepted update folded over the faders of a bank, in order:
/// each fader whose directory the path addresses contributes its step.
pub open spec fn spec_osc_input_fold(
    colours: Seq<u8>,
    faders: Seq<Fader>,
    upto: int,
    s: Seq<char>,
    v: ValueModel,
) -> (Seq<SurfaceActionModel>, Seq<u8>)
    decreases upto,
{
    if upto <= 0 {
        (Seq::empty(), colours)
    } else {
        let prev = spec_osc_input_fold(colours, faders, upto - 1, s, v);
        match faders[upto - 1].spec_path_matches(s) {
            Some(pt) => {
                let step = spec_fader_step(prev.1, upto - 1, pt, v);
                (prev.0 + step.0, step.1)
            },
            None => prev,
        }
    }
}

/// The meters of a bank's faders, in fader order.
pub open spec fn spec_bank_meters(faders: Seq<Fader>, upto: int) -> Seq<MeterKind>
    decreases upto,
{
    if upto <= 0 {
        Seq::empty()
    } else {
        spec_bank_meters(faders, upto - 1) + match faders[upto - 1].meter_spec() {
            Some(m) => seq![m],
            None => Seq::<MeterKind>::empty(),
        }
    }
}

/// The banked state of one control surface: which bank is active,
/// which faders and buttons are configured, and the colours its
/// scribble strips currently show.
#[derive(Debug)]
pub struct Controller {
    current_bank: usize,
    banks: Vec<Vec<Fader>>,
    bank_names: Vec<Option<String>>,
    buttons: Vec<(u32, InternalButton)>,
    cached_colours: Vec<u8>,
}

/// Parse one bank's fader labels, in order; the first invalid label
/// is the error.
#[verifier::loop_isolation(false)]
fn parse_bank(labels: &Vec<String>) -> (r: Result<Vec<Fader>, crate::data::LabelError>)
    ensures
        match r {
            Ok(fs) => fs@.len() == labels@.len() && forall|q: int|
                0 <= q < labels@.len() ==> crate::data::fader_label_valid(
                    (#[trigger] labels@[q])@,
                ) && crate::data::fader_matches_label(fs@[q], labels@[q]@),
            Err(_) => exists|q: int|
                0 <= q < labels@.len() && !crate::data::fader_label_valid(
                    (#[trigger] labels@[q])@,
                ),
        },
{
    let mut faders: Vec<Fader> = Vec::new();
    let n = labels.len();
    let mut j: usize = 0;
    while j < n
        invariant
            j <= n,
            faders@.len() == j,
            forall|q: int|
                0 <= q < j ==> crate::data::fader_label_valid((#[trigger] labels@[q])@)
                    && crate::data::fader_matches_label(faders@[q], labels@[q]@),
        decreases n - j,
    {
        match Fader::new_from_label(labels[j].as_str()) {
            Ok(f) => {
                faders.push(f);
            },
            Err(e) => {
                return Err(e);
            },
        }
        j = j + 1;
    }
    Ok(faders)
}

impl Controller {
    /// The active bank's index.
    pub closed spec fn current_bank_spec(&self) -> int {
        self.current_bank as int
    }

    /// The configured banks of faders.
    pub closed spec fn banks_spec(&self) -> Seq<Seq<Fader>> {
        self.banks.deep_view()
    }

    /// The configured banks' names.
    pub closed spec fn bank_names_spec(&self) -> Seq<Option<Seq<char>>> {
        self.bank_names.deep_view()
    }

    /// The buttons bound to internal functions, keyed by MIDI note.
    pub closed spec fn buttons_spec(&self) -> Seq<(u32, InternalButton)> {
        self.buttons@
    }

    /// The colours the scribble strips currently show.
    pub closed spec fn colours(&self) -> Seq<u8> {
        self.cached_colours@
    }

    /// Well-formed: eight colour slots, and each note bound at most
    /// once.
    pub closed spec fn wf(&self) -> bool {
        &&& self.cached_colours@.len() == 8
        &&& self.current_bank == 0 || self.current_bank < self.banks@.len()
        &&& forall|i: int, j: int|
            0 <= i < j < self.buttons@.len() ==> self.buttons@[i].0 != self.buttons@[j].0
    }

    /// Everything but the active bank and the colours: the surface's
    /// configuration, fixed after construction.
    pub open spec fn same_config(&self, other: &Controller) -> bool {
        &&& self.banks_spec() == other.banks_spec()
        &&& self.bank_names_spec() == other.bank_names_spec()
        &&& self.buttons_spec() == other.buttons_spec()
    }

    /// Build a surface from its assignments: every bank label must
    /// name a fader, every fixed button a known function.  The surface
    /// starts on its first bank with all scribble strips white.
    #[verifier::loop_isolation(false)]
    pub fn new(assignments: &ControllerAssignments) -> (r: Result<Controller, ConfigError>)
        requires
            forall|i: int, j: int|
                0 <= i < j < assignments.fixed_buttons@.len()
                    ==> assignments.fixed_buttons@[i].0 != assignments.fixed_buttons@[j].0,
        ensures
            match r {
                Ok(c) => {
                    &&& c.wf()
                    &&& c.current_bank_spec() == 0
                    &&& c.colours() == Seq::new(8, |i: int| 7u8)
                    &&& c.banks_spec().len() == assignments.banks@.len()
                    &&& forall|i: int|
                        0 <= i < assignments.banks@.len() ==> #[trigger] c.banks_spec()[i].len()
                            == assignments.banks@[i].faders@.len()
                    &&& forall|i: int, j: int|
                        0 <= i < assignments.banks@.len() && 0 <= j
                            < assignments.banks@[i].faders@.len() ==> {
                            &&& crate::data::fader_label_valid(
                                (#[trigger] assignments.banks@[i].faders@[j])@,
                            )
                            &&& crate::data::fader_matches_label(
                                c.banks_spec()[i][j],
                                assignments.banks@[i].faders@[j]@,
                            )
                        }
                    &&& c.bank_names_spec().len() == assignments.banks@.len()
                    &&& forall|i: int|
                        0 <= i < assignments.banks@.len() ==> #[trigger] c.bank_names_spec()[i]
                            == assignments.banks@[i].name.deep_view()
                    &&& c.buttons_spec().len() == assignments.fixed_buttons@.len()
                    &&& forall|i: int|
                        0 <= i < assignments.fixed_buttons@.len() ==> {
                            &&& (#[trigger] c.buttons_spec()[i]).0
                                == assignments.fixed_buttons@[i].0
                            &&& button_label_valid(assignments.fixed_buttons@[i].1@)
                            &&& button_matches_label(
                                c.buttons_spec()[i].1,
                                assignments.fixed_buttons@[i].1@,
                            )
                        }
                },
                Err(ConfigError::Fader(_)) => exists|i: int, j: int|
                    0 <= i < assignments.banks@.len() && 0 <= j
                        < assignments.banks@[i].faders@.len() && !crate::data::fader_label_valid(
                        (#[trigger] assignments.banks@[i].faders@[j])@,
                    ),
                Err(ConfigError::Button(_)) => exists|i: int|
                    0 <= i < assignments.fixed_buttons@.len() && !button_label_valid(
                        (#[trigger] assignments.fixed_buttons@[i]).1@,
                    ),
            },
    {
        let mut banks: Vec<Vec<Fader>> = Vec::new();
        let mut bank_names: Vec<Option<String>> = Vec::new();
        let n_banks = assignments.banks.len();
        let mut i: usize = 0;
        while i < n_banks
            invariant
                i <= n_banks,
                banks@.len() == i,
                bank_names@.len() == i,
                forall|p: int|
                    0 <= p < i ==> (#[trigger] banks@[p])@.len()
                        == assignments.banks@[p].faders@.len(),
                forall|p: int, q: int|
                    0 <= p < i && 0 <= q < assignments.banks@[p].faders@.len() ==> {
                        &&& crate::data::fader_label_valid(
                            (#[trigger] assignments.banks@[p].faders@[q])@,
                        )
                        &&& crate::data::fader_matches_label(
                            banks@[p]@[q],
                            assignments.banks@[p].faders@[q]@,
                        )
                    },
                forall|p: int|
                    0 <= p < i ==> #[trigger] bank_names@[p] == assignments.banks@[p].name,
            decreases n_banks - i,
        {
            match parse_bank(&assignments.banks[i].faders) {
                Ok(faders) => {
                    banks.push(faders);
                },
                Err(e) => {
                    return Err(ConfigError::Fader(e));
                },
            }
            let name = match &assignments.banks[i].name {
                Some(n) => Some(n.clone()),
                None => None,
            };
            bank_names.push(name);
            i = i + 1;
        }

        let mut buttons: Vec<(u32, InternalButton)> = Vec::new();
        let n_buttons = assignments.fixed_buttons.len();
        let mut k: usize = 0;
        while k < n_buttons
            invariant
                k <= n_buttons,
                buttons@.len() == k,
                forall|p: int|
                    0 <= p < k ==> {
                        &&& (#[trigger] buttons@[p]).0 == assignments.fixed_buttons@[p].0
                        &&& button_label_valid(assignments.fixed_buttons@[p].1@)
                        &&& button_matches_label(
                            buttons@[p].1,
                            assignments.fixed_buttons@[p].1@,
                        )
                    },
            decreases n_buttons - k,
        {
            let entry = &assignments.fixed_buttons[k];
            match InternalButton::new_from_label(entry.1.as_str()) {
                Ok(b) => {
                    buttons.push((entry.0, b));
                },
                Err(e) => {
                    return Err(ConfigError::Button(e));
                },
            }
            k = k + 1;
        }

        let mut cached_colours: Vec<u8> = Vec::new();
        let mut c: usize = 0;
        while c < 8
            invariant
                c <= 8,
                cached_colours@.len() == c,
                forall|p: int| 0 <= p < c ==> cached_colours@[p] == 7u8,
            decreases 8 - c,
        {
            cached_colours.push(7);
            c = c + 1;
        }
        proof {
            assert(cached_colours@ =~= Seq::new(8, |i: int| 7u8));
        }

        let result = Controller { current_bank: 0, banks, bank_names, buttons, cached_colours };
        proof {
            assert forall|p: int| 0 <= p < assignments.banks@.len() implies #[trigger] result
                .banks_spec()[p].len() == assignments.banks@[p].faders@.len() by {
                assert(result.banks_spec()[p] == result.banks@[p].deep_view());
            }
            assert forall|p: int, q: int|
                0 <= p < assignments.banks@.len() && 0 <= q
                    < assignments.banks@[p].faders@.len() implies crate::data::fader_matches_label(
                result.banks_spec()[p][q],
                (#[trigger] assignments.banks@[p].faders@[q])@,
            ) by {
                assert(result.banks_spec()[p] == result.banks@[p].deep_view());
                assert(result.banks_spec()[p][q] == result.banks@[p]@[q]);
            }
            assert forall|p: int| 0 <= p < assignments.banks@.len() implies #[trigger] result
                .bank_names_spec()[p] == assignments.banks@[p].name.deep_view() by {
                assert(result.bank_names_spec()[p] == result.bank_names@[p].deep_view());
                assert(result.bank_names@[p] == assignments.banks@[p].name);
            }
            assert forall|p: int, q: int|
                0 <= p < q < result.buttons@.len() implies result.buttons@[p].0
                != result.buttons@[q].0 by {
                assert(result.buttons@[p].0 == assignments.fixed_buttons@[p].0);
                assert(result.buttons@[q].0 == assignments.fixed_buttons@[q].0);
            }
        }
        Ok(result)
    }

    /// Whether a function button's LED is lit: bank switching lights
    /// up exactly when there is a bank to switch to in that direction.
    pub fn get_function_button_lit(&self, function: &InternalFunction) -> (r: bool)
        requires
            self.wf(),
        ensures
            r == match function {
                InternalFunction::NextBank => self.current_bank_spec() + 1 < self.banks_spec().len(),
                InternalFunction::PreviousBank => self.current_bank_spec() > 0,
            },
    {
        let n = self.banks.len();
        match function {
            InternalFunction::NextBank => self.current_bank + 1 < n,
            InternalFunction::PreviousBank => self.current_bank > 0,
        }
    }

    /// The LED state message for one note, if a button is bound to it:
    /// full velocity when its function's LED is lit, zero otherwise.
    #[verifier::loop_isolation(false)]
    pub fn button_led_message(&self, button: u32) -> (r: Option<Vec<u8>>)
        requires
            self.wf(),
        ensures
            ({
                let bs = self.buttons_spec();
                match r {
                    Some(msg) => exists|i: int|
                        0 <= i < bs.len() && (#[trigger] bs[i]).0 == button && msg@ == seq![
                            0x90u8,
                            ((button as u8) & 0x7f) as u8,
                            self.spec_led_velocity(bs[i].1.function),
                        ],
                    None => forall|i: int| 0 <= i < bs.len() ==> (#[trigger] bs[i]).0 != button,
                }
            }),
    {
        let n = self.buttons.len();
        let mut i: usize = 0;
        while i < n
            invariant
                i <= n,
                n == self.buttons@.len(),
                forall|p: int| 0 <= p < i ==> (#[trigger] self.buttons@[p]).0 != button,
            decreases n - i,
        {
            if self.buttons[i].0 == button {
                let function = self.buttons[i].1.function;
                let lit = self.get_function_button_lit(&function);
                let vel: u8 = if lit {
                    127
                } else {
                    0
                };
                let key: u8 = #[verifier::truncate] (button as u8);
                let msg = note_on_message(0, key, vel);
                proof {
                    assert((0x90u8 | (0u8 & 0x0fu8)) == 0x90u8) by (bit_vector);
                    assert((127u8 & 0x7fu8) == 127u8) by (bit_vector);
                    assert((0u8 & 0x7fu8) == 0u8) by (bit_vector);
                    assert(vel == self.spec_led_velocity(function));
                    assert(msg@ =~= seq![
                        0x90u8,
                        ((button as u8) & 0x7f) as u8,
                        self.spec_led_velocity(function),
                    ]);
                    assert((self.buttons_spec()[i as int]).0 == button);
                }
                return Some(msg);
            }
            i = i + 1;
        }
        None
    }

    /// The velocity that renders a function's LED state.
    pub open spec fn spec_led_velocity(&self, function: InternalFunction) -> u8 {
        let lit = match function {
            InternalFunction::NextBank => self.current_bank_spec() + 1 < self.banks_spec().len(),
            InternalFunction::PreviousBank => self.current_bank_spec() > 0,
        };
        if lit {
            127u8
        } else {
            0u8
        }
    }

    /// The LED state messages of every bound button, in binding order.
    #[verifier::loop_isolation(false)]
    pub fn button_led_messages(&self) -> (r: Vec<Vec<u8>>)
        requires
            self.wf(),
        ensures
            r.deep_view().len() == self.buttons_spec().len(),
            forall|i: int|
                0 <= i < self.buttons_spec().len() ==> #[trigger] r.deep_view()[i] == seq![
                    0x90u8,
                    ((self.buttons_spec()[i].0 as u8) & 0x7f) as u8,
                    self.spec_led_velocity(self.buttons_spec()[i].1.function),
                ],
    {
        let n = self.buttons.len();
        let mut r: Vec<Vec<u8>> = Vec::new();
        let mut i: usize = 0;
        while i < n
            invariant
                i <= n,
                self.wf(),
                n == self.buttons@.len(),
                r.deep_view().len() == i,
                forall|p: int|
                    0 <= p < i ==> #[trigger] r.deep_view()[p] == seq![
                        0x90u8,
                        ((self.buttons@[p].0 as u8) & 0x7f) as u8,
                        self.spec_led_velocity(self.buttons@[p].1.function),
                    ],
            decreases n - i,
        {
            let button = self.buttons[i].0;
            let function = self.buttons[i].1.function;
            let lit = self.get_function_button_lit(&function);
            let vel: u8 = if lit {
                127
            } else {
                0
            };
            let key: u8 = #[verifier::truncate] (button as u8);
            let msg = note_on_message(0, key, vel);
            let ghost pre = r.deep_view();
            proof {
                assert((0x90u8 | (0u8 & 0x0fu8)) == 0x90u8) by (bit_vector);
                assert((127u8 & 0x7fu8) == 127u8) by (bit_vector);
                assert((0u8 & 0x7fu8) == 0u8) by (bit_vector);
                assert(msg@ =~= seq![
                    0x90u8,
                    ((button as u8) & 0x7f) as u8,
                    self.spec_led_velocity(function),
                ]);
            }
            r.push(msg);
            proof {
                assert(r.deep_view() =~~= pre.push(seq![
                    0x90u8,
                    ((button as u8) & 0x7f) as u8,
                    self.spec_led_velocity(function),
                ]));
            }
            i = i + 1;
        }
        r
    }

    /// Process one parameter of one fader strip.  The step's messages
    /// are returned to be sent; only the scribble colour cache changes.
    pub fn process_fader_input(&mut self, fader_index: usize, path: PathType, value: &Value) -> (
        r: Vec<SurfaceAction>)
        requires
            old(self).wf(),
        ensures
            final(self).wf(),
            final(self).same_config(old(self)),
            final(self).current_bank_spec() == old(self).current_bank_spec(),
            (r.deep_view(), final(self).colours()) == spec_fader_step(
                old(self).colours(),
                fader_index as int,
                path,
                value@,
            ),
    {
        let ghost step = spec_fader_step(
            old(self).colours(),
            fader_index as int,
            path,
            value@,
        );
        let mut r: Vec<SurfaceAction> = Vec::new();
        match path {
            PathType::Fader => {
                if let Value::Float(bits) = value {
                    r.push(SurfaceAction::MoveFader { fader_index, db_bits: *bits });
                    proof {
                        assert(r.deep_view() =~~= step.0);
                    }
                } else {
                    proof {
                        assert(r.deep_view() =~~= step.0);
                    }
                }
            },
            PathType::ScribbleColour => {
                if let Value::Int(colour_index) = value {
                    if fader_index < 8 {
                        let wing_color = wing_colour(*colour_index);
                        self.cached_colours.set(fader_index, wing_color);
                        let sysex = colour_sysex(&self.cached_colours);
                        r.push(SurfaceAction::Midi(sysex));
                        proof {
                            assert(self.cached_colours@ =~= old(self).colours().update(
                                fader_index as int,
                                spec_wing_colour(*colour_index as int),
                            ));
                            assert(r.deep_view() =~~= step.0);
                        }
                    } else {
                        proof {
                            assert(r.deep_view() =~~= step.0);
                        }
                    }
                } else {
                    proof {
                        assert(r.deep_view() =~~= step.0);
                    }
                }
            },
            PathType::ScribbleName => {
                if let Value::Str(name) = value {
                    if fader_index < 8 {
                        let msgs = lcd_text_messages(name.as_str(), fader_index as u8);
                        assert(msgs.deep_view().len() == 2);
                        let mut msgs = msgs;
                        let m2 = msgs.pop().unwrap();
                        let m1 = msgs.pop().unwrap();
                        r.push(SurfaceAction::Midi(m1));
                        r.push(SurfaceAction::Midi(m2));
                        proof {
                            assert(m1@ == spec_lcd_sysex(
                                ((fader_index as u8) * 7) as u8,
                                spec_lcd_rows(name@).0,
                            ));
                            assert(m2@ == spec_lcd_sysex(
                                ((fader_index as u8) * 7 + 56) as u8,
                                spec_lcd_rows(name@).1,
                            ));
                            assert(((fader_index as u8) * 7) as u8 == ((fader_index * 7) as u8));
                            assert(step.0 =~~= seq![
                                SurfaceActionModel::Midi(
                                    spec_lcd_sysex(
                                        (fader_index * 7) as u8,
                                        spec_lcd_rows(name@).0,
                                    ),
                                ),
                                SurfaceActionModel::Midi(
                                    spec_lcd_sysex(
                                        (fader_index * 7 + 56) as u8,
                                        spec_lcd_rows(name@).1,
                                    ),
                                ),
                            ]);
                            assert(r.deep_view() =~~= step.0);
                        }
                    } else {
                        proof {
                            assert(r.deep_view() =~~= step.0);
                        }
                    }
                } else {
                    proof {
                        assert(r.deep_view() =~~= step.0);
                    }
                }
            },
            _ => {
                proof {
                    assert(r.deep_view() =~~= step.0);
                }
            },
        }
        proof {
            assert(final(self).colours() =~= step.1);
        }
        r
    }

    /// Process one accepted parameter update against the active bank:
    /// every fader the path addresses contributes its messages, in
    /// fader order.  Fails exactly when the active bank index points
    /// outside the configured banks.
    #[verifier::loop_isolation(false)]
    pub fn process_osc_input(&mut self, osc_addr: &str, value: &Value) -> (r: Result<
        Vec<SurfaceAction>,
        SurfaceError,
    >)
        requires
            old(self).wf(),
        ensures
            final(self).wf(),
            final(self).same_config(old(self)),
            final(self).current_bank_spec() == old(self).current_bank_spec(),
            old(self).current_bank_spec() >= old(self).banks_spec().len() ==> r == Err::<
                Vec<SurfaceAction>,
                SurfaceError,
            >(SurfaceError::BankNotFound) && final(self).colours() == old(self).colours(),
            old(self).current_bank_spec() < old(self).banks_spec().len() ==> (r matches Ok(acts)
                && (acts.deep_view(), final(self).colours()) == spec_osc_input_fold(
                old(self).colours(),
                old(self).banks_spec()[old(self).current_bank_spec()],
                old(self).banks_spec()[old(self).current_bank_spec()].len() as int,
                osc_addr@,
                value@,
            )),
    {
        if self.current_bank >= self.banks.len() {
            return Err(SurfaceError::BankNotFound);
        }
        let ghost faders_view = self.banks.deep_view()[self.current_bank as int];
        let ghost s = osc_addr@;
        let ghost v = value@;
        let ghost colours0 = self.colours();
        let n = self.banks[self.current_bank].len();
        let mut acts: Vec<SurfaceAction> = Vec::new();
        let mut i: usize = 0;
        while i < n
            invariant
                i <= n,
                self.wf(),
                self.current_bank_spec() < self.banks_spec().len(),
                self.same_config(old(self)),
                self.current_bank_spec() == old(self).current_bank_spec(),
                self.banks_spec() == old(self).banks_spec(),
                faders_view == self.banks_spec()[self.current_bank_spec()],
                n == faders_view.len(),
                s == osc_addr@,
                v == value@,
                colours0 == old(self).colours(),
                (acts.deep_view(), self.colours()) == spec_osc_input_fold(
                    colours0,
                    faders_view,
                    i as int,
                    s,
                    v,
                ),
            decreases n - i,
        {
            let path_type = self.banks[self.current_bank][i].path_matches(osc_addr);
            proof {
                assert(self.banks@[self.current_bank as int]@[i as int] == faders_view[i as int]);
            }
            match path_type {
                Some(pt) => {
                    let ghost acts_pre = acts.deep_view();
                    let mut step_acts = self.process_fader_input(i, pt, value);
                    acts.append(&mut step_acts);
                    proof {
                        assert(acts.deep_view() =~~= acts_pre + spec_fader_step(
                            spec_osc_input_fold(colours0, faders_view, i as int, s, v).1,
                            i as int,
                            pt,
                            v,
                        ).0);
                    }
                },
                None => {},
            }
            i = i + 1;
        }
        Ok(acts)
    }

    /// Switch banks: the next bank wraps past the last back to the
    /// first, the previous wraps past the first back to the last.
    pub fn do_function(&mut self, function: InternalFunction)
        requires
            old(self).wf(),
            old(self).banks_spec().len() > 0,
        ensures
            final(self).wf(),
            final(self).same_config(old(self)),
            final(self).colours() == old(self).colours(),
            final(self).current_bank_spec() == match function {
                InternalFunction::NextBank => (old(self).current_bank_spec() + 1) % (old(
                    self,
                ).banks_spec().len() as int),
                InternalFunction::PreviousBank => {
                    if old(self).current_bank_spec() == 0 {
                        old(self).banks_spec().len() - 1
                    } else {
                        old(self).current_bank_spec() - 1
                    }
                },
            },
    {
        let n = self.banks.len();
        match function {
            InternalFunction::NextBank => {
                self.current_bank = (self.current_bank + 1) % n;
            },
            InternalFunction::PreviousBank => {
                if self.current_bank == 0 {
                    self.current_bank = self.banks.len() - 1;
                } else {
                    self.current_bank = self.current_bank - 1;
                }
            },
        }
    }

    /// The active bank's index.
    pub fn current_bank(&self) -> (r: usize)
        ensures
            r == self.current_bank_spec(),
    {
        self.current_bank
    }

    /// How many banks are configured.
    pub fn bank_count(&self) -> (r: usize)
        ensures
            r == self.banks_spec().len(),
    {
        self.banks.len()
    }

    /// The paths of the active bank's faders, in fader order.
    #[verifier::loop_isolation(false)]
    pub fn bank_fader_paths(&self, path_type: PathType) -> (r: Vec<String>)
        requires
            self.wf(),
        ensures
            self.current_bank_spec() < self.banks_spec().len() ==> {
                let faders = self.banks_spec()[self.current_bank_spec()];
                &&& r.deep_view().len() == faders.len()
                &&& forall|i: int|
                    0 <= i < faders.len() ==> #[trigger] r.deep_view()[i] == faders[i].osc_dir()
                        + crate::data::path_suffix(path_type)
            },
            self.current_bank_spec() >= self.banks_spec().len() ==> r.deep_view() == Seq::<
                Seq<char>,
            >::empty(),
    {
        let mut r: Vec<String> = Vec::new();
        if self.current_bank >= self.banks.len() {
            assert(r.deep_view() =~~= Seq::<Seq<char>>::empty());
            return r;
        }
        let ghost faders_view = self.banks.deep_view()[self.current_bank as int];
        let n = self.banks[self.current_bank].len();
        let mut i: usize = 0;
        while i < n
            invariant
                i <= n,
                self.current_bank_spec() < self.banks_spec().len(),
                faders_view == self.banks_spec()[self.current_bank_spec()],
                n == faders_view.len(),
                r.deep_view().len() == i,
                forall|p: int|
                    0 <= p < i ==> #[trigger] r.deep_view()[p] == faders_view[p].osc_dir()
                        + crate::data::path_suffix(path_type),
            decreases n - i,
        {
            let ghost pre = r.deep_view();
            let path = self.banks[self.current_bank][i].get_osc_path(path_type);
            proof {
                assert(self.banks@[self.current_bank as int]@[i as int] == faders_view[i as int]);
            }
            r.push(path);
            proof {
                assert(r.deep_view() =~~= pre.push(
                    faders_view[i as int].osc_dir() + crate::data::path_suffix(path_type),
                ));
            }
            i = i + 1;
        }
        r
    }

    /// The active bank's name, if it has one.
    pub fn bank_name(&self) -> (r: Option<String>)
        ensures
            self.current_bank_spec() < self.bank_names_spec().len() ==> match r {
                Some(name) => self.bank_names_spec()[self.current_bank_spec()] == Some(name@),
                None => self.bank_names_spec()[self.current_bank_spec()] is None,
            },
            self.current_bank_spec() >= self.bank_names_spec().len() ==> r is None,
    {
        if self.current_bank >= self.bank_names.len() {
            return None;
        }
        match &self.bank_names[self.current_bank] {
            Some(name) => Some(name.clone()),
            None => None,
        }
    }

    /// The meters of the active bank's faders, in fader order; an
    /// active bank index outside the configured banks yields none.
    #[verifier::loop_isolation(false)]
    pub fn bank_meters(&self) -> (r: Vec<MeterKind>)
        requires
            self.wf(),
        ensures
            self.current_bank_spec() < self.banks_spec().len() ==> r@ == spec_bank_meters(
                self.banks_spec()[self.current_bank_spec()],
                self.banks_spec()[self.current_bank_spec()].len() as int,
            ),
            self.current_bank_spec() >= self.banks_spec().len() ==> r@ == Seq::<
                MeterKind,
            >::empty(),
    {
        let mut r: Vec<MeterKind> = Vec::new();
        if self.current_bank >= self.banks.len() {
            assert(r@ =~= Seq::<MeterKind>::empty());
            return r;
        }
        let ghost faders_view = self.banks.deep_view()[self.current_bank as int];
        let n = self.banks[self.current_bank].len();
        let mut i: usize = 0;
        while i < n
            invariant
                i <= n,
                self.current_bank_spec() < self.banks_spec().len(),
                faders_view == self.banks_spec()[self.current_bank_spec()],
                n == faders_view.len(),
                r@ == spec_bank_meters(faders_view, i as int),
            decreases n - i,
        {
            proof {
                assert(self.banks@[self.current_bank as int]@[i as int] == faders_view[i as int]);
            }
            match self.banks[self.current_bank][i].get_meter() {
                Some(m) => {
                    r.push(m);
                    assert(r@ =~= spec_bank_meters(faders_view, i + 1));
                },
                None => {
                    assert(r@ =~= spec_bank_meters(faders_view, i + 1));
                },
            }
            i = i + 1;
        }
        r
    }

    /// The parameter path a fader move on this channel addresses, if
    /// the active bank has a fader there.
    pub fn pitch_bend_target(&self, channel: u8) -> (r: Option<String>)
        requires
            self.wf(),
            self.current_bank_spec() < self.banks_spec().len(),
        ensures
            ({
                let faders = self.banks_spec()[self.current_bank_spec()];
                match r {
                    Some(p) => channel < faders.len() && p@ == faders[channel as int].osc_dir()
                        + "/fdr"@,
                    None => channel >= faders.len(),
                }
            }),
    {
        let faders_len = self.banks[self.current_bank].len();
        proof {
            assert(self.banks@[self.current_bank as int]@.len() == self.banks_spec()[
                self.current_bank_spec()
            ].len());
        }
        if (channel as usize) < faders_len {
            let path = self.banks[self.current_bank][channel as usize].get_osc_path(
                PathType::Fader,
            );
            proof {
                assert(self.banks@[self.current_bank as int]@[channel as int] == self.banks_spec()[
                    self.current_bank_spec()
                ][channel as int]);
            }
            Some(path)
        } else {
            None
        }
    }

    /// What a note-on from the surface means: releases and unexpected
    /// velocities are dropped, a full-velocity press runs the bound
    /// button's function if there is one.
    #[verifier::loop_isolation(false)]
    pub fn handle_note_on(&self, key: u32, vel: u8) -> (r: NoteAction)
        requires
            self.wf(),
        ensures
            vel == 0 ==> r == NoteAction::Released,
            vel != 0 && vel != 127 ==> r == NoteAction::UnsupportedVelocity,
            vel == 127 ==> ({
                let bs = self.buttons_spec();
                match r {
                    NoteAction::Function(f) => exists|i: int|
                        0 <= i < bs.len() && (#[trigger] bs[i]).0 == key && bs[i].1.function == f,
                    NoteAction::Unassigned => forall|i: int|
                        0 <= i < bs.len() ==> (#[trigger] bs[i]).0 != key,
                    _ => false,
                }
            }),
    {
        if vel == 0 {
            return NoteAction::Released;
        }
        if vel != 127 {
            return NoteAction::UnsupportedVelocity;
        }
        let n = self.buttons.len();
        let mut i: usize = 0;
        while i < n
            invariant
                i <= n,
                n == self.buttons@.len(),
                forall|p: int| 0 <= p < i ==> (#[trigger] self.buttons@[p]).0 != key,
            decreases n - i,
        {
            if self.buttons[i].0 == key {
                assert((self.buttons_spec()[i as int]).0 == key);
                return NoteAction::Function(self.buttons[i].1.function);
            }
            i = i + 1;
        }
        NoteAction::Unassigned
    }
}

} // verus!

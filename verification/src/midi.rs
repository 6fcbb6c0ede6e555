//! MIDI input: decoding raw channel-voice messages into synthesizer events.

use vstd::prelude::*;
use wmidi::MidiMessage as M;
use crate::text::{chars_of, contains, contains_seq};

verus! {

/// MIDI channel filter: `Omni` listens on all channels, `Channel(n)` only on
/// channel number `n` (1 to 16).
#[derive(Debug, Clone, Copy, PartialEq, Eq, Structural)]
pub enum MidiChannel {
    Omni,
    Channel(u8),
}

impl MidiChannel {
    /// Whether a message on the channel with zero-based `index` passes the filter.
    pub open spec fn spec_accepts(self, index: u8) -> bool {
        match self {
            MidiChannel::Omni => true,
            MidiChannel::Channel(n) => n == index + 1,
        }
    }

    pub fn accepts(self, index: u8) -> (r: bool)
        ensures
            r == self.spec_accepts(index),
    {
        match self {
            MidiChannel::Omni => true,
            MidiChannel::Channel(n) => n > 0 && n - 1 == index,
        }
    }
}

/// A synthesizer event. Pitch bend carries the raw 14-bit bend (centre
/// 8192, range 0 to 16383) and the modulation wheel the raw 7-bit controller
/// value (0 to 127).
#[derive(Debug, Clone, Copy, PartialEq, Eq, Structural)]
pub enum NoteEvent {
    NoteOn { note: u8, velocity: u8 },
    NoteOff { note: u8 },
    PitchBend { bend: u16 },
    ModWheel { value: u8 },
}

/// A decoded MIDI message, reduced to what the synthesizer reads. `channel`
/// is the zero-based channel index; every message kind the synthesizer does
/// not read is `Other`.
#[derive(Debug, Clone, Copy, PartialEq, Eq, Structural)]
pub enum ChannelMessage {
    NoteOff { channel: u8, note: u8 },
    NoteOn { channel: u8, note: u8, velocity: u8 },
    ControlChange { channel: u8, control: u8, value: u8 },
    PitchBend { channel: u8, bend: u16 },
    Other,
}

/// The controller number of the modulation wheel.
pub const MODULATION_WHEEL: u8 = 1;

/// Whether byte `i` of `b` exists and is a data byte (below 0x80).
pub open spec fn data_byte_at(b: Seq<u8>, i: int) -> bool {
    0 <= i < b.len() && b[i] < 0x80
}

/// The message that a channel-voice status byte (0x80 to 0xEF) in `b[0]`
/// and the data bytes after it form, per MIDI 1.0; `None` where a data byte
/// is missing or is not a data byte.
pub open spec fn channel_voice_message(b: Seq<u8>) -> Option<ChannelMessage> {
    let kind = b[0] / 16;
    let channel = (b[0] % 16) as u8;
    let two = data_byte_at(b, 1) && data_byte_at(b, 2);
    if kind == 0x8 {
        if two {
            Some(ChannelMessage::NoteOff { channel, note: b[1] })
        } else {
            None
        }
    } else if kind == 0x9 {
        if !two {
            None
        } else if b[2] == 0 {
            Some(ChannelMessage::NoteOff { channel, note: b[1] })
        } else {
            Some(ChannelMessage::NoteOn { channel, note: b[1], velocity: b[2] })
        }
    } else if kind == 0xB {
        if two {
            Some(ChannelMessage::ControlChange { channel, control: b[1], value: b[2] })
        } else {
            None
        }
    } else if kind == 0xE {
        if two {
            Some(ChannelMessage::PitchBend { channel, bend: (b[1] + 128 * b[2]) as u16 })
        } else {
            None
        }
    } else if kind == 0xA {
        if two {
            Some(ChannelMessage::Other)
        } else {
            None
        }
    } else if data_byte_at(b, 1) {
        Some(ChannelMessage::Other)
    } else {
        None
    }
}

/// The message that a system status byte (0xF0 and above) in `b[0]` and
/// the bytes after it form, per MIDI 1.0: a system-exclusive message must
/// end at its first status byte, and that byte must be 0xF7; time code and
/// song select need one data byte and song position two; a lone 0xF7 is an
/// error; the other system messages stand alone. The synthesizer reads none
/// of them, so each one is `Other`.
pub open spec fn system_message(b: Seq<u8>) -> Option<ChannelMessage> {
    let ok = if b[0] == 0xF0 {
        exists|j: int|
            1 <= j < b.len() && b[j] == 0xF7 && forall|k: int| 1 <= k < j ==> #[trigger] b[k] < 0x80
    } else if b[0] == 0xF1 || b[0] == 0xF3 {
        data_byte_at(b, 1)
    } else if b[0] == 0xF2 {
        data_byte_at(b, 1) && data_byte_at(b, 2)
    } else {
        b[0] != 0xF7
    };
    if ok {
        Some(ChannelMessage::Other)
    } else {
        None
    }
}

/// Decodes `raw` with `wmidi::MidiMessage::try_from`.
///
/// Trusted: an empty input or one that starts with a data byte is an error;
/// a channel-voice status byte decodes as `channel_voice_message` states
/// (wmidi turns a note-on of velocity 0 into a note-off); a system status
/// byte decodes as `system_message` states.
#[verifier::external_body]
fn decode(raw: &[u8]) -> (msg: Option<ChannelMessage>)
    ensures
        raw@.len() == 0 || raw@[0] < 0x80 ==> msg is None,
        raw@.len() > 0 && 0x80 <= raw@[0] < 0xF0 ==> msg == channel_voice_message(raw@),
        raw@.len() > 0 && raw@[0] >= 0xF0 ==> msg == system_message(raw@),
{
    match M::try_from(raw) {
        Ok(M::NoteOff(c, n, _)) => Some(ChannelMessage::NoteOff { channel: c.index(), note: n.into() }),
        Ok(M::NoteOn(c, n, v)) => Some(ChannelMessage::NoteOn { channel: c.index(), note: n.into(), velocity: v.into() }),
        Ok(M::ControlChange(c, f, v)) => Some(ChannelMessage::ControlChange { channel: c.index(), control: f.into(), value: v.into() }),
        Ok(M::PitchBendChange(c, b)) => Some(ChannelMessage::PitchBend { channel: c.index(), bend: b.into() }),
        Ok(_) => Some(ChannelMessage::Other),
        Err(_) => None,
    }
}

/// The event that a decoded message gives under a channel filter.
pub open spec fn spec_event_from_message(msg: ChannelMessage, filter: MidiChannel) -> Option<NoteEvent> {
    match msg {
        ChannelMessage::NoteOn { channel, note, velocity } => {
            if !filter.spec_accepts(channel) {
                None
            } else if velocity == 0 {
                Some(NoteEvent::NoteOff { note })
            } else {
                Some(NoteEvent::NoteOn { note, velocity })
            }
        },
        ChannelMessage::NoteOff { channel, note } => {
            if filter.spec_accepts(channel) {
                Some(NoteEvent::NoteOff { note })
            } else {
                None
            }
        },
        ChannelMessage::PitchBend { channel, bend } => {
            if filter.spec_accepts(channel) {
                Some(NoteEvent::PitchBend { bend })
            } else {
                None
            }
        },
        ChannelMessage::ControlChange { channel, control, value } => {
            if filter.spec_accepts(channel) && control == MODULATION_WHEEL {
                Some(NoteEvent::ModWheel { value })
            } else {
                None
            }
        },
        ChannelMessage::Other => None,
    }
}

/// The event that raw MIDI bytes give under a channel filter.
pub open spec fn spec_parse_message(raw: Seq<u8>, filter: MidiChannel) -> Option<NoteEvent> {
    if raw.len() > 0 && 0x80 <= raw[0] < 0xF0 {
        match channel_voice_message(raw) {
            Some(msg) => spec_event_from_message(msg, filter),
            None => None,
        }
    } else {
        None
    }
}

/// Turns a decoded message into a synthesizer event: messages on channels
/// that the filter rejects, controllers other than the modulation wheel, and
/// message kinds the synthesizer does not read give `None`; a note-on of
/// velocity 0 is a note-off.
pub fn event_from_message(msg: ChannelMessage, filter: MidiChannel) -> (r: Option<NoteEvent>)
    ensures
        r == spec_event_from_message(msg, filter),
{
    match msg {
        ChannelMessage::NoteOn { channel, note, velocity } => {
            if !filter.accepts(channel) {
                None
            } else if velocity == 0 {
                Some(NoteEvent::NoteOff { note })
            } else {
                Some(NoteEvent::NoteOn { note, velocity })
            }
        },
        ChannelMessage::NoteOff { channel, note } => {
            if filter.accepts(channel) {
                Some(NoteEvent::NoteOff { note })
            } else {
                None
            }
        },
        ChannelMessage::PitchBend { channel, bend } => {
            if filter.accepts(channel) {
                Some(NoteEvent::PitchBend { bend })
            } else {
                None
            }
        },
        ChannelMessage::ControlChange { channel, control, value } => {
            if filter.accepts(channel) && control == MODULATION_WHEEL {
                Some(NoteEvent::ModWheel { value })
            } else {
                None
            }
        },
        ChannelMessage::Other => None,
    }
}

/// Decodes raw MIDI bytes into a synthesizer event under a channel filter;
/// `None` for bytes that are not a message, or a message the filter or the
/// synthesizer ignores.
pub fn parse_message(raw: &[u8], filter: MidiChannel) -> (r: Option<NoteEvent>)
    ensures
        r == spec_parse_message(raw@, filter),
{
    match decode(raw) {
        Some(msg) => event_from_message(msg, filter),
        None => None,
    }
}


/// A note-on of velocity 0 is a note-off, by MIDI convention: raw bytes of a
/// note-on with velocity 0 on an accepted channel give a note-off for the
/// same note.
pub proof fn note_on_velocity_zero_is_note_off(raw: Seq<u8>, filter: MidiChannel)
    requires
        raw.len() >= 3,
        0x90 <= raw[0] < 0xA0,
        raw[1] < 0x80,
        raw[2] == 0,
        filter.spec_accepts((raw[0] % 16) as u8),
    ensures
        spec_parse_message(raw, filter) == Some(NoteEvent::NoteOff { note: raw[1] }),
{
}

/// `Omni` lets every channel-voice event through, whatever its channel, and
/// a channel filter drops every event from another channel.
pub proof fn channel_filter(raw: Seq<u8>, n: u8)
    requires
        raw.len() > 0,
        0x80 <= raw[0] < 0xF0,
    ensures
        spec_parse_message(raw, MidiChannel::Channel(n)) is Some ==> n == raw[0] % 16 + 1,
        n == raw[0] % 16 + 1 ==> spec_parse_message(raw, MidiChannel::Channel(n))
            == spec_parse_message(raw, MidiChannel::Omni),
{
}

/// `Omni` accepts every channel, and channel `n` accepts exactly the
/// channel numbered `n` (zero-based index `n - 1`).
pub proof fn channel_numbers(index: u8, n: u8)
    ensures
        MidiChannel::Omni.spec_accepts(index),
        index < 16 ==> MidiChannel::Channel((index + 1) as u8).spec_accepts(index),
        n != index + 1 ==> !MidiChannel::Channel(n).spec_accepts(index),
{
}

/// What a complete channel-voice message gives when the filter lets its
/// channel through (`Omni`, or the message's own channel number): a note-on
/// of non-zero velocity is a note-on for the same note and velocity; a
/// note-off, or a note-on of velocity 0, is a note-off for the same note; a
/// pitch bend carries its low data byte plus 128 times its high one; the
/// modulation wheel (controller 1) carries its value; other controllers,
/// key and channel pressure and program changes give no event.
pub proof fn channel_voice_events(raw: Seq<u8>, filter: MidiChannel)
    requires
        raw.len() >= 3,
        0x80 <= raw[0] < 0xF0,
        raw[1] < 0x80,
        raw[2] < 0x80,
        filter == MidiChannel::Omni || filter == MidiChannel::Channel((raw[0] % 16 + 1) as u8),
    ensures
        0x90 <= raw[0] < 0xA0 && raw[2] > 0 ==> spec_parse_message(raw, filter) == Some(
            NoteEvent::NoteOn { note: raw[1], velocity: raw[2] },
        ),
        0x90 <= raw[0] < 0xA0 && raw[2] == 0 ==> spec_parse_message(raw, filter) == Some(
            NoteEvent::NoteOff { note: raw[1] },
        ),
        0x80 <= raw[0] < 0x90 ==> spec_parse_message(raw, filter) == Some(
            NoteEvent::NoteOff { note: raw[1] },
        ),
        0xE0 <= raw[0] < 0xF0 ==> spec_parse_message(raw, filter) == Some(
            NoteEvent::PitchBend { bend: (raw[1] + 128 * raw[2]) as u16 },
        ),
        0xB0 <= raw[0] < 0xC0 && raw[1] == 1 ==> spec_parse_message(raw, filter) == Some(
            NoteEvent::ModWheel { value: raw[2] },
        ),
        0xB0 <= raw[0] < 0xC0 && raw[1] != 1 ==> spec_parse_message(raw, filter) is None,
        (0xA0 <= raw[0] < 0xB0 || 0xC0 <= raw[0] < 0xE0) ==> spec_parse_message(raw, filter) is None,
{
}

/// Bytes that do not start with a channel-voice status byte (an empty
/// input, a data byte, or a system message) give no event.
pub proof fn only_channel_voice_messages(raw: Seq<u8>, filter: MidiChannel)
    requires
        raw.len() == 0 || raw[0] < 0x80 || raw[0] >= 0xF0,
    ensures
        spec_parse_message(raw, filter) is None,
{
}

/// What `str::to_lowercase` returns for a string.
pub uninterp spec fn lowercase(s: Seq<char>) -> Seq<char>;

/// `str::to_lowercase`.
///
/// Trusted: the result is `lowercase(s)`, and the lower case of the empty
/// string is empty. Nothing more of Unicode case mapping is stated.
#[verifier::external_body]
fn to_lowercase(s: &str) -> (r: String)
    ensures
        r@ == lowercase(s@),
        s@.len() == 0 ==> r@.len() == 0,
{
    s.to_lowercase()
}

/// A port matches a hint when its name could be read and the name, in lower
/// case, contains the hint in lower case.
pub open spec fn port_matches(name: Option<String>, hint: Seq<char>) -> bool {
    match name {
        Some(n) => contains_seq(lowercase(n@), lowercase(hint)),
        None => false,
    }
}

/// Picks the port whose name contains `hint`, ignoring case; the first port
/// when none does (so an empty hint picks the first port whose name can be
/// read); `None` when there is no port.
pub fn select_port(names: &Vec<Option<String>>, hint: &str) -> (r: Option<usize>)
    ensures
        names@.len() == 0 <==> r is None,
        r matches Some(i) ==> i < names@.len(),
        r matches Some(i) ==> (port_matches(names@[i as int], hint@) && forall|j: int|
            0 <= j < i ==> !port_matches(#[trigger] names@[j], hint@)) || (i == 0 && forall|j: int|
            0 <= j < names@.len() ==> !port_matches(#[trigger] names@[j], hint@)),
        hint@.len() == 0 ==> (r matches Some(i) ==> (names@[i as int] is Some && forall|j: int|
            0 <= j < i ==> #[trigger] names@[j] is None) || (i == 0 && forall|j: int|
            0 <= j < names@.len() ==> #[trigger] names@[j] is None)),
{
    if names.len() == 0 {
        return None;
    }
    let lower_hint = to_lowercase(hint);
    let needle = chars_of(lower_hint.as_str());
    for i in 0..names.len()
        invariant
            names@.len() > 0,
            needle@ == lowercase(hint@),
            hint@.len() == 0 ==> needle@.len() == 0,
            hint@.len() == 0 ==> forall|j: int| 0 <= j < i ==> #[trigger] names@[j] is None,
            forall|j: int| 0 <= j < i ==> !port_matches(#[trigger] names@[j], hint@),
    {
        match &names[i] {
            Some(name) => {
                let lower = to_lowercase(name.as_str());
                let hay = chars_of(lower.as_str());
                assert(needle@.len() == 0 ==> hay@.subrange(0, 0) =~= needle@);
                assert(needle@.len() == 0 ==> crate::text::occurs_at(hay@, needle@, 0));
                if contains(hay.as_slice(), needle.as_slice()) {
                    return Some(i);
                }
            },
            None => {},
        }
    }
    Some(0)
}

} // verus!

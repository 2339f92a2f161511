//! Events of a Novation Launch Control XL in its first factory template.
//!
//! The surface has four rows of eight faders (the top three are knobs) and two
//! rows of eight buttons. A fader sends a controller message whose controller
//! number says which fader it is and whose value, from 0 to 127, says where
//! it stands; a button sends a note-on message when pressed and a note-off
//! message when released, and the note says which button it is. The surface
//! sends on MIDI channel 1 or 9.
use crate::cli::{gain_of_value, value_to_gain};
use crate::sample::Sample;
use vstd::prelude::*;

verus! {

/// A fader moved to a position between zero and one, or a button went down
/// (`true`) or up (`false`). The first number is the row, the second the
/// column.
#[derive(Debug, Copy, Clone, PartialEq)]
pub enum Event<S> {
    Fader1_1(S),
    Fader1_2(S),
    Fader1_3(S),
    Fader1_4(S),
    Fader1_5(S),
    Fader1_6(S),
    Fader1_7(S),
    Fader1_8(S),
    Fader2_1(S),
    Fader2_2(S),
    Fader2_3(S),
    Fader2_4(S),
    Fader2_5(S),
    Fader2_6(S),
    Fader2_7(S),
    Fader2_8(S),
    Fader3_1(S),
    Fader3_2(S),
    Fader3_3(S),
    Fader3_4(S),
    Fader3_5(S),
    Fader3_6(S),
    Fader3_7(S),
    Fader3_8(S),
    Fader4_1(S),
    Fader4_2(S),
    Fader4_3(S),
    Fader4_4(S),
    Fader4_5(S),
    Fader4_6(S),
    Fader4_7(S),
    Fader4_8(S),
    Button1_1(bool),
    Button1_2(bool),
    Button1_3(bool),
    Button1_4(bool),
    Button1_5(bool),
    Button1_6(bool),
    Button1_7(bool),
    Button1_8(bool),
    Button2_1(bool),
    Button2_2(bool),
    Button2_3(bool),
    Button2_4(bool),
    Button2_5(bool),
    Button2_6(bool),
    Button2_7(bool),
    Button2_8(bool),
}

/// Row and column of the fader with controller number `control`: each row's
/// eight faders have consecutive numbers.
pub open spec fn fader_at(control: u8) -> Option<(int, int)> {
    if 0x0d <= control <= 0x14 {
        Some((1, control - 0x0d + 1))
    } else if 0x1d <= control <= 0x24 {
        Some((2, control - 0x1d + 1))
    } else if 0x31 <= control <= 0x38 {
        Some((3, control - 0x31 + 1))
    } else if 0x4d <= control <= 0x54 {
        Some((4, control - 0x4d + 1))
    } else {
        None
    }
}

/// The column of the button in the top row with note `note`: the notes run
/// in two groups of four, `0x29, 0x30, 0x31, 0x32` and `0x39, 0x40, 0x41,
/// 0x42`.
pub open spec fn top_button_column(note: int) -> Option<int> {
    if note == 0x29 {
        Some(1)
    } else if 0x30 <= note <= 0x32 {
        Some(note - 0x2e)
    } else if note == 0x39 {
        Some(5)
    } else if 0x40 <= note <= 0x42 {
        Some(note - 0x3a)
    } else {
        None
    }
}

/// Row and column of the button with note `note`: the notes of the bottom
/// row lie `0x20` above those of the top row.
pub open spec fn button_at(note: u8) -> Option<(int, int)> {
    match top_button_column(note as int) {
        Some(column) => Some((1, column)),
        None => match top_button_column(note - 0x20) {
            Some(column) => Some((2, column)),
            None => None,
        },
    }
}

/// The event of the fader in `row` and `column` at `position`.
pub open spec fn fader_event<S>(row: int, column: int, position: S) -> Event<S> {
    if row == 1 && column == 1 {
        Event::Fader1_1(position)
    }
    else if row == 1 && column == 2 {
        Event::Fader1_2(position)
    }
    else if row == 1 && column == 3 {
        Event::Fader1_3(position)
    }
    else if row == 1 && column == 4 {
        Event::Fader1_4(position)
    }
    else if row == 1 && column == 5 {
        Event::Fader1_5(position)
    }
    else if row == 1 && column == 6 {
        Event::Fader1_6(position)
    }
    else if row == 1 && column == 7 {
        Event::Fader1_7(position)
    }
    else if row == 1 && column == 8 {
        Event::Fader1_8(position)
    }
    else if row == 2 && column == 1 {
        Event::Fader2_1(position)
    }
    else if row == 2 && column == 2 {
        Event::Fader2_2(position)
    }
    else if row == 2 && column == 3 {
        Event::Fader2_3(position)
    }
    else if row == 2 && column == 4 {
        Event::Fader2_4(position)
    }
    else if row == 2 && column == 5 {
        Event::Fader2_5(position)
    }
    else if row == 2 && column == 6 {
        Event::Fader2_6(position)
    }
    else if row == 2 && column == 7 {
        Event::Fader2_7(position)
    }
    else if row == 2 && column == 8 {
        Event::Fader2_8(position)
    }
    else if row == 3 && column == 1 {
        Event::Fader3_1(position)
    }
    else if row == 3 && column == 2 {
        Event::Fader3_2(position)
    }
    else if row == 3 && column == 3 {
        Event::Fader3_3(position)
    }
    else if row == 3 && column == 4 {
        Event::Fader3_4(position)
    }
    else if row == 3 && column == 5 {
        Event::Fader3_5(position)
    }
    else if row == 3 && column == 6 {
        Event::Fader3_6(position)
    }
    else if row == 3 && column == 7 {
        Event::Fader3_7(position)
    }
    else if row == 3 && column == 8 {
        Event::Fader3_8(position)
    }
    else if row == 4 && column == 1 {
        Event::Fader4_1(position)
    }
    else if row == 4 && column == 2 {
        Event::Fader4_2(position)
    }
    else if row == 4 && column == 3 {
        Event::Fader4_3(position)
    }
    else if row == 4 && column == 4 {
        Event::Fader4_4(position)
    }
    else if row == 4 && column == 5 {
        Event::Fader4_5(position)
    }
    else if row == 4 && column == 6 {
        Event::Fader4_6(position)
    }
    else if row == 4 && column == 7 {
        Event::Fader4_7(position)
    }
    else {
        Event::Fader4_8(position)
    }
}

/// The event of the button in `row` and `column` going down or up.
pub open spec fn button_event<S>(row: int, column: int, down: bool) -> Event<S> {
    if row == 1 && column == 1 {
        Event::Button1_1(down)
    }
    else if row == 1 && column == 2 {
        Event::Button1_2(down)
    }
    else if row == 1 && column == 3 {
        Event::Button1_3(down)
    }
    else if row == 1 && column == 4 {
        Event::Button1_4(down)
    }
    else if row == 1 && column == 5 {
        Event::Button1_5(down)
    }
    else if row == 1 && column == 6 {
        Event::Button1_6(down)
    }
    else if row == 1 && column == 7 {
        Event::Button1_7(down)
    }
    else if row == 1 && column == 8 {
        Event::Button1_8(down)
    }
    else if row == 2 && column == 1 {
        Event::Button2_1(down)
    }
    else if row == 2 && column == 2 {
        Event::Button2_2(down)
    }
    else if row == 2 && column == 3 {
        Event::Button2_3(down)
    }
    else if row == 2 && column == 4 {
        Event::Button2_4(down)
    }
    else if row == 2 && column == 5 {
        Event::Button2_5(down)
    }
    else if row == 2 && column == 6 {
        Event::Button2_6(down)
    }
    else if row == 2 && column == 7 {
        Event::Button2_7(down)
    }
    else {
        Event::Button2_8(down)
    }
}

/// The event that a raw message stands for, if any.
pub open spec fn parsed<S: Sample>(raw: Seq<u8>) -> Option<Event<S>> {
    if raw.len() == 0 {
        None
    } else if raw[0] == 0xb0 || raw[0] == 0xb8 {
        if raw.len() >= 3 && raw[2] <= 127 && fader_at(raw[1]).is_some() {
            let place = fader_at(raw[1]).unwrap();
            Some(fader_event(place.0, place.1, gain_of_value::<S>(raw[2])))
        } else {
            None
        }
    } else if raw[0] == 0x90 || raw[0] == 0x98 || raw[0] == 0x80 || raw[0] == 0x88 {
        if raw.len() >= 2 && button_at(raw[1]).is_some() {
            let place = button_at(raw[1]).unwrap();
            Some(button_event(place.0, place.1, raw[0] == 0x90 || raw[0] == 0x98))
        } else {
            None
        }
    } else {
        None
    }
}

impl<S: Sample> Event<S> {
    /// Reads one raw message from the surface.
    pub fn parse(raw: &[u8]) -> (r: Option<Self>)
        ensures
            r == parsed::<S>(raw@),
    {
        if raw.len() == 0 {
            return None;
        }
        let status = raw[0];
        if status == 0xb0 || status == 0xb8 {
            if raw.len() < 3 || raw[2] > 127 {
                return None;
            }
            let val: S = value_to_gain(raw[2]);
            Self::fader(raw[1], val)
        } else if status == 0x90 || status == 0x98 {
            if raw.len() < 2 {
                return None;
            }
            Self::button(raw[1], true)
        } else if status == 0x80 || status == 0x88 {
            if raw.len() < 2 {
                return None;
            }
            Self::button(raw[1], false)
        } else {
            None
        }
    }

    /// The event of the fader with controller number `control`.
    fn fader(control: u8, val: S) -> (r: Option<Self>)
        ensures
            r == match fader_at(control) {
                Some(place) => Some(fader_event(place.0, place.1, val)),
                None => None::<Self>,
            },
    {
        Some(
            match control {
                0xd => Event::Fader1_1(val),
                0xe => Event::Fader1_2(val),
                0xf => Event::Fader1_3(val),
                0x10 => Event::Fader1_4(val),
                0x11 => Event::Fader1_5(val),
                0x12 => Event::Fader1_6(val),
                0x13 => Event::Fader1_7(val),
                0x14 => Event::Fader1_8(val),
                0x1d => Event::Fader2_1(val),
                0x1e => Event::Fader2_2(val),
                0x1f => Event::Fader2_3(val),
                0x20 => Event::Fader2_4(val),
                0x21 => Event::Fader2_5(val),
                0x22 => Event::Fader2_6(val),
                0x23 => Event::Fader2_7(val),
                0x24 => Event::Fader2_8(val),
                0x31 => Event::Fader3_1(val),
                0x32 => Event::Fader3_2(val),
                0x33 => Event::Fader3_3(val),
                0x34 => Event::Fader3_4(val),
                0x35 => Event::Fader3_5(val),
                0x36 => Event::Fader3_6(val),
                0x37 => Event::Fader3_7(val),
                0x38 => Event::Fader3_8(val),
                0x4d => Event::Fader4_1(val),
                0x4e => Event::Fader4_2(val),
                0x4f => Event::Fader4_3(val),
                0x50 => Event::Fader4_4(val),
                0x51 => Event::Fader4_5(val),
                0x52 => Event::Fader4_6(val),
                0x53 => Event::Fader4_7(val),
                0x54 => Event::Fader4_8(val),
                _ => {
                    return None;
                },
            },
        )
    }

    /// The event of the button with note `note`.
    fn button(note: u8, down: bool) -> (r: Option<Self>)
        ensures
            r == match button_at(note) {
                Some(place) => Some(button_event(place.0, place.1, down)),
                None => None::<Self>,
            },
    {
        Some(
            match note {
                0x29 => Event::Button1_1(down),
                0x30 => Event::Button1_2(down),
                0x31 => Event::Button1_3(down),
                0x32 => Event::Button1_4(down),
                0x39 => Event::Button1_5(down),
                0x40 => Event::Button1_6(down),
                0x41 => Event::Button1_7(down),
                0x42 => Event::Button1_8(down),
                0x49 => Event::Button2_1(down),
                0x50 => Event::Button2_2(down),
                0x51 => Event::Button2_3(down),
                0x52 => Event::Button2_4(down),
                0x59 => Event::Button2_5(down),
                0x60 => Event::Button2_6(down),
                0x61 => Event::Button2_7(down),
                0x62 => Event::Button2_8(down),
                _ => {
                    return None;
                },
            },
        )
    }
}

} // verus!

//! Sizes and positions of the dialogs.
use vstd::prelude::*;
use vstd::utf8::encode_utf8;

use crate::view::Area;

verus! {

pub struct Ui {}

/// The UTF-8 length of a text, in bytes.
pub open spec fn text_len(s: Seq<char>) -> nat {
    encode_utf8(s).len()
}

pub open spec fn max_nat(a: nat, b: nat) -> nat {
    if a >= b {
        a
    } else {
        b
    }
}

/// `v` held between `lo` and `hi` (`lo <= hi`).
pub open spec fn clamp(v: int, lo: int, hi: int) -> int {
    if v < lo {
        lo
    } else if v > hi {
        hi
    } else {
        v
    }
}

/// The width of a dialog: its widest text plus `pad`, cut to 16 bits, held
/// between `lo` and the area's width (at most `hi`).
pub open spec fn dialog_width(widest: nat, pad: nat, lo: int, hi: int, area_width: u16) -> u16 {
    let room = if (area_width as int) < hi { area_width as int } else { hi };
    clamp(((widest + pad) as u16) as int, lo, room) as u16
}

fn byte_len(s: &str) -> (r: usize)
    ensures
        r as nat == text_len(s@),
{
    s.as_bytes().len()
}

fn max_usize(a: usize, b: usize) -> (r: usize)
    ensures
        r as nat == max_nat(a as nat, b as nat),
{
    if a >= b {
        a
    } else {
        b
    }
}

fn clamp_u16(v: u16, lo: u16, hi: u16) -> (r: u16)
    requires
        lo <= hi,
    ensures
        r as int == clamp(v as int, lo as int, hi as int),
{
    if v < lo {
        lo
    } else if v > hi {
        hi
    } else {
        v
    }
}

impl Ui {
    /// Width and height of a yes/no question dialog: wide enough for its
    /// lines, title and tip plus 6 (between 30 and the area's width, at most
    /// 80), four rows high, two more with a tip.
    pub fn question_modal_size(
        text_first_line: &str,
        text_second_line: &str,
        title: &str,
        tip: Option<&str>,
        area_width: u16,
    ) -> (r: (u16, u16))
        requires
            area_width >= 30,
            text_len(text_first_line@) + 6 <= usize::MAX,
            text_len(text_second_line@) + 6 <= usize::MAX,
            text_len(title@) + 6 <= usize::MAX,
            tip matches Some(t) ==> text_len(t@) + 6 <= usize::MAX,
        ensures
            ({
                let tip_len: nat = match tip {
                    Some(t) => text_len(t@),
                    None => 0,
                };
                let widest = max_nat(
                    max_nat(
                        max_nat(text_len(text_first_line@), text_len(text_second_line@)),
                        text_len(title@),
                    ),
                    tip_len,
                );
                &&& r.0 == dialog_width(widest, 6, 30, 80, area_width)
                &&& r.1 == if tip is Some { 6u16 } else { 4u16 }
            }),
    {
        let content_width = max_usize(byte_len(text_first_line), byte_len(text_second_line));
        let title_width = byte_len(title);
        let tip_width = match tip {
            Some(t) => byte_len(t),
            None => 0,
        };
        let widest = max_usize(max_usize(content_width, title_width), tip_width);
        let room = if area_width < 80 {
            area_width
        } else {
            80
        };
        let popup_width = clamp_u16(#[verifier::truncate] ((widest + 6) as u16), 30, room);
        let height: u16 = if tip.is_some() {
            6
        } else {
            4
        };
        (popup_width, height)
    }

    /// Width of a text input dialog: wide enough for the text, title and tip
    /// plus 10 (between 35 and the area's width, at most 70).
    pub fn input_modal_width(input: &str, title: &str, tip: &str, area_width: u16) -> (r: u16)
        requires
            area_width >= 35,
            text_len(input@) + 10 <= usize::MAX,
            text_len(title@) + 10 <= usize::MAX,
            text_len(tip@) + 10 <= usize::MAX,
        ensures
            r == dialog_width(
                max_nat(max_nat(text_len(input@), text_len(title@)), text_len(tip@)),
                10,
                35,
                70,
                area_width,
            ),
    {
        let widest = max_usize(max_usize(byte_len(input), byte_len(title)), byte_len(tip));
        let room = if area_width < 70 {
            area_width
        } else {
            70
        };
        clamp_u16(#[verifier::truncate] ((widest + 10) as u16), 35, room)
    }

    /// The parts of a text input dialog: the input box (its top three rows)
    /// and the tip line below it.
    pub fn input_modal_parts(modal: Area) -> (r: (Area, Area))
        requires
            modal.y + 3 <= u16::MAX,
        ensures
            r.0 == (Area { x: modal.x, y: modal.y, width: modal.width, height: 3 }),
            r.1 == (Area { x: modal.x, y: (modal.y + 3) as u16, width: modal.width, height: 1 }),
    {
        (
            Area { x: modal.x, y: modal.y, width: modal.width, height: 3 },
            Area { x: modal.x, y: modal.y + 3, width: modal.width, height: 1 },
        )
    }

    /// The width of text that the input box shows: its width less the
    /// borders and the cursor (never below zero).
    pub fn input_text_width(input_area: Area) -> (r: u16)
        ensures
            r as int == if input_area.width >= 3 { input_area.width - 3 } else { 0 },
    {
        let w = if input_area.width > 3 {
            input_area.width
        } else {
            3
        };
        w - 3
    }

    /// Where the cursor goes in the input box: after the visible part of
    /// the text, inside the border.
    pub fn input_cursor(input_area: Area, visual_cursor: usize, scroll: usize) -> (r: (u16, u16))
        requires
            input_area.x as int + ((if visual_cursor >= scroll { visual_cursor - scroll } else { 0int }) as u16) as int + 1
                <= u16::MAX,
            input_area.y + 1 <= u16::MAX,
        ensures
            r.0 as int == input_area.x as int + ((if visual_cursor >= scroll { visual_cursor - scroll } else { 0int }) as u16) as int + 1,
            r.1 == input_area.y + 1,
    {
        let shown = max_usize(visual_cursor, scroll) - scroll;
        (input_area.x + (shown as u16) + 1, input_area.y + 1)
    }
}

} // verus!

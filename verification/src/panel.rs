use vstd::prelude::*;
use crate::geometry::{scale_for_dpi, spec_contains, spec_scale_for_dpi_trunc, Point, Rect};
use crate::recording_overlay::{color_slicing_fails, color_value, optional_text, spec_color_value};

verus! {

pub const PANEL_PADDING: i32 = 6;
pub const PANEL_BUTTON_HEIGHT: i32 = 34;
pub const PANEL_BUTTON_GAP: i32 = 4;
pub const PANEL_CORNER_RADIUS: i32 = 12;
pub const PANEL_BUTTON_RADIUS: i32 = 8;
pub const PANEL_FONT_SIZE: i32 = 12;
pub const PANEL_FONT_WEIGHT: i32 = 600;
pub const PANEL_ALPHA: u8 = 245;

/// Colours are `COLORREF` values: `0x00BBGGRR`.
pub const PANEL_BACKGROUND: u32 = 0x001E1E1E;
pub const BUTTON_TEXT: u32 = 0x00EDEDED;
pub const BUTTON_TEXT_ON_FILL: u32 = 0x00FFFFFF;
pub const NEUTRAL_BUTTON: [u32; 3] = [0x002E2E2E, 0x003D3D3D, 0x004A4A4A];
pub const PRIMARY_BUTTON: [u32; 3] = [0x00FF7A00, 0x00FF9433, 0x00E06E00];
pub const ACTIVE_BUTTON: [u32; 3] = [0x00303BFF, 0x005A63FF, 0x002832E0];

/// How a panel button is being interacted with.
#[derive(Clone, Copy, Debug, PartialEq, Eq, Structural)]
pub enum ButtonState {
    Idle,
    Hovered,
    Pressed,
}

/// A press wins over a hover; neither leaves the button idle.
pub fn button_state(hovered: bool, pressed: bool) -> (state: ButtonState)
    ensures
        state == (if pressed {
            ButtonState::Pressed
        } else if hovered {
            ButtonState::Hovered
        } else {
            ButtonState::Idle
        }),
{
    if pressed {
        ButtonState::Pressed
    } else if hovered {
        ButtonState::Hovered
    } else {
        ButtonState::Idle
    }
}

/// The palette entry for a state: idle, hovered and pressed in that order.
pub fn button_fill(palette: [u32; 3], state: ButtonState) -> (fill: u32)
    ensures
        fill == match state {
            ButtonState::Idle => palette@[0],
            ButtonState::Hovered => palette@[1],
            ButtonState::Pressed => palette@[2],
        },
{
    match state {
        ButtonState::Idle => palette[0],
        ButtonState::Hovered => palette[1],
        ButtonState::Pressed => palette[2],
    }
}

/// A theme colour, `#rrggbb`, as a COLORREF; `None` when it is missing or
/// not such a colour, so that a panel can refuse to show without its theme.
pub fn parse_color(value: Option<&str>) -> (color: Option<u32>)
    requires
        value matches Some(text) ==> !color_slicing_fails(text@),
    ensures
        color == spec_color_value(optional_text(value)),
{
    color_value(value)
}

/// Height of a one-row button panel at 96 DPI.
pub fn panel_height() -> (height: i32)
    ensures
        height == 2 * PANEL_PADDING + PANEL_BUTTON_HEIGHT,
{
    PANEL_PADDING * 2 + PANEL_BUTTON_HEIGHT
}

/// Sum of the first `count` widths.
pub open spec fn widths_before(widths: Seq<i32>, count: int) -> int
    decreases count,
{
    if count <= 0 || count > widths.len() {
        0
    } else {
        widths_before(widths, count - 1) + widths[count - 1]
    }
}

/// Width of a panel at 96 DPI: padding on both sides, the buttons, and one gap
/// between each pair of buttons.
pub open spec fn spec_panel_width(widths: Seq<i32>) -> int {
    let gaps = if widths.len() >= 1 { PANEL_BUTTON_GAP * (widths.len() - 1) } else { 0 };
    2 * PANEL_PADDING + widths_before(widths, widths.len() as int) + gaps
}

/// Every partial sum that the layout arithmetic forms fits in `i32`.
pub open spec fn widths_fit(widths: Seq<i32>) -> bool {
    &&& PANEL_BUTTON_GAP * widths.len() <= i32::MAX
    &&& forall|k: int|
        #![trigger widths_before(widths, k)]
        0 <= k <= widths.len() ==> {
            &&& i32::MIN <= widths_before(widths, k) <= i32::MAX
            &&& i32::MIN <= PANEL_PADDING + widths_before(widths, k) <= i32::MAX
            &&& i32::MIN <= PANEL_PADDING + widths_before(widths, k) + PANEL_BUTTON_GAP * k
                <= i32::MAX
            &&& i32::MIN <= 2 * PANEL_PADDING + widths_before(widths, k) <= i32::MAX
        }
    &&& i32::MIN <= spec_panel_width(widths) <= i32::MAX
}

pub fn panel_width(widths: &[i32]) -> (width: i32)
    requires
        widths_fit(widths@),
    ensures
        width == spec_panel_width(widths@),
{
    let mut total: i32 = 0;
    let mut index: usize = 0;
    while index < widths.len()
        invariant
            index <= widths@.len(),
            widths_fit(widths@),
            total == widths_before(widths@, index as int),
        decreases widths@.len() - index,
    {
        proof {
            lemma_widths_before_step(widths@, index as int);
            assert(i32::MIN <= widths_before(widths@, index as int + 1) <= i32::MAX);
        }
        total = total + widths[index];
        index = index + 1;
    }
    let gaps: i32 = if widths.len() >= 1 { PANEL_BUTTON_GAP * (widths.len() as i32 - 1) } else { 0 };
    assert(i32::MIN <= 2 * PANEL_PADDING + widths_before(widths@, widths@.len() as int) <= i32::MAX);
    PANEL_PADDING * 2 + total + gaps
}

/// Left edge of button `index` at 96 DPI.
pub open spec fn button_left(widths: Seq<i32>, index: int) -> int {
    PANEL_PADDING + widths_before(widths, index) + PANEL_BUTTON_GAP * index
}

/// The rectangle of button `index`, scaled to `dpi`.
pub open spec fn spec_button_rect(widths: Seq<i32>, index: int, dpi: int) -> Rect {
    Rect {
        left: spec_scale_for_dpi_trunc(button_left(widths, index), dpi) as i32,
        top: spec_scale_for_dpi_trunc(PANEL_PADDING as int, dpi) as i32,
        right: spec_scale_for_dpi_trunc(button_left(widths, index) + widths[index], dpi) as i32,
        bottom: spec_scale_for_dpi_trunc((PANEL_PADDING + PANEL_BUTTON_HEIGHT) as int, dpi) as i32,
    }
}

/// The widths fit, and so do the button edges once scaled to `dpi`.
pub open spec fn layout_fits(widths: Seq<i32>, dpi: int) -> bool {
    &&& widths_fit(widths)
    &&& 0 <= dpi <= u32::MAX
    &&& forall|k: int|
        #![trigger widths_before(widths, k)]
        0 <= k <= widths.len() ==> i32::MIN <= spec_scale_for_dpi_trunc(
            PANEL_PADDING + widths_before(widths, k) + PANEL_BUTTON_GAP * k,
            dpi,
        ) <= i32::MAX
    &&& forall|k: int|
        #![trigger widths[k]]
        0 <= k < widths.len() ==> i32::MIN <= button_left(widths, k) + widths[k] <= i32::MAX
            && i32::MIN <= spec_scale_for_dpi_trunc(button_left(widths, k) + widths[k], dpi)
            <= i32::MAX
    &&& spec_scale_for_dpi_trunc((PANEL_PADDING + PANEL_BUTTON_HEIGHT) as int, dpi) <= i32::MAX
}

proof fn lemma_widths_before_step(widths: Seq<i32>, k: int)
    requires
        0 <= k < widths.len(),
    ensures
        widths_before(widths, k + 1) == widths_before(widths, k) + widths[k],
{
}

pub fn button_rect(widths: &[i32], index: usize, dpi: u32) -> (rect: Rect)
    requires
        index < widths@.len(),
        layout_fits(widths@, dpi as int),
    ensures
        rect == spec_button_rect(widths@, index as int, dpi as int),
{
    let mut before: i32 = 0;
    let mut k: usize = 0;
    while k < index
        invariant
            k <= index < widths@.len(),
            layout_fits(widths@, dpi as int),
            before == widths_before(widths@, k as int),
        decreases index - k,
    {
        proof {
            lemma_widths_before_step(widths@, k as int);
            assert(i32::MIN <= widths_before(widths@, k as int + 1) <= i32::MAX);
        }
        before = before + widths[k];
        k = k + 1;
    }
    assert(i32::MIN <= PANEL_PADDING + widths_before(widths@, index as int) + PANEL_BUTTON_GAP
        * index <= i32::MAX);
    assert(i32::MIN <= PANEL_PADDING + widths_before(widths@, index as int) <= i32::MAX);
    let left: i32 = PANEL_PADDING + before + PANEL_BUTTON_GAP * index as i32;
    assert(widths@[index as int] == widths[index as int]);
    assert(i32::MIN <= spec_scale_for_dpi_trunc(left as int, dpi as int) <= i32::MAX);
    assert(i32::MIN <= left + widths[index as int] <= i32::MAX);
    Rect {
        left: scale_for_dpi(left, dpi),
        top: scale_for_dpi(PANEL_PADDING, dpi),
        right: scale_for_dpi(left + widths[index], dpi),
        bottom: scale_for_dpi(PANEL_PADDING + PANEL_BUTTON_HEIGHT, dpi),
    }
}

/// The first button whose rectangle holds `point`, if any.
pub fn button_at(widths: &[i32], point: Point, dpi: u32) -> (hit: Option<usize>)
    requires
        layout_fits(widths@, dpi as int),
    ensures
        match hit {
            Some(index) => index < widths@.len() && spec_contains(
                spec_button_rect(widths@, index as int, dpi as int),
                point,
            ) && forall|k: int|
                0 <= k < index ==> !spec_contains(spec_button_rect(widths@, k, dpi as int), point),
            None => forall|k: int|
                0 <= k < widths@.len() ==> !spec_contains(
                    spec_button_rect(widths@, k, dpi as int),
                    point,
                ),
        },
{
    let mut index: usize = 0;
    while index < widths.len()
        invariant
            index <= widths@.len(),
            layout_fits(widths@, dpi as int),
            forall|k: int|
                0 <= k < index ==> !spec_contains(spec_button_rect(widths@, k, dpi as int), point),
        decreases widths@.len() - index,
    {
        let rect = button_rect(widths, index, dpi);
        if point.x >= rect.left && point.x < rect.right && point.y >= rect.top && point.y
            < rect.bottom {
            return Some(index);
        }
        index = index + 1;
    }
    None
}

} // verus!

use vstd::prelude::*;
use crate::geometry::{contains, spec_contains, Point, Rect};
use crate::text::parse_i32;
use crate::text::spec_parse_i32;

verus! {

pub const PANEL_WIDTH: i32 = 288;
pub const PANEL_WIDTH_WITHOUT_RECORDING: i32 = 240;
pub const PANEL_HEIGHT: i32 = 48;
pub const SIZE_EDITOR_WIDTH: i32 = 220;
pub const SIZE_EDITOR_HEIGHT: i32 = 88;
pub const BUTTON_WIDTH: i32 = 48;
pub const CORNER_RADIUS: i32 = 8;
pub const MIN_SIZE: i32 = 20;
pub const MAX_SIZE: i32 = 100000;

/// `value * dpi / 96`, rounded to the nearest integer (halves up).
pub open spec fn spec_scaled_for_dpi(value: int, dpi: int) -> int {
    let product = value * dpi + 48;
    if product >= 0 { product / 96 } else { -((-product) / 96) }
}

/// Scales a length from 96 DPI to `dpi`, rounding to the nearest pixel.
pub fn scaled_for_dpi(value: i32, dpi: i32) -> (scaled: i32)
    requires
        i32::MIN <= value * dpi + 48 <= i32::MAX,
        i32::MIN <= value * dpi <= i32::MAX,
    ensures
        scaled == spec_scaled_for_dpi(value as int, dpi as int),
{
    (value * dpi + 48) / 96
}

/// Width of the panel at 96 DPI, with or without the record button.
pub fn logical_panel_width(recording_enabled: bool) -> (width: i32)
    ensures
        width == (if recording_enabled { PANEL_WIDTH } else { PANEL_WIDTH_WITHOUT_RECORDING }),
{
    if recording_enabled {
        return PANEL_WIDTH;
    }
    PANEL_WIDTH_WITHOUT_RECORDING
}

pub open spec fn spec_column_count(recording_enabled: bool) -> int {
    if recording_enabled { 6 } else { 5 }
}

/// The panel is split into equal columns, one per button.
pub fn panel_column_count(recording_enabled: bool) -> (count: i32)
    ensures
        count == spec_column_count(recording_enabled),
{
    if recording_enabled {
        return 6;
    }
    5
}

/// The buttons of the all-in-one panel.
#[derive(Clone, Copy, Debug, PartialEq, Eq, Structural)]
pub enum PanelButton {
    Close,
    AspectRatio,
    Size,
    Screenshot,
    Record,
    Drag,
}

pub open spec fn spec_button_for_column(column: int, recording_enabled: bool) -> Option<PanelButton> {
    if column < 0 || column >= spec_column_count(recording_enabled) {
        None
    } else if column == 0 {
        Some(PanelButton::Close)
    } else if column == 1 {
        Some(PanelButton::AspectRatio)
    } else if column == 2 {
        Some(PanelButton::Size)
    } else if column == 3 {
        Some(PanelButton::Screenshot)
    } else if column == 4 && recording_enabled {
        Some(PanelButton::Record)
    } else {
        Some(PanelButton::Drag)
    }
}

/// The button shown in a column: close, aspect ratio, size, screenshot, then
/// record (when recording is offered) and the drag handle.
pub fn panel_button_for_column(column: i32, recording_enabled: bool) -> (button: Option<PanelButton>)
    ensures
        button == spec_button_for_column(column as int, recording_enabled),
{
    if column < 0 || column >= panel_column_count(recording_enabled) {
        return None;
    }
    match column {
        0 => Some(PanelButton::Close),
        1 => Some(PanelButton::AspectRatio),
        2 => Some(PanelButton::Size),
        3 => Some(PanelButton::Screenshot),
        4 if recording_enabled => Some(PanelButton::Record),
        _ => Some(PanelButton::Drag),
    }
}

pub open spec fn spec_button_columns(button: PanelButton, recording_enabled: bool) -> Option<(i32, i32)> {
    match button {
        PanelButton::Close => Some((0i32, 1i32)),
        PanelButton::AspectRatio => Some((1i32, 2i32)),
        PanelButton::Size => Some((2i32, 3i32)),
        PanelButton::Screenshot => Some((3i32, 4i32)),
        PanelButton::Record => if recording_enabled { Some((4i32, 5i32)) } else { None },
        PanelButton::Drag => if recording_enabled { Some((5i32, 6i32)) } else { Some((4i32, 5i32)) },
    }
}

/// The first column and the column after the last that a button spans.
pub fn panel_button_columns(button: PanelButton, recording_enabled: bool) -> (columns: Option<(i32, i32)>)
    ensures
        columns == spec_button_columns(button, recording_enabled),
{
    match button {
        PanelButton::Close => Some((0, 1)),
        PanelButton::AspectRatio => Some((1, 2)),
        PanelButton::Size => Some((2, 3)),
        PanelButton::Screenshot => Some((3, 4)),
        PanelButton::Record => if recording_enabled { Some((4, 5)) } else { None },
        PanelButton::Drag => if recording_enabled { Some((5, 6)) } else { Some((4, 5)) },
    }
}

/// Every button sits in the columns that it claims: the two lookups agree.
pub proof fn lemma_columns_agree(column: int, recording_enabled: bool)
    requires
        0 <= column < spec_column_count(recording_enabled),
    ensures
        spec_button_for_column(column, recording_enabled) matches Some(button) && spec_button_columns(
            button,
            recording_enabled,
        ) == Some((column as i32, (column + 1) as i32)),
{
}

/// The button under `point` in a `width` x `height` panel, or `None` for a
/// point outside the panel.
pub fn panel_button_at(width: i32, height: i32, point: Point, recording_enabled: bool) -> (button: Option<PanelButton>)
    requires
        width > 0 ==> width * 6 <= i32::MAX,
    ensures
        button == (if width <= 0 || height <= 0 || point.x < 0 || point.y < 0 || point.x >= width
            || point.y >= height {
            None
        } else {
            spec_button_for_column(
                point.x * spec_column_count(recording_enabled) / (width as int),
                recording_enabled,
            )
        }),
{
    if width <= 0 || height <= 0 || point.x < 0 || point.y < 0 || point.x >= width || point.y
        >= height {
        return None;
    }
    let column_count = panel_column_count(recording_enabled);
    assert(0 <= point.x * column_count <= width * 6) by (nonlinear_arith)
        requires
            0 <= point.x < width,
            1 <= column_count <= 6,
    ;
    assert(point.x * column_count / (width as int) < column_count) by (nonlinear_arith)
        requires
            0 <= point.x < width,
            1 <= column_count <= 6,
    ;
    let column = point.x * column_count / width;
    let clamped = if column < 0 {
        0
    } else if column > column_count - 1 {
        column_count - 1
    } else {
        column
    };
    panel_button_for_column(clamped, recording_enabled)
}

/// The rectangle of a button inside the panel's client rectangle; the last
/// column takes whatever the equal split leaves over.
pub fn panel_button_rect(client: Rect, button: PanelButton, recording_enabled: bool) -> (rect: Option<Rect>)
    requires
        i32::MIN <= client.right - client.left <= i32::MAX,
    ensures
        match spec_button_columns(button, recording_enabled) {
            None => rect is None,
            Some((start, end)) => {
                let count = spec_column_count(recording_enabled);
                let column_width = (client.right - client.left) / count;
                let column_width = if client.right - client.left >= 0 {
                    column_width
                } else {
                    -((client.left - client.right) / count)
                };
                rect == Some(Rect {
                    left: (column_width * start) as i32,
                    top: client.top,
                    right: if end == count { client.right } else { (column_width * end) as i32 },
                    bottom: client.bottom,
                })
            },
        },
{
    let column_count = panel_column_count(recording_enabled);
    let column_width: i32 = (client.right - client.left) / column_count;
    let (start, end) = match panel_button_columns(button, recording_enabled) {
        Some(columns) => columns,
        None => return None,
    };
    let ghost range: int = client.right - client.left;
    assert(range >= 0 ==> 0 <= column_width && column_width * column_count <= range);
    assert(range < 0 ==> column_width <= 0 && column_width * column_count >= range);
    assert(0 <= start <= end <= column_count);
    assert(i32::MIN <= column_width * end <= i32::MAX && i32::MIN <= column_width * start
        <= i32::MAX) by (nonlinear_arith)
        requires
            range >= 0 ==> 0 <= column_width && column_width * column_count <= range,
            range < 0 ==> column_width <= 0 && column_width * column_count >= range,
            0 <= start <= end <= column_count,
            i32::MIN <= range <= i32::MAX,
    ;
    Some(Rect {
        left: column_width * start,
        top: client.top,
        right: if end == column_count { client.right } else { column_width * end },
        bottom: client.bottom,
    })
}

/// A preset aspect ratio of the selection; `0:0` is the free ratio.
#[derive(Clone, Copy, Debug)]
pub struct AspectRatio {
    pub name: &'static str,
    pub width: i32,
    pub height: i32,
}

pub open spec fn spec_aspect_ratios() -> Seq<(int, int)> {
    seq![(0, 0), (16, 9), (9, 16), (4, 3), (1, 1), (21, 9), (4, 5), (3, 2)]
}

pub fn aspect_ratios() -> (ratios: Vec<AspectRatio>)
    ensures
        ratios@.len() == spec_aspect_ratios().len(),
        forall|i: int|
            0 <= i < ratios@.len() ==> (ratios@[i].width as int, ratios@[i].height as int)
                == spec_aspect_ratios()[i],
{
    let ratios = vec![
        AspectRatio { name: "Free", width: 0, height: 0 },
        AspectRatio { name: "16:9", width: 16, height: 9 },
        AspectRatio { name: "9:16", width: 9, height: 16 },
        AspectRatio { name: "4:3", width: 4, height: 3 },
        AspectRatio { name: "1:1", width: 1, height: 1 },
        AspectRatio { name: "21:9", width: 21, height: 9 },
        AspectRatio { name: "4:5", width: 4, height: 5 },
        AspectRatio { name: "3:2", width: 3, height: 2 },
    ];
    ratios
}

/// The preset with exactly these sides, or the free ratio when none has them.
pub fn aspect_ratio_for(width: i32, height: i32) -> (ratio: AspectRatio)
    ensures
        (exists|i: int|
            0 <= i < spec_aspect_ratios().len() && spec_aspect_ratios()[i] == (
                width as int,
                height as int,
            )) ==> ratio.width == width && ratio.height == height,
        !(exists|i: int|
            0 <= i < spec_aspect_ratios().len() && spec_aspect_ratios()[i] == (
                width as int,
                height as int,
            )) ==> ratio.width == 0 && ratio.height == 0,
{
    let ratios = aspect_ratios();
    let mut index: usize = 0;
    while index < ratios.len()
        invariant
            index <= ratios@.len(),
            ratios@.len() == spec_aspect_ratios().len(),
            forall|i: int|
                0 <= i < ratios@.len() ==> (ratios@[i].width as int, ratios@[i].height as int)
                    == spec_aspect_ratios()[i],
            forall|i: int|
                0 <= i < index ==> spec_aspect_ratios()[i] != (width as int, height as int),
        decreases ratios@.len() - index,
    {
        if ratios[index].width == width && ratios[index].height == height {
            return ratios[index];
        }
        index = index + 1;
    }
    ratios[0]
}

/// The text of a size field as a selection size: a whole number between
/// `MIN_SIZE` and `MAX_SIZE`.
pub fn parse_size(text: &str) -> (size: Option<i32>)
    ensures
        size == (match spec_parse_i32(text@) {
            Some(value) => if MIN_SIZE <= value <= MAX_SIZE { Some(value) } else { None },
            None => None,
        }),
{
    match parse_i32(text) {
        Some(value) => if MIN_SIZE <= value && value <= MAX_SIZE { Some(value) } else { None },
        None => None,
    }
}

/// The selection size after an update: each given positive side replaces the
/// current one.
pub fn updated_selection_size(current: (i32, i32), width: Option<i32>, height: Option<i32>) -> (size: (i32, i32))
    ensures
        size.0 == (match width {
            Some(w) => if w > 0 { w } else { current.0 },
            None => current.0,
        }),
        size.1 == (match height {
            Some(h) => if h > 0 { h } else { current.1 },
            None => current.1,
        }),
{
    let new_width = match width {
        Some(w) => if w > 0 { w } else { current.0 },
        None => current.0,
    };
    let new_height = match height {
        Some(h) => if h > 0 { h } else { current.1 },
        None => current.1,
    };
    (new_width, new_height)
}

/// What the Escape key does: close the size editor first, else ask to close
/// the panel, else nothing.
#[derive(Clone, Copy, Debug, PartialEq, Eq, Structural)]
pub enum EscapeAction {
    CloseSizeEditor,
    ClosePanel,
    Ignore,
}

pub fn escape_action(size_editor_open: bool, panel_visible: bool) -> (action: EscapeAction)
    ensures
        action == (if size_editor_open {
            EscapeAction::CloseSizeEditor
        } else if panel_visible {
            EscapeAction::ClosePanel
        } else {
            EscapeAction::Ignore
        }),
{
    if size_editor_open {
        return EscapeAction::CloseSizeEditor;
    }
    if panel_visible {
        return EscapeAction::ClosePanel;
    }
    EscapeAction::Ignore
}

/// The panel's rectangle at 96 DPI with its top-left corner at `(x, y)`.
pub fn logical_panel_rect(x: i32, y: i32, recording_enabled: bool) -> (rect: Rect)
    requires
        x + PANEL_WIDTH <= i32::MAX,
        y + PANEL_HEIGHT <= i32::MAX,
    ensures
        rect == (Rect {
            left: x,
            top: y,
            right: (x + (if recording_enabled { PANEL_WIDTH } else { PANEL_WIDTH_WITHOUT_RECORDING })) as i32,
            bottom: (y + PANEL_HEIGHT) as i32,
        }),
{
    let width = logical_panel_width(recording_enabled);
    Rect { left: x, top: y, right: x + width, bottom: y + PANEL_HEIGHT }
}

/// The centre of the panel whose top-left corner is at `(x, y)`.
pub fn panel_center(x: i32, y: i32, recording_enabled: bool) -> (center: Point)
    requires
        x + PANEL_WIDTH <= i32::MAX,
        y + PANEL_HEIGHT <= i32::MAX,
    ensures
        center == (Point {
            x: (x + (if recording_enabled { PANEL_WIDTH } else { PANEL_WIDTH_WITHOUT_RECORDING }) / 2) as i32,
            y: (y + PANEL_HEIGHT / 2) as i32,
        }),
{
    let width = logical_panel_width(recording_enabled);
    Point { x: x + width / 2, y: y + PANEL_HEIGHT / 2 }
}

/// What a probe window on one display reported.
#[derive(Clone, Copy, Debug, PartialEq, Eq, Structural)]
pub struct MonitorProbe {
    pub is_primary: bool,
    /// The display's bounds in the probe's logical coordinates, when the
    /// conversion succeeded.
    pub logical_bounds: Option<Rect>,
    /// The panel's logical rectangle in physical coordinates on that display,
    /// when the conversion succeeded.
    pub converted: Option<Rect>,
}

pub open spec fn probe_holds(probe: MonitorProbe, center: Point) -> bool {
    probe.logical_bounds matches Some(bounds) && spec_contains(bounds, center)
}

pub open spec fn primary_conversion(probe: MonitorProbe) -> bool {
    probe.is_primary && probe.converted is Some
}

pub open spec fn converted_or(probe: MonitorProbe, logical: Rect) -> Rect {
    match probe.converted {
        Some(rect) => rect,
        None => logical,
    }
}

/// Where the panel goes in physical pixels: as converted on the first
/// display that holds its centre; failing that, as converted on the primary
/// display; failing that, where it was asked for.
pub fn choose_panel_rect(logical: Rect, center: Point, probes: &Vec<MonitorProbe>) -> (chosen: Rect)
    ensures
        forall|i: int|
            0 <= i < probes@.len() && probe_holds(#[trigger] probes@[i], center) && (forall|k: int|
                0 <= k < i ==> !probe_holds(probes@[k], center)) ==> chosen == converted_or(
                probes@[i],
                logical,
            ),
        (forall|i: int| 0 <= i < probes@.len() ==> !probe_holds(#[trigger] probes@[i], center))
            ==> {
            &&& forall|j: int|
                0 <= j < probes@.len() && primary_conversion(#[trigger] probes@[j]) && (forall|k: int|
                    0 <= k < j ==> !primary_conversion(probes@[k])) ==> chosen == probes@[j].converted->0
            &&& (forall|j: int| 0 <= j < probes@.len() ==> !primary_conversion(#[trigger] probes@[j]))
                ==> chosen == logical
        },
{
    let mut fallback: Option<Rect> = None;
    let mut index: usize = 0;
    while index < probes.len()
        invariant
            index <= probes@.len(),
            forall|k: int| 0 <= k < index ==> !probe_holds(#[trigger] probes@[k], center),
            match fallback {
                Some(rect) => exists|j: int|
                    0 <= j < index && primary_conversion(#[trigger] probes@[j]) && (forall|k: int|
                        0 <= k < j ==> !primary_conversion(probes@[k])) && probes@[j].converted
                        == Some(rect),
                None => forall|k: int| 0 <= k < index ==> !primary_conversion(#[trigger] probes@[k]),
            },
        decreases probes@.len() - index,
    {
        let probe = probes[index];
        if fallback.is_none() && probe.is_primary {
            fallback = probe.converted;
        }
        if let Some(bounds) = probe.logical_bounds {
            if contains(&bounds, center) {
                return match probe.converted {
                    Some(rect) => rect,
                    None => logical,
                };
            }
        }
        index = index + 1;
    }
    match fallback {
        Some(rect) => rect,
        None => logical,
    }
}

} // verus!

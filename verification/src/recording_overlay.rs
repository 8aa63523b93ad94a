//! The recording overlay: the dimmed areas around a recorded region, the
//! highlight ring around a recorded window, and the requests that show them.
use vstd::prelude::*;
use crate::geometry::{scale_for_dpi, spec_scale_for_dpi_trunc, Rect};
use crate::protocol::ResponseError;
use crate::text::chars_of;

verus! {

/// The highlight colour when the app gives none that can be used, as COLORREF.
pub const HIGHLIGHT_FALLBACK: u32 = 0x00EF_9288;
pub const HIGHLIGHT_THICKNESS: i32 = 1;
pub const HIGHLIGHT_GAP: i32 = 1;
pub const HIGHLIGHT_RADIUS: i32 = 8;

/// `s` without its leading `#` characters.
pub open spec fn trim_hashes(s: Seq<char>) -> Seq<char>
    decreases s.len(),
{
    if s.len() > 0 && s[0] == '#' {
        trim_hashes(s.drop_first())
    } else {
        s
    }
}

pub open spec fn utf8_length(c: char) -> int {
    if (c as u32) < 0x80 {
        1
    } else if (c as u32) < 0x800 {
        2
    } else if (c as u32) < 0x10000 {
        3
    } else {
        4
    }
}

/// The length of `s` in UTF-8 bytes.
pub open spec fn utf8_size(s: Seq<char>) -> int
    decreases s.len(),
{
    if s.len() == 0 {
        0
    } else {
        utf8_size(s.drop_last()) + utf8_length(s.last())
    }
}

pub open spec fn is_char_boundary(s: Seq<char>, byte: int) -> bool {
    exists|count: int| 0 <= count <= s.len() && #[trigger] utf8_size(s.take(count)) == byte
}

/// Reading a colour slices its six bytes in pairs; the slicing fails when a
/// pair boundary falls inside a character.
pub open spec fn color_slicing_fails(text: Seq<char>) -> bool {
    let hex = trim_hashes(text);
    utf8_size(hex) == 6 && !(is_char_boundary(hex, 2) && is_char_boundary(hex, 4))
}

pub open spec fn hex_digit_value(c: char) -> Option<int> {
    if '0' <= c <= '9' {
        Some(c as int - '0' as int)
    } else if 'a' <= c <= 'f' {
        Some(c as int - 'a' as int + 10)
    } else if 'A' <= c <= 'F' {
        Some(c as int - 'A' as int + 10)
    } else {
        None
    }
}

/// A two-character hexadecimal channel as `u32::from_str_radix` reads it:
/// two digits, or a plus sign and one digit.
pub open spec fn channel_value(first: char, second: char) -> Option<int> {
    if first == '+' {
        hex_digit_value(second)
    } else {
        match (hex_digit_value(first), hex_digit_value(second)) {
            (Some(high), Some(low)) => Some(high * 16 + low),
            _ => None,
        }
    }
}

pub open spec fn all_ascii(s: Seq<char>) -> bool {
    forall|i: int| 0 <= i < s.len() ==> (#[trigger] s[i] as u32) < 0x80
}

/// The COLORREF of a `#rrggbb` colour, blue in the high byte and red in the
/// low one; `None` for anything else.
pub open spec fn spec_color_value(value: Option<Seq<char>>) -> Option<u32> {
    match value {
        None => None,
        Some(text) => {
            let hex = trim_hashes(text);
            if hex.len() == 6 && all_ascii(hex) {
                match (channel_value(hex[0], hex[1]), channel_value(hex[2], hex[3]), channel_value(hex[4], hex[5])) {
                    (Some(red), Some(green), Some(blue)) => Some((blue * 65536 + green * 256 + red) as u32),
                    _ => None,
                }
            } else {
                None
            }
        },
    }
}

/// The COLORREF of a `#rrggbb` accent; the fallback for anything else.
pub open spec fn spec_parse_color(value: Option<Seq<char>>) -> u32 {
    match spec_color_value(value) {
        Some(color) => color,
        None => HIGHLIGHT_FALLBACK,
    }
}

pub open spec fn optional_text(value: Option<&str>) -> Option<Seq<char>> {
    match value {
        Some(text) => Some(text@),
        None => None,
    }
}

fn hex_digit(c: char) -> (value: Option<u32>)
    ensures
        match value {
            Some(v) => hex_digit_value(c) == Some(v as int),
            None => hex_digit_value(c) is None,
        },
{
    if '0' <= c && c <= '9' {
        Some((c as u32) - ('0' as u32))
    } else if 'a' <= c && c <= 'f' {
        Some((c as u32) - ('a' as u32) + 10)
    } else if 'A' <= c && c <= 'F' {
        Some((c as u32) - ('A' as u32) + 10)
    } else {
        None
    }
}

fn channel(first: char, second: char) -> (value: Option<u32>)
    ensures
        match value {
            Some(v) => channel_value(first, second) == Some(v as int) && v < 256,
            None => channel_value(first, second) is None,
        },
{
    if first == '+' {
        return hex_digit(second);
    }
    match (hex_digit(first), hex_digit(second)) {
        (Some(high), Some(low)) => Some(high * 16 + low),
        _ => None,
    }
}

/// Reads a `#rrggbb` colour into a COLORREF; `None` when it is missing or
/// not such a colour.
pub fn color_value(value: Option<&str>) -> (color: Option<u32>)
    requires
        value matches Some(text) ==> !color_slicing_fails(text@),
    ensures
        color == spec_color_value(optional_text(value)),
{
    let text = match value {
        Some(text) => text,
        None => {
            return None;
        },
    };
    let chars = chars_of(text);
    let mut start: usize = 0;
    assert(chars@.skip(0) =~= chars@);
    while start < chars.len() && chars[start] == '#'
        invariant
            chars@ == text@,
            start <= chars@.len(),
            trim_hashes(chars@.skip(start as int)) == trim_hashes(text@),
        decreases chars@.len() - start,
    {
        assert(chars@.skip(start as int).drop_first() =~= chars@.skip(start + 1));
        start = start + 1;
    }
    let ghost hex = chars@.skip(start as int);
    assert(trim_hashes(hex) == hex);
    assert(trim_hashes(text@) == hex);
    assert(optional_text(value) == Some(text@));
    if chars.len() - start != 6 {
        return None;
    }
    let mut index: usize = start;
    while index < chars.len()
        invariant
            hex == chars@.skip(start as int),
            trim_hashes(text@) == hex,
            optional_text(value) == Some(text@),
            chars@.len() - start == 6,
            start <= index <= chars@.len(),
            forall|i: int| start <= i < index ==> (#[trigger] chars@[i] as u32) < 0x80,
        decreases chars@.len() - index,
    {
        if (chars[index] as u32) >= 0x80 {
            assert(hex[index - start] == chars@[index as int]);
            assert((hex[index - start] as u32) >= 0x80);
            assert(!all_ascii(hex));
            return None;
        }
        index = index + 1;
    }
    assert(all_ascii(hex)) by {
        assert forall|i: int| 0 <= i < hex.len() implies (#[trigger] hex[i] as u32) < 0x80 by {
            assert(hex[i] == chars@[start + i]);
        }
    }
    let red = channel(chars[start], chars[start + 1]);
    let green = channel(chars[start + 2], chars[start + 3]);
    let blue = channel(chars[start + 4], chars[start + 5]);
    match (red, green, blue) {
        (Some(r), Some(g), Some(b)) => Some(b * 65536 + g * 256 + r),
        _ => None,
    }
}

/// Reads the app's theme accent, `#rrggbb`, into a COLORREF.
pub fn parse_color(value: Option<&str>) -> (color: u32)
    requires
        value matches Some(text) ==> !color_slicing_fails(text@),
    ensures
        color == spec_parse_color(optional_text(value)),
{
    match color_value(value) {
        Some(color) => color,
        None => HIGHLIGHT_FALLBACK,
    }
}

/// The ring around a recorded window: its bounds grown by `inset` on every side.
pub fn highlight_frame(bounds: Rect, inset: i32) -> (frame: Rect)
    requires
        i32::MIN <= bounds.left - inset <= i32::MAX,
        i32::MIN <= bounds.top - inset <= i32::MAX,
        i32::MIN <= bounds.right + inset <= i32::MAX,
        i32::MIN <= bounds.bottom + inset <= i32::MAX,
    ensures
        frame == (Rect {
            left: (bounds.left - inset) as i32,
            top: (bounds.top - inset) as i32,
            right: (bounds.right + inset) as i32,
            bottom: (bounds.bottom + inset) as i32,
        }),
{
    Rect {
        left: bounds.left - inset,
        top: bounds.top - inset,
        right: bounds.right + inset,
        bottom: bounds.bottom + inset,
    }
}

/// The size of the highlight ring at a DPI.
#[derive(Clone, Copy, Debug, PartialEq, Eq, Structural)]
pub struct HighlightMetrics {
    pub inset: i32,
    pub thickness: i32,
    pub radius: i32,
}

pub open spec fn scaled_at_least_one(value: int, dpi: u32) -> int {
    let scaled = spec_scale_for_dpi_trunc(value, dpi as int);
    if scaled > 1 { scaled } else { 1 }
}

/// The ring is a scaled line (at least a pixel) set a scaled gap away from
/// the window, with scaled rounded corners.
pub fn highlight_metrics(dpi: u32) -> (metrics: HighlightMetrics)
    ensures
        metrics.thickness == scaled_at_least_one(HIGHLIGHT_THICKNESS as int, dpi),
        metrics.inset == metrics.thickness + scaled_at_least_one(HIGHLIGHT_GAP as int, dpi),
        metrics.radius == scaled_at_least_one(HIGHLIGHT_RADIUS as int, dpi),
{
    let ghost effective: int = if dpi < 96 { 96 } else { dpi as int };
    assert(0 <= 8 * effective / 96 <= 0x2000_0000 && 0 <= effective / 96 <= 0x2000_0000)
        by (nonlinear_arith)
        requires
            96 <= effective <= 0xffff_ffff,
    ;
    assert(spec_scale_for_dpi_trunc(8, dpi as int) == 8 * effective / 96);
    assert(spec_scale_for_dpi_trunc(1, dpi as int) == effective / 96);
    let thickness_scaled: i32 = scale_for_dpi(HIGHLIGHT_THICKNESS, dpi);
    let thickness: i32 = if thickness_scaled > 1 { thickness_scaled } else { 1 };
    let gap_scaled: i32 = scale_for_dpi(HIGHLIGHT_GAP, dpi);
    let gap: i32 = if gap_scaled > 1 { gap_scaled } else { 1 };
    let radius_scaled: i32 = scale_for_dpi(HIGHLIGHT_RADIUS, dpi);
    let radius: i32 = if radius_scaled > 1 { radius_scaled } else { 1 };
    HighlightMetrics { inset: thickness + gap, thickness, radius }
}

pub open spec fn overlap_of(left: Rect, right: Rect) -> Rect {
    Rect {
        left: if left.left > right.left { left.left } else { right.left },
        top: if left.top > right.top { left.top } else { right.top },
        right: if left.right < right.right { left.right } else { right.right },
        bottom: if left.bottom < right.bottom { left.bottom } else { right.bottom },
    }
}

pub open spec fn is_empty_rect(rect: Rect) -> bool {
    rect.right - rect.left <= 0 || rect.bottom - rect.top <= 0
}

/// The part two rectangles share, if any.
pub fn intersection(left: &Rect, right: &Rect) -> (shared: Option<Rect>)
    ensures
        shared == (if is_empty_rect(overlap_of(*left, *right)) {
            None
        } else {
            Some(overlap_of(*left, *right))
        }),
{
    let rect = Rect {
        left: if left.left > right.left { left.left } else { right.left },
        top: if left.top > right.top { left.top } else { right.top },
        right: if left.right < right.right { left.right } else { right.right },
        bottom: if left.bottom < right.bottom { left.bottom } else { right.bottom },
    };
    if (rect.right as i64) - (rect.left as i64) <= 0 || (rect.bottom as i64) - (rect.top as i64) <= 0 {
        return None;
    }
    Some(rect)
}

/// The pieces of a monitor around the recorded area: above, below, left and
/// right of the hole, leaving out empty ones; the whole monitor when the area
/// is not on it.
pub open spec fn spec_dim_rectangles(monitor: Rect, recording: Rect) -> Seq<Rect> {
    let hole = overlap_of(monitor, recording);
    if is_empty_rect(hole) {
        seq![monitor]
    } else {
        let candidates = seq![
            Rect { left: monitor.left, top: monitor.top, right: monitor.right, bottom: hole.top },
            Rect { left: monitor.left, top: hole.bottom, right: monitor.right, bottom: monitor.bottom },
            Rect { left: monitor.left, top: hole.top, right: hole.left, bottom: hole.bottom },
            Rect { left: hole.right, top: hole.top, right: monitor.right, bottom: hole.bottom },
        ];
        candidates.filter(|rect: Rect| !is_empty_rect(rect))
    }
}

/// The dimmed rectangles that cover a monitor except the recorded area.
pub fn dim_rectangles(monitor: Rect, recording: Rect) -> (pieces: Vec<Rect>)
    ensures
        pieces@ == spec_dim_rectangles(monitor, recording),
{
    let hole = match intersection(&monitor, &recording) {
        Some(hole) => hole,
        None => {
            return vec![monitor];
        },
    };
    let candidates = [
        Rect { left: monitor.left, top: monitor.top, right: monitor.right, bottom: hole.top },
        Rect { left: monitor.left, top: hole.bottom, right: monitor.right, bottom: monitor.bottom },
        Rect { left: monitor.left, top: hole.top, right: hole.left, bottom: hole.bottom },
        Rect { left: hole.right, top: hole.top, right: monitor.right, bottom: hole.bottom },
    ];
    let ghost pred = |rect: Rect| !is_empty_rect(rect);
    let mut pieces: Vec<Rect> = Vec::new();
    let mut index: usize = 0;
    assert(candidates@.take(0).filter(pred) =~= Seq::<Rect>::empty()) by {
        reveal(Seq::filter);
    }
    while index < 4
        invariant
            index <= 4,
            pred == (|rect: Rect| !is_empty_rect(rect)),
            pieces@ == candidates@.take(index as int).filter(pred),
        decreases 4 - index,
    {
        let rect = candidates[index];
        assert(candidates@.take(index + 1).drop_last() =~= candidates@.take(index as int));
        assert(candidates@.take(index + 1).filter(pred) == if pred(rect) {
            candidates@.take(index as int).filter(pred).push(rect)
        } else {
            candidates@.take(index as int).filter(pred)
        }) by {
            reveal(Seq::filter);
        }
        if (rect.right as i64) - (rect.left as i64) > 0 && (rect.bottom as i64) - (rect.top as i64) > 0 {
            pieces.push(rect);
        }
        index = index + 1;
    }
    assert(candidates@.take(4) =~= candidates@);
    pieces
}

/// The recorded area of a `show` request: all four of x, y, width and height
/// are needed, with a positive size; the far edges saturate.
pub fn overlay_area(x: Option<i32>, y: Option<i32>, width: Option<i32>, height: Option<i32>) -> (area: Result<Rect, ResponseError>)
    ensures
        match area {
            Ok(rect) => x matches Some(left) && y matches Some(top) && width matches Some(w)
                && height matches Some(h) && w > 0 && h > 0 && rect == (Rect {
                left: left,
                top: top,
                right: (if left + w > i32::MAX { i32::MAX as int } else { left + w }) as i32,
                bottom: (if top + h > i32::MAX { i32::MAX as int } else { top + h }) as i32,
            }),
            Err(error) => error.code@ == "INVALID_PARAMS"@ && (if x is None || y is None
                || width is None || height is None {
                error.message@ == "show requires x, y, width, height"@
            } else {
                (width->0 <= 0 || height->0 <= 0) && error.message@
                    == "show requires positive width and height"@
            }),
        },
{
    let (left, top, w, h) = match (x, y, width, height) {
        (Some(left), Some(top), Some(w), Some(h)) => (left, top, w, h),
        _ => {
            return Err(ResponseError::new("INVALID_PARAMS", "show requires x, y, width, height"));
        },
    };
    if w <= 0 || h <= 0 {
        return Err(ResponseError::new("INVALID_PARAMS", "show requires positive width and height"));
    }
    let right: i32 = if left > i32::MAX - w { i32::MAX } else { left + w };
    let bottom: i32 = if top > i32::MAX - h { i32::MAX } else { top + h };
    Ok(Rect { left, top, right, bottom })
}

/// Why an overlay window could not be shown.
#[derive(Clone, Copy, Debug, PartialEq, Eq, Structural)]
pub enum OverlayWindowError {
    Create,
    ContentProtection,
}

/// The reply for a failed overlay: `highlight` says whether the window ring
/// or the dimmed area failed.
pub fn overlay_error(error: OverlayWindowError, highlight: bool) -> (reply: ResponseError)
    ensures
        reply.code@ == (match error {
            OverlayWindowError::Create => "WINDOW_ERROR"@,
            OverlayWindowError::ContentProtection => "CONTENT_PROTECTION_ERROR"@,
        }),
        reply.message@ == (match (error, highlight) {
            (OverlayWindowError::Create, false) => "Failed to create recording overlay window"@,
            (OverlayWindowError::ContentProtection, false) => "Failed to protect recording overlay window"@,
            (OverlayWindowError::Create, true) => "Failed to create recording highlight window"@,
            (OverlayWindowError::ContentProtection, true) => "Failed to protect recording highlight window"@,
        }),
{
    match (error, highlight) {
        (OverlayWindowError::Create, false) => ResponseError::new(
            "WINDOW_ERROR",
            "Failed to create recording overlay window",
        ),
        (OverlayWindowError::ContentProtection, false) => ResponseError::new(
            "CONTENT_PROTECTION_ERROR",
            "Failed to protect recording overlay window",
        ),
        (OverlayWindowError::Create, true) => ResponseError::new(
            "WINDOW_ERROR",
            "Failed to create recording highlight window",
        ),
        (OverlayWindowError::ContentProtection, true) => ResponseError::new(
            "CONTENT_PROTECTION_ERROR",
            "Failed to protect recording highlight window",
        ),
    }
}

/// The dimmed pieces never cover the recorded area and stay on the monitor.
pub proof fn lemma_dim_pieces_avoid_the_recording(monitor: Rect, recording: Rect, k: int, px: int, py: int)
    requires
        0 <= k < spec_dim_rectangles(monitor, recording).len(),
        !is_empty_rect(overlap_of(monitor, recording)),
        spec_dim_rectangles(monitor, recording)[k].left <= px < spec_dim_rectangles(monitor, recording)[k].right,
        spec_dim_rectangles(monitor, recording)[k].top <= py < spec_dim_rectangles(monitor, recording)[k].bottom,
    ensures
        !(recording.left <= px < recording.right && recording.top <= py < recording.bottom),
        monitor.left <= px < monitor.right && monitor.top <= py < monitor.bottom,
{
    let hole = overlap_of(monitor, recording);
    let candidates = seq![
        Rect { left: monitor.left, top: monitor.top, right: monitor.right, bottom: hole.top },
        Rect { left: monitor.left, top: hole.bottom, right: monitor.right, bottom: monitor.bottom },
        Rect { left: monitor.left, top: hole.top, right: hole.left, bottom: hole.bottom },
        Rect { left: hole.right, top: hole.top, right: monitor.right, bottom: hole.bottom },
    ];
    let pred = |rect: Rect| !is_empty_rect(rect);
    let pieces = candidates.filter(pred);
    assert(pieces.contains(pieces[k]));
    let piece = pieces[k];
    assert(exists|j: int| 0 <= j < candidates.len() && candidates[j] == piece) by {
        lemma_filtered_from(candidates, pred, k);
    }
}

proof fn lemma_filtered_from(s: Seq<Rect>, pred: spec_fn(Rect) -> bool, k: int)
    requires
        0 <= k < s.filter(pred).len(),
    ensures
        exists|j: int| 0 <= j < s.len() && s[j] == s.filter(pred)[k],
    decreases s.len(),
{
    reveal(Seq::filter);
    if s.len() > 0 {
        let rest = s.drop_last().filter(pred);
        if k < rest.len() {
            lemma_filtered_from(s.drop_last(), pred, k);
            let j = choose|j: int| 0 <= j < s.drop_last().len() && s.drop_last()[j] == rest[k];
            assert(s[j] == s.filter(pred)[k]);
        } else {
            assert(s[s.len() - 1] == s.filter(pred)[k]);
        }
    }
}

/// The ring points at the window without touching it: on every side the
/// inner edge of a ring as thick as `highlight_metrics` says, drawn on the
/// frame that `highlight_frame` grows by the inset, lies at least one pixel
/// outside the window (the rounding of the ring's corners aside).
pub proof fn lemma_ring_clears_the_window(bounds: Rect, dpi: u32)
    ensures
        ({
            let thickness = scaled_at_least_one(HIGHLIGHT_THICKNESS as int, dpi);
            let inset = thickness + scaled_at_least_one(HIGHLIGHT_GAP as int, dpi);
            &&& thickness >= 1
            &&& (bounds.left - inset) + thickness <= bounds.left - 1
            &&& (bounds.top - inset) + thickness <= bounds.top - 1
            &&& (bounds.right + inset) - thickness >= bounds.right + 1
            &&& (bounds.bottom + inset) - thickness >= bounds.bottom + 1
        }),
{
}

} // verus!

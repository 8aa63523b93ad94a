use vstd::prelude::*;

verus! {

/// A rectangle in device pixels, laid out like a Win32 `RECT`: the left and top
/// edges are inside, the right and bottom edges are outside.
#[derive(Clone, Copy, Debug, PartialEq, Eq, Structural)]
pub struct Rect {
    pub left: i32,
    pub top: i32,
    pub right: i32,
    pub bottom: i32,
}

/// A point in device pixels.
#[derive(Clone, Copy, Debug, PartialEq, Eq, Structural)]
pub struct Point {
    pub x: i32,
    pub y: i32,
}

/// Scales a length given at 96 DPI to `dpi`, never below 96 DPI. The quotient is
/// taken towards zero, as the integer division of the daemon does, and kept to
/// its low 32 bits as a signed `i32` (it wraps where it does not fit).
pub fn scale_for_dpi(value: i32, dpi: u32) -> (scaled: i32)
    ensures
        scaled == spec_scale_for_dpi_trunc(value as int, dpi as int) as i32,
        i32::MIN <= spec_scale_for_dpi_trunc(value as int, dpi as int) <= i32::MAX ==> scaled as int
            == spec_scale_for_dpi_trunc(value as int, dpi as int),
{
    let effective: i64 = if dpi < 96 { 96 } else { dpi as i64 };
    assert(-0x8000_0000 * 0xffff_ffff <= value as int * effective as int <= 0x7fff_ffff * 0xffff_ffff) by (nonlinear_arith)
        requires -0x8000_0000 <= value <= 0x7fff_ffff, 96 <= effective <= 0xffff_ffff;
    let product: i64 = value as i64 * effective;
    let quotient: i64 = product / 96;
    quotient as i32
}

/// Division of `value * max(dpi, 96)` by 96, rounded towards zero.
pub open spec fn spec_scale_for_dpi_trunc(value: int, dpi: int) -> int {
    let effective = if dpi < 96 { 96 } else { dpi };
    let product = value * effective;
    if product >= 0 { product / 96 } else { -((-product) / 96) }
}

pub open spec fn width_of(rect: Rect) -> int {
    rect.right - rect.left
}

pub open spec fn height_of(rect: Rect) -> int {
    rect.bottom - rect.top
}

pub fn rect_width(rect: &Rect) -> (width: i32)
    requires
        i32::MIN <= width_of(*rect) <= i32::MAX,
    ensures
        width == width_of(*rect),
{
    rect.right - rect.left
}

pub fn rect_height(rect: &Rect) -> (height: i32)
    requires
        i32::MIN <= height_of(*rect) <= i32::MAX,
    ensures
        height == height_of(*rect),
{
    rect.bottom - rect.top
}

pub open spec fn spec_rects_intersect(first: Rect, second: Rect) -> bool {
    first.left < second.right && first.right > second.left && first.top < second.bottom
        && first.bottom > second.top
}

/// Whether two rectangles share at least one pixel.
pub fn rects_intersect(first: &Rect, second: &Rect) -> (intersect: bool)
    ensures
        intersect == spec_rects_intersect(*first, *second),
{
    first.left < second.right && first.right > second.left && first.top < second.bottom
        && first.bottom > second.top
}

pub open spec fn spec_contains(rect: Rect, point: Point) -> bool {
    point.x >= rect.left && point.x < rect.right && point.y >= rect.top && point.y < rect.bottom
}

/// Whether `point` is one of the rectangle's pixels.
pub fn contains(rect: &Rect, point: Point) -> (inside: bool)
    ensures
        inside == spec_contains(*rect, point),
{
    point.x >= rect.left && point.x < rect.right && point.y >= rect.top && point.y < rect.bottom
}

/// Whether `inner` lies inside `outer`, edges included.
pub open spec fn spec_contains_rect(outer: Rect, inner: Rect) -> bool {
    outer.left <= inner.left && outer.top <= inner.top && outer.right >= inner.right
        && outer.bottom >= inner.bottom
}

pub fn contains_rect(outer: &Rect, inner: &Rect) -> (inside: bool)
    ensures
        inside == spec_contains_rect(*outer, *inner),
{
    outer.left <= inner.left && outer.top <= inner.top && outer.right >= inner.right
        && outer.bottom >= inner.bottom
}

/// The signed 16-bit value of a 16-bit word.
pub open spec fn signed_word(word: int) -> int {
    if word >= 0x8000 { word - 0x1_0000 } else { word }
}

/// The client point packed in a mouse message's `LPARAM`: the low word is x,
/// the high word is y, each a signed 16-bit number.
pub fn point_from_lparam(lparam: isize) -> (point: Point)
    ensures
        point.x == signed_word((lparam as u32) as int % 0x1_0000),
        point.y == signed_word((lparam as u32) as int / 0x1_0000),
{
    let value: u32 = lparam as u32;
    let low: u32 = value % 0x1_0000;
    let high: u32 = value / 0x1_0000;
    let x: i32 = if low >= 0x8000 { low as i32 - 0x1_0000 } else { low as i32 };
    let y: i32 = if high >= 0x8000 { high as i32 - 0x1_0000 } else { high as i32 };
    Point { x, y }
}

} // verus!

use vstd::prelude::*;
use crate::arith::{clamp, round_div, spec_round_div};
use crate::protocol::ResponseError;
use crate::text::{parse_usize, spec_parse_usize};

verus! {

/// `value * client / window`, rounded to the nearest pixel (halves away from
/// zero) and clamped into `i32`.
pub open spec fn rescaled(value: int, client: int, window: int) -> int {
    clamp(spec_round_div(value * client, window), i32::MIN as int, i32::MAX as int)
}

fn rescale(value: i32, client: i32, window: i32) -> (scaled: i32)
    requires
        window > 0,
    ensures
        scaled == rescaled(value as int, client as int, window as int),
{
    assert(-0x8000_0000 * 0x8000_0000 <= value * client <= 0x8000_0000 * 0x8000_0000)
        by (nonlinear_arith)
        requires
            -0x8000_0000 <= value <= 0x7fff_ffff,
            -0x8000_0000 <= client <= 0x7fff_ffff,
    ;
    let rounded = round_div(value as i128 * client as i128, window as i128);
    if rounded < i32::MIN as i128 {
        i32::MIN
    } else if rounded > i32::MAX as i128 {
        i32::MAX
    } else {
        rounded as i32
    }
}

/// The hole is `(x, y, width, height, window_width, window_height, inset)`: the
/// selection in window coordinates, the window size they refer to, and the
/// inset of the selection frame. The result is the part of the window that the
/// selection leaves see-through: the selection
/// shrunk by the inset on every side, scaled from window to client pixels and
/// rounded to the nearest pixel. `None` when the inset swallows the selection.
/// Each edge is the exact quotient, rounded; a scale taken in binary floating
/// point can round the other way where the exact value is a half and the
/// double falls just short of it (231 * 13 / 6 is 500.5, which rounds to 501
/// here, while 231.0 * (13.0 / 6.0) is 500.49999999999994 and rounds to 500).
pub fn scaled_hole_rect(hole: (i32, i32, i32, i32, i32, i32, i32), client_width: i32, client_height: i32) -> (rect: Option<(i32, i32, i32, i32)>)
    requires
        hole.4 > 0,
        hole.5 > 0,
        i32::MIN <= hole.2 - 2 * hole.6 <= i32::MAX,
        i32::MIN <= hole.3 - 2 * hole.6 <= i32::MAX,
        i32::MIN <= 2 * hole.6 <= i32::MAX,
        hole.2 - 2 * hole.6 > 0 && hole.3 - 2 * hole.6 > 0 ==> {
            &&& i32::MIN <= hole.0 + hole.6 <= i32::MAX
            &&& i32::MIN <= hole.1 + hole.6 <= i32::MAX
            &&& i32::MIN <= hole.0 + hole.2 <= i32::MAX
            &&& i32::MIN <= hole.1 + hole.3 <= i32::MAX
            &&& i32::MIN <= hole.0 + hole.2 - hole.6 <= i32::MAX
            &&& i32::MIN <= hole.1 + hole.3 - hole.6 <= i32::MAX
        },
    ensures
        rect == (if hole.2 - 2 * hole.6 <= 0 || hole.3 - 2 * hole.6 <= 0 {
            None
        } else {
            Some(
                (
                    rescaled(hole.0 + hole.6, client_width as int, hole.4 as int) as i32,
                    rescaled(hole.1 + hole.6, client_height as int, hole.5 as int) as i32,
                    rescaled(
                        hole.0 + hole.2 - hole.6,
                        client_width as int,
                        hole.4 as int,
                    ) as i32,
                    rescaled(
                        hole.1 + hole.3 - hole.6,
                        client_height as int,
                        hole.5 as int,
                    ) as i32,
                ),
            )
        }),
{
    if hole.2 - hole.6 * 2 <= 0 || hole.3 - hole.6 * 2 <= 0 {
        return None;
    }
    Some(
        (
            rescale(hole.0 + hole.6, client_width, hole.4),
            rescale(hole.1 + hole.6, client_height, hole.5),
            rescale(hole.0 + hole.2 - hole.6, client_width, hole.4),
            rescale(hole.1 + hole.3 - hole.6, client_height, hole.5),
        ),
    )
}

/// A window handle given as decimal text: a non-zero `usize`.
pub fn parse_window_handle(value: Option<&str>) -> (handle: Option<usize>)
    ensures
        handle == (match value {
            Some(text) => match spec_parse_usize(text@) {
                Some(number) => if number != 0 { Some(number) } else { None },
                None => None,
            },
            None => None,
        }),
{
    match value {
        Some(text) => match parse_usize(text) {
            Some(number) => if number != 0 {
                Some(number)
            } else {
                None
            },
            None => None,
        },
        None => None,
    }
}

/// The see-through hole of a `setWindowRegion` request: none when no
/// dimension is given; all seven when the sizes are positive and the inset is
/// not negative; an error for anything in between.
pub fn region_hole(
    values: (Option<i32>, Option<i32>, Option<i32>, Option<i32>, Option<i32>, Option<i32>, Option<i32>),
) -> (hole: Result<Option<(i32, i32, i32, i32, i32, i32, i32)>, ResponseError>)
    ensures
        match hole {
            Ok(None) => values == (None::<i32>, None::<i32>, None::<i32>, None::<i32>, None::<i32>, None::<i32>, None::<i32>),
            Ok(Some(h)) => values == (Some(h.0), Some(h.1), Some(h.2), Some(h.3), Some(h.4), Some(h.5), Some(h.6))
                && h.2 > 0 && h.3 > 0 && h.4 > 0 && h.5 > 0 && h.6 >= 0,
            Err(error) => error.code@ == "INVALID_PARAMS"@ && error.message@
                == "setWindowRegion requires complete region dimensions"@
                && values != (None::<i32>, None::<i32>, None::<i32>, None::<i32>, None::<i32>, None::<i32>, None::<i32>)
                && !(values matches (Some(x), Some(y), Some(w), Some(h), Some(ww), Some(wh), Some(inset))
                    && w > 0 && h > 0 && ww > 0 && wh > 0 && inset >= 0),
        },
{
    match values {
        (None, None, None, None, None, None, None) => Ok(None),
        (Some(x), Some(y), Some(width), Some(height), Some(window_width), Some(window_height), Some(inset)) => {
            if width > 0 && height > 0 && window_width > 0 && window_height > 0 && inset >= 0 {
                Ok(Some((x, y, width, height, window_width, window_height, inset)))
            } else {
                Err(ResponseError::new("INVALID_PARAMS", "setWindowRegion requires complete region dimensions"))
            }
        },
        _ => Err(ResponseError::new("INVALID_PARAMS", "setWindowRegion requires complete region dimensions")),
    }
}

} // verus!

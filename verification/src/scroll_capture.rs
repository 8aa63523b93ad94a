//! Scrolling capture: the frames captured while a page scrolls, how
//! consecutive frames are matched up, and the panel and windows around the
//! captured area.
use vstd::prelude::*;
use crate::geometry::{scale_for_dpi, spec_scale_for_dpi_trunc, Point, Rect};
use crate::panel::{panel_height, panel_width, spec_panel_width, widths_before, widths_fit};
use crate::panel::{ACTIVE_BUTTON, BUTTON_TEXT, BUTTON_TEXT_ON_FILL, NEUTRAL_BUTTON, PRIMARY_BUTTON};
use crate::text::same_text;

verus! {

/// Frames that look the same this many times in a row end the scrolling.
pub const MAX_DUPLICATE_FRAMES: usize = 3;
/// The largest mean difference per sampled colour channel that still counts
/// as the same content.
pub const MAX_OVERLAP_CHANNEL_DIFFERENCE: u64 = 18;
/// The 64-bit FNV-1a offset basis and prime.
pub const FNV_OFFSET: u64 = 0xcbf29ce484222325;
pub const FNV_PRIME: u64 = 0x100000001b3;

/// The screen area being captured.
#[derive(Clone, Copy, Debug, PartialEq, Eq, Structural)]
pub struct CaptureBounds {
    pub x: i32,
    pub y: i32,
    pub width: i32,
    pub height: i32,
}

pub open spec fn bounds_fit(bounds: CaptureBounds) -> bool {
    i32::MIN <= bounds.x + bounds.width <= i32::MAX && i32::MIN <= bounds.y + bounds.height
        <= i32::MAX
}

impl CaptureBounds {
    pub fn rect(self) -> (rect: Rect)
        requires
            bounds_fit(self),
        ensures
            rect == (Rect {
                left: self.x,
                top: self.y,
                right: (self.x + self.width) as i32,
                bottom: (self.y + self.height) as i32,
            }),
    {
        Rect { left: self.x, top: self.y, right: self.x + self.width, bottom: self.y + self.height }
    }

    pub fn contains(self, point: Point) -> (inside: bool)
        requires
            bounds_fit(self),
        ensures
            inside == (self.x <= point.x < self.x + self.width && self.y <= point.y < self.y
                + self.height),
    {
        point.x >= self.x && point.x < self.x + self.width && point.y >= self.y && point.y < self.y
            + self.height
    }
}

/// How fast the page scrolls on its own.
#[derive(Clone, Copy, Debug, PartialEq, Eq, Structural)]
pub enum ScrollSpeed {
    Slow,
    Medium,
    Fast,
}

impl ScrollSpeed {
    /// `slow` and `fast` by name; anything else is medium.
    pub fn parse(value: Option<&str>) -> (speed: Self)
        ensures
            speed == (match value {
                Some(text) => if text@ == "slow"@ {
                    ScrollSpeed::Slow
                } else if text@ == "fast"@ {
                    ScrollSpeed::Fast
                } else {
                    ScrollSpeed::Medium
                },
                None => ScrollSpeed::Medium,
            }),
    {
        match value {
            Some(text) => {
                if same_text(text, "slow") {
                    ScrollSpeed::Slow
                } else if same_text(text, "fast") {
                    ScrollSpeed::Fast
                } else {
                    ScrollSpeed::Medium
                }
            },
            None => ScrollSpeed::Medium,
        }
    }

    /// Milliseconds between scroll steps.
    pub fn interval(self) -> (milliseconds: u32)
        ensures
            milliseconds == (match self {
                ScrollSpeed::Slow => 40u32,
                ScrollSpeed::Medium => 30u32,
                ScrollSpeed::Fast => 20u32,
            }),
    {
        match self {
            ScrollSpeed::Slow => 40,
            ScrollSpeed::Medium => 30,
            ScrollSpeed::Fast => 20,
        }
    }
}

/// The label of panel button `index` (Auto, Done, Cancel); Auto reads Stop
/// while the page scrolls.
pub fn panel_button_label(index: usize, auto_scrolling: bool) -> (label: &'static str)
    requires
        index < 3,
    ensures
        label@ == (if index == 0 {
            if auto_scrolling { "Stop"@ } else { "Auto"@ }
        } else if index == 1 {
            "Done"@
        } else {
            "Cancel"@
        }),
{
    if index == 0 {
        if auto_scrolling {
            "Stop"
        } else {
            "Auto"
        }
    } else if index == 1 {
        "Done"
    } else {
        "Cancel"
    }
}

/// The colours of panel button `index`: Done is the primary action, Auto is
/// highlighted while it stops the scrolling.
pub fn panel_button_palette(index: usize, auto_scrolling: bool) -> (palette: [u32; 3])
    requires
        index < 3,
    ensures
        palette == (if index == 0 && auto_scrolling {
            ACTIVE_BUTTON
        } else if index == 1 {
            PRIMARY_BUTTON
        } else {
            NEUTRAL_BUTTON
        }),
{
    if index == 0 && auto_scrolling {
        ACTIVE_BUTTON
    } else if index == 1 {
        PRIMARY_BUTTON
    } else {
        NEUTRAL_BUTTON
    }
}

/// The text colour of panel button `index`.
pub fn panel_button_text(index: usize, auto_scrolling: bool) -> (color: u32)
    requires
        index < 3,
    ensures
        color == (if (index == 0 && auto_scrolling) || index == 1 {
            BUTTON_TEXT_ON_FILL
        } else {
            BUTTON_TEXT
        }),
{
    if (index == 0 && auto_scrolling) || index == 1 {
        BUTTON_TEXT_ON_FILL
    } else {
        BUTTON_TEXT
    }
}

/// Which of the two capture windows (boundary ring, panel) to hide while a
/// frame is taken: those that are visible and would show in the capture.
pub fn windows_to_hide(visible: [bool; 2], covers_capture: [bool; 2]) -> (hide: [bool; 2])
    ensures
        hide[0] == (visible[0] && covers_capture[0]),
        hide[1] == (visible[1] && covers_capture[1]),
{
    [visible[0] && covers_capture[0], visible[1] && covers_capture[1]]
}

/// One step of taking a frame with the capture windows out of the way.
#[derive(Clone, Copy, Debug, PartialEq, Eq, Structural)]
pub enum WindowStep {
    /// Capture window `index` (0: boundary ring, 1: panel) is shown or hidden.
    Visibility(usize, bool),
    /// The frame is taken.
    Capture,
}

/// The steps that hide the windows marked visible, in window order.
pub open spec fn hide_steps(visibility: [bool; 2]) -> Seq<WindowStep> {
    (if visibility[0] { seq![WindowStep::Visibility(0, false)] } else { Seq::empty() }) + (
    if visibility[1] {
        seq![WindowStep::Visibility(1, false)]
    } else {
        Seq::empty()
    })
}

/// The steps that show the windows marked visible again, in window order.
pub open spec fn show_steps(visibility: [bool; 2]) -> Seq<WindowStep> {
    (if visibility[0] { seq![WindowStep::Visibility(0, true)] } else { Seq::empty() }) + (
    if visibility[1] {
        seq![WindowStep::Visibility(1, true)]
    } else {
        Seq::empty()
    })
}

/// What a frame is taken from: the two capture windows, which can be shown
/// and hidden, and the capture itself. `steps` is what has been done to it.
pub trait CaptureSurface {
    type Captured;

    spec fn steps(&self) -> Seq<WindowStep>;

    /// Every window may be shown or hidden.
    spec fn accepts_visibility(&self) -> bool;

    /// The capture may be taken.
    spec fn accepts_capture(&self) -> bool;

    /// What the capture may give.
    spec fn capture_gives(&self, captured: Self::Captured) -> bool;

    fn set_visible(&mut self, index: usize, visible: bool)
        requires
            old(self).accepts_visibility(),
        ensures
            final(self).steps() == old(self).steps().push(WindowStep::Visibility(index, visible)),
            final(self).accepts_visibility(),
            final(self).accepts_capture() == old(self).accepts_capture(),
            forall|captured: Self::Captured| #[trigger] final(self).capture_gives(captured)
                == old(self).capture_gives(captured),
    ;

    fn capture(&mut self) -> (captured: Self::Captured)
        requires
            old(self).accepts_capture(),
        ensures
            final(self).steps() == old(self).steps().push(WindowStep::Capture),
            final(self).accepts_visibility() == old(self).accepts_visibility(),
            old(self).capture_gives(captured),
    ;
}

/// A surface made of two closures: one that shows or hides a window, one
/// that takes the capture once. It records every step it is asked for.
pub struct ClosureSurface<S, C> {
    set_visible: S,
    capture: Option<C>,
    steps: Ghost<Seq<WindowStep>>,
}

impl<S: FnMut(usize, bool), C> ClosureSurface<S, C> {
    pub fn new<R>(set_visible: S, capture: C) -> (surface: Self) where C: FnOnce() -> R
        ensures
            surface.steps() == Seq::<WindowStep>::empty(),
            surface.accepts_visibility() == (forall|index: usize, visible: bool|
                set_visible.requires((index, visible))),
            surface.accepts_capture() == capture.requires(()),
            forall|captured: R| #[trigger] surface.capture_gives(captured) == capture.ensures(
                (),
                captured,
            ),
    {
        let surface = ClosureSurface { set_visible, capture: Some(capture), steps: Ghost(Seq::empty()) };
        assert(surface.accepts_visibility() == (forall|index: usize, visible: bool|
            set_visible.requires((index, visible)))) by {
            assert(surface.set_visible == set_visible);
            if surface.accepts_visibility() {
                assert forall|index: usize, visible: bool| set_visible.requires((index, visible)) by {
                    assert(surface.set_visible.requires((index, visible)));
                }
            }
        }
        surface
    }
}

impl<R, S: FnMut(usize, bool), C: FnOnce() -> R> CaptureSurface for ClosureSurface<S, C> {
    type Captured = R;

    closed spec fn steps(&self) -> Seq<WindowStep> {
        self.steps@
    }

    closed spec fn accepts_visibility(&self) -> bool {
        forall|index: usize, visible: bool| self.set_visible.requires((index, visible))
    }

    closed spec fn accepts_capture(&self) -> bool {
        self.capture matches Some(capture) && capture.requires(())
    }

    closed spec fn capture_gives(&self, captured: R) -> bool {
        self.capture matches Some(capture) && capture.ensures((), captured)
    }

    fn set_visible(&mut self, index: usize, visible: bool) {
        (self.set_visible)(index, visible);
        self.steps = Ghost(self.steps@.push(WindowStep::Visibility(index, visible)));
    }

    fn capture(&mut self) -> (captured: R) {
        let capture = self.capture.take().unwrap();
        let captured = capture();
        self.steps = Ghost(self.steps@.push(WindowStep::Capture));
        assert(self.set_visible == old(self).set_visible);
        assert(self.accepts_visibility() == old(self).accepts_visibility()) by {
            if old(self).accepts_visibility() {
                assert forall|index: usize, visible: bool| self.set_visible.requires(
                    (index, visible),
                ) by {
                    assert(old(self).set_visible.requires((index, visible)));
                }
            }
            if self.accepts_visibility() {
                assert forall|index: usize, visible: bool| old(self).set_visible.requires(
                    (index, visible),
                ) by {
                    assert(self.set_visible.requires((index, visible)));
                }
            }
        }
        captured
    }
}

/// Hides the visible capture windows, takes the capture, and shows them
/// again, whatever the capture gave: exactly the hide steps, the capture and
/// the show steps, in that order.
pub fn with_hidden_capture_windows<W: CaptureSurface>(visibility: [bool; 2], surface: &mut W) -> (
    captured: W::Captured)
    requires
        old(surface).accepts_visibility(),
        old(surface).accepts_capture(),
    ensures
        final(surface).steps() == old(surface).steps() + hide_steps(visibility) + seq![
            WindowStep::Capture,
        ] + show_steps(visibility),
        old(surface).capture_gives(captured),
{
    let ghost start = surface.steps();
    if visibility[0] {
        surface.set_visible(0, false);
    }
    if visibility[1] {
        surface.set_visible(1, false);
    }
    assert(surface.steps() =~= start + hide_steps(visibility));
    let captured = surface.capture();
    assert(surface.steps() =~= start + hide_steps(visibility) + seq![WindowStep::Capture]);
    let ghost middle = surface.steps();
    if visibility[0] {
        surface.set_visible(0, true);
    }
    if visibility[1] {
        surface.set_visible(1, true);
    }
    assert(surface.steps() =~= middle + show_steps(visibility));
    assert(surface.steps() =~= start + hide_steps(visibility) + seq![WindowStep::Capture]
        + show_steps(visibility));
    captured
}

pub open spec fn rect_contains_rect(outer: Rect, inner: Rect) -> bool {
    outer.left <= inner.left && outer.top <= inner.top && outer.right >= inner.right
        && outer.bottom >= inner.bottom
}

/// Whether a ring of `thickness` around `ring` would show inside `capture`:
/// the ring's hole does not hold the whole capture.
pub fn ring_covers_rect(ring: &Rect, thickness: i32, capture: &Rect) -> (covers: bool)
    requires
        i32::MIN <= ring.left + thickness <= i32::MAX,
        i32::MIN <= ring.top + thickness <= i32::MAX,
        i32::MIN <= ring.right - thickness <= i32::MAX,
        i32::MIN <= ring.bottom - thickness <= i32::MAX,
    ensures
        covers == !rect_contains_rect(
            Rect {
                left: (ring.left + thickness) as i32,
                top: (ring.top + thickness) as i32,
                right: (ring.right - thickness) as i32,
                bottom: (ring.bottom - thickness) as i32,
            },
            *capture,
        ),
{
    let hole = Rect {
        left: ring.left + thickness,
        top: ring.top + thickness,
        right: ring.right - thickness,
        bottom: ring.bottom - thickness,
    };
    !(hole.left <= capture.left && hole.top <= capture.top && hole.right >= capture.right
        && hole.bottom >= capture.bottom)
}

/// One captured frame: its size, its BGRA pixels, and how many of its top rows
/// repeat the previous frame.
pub struct CapturedFrame {
    pub width: usize,
    pub height: usize,
    pub pixels: Vec<u8>,
    pub overlap: usize,
}

/// One FNV-1a step.
pub open spec fn fnv_step(hash: u64, byte: u8) -> u64 {
    (hash ^ (byte as u64)).wrapping_mul(FNV_PRIME)
}

pub open spec fn hash_pixel(hash: u64, pixels: Seq<u8>, offset: int) -> u64 {
    fnv_step(fnv_step(fnv_step(hash, pixels[offset]), pixels[offset + 1]), pixels[offset + 2])
}

pub open spec fn sample_width(width: usize) -> int {
    if width < 100 { width as int } else { 100 }
}

pub open spec fn sample_height(height: usize) -> int {
    if height < 50 { height as int } else { 50 }
}

pub open spec fn sample_top(height: usize) -> int {
    let band: int = if height / 4 > sample_height(height) { (height / 4) as int } else { sample_height(height) };
    if height > band { height - band } else { 0 }
}

/// The pixel a sample falls on, as a byte offset.
pub open spec fn sample_offset(width: usize, height: usize, sample_y: int, sample_x: int) -> int {
    let y = sample_top(height) + sample_y * (height - sample_top(height)) / sample_height(height);
    let x = sample_x * width / sample_width(width);
    (y * width + x) * 4
}

pub open spec fn hash_sample_row(
    hash: u64,
    pixels: Seq<u8>,
    width: usize,
    height: usize,
    sample_y: int,
    columns: int,
) -> u64
    decreases columns,
{
    if columns <= 0 {
        hash
    } else {
        hash_pixel(
            hash_sample_row(hash, pixels, width, height, sample_y, columns - 1),
            pixels,
            sample_offset(width, height, sample_y, columns - 1),
        )
    }
}

pub open spec fn hash_sample_rows(pixels: Seq<u8>, width: usize, height: usize, rows: int) -> u64
    decreases rows,
{
    if rows <= 0 {
        FNV_OFFSET
    } else {
        hash_sample_row(
            hash_sample_rows(pixels, width, height, rows - 1),
            pixels,
            width,
            height,
            rows - 1,
            sample_width(width),
        )
    }
}

/// The FNV-1a hash of the colour channels of up to 100 x 50 pixels sampled
/// evenly from the bottom quarter of the frame (at least its last 50 rows).
pub open spec fn spec_frame_hash(pixels: Seq<u8>, width: usize, height: usize) -> u64 {
    hash_sample_rows(pixels, width, height, sample_height(height))
}

proof fn lemma_sample_in_frame(width: usize, height: usize, sample_y: int, sample_x: int)
    requires
        0 <= sample_y < sample_height(height),
        0 <= sample_x < sample_width(width),
    ensures
        0 <= sample_offset(width, height, sample_y, sample_x),
        sample_offset(width, height, sample_y, sample_x) + 3 <= width * height * 4,
{
    let top = sample_top(height);
    let region = height - top;
    let sh = sample_height(height);
    let sw = sample_width(width);
    assert(0 <= sample_y * region / sh < region) by (nonlinear_arith)
        requires
            0 <= sample_y < sh,
            region > 0,
            sh > 0,
    ;
    assert(0 <= sample_x * width / sw < width) by (nonlinear_arith)
        requires
            0 <= sample_x < sw,
            sw <= width,
            sw > 0,
    ;
    let y = top + sample_y * region / sh;
    let x = sample_x * width / sw;
    assert(0 <= (y * width + x) * 4 && (y * width + x) * 4 + 3 <= width * height * 4)
        by (nonlinear_arith)
        requires
            0 <= y < height,
            0 <= x < width,
    ;
}

/// A hash of the frame's lower part, to notice when scrolling has stopped.
pub fn frame_hash(pixels: &[u8], width: usize, height: usize) -> (hash: u64)
    requires
        width * height * 4 <= pixels@.len(),
        height * 50 <= usize::MAX,
        width * 100 <= usize::MAX,
    ensures
        hash == spec_frame_hash(pixels@, width, height),
{
    let length: usize = pixels.len();
    let sample_w: usize = if width < 100 { width } else { 100 };
    let sample_h: usize = if height < 50 { height } else { 50 };
    let quarter: usize = height / 4;
    let band: usize = if quarter > sample_h { quarter } else { sample_h };
    let top: usize = if height > band { height - band } else { 0 };
    let region: usize = height - top;
    let mut hash: u64 = FNV_OFFSET;
    let mut sample_y: usize = 0;
    while sample_y < sample_h
        invariant
            width * height * 4 <= pixels@.len(),
            length == pixels@.len(),
            height * 50 <= usize::MAX,
            width * 100 <= usize::MAX,
            sample_w == sample_width(width),
            sample_h == sample_height(height),
            top == sample_top(height),
            region == height - top,
            sample_y <= sample_h,
            hash == hash_sample_rows(pixels@, width, height, sample_y as int),
        decreases sample_h - sample_y,
    {
        let ghost row_start = hash;
        let mut sample_x: usize = 0;
        while sample_x < sample_w
            invariant
                width * height * 4 <= pixels@.len(),
                length == pixels@.len(),
                height * 50 <= usize::MAX,
                width * 100 <= usize::MAX,
                sample_w == sample_width(width),
                sample_h == sample_height(height),
                top == sample_top(height),
                region == height - top,
                sample_y < sample_h,
                sample_x <= sample_w,
                hash == hash_sample_row(row_start, pixels@, width, height, sample_y as int, sample_x as int),
            decreases sample_w - sample_x,
        {
            proof {
                lemma_sample_in_frame(width, height, sample_y as int, sample_x as int);
            }
            assert(sample_y * region <= 50 * height) by (nonlinear_arith)
                requires
                    sample_y < 50,
                    region <= height,
            ;
            assert(sample_x * width <= 100 * width) by (nonlinear_arith)
                requires
                    sample_x < 100,
            ;
            let y: usize = top + sample_y * region / sample_h;
            let x: usize = sample_x * width / sample_w;
            let offset: usize = (y * width + x) * 4;
            hash = (hash ^ (pixels[offset] as u64)).wrapping_mul(FNV_PRIME);
            hash = (hash ^ (pixels[offset + 1] as u64)).wrapping_mul(FNV_PRIME);
            hash = (hash ^ (pixels[offset + 2] as u64)).wrapping_mul(FNV_PRIME);
            sample_x = sample_x + 1;
        }
        sample_y = sample_y + 1;
    }
    hash
}


pub open spec fn channel_difference(a: u8, b: u8) -> int {
    if a > b { a - b } else { b - a }
}

/// The colour difference of one sampled pixel pair.
pub open spec fn pixel_difference(
    previous: Seq<u8>,
    current: Seq<u8>,
    width: int,
    previous_y: int,
    current_y: int,
    start_x: int,
    y: int,
    x: int,
) -> int {
    let p = ((previous_y + y) * width + start_x + x) * 4;
    let c = ((current_y + y) * width + start_x + x) * 4;
    channel_difference(previous[p], current[c]) + channel_difference(previous[p + 1], current[c + 1])
        + channel_difference(previous[p + 2], current[c + 2])
}

pub open spec fn row_difference(
    previous: Seq<u8>,
    current: Seq<u8>,
    width: int,
    previous_y: int,
    current_y: int,
    start_x: int,
    y: int,
    columns: int,
) -> int
    decreases columns,
{
    if columns <= 0 {
        0
    } else {
        row_difference(previous, current, width, previous_y, current_y, start_x, y, columns - 1)
            + pixel_difference(previous, current, width, previous_y, current_y, start_x, y, 2 * (columns - 1))
    }
}

/// The summed colour difference of two strips, sampling every other pixel of
/// every other row.
pub open spec fn strip_difference(
    previous: Seq<u8>,
    current: Seq<u8>,
    width: int,
    previous_y: int,
    current_y: int,
    start_x: int,
    strip_width: int,
    rows: int,
) -> int
    decreases rows,
{
    if rows <= 0 {
        0
    } else {
        strip_difference(previous, current, width, previous_y, current_y, start_x, strip_width, rows - 1)
            + row_difference(
            previous,
            current,
            width,
            previous_y,
            current_y,
            start_x,
            2 * (rows - 1),
            (strip_width + 1) / 2,
        )
    }
}

proof fn lemma_pixel_in_frame(width: int, height: int, row: int, column: int)
    requires
        0 <= row < height,
        0 <= column < width,
    ensures
        0 <= (row * width + column) * 4,
        (row * width + column) * 4 + 3 <= width * height * 4,
{
    assert(0 <= (row * width + column) * 4 && (row * width + column) * 4 + 3 <= width * height * 4)
        by (nonlinear_arith)
        requires
            0 <= row < height,
            0 <= column < width,
    ;
}

fn compare_overlap_strip(
    previous: &[u8],
    current: &[u8],
    width: usize,
    height: usize,
    previous_y: usize,
    current_y: usize,
    start_x: usize,
    strip_width: usize,
    strip_height: usize,
) -> (difference: u64)
    requires
        width * height * 4 <= previous@.len(),
        width * height * 4 <= current@.len(),
        previous_y + strip_height <= height,
        current_y + strip_height <= height,
        start_x + strip_width <= width,
        strip_width <= 800,
        strip_height <= 40,
    ensures
        difference == strip_difference(
            previous@,
            current@,
            width as int,
            previous_y as int,
            current_y as int,
            start_x as int,
            strip_width as int,
            (strip_height + 1) / 2,
        ),
{
    let length: usize = previous.len();
    let mut difference: u64 = 0;
    let mut y: usize = 0;
    let mut rows: usize = 0;
    while y < strip_height
        invariant
            width * height * 4 <= previous@.len(),
            width * height * 4 <= current@.len(),
            length == previous@.len(),
            previous_y + strip_height <= height,
            current_y + strip_height <= height,
            start_x + strip_width <= width,
            strip_width <= 800,
            strip_height <= 40,
            y == 2 * rows,
            rows <= (strip_height + 1) / 2,
            y < strip_height ==> rows < (strip_height + 1) / 2,
            y >= strip_height ==> rows == (strip_height + 1) / 2,
            difference <= 306_000 * rows,
            difference == strip_difference(
                previous@,
                current@,
                width as int,
                previous_y as int,
                current_y as int,
                start_x as int,
                strip_width as int,
                rows as int,
            ),
        decreases (strip_height + 1) / 2 - rows,
    {
        let ghost row_start = difference;
        let mut x: usize = 0;
        let mut columns: usize = 0;
        while x < strip_width
            invariant
                width * height * 4 <= previous@.len(),
                width * height * 4 <= current@.len(),
                length == previous@.len(),
                previous_y + strip_height <= height,
                current_y + strip_height <= height,
                start_x + strip_width <= width,
                strip_width <= 800,
                y < strip_height,
                x == 2 * columns,
                columns <= (strip_width + 1) / 2,
                x < strip_width ==> columns < (strip_width + 1) / 2,
                x >= strip_width ==> columns == (strip_width + 1) / 2,
                row_start <= 306_000 * rows,
                rows < 20,
                columns <= 400,
                difference <= row_start + 765 * columns,
                difference == row_start + row_difference(
                    previous@,
                    current@,
                    width as int,
                    previous_y as int,
                    current_y as int,
                    start_x as int,
                    y as int,
                    columns as int,
                ),
            decreases (strip_width + 1) / 2 - columns,
        {
            assert(columns < 400);
            assert(difference <= 306_000 * 20);
            proof {
                lemma_pixel_in_frame(width as int, height as int, (previous_y + y) as int, (start_x + x) as int);
                lemma_pixel_in_frame(width as int, height as int, (current_y + y) as int, (start_x + x) as int);
            }
            let previous_offset: usize = ((previous_y + y) * width + start_x + x) * 4;
            let current_offset: usize = ((current_y + y) * width + start_x + x) * 4;
            let mut channel: usize = 0;
            let ghost pixel_start = difference;
            while channel < 3
                invariant
                    width * height * 4 <= previous@.len(),
                    width * height * 4 <= current@.len(),
                    length == previous@.len(),
                    previous_offset + 3 <= width * height * 4,
                    current_offset + 3 <= width * height * 4,
                    channel <= 3,
                    difference <= pixel_start + 255 * channel,
                    difference == pixel_start + (if channel >= 1 {
                        channel_difference(previous@[previous_offset as int], current@[current_offset as int])
                    } else {
                        0
                    }) + (if channel >= 2 {
                        channel_difference(previous@[previous_offset + 1], current@[current_offset + 1])
                    } else {
                        0
                    }) + (if channel >= 3 {
                        channel_difference(previous@[previous_offset + 2], current@[current_offset + 2])
                    } else {
                        0
                    }),
                    pixel_start <= 306_000 * 20,
                decreases 3 - channel,
            {
                let a: u8 = previous[previous_offset + channel];
                let b: u8 = current[current_offset + channel];
                let delta: u8 = if a > b { a - b } else { b - a };
                difference = difference + delta as u64;
                channel = channel + 1;
            }
            x = x + 2;
            columns = columns + 1;
        }
        y = y + 2;
        rows = rows + 1;
    }
    difference
}


pub open spec fn strip_height_for(height: usize) -> int {
    if 40 < height / 2 { 40 } else { (height / 2) as int }
}

pub open spec fn strip_width_for(width: usize) -> int {
    if width < 800 { width as int } else { 800 }
}

/// How different the bottom strip of the previous frame is from the strip of
/// the current frame that ends `overlap` rows from its top.
pub open spec fn overlap_score(previous: Seq<u8>, current: Seq<u8>, width: usize, height: usize, overlap: int) -> int {
    let strip_height = strip_height_for(height);
    let strip_width = strip_width_for(width);
    strip_difference(
        previous,
        current,
        width as int,
        height - strip_height,
        overlap - strip_height,
        (width - strip_width) / 2,
        strip_width,
        (strip_height + 1) / 2,
    )
}

pub open spec fn distance(a: int, b: int) -> int {
    if a > b { a - b } else { b - a }
}

/// A candidate beats the best so far with a lower score, or an equal score
/// nearer the expected overlap.
pub open spec fn consider(score: int, overlap: int, best: (int, int), expected: int) -> (int, int) {
    if score < best.0 || (score == best.0 && distance(overlap, expected) < distance(best.1, expected)) {
        (score, overlap)
    } else {
        best
    }
}

/// The coarse pass: every fourth overlap from `overlap` up to the frame height.
pub open spec fn coarse_search(
    previous: Seq<u8>,
    current: Seq<u8>,
    width: usize,
    height: usize,
    expected: int,
    overlap: int,
    best: (int, int),
) -> (int, int)
    decreases height + 1 - overlap,
{
    if overlap > height || overlap < 0 {
        best
    } else {
        let next_best = consider(overlap_score(previous, current, width, height, overlap), overlap, best, expected);
        let next = if overlap + 4 > usize::MAX { usize::MAX as int } else { overlap + 4 };
        if next == usize::MAX || next > height {
            next_best
        } else {
            coarse_search(previous, current, width, height, expected, next, next_best)
        }
    }
}

/// The fine pass: every overlap from `overlap` to `end`.
pub open spec fn fine_search(
    previous: Seq<u8>,
    current: Seq<u8>,
    width: usize,
    height: usize,
    expected: int,
    overlap: int,
    end: int,
    best: (int, int),
) -> (int, int)
    decreases end + 1 - overlap,
{
    if overlap > end {
        best
    } else {
        fine_search(
            previous,
            current,
            width,
            height,
            expected,
            overlap + 1,
            end,
            consider(overlap_score(previous, current, width, height, overlap), overlap, best, expected),
        )
    }
}

/// How many rows of the current frame repeat the bottom of the previous one:
/// the best match of a coarse search in steps of four and a fine search
/// around it, when it is close enough to count.
pub open spec fn spec_find_overlap(
    previous: Seq<u8>,
    previous_width: usize,
    previous_height: usize,
    current: Seq<u8>,
    width: usize,
    height: usize,
    expected: usize,
) -> Option<int> {
    let strip_height = strip_height_for(height);
    if strip_height == 0 || previous_width != width || previous_height != height {
        None
    } else {
        let start = if expected < strip_height {
            strip_height
        } else if expected > height {
            height as int
        } else {
            expected as int
        };
        let coarse = coarse_search(
            previous,
            current,
            width,
            height,
            expected as int,
            strip_height,
            (u64::MAX as int, start),
        );
        let fine_start = if coarse.1 - 3 > strip_height { coarse.1 - 3 } else { strip_height };
        let fine_end = if coarse.1 + 3 < height { coarse.1 + 3 } else { height as int };
        let fine = fine_search(previous, current, width, height, expected as int, fine_start, fine_end, coarse);
        let sampled = (strip_width_for(width) + 1) / 2 * ((strip_height + 1) / 2) * 3;
        if fine.0 > sampled * MAX_OVERLAP_CHANNEL_DIFFERENCE {
            None
        } else {
            Some(fine.1)
        }
    }
}

/// The best candidate so far is an overlap in `[low, high]` and, once any
/// candidate was scored, carries that candidate's score.
pub open spec fn scored_candidate(
    previous: Seq<u8>,
    current: Seq<u8>,
    width: usize,
    height: usize,
    best: (int, int),
    low: int,
    high: int,
) -> bool {
    &&& low <= best.1 <= high
    &&& (best.0 == u64::MAX || best.0 == overlap_score(previous, current, width, height, best.1))
}

proof fn lemma_coarse_search_scored(
    previous: Seq<u8>,
    current: Seq<u8>,
    width: usize,
    height: usize,
    expected: int,
    overlap: int,
    best: (int, int),
    low: int,
)
    requires
        low <= overlap,
        scored_candidate(previous, current, width, height, best, low, height as int),
    ensures
        scored_candidate(
            previous,
            current,
            width,
            height,
            coarse_search(previous, current, width, height, expected, overlap, best),
            low,
            height as int,
        ),
    decreases height + 1 - overlap,
{
    if 0 <= overlap <= height {
        let next_best = consider(
            overlap_score(previous, current, width, height, overlap),
            overlap,
            best,
            expected,
        );
        let next = if overlap + 4 > usize::MAX { usize::MAX as int } else { overlap + 4 };
        if !(next == usize::MAX || next > height) {
            lemma_coarse_search_scored(previous, current, width, height, expected, next, next_best, low);
        }
    }
}

proof fn lemma_fine_search_scored(
    previous: Seq<u8>,
    current: Seq<u8>,
    width: usize,
    height: usize,
    expected: int,
    overlap: int,
    end: int,
    best: (int, int),
    low: int,
)
    requires
        low <= overlap,
        end <= height,
        scored_candidate(previous, current, width, height, best, low, height as int),
    ensures
        scored_candidate(
            previous,
            current,
            width,
            height,
            fine_search(previous, current, width, height, expected, overlap, end, best),
            low,
            height as int,
        ),
    decreases end + 1 - overlap,
{
    if overlap <= end {
        lemma_fine_search_scored(
            previous,
            current,
            width,
            height,
            expected,
            overlap + 1,
            end,
            consider(overlap_score(previous, current, width, height, overlap), overlap, best, expected),
            low,
        );
    }
}

/// `best` is at least as good as the candidate `overlap` with `score`: its
/// score is no higher, and on a tie it is no farther from `expected`.
pub open spec fn at_least_as_good(best: (int, int), score: int, overlap: int, expected: int) -> bool {
    best.0 <= score && (best.0 == score ==> distance(best.1, expected) <= distance(overlap, expected))
}

proof fn lemma_consider_keeps_better(score: int, overlap: int, best: (int, int), expected: int)
    ensures
        at_least_as_good(consider(score, overlap, best, expected), score, overlap, expected),
        at_least_as_good(consider(score, overlap, best, expected), best.0, best.1, expected),
{
}

proof fn lemma_at_least_as_good_chain(
    newer: (int, int),
    older: (int, int),
    score: int,
    overlap: int,
    expected: int,
)
    requires
        at_least_as_good(newer, older.0, older.1, expected),
        at_least_as_good(older, score, overlap, expected),
    ensures
        at_least_as_good(newer, score, overlap, expected),
{
}

proof fn lemma_coarse_search_best(
    previous: Seq<u8>,
    current: Seq<u8>,
    width: usize,
    height: usize,
    expected: int,
    overlap: int,
    best: (int, int),
)
    requires
        overlap >= 0,
        height + 4 <= usize::MAX,
    ensures
        ({
            let found = coarse_search(previous, current, width, height, expected, overlap, best);
            &&& at_least_as_good(found, best.0, best.1, expected)
            &&& forall|o: int|
                overlap <= o <= height && (o - overlap) % 4 == 0 ==> at_least_as_good(
                    found,
                    #[trigger] overlap_score(previous, current, width, height, o),
                    o,
                    expected,
                )
        }),
    decreases height + 1 - overlap,
{
    let found = coarse_search(previous, current, width, height, expected, overlap, best);
    if overlap <= height {
        let score = overlap_score(previous, current, width, height, overlap);
        let next_best = consider(score, overlap, best, expected);
        lemma_consider_keeps_better(score, overlap, best, expected);
        let next = if overlap + 4 > usize::MAX { usize::MAX as int } else { overlap + 4 };
        if next == usize::MAX || next > height {
            assert forall|o: int|
                overlap <= o <= height && (o - overlap) % 4 == 0 implies at_least_as_good(
                found,
                #[trigger] overlap_score(previous, current, width, height, o),
                o,
                expected,
            ) by {
                if o != overlap {
                    assert(o >= overlap + 4);
                }
            }
        } else {
            lemma_coarse_search_best(previous, current, width, height, expected, next, next_best);
            lemma_at_least_as_good_chain(found, next_best, best.0, best.1, expected);
            assert forall|o: int|
                overlap <= o <= height && (o - overlap) % 4 == 0 implies at_least_as_good(
                found,
                #[trigger] overlap_score(previous, current, width, height, o),
                o,
                expected,
            ) by {
                if o == overlap {
                    lemma_at_least_as_good_chain(found, next_best, score, overlap, expected);
                } else {
                    assert((o - next) % 4 == 0);
                }
            }
        }
    }
}

proof fn lemma_fine_search_best(
    previous: Seq<u8>,
    current: Seq<u8>,
    width: usize,
    height: usize,
    expected: int,
    overlap: int,
    end: int,
    best: (int, int),
)
    ensures
        ({
            let found = fine_search(previous, current, width, height, expected, overlap, end, best);
            &&& at_least_as_good(found, best.0, best.1, expected)
            &&& forall|o: int|
                overlap <= o <= end ==> at_least_as_good(
                    found,
                    #[trigger] overlap_score(previous, current, width, height, o),
                    o,
                    expected,
                )
        }),
    decreases end + 1 - overlap,
{
    let found = fine_search(previous, current, width, height, expected, overlap, end, best);
    if overlap <= end {
        let score = overlap_score(previous, current, width, height, overlap);
        let next_best = consider(score, overlap, best, expected);
        lemma_consider_keeps_better(score, overlap, best, expected);
        lemma_fine_search_best(previous, current, width, height, expected, overlap + 1, end, next_best);
        lemma_at_least_as_good_chain(found, next_best, best.0, best.1, expected);
        lemma_at_least_as_good_chain(found, next_best, score, overlap, expected);
    }
}

/// The overlap found is the best of every overlap the search looks at: every
/// fourth overlap from the strip height up to the frame height, and every
/// overlap within three rows of the best of those. None of them scores
/// lower, and of those that score the same none is nearer the expected
/// overlap.
pub proof fn lemma_found_overlap_is_the_best(
    previous: Seq<u8>,
    previous_width: usize,
    previous_height: usize,
    current: Seq<u8>,
    width: usize,
    height: usize,
    expected: usize,
    rows: int,
)
    requires
        spec_find_overlap(previous, previous_width, previous_height, current, width, height, expected)
            == Some(rows),
        height + 4 <= usize::MAX,
    ensures
        forall|o: int|
            strip_height_for(height) <= o <= height && (o - strip_height_for(height)) % 4 == 0
                ==> at_least_as_good(
                (overlap_score(previous, current, width, height, rows), rows),
                #[trigger] overlap_score(previous, current, width, height, o),
                o,
                expected as int,
            ),
        ({
            let strip_height = strip_height_for(height);
            let start = if expected < strip_height {
                strip_height
            } else if expected > height {
                height as int
            } else {
                expected as int
            };
            let coarse = coarse_search(
                previous,
                current,
                width,
                height,
                expected as int,
                strip_height,
                (u64::MAX as int, start),
            ).1;
            forall|o: int|
                strip_height <= o <= height && coarse - 3 <= o <= coarse + 3 ==> at_least_as_good(
                    (overlap_score(previous, current, width, height, rows), rows),
                    #[trigger] overlap_score(previous, current, width, height, o),
                    o,
                    expected as int,
                )
        }),
{
    let strip_height = strip_height_for(height);
    let start = if expected < strip_height {
        strip_height
    } else if expected > height {
        height as int
    } else {
        expected as int
    };
    let initial = (u64::MAX as int, start);
    lemma_coarse_search_scored(previous, current, width, height, expected as int, strip_height, initial, strip_height);
    lemma_coarse_search_best(previous, current, width, height, expected as int, strip_height, initial);
    let coarse = coarse_search(previous, current, width, height, expected as int, strip_height, initial);
    let fine_start = if coarse.1 - 3 > strip_height { coarse.1 - 3 } else { strip_height };
    let fine_end = if coarse.1 + 3 < height { coarse.1 + 3 } else { height as int };
    lemma_fine_search_scored(previous, current, width, height, expected as int, fine_start, fine_end, coarse, strip_height);
    lemma_fine_search_best(previous, current, width, height, expected as int, fine_start, fine_end, coarse);
    let fine = fine_search(previous, current, width, height, expected as int, fine_start, fine_end, coarse);
    let sampled = (strip_width_for(width) + 1) / 2 * ((strip_height + 1) / 2) * 3;
    assert(sampled * MAX_OVERLAP_CHANNEL_DIFFERENCE < u64::MAX) by (nonlinear_arith)
        requires
            0 <= strip_width_for(width) <= 800,
            0 <= strip_height <= 40,
            sampled == (strip_width_for(width) + 1) / 2 * ((strip_height + 1) / 2) * 3,
    ;
    assert(fine.1 == rows);
    assert(fine.0 == overlap_score(previous, current, width, height, rows));
    assert forall|o: int|
        strip_height <= o <= height && (o - strip_height) % 4 == 0 implies at_least_as_good(
        (overlap_score(previous, current, width, height, rows), rows),
        #[trigger] overlap_score(previous, current, width, height, o),
        o,
        expected as int,
    ) by {
        lemma_at_least_as_good_chain(fine, coarse, overlap_score(previous, current, width, height, o), o, expected as int);
    }
}

/// A found overlap leaves the comparison strip inside both frames (it lies
/// between the strip height and the frame height), and the strip matches
/// there: its sampled channel difference is at most 18 per sampled channel.
pub proof fn lemma_found_overlap_matches(
    previous: Seq<u8>,
    previous_width: usize,
    previous_height: usize,
    current: Seq<u8>,
    width: usize,
    height: usize,
    expected: usize,
    rows: int,
)
    requires
        spec_find_overlap(previous, previous_width, previous_height, current, width, height, expected)
            == Some(rows),
    ensures
        strip_height_for(height) <= rows <= height,
        overlap_score(previous, current, width, height, rows) <= (strip_width_for(width) + 1) / 2 * ((
        strip_height_for(height) + 1) / 2) * 3 * MAX_OVERLAP_CHANNEL_DIFFERENCE,
{
    let strip_height = strip_height_for(height);
    let start = if expected < strip_height {
        strip_height
    } else if expected > height {
        height as int
    } else {
        expected as int
    };
    let initial = (u64::MAX as int, start);
    lemma_coarse_search_scored(previous, current, width, height, expected as int, strip_height, initial, strip_height);
    let coarse = coarse_search(previous, current, width, height, expected as int, strip_height, initial);
    let fine_start = if coarse.1 - 3 > strip_height { coarse.1 - 3 } else { strip_height };
    let fine_end = if coarse.1 + 3 < height { coarse.1 + 3 } else { height as int };
    lemma_fine_search_scored(previous, current, width, height, expected as int, fine_start, fine_end, coarse, strip_height);
    let sampled = (strip_width_for(width) + 1) / 2 * ((strip_height + 1) / 2) * 3;
    assert(sampled * MAX_OVERLAP_CHANNEL_DIFFERENCE < u64::MAX) by (nonlinear_arith)
        requires
            0 <= strip_width_for(width) <= 800,
            0 <= strip_height <= 40,
            sampled == (strip_width_for(width) + 1) / 2 * ((strip_height + 1) / 2) * 3,
    ;
}

fn overlap_at(
    previous: &[u8],
    current: &[u8],
    width: usize,
    height: usize,
    overlap: usize,
) -> (score: u64)
    requires
        width * height * 4 <= previous@.len(),
        width * height * 4 <= current@.len(),
        strip_height_for(height) <= overlap <= height,
    ensures
        score == overlap_score(previous@, current@, width, height, overlap as int),
{
    let strip_height: usize = if 40 < height / 2 { 40 } else { height / 2 };
    let strip_width: usize = if width < 800 { width } else { 800 };
    let start_x: usize = (width - strip_width) / 2;
    compare_overlap_strip(
        previous,
        current,
        width,
        height,
        height - strip_height,
        overlap - strip_height,
        start_x,
        strip_width,
        strip_height,
    )
}

fn distance_usize(a: usize, b: usize) -> (d: usize)
    ensures
        d == distance(a as int, b as int),
{
    if a > b {
        a - b
    } else {
        b - a
    }
}

/// Finds how many rows of the current frame repeat the bottom of the previous
/// one; `None` when the frames differ in size or no overlap matches well.
pub fn find_overlap(
    previous: &CapturedFrame,
    current_pixels: &[u8],
    width: usize,
    height: usize,
    expected: usize,
) -> (overlap: Option<usize>)
    requires
        previous.width == width && previous.height == height ==> previous.width * previous.height
            * 4 <= previous.pixels@.len(),
        previous.width == width && previous.height == height ==> width * height * 4
            <= current_pixels@.len(),
        height + 4 <= usize::MAX,
    ensures
        match overlap {
            Some(rows) => spec_find_overlap(
                previous.pixels@,
                previous.width,
                previous.height,
                current_pixels@,
                width,
                height,
                expected,
            ) == Some(rows as int) && strip_height_for(height) <= rows <= height && overlap_score(
                previous.pixels@,
                current_pixels@,
                width,
                height,
                rows as int,
            ) <= (strip_width_for(width) + 1) / 2 * ((strip_height_for(height) + 1) / 2) * 3
                * MAX_OVERLAP_CHANNEL_DIFFERENCE,
            None => spec_find_overlap(
                previous.pixels@,
                previous.width,
                previous.height,
                current_pixels@,
                width,
                height,
                expected,
            ) is None,
        },
{
    let strip_height: usize = if 40 < height / 2 { 40 } else { height / 2 };
    if strip_height == 0 || previous.width != width || previous.height != height {
        return None;
    }
    let previous_pixels = previous.pixels.as_slice();
    let min_overlap: usize = strip_height;
    let max_overlap: usize = height;
    let strip_width: usize = if width < 800 { width } else { 800 };
    let mut best_overlap: usize = if expected < min_overlap {
        min_overlap
    } else if expected > max_overlap {
        max_overlap
    } else {
        expected
    };
    let mut best_score: u64 = u64::MAX;
    let ghost coarse = coarse_search(
        previous_pixels@,
        current_pixels@,
        width,
        height,
        expected as int,
        strip_height as int,
        (u64::MAX as int, best_overlap as int),
    );
    let mut overlap: usize = min_overlap;
    while overlap <= max_overlap
        invariant_except_break
            coarse_search(
                previous_pixels@,
                current_pixels@,
                width,
                height,
                expected as int,
                overlap as int,
                (best_score as int, best_overlap as int),
            ) == coarse,
        invariant
            width * height * 4 <= previous_pixels@.len(),
            width * height * 4 <= current_pixels@.len(),
            height + 4 <= usize::MAX,
            min_overlap == strip_height_for(height),
            max_overlap == height,
            min_overlap <= overlap,
            min_overlap <= best_overlap <= max_overlap,
        ensures
            coarse == (best_score as int, best_overlap as int),
        decreases max_overlap + 4 - overlap,
    {
        let score: u64 = overlap_at(previous_pixels, current_pixels, width, height, overlap);
        if score < best_score || (score == best_score && distance_usize(overlap, expected)
            < distance_usize(best_overlap, expected)) {
            best_score = score;
            best_overlap = overlap;
        }
        overlap = if overlap > usize::MAX - 4 { usize::MAX } else { overlap + 4 };
        if overlap == usize::MAX {
            break;
        }
    }
    let fine_start: usize = if best_overlap >= 3 && best_overlap - 3 > min_overlap {
        best_overlap - 3
    } else {
        min_overlap
    };
    let fine_end: usize = if best_overlap + 3 < max_overlap { best_overlap + 3 } else { max_overlap };
    let ghost fine = fine_search(
        previous_pixels@,
        current_pixels@,
        width,
        height,
        expected as int,
        fine_start as int,
        fine_end as int,
        coarse,
    );
    let mut candidate: usize = fine_start;
    while candidate <= fine_end
        invariant
            width * height * 4 <= previous_pixels@.len(),
            width * height * 4 <= current_pixels@.len(),
            height + 4 <= usize::MAX,
            min_overlap == strip_height_for(height),
            min_overlap <= fine_start,
            fine_end <= max_overlap,
            max_overlap == height,
            fine_start <= candidate <= fine_end + 1,
            fine_search(
                previous_pixels@,
                current_pixels@,
                width,
                height,
                expected as int,
                candidate as int,
                fine_end as int,
                (best_score as int, best_overlap as int),
            ) == fine,
        decreases fine_end + 1 - candidate,
    {
        let score: u64 = overlap_at(previous_pixels, current_pixels, width, height, candidate);
        if score < best_score || (score == best_score && distance_usize(candidate, expected)
            < distance_usize(best_overlap, expected)) {
            best_score = score;
            best_overlap = candidate;
        }
        candidate = candidate + 1;
    }
    assert(((strip_width + 1) / 2) * ((strip_height + 1) / 2) * 3 <= 400 * 20 * 3) by (nonlinear_arith)
        requires
            strip_width <= 800,
            strip_height <= 40,
    ;
    let sampled: u64 = (((strip_width + 1) / 2) * ((strip_height + 1) / 2) * 3) as u64;
    if best_score > sampled * MAX_OVERLAP_CHANNEL_DIFFERENCE {
        return None;
    }
    proof {
        lemma_found_overlap_matches(
            previous.pixels@,
            previous.width,
            previous.height,
            current_pixels@,
            width,
            height,
            expected,
            best_overlap as int,
        );
    }
    Some(best_overlap)
}


/// The rows a frame adds below the previous ones.
pub open spec fn new_rows(frame: CapturedFrame) -> int {
    if frame.height > frame.overlap { frame.height - frame.overlap } else { 0 }
}

/// The height of the stitched image: the first frame whole, then what each
/// later frame adds.
pub open spec fn stitched_height(frames: Seq<CapturedFrame>) -> int
    decreases frames.len(),
{
    if frames.len() == 0 {
        0
    } else if frames.len() == 1 {
        frames[0].height as int
    } else {
        stitched_height(frames.drop_last()) + new_rows(frames.last())
    }
}

pub open spec fn same_size(frames: Seq<CapturedFrame>) -> bool {
    forall|i: int|
        0 <= i < frames.len() ==> (#[trigger] frames[i]).width == frames[0].width && frames[i].height
            == frames[0].height
}

/// The size of the stitched image, after checking that the frames can be put
/// together.
pub fn stitch_frames(frames: &[CapturedFrame]) -> (size: Result<(usize, usize), String>)
    ensures
        match size {
            Ok((width, height)) => frames@.len() > 0 && same_size(frames@) && width
                == frames@[0].width && height == stitched_height(frames@) && width * height * 4
                <= usize::MAX,
            Err(message) => if frames@.len() == 0 {
                message@ == "No frames were captured"@
            } else if !same_size(frames@) {
                message@ == "Captured frame dimensions do not match"@
            } else {
                message@ == "Stitched image is too large"@ && (stitched_height(frames@) > usize::MAX
                    || frames@[0].width * stitched_height(frames@) * 4 > usize::MAX)
            },
        },
{
    if frames.len() == 0 {
        return Err("No frames were captured".to_owned());
    }
    let width: usize = frames[0].width;
    let height: usize = frames[0].height;
    let mut index: usize = 0;
    while index < frames.len()
        invariant
            width == frames@[0].width,
            height == frames@[0].height,
            index <= frames@.len(),
            forall|i: int|
                0 <= i < index ==> (#[trigger] frames@[i]).width == width && frames@[i].height == height,
        decreases frames@.len() - index,
    {
        if frames[index].width != width || frames[index].height != height {
            return Err("Captured frame dimensions do not match".to_owned());
        }
        index = index + 1;
    }
    assert(same_size(frames@));
    let mut total: usize = height;
    let mut index: usize = 1;
    assert(frames@.take(1).drop_last().len() == 0);
    assert(stitched_height(frames@.take(1)) == height);
    while index < frames.len()
        invariant
            frames@.len() > 0,
            same_size(frames@),
            width == frames@[0].width,
            1 <= index <= frames@.len(),
            total == stitched_height(frames@.take(index as int)),
        decreases frames@.len() - index,
    {
        assert(frames@.take(index + 1).drop_last() =~= frames@.take(index as int));
        let frame = &frames[index];
        let added: usize = if frame.height > frame.overlap { frame.height - frame.overlap } else { 0 };
        assert(frames@.take(index + 1).last() == frames@[index as int]);
        if total > usize::MAX - added {
            proof {
                lemma_stitched_height_grows(frames@, index as int + 1);
            }
            return Err("Stitched image is too large".to_owned());
        }
        total = total + added;
        index = index + 1;
    }
    assert(frames@.take(frames@.len() as int) =~= frames@);
    match width.checked_mul(total) {
        Some(area) => match area.checked_mul(4) {
            Some(_) => Ok((width, total)),
            None => Err("Stitched image is too large".to_owned()),
        },
        None => Err("Stitched image is too large".to_owned()),
    }
}

proof fn lemma_stitched_height_grows(frames: Seq<CapturedFrame>, count: int)
    requires
        1 <= count <= frames.len(),
    ensures
        stitched_height(frames.take(count)) <= stitched_height(frames),
    decreases frames.len() - count,
{
    if count < frames.len() {
        lemma_stitched_height_grows(frames, count + 1);
        assert(frames.take(count + 1).drop_last() =~= frames.take(count));
    } else {
        assert(frames.take(count) =~= frames);
    }
}

/// What capturing one more frame did.
#[derive(Clone, Copy, Debug, PartialEq, Eq, Structural)]
pub enum CaptureOutcome {
    /// The frame added new content.
    Added,
    /// The frame showed nothing new.
    Repeated,
    /// Nothing new came too many times: the page has ended.
    Ended,
    /// The frame does not continue the previous one.
    NoOverlap,
}

pub open spec fn frame_fits(frame: CapturedFrame) -> bool {
    frame.width * frame.height * 4 <= frame.pixels@.len()
}

/// The frames of a scrolling capture so far, and what is needed to tell
/// whether the next one adds anything.
pub struct FrameSequence {
    pub frames: Vec<CapturedFrame>,
    pub last_frame_hash: Option<u64>,
    pub duplicate_frame_count: usize,
    pub estimated_height: usize,
    pub scroll_step_points: usize,
}

/// The rows that a new frame is expected to share with the last one: its
/// height less one scroll step, at least one.
pub open spec fn expected_overlap(height: usize, scroll_step_points: usize) -> usize {
    let step: int = if height > scroll_step_points { height - scroll_step_points } else { 0 };
    (if step < 1 { 1 } else { step }) as usize
}

/// Where a new frame overlaps the last frame of `frames`, as the overlap
/// search finds it.
pub open spec fn overlap_with_last(
    frames: Seq<CapturedFrame>,
    pixels: Seq<u8>,
    width: usize,
    height: usize,
    scroll_step_points: usize,
) -> Option<int> {
    let previous = frames.last();
    spec_find_overlap(
        previous.pixels@,
        previous.width,
        previous.height,
        pixels,
        width,
        height,
        expected_overlap(height, scroll_step_points),
    )
}

/// A frame that adds nothing: the repeat count grows (saturating), the rest
/// is kept, and the capture ends once the count reaches the limit.
pub open spec fn counted_as_repeat(
    before: FrameSequence,
    after: FrameSequence,
    outcome: CaptureOutcome,
) -> bool {
    &&& after.duplicate_frame_count == (if before.duplicate_frame_count == usize::MAX {
        usize::MAX as int
    } else {
        before.duplicate_frame_count + 1
    })
    &&& outcome == (if after.duplicate_frame_count >= MAX_DUPLICATE_FRAMES {
        CaptureOutcome::Ended
    } else {
        CaptureOutcome::Repeated
    })
    &&& after.frames@ == before.frames@
    &&& after.last_frame_hash == before.last_frame_hash
    &&& after.estimated_height == before.estimated_height
    &&& after.scroll_step_points == before.scroll_step_points
}

impl FrameSequence {
    pub open spec fn well_formed(&self) -> bool {
        forall|i: int| 0 <= i < self.frames@.len() ==> frame_fits(#[trigger] self.frames@[i])
    }

    pub fn new(scroll_step_points: usize) -> (sequence: Self)
        ensures
            sequence.well_formed(),
            sequence.frames@.len() == 0,
            sequence.last_frame_hash is None,
            sequence.duplicate_frame_count == 0,
            sequence.estimated_height == 0,
            sequence.scroll_step_points == scroll_step_points,
    {
        FrameSequence {
            frames: Vec::new(),
            last_frame_hash: None,
            duplicate_frame_count: 0,
            estimated_height: 0,
            scroll_step_points,
        }
    }

    fn repeated(&mut self) -> (outcome: CaptureOutcome)
        ensures
            final(self).duplicate_frame_count == (if old(self).duplicate_frame_count == usize::MAX {
                usize::MAX as int
            } else {
                old(self).duplicate_frame_count + 1
            }),
            outcome == (if final(self).duplicate_frame_count >= MAX_DUPLICATE_FRAMES {
                CaptureOutcome::Ended
            } else {
                CaptureOutcome::Repeated
            }),
            final(self).frames@ == old(self).frames@,
            final(self).last_frame_hash == old(self).last_frame_hash,
            final(self).estimated_height == old(self).estimated_height,
            final(self).scroll_step_points == old(self).scroll_step_points,
    {
        if self.duplicate_frame_count < usize::MAX {
            self.duplicate_frame_count = self.duplicate_frame_count + 1;
        }
        if self.duplicate_frame_count >= MAX_DUPLICATE_FRAMES {
            CaptureOutcome::Ended
        } else {
            CaptureOutcome::Repeated
        }
    }

    /// Takes a newly captured frame: a frame with the hash of the last one,
    /// or that overlaps it completely, counts as repeated (three in a row end
    /// the capture); a frame that does not continue the last one is refused;
    /// otherwise it is added and the stitched height grows by its new rows.
    pub fn add_frame(&mut self, width: usize, height: usize, pixels: Vec<u8>) -> (outcome:
        CaptureOutcome)
        requires
            old(self).well_formed(),
            width * height * 4 <= pixels@.len(),
            height >= 1,
            height * 50 <= usize::MAX,
            width * 100 <= usize::MAX,
            height + 4 <= usize::MAX,
        ensures
            final(self).well_formed(),
            final(self).scroll_step_points == old(self).scroll_step_points,
            outcome == CaptureOutcome::Added <==> final(self).frames@.len() == old(self).frames@.len() + 1,
            outcome != CaptureOutcome::Added ==> final(self).frames@ == old(self).frames@,
            old(self).last_frame_hash == Some(spec_frame_hash(pixels@, width, height)) ==> outcome
                != CaptureOutcome::Added,
            outcome == CaptureOutcome::Added ==> {
                let frame = final(self).frames@.last();
                &&& final(self).frames@.drop_last() == old(self).frames@
                &&& frame.width == width && frame.height == height && frame.pixels@ == pixels@
                &&& final(self).duplicate_frame_count == 0
                &&& final(self).last_frame_hash == Some(spec_frame_hash(pixels@, width, height))
                &&& (old(self).frames@.len() == 0 ==> frame.overlap == 0 && final(self).estimated_height
                    == height)
                &&& (old(self).frames@.len() > 0 ==> {
                    let previous = old(self).frames@.last();
                    let step = if height > old(self).scroll_step_points {
                        height - old(self).scroll_step_points
                    } else {
                        0
                    };
                    let expected = if step < 1 { 1 } else { step };
                    &&& spec_find_overlap(
                        previous.pixels@,
                        previous.width,
                        previous.height,
                        pixels@,
                        width,
                        height,
                        expected as usize,
                    ) == Some(frame.overlap as int)
                    &&& frame.overlap < height
                    &&& final(self).estimated_height == (if old(self).estimated_height + (height
                        - frame.overlap) > usize::MAX {
                        usize::MAX as int
                    } else {
                        old(self).estimated_height + (height - frame.overlap)
                    })
                })
            },
            outcome == CaptureOutcome::NoOverlap ==> old(self).frames@.len() > 0,
            old(self).last_frame_hash == Some(spec_frame_hash(pixels@, width, height))
                ==> counted_as_repeat(*old(self), *final(self), outcome),
            old(self).last_frame_hash != Some(spec_frame_hash(pixels@, width, height)) ==> {
                let found = overlap_with_last(
                    old(self).frames@,
                    pixels@,
                    width,
                    height,
                    old(self).scroll_step_points,
                );
                &&& old(self).frames@.len() == 0 ==> outcome == CaptureOutcome::Added
                &&& old(self).frames@.len() > 0 && found is None ==> outcome
                    == CaptureOutcome::NoOverlap && final(self).frames@ == old(self).frames@
                    && final(self).last_frame_hash == old(self).last_frame_hash
                    && final(self).duplicate_frame_count == old(self).duplicate_frame_count
                    && final(self).estimated_height == old(self).estimated_height
                &&& old(self).frames@.len() > 0 && found is Some && found->0 >= height
                    ==> counted_as_repeat(*old(self), *final(self), outcome)
                &&& old(self).frames@.len() > 0 && found is Some && found->0 < height
                    ==> outcome == CaptureOutcome::Added
            },
    {
        let hash: u64 = frame_hash(pixels.as_slice(), width, height);
        if self.last_frame_hash == Some(hash) {
            return self.repeated();
        }
        let count: usize = self.frames.len();
        let overlap: usize = if count > 0 {
            let step: usize = if height > self.scroll_step_points {
                height - self.scroll_step_points
            } else {
                0
            };
            let expected: usize = if step < 1 { 1 } else { step };
            let previous = &self.frames[count - 1];
            assert(frame_fits(self.frames@[count - 1]));
            match find_overlap(previous, pixels.as_slice(), width, height, expected) {
                Some(found) => found,
                None => {
                    return CaptureOutcome::NoOverlap;
                },
            }
        } else {
            0
        };
        if count > 0 && overlap >= height {
            return self.repeated();
        }
        let added: usize = height - overlap;
        self.duplicate_frame_count = 0;
        self.last_frame_hash = Some(hash);
        if count == 0 {
            self.estimated_height = height;
        } else {
            self.estimated_height = if self.estimated_height > usize::MAX - added {
                usize::MAX
            } else {
                self.estimated_height + added
            };
        }
        self.frames.push(CapturedFrame { width, height, pixels, overlap });
        assert(self.frames@.drop_last() =~= old(self).frames@);
        CaptureOutcome::Added
    }
}


/// The button widths of the scrolling capture panel (Auto, Done, Cancel).
pub const PANEL_BUTTON_WIDTHS: [i32; 3] = [76, 76, 76];
/// The space between the capture area and the panel, at 96 DPI.
pub const PANEL_GAP: i32 = 16;

proof fn lemma_panel_widths_fit()
    ensures
        widths_fit(PANEL_BUTTON_WIDTHS@),
        spec_panel_width(PANEL_BUTTON_WIDTHS@) == 248,
{
    let widths = PANEL_BUTTON_WIDTHS@;
    assert(widths =~= seq![76i32, 76i32, 76i32]);
    reveal_with_fuel(widths_before, 4);
    assert(widths_before(widths, 0) == 0);
    assert(widths_before(widths, 1) == 76);
    assert(widths_before(widths, 2) == 152);
    assert(widths_before(widths, 3) == 228);
    assert forall|k: int| 0 <= k <= widths.len() implies {
        &&& i32::MIN <= #[trigger] widths_before(widths, k) <= i32::MAX
        &&& i32::MIN <= 6 + widths_before(widths, k) <= i32::MAX
        &&& i32::MIN <= 6 + widths_before(widths, k) + 4 * k <= i32::MAX
        &&& i32::MIN <= 2 * 6 + widths_before(widths, k) <= i32::MAX
    } by {
        if k == 0 {
        } else if k == 1 {
        } else if k == 2 {
        } else {
        }
    }
}

pub open spec fn truncated_half(value: int) -> int {
    if value >= 0 { value / 2 } else { -((-value) / 2) }
}

/// Where the panel goes for a capture area on a monitor: centred under the
/// area, kept on the monitor horizontally, and above the area when there is
/// no room below it.
pub open spec fn spec_panel_rect(bounds: CaptureBounds, monitor: Rect, dpi: u32) -> Rect {
    let width = spec_scale_for_dpi_trunc(248, dpi as int);
    let height = spec_scale_for_dpi_trunc(46, dpi as int);
    let gap = spec_scale_for_dpi_trunc(PANEL_GAP as int, dpi as int);
    let min_x = monitor.left as int;
    let max_x = if monitor.right - width > min_x { monitor.right - width } else { min_x };
    let centred = bounds.x + truncated_half(bounds.width - width);
    let x = if centred < min_x { min_x } else if centred > max_x { max_x } else { centred };
    let below = bounds.y + bounds.height + gap;
    let above = bounds.y - height - gap;
    let y = if below + height <= monitor.bottom {
        below
    } else if above > monitor.top {
        above
    } else {
        monitor.top as int
    };
    Rect { left: x as i32, top: y as i32, right: (x + width) as i32, bottom: (y + height) as i32 }
}

/// Every value the panel placement forms fits in `i32`.
pub open spec fn panel_placement_fits(bounds: CaptureBounds, monitor: Rect, dpi: u32) -> bool {
    let width = spec_scale_for_dpi_trunc(248, dpi as int);
    let height = spec_scale_for_dpi_trunc(46, dpi as int);
    let gap = spec_scale_for_dpi_trunc(PANEL_GAP as int, dpi as int);
    &&& width <= i32::MAX
    &&& height <= i32::MAX
    &&& gap <= i32::MAX
    &&& i32::MIN <= monitor.right - width
    &&& i32::MIN <= bounds.width - width <= i32::MAX
    &&& i32::MIN <= bounds.x + truncated_half(bounds.width - width) <= i32::MAX
    &&& bounds.y + bounds.height + gap + height <= i32::MAX
    &&& i32::MIN <= bounds.y + bounds.height
    &&& monitor.left + width <= i32::MAX
    &&& i32::MIN <= bounds.y - height - gap
    &&& monitor.right + height <= i32::MAX
    &&& monitor.bottom + height <= i32::MAX
    &&& monitor.top + height <= i32::MAX
}

/// Places the scrolling capture panel for a capture area on `monitor`.
pub fn panel_rect_in_monitor(bounds: CaptureBounds, monitor: Rect, dpi: u32) -> (rect: Rect)
    requires
        panel_placement_fits(bounds, monitor, dpi),
    ensures
        rect == spec_panel_rect(bounds, monitor, dpi),
{
    proof {
        lemma_panel_widths_fit();
    }
    let widths = PANEL_BUTTON_WIDTHS;
    assert(spec_scale_for_dpi_trunc(248, dpi as int) >= 0 && spec_scale_for_dpi_trunc(46, dpi as int)
        >= 0 && spec_scale_for_dpi_trunc(16, dpi as int) >= 0) by (nonlinear_arith);
    let width: i32 = scale_for_dpi(panel_width(&widths), dpi);
    let height: i32 = scale_for_dpi(panel_height(), dpi);
    let gap: i32 = scale_for_dpi(PANEL_GAP, dpi);
    let min_x: i32 = monitor.left;
    let max_x: i32 = if monitor.right - width > min_x { monitor.right - width } else { min_x };
    let centred: i32 = bounds.x + (bounds.width - width) / 2;
    let x: i32 = if centred < min_x {
        min_x
    } else if centred > max_x {
        max_x
    } else {
        centred
    };
    let below: i32 = bounds.y + bounds.height + gap;
    let y: i32 = if below + height <= monitor.bottom {
        below
    } else {
        let above: i32 = bounds.y - height - gap;
        if above > monitor.top {
            above
        } else {
            monitor.top
        }
    };
    Rect { left: x, top: y, right: x + width, bottom: y + height }
}


/// The automatic scrolling: how many wheel steps make one frame, and where it is.
pub struct AutoScroll {
    pub is_auto_scrolling: bool,
    pub scroll_steps_per_frame: usize,
    pub current_scroll_step: usize,
    pub capture_on_next_tick: bool,
}

impl AutoScroll {
    pub fn new(scroll_steps_per_frame: usize) -> (scroll: Self)
        ensures
            !scroll.is_auto_scrolling,
            scroll.scroll_steps_per_frame == scroll_steps_per_frame,
            scroll.current_scroll_step == 0,
            !scroll.capture_on_next_tick,
    {
        AutoScroll {
            is_auto_scrolling: false,
            scroll_steps_per_frame,
            current_scroll_step: 0,
            capture_on_next_tick: false,
        }
    }

    /// Stops scrolling and forgets the step count.
    pub fn stop(&mut self)
        ensures
            !final(self).is_auto_scrolling,
            final(self).current_scroll_step == 0,
            !final(self).capture_on_next_tick,
            final(self).scroll_steps_per_frame == old(self).scroll_steps_per_frame,
    {
        self.is_auto_scrolling = false;
        self.current_scroll_step = 0;
        self.capture_on_next_tick = false;
    }

    /// Counts a wheel step; once a frame's worth of steps is done, the next
    /// tick captures.
    pub fn step_taken(&mut self)
        requires
            old(self).current_scroll_step < usize::MAX,
        ensures
            final(self).is_auto_scrolling == old(self).is_auto_scrolling,
            final(self).scroll_steps_per_frame == old(self).scroll_steps_per_frame,
            old(self).current_scroll_step + 1 >= old(self).scroll_steps_per_frame ==> (final(self).current_scroll_step == 0 && final(self).capture_on_next_tick),
            old(self).current_scroll_step + 1 < old(self).scroll_steps_per_frame ==> (final(self).current_scroll_step == old(self).current_scroll_step + 1 && final(self).capture_on_next_tick == old(self).capture_on_next_tick),
    {
        self.current_scroll_step = self.current_scroll_step + 1;
        if self.current_scroll_step >= self.scroll_steps_per_frame {
            self.current_scroll_step = 0;
            self.capture_on_next_tick = true;
        }
    }
}

/// The stitched height grows by the new rows of each added frame.
pub proof fn lemma_stitched_height_of_added_frame(frames: Seq<CapturedFrame>, frame: CapturedFrame)
    ensures
        stitched_height(frames.push(frame)) == if frames.len() == 0 {
            frame.height as int
        } else {
            stitched_height(frames) + new_rows(frame)
        },
{
    assert(frames.push(frame).drop_last() =~= frames);
}

} // verus!

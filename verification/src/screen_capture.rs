use vstd::prelude::*;
use std::collections::VecDeque;
use crate::arith::{clamp, clamp_i64, round_div, saturating_add_i64, saturating_sub_i64, spec_round_div};
use crate::geometry::Rect;
use crate::recorder_types::{CaptureRect, RecorderError};

verus! {

/// What a `VideoTimeline` remembers, in 100 ns units of the capture clock.
pub ghost struct VideoTimelineView {
    pub frame_duration: int,
    pub first_source: Option<int>,
    pub last_source: int,
    pub pause_start: Option<int>,
    pub total_pause: int,
    pub last_written: Option<int>,
}

/// Maps capture timestamps onto the video timeline: the first frame is time
/// zero, paused source time is cut out, and frames closer than one frame
/// duration to the last written frame are dropped.
pub struct VideoTimeline {
    frame_duration: i64,
    first_source: Option<i64>,
    last_source: i64,
    pause_start: Option<i64>,
    total_pause: i64,
    last_written: Option<i64>,
}

pub open spec fn option_int(value: Option<i64>) -> Option<int> {
    match value {
        Some(v) => Some(v as int),
        None => None,
    }
}

impl View for VideoTimeline {
    type V = VideoTimelineView;

    closed spec fn view(&self) -> VideoTimelineView {
        VideoTimelineView {
            frame_duration: self.frame_duration as int,
            first_source: option_int(self.first_source),
            last_source: self.last_source as int,
            pause_start: option_int(self.pause_start),
            total_pause: self.total_pause as int,
            last_written: option_int(self.last_written),
        }
    }
}

/// The timeline value of `source` given the first source time and the total
/// pause, before frame pacing.
pub open spec fn timeline_position(source: int, first: int, total_pause: int) -> int {
    let position = clamp_i64(clamp_i64(source - first) - total_pause);
    if position < 0 { 0 } else { position }
}

impl VideoTimeline {
    pub closed spec fn well_formed(&self) -> bool {
        self.frame_duration >= 1
    }

    /// A timeline for video written at `frame_rate` frames per second.
    pub fn new(frame_rate: u32) -> (timeline: Self)
        requires
            frame_rate > 0,
        ensures
            timeline.well_formed(),
            timeline@.frame_duration == (if 10_000_000int / (frame_rate as int) < 1 {
                1
            } else {
                10_000_000int / (frame_rate as int)
            }),
            timeline@.first_source is None,
            timeline@.last_source == 0,
            timeline@.pause_start is None,
            timeline@.total_pause == 0,
            timeline@.last_written is None,
    {
        let duration: i64 = 10_000_000i64 / (frame_rate as i64);
        VideoTimeline {
            frame_duration: if duration < 1 { 1 } else { duration },
            first_source: None,
            last_source: 0,
            pause_start: None,
            total_pause: 0,
            last_written: None,
        }
    }

    /// Records the newest capture time without writing a frame.
    pub fn observe(&mut self, source_time: i64)
        ensures
            final(self)@ == (VideoTimelineView { last_source: source_time as int, ..old(self)@ }),
            final(self).well_formed() == old(self).well_formed(),
    {
        self.last_source = source_time;
    }

    /// Starts a pause at the newest capture time.
    pub fn pause(&mut self)
        ensures
            final(self)@ == (VideoTimelineView {
                pause_start: Some(old(self)@.last_source),
                ..old(self)@
            }),
            final(self).well_formed() == old(self).well_formed(),
    {
        self.pause_start = Some(self.last_source);
    }

    /// The timeline position of a frame captured at `source_time`, or `None` when
    /// it comes less than one frame after the last written frame. A pending
    /// pause ends here: the time since it started is added to the total pause.
    pub fn timestamp_for(&mut self, source_time: i64) -> (timestamp: Option<i64>)
        requires
            old(self).well_formed(),
        ensures
            final(self).well_formed(),
            ({
                let before = old(self)@;
                let after = final(self)@;
                let first = match before.first_source {
                    Some(first) => first,
                    None => source_time as int,
                };
                let total_pause = match before.pause_start {
                    Some(start) => clamp_i64(before.total_pause + clamp_i64(source_time - start)),
                    None => before.total_pause,
                };
                let position = timeline_position(source_time as int, first, total_pause);
                &&& after == VideoTimelineView {
                    first_source: Some(first),
                    last_source: source_time as int,
                    pause_start: None,
                    total_pause,
                    ..before
                }
                &&& timestamp == (match before.last_written {
                    Some(last) => if position <= last || clamp_i64(position - last)
                        < before.frame_duration {
                        None::<i64>
                    } else {
                        Some(position as i64)
                    },
                    None => Some(position as i64),
                })
            }),
            // Frames handed out are never earlier than time zero and always at
            // least one frame duration after the last written frame.
            timestamp matches Some(t) ==> t >= 0 && (old(self)@.last_written matches Some(last)
                ==> t >= last + old(self)@.frame_duration),
    {
        self.last_source = source_time;
        let first = match self.first_source {
            Some(first) => first,
            None => {
                self.first_source = Some(source_time);
                source_time
            },
        };
        if let Some(pause_start) = self.pause_start {
            self.total_pause = saturating_add_i64(
                self.total_pause,
                saturating_sub_i64(source_time, pause_start),
            );
            self.pause_start = None;
        }
        let shifted = saturating_sub_i64(saturating_sub_i64(source_time, first), self.total_pause);
        let timestamp: i64 = if shifted < 0 { 0 } else { shifted };
        if let Some(last) = self.last_written {
            if timestamp <= last || saturating_sub_i64(timestamp, last) < self.frame_duration {
                return None;
            }
        }
        Some(timestamp)
    }

    /// Remembers that a frame was written at `timestamp`.
    pub fn commit(&mut self, timestamp: i64)
        ensures
            final(self)@ == (VideoTimelineView {
                last_written: Some(timestamp as int),
                ..old(self)@
            }),
            final(self).well_formed() == old(self).well_formed(),
    {
        self.last_written = Some(timestamp);
    }

    pub fn frame_duration(&self) -> (duration: i64)
        ensures
            duration == self@.frame_duration,
    {
        self.frame_duration
    }

    pub fn source_time(&self) -> (time: i64)
        ensures
            time == self@.last_source,
    {
        self.last_source
    }

    /// Whether a pause waits for the next frame to end it.
    pub fn is_resuming(&self) -> (resuming: bool)
        ensures
            resuming == self@.pause_start is Some,
    {
        self.pause_start.is_some()
    }

    /// Length of the written video in 100 ns units: the last frame's position
    /// plus one frame duration, or zero before any frame.
    pub fn duration_hns(&self) -> (duration: i64)
        ensures
            duration == (match self@.last_written {
                Some(last) => clamp_i64(last + self@.frame_duration),
                None => 0,
            }),
    {
        match self.last_written {
            Some(last) => saturating_add_i64(last, self.frame_duration),
            None => 0,
        }
    }
}

/// What a `TextureSlotPool` holds: the free slots in the order they are handed
/// out, and for each slot whether the encoder still uses it.
pub ghost struct TextureSlotPoolView {
    pub available: Seq<usize>,
    pub in_flight: Seq<bool>,
}

/// A fixed set of encoder texture slots. A slot is handed out once and comes
/// back only when the encoder releases it.
pub struct TextureSlotPool {
    available: VecDeque<usize>,
    in_flight: Vec<bool>,
}

impl View for TextureSlotPool {
    type V = TextureSlotPoolView;

    closed spec fn view(&self) -> TextureSlotPoolView {
        TextureSlotPoolView { available: self.available@, in_flight: self.in_flight@ }
    }
}

/// The free slots are distinct, in range, and exactly the slots not in flight.
pub open spec fn pool_consistent(view: TextureSlotPoolView) -> bool {
    &&& forall|i: int, j: int|
        0 <= i < j < view.available.len() ==> view.available[i] != view.available[j]
    &&& forall|i: int| 0 <= i < view.available.len() ==> view.available[i] < view.in_flight.len()
    &&& forall|slot: int|
        0 <= slot < view.in_flight.len() ==> (view.available.contains(slot as usize)
            <==> !view.in_flight[slot])
}

impl TextureSlotPool {
    pub closed spec fn well_formed(&self) -> bool {
        pool_consistent(self@)
    }

    /// A pool of `count` free slots, handed out in ascending order.
    pub fn new(count: usize) -> (pool: Self)
        ensures
            pool.well_formed(),
            pool@.available == Seq::new(count as nat, |i: int| i as usize),
            pool@.in_flight == Seq::new(count as nat, |i: int| false),
    {
        let mut available: VecDeque<usize> = VecDeque::new();
        let mut in_flight: Vec<bool> = Vec::new();
        let mut slot: usize = 0;
        while slot < count
            invariant
                slot <= count,
                available@ == Seq::new(slot as nat, |i: int| i as usize),
                in_flight@ == Seq::new(slot as nat, |i: int| false),
            decreases count - slot,
        {
            available.push_back(slot);
            in_flight.push(false);
            slot = slot + 1;
            assert(available@ =~= Seq::new(slot as nat, |i: int| i as usize));
            assert(in_flight@ =~= Seq::new(slot as nat, |i: int| false));
        }
        let pool = TextureSlotPool { available, in_flight };
        assert forall|s: int| 0 <= s < pool@.in_flight.len() implies (pool@.available.contains(
            s as usize,
        ) <==> !pool@.in_flight[s]) by {
            assert(pool@.available[s] == s as usize);
        }
        pool
    }

    /// Takes the oldest free slot and marks it in flight.
    pub fn acquire(&mut self) -> (slot: Option<usize>)
        requires
            old(self).well_formed(),
        ensures
            final(self).well_formed(),
            old(self)@.available.len() == 0 ==> slot is None && final(self)@ == old(self)@,
            old(self)@.available.len() > 0 ==> {
                &&& slot == Some(old(self)@.available[0])
                &&& final(self)@.available == old(self)@.available.drop_first()
                &&& final(self)@.in_flight == old(self)@.in_flight.update(
                    old(self)@.available[0] as int,
                    true,
                )
            },
            // A slot that the encoder still uses is never handed out.
            slot matches Some(s) ==> s < old(self)@.in_flight.len() && !old(self)@.in_flight[s as int],
    {
        let ghost before = self@;
        match self.available.pop_front() {
            None => None,
            Some(slot) => {
                assert(before.available.contains(slot));
                self.in_flight.set(slot, true);
                assert(self@.in_flight.len() == self.in_flight.len());
                assert forall|s: int| 0 <= s < self@.in_flight.len() implies (self@.available.contains(
                    s as usize,
                ) <==> !self@.in_flight[s]) by {
                    if s == slot as int {
                        if self@.available.contains(slot) {
                            let k = choose|k: int|
                                0 <= k < self@.available.len() && self@.available[k] == slot;
                            assert(before.available[k + 1] == before.available[0]);
                        }
                    } else {
                        assert(s as usize as int == s);
                        assert(before.available[0] == slot);
                        if before.available.contains(s as usize) {
                            let k = choose|k: int|
                                0 <= k < before.available.len() && before.available[k] == s as usize;
                            assert(k != 0);
                            assert(self@.available[k - 1] == s as usize);
                        }
                        if self@.available.contains(s as usize) {
                            let k = choose|k: int|
                                0 <= k < self@.available.len() && self@.available[k] == s as usize;
                            assert(before.available[k + 1] == s as usize);
                        }
                    }
                }
                Some(slot)
            },
        }
    }

    /// Returns a slot that was in flight; `false`, with nothing changed, for a
    /// slot that is out of range or already free.
    pub fn release(&mut self, slot: usize) -> (released: bool)
        requires
            old(self).well_formed(),
        ensures
            final(self).well_formed(),
            released == (slot < old(self)@.in_flight.len() && old(self)@.in_flight[slot as int]),
            released ==> final(self)@.available == old(self)@.available.push(slot)
                && final(self)@.in_flight == old(self)@.in_flight.update(slot as int, false),
            !released ==> final(self)@ == old(self)@,
    {
        if slot >= self.in_flight.len() {
            return false;
        }
        if !self.in_flight[slot] {
            return false;
        }
        let ghost before = self@;
        self.in_flight.set(slot, false);
        self.available.push_back(slot);
        assert(!before.available.contains(slot));
        assert forall|s: int| 0 <= s < self@.in_flight.len() implies (self@.available.contains(
            s as usize,
        ) <==> !self@.in_flight[s]) by {
            assert(s as usize as int == s);
            assert(self@.in_flight[s] == (if s == slot as int { false } else { before.in_flight[s] }));
            assert(self@.available == before.available.push(slot));
            if s != slot as int {
                if before.available.contains(s as usize) {
                    let k = choose|k: int|
                        0 <= k < before.available.len() && before.available[k] == s as usize;
                    assert(self@.available[k] == s as usize);
                }
                if self@.available.contains(s as usize) {
                    let k = choose|k: int|
                        0 <= k < self@.available.len() && self@.available[k] == s as usize;
                    assert(k < before.available.len());
                    assert(before.available[k] == s as usize);
                }
            } else {
                assert(self@.available[self@.available.len() - 1] == slot);
            }
        }
        true
    }
}

/// The order in which published assets are rolled back: last published first.
pub fn rollback_order(count: usize) -> (order: Vec<usize>)
    ensures
        order@.len() == count,
        forall|i: int| 0 <= i < count ==> order@[i] == count - 1 - i,
{
    let mut order: Vec<usize> = Vec::new();
    let mut remaining: usize = count;
    while remaining > 0
        invariant
            remaining <= count,
            order@.len() == count - remaining,
            forall|i: int| 0 <= i < order@.len() ==> order@[i] == count - 1 - i,
        decreases remaining,
    {
        remaining = remaining - 1;
        order.push(remaining);
    }
    order
}

/// The source box that a frame is cropped to, in captured-surface pixels.
#[derive(Clone, Copy, Debug, PartialEq, Eq, Structural)]
pub struct CropBox {
    pub left: u32,
    pub top: u32,
    pub right: u32,
    pub bottom: u32,
}

/// How captured frames become video frames: the encoded size, the crop taken
/// from the captured surface, the screen area that cursor positions are read
/// against, and whether the frame is fitted (window capture) or cropped.
#[derive(Clone, Copy, Debug, PartialEq, Eq, Structural)]
pub struct CaptureLayout {
    pub width: u32,
    pub height: u32,
    pub crop: CropBox,
    pub tracker_bounds: CaptureRect,
    pub fitted: bool,
}

/// The largest even number that is at most `value`.
pub open spec fn even_floor(value: int) -> int {
    value - value % 2
}

fn even_floor_i64(value: i64) -> (even: i64)
    ensures
        even == even_floor(value as int),
{
    if value % 2 != 0 { value - 1 } else { value }
}

/// `offset * scale_numerator / scale_denominator` rounded to the nearest
/// integer (halves away from zero) and clamped into `i32`.
pub open spec fn scaled_coordinate(offset: int, content: int, monitor: int) -> int {
    clamp(spec_round_div(offset * content, monitor), i32::MIN as int, i32::MAX as int)
}

fn scale_coordinate(offset: i64, content: i32, monitor: i64) -> (scaled: i64)
    requires
        0 < monitor <= 0x1_0000_0000,
        content >= 2,
        -0x1_0000_0000 <= offset <= 0x1_0000_0000,
    ensures
        scaled == scaled_coordinate(offset as int, content as int, monitor as int),
{
    assert(-0x1_0000_0000 * 0x8000_0000 <= offset * content <= 0x1_0000_0000 * 0x8000_0000)
        by (nonlinear_arith)
        requires
            -0x1_0000_0000 <= offset <= 0x1_0000_0000,
            2 <= content <= 0x7fff_ffff,
    ;
    let rounded = round_div(offset as i128 * content as i128, monitor as i128);
    if rounded < i32::MIN as i128 {
        i32::MIN as i64
    } else if rounded > i32::MAX as i128 {
        i32::MAX as i64
    } else {
        rounded as i64
    }
}

/// The layout when recording a window: the whole captured surface, trimmed to
/// even dimensions, fitted into the video frame.
pub open spec fn window_layout(content_width: int, content_height: int) -> CaptureLayout {
    let width = even_floor(content_width);
    let height = even_floor(content_height);
    CaptureLayout {
        width: width as u32,
        height: height as u32,
        crop: CropBox { left: 0, top: 0, right: width as u32, bottom: height as u32 },
        tracker_bounds: CaptureRect { x: 0, y: 0, width: width as i32, height: height as i32 },
        fitted: true,
    }
}

/// The crop origin and size, in surface pixels, of the recorded part of a
/// display, with the screen area cursor positions are read against.
pub open spec fn display_region(
    monitor: Rect,
    requested_area: Option<CaptureRect>,
    content_width: int,
    content_height: int,
) -> (int, int, int, int, CaptureRect) {
    let monitor_width = monitor.right - monitor.left;
    let monitor_height = monitor.bottom - monitor.top;
    match requested_area {
        Some(area) => {
            let right = if i32::MIN <= area.x + area.width <= i32::MAX { area.x + area.width } else { area.x as int };
            let bottom = if i32::MIN <= area.y + area.height <= i32::MAX { area.y + area.height } else { area.y as int };
            let left = scaled_coordinate(area.x - monitor.left, content_width, monitor_width);
            let top = scaled_coordinate(area.y - monitor.top, content_height, monitor_height);
            let scaled_right = scaled_coordinate(right - monitor.left, content_width, monitor_width);
            let scaled_bottom = scaled_coordinate(bottom - monitor.top, content_height, monitor_height);
            (left, top, scaled_right - left, scaled_bottom - top, area)
        },
        None => (
            0,
            0,
            content_width,
            content_height,
            CaptureRect {
                x: monitor.left,
                y: monitor.top,
                width: monitor_width as i32,
                height: monitor_height as i32,
            },
        ),
    }
}

/// The crop of a requested area depends only on where the area lies relative
/// to its display: moving the display and the area by the same offset leaves
/// the crop unchanged.
pub proof fn lemma_display_region_moves_with_display(
    monitor: Rect,
    area: CaptureRect,
    moved_monitor: Rect,
    moved_area: CaptureRect,
    dx: int,
    dy: int,
    content_width: int,
    content_height: int,
)
    requires
        moved_monitor.left == monitor.left + dx,
        moved_monitor.right == monitor.right + dx,
        moved_monitor.top == monitor.top + dy,
        moved_monitor.bottom == monitor.bottom + dy,
        moved_area.x == area.x + dx,
        moved_area.y == area.y + dy,
        moved_area.width == area.width,
        moved_area.height == area.height,
        i32::MIN <= area.x + area.width <= i32::MAX,
        i32::MIN <= area.y + area.height <= i32::MAX,
        i32::MIN <= moved_area.x + moved_area.width <= i32::MAX,
        i32::MIN <= moved_area.y + moved_area.height <= i32::MAX,
    ensures
        ({
            let here = display_region(monitor, Some(area), content_width, content_height);
            let there = display_region(moved_monitor, Some(moved_area), content_width, content_height);
            here.0 == there.0 && here.1 == there.1 && here.2 == there.2 && here.3 == there.3
        }),
{
}

/// Recording a display's whole area, given as a requested area, crops the
/// whole captured surface.
pub proof fn lemma_whole_display_area_is_whole_surface(
    monitor: Rect,
    area: CaptureRect,
    content_width: int,
    content_height: int,
)
    requires
        area.x == monitor.left,
        area.y == monitor.top,
        area.x + area.width == monitor.right,
        area.y + area.height == monitor.bottom,
        monitor.right > monitor.left,
        monitor.bottom > monitor.top,
        0 <= content_width <= i32::MAX,
        0 <= content_height <= i32::MAX,
    ensures
        ({
            let region = display_region(monitor, Some(area), content_width, content_height);
            region.0 == 0 && region.1 == 0 && region.2 == content_width && region.3 == content_height
        }),
{
    let mw = monitor.right - monitor.left;
    let mh = monitor.bottom - monitor.top;
    assert((2 * (mw * content_width) + mw) / (2 * mw) == content_width) by (nonlinear_arith)
        requires
            mw > 0,
            content_width >= 0,
    {
        assert(2 * (mw * content_width) + mw == (2 * mw) * content_width + mw);
    }
    assert((2 * (mh * content_height) + mh) / (2 * mh) == content_height) by (nonlinear_arith)
        requires
            mh > 0,
            content_height >= 0,
    {
        assert(2 * (mh * content_height) + mh == (2 * mh) * content_height + mh);
    }
    assert(mw * content_width >= 0) by (nonlinear_arith)
        requires
            mw > 0,
            content_width >= 0,
    ;
    assert(mh * content_height >= 0) by (nonlinear_arith)
        requires
            mh > 0,
            content_height >= 0,
    ;
    assert(mw / (2 * mw) == 0) by (nonlinear_arith)
        requires
            mw > 0,
    ;
    assert(mh / (2 * mh) == 0) by (nonlinear_arith)
        requires
            mh > 0,
    ;
    assert(0 * content_width == 0);
    assert(0 * content_height == 0);
    assert(scaled_coordinate(0, content_width, mw) == 0);
    assert(scaled_coordinate(0, content_height, mh) == 0);
    assert(scaled_coordinate(mw, content_width, mw) == content_width);
    assert(scaled_coordinate(mh, content_height, mh) == content_height);
}

/// Whether the even-trimmed region lies inside the captured surface with at
/// least two pixels each way.
pub open spec fn region_fits(
    left: int,
    top: int,
    width: int,
    height: int,
    content_width: int,
    content_height: int,
) -> bool {
    &&& left >= 0
    &&& top >= 0
    &&& width >= 2
    &&& height >= 2
    &&& left + width <= content_width
    &&& top + height <= content_height
}

/// Works out how frames of a `content_width` x `content_height` captured
/// surface become video frames. A window capture keeps the whole surface; a
/// display capture crops the requested area (or the whole display), scaled from
/// screen pixels to surface pixels and rounded to the nearest pixel.
pub fn capture_layout(
    window_capture: bool,
    monitor: Rect,
    requested_area: Option<CaptureRect>,
    content_width: i32,
    content_height: i32,
) -> (layout: Result<CaptureLayout, RecorderError>)
    ensures
        (content_width < 2 || content_height < 2) ==> (layout matches Err(e) && e.code@
            == "CAPTURE_ERROR"@ && e.message@ == "Captured display has invalid dimensions"@),
        (content_width >= 2 && content_height >= 2 && window_capture) ==> layout == Ok::<
            CaptureLayout,
            RecorderError,
        >(window_layout(content_width as int, content_height as int)),
        (content_width >= 2 && content_height >= 2 && !window_capture && (monitor.right
            - monitor.left <= 0 || monitor.bottom - monitor.top <= 0)) ==> (layout matches Err(e)
            && e.code@ == "CONFIGURATION_ERROR"@ && e.message@
            == "Selected display has invalid bounds"@),
        (content_width >= 2 && content_height >= 2 && !window_capture && monitor.right
            - monitor.left > 0 && monitor.bottom - monitor.top > 0) ==> ({
            let region = display_region(
                monitor,
                requested_area,
                content_width as int,
                content_height as int,
            );
            let width = even_floor(region.2);
            let height = even_floor(region.3);
            if region_fits(region.0, region.1, width, height, content_width as int, content_height as int) {
                layout == Ok::<CaptureLayout, RecorderError>(CaptureLayout {
                    width: width as u32,
                    height: height as u32,
                    crop: CropBox {
                        left: region.0 as u32,
                        top: region.1 as u32,
                        right: (region.0 + width) as u32,
                        bottom: (region.1 + height) as u32,
                    },
                    tracker_bounds: region.4,
                    fitted: false,
                })
            } else {
                layout matches Err(e) && e.code@ == "CONFIGURATION_ERROR"@ && e.message@
                    == "The recording area is outside the captured display surface"@
            }
        }),
{
    if content_width < 2 || content_height < 2 {
        return Err(RecorderError::capture("Captured display has invalid dimensions"));
    }
    if window_capture {
        let width = even_floor_i64(content_width as i64);
        let height = even_floor_i64(content_height as i64);
        return Ok(CaptureLayout {
            width: width as u32,
            height: height as u32,
            crop: CropBox { left: 0, top: 0, right: width as u32, bottom: height as u32 },
            tracker_bounds: CaptureRect { x: 0, y: 0, width: width as i32, height: height as i32 },
            fitted: true,
        });
    }
    let monitor_width: i64 = monitor.right as i64 - monitor.left as i64;
    let monitor_height: i64 = monitor.bottom as i64 - monitor.top as i64;
    if monitor_width <= 0 || monitor_height <= 0 {
        return Err(RecorderError::configuration("Selected display has invalid bounds"));
    }
    let (left, top, requested_width, requested_height, tracker_bounds) = match requested_area {
        Some(area) => {
            let right: i64 = match area.right() {
                Some(edge) => edge as i64,
                None => area.x as i64,
            };
            let bottom: i64 = match area.bottom() {
                Some(edge) => edge as i64,
                None => area.y as i64,
            };
            let left = scale_coordinate(area.x as i64 - monitor.left as i64, content_width, monitor_width);
            let top = scale_coordinate(area.y as i64 - monitor.top as i64, content_height, monitor_height);
            let scaled_right = scale_coordinate(right - monitor.left as i64, content_width, monitor_width);
            let scaled_bottom = scale_coordinate(bottom - monitor.top as i64, content_height, monitor_height);
            (left, top, scaled_right - left, scaled_bottom - top, area)
        },
        None => (
            0i64,
            0i64,
            content_width as i64,
            content_height as i64,
            CaptureRect {
                x: monitor.left,
                y: monitor.top,
                width: monitor_width as i32,
                height: monitor_height as i32,
            },
        ),
    };
    let width = even_floor_i64(requested_width);
    let height = even_floor_i64(requested_height);
    if left < 0 || top < 0 || width < 2 || height < 2 || left + width > content_width as i64 || top
        + height > content_height as i64 {
        return Err(
            RecorderError::configuration("The recording area is outside the captured display surface"),
        );
    }
    Ok(CaptureLayout {
        width: width as u32,
        height: height as u32,
        crop: CropBox {
            left: left as u32,
            top: top as u32,
            right: (left + width) as u32,
            bottom: (top + height) as u32,
        },
        tracker_bounds,
        fitted: false,
    })
}

/// Whether `area` lies inside the display rectangle `rect`; an area whose right
/// or bottom edge overflows is never inside.
pub fn monitor_contains(rect: Rect, area: CaptureRect) -> (inside: bool)
    ensures
        inside == (area.x >= rect.left && area.y >= rect.top && i32::MIN <= area.x + area.width
            <= rect.right && i32::MIN <= area.y + area.height <= rect.bottom),
{
    if area.x < rect.left || area.y < rect.top {
        return false;
    }
    match (area.right(), area.bottom()) {
        (Some(right), Some(bottom)) => right <= rect.right && bottom <= rect.bottom,
        _ => false,
    }
}

/// Encoder bitrate: twelve bits per pixel and frame, kept between 50 and 200
/// Mbit/s.
pub fn video_bitrate(width: u32, height: u32, frame_rate: u32) -> (bitrate: u32)
    ensures
        bitrate == clamp(width * height * frame_rate * 12, 50_000_000, 200_000_000),
{
    assert(width * height <= 0xffff_ffff * 0xffff_ffff) by (nonlinear_arith)
        requires width <= 0xffff_ffff, height <= 0xffff_ffff;
    let pixels: u128 = width as u128 * height as u128;
    assert(pixels * frame_rate <= 0xffff_ffff * 0xffff_ffff * 0xffff_ffff) by (nonlinear_arith)
        requires pixels <= 0xffff_ffff * 0xffff_ffff, frame_rate <= 0xffff_ffff;
    let raw: u128 = pixels * frame_rate as u128 * 12;
    if raw < 50_000_000 {
        50_000_000
    } else if raw > 200_000_000 {
        200_000_000
    } else {
        raw as u32
    }
}

/// Packs a ratio into the 64-bit attribute layout: numerator in the high half.
pub fn pack_ratio(numerator: u32, denominator: u32) -> (packed: u64)
    ensures
        packed == numerator * 0x1_0000_0000 + denominator,
{
    numerator as u64 * 0x1_0000_0000u64 + denominator as u64
}

} // verus!

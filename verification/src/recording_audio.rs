//! The timing of the audio tracks of a recording: unit conversions, the
//! shared clock that removes paused time, and how a captured packet is cut
//! into the parts that are kept.
use vstd::prelude::*;
use crate::arith::{clamp, clamp_i64, saturating_add_i64, saturating_sub_i64};
use crate::text::{
    chars_of, contains_part, is_blank, same_text, spec_contains_part, spec_trim, to_lowercase,
    unicode_lowercase,
};
use crate::recorder_types::{RecorderError, StagedAsset};

verus! {

/// 100-nanosecond units per second, the unit of media timestamps.
pub const HNS_PER_SECOND: i64 = 10_000_000;
/// The sample rate of the encoded AAC tracks.
pub const AAC_SAMPLE_RATE: u32 = 48_000;
/// Silence is written in chunks of at most this many frames.
pub const SILENCE_CHUNK_FRAMES: u32 = 4_096;

/// Which audio track a capture feeds.
#[derive(Clone, Copy, Debug, PartialEq, Eq, Structural)]
pub enum AudioKind {
    System,
    Microphone,
}

impl AudioKind {
    pub open spec fn spec_label(self) -> Seq<char> {
        match self {
            AudioKind::System => "system audio"@,
            AudioKind::Microphone => "microphone"@,
        }
    }

    /// The name of the track in messages.
    pub fn label(self) -> (label: &'static str)
        ensures
            label@ == self.spec_label(),
    {
        match self {
            AudioKind::System => "system audio",
            AudioKind::Microphone => "microphone",
        }
    }
}

/// A microphone as the user picked it: by endpoint ID, by friendly name, or both.
#[derive(Clone, Default, Debug, PartialEq, Eq)]
pub struct AudioDevice {
    pub id: Option<String>,
    pub name: Option<String>,
}

/// One way of looking a microphone up.
#[derive(Clone, Copy, Debug, PartialEq, Eq)]
pub enum MicrophoneSelector<'a> {
    Id(&'a str),
    Name(&'a str),
}

pub open spec fn present(value: Option<&str>) -> bool {
    value matches Some(text) && spec_trim(text@).len() > 0
}

/// The lookups to try for a microphone, in order: by endpoint ID, then by
/// friendly name; a blank value gives no lookup. The values are kept as given.
pub fn microphone_selectors<'a>(
    device_id: Option<&'a str>,
    device_name: Option<&'a str>,
) -> (selectors: [Option<MicrophoneSelector<'a>>; 2])
    ensures
        selectors[0] == (if present(device_id) {
            Some(MicrophoneSelector::Id(device_id->0))
        } else {
            None
        }),
        selectors[1] == (if present(device_name) {
            Some(MicrophoneSelector::Name(device_name->0))
        } else {
            None
        }),
{
    let by_id = match device_id {
        Some(text) => if is_blank(text) {
            None
        } else {
            Some(MicrophoneSelector::Id(text))
        },
        None => None,
    };
    let by_name = match device_name {
        Some(text) => if is_blank(text) {
            None
        } else {
            Some(MicrophoneSelector::Name(text))
        },
        None => None,
    };
    [by_id, by_name]
}

/// The duration of `frames` frames at `sample_rate`, in 100 ns units, rounded
/// down (a zero rate counts as one).
pub open spec fn spec_frames_to_hns(frames: u32, sample_rate: u32) -> int {
    frames * HNS_PER_SECOND / (if sample_rate == 0 { 1 } else { sample_rate as int })
}

pub fn frames_to_hns(frames: u32, sample_rate: u32) -> (duration: i64)
    ensures
        duration == spec_frames_to_hns(frames, sample_rate),
        0 <= duration <= frames * HNS_PER_SECOND,
{
    let rate: i64 = if sample_rate == 0 { 1 } else { sample_rate as i64 };
    assert((frames as i64) * HNS_PER_SECOND <= 0xffff_ffff * 10_000_000) by (nonlinear_arith);
    let total: i64 = (frames as i64) * HNS_PER_SECOND;
    assert(total / rate <= total) by (nonlinear_arith)
        requires
            total >= 0,
            rate >= 1,
    ;
    total / rate
}

/// `duration * sample_rate`, saturating at `i64::MAX`, for a positive duration.
pub open spec fn scaled_duration(duration: int, sample_rate: int) -> int {
    if duration * sample_rate > i64::MAX {
        i64::MAX as int
    } else {
        duration * sample_rate
    }
}

/// The number of whole frames at `sample_rate` in `duration` (100 ns units),
/// rounded down and kept within `u32`.
pub open spec fn spec_hns_to_frames_floor(duration: i64, sample_rate: u32) -> int {
    if duration <= 0 {
        0
    } else {
        clamp(scaled_duration(duration as int, sample_rate as int) / HNS_PER_SECOND as int, 0, u32::MAX as int)
    }
}

/// As `spec_hns_to_frames_floor`, rounded up.
pub open spec fn spec_hns_to_frames_ceil(duration: i64, sample_rate: u32) -> int {
    if duration <= 0 {
        0
    } else {
        let numerator = scaled_duration(duration as int, sample_rate as int);
        let raised = if numerator + (HNS_PER_SECOND - 1) > i64::MAX {
            i64::MAX as int
        } else {
            numerator + (HNS_PER_SECOND - 1)
        };
        clamp(raised / HNS_PER_SECOND as int, 0, u32::MAX as int)
    }
}

fn scale_duration(duration: i64, sample_rate: u32) -> (scaled: i64)
    requires
        duration > 0,
    ensures
        scaled == scaled_duration(duration as int, sample_rate as int),
        scaled >= 0,
{
    match duration.checked_mul(sample_rate as i64) {
        Some(product) => {
            assert(product >= 0) by (nonlinear_arith)
                requires
                    product == duration * (sample_rate as i64),
                    duration > 0,
                    sample_rate >= 0,
            ;
            product
        },
        None => {
            assert(duration * sample_rate >= 0) by (nonlinear_arith)
                requires
                    duration > 0,
                    sample_rate >= 0,
            ;
            i64::MAX
        },
    }
}

pub fn hns_to_frames_floor(duration: i64, sample_rate: u32) -> (frames: u32)
    ensures
        frames == spec_hns_to_frames_floor(duration, sample_rate),
{
    if duration <= 0 {
        return 0;
    }
    let scaled: i64 = scale_duration(duration, sample_rate);
    let frames: i64 = scaled / HNS_PER_SECOND;
    if frames > u32::MAX as i64 {
        u32::MAX
    } else {
        frames as u32
    }
}

pub fn hns_to_frames_ceil(duration: i64, sample_rate: u32) -> (frames: u32)
    ensures
        frames == spec_hns_to_frames_ceil(duration, sample_rate),
{
    if duration <= 0 {
        return 0;
    }
    let scaled: i64 = scale_duration(duration, sample_rate);
    let raised: i64 = if scaled > i64::MAX - (HNS_PER_SECOND - 1) {
        i64::MAX
    } else {
        scaled + (HNS_PER_SECOND - 1)
    };
    let frames: i64 = raised / HNS_PER_SECOND;
    if frames > u32::MAX as i64 {
        u32::MAX
    } else {
        frames as u32
    }
}

/// The number of 48 kHz frames that `source_frames` frames at `source_rate`
/// become, rounded to the nearest frame and kept within `u32` (a zero rate
/// counts as one).
pub open spec fn spec_resampled_frame_count(source_frames: u32, source_rate: u32) -> int {
    let rate: int = if source_rate == 0 { 1 } else { source_rate as int };
    clamp((source_frames * AAC_SAMPLE_RATE + source_rate / 2) / rate, 0, u32::MAX as int)
}

pub fn resampled_frame_count(source_frames: u32, source_rate: u32) -> (frames: u32)
    ensures
        frames == spec_resampled_frame_count(source_frames, source_rate),
{
    assert((source_frames as u64) * (AAC_SAMPLE_RATE as u64) <= 0xffff_ffff * 48_000)
        by (nonlinear_arith);
    let numerator: u64 = (source_frames as u64) * (AAC_SAMPLE_RATE as u64) + (source_rate as u64)
        / 2;
    let rate: u64 = if source_rate == 0 { 1 } else { source_rate as u64 };
    let frames: u64 = numerator / rate;
    if frames > u32::MAX as u64 {
        u32::MAX
    } else {
        frames as u32
    }
}

/// Whether bit `bit` of `mask` is set.
pub open spec fn mask_bit(mask: u32, bit: int) -> bool {
    (mask >> (bit as u32)) & 1 == 1
}

/// How many bits of `mask` below `bit` are set.
pub open spec fn set_bits_below(mask: u32, bit: int) -> int
    decreases bit,
{
    if bit <= 0 {
        0
    } else {
        set_bits_below(mask, bit - 1) + (if mask_bit(mask, bit - 1) { 1int } else { 0int })
    }
}

/// The speaker position of interleaved channel `channel` under a channel mask:
/// the position of the `channel`-th set bit, counting from zero.
pub fn channel_speaker(mask: u32, channel: u32) -> (speaker: Option<u32>)
    ensures
        match speaker {
            Some(bit) => bit < 32 && mask_bit(mask, bit as int) && set_bits_below(mask, bit as int)
                == channel,
            None => set_bits_below(mask, 32) <= channel,
        },
{
    let mut index: u32 = 0;
    let mut bit: u32 = 0;
    while bit < 32
        invariant
            bit <= 32,
            index == set_bits_below(mask, bit as int),
            index <= channel,
            index <= bit,
        decreases 32 - bit,
    {
        if (mask >> bit) & 1 == 1 {
            if index == channel {
                return Some(bit);
            }
            index = index + 1;
        }
        bit = bit + 1;
    }
    None
}

/// The shared clock of the audio tracks: the source time of the first video
/// frame, the closed pauses and an open one.
pub struct AudioClockState {
    origin: Option<i64>,
    pauses: Vec<(i64, i64)>,
    pause_start: Option<i64>,
}

/// What an `AudioClockState` holds.
pub struct ClockView {
    pub origin: Option<i64>,
    pub pauses: Seq<(i64, i64)>,
    pub pause_start: Option<i64>,
}

impl View for AudioClockState {
    type V = ClockView;

    closed spec fn view(&self) -> ClockView {
        ClockView { origin: self.origin, pauses: self.pauses@, pause_start: self.pause_start }
    }
}

/// The part of a captured packet that is kept, and where it goes on the
/// output timeline.
#[derive(Clone, Copy, Debug, PartialEq, Eq, Structural)]
pub struct AudioSegment {
    pub first_frame: u32,
    pub frame_count: u32,
    pub timestamp: i64,
}

pub open spec fn min_int(a: int, b: int) -> int {
    if a < b { a } else { b }
}

pub open spec fn max_int(a: int, b: int) -> int {
    if a > b { a } else { b }
}

/// The paused time before `source_time` that counts against the timeline,
/// summed (saturating) over the closed pauses that began before it.
pub open spec fn paused_before(pauses: Seq<(i64, i64)>, source_time: i64, origin: i64) -> int
    decreases pauses.len(),
{
    if pauses.len() == 0 {
        0
    } else {
        let earlier = paused_before(pauses.drop_last(), source_time, origin);
        let pause = pauses.last();
        if pause.0 >= source_time {
            earlier
        } else {
            clamp_i64(
                earlier + clamp_i64(
                    min_int(pause.1 as int, source_time as int) - max_int(pause.0 as int, origin as int),
                ),
            )
        }
    }
}

/// Where `source_time` lands on the output timeline: its distance from the
/// origin less the paused time before it, never negative.
pub open spec fn spec_map_source(pauses: Seq<(i64, i64)>, source_time: i64, origin: i64) -> int {
    max_int(clamp_i64(clamp_i64(source_time - origin) - paused_before(pauses, source_time, origin)), 0)
}

/// `sorted` with `pause` inserted after every pause that does not start later.
pub open spec fn insert_by_start(sorted: Seq<(i64, i64)>, pause: (i64, i64)) -> Seq<(i64, i64)> {
    let at = starts_at_most(sorted, pause.0);
    sorted.take(at) + seq![pause] + sorted.skip(at)
}

/// How many of the pauses start no later than `key`.
pub open spec fn starts_at_most(pauses: Seq<(i64, i64)>, key: i64) -> int
    decreases pauses.len(),
{
    if pauses.len() == 0 {
        0
    } else {
        starts_at_most(pauses.drop_last(), key) + (if pauses.last().0 <= key { 1int } else { 0int })
    }
}

proof fn lemma_starts_at_most_bounded(pauses: Seq<(i64, i64)>, key: i64)
    ensures
        0 <= starts_at_most(pauses, key) <= pauses.len(),
    decreases pauses.len(),
{
    if pauses.len() > 0 {
        lemma_starts_at_most_bounded(pauses.drop_last(), key);
    }
}

/// The pauses ordered by start, pauses with equal starts in the order given.
pub open spec fn sort_by_start(pauses: Seq<(i64, i64)>) -> Seq<(i64, i64)>
    decreases pauses.len(),
{
    if pauses.len() == 0 {
        pauses
    } else {
        insert_by_start(sort_by_start(pauses.drop_last()), pauses.last())
    }
}

/// The sweep over pauses ordered by start that collects the unpaused ranges
/// between `cursor` and `end`: the ranges found, and where the sweep stopped.
pub open spec fn sweep(pauses: Seq<(i64, i64)>, cursor: i64, end: i64) -> (Seq<(i64, i64)>, i64)
    decreases pauses.len(),
{
    if pauses.len() == 0 {
        (Seq::empty(), cursor)
    } else {
        let pause = pauses[0];
        if pause.1 <= cursor {
            sweep(pauses.drop_first(), cursor, end)
        } else if pause.0 >= end {
            (Seq::empty(), cursor)
        } else {
            let found: Seq<(i64, i64)> = if pause.0 > cursor {
                seq![(cursor, if pause.0 < end { pause.0 } else { end })]
            } else {
                Seq::empty()
            };
            let next: i64 = if cursor > pause.1 { cursor } else { pause.1 };
            if next >= end {
                (found, next)
            } else {
                (found + sweep(pauses.drop_first(), next, end).0, sweep(
                    pauses.drop_first(),
                    next,
                    end,
                ).1)
            }
        }
    }
}

/// The pauses that hide audio: the closed ones and, while paused, the open
/// one up to the end of time.
pub open spec fn hiding_pauses(clock: ClockView) -> Seq<(i64, i64)> {
    match clock.pause_start {
        Some(start) => clock.pauses.push((start, i64::MAX)),
        None => clock.pauses,
    }
}

/// The unpaused source-time ranges of a packet between `cursor` and `end`.
pub open spec fn visible_ranges(clock: ClockView, cursor: i64, end: i64) -> Seq<(i64, i64)> {
    let swept = sweep(sort_by_start(hiding_pauses(clock)), cursor, end);
    if swept.1 < end {
        swept.0.push((swept.1, end))
    } else {
        swept.0
    }
}

/// The segment a visible range becomes: the whole frames inside it and its
/// place on the output timeline; none when no whole frame fits.
pub open spec fn range_segment(
    clock: ClockView,
    origin: i64,
    packet_start: i64,
    frame_count: u32,
    sample_rate: u32,
    range: (i64, i64),
) -> Option<AudioSegment> {
    let first = min_int(
        spec_hns_to_frames_ceil(clamp_i64(range.0 - packet_start) as i64, sample_rate),
        frame_count as int,
    );
    let last = min_int(
        spec_hns_to_frames_floor(clamp_i64(range.1 - packet_start) as i64, sample_rate),
        frame_count as int,
    );
    if last <= first {
        None
    } else {
        Some(
            AudioSegment {
                first_frame: first as u32,
                frame_count: (last - first) as u32,
                timestamp: spec_map_source(
                    clock.pauses,
                    clamp_i64(packet_start + spec_frames_to_hns(first as u32, sample_rate)) as i64,
                    origin,
                ) as i64,
            },
        )
    }
}

pub open spec fn range_segments(
    clock: ClockView,
    origin: i64,
    packet_start: i64,
    frame_count: u32,
    sample_rate: u32,
    ranges: Seq<(i64, i64)>,
) -> Seq<AudioSegment>
    decreases ranges.len(),
{
    if ranges.len() == 0 {
        Seq::empty()
    } else {
        let earlier = range_segments(
            clock,
            origin,
            packet_start,
            frame_count,
            sample_rate,
            ranges.drop_last(),
        );
        match range_segment(clock, origin, packet_start, frame_count, sample_rate, ranges.last()) {
            Some(segment) => earlier.push(segment),
            None => earlier,
        }
    }
}

/// The parts of a packet of `frame_count` frames captured from `packet_start`
/// that are kept: nothing before the first video frame; of the rest, the
/// ranges outside every pause, each trimmed to whole frames and placed on the
/// timeline without the paused time.
pub open spec fn spec_visible_segments(
    clock: ClockView,
    packet_start: i64,
    frame_count: u32,
    sample_rate: u32,
) -> Seq<AudioSegment> {
    match clock.origin {
        None => Seq::empty(),
        Some(origin) => {
            let packet_end = clamp_i64(packet_start + spec_frames_to_hns(frame_count, sample_rate));
            if packet_end <= origin {
                Seq::empty()
            } else {
                let cursor: i64 = if packet_start > origin { packet_start } else { origin };
                range_segments(
                    clock,
                    origin,
                    packet_start,
                    frame_count,
                    sample_rate,
                    visible_ranges(clock, cursor, packet_end as i64),
                )
            }
        },
    }
}

fn insert_pause(sorted: &Vec<(i64, i64)>, pause: (i64, i64)) -> (inserted: Vec<(i64, i64)>)
    ensures
        inserted@ == insert_by_start(sorted@, pause),
{
    let mut at: usize = 0;
    let mut index: usize = 0;
    while index < sorted.len()
        invariant
            index <= sorted@.len(),
            at == starts_at_most(sorted@.take(index as int), pause.0),
            at <= index,
        decreases sorted@.len() - index,
    {
        assert(sorted@.take(index + 1).drop_last() =~= sorted@.take(index as int));
        if sorted[index].0 <= pause.0 {
            at = at + 1;
        }
        index = index + 1;
    }
    assert(sorted@.take(sorted@.len() as int) =~= sorted@);
    let mut inserted: Vec<(i64, i64)> = Vec::new();
    let mut copied: usize = 0;
    while copied < at
        invariant
            at <= sorted@.len(),
            copied <= at,
            inserted@ == sorted@.take(copied as int),
        decreases at - copied,
    {
        inserted.push(sorted[copied]);
        copied = copied + 1;
        assert(inserted@ =~= sorted@.take(copied as int));
    }
    inserted.push(pause);
    let ghost head = inserted@;
    while copied < sorted.len()
        invariant
            at <= copied <= sorted@.len(),
            head == sorted@.take(at as int) + seq![pause],
            inserted@ == head + sorted@.subrange(at as int, copied as int),
        decreases sorted@.len() - copied,
    {
        inserted.push(sorted[copied]);
        copied = copied + 1;
        assert(inserted@ =~= head + sorted@.subrange(at as int, copied as int));
    }
    assert(sorted@.subrange(at as int, sorted@.len() as int) =~= sorted@.skip(at as int));
    inserted
}

fn sort_pauses(pauses: &Vec<(i64, i64)>) -> (sorted: Vec<(i64, i64)>)
    ensures
        sorted@ == sort_by_start(pauses@),
{
    let mut sorted: Vec<(i64, i64)> = Vec::new();
    let mut index: usize = 0;
    assert(pauses@.take(0) =~= Seq::<(i64, i64)>::empty());
    while index < pauses.len()
        invariant
            index <= pauses@.len(),
            sorted@ == sort_by_start(pauses@.take(index as int)),
        decreases pauses@.len() - index,
    {
        assert(pauses@.take(index + 1).drop_last() =~= pauses@.take(index as int));
        sorted = insert_pause(&sorted, pauses[index]);
        index = index + 1;
    }
    assert(pauses@.take(pauses@.len() as int) =~= pauses@);
    sorted
}

fn sweep_pauses(sorted: &Vec<(i64, i64)>, start: i64, end: i64) -> (swept: (Vec<(i64, i64)>, i64))
    ensures
        swept.0@ == sweep(sorted@, start, end).0,
        swept.1 == sweep(sorted@, start, end).1,
{
    let ghost total = sweep(sorted@, start, end);
    let mut ranges: Vec<(i64, i64)> = Vec::new();
    let mut cursor: i64 = start;
    let mut index: usize = 0;
    assert(sorted@.skip(0) =~= sorted@);
    while index < sorted.len()
        invariant_except_break
            ranges@ + sweep(sorted@.skip(index as int), cursor, end).0 == total.0,
            sweep(sorted@.skip(index as int), cursor, end).1 == total.1,
        invariant
            index <= sorted@.len(),
            total == sweep(sorted@, start, end),
        ensures
            ranges@ == total.0,
            cursor == total.1,
        decreases sorted@.len() - index,
    {
        let ghost rest = sorted@.skip(index as int);
        assert(rest.drop_first() =~= sorted@.skip(index + 1));
        let (pause_start, pause_end) = sorted[index];
        if pause_end <= cursor {
            index = index + 1;
            continue;
        }
        if pause_start >= end {
            assert(ranges@ + Seq::<(i64, i64)>::empty() =~= ranges@);
            break;
        }
        if pause_start > cursor {
            let until: i64 = if pause_start < end { pause_start } else { end };
            ranges.push((cursor, until));
        }
        let next: i64 = if cursor > pause_end { cursor } else { pause_end };
        cursor = next;
        index = index + 1;
        if cursor >= end {
            assert(ranges@ + Seq::<(i64, i64)>::empty() =~= ranges@);
            break;
        }
    }
    if index == sorted.len() {
        assert(sorted@.skip(index as int) =~= Seq::<(i64, i64)>::empty());
    }
    (ranges, cursor)
}

proof fn lemma_range_segments_inside(
    clock: ClockView,
    origin: i64,
    packet_start: i64,
    frame_count: u32,
    sample_rate: u32,
    ranges: Seq<(i64, i64)>,
)
    ensures
        forall|k: int|
            0 <= k < range_segments(clock, origin, packet_start, frame_count, sample_rate, ranges).len()
                ==> {
                let segment = #[trigger] range_segments(
                    clock,
                    origin,
                    packet_start,
                    frame_count,
                    sample_rate,
                    ranges,
                )[k];
                segment.frame_count > 0 && segment.first_frame + segment.frame_count <= frame_count
                    && segment.timestamp >= 0
            },
    decreases ranges.len(),
{
    if ranges.len() > 0 {
        lemma_range_segments_inside(
            clock,
            origin,
            packet_start,
            frame_count,
            sample_rate,
            ranges.drop_last(),
        );
        let earlier = range_segments(
            clock,
            origin,
            packet_start,
            frame_count,
            sample_rate,
            ranges.drop_last(),
        );
        let all = range_segments(clock, origin, packet_start, frame_count, sample_rate, ranges);
        let range = ranges.last();
        match range_segment(clock, origin, packet_start, frame_count, sample_rate, range) {
            Some(segment) => {
                let first = min_int(
                    spec_hns_to_frames_ceil(clamp_i64(range.0 - packet_start) as i64, sample_rate),
                    frame_count as int,
                );
                let last = min_int(
                    spec_hns_to_frames_floor(clamp_i64(range.1 - packet_start) as i64, sample_rate),
                    frame_count as int,
                );
                assert(0 <= first < last <= frame_count);
                let mapped = spec_map_source(
                    clock.pauses,
                    clamp_i64(packet_start + spec_frames_to_hns(first as u32, sample_rate)) as i64,
                    origin,
                );
                assert(0 <= mapped <= i64::MAX);
                assert(segment.first_frame == first);
                assert(segment.frame_count == last - first);
                assert(segment.timestamp == mapped);
                assert(all == earlier.push(segment));
            },
            None => {
                assert(all == earlier);
            },
        }
    }
}

/// Every kept part of a packet lies inside the packet, holds at least one
/// frame, and lands at a non-negative time.
pub proof fn lemma_segments_inside_packet(
    clock: ClockView,
    packet_start: i64,
    frame_count: u32,
    sample_rate: u32,
)
    ensures
        forall|k: int|
            0 <= k < spec_visible_segments(clock, packet_start, frame_count, sample_rate).len()
                ==> {
                let segment = #[trigger] spec_visible_segments(
                    clock,
                    packet_start,
                    frame_count,
                    sample_rate,
                )[k];
                segment.frame_count > 0 && segment.first_frame + segment.frame_count <= frame_count
                    && segment.timestamp >= 0
            },
{
    match clock.origin {
        None => {},
        Some(origin) => {
            let packet_end = clamp_i64(packet_start + spec_frames_to_hns(frame_count, sample_rate));
            if packet_end > origin {
                let cursor: i64 = if packet_start > origin { packet_start } else { origin };
                lemma_range_segments_inside(
                    clock,
                    origin,
                    packet_start,
                    frame_count,
                    sample_rate,
                    visible_ranges(clock, cursor, packet_end as i64),
                );
            }
        },
    }
}

/// Every pause ends no earlier than it starts.
pub open spec fn pauses_forward(pauses: Seq<(i64, i64)>) -> bool {
    forall|i: int| 0 <= i < pauses.len() ==> (#[trigger] pauses[i]).0 <= pauses[i].1
}

/// Each range ends no later than any later range starts.
pub open spec fn ranges_in_order(ranges: Seq<(i64, i64)>) -> bool {
    forall|i: int, j: int| 0 <= i < j < ranges.len() ==> (#[trigger] ranges[i]).1 <= (#[trigger] ranges[j]).0
}

proof fn lemma_sort_keeps_forward(pauses: Seq<(i64, i64)>)
    requires
        pauses_forward(pauses),
    ensures
        pauses_forward(sort_by_start(pauses)),
    decreases pauses.len(),
{
    if pauses.len() > 0 {
        let rest = sort_by_start(pauses.drop_last());
        lemma_sort_keeps_forward(pauses.drop_last());
        let pause = pauses.last();
        let at = starts_at_most(rest, pause.0);
        lemma_starts_at_most_bounded(rest, pause.0);
        let sorted = sort_by_start(pauses);
        assert(sorted == rest.take(at) + seq![pause] + rest.skip(at));
        assert forall|i: int| 0 <= i < sorted.len() implies (#[trigger] sorted[i]).0 <= sorted[i].1 by {
            if i < at {
                assert(sorted[i] == rest[i]);
            } else if i == at {
                assert(sorted[i] == pause);
            } else {
                assert(sorted[i] == rest[i - 1]);
            }
        }
    }
}

proof fn lemma_sweep_in_order(pauses: Seq<(i64, i64)>, cursor: i64, end: i64)
    requires
        pauses_forward(pauses),
    ensures
        sweep(pauses, cursor, end).1 >= cursor,
        ranges_in_order(sweep(pauses, cursor, end).0),
        forall|i: int| 0 <= i < sweep(pauses, cursor, end).0.len() ==> cursor <= (#[trigger] sweep(
            pauses,
            cursor,
            end,
        ).0[i]).0 && sweep(pauses, cursor, end).0[i].1 <= sweep(pauses, cursor, end).1,
    decreases pauses.len(),
{
    if pauses.len() > 0 {
        let pause = pauses[0];
        let rest = pauses.drop_first();
        assert(pauses_forward(rest)) by {
            assert forall|i: int| 0 <= i < rest.len() implies (#[trigger] rest[i]).0 <= rest[i].1 by {
                assert(rest[i] == pauses[i + 1]);
            }
        }
        assert(pause.0 <= pause.1);
        if pause.1 <= cursor {
            lemma_sweep_in_order(rest, cursor, end);
        } else if pause.0 >= end {
        } else {
            let next: i64 = if cursor > pause.1 { cursor } else { pause.1 };
            if next < end {
                lemma_sweep_in_order(rest, next, end);
            }
        }
    }
}

/// The unpaused ranges of a packet come in time order, one after another.
proof fn lemma_visible_ranges_in_order(clock: ClockView, cursor: i64, end: i64)
    requires
        pauses_forward(clock.pauses),
    ensures
        ranges_in_order(visible_ranges(clock, cursor, end)),
{
    let hiding = hiding_pauses(clock);
    assert(pauses_forward(hiding)) by {
        assert forall|i: int| 0 <= i < hiding.len() implies (#[trigger] hiding[i]).0 <= hiding[i].1 by {
            if i < clock.pauses.len() {
                assert(hiding[i] == clock.pauses[i]);
            }
        }
    }
    lemma_sort_keeps_forward(hiding);
    lemma_sweep_in_order(sort_by_start(hiding), cursor, end);
}

proof fn lemma_frames_floor_monotone(shorter: i64, longer: i64, sample_rate: u32)
    requires
        shorter <= longer,
    ensures
        spec_hns_to_frames_floor(shorter, sample_rate) <= spec_hns_to_frames_floor(longer, sample_rate),
        spec_hns_to_frames_floor(longer, sample_rate) <= spec_hns_to_frames_ceil(longer, sample_rate),
{
    let rate = sample_rate as int;
    if shorter > 0 {
        assert(shorter as int * rate <= longer as int * rate) by (nonlinear_arith)
            requires
                0 < shorter <= longer,
                rate >= 0,
        ;
        let a = scaled_duration(shorter as int, rate);
        let b = scaled_duration(longer as int, rate);
        assert(a <= b);
        assert(a / 10_000_000 <= b / 10_000_000) by (nonlinear_arith)
            requires
                0 <= a <= b,
        ;
    }
    if longer > 0 {
        let n = scaled_duration(longer as int, rate);
        assert(0 <= n <= i64::MAX) by (nonlinear_arith)
            requires
                longer > 0,
                rate >= 0,
                n == (if longer * rate > i64::MAX { i64::MAX as int } else { longer * rate }),
        ;
        let raised = if n + (HNS_PER_SECOND - 1) > i64::MAX { i64::MAX as int } else { n + (
        HNS_PER_SECOND - 1) };
        assert(n / 10_000_000 <= raised / 10_000_000) by (nonlinear_arith)
            requires
                0 <= n <= raised,
        ;
    }
}

proof fn lemma_range_segments_end_by(
    clock: ClockView,
    origin: i64,
    packet_start: i64,
    frame_count: u32,
    sample_rate: u32,
    ranges: Seq<(i64, i64)>,
    bound: i64,
)
    requires
        forall|i: int| 0 <= i < ranges.len() ==> (#[trigger] ranges[i]).1 <= bound,
    ensures
        forall|k: int|
            0 <= k < range_segments(clock, origin, packet_start, frame_count, sample_rate, ranges).len()
                ==> #[trigger] range_segments(
                clock,
                origin,
                packet_start,
                frame_count,
                sample_rate,
                ranges,
            )[k].first_frame + range_segments(
                clock,
                origin,
                packet_start,
                frame_count,
                sample_rate,
                ranges,
            )[k].frame_count <= min_int(
                spec_hns_to_frames_floor(clamp_i64(bound - packet_start) as i64, sample_rate),
                frame_count as int,
            ),
    decreases ranges.len(),
{
    if ranges.len() > 0 {
        let rest = ranges.drop_last();
        assert forall|i: int| 0 <= i < rest.len() implies (#[trigger] rest[i]).1 <= bound by {
            assert(rest[i] == ranges[i]);
        }
        lemma_range_segments_end_by(clock, origin, packet_start, frame_count, sample_rate, rest, bound);
        let range = ranges.last();
        assert(range.1 <= bound);
        lemma_frames_floor_monotone(
            clamp_i64(range.1 - packet_start) as i64,
            clamp_i64(bound - packet_start) as i64,
            sample_rate,
        );
        let earlier = range_segments(clock, origin, packet_start, frame_count, sample_rate, rest);
        let all = range_segments(clock, origin, packet_start, frame_count, sample_rate, ranges);
        let limit = min_int(
            spec_hns_to_frames_floor(clamp_i64(bound - packet_start) as i64, sample_rate),
            frame_count as int,
        );
        match range_segment(clock, origin, packet_start, frame_count, sample_rate, range) {
            Some(segment) => {
                assert(all == earlier.push(segment));
                let first = min_int(
                    spec_hns_to_frames_ceil(clamp_i64(range.0 - packet_start) as i64, sample_rate),
                    frame_count as int,
                );
                let last = min_int(
                    spec_hns_to_frames_floor(clamp_i64(range.1 - packet_start) as i64, sample_rate),
                    frame_count as int,
                );
                assert(0 <= first < last <= frame_count);
                assert(segment.first_frame + segment.frame_count == last);
                assert(last <= limit);
                assert forall|k: int| 0 <= k < all.len() implies #[trigger] all[k].first_frame
                    + all[k].frame_count <= limit by {
                    if k < earlier.len() {
                        assert(all[k] == earlier[k]);
                    }
                }
            },
            None => {
                assert(all == earlier);
            },
        }
    }
}

proof fn lemma_range_segments_in_frame_order(
    clock: ClockView,
    origin: i64,
    packet_start: i64,
    frame_count: u32,
    sample_rate: u32,
    ranges: Seq<(i64, i64)>,
)
    requires
        ranges_in_order(ranges),
    ensures
        forall|i: int, j: int|
            0 <= i < j < range_segments(clock, origin, packet_start, frame_count, sample_rate, ranges).len()
                ==> (#[trigger] range_segments(
                clock,
                origin,
                packet_start,
                frame_count,
                sample_rate,
                ranges,
            )[i]).first_frame + range_segments(
                clock,
                origin,
                packet_start,
                frame_count,
                sample_rate,
                ranges,
            )[i].frame_count <= (#[trigger] range_segments(
                clock,
                origin,
                packet_start,
                frame_count,
                sample_rate,
                ranges,
            )[j]).first_frame,
    decreases ranges.len(),
{
    if ranges.len() > 0 {
        let rest = ranges.drop_last();
        let range = ranges.last();
        assert(ranges_in_order(rest)) by {
            assert forall|i: int, j: int| 0 <= i < j < rest.len() implies (#[trigger] rest[i]).1 <= (
            #[trigger] rest[j]).0 by {
                assert(rest[i] == ranges[i] && rest[j] == ranges[j]);
            }
        }
        lemma_range_segments_in_frame_order(clock, origin, packet_start, frame_count, sample_rate, rest);
        assert forall|i: int| 0 <= i < rest.len() implies (#[trigger] rest[i]).1 <= range.0 by {
            assert(rest[i] == ranges[i]);
        }
        lemma_range_segments_end_by(clock, origin, packet_start, frame_count, sample_rate, rest, range.0);
        lemma_frames_floor_monotone(
            clamp_i64(range.0 - packet_start) as i64,
            clamp_i64(range.0 - packet_start) as i64,
            sample_rate,
        );
        let earlier = range_segments(clock, origin, packet_start, frame_count, sample_rate, rest);
        let all = range_segments(clock, origin, packet_start, frame_count, sample_rate, ranges);
        match range_segment(clock, origin, packet_start, frame_count, sample_rate, range) {
            Some(segment) => {
                assert(all == earlier.push(segment));
                let first = min_int(
                    spec_hns_to_frames_ceil(clamp_i64(range.0 - packet_start) as i64, sample_rate),
                    frame_count as int,
                );
                assert(0 <= first <= u32::MAX);
                assert(segment.first_frame == first);
                assert forall|i: int, j: int| 0 <= i < j < all.len() implies (#[trigger] all[i]).first_frame
                    + all[i].frame_count <= (#[trigger] all[j]).first_frame by {
                    if j < earlier.len() {
                        assert(all[i] == earlier[i] && all[j] == earlier[j]);
                    } else {
                        assert(all[i] == earlier[i]);
                        assert(all[j] == segment);
                    }
                }
            },
            None => {
                assert(all == earlier);
            },
        }
    }
}

/// The kept parts of a packet come in frame order and never overlap, as long
/// as every recorded pause ends no earlier than it starts.
pub proof fn lemma_segments_in_frame_order(
    clock: ClockView,
    packet_start: i64,
    frame_count: u32,
    sample_rate: u32,
)
    requires
        pauses_forward(clock.pauses),
    ensures
        forall|i: int, j: int|
            0 <= i < j < spec_visible_segments(clock, packet_start, frame_count, sample_rate).len()
                ==> (#[trigger] spec_visible_segments(clock, packet_start, frame_count, sample_rate)[i]).first_frame
                + spec_visible_segments(clock, packet_start, frame_count, sample_rate)[i].frame_count
                <= (#[trigger] spec_visible_segments(
                clock,
                packet_start,
                frame_count,
                sample_rate,
            )[j]).first_frame,
{
    match clock.origin {
        None => {},
        Some(origin) => {
            let packet_end = clamp_i64(packet_start + spec_frames_to_hns(frame_count, sample_rate));
            if packet_end > origin {
                let cursor: i64 = if packet_start > origin { packet_start } else { origin };
                lemma_visible_ranges_in_order(clock, cursor, packet_end as i64);
                lemma_range_segments_in_frame_order(
                    clock,
                    origin,
                    packet_start,
                    frame_count,
                    sample_rate,
                    visible_ranges(clock, cursor, packet_end as i64),
                );
            }
        },
    }
}

/// The summed lengths of the pauses.
pub open spec fn total_pause_length(pauses: Seq<(i64, i64)>) -> int
    decreases pauses.len(),
{
    if pauses.len() == 0 {
        0
    } else {
        total_pause_length(pauses.drop_last()) + (pauses.last().1 - pauses.last().0)
    }
}

/// Every pause that lies between the origin and a source time is taken off
/// in full: the time maps to its distance from the origin less the summed
/// lengths of all those pauses (as long as they add up to no more than that
/// distance, which pauses that do not overlap always do).
pub proof fn lemma_map_removes_every_pause(pauses: Seq<(i64, i64)>, source_time: i64, origin: i64)
    requires
        origin <= source_time,
        source_time - origin <= i64::MAX,
        forall|i: int|
            0 <= i < pauses.len() ==> origin <= (#[trigger] pauses[i]).0 <= pauses[i].1 <= source_time,
        total_pause_length(pauses) <= source_time - origin,
    ensures
        paused_before(pauses, source_time, origin) == total_pause_length(pauses),
        spec_map_source(pauses, source_time, origin) == source_time - origin - total_pause_length(
            pauses,
        ),
    decreases pauses.len(),
{
    if pauses.len() > 0 {
        let rest = pauses.drop_last();
        assert forall|i: int| 0 <= i < rest.len() implies origin <= (#[trigger] rest[i]).0 <= rest[i].1
            <= source_time by {
            assert(rest[i] == pauses[i]);
        }
        let pause = pauses.last();
        assert(pause == pauses[pauses.len() - 1]);
        assert(origin <= pause.0 <= pause.1 <= source_time);
        assert(total_pause_length(pauses) == total_pause_length(rest) + (pause.1 - pause.0));
        lemma_map_removes_every_pause(rest, source_time, origin);
        assert(min_int(pause.1 as int, source_time as int) - max_int(pause.0 as int, origin as int)
            == pause.1 - pause.0);
    } else {
        assert(total_pause_length(pauses) == 0);
    }
}

/// A pause that begins at or after a source time does not move it.
pub proof fn lemma_later_pause_leaves_time(
    pauses: Seq<(i64, i64)>,
    pause: (i64, i64),
    source_time: i64,
    origin: i64,
)
    requires
        pause.0 >= source_time,
    ensures
        spec_map_source(pauses.push(pause), source_time, origin) == spec_map_source(
            pauses,
            source_time,
            origin,
        ),
{
    assert(pauses.push(pause).drop_last() =~= pauses);
    assert(pauses.push(pause).last() == pause);
    assert(paused_before(pauses.push(pause), source_time, origin) == paused_before(
        pauses,
        source_time,
        origin,
    ));
}

/// Without pauses, a source time maps to its distance from the origin.
pub proof fn lemma_map_without_pauses(source_time: i64, origin: i64)
    ensures
        spec_map_source(Seq::empty(), source_time, origin) == max_int(
            clamp_i64(source_time - origin),
            0,
        ),
{
}

/// A time inside a closed pause that began after the origin maps to the
/// moment the pause began: paused time does not advance the timeline.
pub proof fn lemma_paused_time_stands_still(start: i64, end: i64, origin: i64, source_time: i64)
    requires
        origin <= start <= source_time <= end,
        end - origin <= i64::MAX,
    ensures
        spec_map_source(seq![(start, end)], source_time, origin) == spec_map_source(
            Seq::empty(),
            start,
            origin,
        ),
{
    let pauses = seq![(start, end)];
    assert(pauses.drop_last() =~= Seq::<(i64, i64)>::empty());
    assert(paused_before(Seq::<(i64, i64)>::empty(), source_time, origin) == 0);
    assert(paused_before(Seq::<(i64, i64)>::empty(), start, origin) == 0);
    assert(pauses.last() == (start, end));
}

impl AudioClockState {
    /// Every closed pause ends no earlier than it starts.
    #[verifier::type_invariant]
    spec fn pauses_run_forward(self) -> bool {
        pauses_forward(self.pauses@)
    }

    pub fn new() -> (clock: Self)
        ensures
            clock@.origin is None,
            clock@.pauses.len() == 0,
            clock@.pause_start is None,
    {
        AudioClockState { origin: None, pauses: Vec::new(), pause_start: None }
    }

    /// Whether the first video frame has fixed the origin; until it has,
    /// captured audio waits.
    pub fn has_origin(&self) -> (synced: bool)
        ensures
            synced == self@.origin is Some,
    {
        self.origin.is_some()
    }

    /// Fixes the origin at the first video frame's source time; later calls change nothing.
    pub fn sync(&mut self, source_time: i64)
        ensures
            final(self)@.origin == (match old(self)@.origin {
                Some(origin) => Some(origin),
                None => Some(source_time),
            }),
            final(self)@.pauses == old(self)@.pauses,
            final(self)@.pause_start == old(self)@.pause_start,
    {
        proof {
            use_type_invariant(&*self);
        }
        if self.origin.is_none() {
            self.origin = Some(source_time);
        }
    }

    /// Opens a pause at `source_time` unless one is open already.
    pub fn pause(&mut self, source_time: i64)
        ensures
            final(self)@.origin == old(self)@.origin,
            final(self)@.pauses == old(self)@.pauses,
            final(self)@.pause_start == (match old(self)@.pause_start {
                Some(start) => Some(start),
                None => Some(source_time),
            }),
    {
        proof {
            use_type_invariant(&*self);
        }
        if self.pause_start.is_none() {
            self.pause_start = Some(source_time);
        }
    }

    /// Closes the open pause at `source_time` (never before it opened).
    pub fn resume(&mut self, source_time: i64)
        ensures
            final(self)@.origin == old(self)@.origin,
            final(self)@.pause_start is None,
            final(self)@.pauses == (match old(self)@.pause_start {
                Some(start) => old(self)@.pauses.push(
                    (start, if source_time > start { source_time } else { start }),
                ),
                None => old(self)@.pauses,
            }),
    {
        match self.pause_start {
            Some(start) => {
                let end: i64 = if source_time > start { source_time } else { start };
                proof {
                    use_type_invariant(&*self);
                }
                let mut pauses: Vec<(i64, i64)> = Vec::new();
                std::mem::swap(&mut pauses, &mut self.pauses);
                pauses.push((start, end));
                assert(pauses_forward(pauses@)) by {
                    assert forall|i: int| 0 <= i < pauses@.len() implies (#[trigger] pauses@[i]).0
                        <= pauses@[i].1 by {
                        if i < old(self).pauses@.len() {
                            assert(pauses@[i] == old(self).pauses@[i]);
                        }
                    }
                }
                self.pauses = pauses;
                self.pause_start = None;
            },
            None => {},
        }
    }

    fn range_segment(
        &self,
        origin: i64,
        packet_start: i64,
        frame_count: u32,
        sample_rate: u32,
        range: (i64, i64),
    ) -> (segment: Option<AudioSegment>)
        ensures
            segment == range_segment(self@, origin, packet_start, frame_count, sample_rate, range),
    {
        let ceil: u32 = hns_to_frames_ceil(saturating_sub_i64(range.0, packet_start), sample_rate);
        let first: u32 = if ceil < frame_count { ceil } else { frame_count };
        let floor: u32 = hns_to_frames_floor(saturating_sub_i64(range.1, packet_start), sample_rate);
        let last: u32 = if floor < frame_count { floor } else { frame_count };
        if last <= first {
            return None;
        }
        let actual: i64 = saturating_add_i64(packet_start, frames_to_hns(first, sample_rate));
        Some(
            AudioSegment {
                first_frame: first,
                frame_count: last - first,
                timestamp: self.map_source(actual, origin),
            },
        )
    }

    /// The parts of a captured packet that are kept: nothing before the first
    /// video frame; of the rest, each unpaused stretch, trimmed to whole frames
    /// and placed on the timeline with the paused time taken out.
    #[verifier::spinoff_prover]
    pub fn visible_segments(
        &self,
        packet_start: i64,
        frame_count: u32,
        sample_rate: u32,
    ) -> (segments: Vec<AudioSegment>)
        ensures
            segments@ == spec_visible_segments(self@, packet_start, frame_count, sample_rate),
            forall|i: int, j: int|
                0 <= i < j < segments@.len() ==> (#[trigger] segments@[i]).first_frame
                    + segments@[i].frame_count <= (#[trigger] segments@[j]).first_frame,
    {
        let origin: i64 = match self.origin {
            Some(origin) => origin,
            None => {
                return Vec::new();
            },
        };
        let packet_end: i64 = saturating_add_i64(
            packet_start,
            frames_to_hns(frame_count, sample_rate),
        );
        if packet_end <= origin {
            return Vec::new();
        }
        let mut hiding: Vec<(i64, i64)> = Vec::new();
        let mut index: usize = 0;
        while index < self.pauses.len()
            invariant
                index <= self.pauses@.len(),
                hiding@ == self.pauses@.take(index as int),
            decreases self.pauses@.len() - index,
        {
            hiding.push(self.pauses[index]);
            index = index + 1;
            assert(hiding@ =~= self.pauses@.take(index as int));
        }
        assert(self.pauses@.take(self.pauses@.len() as int) =~= self.pauses@);
        match self.pause_start {
            Some(start) => {
                hiding.push((start, i64::MAX));
            },
            None => {},
        }
        assert(hiding@ == hiding_pauses(self@));
        let sorted = sort_pauses(&hiding);
        let cursor: i64 = if packet_start > origin { packet_start } else { origin };
        let (mut ranges, stopped) = sweep_pauses(&sorted, cursor, packet_end);
        if stopped < packet_end {
            ranges.push((stopped, packet_end));
        }
        let ghost clock = self@;
        let mut segments: Vec<AudioSegment> = Vec::new();
        let mut position: usize = 0;
        assert(ranges@.take(0) =~= Seq::<(i64, i64)>::empty());
        while position < ranges.len()
            invariant
                clock == self@,
                position <= ranges@.len(),
                segments@ == range_segments(
                    clock,
                    origin,
                    packet_start,
                    frame_count,
                    sample_rate,
                    ranges@.take(position as int),
                ),
            decreases ranges@.len() - position,
        {
            assert(ranges@.take(position + 1).drop_last() =~= ranges@.take(position as int));
            match self.range_segment(origin, packet_start, frame_count, sample_rate, ranges[position]) {
                Some(segment) => {
                    segments.push(segment);
                },
                None => {},
            }
            position = position + 1;
        }
        assert(ranges@.take(ranges@.len() as int) =~= ranges@);
        proof {
            use_type_invariant(self);
            lemma_segments_in_frame_order(self@, packet_start, frame_count, sample_rate);
            assert(segments@ == spec_visible_segments(self@, packet_start, frame_count, sample_rate));
        }
        segments
    }

    /// Where `source_time` lands on the output timeline that starts at `origin`.
    pub fn map_source(&self, source_time: i64, origin: i64) -> (mapped: i64)
        ensures
            mapped == spec_map_source(self@.pauses, source_time, origin),
    {
        let mut paused: i64 = 0;
        let mut index: usize = 0;
        while index < self.pauses.len()
            invariant
                index <= self.pauses@.len(),
                paused == paused_before(self.pauses@.take(index as int), source_time, origin),
            decreases self.pauses@.len() - index,
        {
            let (start, end) = self.pauses[index];
            assert(self.pauses@.take(index + 1).drop_last() =~= self.pauses@.take(index as int));
            if start < source_time {
                let upper: i64 = if end < source_time { end } else { source_time };
                let lower: i64 = if start > origin { start } else { origin };
                paused = saturating_add_i64(paused, saturating_sub_i64(upper, lower));
            }
            index = index + 1;
        }
        assert(self.pauses@.take(self.pauses@.len() as int) =~= self.pauses@);
        let shifted: i64 = saturating_sub_i64(saturating_sub_i64(source_time, origin), paused);
        if shifted > 0 {
            shifted
        } else {
            0
        }
    }
}

/// The audio files of a finished recording, each still under its temporary
/// name.
pub struct AudioAssetPaths {
    pub system_audio: Option<StagedAsset>,
    pub microphone_audio: Option<StagedAsset>,
}

/// How the two audio tracks ended: the assets, or the error to report with
/// the file that the other track wrote and that must now be removed.
pub struct AudioSettlement {
    pub outcome: Result<AudioAssetPaths, RecorderError>,
    pub orphan: Option<StagedAsset>,
}

/// A track that was not recorded has no asset; one that was gives its result.
fn transpose_track(result: Option<Result<StagedAsset, RecorderError>>) -> (track: Result<
    Option<StagedAsset>,
    RecorderError,
>)
    ensures
        match result {
            Some(Ok(asset)) => track == Ok::<Option<StagedAsset>, RecorderError>(Some(asset)),
            Some(Err(error)) => track == Err::<Option<StagedAsset>, RecorderError>(error),
            None => track == Ok::<Option<StagedAsset>, RecorderError>(None),
        },
{
    match result {
        Some(Ok(asset)) => Ok(Some(asset)),
        Some(Err(error)) => Err(error),
        None => Ok(None),
    }
}

/// Combines the results of the system and microphone tracks. Both must
/// succeed; otherwise the system track's error wins, and a file that the
/// other track did write is handed back to be removed.
pub fn settle_audio_tracks(
    system: Option<Result<StagedAsset, RecorderError>>,
    microphone: Option<Result<StagedAsset, RecorderError>>,
) -> (settled: AudioSettlement)
    ensures
        match (system, microphone) {
            (Some(Err(error)), Some(Ok(asset))) => settled.outcome == Err::<
                AudioAssetPaths,
                RecorderError,
            >(error) && settled.orphan == Some(asset),
            (Some(Ok(asset)), Some(Err(error))) => settled.outcome == Err::<
                AudioAssetPaths,
                RecorderError,
            >(error) && settled.orphan == Some(asset),
            (Some(Err(error)), _) => settled.outcome == Err::<AudioAssetPaths, RecorderError>(
                error,
            ) && settled.orphan is None,
            (_, Some(Err(error))) => settled.outcome == Err::<AudioAssetPaths, RecorderError>(
                error,
            ) && settled.orphan is None,
            (system_track, microphone_track) => settled.orphan is None && (
            settled.outcome matches Ok(paths) && paths.system_audio == (match system_track {
                Some(Ok(asset)) => Some(asset),
                _ => None::<StagedAsset>,
            }) && paths.microphone_audio == (match microphone_track {
                Some(Ok(asset)) => Some(asset),
                _ => None::<StagedAsset>,
            })),
        },
{
    let system_audio = transpose_track(system);
    let microphone_audio = transpose_track(microphone);
    match (system_audio, microphone_audio) {
        (Ok(system_audio), Ok(microphone_audio)) => AudioSettlement {
            outcome: Ok(AudioAssetPaths { system_audio, microphone_audio }),
            orphan: None,
        },
        (Err(error), Ok(Some(asset))) => AudioSettlement { outcome: Err(error), orphan: Some(asset) },
        (Ok(Some(asset)), Err(error)) => AudioSettlement { outcome: Err(error), orphan: Some(asset) },
        (Err(error), _) => AudioSettlement { outcome: Err(error), orphan: None },
        (_, Err(error)) => AudioSettlement { outcome: Err(error), orphan: None },
    }
}

/// The sample format an extensible wave format names by its sub-format GUID.
#[derive(Clone, Copy, Debug, PartialEq, Eq, Structural)]
pub enum SubFormat {
    Pcm,
    Float,
    Other,
}

/// The extensible part of a wave format.
#[derive(Clone, Copy, Debug, PartialEq, Eq, Structural)]
pub struct ExtensibleFields {
    pub sub_format: SubFormat,
    pub channel_mask: u32,
    pub valid_bits_per_sample: u16,
}

/// The fields of the `WAVEFORMATEX` that a capture device reports.
#[derive(Clone, Copy, Debug, PartialEq, Eq, Structural)]
pub struct WaveFormat {
    pub format_tag: u16,
    pub channels: u16,
    pub samples_per_sec: u32,
    pub block_align: u16,
    pub bits_per_sample: u16,
    pub extra_size: u16,
    pub extensible: Option<ExtensibleFields>,
}

/// A checked capture format.
#[derive(Clone, Copy, Debug, PartialEq, Eq, Structural)]
pub struct AudioFormat {
    pub sample_rate: u32,
    pub channels: u32,
    pub bits_per_sample: u32,
    pub valid_bits_per_sample: u32,
    pub block_align: u32,
    pub channel_mask: Option<u32>,
    pub floating_point: bool,
}

/// `WAVE_FORMAT_EXTENSIBLE`.
pub const WAVE_FORMAT_EXTENSIBLE: u16 = 0xfffe;

/// Whether the format carries the extensible fields: its tag says so and its
/// extra bytes hold them.
pub open spec fn spec_has_extensible_fields(format_tag: u16, extra_size: u16) -> bool {
    format_tag == WAVE_FORMAT_EXTENSIBLE && extra_size >= 22
}

pub fn has_extensible_fields(format_tag: u16, extra_size: u16) -> (present: bool)
    ensures
        present == spec_has_extensible_fields(format_tag, extra_size),
{
    format_tag == WAVE_FORMAT_EXTENSIBLE && extra_size >= 22
}

pub open spec fn wave_is_float(wave: WaveFormat) -> bool {
    match wave.extensible {
        Some(fields) => fields.sub_format == SubFormat::Float,
        None => wave.format_tag == 3,
    }
}

pub open spec fn wave_valid_bits(wave: WaveFormat) -> u32 {
    match wave.extensible {
        Some(fields) => if fields.valid_bits_per_sample > 0 {
            fields.valid_bits_per_sample as u32
        } else {
            wave.bits_per_sample as u32
        },
        None => wave.bits_per_sample as u32,
    }
}

/// The first check a device format fails, in the order they are made.
pub open spec fn audio_format_refusal(wave: WaveFormat) -> Option<Seq<char>> {
    if wave.samples_per_sec == 0 || wave.channels == 0 || wave.block_align == 0 {
        Some("Audio device reported an invalid capture format"@)
    } else if (wave.extensible matches Some(fields) && fields.sub_format == SubFormat::Other) || (
    wave.extensible is None && wave.format_tag != 1 && wave.format_tag != 3) {
        Some("Audio device uses an unsupported capture sample format"@)
    } else if wave_is_float(wave) && wave.bits_per_sample != 32 {
        Some("Audio device uses an unsupported floating-point format"@)
    } else if !wave_is_float(wave) && !(wave.bits_per_sample == 8 || wave.bits_per_sample == 16
        || wave.bits_per_sample == 24 || wave.bits_per_sample == 32) {
        Some("Audio device uses an unsupported PCM sample width"@)
    } else if wave_valid_bits(wave) == 0 || wave_valid_bits(wave) > wave.bits_per_sample {
        Some("Audio device reported invalid sample precision"@)
    } else if wave.block_align % wave.channels != 0 {
        Some("Audio device reported invalid channel alignment"@)
    } else if (wave.block_align / wave.channels) * 8 < wave.bits_per_sample {
        Some("Audio device reported invalid sample alignment"@)
    } else {
        None
    }
}

/// Checks the format a capture device reports and keeps what the capture
/// needs of it. The extensible fields are given exactly when the format
/// carries them.
pub fn check_audio_format(wave: WaveFormat) -> (format: Result<AudioFormat, RecorderError>)
    requires
        wave.extensible is Some == spec_has_extensible_fields(wave.format_tag, wave.extra_size),
    ensures
        match format {
            Ok(checked) => audio_format_refusal(wave) is None && checked == AudioFormat {
                sample_rate: wave.samples_per_sec,
                channels: wave.channels as u32,
                bits_per_sample: wave.bits_per_sample as u32,
                valid_bits_per_sample: wave_valid_bits(wave),
                block_align: wave.block_align as u32,
                channel_mask: match wave.extensible {
                    Some(fields) => Some(fields.channel_mask),
                    None => None,
                },
                floating_point: wave_is_float(wave),
            },
            Err(error) => error.code@ == "CONFIGURATION_ERROR"@ && audio_format_refusal(wave)
                == Some(error.message@),
        },
{
    if wave.samples_per_sec == 0 || wave.channels == 0 || wave.block_align == 0 {
        return Err(RecorderError::configuration("Audio device reported an invalid capture format"));
    }
    let mut floating_point = wave.format_tag == 3;
    let mut channel_mask: Option<u32> = None;
    let mut valid_bits_per_sample: u32 = wave.bits_per_sample as u32;
    match wave.extensible {
        Some(fields) => {
            floating_point = fields.sub_format == SubFormat::Float;
            if fields.sub_format == SubFormat::Other {
                return Err(
                    RecorderError::configuration(
                        "Audio device uses an unsupported capture sample format",
                    ),
                );
            }
            channel_mask = Some(fields.channel_mask);
            if fields.valid_bits_per_sample > 0 {
                valid_bits_per_sample = fields.valid_bits_per_sample as u32;
            }
        },
        None => {
            if wave.format_tag != 1 && wave.format_tag != 3 {
                return Err(
                    RecorderError::configuration(
                        "Audio device uses an unsupported capture sample format",
                    ),
                );
            }
        },
    }
    if floating_point && wave.bits_per_sample != 32 {
        return Err(
            RecorderError::configuration("Audio device uses an unsupported floating-point format"),
        );
    }
    if !floating_point && !(wave.bits_per_sample == 8 || wave.bits_per_sample == 16
        || wave.bits_per_sample == 24 || wave.bits_per_sample == 32) {
        return Err(RecorderError::configuration("Audio device uses an unsupported PCM sample width"));
    }
    if valid_bits_per_sample == 0 || valid_bits_per_sample > wave.bits_per_sample as u32 {
        return Err(RecorderError::configuration("Audio device reported invalid sample precision"));
    }
    if wave.block_align % wave.channels != 0 {
        return Err(RecorderError::configuration("Audio device reported invalid channel alignment"));
    }
    let bytes_per_channel: u32 = (wave.block_align / wave.channels) as u32;
    if bytes_per_channel < (wave.bits_per_sample as u32 + 7) / 8 {
        return Err(RecorderError::configuration("Audio device reported invalid sample alignment"));
    }
    Ok(AudioFormat {
        sample_rate: wave.samples_per_sec,
        channels: wave.channels as u32,
        bits_per_sample: wave.bits_per_sample as u32,
        valid_bits_per_sample,
        block_align: wave.block_align as u32,
        channel_mask,
        floating_point,
    })
}

/// The device's name, lowercased, equals the requested one lowercased.
pub open spec fn name_is(names: Seq<Option<String>>, index: int, requested: Seq<char>) -> bool {
    names[index] matches Some(name) && unicode_lowercase(name@) == unicode_lowercase(requested)
}

/// One of the two lowercased names contains the other.
pub open spec fn name_overlaps(names: Seq<Option<String>>, index: int, requested: Seq<char>) -> bool {
    names[index] matches Some(name) && (spec_contains_part(
        unicode_lowercase(name@),
        unicode_lowercase(requested),
    ) || spec_contains_part(unicode_lowercase(requested), unicode_lowercase(name@)))
}

/// The active microphone to record when one is asked for by name: the first
/// whose name matches without regard to case, else the first whose name
/// contains the requested one or is contained in it. `names` holds each
/// microphone's friendly name in enumeration order, `None` where it could
/// not be read.
pub fn match_microphone_name(names: &Vec<Option<String>>, requested: &str) -> (found: Option<usize>)
    ensures
        match found {
            Some(index) => index < names@.len() && ((name_is(names@, index as int, requested@)
                && forall|k: int| 0 <= k < index ==> !name_is(names@, k, requested@)) || ((forall|
                k: int,
            | 0 <= k < names@.len() ==> !name_is(names@, k, requested@)) && name_overlaps(
                names@,
                index as int,
                requested@,
            ) && forall|k: int| 0 <= k < index ==> !name_overlaps(names@, k, requested@))),
            None => forall|k: int|
                0 <= k < names@.len() ==> !name_is(names@, k, requested@) && !name_overlaps(
                    names@,
                    k,
                    requested@,
                ),
        },
{
    let wanted = to_lowercase(requested);
    let wanted_chars = chars_of(wanted.as_str());
    let mut partial: Option<usize> = None;
    let mut index: usize = 0;
    while index < names.len()
        invariant
            index <= names@.len(),
            wanted@ == unicode_lowercase(requested@),
            wanted_chars@ == wanted@,
            forall|k: int| 0 <= k < index ==> !name_is(names@, k, requested@),
            match partial {
                Some(first) => first < index && name_overlaps(names@, first as int, requested@)
                    && forall|k: int| 0 <= k < first ==> !name_overlaps(names@, k, requested@),
                None => forall|k: int| 0 <= k < index ==> !name_overlaps(names@, k, requested@),
            },
        decreases names@.len() - index,
    {
        match &names[index] {
            Some(name) => {
                let candidate = to_lowercase(name.as_str());
                if same_text(candidate.as_str(), wanted.as_str()) {
                    return Some(index);
                }
                if partial.is_none() {
                    let candidate_chars = chars_of(candidate.as_str());
                    if contains_part(&candidate_chars, &wanted_chars) || contains_part(
                        &wanted_chars,
                        &candidate_chars,
                    ) {
                        partial = Some(index);
                    }
                }
            },
            None => {},
        }
        index = index + 1;
    }
    partial
}

} // verus!

//! What an audio track writes to its encoder for each captured packet: the
//! kept parts of the packet, trimmed where they would overlap audio already
//! written, and silence for the gaps between them.
use vstd::prelude::*;
use crate::arith::{clamp, clamp_i64, saturating_add_i64};
use crate::recorder_types::RecorderError;
use crate::recording_audio::{
    frames_to_hns, hns_to_frames_ceil, hns_to_frames_floor, lemma_segments_inside_packet,
    resampled_frame_count, scaled_duration, spec_frames_to_hns, spec_hns_to_frames_ceil,
    spec_hns_to_frames_floor, spec_resampled_frame_count, spec_visible_segments, AudioClockState,
    AudioSegment, AAC_SAMPLE_RATE, HNS_PER_SECOND, SILENCE_CHUNK_FRAMES,
};

verus! {

/// One write to the AAC encoder.
#[derive(Clone, Copy, Debug, PartialEq, Eq, Structural)]
pub enum AudioWrite {
    /// `frames` frames of silence at `timestamp`.
    Silence { frames: u32, timestamp: i64 },
    /// The packet's frames from `first_frame`, `frame_count` of them,
    /// resampled to `output_frames` frames at `timestamp`; written as
    /// silence when `silent`.
    Samples { first_frame: u32, frame_count: u32, output_frames: u32, timestamp: i64, silent: bool },
}

/// What the capture client reported of a packet.
#[derive(Clone, Copy, Debug, PartialEq, Eq, Structural)]
pub struct CapturedPacket {
    pub frames: u32,
    pub qpc_position: i64,
    /// The device could not time the packet; it follows the one before.
    pub timestamp_error: bool,
    /// The device marked the packet as silence.
    pub silent: bool,
    /// The device lost data before the packet.
    pub discontinuity: bool,
}

/// Where the next write goes on the output timeline, and where the last
/// captured packet ended on the source clock.
#[derive(Clone, Copy, Debug, PartialEq, Eq, Structural)]
pub struct AudioWriteCursor {
    pub next_time: i64,
    pub last_source_end: Option<i64>,
}

pub open spec fn write_start(write: AudioWrite) -> int {
    match write {
        AudioWrite::Silence { timestamp, .. } => timestamp as int,
        AudioWrite::Samples { timestamp, .. } => timestamp as int,
    }
}

/// Where a write ends on the 48 kHz output timeline.
pub open spec fn write_end(write: AudioWrite) -> int {
    match write {
        AudioWrite::Silence { frames, timestamp } => clamp_i64(
            timestamp + spec_frames_to_hns(frames, AAC_SAMPLE_RATE),
        ),
        AudioWrite::Samples { output_frames, timestamp, .. } => clamp_i64(
            timestamp + spec_frames_to_hns(output_frames, AAC_SAMPLE_RATE),
        ),
    }
}

/// The writes follow each other on the timeline from `start`: none begins
/// before the one before it ended, and the last ends at `end`.
pub open spec fn timeline_from(writes: Seq<AudioWrite>, start: int, end: int) -> bool
    decreases writes.len(),
{
    if writes.len() == 0 {
        start == end
    } else {
        write_start(writes[0]) >= start && timeline_from(writes.drop_first(), write_end(writes[0]), end)
    }
}

/// The silence chunk that starts filling the gap from `next` to `target`:
/// as many whole 48 kHz frames as fit, at most one chunk.
pub open spec fn silence_chunk_frames(next: i64, target: i64) -> int {
    let fitting = spec_hns_to_frames_floor((target - next) as i64, AAC_SAMPLE_RATE);
    if fitting < SILENCE_CHUNK_FRAMES { fitting } else { SILENCE_CHUNK_FRAMES as int }
}

/// The silence that fills the gap from `next` up to `target`, chunk by
/// chunk, and where the timeline then stands.
pub open spec fn silence_plan(next: i64, target: i64) -> (Seq<AudioWrite>, i64)
    decreases target - next,
{
    if next < 0 || next >= target || silence_chunk_frames(next, target) == 0 {
        (Seq::empty(), next)
    } else {
        let frames = silence_chunk_frames(next, target) as u32;
        proof {
            lemma_silence_chunk_fits(next, target);
        }
        let after = (next + spec_frames_to_hns(frames, AAC_SAMPLE_RATE)) as i64;
        let rest = silence_plan(after, target);
        (seq![AudioWrite::Silence { frames: frames, timestamp: next }] + rest.0, rest.1)
    }
}

/// A segment without the frames that fall before `next`.
pub open spec fn trimmed_segment(next: i64, segment: AudioSegment, sample_rate: u32) -> AudioSegment {
    if segment.timestamp < next {
        let trim = clamp(
            spec_hns_to_frames_ceil((next - segment.timestamp) as i64, sample_rate),
            0,
            segment.frame_count as int,
        );
        AudioSegment {
            first_frame: (segment.first_frame + trim) as u32,
            frame_count: (segment.frame_count - trim) as u32,
            timestamp: clamp_i64(
                segment.timestamp + spec_frames_to_hns(trim as u32, sample_rate),
            ) as i64,
        }
    } else {
        segment
    }
}

/// The write a segment becomes at `next`, if any frame of it is left, and
/// where the timeline then stands.
pub open spec fn segment_write(next: i64, segment: AudioSegment, sample_rate: u32, silent: bool) -> (
    Seq<AudioWrite>,
    i64,
) {
    let kept = trimmed_segment(next, segment, sample_rate);
    let output = spec_resampled_frame_count(kept.frame_count, sample_rate);
    if kept.frame_count == 0 || output == 0 {
        (Seq::empty(), next)
    } else {
        let write = AudioWrite::Samples {
            first_frame: kept.first_frame,
            frame_count: kept.frame_count,
            output_frames: output as u32,
            timestamp: kept.timestamp,
            silent: silent,
        };
        (seq![write], write_end(write) as i64)
    }
}

/// The writes for the segments of one packet, in order: before each, the
/// silence up to it when it starts later than the timeline (always after a
/// discontinuity), then what is left of it.
pub open spec fn plan_segments(
    next: i64,
    segments: Seq<AudioSegment>,
    sample_rate: u32,
    silent: bool,
    discontinuity: bool,
) -> (Seq<AudioWrite>, i64)
    decreases segments.len(),
{
    if segments.len() == 0 {
        (Seq::empty(), next)
    } else {
        let before = plan_segments(next, segments.drop_last(), sample_rate, silent, discontinuity);
        let segment = segments.last();
        let filled = if discontinuity || segment.timestamp > before.1 {
            silence_plan(before.1, segment.timestamp)
        } else {
            (Seq::empty(), before.1)
        };
        let written = segment_write(filled.1, segment, sample_rate, silent);
        (before.0 + filled.0 + written.0, written.1)
    }
}

/// Where a packet starts on the source clock: where the device says, or
/// right after the packet before when the device could not time it.
pub open spec fn packet_start(cursor: AudioWriteCursor, packet: CapturedPacket) -> i64 {
    if packet.timestamp_error {
        match cursor.last_source_end {
            Some(end) => end,
            None => packet.qpc_position,
        }
    } else {
        packet.qpc_position
    }
}

/// A silence chunk lasts at least one time unit and never reaches past the
/// gap it fills.
pub proof fn lemma_silence_chunk_fits(next: i64, target: i64)
    requires
        0 <= next < target,
        silence_chunk_frames(next, target) > 0,
    ensures
        1 <= spec_frames_to_hns(silence_chunk_frames(next, target) as u32, AAC_SAMPLE_RATE),
        next + spec_frames_to_hns(silence_chunk_frames(next, target) as u32, AAC_SAMPLE_RATE)
            <= target,
{
    let missing: int = target - next;
    let frames = silence_chunk_frames(next, target);
    let scaled = scaled_duration(missing, AAC_SAMPLE_RATE as int);
    assert(scaled <= missing * 48_000);
    assert(frames <= scaled / HNS_PER_SECOND as int);
    assert(frames * 10_000_000 <= scaled) by (nonlinear_arith)
        requires
            frames <= scaled / 10_000_000,
            scaled >= 0,
    ;
    assert(1 <= frames * 10_000_000 / 48_000 <= missing) by (nonlinear_arith)
        requires
            1 <= frames,
            frames * 10_000_000 <= missing * 48_000,
    ;
}

/// The silence that fills a gap is silence only, each chunk starting where
/// the one before it ended, and it never reaches past the end of the gap.
pub proof fn lemma_silence_plan(next: i64, target: i64)
    requires
        next >= 0,
    ensures
        timeline_from(silence_plan(next, target).0, next as int, silence_plan(next, target).1 as int),
        next <= silence_plan(next, target).1,
        next < target ==> silence_plan(next, target).1 <= target,
        forall|k: int|
            0 <= k < silence_plan(next, target).0.len() ==> #[trigger] silence_plan(
                next,
                target,
            ).0[k] is Silence,
    decreases target - next,
{
    if next < target && silence_chunk_frames(next, target) != 0 {
        let frames = silence_chunk_frames(next, target) as u32;
        lemma_silence_chunk_fits(next, target);
        let after = (next + spec_frames_to_hns(frames, AAC_SAMPLE_RATE)) as i64;
        lemma_silence_plan(after, target);
        let write = AudioWrite::Silence { frames: frames, timestamp: next };
        let rest = silence_plan(after, target);
        assert((seq![write] + rest.0).drop_first() =~= rest.0);
        assert(write_end(write) == after);
        assert forall|k: int| 0 <= k < (seq![write] + rest.0).len() implies #[trigger] (seq![write]
            + rest.0)[k] is Silence by {
            if k > 0 {
                assert((seq![write] + rest.0)[k] == rest.0[k - 1]);
            }
        }
    }
}

proof fn lemma_timeline_append(first: Seq<AudioWrite>, second: Seq<AudioWrite>, start: int, middle: int, end: int)
    requires
        timeline_from(first, start, middle),
        timeline_from(second, middle, end),
    ensures
        timeline_from(first + second, start, end),
    decreases first.len(),
{
    if first.len() > 0 {
        lemma_timeline_append(first.drop_first(), second, write_end(first[0]), middle, end);
        assert((first + second).drop_first() =~= first.drop_first() + second);
        assert((first + second)[0] == first[0]);
    } else {
        assert(first + second =~= second);
    }
}

/// Enough frames to cover `overlap` at `sample_rate` last at least as long.
proof fn lemma_trim_covers_overlap(overlap: i64, sample_rate: u32)
    requires
        overlap >= 1,
        sample_rate >= 1,
        spec_hns_to_frames_ceil(overlap, sample_rate) < u32::MAX,
    ensures
        spec_frames_to_hns(spec_hns_to_frames_ceil(overlap, sample_rate) as u32, sample_rate)
            >= overlap,
{
    let rate = sample_rate as int;
    let scaled = scaled_duration(overlap as int, rate);
    let raised = if scaled + (HNS_PER_SECOND - 1) > i64::MAX {
        i64::MAX as int
    } else {
        scaled + (HNS_PER_SECOND - 1)
    };
    let trim = spec_hns_to_frames_ceil(overlap, sample_rate);
    assert(i64::MAX as int / 10_000_000 > u32::MAX);
    if overlap * rate > i64::MAX || scaled + (HNS_PER_SECOND - 1) > i64::MAX {
        assert(raised >= i64::MAX as int - 10_000_000) by (nonlinear_arith)
            requires
                overlap * rate > i64::MAX ==> scaled == i64::MAX,
                overlap * rate > i64::MAX || scaled + 9_999_999 > i64::MAX,
                scaled + 9_999_999 > i64::MAX ==> raised == i64::MAX,
                scaled + 9_999_999 <= i64::MAX ==> raised == scaled + 9_999_999,
        ;
        assert(raised / 10_000_000 >= u32::MAX) by (nonlinear_arith)
            requires
                raised >= 0x7fff_ffff_ffff_ffff - 10_000_000,
        ;
        assert(false);
    } else {
        assert(scaled == overlap * rate);
        assert(raised == overlap * rate + 9_999_999);
        assert(trim == raised / 10_000_000) by (nonlinear_arith)
            requires
                raised >= 0,
                raised / 10_000_000 < u32::MAX,
                trim == clamp(raised / 10_000_000, 0, u32::MAX as int),
        ;
        assert(trim * 10_000_000 >= overlap * rate) by (nonlinear_arith)
            requires
                trim == (overlap * rate + 9_999_999) / 10_000_000,
                overlap * rate >= 0,
        ;
        assert(trim * 10_000_000 / rate >= overlap) by (nonlinear_arith)
            requires
                trim * 10_000_000 >= overlap * rate,
                rate >= 1,
                overlap >= 1,
        ;
    }
}

/// A segment that is written starts no earlier than the timeline stands.
proof fn lemma_segment_write(next: i64, segment: AudioSegment, sample_rate: u32, silent: bool)
    requires
        next >= 0,
        segment.timestamp >= 0,
        sample_rate >= 1,
        segment.first_frame + segment.frame_count <= u32::MAX,
    ensures
        timeline_from(
            segment_write(next, segment, sample_rate, silent).0,
            next as int,
            segment_write(next, segment, sample_rate, silent).1 as int,
        ),
        segment_write(next, segment, sample_rate, silent).1 >= next,
{
    let kept = trimmed_segment(next, segment, sample_rate);
    let output = spec_resampled_frame_count(kept.frame_count, sample_rate);
    let result = segment_write(next, segment, sample_rate, silent);
    if kept.frame_count != 0 && output != 0 {
        if segment.timestamp < next {
            let overlap = (next - segment.timestamp) as i64;
            let trim = spec_hns_to_frames_ceil(overlap, sample_rate);
            assert(trim < segment.frame_count);
            lemma_trim_covers_overlap(overlap, sample_rate);
            assert(kept.timestamp >= next);
        }
        let write = AudioWrite::Samples {
            first_frame: kept.first_frame,
            frame_count: kept.frame_count,
            output_frames: output as u32,
            timestamp: kept.timestamp,
            silent: silent,
        };
        assert(result.0 == seq![write]);
        assert(seq![write].drop_first() =~= Seq::<AudioWrite>::empty());
        assert(seq![write][0] == write);
        assert(spec_frames_to_hns(output as u32, AAC_SAMPLE_RATE) >= 0) by (nonlinear_arith)
            requires
                output >= 0,
        ;
        assert(write_end(write) >= write_start(write));
        assert(result.1 as int == write_end(write));
        assert(timeline_from(Seq::<AudioWrite>::empty(), write_end(write), result.1 as int));
        assert(timeline_from(seq![write], next as int, result.1 as int));
    } else {
        assert(timeline_from(Seq::<AudioWrite>::empty(), next as int, next as int));
    }
}

proof fn lemma_plan_segments(
    next: i64,
    segments: Seq<AudioSegment>,
    sample_rate: u32,
    silent: bool,
    discontinuity: bool,
)
    requires
        next >= 0,
        sample_rate >= 1,
        forall|k: int|
            0 <= k < segments.len() ==> #[trigger] segments[k].timestamp >= 0
                && segments[k].first_frame + segments[k].frame_count <= u32::MAX,
    ensures
        timeline_from(
            plan_segments(next, segments, sample_rate, silent, discontinuity).0,
            next as int,
            plan_segments(next, segments, sample_rate, silent, discontinuity).1 as int,
        ),
        plan_segments(next, segments, sample_rate, silent, discontinuity).1 >= next,
    decreases segments.len(),
{
    if segments.len() > 0 {
        let rest = segments.drop_last();
        assert forall|k: int| 0 <= k < rest.len() implies #[trigger] rest[k].timestamp >= 0
            && rest[k].first_frame + rest[k].frame_count <= u32::MAX by {
            assert(rest[k] == segments[k]);
        }
        lemma_plan_segments(next, rest, sample_rate, silent, discontinuity);
        let before = plan_segments(next, rest, sample_rate, silent, discontinuity);
        let segment = segments.last();
        assert(segment == segments[segments.len() - 1]);
        let filled = if discontinuity || segment.timestamp > before.1 {
            silence_plan(before.1, segment.timestamp)
        } else {
            (Seq::<AudioWrite>::empty(), before.1)
        };
        if discontinuity || segment.timestamp > before.1 {
            lemma_silence_plan(before.1, segment.timestamp);
        }
        lemma_segment_write(filled.1, segment, sample_rate, silent);
        let written = segment_write(filled.1, segment, sample_rate, silent);
        lemma_timeline_append(before.0, filled.0, next as int, before.1 as int, filled.1 as int);
        lemma_timeline_append(
            before.0 + filled.0,
            written.0,
            next as int,
            filled.1 as int,
            written.1 as int,
        );
    }
}

impl AudioWriteCursor {
    pub fn new() -> (cursor: Self)
        ensures
            cursor == (AudioWriteCursor { next_time: 0, last_source_end: None }),
    {
        AudioWriteCursor { next_time: 0, last_source_end: None }
    }

    /// A new capture format: the source clock starts over.
    pub fn switch_format(&mut self)
        ensures
            *final(self) == (AudioWriteCursor { last_source_end: None, ..*old(self) }),
    {
        self.last_source_end = None;
    }

    /// Appends the silence that fills the timeline up to `target`.
    pub fn fill_until(&mut self, target: i64, writes: &mut Vec<AudioWrite>)
        requires
            old(self).next_time >= 0,
        ensures
            final(writes)@ == old(writes)@ + silence_plan(old(self).next_time, target).0,
            final(self).next_time == silence_plan(old(self).next_time, target).1,
            final(self).next_time >= old(self).next_time,
            final(self).last_source_end == old(self).last_source_end,
    {
        proof {
            lemma_silence_plan(self.next_time, target);
        }
        let ghost start = self.next_time;
        let ghost earlier = writes@;
        let mut done = false;
        while !done && self.next_time < target
            invariant
                self.next_time >= 0,
                self.last_source_end == old(self).last_source_end,
                silence_plan(start, target) == (
                    writes@.skip(earlier.len() as int) + silence_plan(self.next_time, target).0,
                    silence_plan(self.next_time, target).1,
                ),
                writes@.len() >= earlier.len(),
                writes@.take(earlier.len() as int) == earlier,
                done ==> silence_plan(self.next_time, target) == (
                    Seq::<AudioWrite>::empty(),
                    self.next_time,
                ),
            decreases target - self.next_time, if done { 0int } else { 1int },
        {
            let missing: i64 = target - self.next_time;
            let fitting = hns_to_frames_floor(missing, AAC_SAMPLE_RATE);
            let frames: u32 = if fitting < SILENCE_CHUNK_FRAMES { fitting } else { SILENCE_CHUNK_FRAMES };
            if frames == 0 {
                done = true;
            } else {
                proof {
                    lemma_silence_chunk_fits(self.next_time, target);
                }
                let ghost before = writes@;
                let write = AudioWrite::Silence { frames, timestamp: self.next_time };
                writes.push(write);
                let step = frames_to_hns(frames, AAC_SAMPLE_RATE);
                let ghost old_next = self.next_time;
                self.next_time = self.next_time + step;
                proof {
                    let rest = silence_plan(self.next_time, target);
                    assert(silence_plan(old_next, target) == (seq![write] + rest.0, rest.1));
                    assert(writes@.take(earlier.len() as int) =~= before.take(earlier.len() as int));
                    assert(writes@.skip(earlier.len() as int) =~= before.skip(earlier.len() as int).push(write));
                    assert(before.skip(earlier.len() as int) + (seq![write] + rest.0)
                        =~= before.skip(earlier.len() as int).push(write) + rest.0);
                }
            }
        }
        proof {
            assert(writes@ =~= earlier + writes@.skip(earlier.len() as int));
            assert(silence_plan(self.next_time, target).0 =~= Seq::<AudioWrite>::empty());
            assert(writes@.skip(earlier.len() as int) + Seq::<AudioWrite>::empty() =~= writes@.skip(
                earlier.len() as int,
            ));
        }
    }

    /// Appends the write for what is left of `segment`.
    fn write_segment(
        &mut self,
        segment: AudioSegment,
        sample_rate: u32,
        silent: bool,
        writes: &mut Vec<AudioWrite>,
    )
        requires
            old(self).next_time >= 0,
            segment.timestamp >= 0,
            segment.first_frame + segment.frame_count <= u32::MAX,
        ensures
            final(writes)@ == old(writes)@ + segment_write(
                old(self).next_time,
                segment,
                sample_rate,
                silent,
            ).0,
            final(self).next_time == segment_write(old(self).next_time, segment, sample_rate, silent).1,
            final(self).next_time >= 0,
            final(self).last_source_end == old(self).last_source_end,
    {
        let mut kept = segment;
        if kept.timestamp < self.next_time {
            let overlap: i64 = self.next_time - kept.timestamp;
            let ceiling = hns_to_frames_ceil(overlap, sample_rate);
            let trim: u32 = if ceiling < kept.frame_count { ceiling } else { kept.frame_count };
            kept.first_frame = kept.first_frame + trim;
            kept.frame_count = kept.frame_count - trim;
            kept.timestamp = saturating_add_i64(kept.timestamp, frames_to_hns(trim, sample_rate));
        }
        assert(kept == trimmed_segment(old(self).next_time, segment, sample_rate));
        if kept.frame_count == 0 {
            assert(old(writes)@ + Seq::<AudioWrite>::empty() =~= old(writes)@);
            return;
        }
        let output = resampled_frame_count(kept.frame_count, sample_rate);
        if output == 0 {
            assert(old(writes)@ + Seq::<AudioWrite>::empty() =~= old(writes)@);
            return;
        }
        let write = AudioWrite::Samples {
            first_frame: kept.first_frame,
            frame_count: kept.frame_count,
            output_frames: output,
            timestamp: kept.timestamp,
            silent,
        };
        writes.push(write);
        assert(writes@ =~= old(writes)@ + seq![write]);
        assert(kept.timestamp >= 0);
        self.next_time = saturating_add_i64(kept.timestamp, frames_to_hns(output, AAC_SAMPLE_RATE));
    }

    /// The writes for one captured packet of a device that records at
    /// `sample_rate`; `muted` silences a microphone. The packet's end is
    /// remembered for the next packet that the device cannot time.
    pub fn plan_packet(
        &mut self,
        clock: &AudioClockState,
        packet: CapturedPacket,
        sample_rate: u32,
        muted: bool,
    ) -> (writes: Vec<AudioWrite>)
        requires
            old(self).next_time >= 0,
            sample_rate >= 1,
        ensures
            final(self).next_time >= old(self).next_time,
            packet.frames == 0 ==> writes@.len() == 0 && *final(self) == *old(self),
            packet.frames > 0 ==> {
                let start = packet_start(*old(self), packet);
                let planned = plan_segments(
                    old(self).next_time,
                    spec_visible_segments(clock@, start, packet.frames, sample_rate),
                    sample_rate,
                    packet.silent || muted,
                    packet.discontinuity,
                );
                &&& final(self).last_source_end == Some(
                    clamp_i64(start + spec_frames_to_hns(packet.frames, sample_rate)) as i64,
                )
                &&& writes@ == planned.0
                &&& final(self).next_time == planned.1
            },
            timeline_from(writes@, old(self).next_time as int, final(self).next_time as int),
    {
        let mut writes: Vec<AudioWrite> = Vec::new();
        if packet.frames == 0 {
            return writes;
        }
        let start: i64 = if packet.timestamp_error {
            match self.last_source_end {
                Some(end) => end,
                None => packet.qpc_position,
            }
        } else {
            packet.qpc_position
        };
        self.last_source_end = Some(
            saturating_add_i64(start, frames_to_hns(packet.frames, sample_rate)),
        );
        let segments = clock.visible_segments(start, packet.frames, sample_rate);
        let silent = packet.silent || muted;
        let ghost first_next = self.next_time;
        proof {
            lemma_segments_inside_packet(clock@, start, packet.frames, sample_rate);
        }
        let mut index: usize = 0;
        while index < segments.len()
            invariant
                index <= segments@.len(),
                segments@ == spec_visible_segments(clock@, start, packet.frames, sample_rate),
                forall|k: int|
                    0 <= k < segments@.len() ==> #[trigger] segments@[k].timestamp >= 0
                        && segments@[k].first_frame + segments@[k].frame_count <= packet.frames,
                self.next_time >= 0,
                first_next >= 0,
                (writes@, self.next_time) == plan_segments(
                    first_next,
                    segments@.take(index as int),
                    sample_rate,
                    silent,
                    packet.discontinuity,
                ),
                self.last_source_end == Some(
                    clamp_i64(start + spec_frames_to_hns(packet.frames, sample_rate)) as i64,
                ),
            decreases segments@.len() - index,
        {
            let segment = segments[index];
            let ghost before_writes = writes@;
            let ghost before_next = self.next_time;
            proof {
                assert(segments@.take(index + 1).drop_last() =~= segments@.take(index as int));
                assert(segments@.take(index + 1).last() == segment);
            }
            if packet.discontinuity || segment.timestamp > self.next_time {
                self.fill_until(segment.timestamp, &mut writes);
            } else {
                assert(before_writes + Seq::<AudioWrite>::empty() =~= before_writes);
            }
            let ghost filled_writes = writes@;
            self.write_segment(segment, sample_rate, silent, &mut writes);
            proof {
                let filled = if packet.discontinuity || segment.timestamp > before_next {
                    silence_plan(before_next, segment.timestamp)
                } else {
                    (Seq::<AudioWrite>::empty(), before_next)
                };
                assert(filled_writes == before_writes + filled.0);
                assert(writes@ =~= before_writes + filled.0 + segment_write(
                    filled.1,
                    segment,
                    sample_rate,
                    silent,
                ).0);
            }
            index = index + 1;
        }
        proof {
            assert(segments@.take(segments@.len() as int) =~= segments@);
            assert forall|k: int| 0 <= k < segments@.len() implies #[trigger] segments@[k].timestamp
                >= 0 && segments@[k].first_frame + segments@[k].frame_count <= u32::MAX by {}
            lemma_plan_segments(first_next, segments@, sample_rate, silent, packet.discontinuity);
        }
        writes
    }
}

/// The bytes of a packet of `frames` frames of `block_align` bytes each, or
/// an error when that does not fit in memory's address range.
pub fn packet_byte_length(frames: u32, block_align: u32) -> (length: Result<usize, RecorderError>)
    ensures
        match length {
            Ok(bytes) => bytes == frames * block_align,
            Err(error) => frames * block_align > usize::MAX && error.code@ == "CAPTURE_ERROR"@
                && error.message@ == "Captured audio packet is too large"@,
        },
{
    match (frames as usize).checked_mul(block_align as usize) {
        Some(bytes) => Ok(bytes),
        None => Err(RecorderError::capture("Captured audio packet is too large")),
    }
}

/// The largest amount of audio kept while waiting for the first video frame.
pub const MAX_PENDING_AUDIO_BYTES: usize = 16777216;

/// A packet captured before the first video frame, kept until the timeline
/// has an origin.
pub struct BufferedPacket {
    pub packet: CapturedPacket,
    pub data: Vec<u8>,
}

/// The packets waiting for the first video frame, oldest first, and the
/// bytes they hold.
pub struct PendingAudio {
    packets: std::collections::VecDeque<BufferedPacket>,
    bytes: usize,
}

pub open spec fn bytes_held(packets: Seq<BufferedPacket>) -> int
    decreases packets.len(),
{
    if packets.len() == 0 {
        0
    } else {
        bytes_held(packets.drop_first()) + packets[0].data@.len()
    }
}

impl PendingAudio {
    /// The packets held, oldest first.
    pub closed spec fn packets(&self) -> Seq<BufferedPacket> {
        self.packets@
    }

    pub closed spec fn well_formed(&self) -> bool {
        self.bytes == bytes_held(self.packets@) && self.bytes <= MAX_PENDING_AUDIO_BYTES
    }

    pub fn new() -> (pending: Self)
        ensures
            pending.well_formed(),
            pending.packets().len() == 0,
    {
        PendingAudio { packets: std::collections::VecDeque::new(), bytes: 0 }
    }

    /// Keeps a packet, then drops the oldest packets while more than the
    /// limit is held.
    pub fn push(&mut self, buffered: BufferedPacket)
        requires
            old(self).well_formed(),
            buffered.data@.len() <= MAX_PENDING_AUDIO_BYTES,
        ensures
            final(self).well_formed(),
            exists|dropped: int|
                0 <= dropped <= old(self).packets().len() && final(self).packets() == #[trigger] old(
                    self,
                ).packets().push(buffered).skip(dropped) && (dropped > 0 ==> bytes_held(
                    old(self).packets().push(buffered).skip(dropped - 1),
                ) > MAX_PENDING_AUDIO_BYTES),
    {
        proof {
            lemma_bytes_held_push(self.packets@, buffered);
        }
        self.bytes = self.bytes + buffered.data.len();
        self.packets.push_back(buffered);
        let ghost all = self.packets@;
        let ghost mut dropped: int = 0;
        assert(all.skip(0) =~= all);
        while self.bytes > MAX_PENDING_AUDIO_BYTES
            invariant
                self.bytes == bytes_held(self.packets@),
                0 <= dropped <= old(self).packets@.len(),
                self.packets@ == all.skip(dropped),
                all == old(self).packets@.push(buffered),
                buffered.data@.len() <= MAX_PENDING_AUDIO_BYTES,
                self.bytes > MAX_PENDING_AUDIO_BYTES ==> dropped < old(self).packets@.len(),
                dropped > 0 ==> bytes_held(all.skip(dropped - 1)) > MAX_PENDING_AUDIO_BYTES,
            decreases self.packets@.len(),
        {
            let oldest = self.packets.pop_front();
            match oldest {
                Some(packet) => {
                    proof {
                        assert(all.skip(dropped).drop_first() =~= all.skip(dropped + 1));
                        assert(all.skip(dropped)[0] == packet);
                        lemma_bytes_held_nonnegative(all.skip(dropped + 1));
                    }
                    self.bytes = self.bytes - packet.data.len();
                    proof {
                        dropped = dropped + 1;
                        if dropped == old(self).packets@.len() {
                            assert(all.skip(dropped) =~= seq![buffered]);
                            assert(seq![buffered].drop_first() =~= Seq::<BufferedPacket>::empty());
                            assert(seq![buffered][0] == buffered);
                            assert(bytes_held(Seq::<BufferedPacket>::empty()) == 0);
                        }
                    }
                },
                None => {},
            }
        }
        assert(self.packets() == old(self).packets().push(buffered).skip(dropped));
    }

    /// Hands over the packets held, oldest first, and holds none.
    pub fn take_all(&mut self) -> (packets: Vec<BufferedPacket>)
        ensures
            packets@ == old(self).packets(),
            final(self).packets().len() == 0,
            final(self).well_formed(),
    {
        let mut packets: Vec<BufferedPacket> = Vec::new();
        while self.packets.len() > 0
            invariant
                packets@ + self.packets@ == old(self).packets@,
            decreases self.packets@.len(),
        {
            let ghost rest = self.packets@;
            match self.packets.pop_front() {
                Some(packet) => {
                    packets.push(packet);
                    assert(packets@ + self.packets@ =~= old(self).packets@) by {
                        assert(rest =~= seq![packet] + self.packets@);
                    }
                },
                None => {},
            }
        }
        assert(packets@ =~= old(self).packets@) by {
            assert(packets@ + self.packets@ =~= packets@);
        }
        self.bytes = 0;
        packets
    }

    /// A new capture format: what was held is dropped.
    pub fn clear(&mut self)
        ensures
            final(self).packets().len() == 0,
            final(self).well_formed(),
    {
        self.packets = std::collections::VecDeque::new();
        self.bytes = 0;
    }
}

proof fn lemma_bytes_held_push(packets: Seq<BufferedPacket>, buffered: BufferedPacket)
    ensures
        bytes_held(packets.push(buffered)) == bytes_held(packets) + buffered.data@.len(),
    decreases packets.len(),
{
    assert(bytes_held(packets.push(buffered)) == bytes_held(packets.push(buffered).drop_first())
        + packets.push(buffered)[0].data@.len());
    if packets.len() > 0 {
        assert(bytes_held(packets) == bytes_held(packets.drop_first()) + packets[0].data@.len());
        lemma_bytes_held_push(packets.drop_first(), buffered);
        assert(packets.push(buffered).drop_first() =~= packets.drop_first().push(buffered));
        assert(packets.push(buffered)[0] == packets[0]);
    } else {
        assert(packets.push(buffered).drop_first() =~= Seq::<BufferedPacket>::empty());
        assert(packets.push(buffered)[0] == buffered);
        assert(bytes_held(Seq::<BufferedPacket>::empty()) == 0);
    }
}

proof fn lemma_bytes_held_nonnegative(packets: Seq<BufferedPacket>)
    ensures
        bytes_held(packets) >= 0,
    decreases packets.len(),
{
    if packets.len() > 0 {
        lemma_bytes_held_nonnegative(packets.drop_first());
    }
}

} // verus!

//! The input tracker's decisions: the modifier keys held down, the names of
//! keys, the tracker's own timeline with its pauses, and the hand-over of the
//! hook thread's resources at shutdown.
use vstd::prelude::*;
use crate::recorder_types::{CaptureRect, RecorderError, StagedAsset};
use crate::recording_camera::MonotonicTime;
use crate::text::{push_decimal, push_str, spec_decimal};

verus! {

/// The modifier keys whose state is read when tracking starts.
pub const MODIFIER_KEYS: [u32; 8] = [0x5B, 0x5C, 0xA0, 0xA1, 0xA2, 0xA3, 0xA4, 0xA5];

/// What the cursor positions are read against.
#[derive(Clone, Copy, Debug, PartialEq, Eq, Structural)]
pub enum TrackerSource {
    Screen,
    Window(isize),
}

/// Maps screen cursor positions into the recorded video frame. A window
/// recording keeps the frame it started with while the window itself moves
/// and resizes.
#[derive(Clone, Copy, Debug)]
pub struct TrackerBounds {
    pub source: TrackerSource,
    pub frame: CaptureRect,
}

impl TrackerBounds {
    pub fn new(source: TrackerSource, frame: CaptureRect) -> (bounds: Self)
        ensures
            bounds.source == source,
            bounds.frame == frame,
    {
        TrackerBounds { source, frame }
    }
}

/// The files the tracker leaves: the cursor track, and the key track when the
/// keyboard was recorded.
pub struct InputAssetPaths {
    pub cursor: StagedAsset,
    pub keys: Option<StagedAsset>,
}

/// The shift, control, alt and Windows keys, each side on its own.
pub open spec fn spec_is_modifier_key(virtual_key: u32) -> bool {
    virtual_key == 0x10 || virtual_key == 0x11 || virtual_key == 0x12 || virtual_key == 0x5B
        || virtual_key == 0x5C || (0xA0 <= virtual_key <= 0xA5)
}

pub fn is_modifier_key(virtual_key: u32) -> (modifier: bool)
    ensures
        modifier == spec_is_modifier_key(virtual_key),
{
    virtual_key == 0x10 || virtual_key == 0x11 || virtual_key == 0x12 || virtual_key == 0x5B
        || virtual_key == 0x5C || (0xA0 <= virtual_key && virtual_key <= 0xA5)
}

/// Which modifier keys are held down, by virtual key.
pub struct ModifierState {
    pub down: [bool; 256],
}

pub open spec fn any_of_down(down: Seq<bool>, keys: Seq<u32>) -> bool {
    exists|i: int| 0 <= i < keys.len() && down[keys[i] as int]
}

/// The names of the held modifiers, in the order the recording format lists
/// them: meta, control, alt, shift.
pub open spec fn spec_modifier_names(down: Seq<bool>) -> Seq<Seq<char>> {
    let meta: Seq<Seq<char>> = if down[0x5B] || down[0x5C] { seq!["meta"@] } else { seq![] };
    let control: Seq<Seq<char>> = if down[0x11] || down[0xA2] || down[0xA3] {
        seq!["control"@]
    } else {
        seq![]
    };
    let alt: Seq<Seq<char>> = if down[0x12] || down[0xA4] || down[0xA5] {
        seq!["alt"@]
    } else {
        seq![]
    };
    let shift: Seq<Seq<char>> = if down[0x10] || down[0xA0] || down[0xA1] {
        seq!["shift"@]
    } else {
        seq![]
    };
    meta + control + alt + shift
}

pub open spec fn names_of(names: Seq<&'static str>) -> Seq<Seq<char>> {
    names.map_values(|name: &'static str| name@)
}

impl ModifierState {
    /// No key held.
    pub fn empty() -> (state: Self)
        ensures
            forall|k: int| 0 <= k < 256 ==> !(#[trigger] state.down@[k]),
    {
        ModifierState { down: [false; 256] }
    }

    /// Records a key going down or up; keys other than modifiers are ignored.
    pub fn update(&mut self, virtual_key: u32, down: bool)
        ensures
            final(self).down@ == (if spec_is_modifier_key(virtual_key) {
                old(self).down@.update(virtual_key as int, down)
            } else {
                old(self).down@
            }),
    {
        if is_modifier_key(virtual_key) {
            self.down[virtual_key as usize] = down;
        }
    }

    /// Whether any of these keys is held.
    pub fn any_down(&self, virtual_keys: &[u32]) -> (held: bool)
        requires
            forall|i: int| 0 <= i < virtual_keys@.len() ==> #[trigger] virtual_keys@[i] < 256,
        ensures
            held == any_of_down(self.down@, virtual_keys@),
    {
        let mut index: usize = 0;
        while index < virtual_keys.len()
            invariant
                forall|i: int| 0 <= i < virtual_keys@.len() ==> #[trigger] virtual_keys@[i] < 256,
                index <= virtual_keys@.len(),
                forall|i: int| 0 <= i < index ==> !self.down@[#[trigger] virtual_keys@[i] as int],
            decreases virtual_keys@.len() - index,
        {
            if self.down[virtual_keys[index] as usize] {
                return true;
            }
            index = index + 1;
        }
        false
    }

    /// The held modifiers by name, in the recording format's order.
    pub fn serialized(&self) -> (names: Vec<&'static str>)
        ensures
            names_of(names@) == spec_modifier_names(self.down@),
    {
        let mut names: Vec<&'static str> = Vec::new();
        if self.down[0x5B] || self.down[0x5C] {
            names.push("meta");
        }
        let ghost after_meta = names_of(names@);
        if self.down[0x11] || self.down[0xA2] || self.down[0xA3] {
            names.push("control");
        }
        let ghost after_control = names_of(names@);
        if self.down[0x12] || self.down[0xA4] || self.down[0xA5] {
            names.push("alt");
        }
        let ghost after_alt = names_of(names@);
        if self.down[0x10] || self.down[0xA0] || self.down[0xA1] {
            names.push("shift");
        }
        assert(names_of(names@) =~= spec_modifier_names(self.down@));
        names
    }
}

/// The name a key is recorded under.
pub open spec fn spec_key_name(virtual_key: u32) -> Seq<char> {
    if (0x30 <= virtual_key <= 0x39) || (0x41 <= virtual_key <= 0x5A) {
        seq![virtual_key as char]
    } else if 0x70 <= virtual_key <= 0x87 {
        "F"@ + spec_decimal((virtual_key - 0x6F) as nat)
    } else if 0x60 <= virtual_key <= 0x69 {
        "Keypad"@ + spec_decimal((virtual_key - 0x60) as nat)
    } else {
        match named_key(virtual_key) {
            Some(name) => name,
            None => "Key"@ + spec_decimal(virtual_key as nat),
        }
    }
}

pub open spec fn named_key(virtual_key: u32) -> Option<Seq<char>> {
    if virtual_key == 0x08 { Some("Delete"@) }
    else if virtual_key == 0x09 { Some("Tab"@) }
    else if virtual_key == 0x0D { Some("Return"@) }
    else if virtual_key == 0x1B { Some("Escape"@) }
    else if virtual_key == 0x20 { Some("Space"@) }
    else if virtual_key == 0x21 { Some("PageUp"@) }
    else if virtual_key == 0x22 { Some("PageDown"@) }
    else if virtual_key == 0x23 { Some("End"@) }
    else if virtual_key == 0x24 { Some("Home"@) }
    else if virtual_key == 0x25 { Some("LeftArrow"@) }
    else if virtual_key == 0x26 { Some("UpArrow"@) }
    else if virtual_key == 0x27 { Some("RightArrow"@) }
    else if virtual_key == 0x28 { Some("DownArrow"@) }
    else if virtual_key == 0x2D { Some("Insert"@) }
    else if virtual_key == 0x2E { Some("ForwardDelete"@) }
    else if virtual_key == 0x6A { Some("KeypadMultiply"@) }
    else if virtual_key == 0x6B { Some("KeypadPlus"@) }
    else if virtual_key == 0x6D { Some("KeypadMinus"@) }
    else if virtual_key == 0x6E { Some("KeypadDecimal"@) }
    else if virtual_key == 0x6F { Some("KeypadDivide"@) }
    else if virtual_key == 0xBA { Some(";"@) }
    else if virtual_key == 0xBB { Some("="@) }
    else if virtual_key == 0xBC { Some(","@) }
    else if virtual_key == 0xBD { Some("-"@) }
    else if virtual_key == 0xBE { Some("."@) }
    else if virtual_key == 0xBF { Some("/"@) }
    else if virtual_key == 0xC0 { Some("`"@) }
    else if virtual_key == 0xDB { Some("["@) }
    else if virtual_key == 0xDC { Some("\\"@) }
    else if virtual_key == 0xDD { Some("]"@) }
    else if virtual_key == 0xDE { Some("'"@) }
    else { None }
}

fn named_key_text(virtual_key: u32) -> (name: Option<&'static str>)
    ensures
        match name {
            Some(text) => named_key(virtual_key) == Some(text@),
            None => named_key(virtual_key) is None,
        },
{
    match virtual_key {
        0x08 => Some("Delete"),
        0x09 => Some("Tab"),
        0x0D => Some("Return"),
        0x1B => Some("Escape"),
        0x20 => Some("Space"),
        0x21 => Some("PageUp"),
        0x22 => Some("PageDown"),
        0x23 => Some("End"),
        0x24 => Some("Home"),
        0x25 => Some("LeftArrow"),
        0x26 => Some("UpArrow"),
        0x27 => Some("RightArrow"),
        0x28 => Some("DownArrow"),
        0x2D => Some("Insert"),
        0x2E => Some("ForwardDelete"),
        0x6A => Some("KeypadMultiply"),
        0x6B => Some("KeypadPlus"),
        0x6D => Some("KeypadMinus"),
        0x6E => Some("KeypadDecimal"),
        0x6F => Some("KeypadDivide"),
        0xBA => Some(";"),
        0xBB => Some("="),
        0xBC => Some(","),
        0xBD => Some("-"),
        0xBE => Some("."),
        0xBF => Some("/"),
        0xC0 => Some("`"),
        0xDB => Some("["),
        0xDC => Some("\\"),
        0xDD => Some("]"),
        0xDE => Some("'"),
        _ => None,
    }
}

/// The name a key is recorded under: letters and digits as themselves,
/// function and keypad digit keys numbered, a fixed name for the others that
/// have one, and `Key` with the code for the rest.
pub fn key_name(virtual_key: u32) -> (name: String)
    ensures
        name@ == spec_key_name(virtual_key),
{
    let mut name = String::new();
    if (0x30 <= virtual_key && virtual_key <= 0x39) || (0x41 <= virtual_key && virtual_key
        <= 0x5A) {
        let code: u8 = virtual_key as u8;
        assert(code == virtual_key);
        let c: char = code as char;
        crate::text::push_char(&mut name, c);
        assert(name@ =~= seq![virtual_key as char]);
        return name;
    }
    if 0x70 <= virtual_key && virtual_key <= 0x87 {
        push_str(&mut name, "F");
        push_decimal(&mut name, (virtual_key - 0x6F) as u64);
        return name;
    }
    if 0x60 <= virtual_key && virtual_key <= 0x69 {
        push_str(&mut name, "Keypad");
        push_decimal(&mut name, (virtual_key - 0x60) as u64);
        return name;
    }
    match named_key_text(virtual_key) {
        Some(text) => {
            push_str(&mut name, text);
        },
        None => {
            push_str(&mut name, "Key");
            push_decimal(&mut name, virtual_key as u64);
        },
    }
    name
}

/// The signed wheel movement in a mouse hook's data word: its high 16 bits as
/// a two's complement number (a notch is 120).
pub fn wheel_units(mouse_data: u32) -> (units: i16)
    ensures
        units == (if mouse_data / 0x1_0000 >= 0x8000 {
            mouse_data / 0x1_0000 - 0x1_0000
        } else {
            (mouse_data / 0x1_0000) as int
        }),
{
    let high: u32 = mouse_data / 0x1_0000;
    if high >= 0x8000 {
        (high as i32 - 0x1_0000) as i16
    } else {
        high as i16
    }
}

/// The time an event happened on the recording's timeline, in nanoseconds:
/// its distance from the first video frame less the parts of the pauses that
/// came between.
pub open spec fn spec_event_elapsed(
    event: int,
    origin: int,
    pauses: Seq<(MonotonicTime, MonotonicTime)>,
) -> int
    decreases pauses.len(),
{
    if pauses.len() == 0 {
        if event > origin { event - origin } else { 0 }
    } else {
        let earlier = spec_event_elapsed(event, origin, pauses.drop_last());
        let pause = pauses.last();
        let start = pause.0.nanos as int;
        let end = pause.1.nanos as int;
        if event <= origin || start >= event || end <= origin {
            earlier
        } else {
            let overlap_start = if start > origin { start } else { origin };
            let overlap_end = if end < event { end } else { event };
            let overlap = if overlap_end > overlap_start { overlap_end - overlap_start } else { 0 };
            if earlier > overlap { earlier - overlap } else { 0 }
        }
    }
}

pub fn event_elapsed(
    event: MonotonicTime,
    origin: MonotonicTime,
    pauses: &Vec<(MonotonicTime, MonotonicTime)>,
) -> (elapsed: u128)
    ensures
        elapsed == spec_event_elapsed(event.nanos as int, origin.nanos as int, pauses@),
{
    if event.nanos <= origin.nanos {
        proof {
            lemma_elapsed_before_origin(event.nanos as int, origin.nanos as int, pauses@);
        }
        return 0;
    }
    let mut elapsed: u128 = event.nanos - origin.nanos;
    let mut index: usize = 0;
    assert(pauses@.take(0) =~= Seq::<(MonotonicTime, MonotonicTime)>::empty());
    while index < pauses.len()
        invariant
            event.nanos > origin.nanos,
            index <= pauses@.len(),
            elapsed == spec_event_elapsed(
                event.nanos as int,
                origin.nanos as int,
                pauses@.take(index as int),
            ),
        decreases pauses@.len() - index,
    {
        assert(pauses@.take(index + 1).drop_last() =~= pauses@.take(index as int));
        let (start, end) = pauses[index];
        if !(start.nanos >= event.nanos || end.nanos <= origin.nanos) {
            let overlap_start: u128 = if start.nanos > origin.nanos { start.nanos } else { origin.nanos };
            let overlap_end: u128 = if end.nanos < event.nanos { end.nanos } else { event.nanos };
            let overlap: u128 = if overlap_end > overlap_start { overlap_end - overlap_start } else { 0 };
            elapsed = if elapsed > overlap { elapsed - overlap } else { 0 };
        }
        index = index + 1;
    }
    assert(pauses@.take(pauses@.len() as int) =~= pauses@);
    elapsed
}

/// The summed lengths of the pauses, in nanoseconds.
pub open spec fn total_paused_nanos(pauses: Seq<(MonotonicTime, MonotonicTime)>) -> int
    decreases pauses.len(),
{
    if pauses.len() == 0 {
        0
    } else {
        total_paused_nanos(pauses.drop_last()) + (pauses.last().1.nanos - pauses.last().0.nanos)
    }
}

/// Every pause between the first video frame and an event is taken off in
/// full: the event lands at its distance from the origin less the summed
/// lengths of those pauses (when they add up to no more than that distance,
/// as pauses that do not overlap do).
pub proof fn lemma_event_time_removes_every_pause(
    event: int,
    origin: int,
    pauses: Seq<(MonotonicTime, MonotonicTime)>,
)
    requires
        origin <= event,
        forall|i: int|
            0 <= i < pauses.len() ==> origin <= (#[trigger] pauses[i]).0.nanos <= pauses[i].1.nanos
                <= event,
        total_paused_nanos(pauses) <= event - origin,
    ensures
        spec_event_elapsed(event, origin, pauses) == event - origin - total_paused_nanos(pauses),
    decreases pauses.len(),
{
    if pauses.len() > 0 {
        let rest = pauses.drop_last();
        assert forall|i: int| 0 <= i < rest.len() implies origin <= (#[trigger] rest[i]).0.nanos
            <= rest[i].1.nanos <= event by {
            assert(rest[i] == pauses[i]);
        }
        let pause = pauses.last();
        assert(pause == pauses[pauses.len() - 1]);
        lemma_event_time_removes_every_pause(event, origin, rest);
    } else if event <= origin {
        lemma_elapsed_before_origin(event, origin, pauses);
    }
}

/// A pause that begins at or after an event, or ends at or before the first
/// video frame, does not move the event.
pub proof fn lemma_outside_pause_leaves_event(
    event: int,
    origin: int,
    pauses: Seq<(MonotonicTime, MonotonicTime)>,
    pause: (MonotonicTime, MonotonicTime),
)
    requires
        pause.0.nanos >= event || pause.1.nanos <= origin,
    ensures
        spec_event_elapsed(event, origin, pauses.push(pause)) == spec_event_elapsed(
            event,
            origin,
            pauses,
        ),
{
    assert(pauses.push(pause).drop_last() =~= pauses);
}

proof fn lemma_elapsed_before_origin(event: int, origin: int, pauses: Seq<(MonotonicTime, MonotonicTime)>)
    requires
        event <= origin,
    ensures
        spec_event_elapsed(event, origin, pauses) == 0,
    decreases pauses.len(),
{
    if pauses.len() > 0 {
        lemma_elapsed_before_origin(event, origin, pauses.drop_last());
    }
}

/// The tracker's own timeline: when it was synchronized to the first video
/// frame, and its pauses.
pub struct InputTimeline {
    pub synced_at: Option<MonotonicTime>,
    pub paused: bool,
    pub pause_start: Option<MonotonicTime>,
    pub pauses: Vec<(MonotonicTime, MonotonicTime)>,
}

impl InputTimeline {
    pub fn new() -> (timeline: Self)
        ensures
            timeline.synced_at is None,
            !timeline.paused,
            timeline.pause_start is None,
            timeline.pauses@.len() == 0,
    {
        InputTimeline { synced_at: None, paused: false, pause_start: None, pauses: Vec::new() }
    }

    /// Fixes the origin at the first video frame; later calls change nothing.
    pub fn sync(&mut self, now: MonotonicTime)
        ensures
            final(self).synced_at == (match old(self).synced_at {
                Some(at) => Some(at),
                None => Some(now),
            }),
            final(self).paused == old(self).paused,
            final(self).pause_start == old(self).pause_start,
            final(self).pauses@ == old(self).pauses@,
    {
        if self.synced_at.is_none() {
            self.synced_at = Some(now);
        }
    }

    /// Starts a pause now, unless paused already.
    pub fn pause(&mut self, now: MonotonicTime)
        ensures
            final(self).paused,
            final(self).pause_start == (if old(self).paused {
                old(self).pause_start
            } else {
                Some(now)
            }),
            final(self).synced_at == old(self).synced_at,
            final(self).pauses@ == old(self).pauses@,
    {
        if self.paused {
            return;
        }
        self.paused = true;
        self.pause_start = Some(now);
    }

    /// Ends the pause now, recording it.
    pub fn resume(&mut self, now: MonotonicTime)
        ensures
            !final(self).paused,
            final(self).synced_at == old(self).synced_at,
            old(self).paused ==> final(self).pause_start is None,
            final(self).pauses@ == (if old(self).paused && old(self).pause_start is Some {
                old(self).pauses@.push((old(self).pause_start->0, now))
            } else {
                old(self).pauses@
            }),
            !old(self).paused ==> final(self).pause_start == old(self).pause_start,
    {
        if !self.paused {
            return;
        }
        match self.pause_start {
            Some(start) => {
                self.pauses.push((start, now));
                self.pause_start = None;
            },
            None => {},
        }
        self.paused = false;
    }

    /// Where an event at `at` lands on the timeline, in nanoseconds; an error
    /// before synchronization.
    pub fn event_time(&self, at: MonotonicTime) -> (elapsed: Result<u128, RecorderError>)
        ensures
            match elapsed {
                Ok(nanos) => self.synced_at matches Some(origin) && nanos == spec_event_elapsed(
                    at.nanos as int,
                    origin.nanos as int,
                    self.pauses@,
                ),
                Err(error) => self.synced_at is None && error.code@ == "CAPTURE_ERROR"@
                    && error.message@ == "Input tracker was not synchronized to the first video frame"@,
            },
    {
        match self.synced_at {
            Some(origin) => Ok(event_elapsed(at, origin, &self.pauses)),
            None => Err(
                RecorderError::capture("Input tracker was not synchronized to the first video frame"),
            ),
        }
    }
}

/// A key event as the tracker keeps it.
pub struct KeyRecord {
    pub key: String,
    pub key_code: u32,
    pub modifiers: Vec<&'static str>,
}

/// Handles a key going down or up: the modifier state follows every key;
/// a key that is not a modifier is recorded, with the modifiers held, unless
/// the tracker is paused or the keyboard is not recorded.
pub fn keyboard_event(
    modifiers: &mut ModifierState,
    virtual_key: u32,
    down: bool,
    paused: bool,
    keyboard_enabled: bool,
) -> (record: Option<KeyRecord>)
    ensures
        final(modifiers).down@ == (if spec_is_modifier_key(virtual_key) {
            old(modifiers).down@.update(virtual_key as int, down)
        } else {
            old(modifiers).down@
        }),
        record is Some <==> !spec_is_modifier_key(virtual_key) && !paused && keyboard_enabled,
        record matches Some(r) ==> r.key@ == spec_key_name(virtual_key) && r.key_code == virtual_key
            && names_of(r.modifiers@) == spec_modifier_names(final(modifiers).down@),
{
    modifiers.update(virtual_key, down);
    if is_modifier_key(virtual_key) || paused || !keyboard_enabled {
        return None;
    }
    Some(KeyRecord { key: key_name(virtual_key), key_code: virtual_key, modifiers: modifiers.serialized() })
}

/// Hands over the hook thread's stop event and thread once the stop event has
/// been signalled; when anything is missing or signalling fails, both stay
/// where they are so that stopping can be tried again.
pub fn signal_and_take_hook_resources<H: Copy, T, F: FnOnce(H) -> Result<(), String>>(
    stop_event: &mut Option<H>,
    thread: &mut Option<T>,
    signal: F,
) -> (taken: Result<(H, T), RecorderError>)
    requires
        forall|event: H| signal.requires((event,)),
    ensures
        match taken {
            Ok((event, handle)) => *old(stop_event) == Some(event) && *old(thread) == Some(handle)
                && final(stop_event).is_none() && final(thread).is_none() && (exists|
                outcome: Result<(), String>,
            | signal.ensures((event,), outcome) && outcome is Ok),
            Err(error) => *final(stop_event) == *old(stop_event) && *final(thread) == *old(thread)
                && error.code@ == "CAPTURE_ERROR"@ && (if old(stop_event).is_none() {
                error.message@ == "Input hook stop event is unavailable"@
            } else if old(thread).is_none() {
                error.message@ == "Input hook thread is unavailable"@
            } else {
                exists|description: String|
                    signal.ensures((old(stop_event)->0,), Err::<(), String>(description))
                        && error.message@ == "Failed to signal input hook shutdown: "@
                        + description@
            }),
        },
{
    let event = match stop_event {
        Some(event) => *event,
        None => {
            return Err(RecorderError::capture("Input hook stop event is unavailable"));
        },
    };
    if thread.is_none() {
        return Err(RecorderError::capture("Input hook thread is unavailable"));
    }
    let outcome = signal(event);
    match outcome {
        Ok(()) => {
            assert(outcome is Ok);
        },
        Err(description) => {
            let mut message = String::new();
            push_str(&mut message, "Failed to signal input hook shutdown: ");
            push_str(&mut message, description.as_str());
            return Err(RecorderError { code: "CAPTURE_ERROR", message });
        },
    }
    let taken_event = stop_event.take();
    let taken_thread = thread.take();
    match (taken_event, taken_thread) {
        (Some(event), Some(handle)) => Ok((event, handle)),
        _ => Err(RecorderError::capture("Input hook thread is unavailable")),
    }
}

} // verus!

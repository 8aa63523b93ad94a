//! The decisions of the display and window selectors, the countdown timer and
//! the screenshot request.
use vstd::prelude::*;
use crate::geometry::Rect;
use crate::protocol::ResponseError;
use crate::recorder_types::CaptureRect;
use crate::text::same_text;

verus! {

/// The displays in the order their overlays are made, with the number each
/// shows: the primary display is 1, the others count on from 2.
pub open spec fn primary_entries(primary: Seq<bool>, count: int) -> Seq<(usize, i32)>
    decreases count,
{
    if count <= 0 {
        Seq::empty()
    } else if primary[count - 1] {
        primary_entries(primary, count - 1).push(((count - 1) as usize, 1i32))
    } else {
        primary_entries(primary, count - 1)
    }
}

pub open spec fn other_entries(primary: Seq<bool>, count: int) -> Seq<(usize, i32)>
    decreases count,
{
    if count <= 0 {
        Seq::empty()
    } else if !primary[count - 1] {
        let earlier = other_entries(primary, count - 1);
        earlier.push(((count - 1) as usize, (earlier.len() + 2) as i32))
    } else {
        other_entries(primary, count - 1)
    }
}

pub fn display_numbers(primary: &Vec<bool>) -> (entries: Vec<(usize, i32)>)
    requires
        primary@.len() < i32::MAX,
    ensures
        entries@ == primary_entries(primary@, primary@.len() as int) + other_entries(
            primary@,
            primary@.len() as int,
        ),
{
    let mut entries: Vec<(usize, i32)> = Vec::new();
    let mut index: usize = 0;
    while index < primary.len()
        invariant
            index <= primary@.len(),
            entries@ == primary_entries(primary@, index as int),
        decreases primary@.len() - index,
    {
        if primary[index] {
            entries.push((index, 1));
        }
        index = index + 1;
    }
    let ghost firsts = entries@;
    let mut number: i32 = 1;
    let mut index: usize = 0;
    while index < primary.len()
        invariant
            primary@.len() < i32::MAX,
            index <= primary@.len(),
            firsts == primary_entries(primary@, primary@.len() as int),
            entries@ == firsts + other_entries(primary@, index as int),
            number == other_entries(primary@, index as int).len() + 1,
            other_entries(primary@, index as int).len() <= index,
        decreases primary@.len() - index,
    {
        if !primary[index] {
            number = number + 1;
            entries.push((index, number));
        }
        index = index + 1;
    }
    entries
}

/// The request a display selection will answer; only one at a time.
pub struct PendingSelection {
    pub pending: Option<String>,
}

impl PendingSelection {
    pub fn new() -> (selection: Self)
        ensures
            selection.pending is None,
    {
        PendingSelection { pending: None }
    }

    /// Starts a selection for request `id`, unless one is running.
    pub fn begin(&mut self, id: &str) -> (started: Result<(), ResponseError>)
        ensures
            old(self).pending is None ==> started is Ok && (final(self).pending matches Some(p) && p@
                == id@),
            old(self).pending is Some ==> final(self).pending == old(self).pending && (started matches Err(error)
                && error.code@ == "ALREADY_ACTIVE"@ && error.message@
                == "Display selector is already active"@),
    {
        if self.pending.is_some() {
            return Err(ResponseError::new("ALREADY_ACTIVE", "Display selector is already active"));
        }
        self.pending = Some(id.to_owned());
        Ok(())
    }

    /// Takes the request to answer, leaving none.
    pub fn take(&mut self) -> (taken: Option<String>)
        ensures
            taken == old(self).pending,
            final(self).pending is None,
    {
        self.pending.take()
    }
}

/// Window classes of the shell that are never offered for capture.
pub open spec fn is_excluded_class(class_name: Seq<char>) -> bool {
    class_name == "Progman"@ || class_name == "WorkerW"@ || class_name == "Shell_TrayWnd"@
        || class_name == "Shell_SecondaryTrayWnd"@
}

fn excluded_class(class_name: &str) -> (excluded: bool)
    ensures
        excluded == is_excluded_class(class_name@),
{
    same_text(class_name, "Progman") || same_text(class_name, "WorkerW") || same_text(
        class_name,
        "Shell_TrayWnd",
    ) || same_text(class_name, "Shell_SecondaryTrayWnd")
}

/// Windows smaller than this on either side are not offered.
pub const MIN_WINDOW_SIZE: i32 = 50;
/// The extended style bit of tool windows.
pub const TOOL_WINDOW_STYLE: u32 = 0x80;

/// What the window list reads of a top-level window.
pub struct WindowFacts<'a> {
    pub visible: bool,
    pub iconic: bool,
    pub ex_style: u32,
    pub cloaked: bool,
    pub class_name: &'a str,
    pub bounds: Option<Rect>,
    pub pid: u32,
}

/// A window is offered when it is visible, not minimised, not a tool window,
/// not cloaked, not part of the shell, at least 50 by 50 pixels, and owned by
/// another process.
pub open spec fn spec_is_capture_target(facts: WindowFacts, current_pid: u32) -> bool {
    &&& facts.visible
    &&& !facts.iconic
    &&& facts.ex_style & TOOL_WINDOW_STYLE == 0
    &&& !facts.cloaked
    &&& !is_excluded_class(facts.class_name@)
    &&& facts.bounds matches Some(rect) && rect.right - rect.left >= MIN_WINDOW_SIZE && rect.bottom
        - rect.top >= MIN_WINDOW_SIZE
    &&& facts.pid != 0
    &&& facts.pid != current_pid
}

pub fn is_capture_target(facts: &WindowFacts, current_pid: u32) -> (target: bool)
    ensures
        target == spec_is_capture_target(*facts, current_pid),
{
    if !facts.visible || facts.iconic || facts.ex_style & TOOL_WINDOW_STYLE != 0 || facts.cloaked {
        return false;
    }
    if excluded_class(facts.class_name) {
        return false;
    }
    let rect = match facts.bounds {
        Some(rect) => rect,
        None => {
            return false;
        },
    };
    if (rect.right as i64) - (rect.left as i64) < MIN_WINDOW_SIZE as i64 || (rect.bottom as i64)
        - (rect.top as i64) < MIN_WINDOW_SIZE as i64 {
        return false;
    }
    facts.pid != 0 && facts.pid != current_pid
}

/// A window without a title is listed under its program's name.
pub fn target_title(raw_title: String, owner_name: &String) -> (title: String)
    ensures
        title@ == (if raw_title@.len() == 0 { owner_name@ } else { raw_title@ }),
{
    if raw_title.as_str().is_empty() {
        owner_name.clone()
    } else {
        raw_title
    }
}

/// What a countdown `show` request asks for.
#[derive(Clone, Copy, Debug, PartialEq, Eq, Structural)]
pub struct TimerShow {
    pub x: i32,
    pub y: i32,
    pub duration: i32,
    pub background: u32,
    pub foreground: u32,
}

/// The countdown appears at (100, 100) for 5 seconds unless told otherwise,
/// and runs at least a second; it needs both theme colours.
pub fn timer_show(
    x: Option<i32>,
    y: Option<i32>,
    duration: Option<i32>,
    background: Option<u32>,
    foreground: Option<u32>,
) -> (show: Result<TimerShow, ResponseError>)
    ensures
        match show {
            Ok(request) => background == Some(request.background) && foreground == Some(
                request.foreground,
            ) && request.x == (match x {
                Some(v) => v,
                None => 100,
            }) && request.y == (match y {
                Some(v) => v,
                None => 100,
            }) && request.duration == (match duration {
                Some(v) => if v > 1 { v } else { 1 },
                None => 5,
            }),
            Err(error) => (background is None || foreground is None) && error.code@
                == "INVALID_PARAMS"@ && error.message@ == "show requires theme colors"@,
        },
{
    let (background, foreground) = match (background, foreground) {
        (Some(background), Some(foreground)) => (background, foreground),
        _ => {
            return Err(ResponseError::new("INVALID_PARAMS", "show requires theme colors"));
        },
    };
    let requested: i32 = match duration {
        Some(v) => v,
        None => 5,
    };
    Ok(
        TimerShow {
            x: match x {
                Some(v) => v,
                None => 100,
            },
            y: match y {
                Some(v) => v,
                None => 100,
            },
            duration: if requested > 1 { requested } else { 1 },
            background,
            foreground,
        },
    )
}

/// One second of the countdown; says whether it has run out.
pub fn countdown_tick(remaining: &mut i32) -> (finished: bool)
    requires
        *old(remaining) > i32::MIN,
    ensures
        *final(remaining) == *old(remaining) - 1,
        finished == (*final(remaining) <= 0),
{
    *remaining = *remaining - 1;
    *remaining <= 0
}

/// The screen rectangle of a capture area with a positive size.
pub fn area_bounds(rect: CaptureRect) -> (bounds: Option<Rect>)
    requires
        rect.width > 0 ==> rect.x + rect.width <= i32::MAX,
        rect.height > 0 ==> rect.y + rect.height <= i32::MAX,
    ensures
        bounds == (if rect.width <= 0 || rect.height <= 0 {
            None
        } else {
            Some(
                Rect {
                    left: rect.x,
                    top: rect.y,
                    right: (rect.x + rect.width) as i32,
                    bottom: (rect.y + rect.height) as i32,
                },
            )
        }),
{
    if rect.width <= 0 || rect.height <= 0 {
        return None;
    }
    Some(Rect { left: rect.x, top: rect.y, right: rect.x + rect.width, bottom: rect.y + rect.height })
}

} // verus!

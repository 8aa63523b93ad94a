//! The camera preview's decisions: which settings a request changes, whether
//! the capture has to restart, and the generation counter that lets a newer
//! request cancel an older one still in flight.
use vstd::prelude::*;
use crate::geometry::Rect;
use crate::protocol::ResponseError;
use crate::text::same_text;

verus! {

/// The preview's settings.
#[derive(Debug)]
pub struct CameraConfig {
    pub device_id: Option<String>,
    pub device_name: Option<String>,
    pub resolution: String,
    pub flipped: bool,
    pub content_protected: bool,
}

pub open spec fn optional_view(value: Option<String>) -> Option<Seq<char>> {
    match value {
        Some(text) => Some(text@),
        None => None,
    }
}

pub open spec fn optional_str_view(value: Option<&str>) -> Option<Seq<char>> {
    match value {
        Some(text) => Some(text@),
        None => None,
    }
}

fn owned(value: Option<&str>) -> (text: Option<String>)
    ensures
        optional_view(text) == optional_str_view(value),
{
    match value {
        Some(text) => Some(text.to_owned()),
        None => None,
    }
}

fn same_optional(left: &Option<String>, right: &Option<String>) -> (same: bool)
    ensures
        same == (optional_view(*left) == optional_view(*right)),
{
    match (left, right) {
        (Some(a), Some(b)) => same_text(a.as_str(), b.as_str()),
        (None, None) => true,
        _ => false,
    }
}

impl CameraConfig {
    /// No device chosen, 720p, not mirrored, not protected.
    pub fn new() -> (config: Self)
        ensures
            config.device_id is None,
            config.device_name is None,
            config.resolution@ == "720p"@,
            !config.flipped,
            !config.content_protected,
    {
        CameraConfig {
            device_id: None,
            device_name: None,
            resolution: "720p".to_owned(),
            flipped: false,
            content_protected: false,
        }
    }

    /// Takes the settings of a `show` request (absent values reset to the
    /// defaults) and says whether the device or resolution changed.
    pub fn apply_show(
        &mut self,
        device_id: Option<&str>,
        device_name: Option<&str>,
        resolution: Option<&str>,
        flipped: Option<bool>,
    ) -> (changed: bool)
        ensures
            optional_view(final(self).device_id) == optional_str_view(device_id),
            optional_view(final(self).device_name) == optional_str_view(device_name),
            final(self).resolution@ == (match resolution {
                Some(text) => text@,
                None => "720p"@,
            }),
            final(self).flipped == (match flipped {
                Some(value) => value,
                None => false,
            }),
            final(self).content_protected == old(self).content_protected,
            changed == (optional_view(old(self).device_id) != optional_view(final(self).device_id)
                || optional_view(old(self).device_name) != optional_view(final(self).device_name)
                || old(self).resolution@ != final(self).resolution@),
    {
        let new_id = owned(device_id);
        let new_name = owned(device_name);
        let new_resolution: String = match resolution {
            Some(text) => text.to_owned(),
            None => "720p".to_owned(),
        };
        let changed = !same_optional(&self.device_id, &new_id) || !same_optional(
            &self.device_name,
            &new_name,
        ) || !same_text(self.resolution.as_str(), new_resolution.as_str());
        self.device_id = new_id;
        self.device_name = new_name;
        self.resolution = new_resolution;
        self.flipped = match flipped {
            Some(value) => value,
            None => false,
        };
        changed
    }

    /// Takes the settings an `update` request carries; a device key that is
    /// present with a non-string value clears the setting. Says whether the
    /// device or resolution changed.
    pub fn apply_update(
        &mut self,
        device_id: Option<Option<&str>>,
        device_name: Option<Option<&str>>,
        resolution: Option<&str>,
        flipped: Option<bool>,
    ) -> (changed: bool)
        ensures
            optional_view(final(self).device_id) == (match device_id {
                Some(value) => optional_str_view(value),
                None => optional_view(old(self).device_id),
            }),
            optional_view(final(self).device_name) == (match device_name {
                Some(value) => optional_str_view(value),
                None => optional_view(old(self).device_name),
            }),
            final(self).resolution@ == (match resolution {
                Some(text) => text@,
                None => old(self).resolution@,
            }),
            final(self).flipped == (match flipped {
                Some(value) => value,
                None => old(self).flipped,
            }),
            final(self).content_protected == old(self).content_protected,
            changed == (optional_view(old(self).device_id) != optional_view(final(self).device_id)
                || optional_view(old(self).device_name) != optional_view(final(self).device_name)
                || old(self).resolution@ != final(self).resolution@),
    {
        let mut changed = false;
        match device_id {
            Some(value) => {
                let new_id = owned(value);
                changed = changed || !same_optional(&self.device_id, &new_id);
                self.device_id = new_id;
            },
            None => {},
        }
        match device_name {
            Some(value) => {
                let new_name = owned(value);
                changed = changed || !same_optional(&self.device_name, &new_name);
                self.device_name = new_name;
            },
            None => {},
        }
        match resolution {
            Some(text) => {
                changed = changed || !same_text(self.resolution.as_str(), text);
                self.resolution = text.to_owned();
            },
            None => {},
        }
        match flipped {
            Some(value) => {
                self.flipped = value;
            },
            None => {},
        }
        changed
    }
}

/// The capture size asked of the camera for a resolution name.
pub fn requested_size(resolution: &str) -> (size: (u32, u32))
    ensures
        size == (if resolution@ == "1080p"@ {
            (1920u32, 1080u32)
        } else if resolution@ == "480p"@ {
            (640u32, 480u32)
        } else if resolution@ == "4k"@ {
            (3840u32, 2160u32)
        } else {
            (1280u32, 720u32)
        }),
{
    if same_text(resolution, "1080p") {
        (1920, 1080)
    } else if same_text(resolution, "480p") {
        (640, 480)
    } else if same_text(resolution, "4k") {
        (3840, 2160)
    } else {
        (1280, 720)
    }
}

/// Where the preview is in its life: each request that restarts or hides it
/// starts a new generation, and work of an older generation is dropped.
#[derive(Clone, Copy, Debug, PartialEq, Eq, Structural)]
pub struct CameraLifecycle {
    pub generation: u64,
    pub running: bool,
    pub visible: bool,
}

impl CameraLifecycle {
    pub fn new() -> (lifecycle: Self)
        ensures
            lifecycle == (CameraLifecycle { generation: 0, running: false, visible: false }),
    {
        CameraLifecycle { generation: 0, running: false, visible: false }
    }

    /// Starts a new generation, stopped and hidden.
    pub fn advance_generation(&mut self) -> (generation: u64)
        ensures
            generation == (if old(self).generation == u64::MAX {
                0
            } else {
                old(self).generation + 1
            }),
            *final(self) == (CameraLifecycle { generation, running: false, visible: false }),
    {
        self.generation = if self.generation == u64::MAX { 0 } else { self.generation + 1 };
        self.running = false;
        self.visible = false;
        self.generation
    }

    pub fn is_generation(&self, generation: u64) -> (current: bool)
        ensures
            current == (self.generation == generation),
    {
        self.generation == generation
    }

    /// Records a change of state, but only for the current generation.
    pub fn update(
        &mut self,
        generation: u64,
        running: Option<bool>,
        visible: Option<bool>,
    ) -> (current: bool)
        ensures
            current == (old(self).generation == generation),
            final(self).generation == old(self).generation,
            final(self).running == (if current && running is Some {
                running->0
            } else {
                old(self).running
            }),
            final(self).visible == (if current && visible is Some {
                visible->0
            } else {
                old(self).visible
            }),
    {
        if self.generation != generation {
            return false;
        }
        match running {
            Some(value) => {
                self.running = value;
            },
            None => {},
        }
        match visible {
            Some(value) => {
                self.visible = value;
            },
            None => {},
        }
        true
    }

    /// Marks the preview visible, if the generation is current and running.
    pub fn mark_visible(&mut self, generation: u64) -> (shown: bool)
        ensures
            shown == (old(self).generation == generation && old(self).running),
            final(self).generation == old(self).generation,
            final(self).running == old(self).running,
            final(self).visible == (if shown { true } else { old(self).visible }),
    {
        if self.generation != generation || !self.running {
            return false;
        }
        self.visible = true;
        true
    }

    /// For a `show` request: a changed device or resolution, or a stopped
    /// capture, restarts the preview in a new generation; otherwise the
    /// current generation shows the running preview again.
    pub fn begin_show(&mut self, changed: bool) -> (plan: (bool, u64))
        ensures
            plan.0 == (changed || !old(self).running),
            plan.0 ==> plan.1 == (if old(self).generation == u64::MAX {
                0
            } else {
                old(self).generation + 1
            }) && *final(self) == (CameraLifecycle {
                generation: plan.1,
                running: false,
                visible: false,
            }),
            !plan.0 ==> plan.1 == old(self).generation && *final(self) == *old(self),
    {
        let restart = changed || !self.running;
        if restart {
            let generation = self.advance_generation();
            (true, generation)
        } else {
            (false, self.generation)
        }
    }
}

/// A request of an older generation is answered as replaced.
pub fn replaced_error() -> (error: ResponseError)
    ensures
        error.code@ == "CAMERA_CANCELLED"@,
        error.message@ == "Camera preview was replaced"@,
{
    ResponseError::new("CAMERA_CANCELLED", "Camera preview was replaced")
}

/// Why the preview window could not be shown.
#[derive(Clone, Copy, Debug, PartialEq, Eq, Structural)]
pub enum CameraWindowError {
    Create,
    ContentProtection,
}

impl CameraWindowError {
    pub fn code(&self) -> (code: &'static str)
        ensures
            code@ == (match self {
                CameraWindowError::Create => "WINDOW_ERROR"@,
                CameraWindowError::ContentProtection => "CONTENT_PROTECTION_ERROR"@,
            }),
    {
        match self {
            CameraWindowError::Create => "WINDOW_ERROR",
            CameraWindowError::ContentProtection => "CONTENT_PROTECTION_ERROR",
        }
    }

    pub fn message(&self) -> (message: &'static str)
        ensures
            message@ == (match self {
                CameraWindowError::Create => "Failed to create camera preview window"@,
                CameraWindowError::ContentProtection =>
                    "Failed to update camera preview content protection"@,
            }),
    {
        match self {
            CameraWindowError::Create => "Failed to create camera preview window",
            CameraWindowError::ContentProtection => "Failed to update camera preview content protection",
        }
    }
}

/// The corner offsets stay within `i32`.
pub open spec fn corner_fits(bounds: Rect, size: i32) -> bool {
    &&& i32::MIN <= bounds.right - size && bounds.right - size - 32 <= i32::MAX
    &&& i32::MIN <= bounds.bottom - size && bounds.bottom - size - 32 <= i32::MAX
    &&& i32::MIN <= bounds.right - size - 32 && bounds.right - size <= i32::MAX
    &&& i32::MIN <= bounds.bottom - size - 32 && bounds.bottom - size <= i32::MAX
}

/// Where a new preview of `size` pixels first appears: 32 pixels in from the
/// bottom-right corner of the primary display, or of the first display when
/// none is primary, or at (100, 100) without displays. `displays` lists each
/// display's bounds and whether it is the primary one.
pub fn default_position(displays: &Vec<(bool, Rect)>, size: i32) -> (position: (i32, i32))
    requires
        forall|k: int| 0 <= k < displays@.len() ==> corner_fits(#[trigger] displays@[k].1, size),
    ensures
        displays@.len() == 0 ==> position == (100i32, 100i32),
        forall|p: int|
            0 <= p < displays@.len() && #[trigger] displays@[p].0 && (forall|k: int|
                0 <= k < p ==> !displays@[k].0) ==> position == (
                (displays@[p].1.right - size - 32) as i32,
                (displays@[p].1.bottom - size - 32) as i32,
            ),
        displays@.len() > 0 && (forall|k: int| 0 <= k < displays@.len() ==> !#[trigger] displays@[k].0)
            ==> position == (
            (displays@[0].1.right - size - 32) as i32,
            (displays@[0].1.bottom - size - 32) as i32,
        ),
{
    let mut index: usize = 0;
    while index < displays.len()
        invariant
            index <= displays@.len(),
            forall|k: int| 0 <= k < index ==> !#[trigger] displays@[k].0,
            forall|k: int| 0 <= k < displays@.len() ==> corner_fits(#[trigger] displays@[k].1, size),
        decreases displays@.len() - index,
    {
        if displays[index].0 {
            let bounds = displays[index].1;
            return (bounds.right - size - 32, bounds.bottom - size - 32);
        }
        index = index + 1;
    }
    if displays.len() == 0 {
        return (100, 100);
    }
    let bounds = displays[0].1;
    (bounds.right - size - 32, bounds.bottom - size - 32)
}

} // verus!

//! Choosing a camera from the enumerated devices by a requested device ID or
//! friendly name.
use vstd::prelude::*;
use crate::text::{
    chars_of, contains_part, eq_ignore_ascii_case, spec_contains_part, spec_eq_ignore_ascii_case,
    spec_trim, string_of, to_lowercase, trim_chars, unicode_lowercase,
};

verus! {

/// Why no camera could be chosen.
#[derive(Clone, Copy, Debug, PartialEq, Eq, Structural)]
pub enum CameraSelectionError {
    NoCamera,
    AmbiguousName,
    AmbiguousPartialName,
    Unavailable,
}

impl CameraSelectionError {
    pub open spec fn spec_message(self) -> Seq<char> {
        match self {
            CameraSelectionError::NoCamera => "No camera device found"@,
            CameraSelectionError::AmbiguousName =>
                "Multiple cameras have the selected name; select a device ID"@,
            CameraSelectionError::AmbiguousPartialName =>
                "The selected camera name matches multiple devices"@,
            CameraSelectionError::Unavailable => "The selected camera is no longer available"@,
        }
    }

    /// The message shown to the user for this error.
    pub fn message(&self) -> (text: String)
        ensures
            text@ == self.spec_message(),
    {
        match self {
            CameraSelectionError::NoCamera => "No camera device found".to_owned(),
            CameraSelectionError::AmbiguousName =>
                "Multiple cameras have the selected name; select a device ID".to_owned(),
            CameraSelectionError::AmbiguousPartialName =>
                "The selected camera name matches multiple devices".to_owned(),
            CameraSelectionError::Unavailable =>
                "The selected camera is no longer available".to_owned(),
        }
    }
}

/// The (device ID, friendly name) pairs as character sequences.
pub open spec fn identities(devices: Seq<(String, String)>) -> Seq<(Seq<char>, Seq<char>)> {
    devices.map_values(|device: (String, String)| (device.0@, device.1@))
}

pub open spec fn optional_text(value: Option<&str>) -> Option<Seq<char>> {
    match value {
        Some(text) => Some(text@),
        None => None,
    }
}

/// A requested identity counts only when something is left after trimming.
pub open spec fn requested(value: Option<Seq<char>>) -> Option<Seq<char>> {
    match value {
        Some(text) => if spec_trim(text).len() > 0 {
            Some(spec_trim(text))
        } else {
            None
        },
        None => None,
    }
}

/// The indices below `n` that satisfy `pred`, in increasing order.
pub open spec fn indices_where(n: nat, pred: spec_fn(int) -> bool) -> Seq<int>
    decreases n,
{
    if n == 0 {
        Seq::empty()
    } else {
        let rest = indices_where((n - 1) as nat, pred);
        if pred(n - 1) {
            rest.push(n - 1)
        } else {
            rest
        }
    }
}

/// `index` is the first device whose ID equals `id`, ignoring ASCII case.
pub open spec fn is_first_id_match(
    ids: Seq<(Seq<char>, Seq<char>)>,
    id: Seq<char>,
    index: int,
) -> bool {
    &&& 0 <= index < ids.len()
    &&& spec_eq_ignore_ascii_case(ids[index].0, id)
    &&& forall|j: int| 0 <= j < index ==> !spec_eq_ignore_ascii_case(#[trigger] ids[j].0, id)
}

pub open spec fn id_match(ids: Seq<(Seq<char>, Seq<char>)>, id: Seq<char>) -> Option<int> {
    if exists|i: int| 0 <= i < ids.len() && spec_eq_ignore_ascii_case(#[trigger] ids[i].0, id) {
        Some(choose|i: int| is_first_id_match(ids, id, i))
    } else {
        None
    }
}

/// The devices whose name equals `name`, ignoring ASCII case.
pub open spec fn exact_name_indices(ids: Seq<(Seq<char>, Seq<char>)>, name: Seq<char>) -> Seq<
    int,
> {
    indices_where(ids.len(), |i: int| spec_eq_ignore_ascii_case(ids[i].1, name))
}

/// The lowercased names that contain the lowercased request, or that it contains.
pub open spec fn partial_indices(lowered: Seq<Seq<char>>, needle: Seq<char>) -> Seq<int> {
    indices_where(
        lowered.len(),
        |i: int| spec_contains_part(lowered[i], needle) || spec_contains_part(needle, lowered[i]),
    )
}

pub open spec fn lowered_names(ids: Seq<(Seq<char>, Seq<char>)>) -> Seq<Seq<char>> {
    ids.map_values(|device: (Seq<char>, Seq<char>)| unicode_lowercase(device.1))
}

/// Which camera is chosen: the first device whose ID matches the requested
/// one; else the single device whose name matches exactly; else the single
/// device whose lowercased name contains the request or is contained in it;
/// the first device when nothing was requested; an error otherwise.
pub open spec fn camera_choice(
    ids: Seq<(Seq<char>, Seq<char>)>,
    requested_id: Option<Seq<char>>,
    requested_name: Option<Seq<char>>,
) -> Result<int, CameraSelectionError> {
    let id = requested(requested_id);
    let name = requested(requested_name);
    let exact = exact_name_indices(ids, name->0);
    let partial = partial_indices(lowered_names(ids), unicode_lowercase(name->0));
    if ids.len() == 0 {
        Err(CameraSelectionError::NoCamera)
    } else if id is Some && id_match(ids, id->0) is Some {
        Ok(id_match(ids, id->0)->0)
    } else if name is Some && exact.len() == 1 {
        Ok(exact[0])
    } else if name is Some && exact.len() > 1 {
        Err(CameraSelectionError::AmbiguousName)
    } else if name is Some && partial.len() == 1 {
        Ok(partial[0])
    } else if name is Some && partial.len() > 1 {
        Err(CameraSelectionError::AmbiguousPartialName)
    } else if id is Some || name is Some {
        Err(CameraSelectionError::Unavailable)
    } else {
        Ok(0)
    }
}

pub open spec fn as_indices(found: Seq<usize>) -> Seq<int> {
    found.map_values(|index: usize| index as int)
}

/// The trimmed request, when it is not blank.
fn requested_chars(value: Option<&str>) -> (trimmed: Option<Vec<char>>)
    ensures
        match trimmed {
            Some(t) => requested(optional_text(value)) == Some(t@),
            None => requested(optional_text(value)) is None,
        },
{
    match value {
        Some(text) => {
            let chars = chars_of(text);
            let trimmed = trim_chars(&chars);
            if trimmed.len() > 0 {
                Some(trimmed)
            } else {
                None
            }
        },
        None => None,
    }
}

fn first_id_match(devices: &Vec<(String, String)>, id: &Vec<char>) -> (found: Option<usize>)
    ensures
        match found {
            Some(index) => id_match(identities(devices@), id@) == Some(index as int),
            None => id_match(identities(devices@), id@) is None,
        },
{
    let ghost ids = identities(devices@);
    let mut index: usize = 0;
    while index < devices.len()
        invariant
            ids == identities(devices@),
            index <= devices@.len(),
            forall|j: int| 0 <= j < index ==> !spec_eq_ignore_ascii_case(#[trigger] ids[j].0, id@),
        decreases devices@.len() - index,
    {
        let device_id = chars_of(devices[index].0.as_str());
        if eq_ignore_ascii_case(&device_id, id) {
            assert(is_first_id_match(ids, id@, index as int));
            let ghost chosen = choose|i: int| is_first_id_match(ids, id@, i);
            assert(chosen == index as int) by {
                if chosen < index {
                    assert(!spec_eq_ignore_ascii_case(ids[chosen].0, id@));
                } else if chosen > index {
                    assert(!spec_eq_ignore_ascii_case(ids[index as int].0, id@));
                }
            }
            return Some(index);
        }
        index = index + 1;
    }
    None
}

fn exact_name_matches(devices: &Vec<(String, String)>, name: &Vec<char>) -> (found: Vec<usize>)
    ensures
        as_indices(found@) == exact_name_indices(identities(devices@), name@),
{
    let ghost ids = identities(devices@);
    let ghost pred = |i: int| spec_eq_ignore_ascii_case(ids[i].1, name@);
    let mut found: Vec<usize> = Vec::new();
    let mut index: usize = 0;
    while index < devices.len()
        invariant
            ids == identities(devices@),
            pred == (|i: int| spec_eq_ignore_ascii_case(ids[i].1, name@)),
            index <= devices@.len(),
            as_indices(found@) == indices_where(index as nat, pred),
        decreases devices@.len() - index,
    {
        let device_name = chars_of(devices[index].1.as_str());
        if eq_ignore_ascii_case(&device_name, name) {
            found.push(index);
        }
        assert(as_indices(found@) =~= indices_where((index + 1) as nat, pred));
        index = index + 1;
    }
    found
}

/// The devices whose lowercased name contains the lowercased request, or is
/// contained in it.
pub fn partial_name_matches(lowered: &Vec<Vec<char>>, needle: &Vec<char>) -> (found: Vec<usize>)
    ensures
        as_indices(found@) == partial_indices(lowered@.map_values(|n: Vec<char>| n@), needle@),
{
    let ghost names = lowered@.map_values(|n: Vec<char>| n@);
    let ghost pred = |i: int|
        spec_contains_part(names[i], needle@) || spec_contains_part(needle@, names[i]);
    let mut found: Vec<usize> = Vec::new();
    let mut index: usize = 0;
    while index < lowered.len()
        invariant
            names == lowered@.map_values(|n: Vec<char>| n@),
            pred == (|i: int|
                spec_contains_part(names[i], needle@) || spec_contains_part(needle@, names[i])),
            index <= lowered@.len(),
            as_indices(found@) == indices_where(index as nat, pred),
        decreases lowered@.len() - index,
    {
        let name = &lowered[index];
        if contains_part(name, needle) || contains_part(needle, name) {
            found.push(index);
        }
        assert(as_indices(found@) =~= indices_where((index + 1) as nat, pred));
        index = index + 1;
    }
    found
}

fn lowercase_names(devices: &Vec<(String, String)>) -> (lowered: Vec<Vec<char>>)
    ensures
        lowered@.map_values(|n: Vec<char>| n@) == lowered_names(identities(devices@)),
{
    let ghost names = lowered_names(identities(devices@));
    let mut lowered: Vec<Vec<char>> = Vec::new();
    let mut index: usize = 0;
    while index < devices.len()
        invariant
            names == lowered_names(identities(devices@)),
            names.len() == devices@.len(),
            index <= devices@.len(),
            lowered@.len() == index,
            forall|k: int| 0 <= k < index ==> (#[trigger] lowered@[k])@ == names[k],
        decreases devices@.len() - index,
    {
        let lower = to_lowercase(devices[index].1.as_str());
        let chars = chars_of(lower.as_str());
        assert(identities(devices@)[index as int].1 == devices@[index as int].1@);
        assert(names[index as int] == chars@);
        lowered.push(chars);
        index = index + 1;
    }
    assert(lowered@.map_values(|n: Vec<char>| n@) =~= names);
    lowered
}

/// Picks the camera to open among `devices`, given as (device ID, friendly
/// name) pairs, for the requested ID and name.
pub fn select_camera_index(
    devices: &Vec<(String, String)>,
    requested_id: Option<&str>,
    requested_name: Option<&str>,
) -> (chosen: Result<usize, CameraSelectionError>)
    ensures
        match chosen {
            Ok(index) => camera_choice(
                identities(devices@),
                optional_text(requested_id),
                optional_text(requested_name),
            ) == Ok::<int, CameraSelectionError>(index as int),
            Err(error) => camera_choice(
                identities(devices@),
                optional_text(requested_id),
                optional_text(requested_name),
            ) == Err::<int, CameraSelectionError>(error),
        },
{
    if devices.len() == 0 {
        return Err(CameraSelectionError::NoCamera);
    }
    let id = requested_chars(requested_id);
    let name = requested_chars(requested_name);
    if let Some(id_chars) = &id {
        if let Some(index) = first_id_match(devices, id_chars) {
            return Ok(index);
        }
    }
    if let Some(name_chars) = &name {
        let exact = exact_name_matches(devices, name_chars);
        if exact.len() == 1 {
            return Ok(exact[0]);
        }
        if exact.len() > 1 {
            return Err(CameraSelectionError::AmbiguousName);
        }
        let needle_text = string_of(name_chars);
        let needle_lower = to_lowercase(needle_text.as_str());
        let needle = chars_of(needle_lower.as_str());
        let lowered = lowercase_names(devices);
        let partial = partial_name_matches(&lowered, &needle);
        if partial.len() == 1 {
            return Ok(partial[0]);
        }
        if partial.len() > 1 {
            return Err(CameraSelectionError::AmbiguousPartialName);
        }
    }
    if id.is_some() || name.is_some() {
        return Err(CameraSelectionError::Unavailable);
    }
    Ok(0)
}

/// A chosen camera is always one of the devices.
pub proof fn lemma_choice_in_range(
    ids: Seq<(Seq<char>, Seq<char>)>,
    requested_id: Option<Seq<char>>,
    requested_name: Option<Seq<char>>,
)
    ensures
        camera_choice(ids, requested_id, requested_name) matches Ok(index) ==> 0 <= index
            < ids.len(),
{
    let id = requested(requested_id);
    let name = requested(requested_name);
    if ids.len() > 0 {
        if id is Some && id_match(ids, id->0) is Some {
            let i = choose|i: int| 0 <= i < ids.len() && spec_eq_ignore_ascii_case(#[trigger] ids[i].0, id->0);
            lemma_first_match_exists(ids, id->0, i);
        }
        lemma_indices_in_range(ids.len(), |i: int| spec_eq_ignore_ascii_case(ids[i].1, name->0));
        let lowered = lowered_names(ids);
        let needle = unicode_lowercase(name->0);
        lemma_indices_in_range(
            lowered.len(),
            |i: int| spec_contains_part(lowered[i], needle) || spec_contains_part(needle, lowered[i]),
        );
    }
}

proof fn lemma_indices_in_range(n: nat, pred: spec_fn(int) -> bool)
    ensures
        forall|k: int| 0 <= k < indices_where(n, pred).len() ==> 0 <= #[trigger] indices_where(n, pred)[k] < n,
    decreases n,
{
    if n > 0 {
        let rest = indices_where((n - 1) as nat, pred);
        lemma_indices_in_range((n - 1) as nat, pred);
        assert forall|k: int| 0 <= k < indices_where(n, pred).len() implies 0
            <= #[trigger] indices_where(n, pred)[k] < n by {
            if k < rest.len() {
                assert(indices_where(n, pred)[k] == rest[k]);
            }
        }
    }
}

/// When some device matches, a first matching one exists.
proof fn lemma_first_match_exists(ids: Seq<(Seq<char>, Seq<char>)>, id: Seq<char>, witness: int)
    requires
        0 <= witness < ids.len(),
        spec_eq_ignore_ascii_case(ids[witness].0, id),
    ensures
        exists|i: int| is_first_id_match(ids, id, i),
    decreases witness,
{
    if exists|j: int| 0 <= j < witness && spec_eq_ignore_ascii_case(#[trigger] ids[j].0, id) {
        let j = choose|j: int| 0 <= j < witness && spec_eq_ignore_ascii_case(#[trigger] ids[j].0, id);
        lemma_first_match_exists(ids, id, j);
    } else {
        assert(is_first_id_match(ids, id, witness));
    }
}

proof fn lemma_indices_none(n: nat, pred: spec_fn(int) -> bool)
    requires
        forall|j: int| 0 <= j < n ==> !#[trigger] pred(j),
    ensures
        indices_where(n, pred) == Seq::<int>::empty(),
    decreases n,
{
    if n > 0 {
        lemma_indices_none((n - 1) as nat, pred);
    }
}

proof fn lemma_indices_single(n: nat, pred: spec_fn(int) -> bool, k: int)
    requires
        0 <= k < n,
        pred(k),
        forall|j: int| 0 <= j < n && j != k ==> !#[trigger] pred(j),
    ensures
        indices_where(n, pred) == seq![k],
    decreases n,
{
    if k == n - 1 {
        lemma_indices_none((n - 1) as nat, pred);
        assert(Seq::<int>::empty().push(k) =~= seq![k]);
    } else {
        lemma_indices_single((n - 1) as nat, pred, k);
    }
}

proof fn lemma_indices_nonempty(n: nat, pred: spec_fn(int) -> bool, k: int)
    requires
        0 <= k < n,
        pred(k),
    ensures
        indices_where(n, pred).len() >= 1,
    decreases n,
{
    if k < n - 1 {
        lemma_indices_nonempty((n - 1) as nat, pred, k);
    }
}

proof fn lemma_indices_pair(n: nat, pred: spec_fn(int) -> bool, j: int, k: int)
    requires
        0 <= j < k < n,
        pred(j),
        pred(k),
    ensures
        indices_where(n, pred).len() >= 2,
    decreases n,
{
    if k == n - 1 {
        lemma_indices_nonempty((n - 1) as nat, pred, j);
    } else {
        lemma_indices_pair((n - 1) as nat, pred, j, k);
    }
}

/// A requested ID that names a device picks the first device with that ID,
/// ignoring ASCII case, whatever name was requested.
pub proof fn lemma_chooses_first_matching_id(
    ids: Seq<(Seq<char>, Seq<char>)>,
    requested_id: Option<Seq<char>>,
    requested_name: Option<Seq<char>>,
    index: int,
)
    requires
        requested(requested_id) is Some,
        0 <= index < ids.len(),
        spec_eq_ignore_ascii_case(ids[index].0, requested(requested_id)->0),
        forall|j: int|
            0 <= j < index ==> !spec_eq_ignore_ascii_case(
                #[trigger] ids[j].0,
                requested(requested_id)->0,
            ),
    ensures
        camera_choice(ids, requested_id, requested_name) == Ok::<int, CameraSelectionError>(index),
{
    let id = requested(requested_id)->0;
    assert(is_first_id_match(ids, id, index));
    let chosen = choose|i: int| is_first_id_match(ids, id, i);
    assert(is_first_id_match(ids, id, chosen));
    if chosen < index {
        assert(!spec_eq_ignore_ascii_case(ids[chosen].0, id));
    } else if chosen > index {
        assert(!spec_eq_ignore_ascii_case(ids[index].0, id));
    }
}

/// When no device has the requested ID (or none was requested), a requested
/// name that exactly one device has, ignoring ASCII case, picks that device.
pub proof fn lemma_falls_back_to_the_single_named_device(
    ids: Seq<(Seq<char>, Seq<char>)>,
    requested_id: Option<Seq<char>>,
    requested_name: Option<Seq<char>>,
    index: int,
)
    requires
        requested(requested_id) matches Some(id) ==> forall|j: int|
            0 <= j < ids.len() ==> !spec_eq_ignore_ascii_case(#[trigger] ids[j].0, id),
        requested(requested_name) is Some,
        0 <= index < ids.len(),
        spec_eq_ignore_ascii_case(ids[index].1, requested(requested_name)->0),
        forall|j: int|
            0 <= j < ids.len() && j != index ==> !spec_eq_ignore_ascii_case(
                #[trigger] ids[j].1,
                requested(requested_name)->0,
            ),
    ensures
        camera_choice(ids, requested_id, requested_name) == Ok::<int, CameraSelectionError>(index),
{
    let name = requested(requested_name)->0;
    lemma_indices_single(ids.len(), |i: int| spec_eq_ignore_ascii_case(ids[i].1, name), index);
}

/// When no device has the requested ID (or none was requested), a requested
/// name that two devices share, ignoring ASCII case, is refused as ambiguous.
pub proof fn lemma_refuses_a_shared_name(
    ids: Seq<(Seq<char>, Seq<char>)>,
    requested_id: Option<Seq<char>>,
    requested_name: Option<Seq<char>>,
    first: int,
    second: int,
)
    requires
        requested(requested_id) matches Some(id) ==> forall|j: int|
            0 <= j < ids.len() ==> !spec_eq_ignore_ascii_case(#[trigger] ids[j].0, id),
        requested(requested_name) is Some,
        0 <= first < second < ids.len(),
        spec_eq_ignore_ascii_case(ids[first].1, requested(requested_name)->0),
        spec_eq_ignore_ascii_case(ids[second].1, requested(requested_name)->0),
    ensures
        camera_choice(ids, requested_id, requested_name) == Err::<int, CameraSelectionError>(
            CameraSelectionError::AmbiguousName,
        ),
{
    let name = requested(requested_name)->0;
    lemma_indices_pair(ids.len(), |i: int| spec_eq_ignore_ascii_case(ids[i].1, name), first, second);
}

/// With no identity requested, the first device is chosen; with no device,
/// nothing is.
pub proof fn lemma_default_and_empty_choices(
    ids: Seq<(Seq<char>, Seq<char>)>,
    requested_id: Option<Seq<char>>,
    requested_name: Option<Seq<char>>,
)
    ensures
        ids.len() == 0 ==> camera_choice(ids, requested_id, requested_name) == Err::<
            int,
            CameraSelectionError,
        >(CameraSelectionError::NoCamera),
        ids.len() > 0 && requested(requested_id) is None && requested(requested_name) is None
            ==> camera_choice(ids, requested_id, requested_name) == Ok::<int, CameraSelectionError>(
            0,
        ),
{
}

} // verus!

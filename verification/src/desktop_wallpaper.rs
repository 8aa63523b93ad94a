//! Where the desktop wallpaper comes from: the path the system reports, or
//! the transcoded copy Windows keeps, sent inline as a data URL.
use vstd::prelude::*;
use crate::protocol::ResponseError;
use crate::text::{push_str, standard_base64};

verus! {

/// Encodes `bytes` with the base64 crate's `STANDARD` engine
/// (`Engine::encode`), which writes the standard alphabet with padding. The
/// crate panics when the encoded length does not fit in `usize` and the
/// allocation of a longer buffer fails, so the length is bounded by the
/// largest allocation.
#[verifier::external_body]
fn encode_standard_base64(bytes: &[u8]) -> (text: String)
    requires
        4 * ((bytes@.len() + 2) / 3) <= isize::MAX,
    ensures
        text@ == standard_base64(bytes@),
{
    base64::Engine::encode(&base64::engine::general_purpose::STANDARD, bytes)
}

/// Where the wallpaper is: a file path, or the image inline.
#[derive(Clone, Debug, PartialEq, Eq)]
pub enum Wallpaper {
    Path(String),
    Data(String),
}

/// The JPEG data URL of the transcoded wallpaper; `None` for an empty file.
pub fn wallpaper_data_url(bytes: &[u8]) -> (url: Option<String>)
    requires
        4 * ((bytes@.len() + 2) / 3) <= isize::MAX,
    ensures
        bytes@.len() == 0 ==> url is None,
        bytes@.len() > 0 ==> (url matches Some(text) && text@ == "data:image/jpeg;base64,"@
            + standard_base64(bytes@)),
{
    if bytes.len() == 0 {
        return None;
    }
    let mut url = String::new();
    push_str(&mut url, "data:image/jpeg;base64,");
    let encoded = encode_standard_base64(bytes);
    push_str(&mut url, encoded.as_str());
    Some(url)
}

/// The reply to a wallpaper request: the system's wallpaper file when there
/// is one, else the transcoded copy, else an error.
pub fn choose_wallpaper(path: Option<String>, data: Option<String>) -> (reply: Result<
    Wallpaper,
    ResponseError,
>)
    ensures
        match path {
            Some(found) => reply == Ok::<Wallpaper, ResponseError>(Wallpaper::Path(found)),
            None => match data {
                Some(url) => reply == Ok::<Wallpaper, ResponseError>(Wallpaper::Data(url)),
                None => reply matches Err(error) && error.code@ == "WALLPAPER_UNAVAILABLE"@
                    && error.message@ == "Could not get desktop wallpaper"@,
            },
        },
{
    if let Some(found) = path {
        return Ok(Wallpaper::Path(found));
    }
    if let Some(url) = data {
        return Ok(Wallpaper::Data(url));
    }
    Err(ResponseError::new("WALLPAPER_UNAVAILABLE", "Could not get desktop wallpaper"))
}

/// The length of a NUL-terminated UTF-16 string in a fixed buffer: up to the
/// first NUL, or the whole buffer when there is none.
pub fn nul_terminated_length(buffer: &[u16]) -> (length: usize)
    ensures
        length <= buffer@.len(),
        forall|i: int| 0 <= i < length ==> buffer@[i] != 0,
        length < buffer@.len() ==> buffer@[length as int] == 0,
{
    let mut index: usize = 0;
    while index < buffer.len()
        invariant
            index <= buffer@.len(),
            forall|i: int| 0 <= i < index ==> buffer@[i] != 0,
        decreases buffer@.len() - index,
    {
        if buffer[index] == 0 {
            return index;
        }
        index += 1;
    }
    index
}

} // verus!

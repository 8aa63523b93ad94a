//! QR code detection on greyscale images, and the memory limit on the images
//! it is run on.
use vstd::prelude::*;

verus! {

/// The largest image, in pixels, that is decoded for QR detection.
pub const MAX_QR_IMAGE_PIXELS: u64 = 67108864;

/// The buffer size for an 8-bit greyscale image of this size, refused above
/// the detection limit.
pub fn qr_image_buffer_size(width: u32, height: u32) -> (size: Result<usize, String>)
    ensures
        match size {
            Ok(bytes) => width * height <= MAX_QR_IMAGE_PIXELS && bytes == width * height,
            Err(message) => width * height > MAX_QR_IMAGE_PIXELS && message@
                == "Image dimensions exceed the QR detection limit"@,
        },
{
    assert((width as u64) * (height as u64) <= 0xffff_ffff * 0xffff_ffff) by (nonlinear_arith);
    let pixel_count: u64 = (width as u64) * (height as u64);
    if pixel_count > MAX_QR_IMAGE_PIXELS {
        return Err("Image dimensions exceed the QR detection limit".to_owned());
    }
    Ok(pixel_count as usize)
}

/// The luminance of pixel (`x`, `y`) of a row-major greyscale image `width`
/// pixels wide; black outside the buffer.
fn greyscale_at(pixels: &[u8], width: usize, x: usize, y: usize) -> (luminance: u8)
    ensures
        y * width + x < pixels@.len() ==> luminance == pixels@[y * width + x],
{
    let length: usize = pixels.len();
    match y.checked_mul(width) {
        Some(row) => match row.checked_add(x) {
            Some(index) => if index < length {
                pixels[index]
            } else {
                0
            },
            None => 0,
        },
        None => 0,
    }
}

/// For a greyscale image, what decoding each QR grid that rqrr detects in it
/// gives, in the order rqrr reports the grids: the text, or `None` where
/// decoding failed.
pub uninterp spec fn qr_grid_decodings(width: usize, height: usize, pixels: Seq<u8>) -> Seq<
    Option<Seq<char>>,
>;

pub open spec fn decoding_views(decoded: Seq<Option<String>>) -> Seq<Option<Seq<char>>> {
    decoded.map_values(
        |d: Option<String>|
            match d {
                Some(text) => Some(text@),
                None => None,
            },
    )
}

/// Runs rqrr (`PreparedImage::prepare_from_greyscale`, `detect_grids`,
/// `Grid::decode`) on the image and keeps, for each detected grid, the decoded
/// text or `None` on a decoding error. The contract names the outcome; the
/// detection and decoding are rqrr's. The `requires` keeps the pixel reads in
/// bounds; it does not exclude rqrr's internal assertions (a perspective that
/// maps a point to a non-finite or out-of-range coordinate, an empty timing
/// scan, a flood fill started on a white or same-coloured pixel), because
/// which images reach them is not shown by rqrr's source or documentation.
#[verifier::external_body]
fn decode_qr_grids(pixels: &[u8], width: usize, height: usize) -> (decoded: Vec<Option<String>>)
    requires
        width > 0,
        height > 0,
        width * height <= pixels@.len(),
    ensures
        decoding_views(decoded@) == qr_grid_decodings(width, height, pixels@),
{
    let mut image = rqrr::PreparedImage::prepare_from_greyscale(
        width,
        height,
        |x, y| greyscale_at(pixels, width, x, y),
    );
    image.detect_grids().iter().map(|grid| grid.decode().ok().map(|(_meta, text)| text)).collect()
}

/// The first decoded text that is not empty, if any.
pub open spec fn first_payload(decodings: Seq<Option<Seq<char>>>) -> Seq<char>
    decreases decodings.len(),
{
    if decodings.len() == 0 {
        Seq::empty()
    } else if decodings[0] matches Some(text) && text.len() > 0 {
        decodings[0]->0
    } else {
        first_payload(decodings.drop_first())
    }
}

/// Picks the payload out of the grid decodings: the first non-empty text.
pub fn payload_from_decodings(decoded: &Vec<Option<String>>) -> (payload: String)
    ensures
        payload@ == first_payload(decoding_views(decoded@)),
{
    let ghost views = decoding_views(decoded@);
    assert(views.skip(0) =~= views);
    let mut index: usize = 0;
    while index < decoded.len()
        invariant
            views == decoding_views(decoded@),
            index <= decoded@.len(),
            first_payload(views.skip(index as int)) == first_payload(views),
        decreases decoded@.len() - index,
    {
        assert(views.skip(index as int).drop_first() =~= views.skip(index + 1));
        match &decoded[index] {
            Some(text) => {
                if !text.as_str().is_empty() {
                    return text.clone();
                }
            },
            None => {},
        }
        index = index + 1;
    }
    assert(views.skip(index as int).len() == 0);
    String::new()
}

pub open spec fn dimensions_fit(pixel_count: nat, width: usize, height: usize) -> bool {
    width > 0 && height > 0 && width * height <= pixel_count
}

/// Finds a QR code in a row-major 8-bit greyscale image and returns its text,
/// or an empty string when the dimensions do not fit the buffer or no code
/// decodes to text.
pub fn detect_payload_from_greyscale(pixels: &[u8], width: usize, height: usize) -> (payload:
    String)
    ensures
        !dimensions_fit(pixels@.len(), width, height) ==> payload@ == Seq::<char>::empty(),
        dimensions_fit(pixels@.len(), width, height) ==> payload@ == first_payload(
            qr_grid_decodings(width, height, pixels@),
        ),
{
    let length: usize = pixels.len();
    if width == 0 || height == 0 {
        return String::new();
    }
    let area: usize = match width.checked_mul(height) {
        Some(product) => product,
        None => {
            return String::new();
        },
    };
    if length < area {
        return String::new();
    }
    let decoded = decode_qr_grids(pixels, width, height);
    payload_from_decodings(&decoded)
}

} // verus!

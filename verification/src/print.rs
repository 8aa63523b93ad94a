//! The computations of the print module: the image payload check, the pixel
//! preparation, the printable area of a page and how a tall image is cut
//! into pages.
use base64::Engine;
use vstd::prelude::*;
use crate::text::{lemma_standard_base64_injective, standard_base64};

verus! {

/// The eight bytes every PNG file starts with.
pub const PNG_SIGNATURE: [u8; 8] = [137, 80, 78, 71, 13, 10, 26, 10];

pub open spec fn png_signature() -> Seq<u8> {
    seq![137u8, 80u8, 78u8, 71u8, 13u8, 10u8, 26u8, 10u8]
}

/// The value of one colour channel after blending it, with straight alpha
/// `alpha`, over white, rounded to the nearest integer.
pub open spec fn blend_over_white(channel: u8, alpha: u8) -> u8 {
    ((channel * alpha + 255 * (255 - alpha) + 127) / 255) as u8
}

/// The byte at `index` once every complete BGRA pixel of `before` has been
/// blended over white and made opaque; trailing bytes of an incomplete pixel
/// are left alone.
pub open spec fn composited_byte(before: Seq<u8>, index: int) -> u8 {
    let pixel = index / 4;
    if index >= (before.len() / 4) * 4 {
        before[index]
    } else if index % 4 == 3 {
        255u8
    } else {
        blend_over_white(before[index], before[pixel * 4 + 3])
    }
}

fn blend_channel(channel: u8, alpha: u8) -> (blended: u8)
    ensures
        blended == blend_over_white(channel, alpha),
{
    let alpha_wide: u32 = alpha as u32;
    let inverse_alpha: u32 = 255 - alpha_wide;
    assert(channel as u32 * alpha_wide <= 255 * 255) by (nonlinear_arith)
        requires
            channel <= 255,
            alpha_wide <= 255,
    ;
    let total: u32 = (channel as u32 * alpha_wide) + (255 * inverse_alpha) + 127;
    assert(total / 255 <= 255) by (nonlinear_arith)
        requires
            total == channel as u32 * alpha_wide + 255 * inverse_alpha + 127,
            inverse_alpha == 255 - alpha_wide,
            channel <= 255,
            alpha_wide <= 255,
    ;
    (total / 255) as u8
}

/// Blends the BGRA pixels over a white page so that a printer, which knows
/// no transparency, prints what the viewer saw.
pub fn composite_onto_white(pixels: &mut [u8])
    ensures
        final(pixels)@.len() == old(pixels)@.len(),
        forall|index: int|
            0 <= index < old(pixels)@.len() ==> #[trigger] final(pixels)@[index] == composited_byte(
                old(pixels)@,
                index,
            ),
{
    let ghost before = pixels@;
    let length: usize = pixels.len();
    let count: usize = length / 4;
    let mut pixel: usize = 0;
    while pixel < count
        invariant
            length == before.len(),
            count == length / 4,
            pixel <= count,
            pixels@.len() == before.len(),
            forall|index: int|
                0 <= index < pixel * 4 ==> #[trigger] pixels@[index] == composited_byte(
                    before,
                    index,
                ),
            forall|index: int| pixel * 4 <= index < before.len() ==> #[trigger] pixels@[index] == before[index],
        decreases count - pixel,
    {
        assert(pixel * 4 + 4 <= length) by (nonlinear_arith)
            requires
                pixel < count,
                count == length / 4,
        ;
        let base: usize = pixel * 4;
        let alpha: u8 = pixels[base + 3];
        pixels[base] = blend_channel(pixels[base], alpha);
        pixels[base + 1] = blend_channel(pixels[base + 1], alpha);
        pixels[base + 2] = blend_channel(pixels[base + 2], alpha);
        pixels[base + 3] = 255;
        assert forall|index: int| base <= index < base + 4 implies #[trigger] pixels@[index]
            == composited_byte(before, index) by {
            assert(index / 4 == pixel);
            assert(index % 4 == index - base);
        }
        pixel = pixel + 1;
    }
}

/// The part of a tall image that goes onto one printed page.
#[derive(Clone, Copy, Debug, PartialEq, Eq, Structural)]
pub struct PageSlice {
    pub destination_height: i32,
    pub source_top: i32,
    pub source_height: i32,
}

/// `numerator / total` rounded half up.
pub open spec fn round_scaled(offset: int, source_height: int, total_height: int) -> int {
    (offset * source_height + total_height / 2) / total_height
}

/// Page `page` of an image printed `total_height` device rows tall on pages of
/// `page_height` rows, taken from a source image of `source_height` rows: the
/// page's rows, and the source band that maps onto them (at least one row,
/// inside the image).
pub open spec fn spec_page_slice(page: int, total_height: int, page_height: int, source_height: int) -> PageSlice {
    let destination_offset = page * page_height;
    let next_offset = if (page + 1) * page_height < total_height {
        (page + 1) * page_height
    } else {
        total_height
    };
    let rounded_top = round_scaled(destination_offset, source_height, total_height);
    let source_top = if rounded_top < source_height - 1 { rounded_top } else { source_height - 1 };
    let rounded_bottom = round_scaled(next_offset, source_height, total_height);
    let raised = if rounded_bottom > source_top + 1 { rounded_bottom } else { source_top + 1 };
    let source_bottom = if raised < source_height { raised } else { source_height };
    PageSlice {
        destination_height: (next_offset - destination_offset) as i32,
        source_top: source_top as i32,
        source_height: (source_bottom - source_top) as i32,
    }
}

/// Cuts page `page` out of the printed image.
pub fn page_slice(page: u64, total_height: u64, page_height: u64, source_height: u32) -> (slice:
    PageSlice)
    requires
        0 < total_height <= i32::MAX,
        0 < page_height <= i32::MAX,
        0 < source_height <= i32::MAX,
        page * page_height < total_height,
    ensures
        slice == spec_page_slice(
            page as int,
            total_height as int,
            page_height as int,
            source_height as int,
        ),
        0 < slice.destination_height <= page_height,
        0 <= slice.source_top < source_height,
        0 < slice.source_height,
        slice.source_top + slice.source_height <= source_height,
{
    let destination_offset: u64 = page * page_height;
    assert(page <= page * page_height) by (nonlinear_arith)
        requires
            page_height >= 1,
    ;
    assert((page + 1) * page_height == page * page_height + page_height) by (nonlinear_arith);
    let after: u64 = (page + 1) * page_height;
    let next_offset: u64 = if after < total_height { after } else { total_height };
    let source: u64 = source_height as u64;
    assert(destination_offset * source <= 0x8000_0000 * 0x8000_0000) by (nonlinear_arith)
        requires
            destination_offset < 0x8000_0000,
            source < 0x8000_0000,
    ;
    assert(next_offset * source <= 0x8000_0000 * 0x8000_0000) by (nonlinear_arith)
        requires
            next_offset < 0x8000_0000,
            source < 0x8000_0000,
    ;
    let rounded_top: u64 = (destination_offset * source + total_height / 2) / total_height;
    let source_top: u64 = if rounded_top < source - 1 { rounded_top } else { source - 1 };
    let rounded_bottom: u64 = (next_offset * source + total_height / 2) / total_height;
    let raised: u64 = if rounded_bottom > source_top + 1 { rounded_bottom } else { source_top + 1 };
    let source_bottom: u64 = if raised < source { raised } else { source };
    PageSlice {
        destination_height: (next_offset - destination_offset) as i32,
        source_top: source_top as i32,
        source_height: (source_bottom - source_top) as i32,
    }
}

/// How many pages an image `total_height` rows tall takes on pages of
/// `page_height` rows.
pub fn page_count(total_height: u64, page_height: u64) -> (count: u64)
    requires
        page_height > 0,
    ensures
        count == (total_height + page_height - 1) / page_height as int,
        (count as int) * page_height >= total_height,
        count > 0 ==> (count - 1) * page_height < total_height,
{
    let whole: u64 = total_height / page_height;
    assert(total_height % page_height != 0 ==> whole < u64::MAX) by (nonlinear_arith)
        requires
            page_height > 0,
            whole == total_height / page_height,
    ;
    let count: u64 = if total_height % page_height == 0 { whole } else { whole + 1 };
    assert(count == (total_height + page_height - 1) / page_height as int) by (nonlinear_arith)
        requires
            page_height > 0,
            whole == total_height / page_height,
            count == (if total_height % page_height == 0 { whole as int } else { whole + 1 }),
    ;
    assert((count as int) * page_height >= total_height && (count > 0 ==> (count - 1) * page_height
        < total_height)) by (nonlinear_arith)
        requires
            page_height > 0,
            whole == total_height / page_height,
            count == (if total_height % page_height == 0 { whole as int } else { whole + 1 }),
    ;
    count
}

/// Consecutive pages cover consecutive rows of the printed image, and, where
/// the rounded boundary between two pages lies inside the source image above
/// its last row, the next page's source band starts where this page's ends.
pub proof fn lemma_pages_are_contiguous(
    page: int,
    total_height: int,
    page_height: int,
    source_height: int,
)
    requires
        0 < total_height <= i32::MAX,
        0 < page_height <= i32::MAX,
        0 < source_height <= i32::MAX,
        page >= 0,
        (page + 1) * page_height < total_height,
        spec_page_slice(page, total_height, page_height, source_height).source_top < round_scaled(
            (page + 1) * page_height,
            source_height,
            total_height,
        ) < source_height,
    ensures
        page * page_height + spec_page_slice(
            page,
            total_height,
            page_height,
            source_height,
        ).destination_height == (page + 1) * page_height,
        spec_page_slice(page, total_height, page_height, source_height).source_top
            + spec_page_slice(page, total_height, page_height, source_height).source_height
            == spec_page_slice(page + 1, total_height, page_height, source_height).source_top,
{
    assert((page + 1) * page_height - page * page_height == page_height) by (nonlinear_arith);
    assert((page + 2) * page_height == (page + 1) * page_height + page_height) by (nonlinear_arith);
    assert(page * page_height >= 0) by (nonlinear_arith)
        requires
            page >= 0,
            page_height > 0,
    ;
    let top = round_scaled(page * page_height, source_height, total_height);
    assert(top >= 0) by (nonlinear_arith)
        requires
            page * page_height >= 0,
            source_height > 0,
            total_height > 0,
            top == round_scaled(page * page_height, source_height, total_height),
    ;
}

/// The device capabilities of a printer that decide where an image may go.
#[derive(Clone, Copy, Debug, PartialEq, Eq, Structural)]
pub struct DeviceCaps {
    pub width: i32,
    pub height: i32,
    pub dpi_x: i32,
    pub dpi_y: i32,
    pub physical_width: i32,
    pub physical_height: i32,
    pub offset_x: i32,
    pub offset_y: i32,
}

/// The part of the page an image is printed into, in device pixels.
#[derive(Clone, Copy, Debug, PartialEq, Eq, Structural)]
pub struct PrintableArea {
    pub x: i32,
    pub y: i32,
    pub width: i32,
    pub height: i32,
    pub dpi_x: i32,
    pub dpi_y: i32,
}

pub open spec fn at_least_zero(value: int) -> int {
    if value > 0 { value } else { 0 }
}

pub open spec fn margin_edge(physical: int, margin: int, offset: int, printable: int) -> int {
    if physical > 0 {
        let edge = physical - margin - offset;
        if edge < printable { edge } else { printable }
    } else {
        printable - margin
    }
}

/// The printable area keeps half an inch of margin on every side, counted from
/// the physical edge of the paper; when the margins leave no room it is the
/// whole printable region.
pub open spec fn spec_printable_area(caps: DeviceCaps) -> PrintableArea {
    let margin_x = caps.dpi_x / 2;
    let margin_y = caps.dpi_y / 2;
    let offset_x = at_least_zero(caps.offset_x as int);
    let offset_y = at_least_zero(caps.offset_y as int);
    let left = at_least_zero(margin_x - offset_x);
    let top = at_least_zero(margin_y - offset_y);
    let right = margin_edge(caps.physical_width as int, margin_x, offset_x, caps.width as int);
    let bottom = margin_edge(caps.physical_height as int, margin_y, offset_y, caps.height as int);
    if right <= left || bottom <= top {
        PrintableArea {
            x: 0,
            y: 0,
            width: caps.width,
            height: caps.height,
            dpi_x: caps.dpi_x,
            dpi_y: caps.dpi_y,
        }
    } else {
        PrintableArea {
            x: left as i32,
            y: top as i32,
            width: (right - left) as i32,
            height: (bottom - top) as i32,
            dpi_x: caps.dpi_x,
            dpi_y: caps.dpi_y,
        }
    }
}

pub open spec fn caps_are_valid(caps: DeviceCaps) -> bool {
    caps.width > 0 && caps.height > 0 && caps.dpi_x > 0 && caps.dpi_y > 0
}

/// The paper edges stay within the range of device coordinates.
pub open spec fn caps_fit(caps: DeviceCaps) -> bool {
    &&& caps.physical_width - caps.dpi_x / 2 - at_least_zero(caps.offset_x as int) >= i32::MIN
    &&& caps.physical_height - caps.dpi_y / 2 - at_least_zero(caps.offset_y as int) >= i32::MIN
}

fn edge(physical: i32, margin: i32, offset: i32, printable: i32) -> (value: i32)
    requires
        printable > 0,
        margin >= 0,
        offset >= 0,
        physical > 0 ==> physical - margin - offset >= i32::MIN,
    ensures
        value == margin_edge(physical as int, margin as int, offset as int, printable as int),
{
    if physical > 0 {
        let inner: i32 = physical - margin - offset;
        if inner < printable {
            inner
        } else {
            printable
        }
    } else {
        printable - margin
    }
}

/// Where on the page an image may be printed, from the printer's device
/// capabilities; an error when the printer reports no usable page.
pub fn printable_area(caps: DeviceCaps) -> (area: Result<PrintableArea, String>)
    requires
        caps_fit(caps),
    ensures
        match area {
            Ok(found) => caps_are_valid(caps) && found == spec_printable_area(caps),
            Err(message) => !caps_are_valid(caps) && message@
                == "Printer reported an invalid printable area"@,
        },
{
    if caps.width <= 0 || caps.height <= 0 || caps.dpi_x <= 0 || caps.dpi_y <= 0 {
        return Err("Printer reported an invalid printable area".to_owned());
    }
    let offset_x: i32 = if caps.offset_x > 0 { caps.offset_x } else { 0 };
    let offset_y: i32 = if caps.offset_y > 0 { caps.offset_y } else { 0 };
    let margin_x: i32 = caps.dpi_x / 2;
    let margin_y: i32 = caps.dpi_y / 2;
    let left_edge: i32 = margin_x - offset_x;
    let left: i32 = if left_edge > 0 { left_edge } else { 0 };
    let top_edge: i32 = margin_y - offset_y;
    let top: i32 = if top_edge > 0 { top_edge } else { 0 };
    let right: i32 = edge(caps.physical_width, margin_x, offset_x, caps.width);
    let bottom: i32 = edge(caps.physical_height, margin_y, offset_y, caps.height);
    if right <= left || bottom <= top {
        return Ok(
            PrintableArea {
                x: 0,
                y: 0,
                width: caps.width,
                height: caps.height,
                dpi_x: caps.dpi_x,
                dpi_y: caps.dpi_y,
            },
        );
    }
    Ok(
        PrintableArea {
            x: left,
            y: top,
            width: right - left,
            height: bottom - top,
            dpi_x: caps.dpi_x,
            dpi_y: caps.dpi_y,
        },
    )
}

/// The printable area always lies on the page the printer reports.
pub proof fn lemma_printable_area_on_page(caps: DeviceCaps)
    requires
        caps_are_valid(caps),
    ensures
        spec_printable_area(caps).x >= 0,
        spec_printable_area(caps).y >= 0,
        spec_printable_area(caps).width > 0,
        spec_printable_area(caps).height > 0,
        spec_printable_area(caps).x + spec_printable_area(caps).width <= caps.width,
        spec_printable_area(caps).y + spec_printable_area(caps).height <= caps.height,
{
}

/// Why an image cannot be printed.
#[derive(Clone, Copy, Debug, PartialEq, Eq, Structural)]
pub enum PrintError {
    InvalidImage,
    PrintInProgress,
    PrintFailed,
}

impl PrintError {
    pub open spec fn spec_code(self) -> Seq<char> {
        match self {
            PrintError::InvalidImage => "INVALID_IMAGE"@,
            PrintError::PrintInProgress => "PRINT_IN_PROGRESS"@,
            PrintError::PrintFailed => "PRINT_FAILED"@,
        }
    }

    pub open spec fn spec_message(self) -> Seq<char> {
        match self {
            PrintError::InvalidImage => "Failed to decode image data"@,
            PrintError::PrintInProgress => "Another print dialog is already open"@,
            PrintError::PrintFailed => "Failed to start printing"@,
        }
    }

    /// The error code of the reply.
    pub fn code(&self) -> (code: String)
        ensures
            code@ == self.spec_code(),
    {
        match self {
            PrintError::InvalidImage => "INVALID_IMAGE".to_owned(),
            PrintError::PrintInProgress => "PRINT_IN_PROGRESS".to_owned(),
            PrintError::PrintFailed => "PRINT_FAILED".to_owned(),
        }
    }

    /// The message of the reply.
    pub fn message(&self) -> (message: String)
        ensures
            message@ == self.spec_message(),
    {
        match self {
            PrintError::InvalidImage => "Failed to decode image data".to_owned(),
            PrintError::PrintInProgress => "Another print dialog is already open".to_owned(),
            PrintError::PrintFailed => "Failed to start printing".to_owned(),
        }
    }
}

/// Decodes `text` with the base64 crate's `STANDARD` engine
/// (`Engine::decode`). That engine takes the standard alphabet with canonical
/// padding and refuses set trailing bits, so it accepts exactly the texts that
/// encode some bytes, and gives back those bytes.
#[verifier::external_body]
fn decode_standard_base64(text: &str) -> (decoded: Option<Vec<u8>>)
    ensures
        match decoded {
            Some(bytes) => standard_base64(bytes@) == text@,
            None => forall|bytes: Seq<u8>| #[trigger] standard_base64(bytes) != text@,
        },
{
    base64::engine::general_purpose::STANDARD.decode(text).ok()
}

pub open spec fn starts_with_png_signature(bytes: Seq<u8>) -> bool {
    bytes.len() >= 8 && bytes.take(8) == png_signature()
}

/// Accepts decoded image data only when it is a PNG file.
pub fn check_png_payload(decoded: Option<Vec<u8>>) -> (image: Result<Vec<u8>, PrintError>)
    ensures
        match decoded {
            Some(bytes) => if starts_with_png_signature(bytes@) {
                image == Ok::<Vec<u8>, PrintError>(bytes)
            } else {
                image == Err::<Vec<u8>, PrintError>(PrintError::InvalidImage)
            },
            None => image == Err::<Vec<u8>, PrintError>(PrintError::InvalidImage),
        },
{
    match decoded {
        Some(bytes) => {
            if bytes.len() < 8 {
                return Err(PrintError::InvalidImage);
            }
            let signature = PNG_SIGNATURE;
            assert(signature@ == png_signature());
            let mut index: usize = 0;
            while index < 8
                invariant
                    decoded == Some(bytes),
                    bytes@.len() >= 8,
                    signature@ == png_signature(),
                    index <= 8,
                    forall|i: int| 0 <= i < index ==> bytes@[i] == png_signature()[i],
                decreases 8 - index,
            {
                if bytes[index] != signature[index] {
                    assert(bytes@.take(8)[index as int] != png_signature()[index as int]);
                    assert(bytes@.take(8) != png_signature());
                    return Err(PrintError::InvalidImage);
                }
                index = index + 1;
            }
            assert(bytes@.take(8) =~= png_signature());
            Ok(bytes)
        },
        None => Err(PrintError::InvalidImage),
    }
}

/// Decodes the base64 image of a print request; the image must be a PNG file.
pub fn decode_print_image(image_base64: &str) -> (image: Result<Vec<u8>, PrintError>)
    ensures
        match image {
            Ok(bytes) => standard_base64(bytes@) == image_base64@ && starts_with_png_signature(
                bytes@,
            ),
            Err(error) => error == PrintError::InvalidImage && forall|bytes: Seq<u8>|
                #[trigger] standard_base64(bytes) == image_base64@ ==> !starts_with_png_signature(
                    bytes,
                ),
        },
{
    let decoded = decode_standard_base64(image_base64);
    let ghost outcome = decoded;
    let image = check_png_payload(decoded);
    proof {
        if let Some(found) = outcome {
            assert forall|bytes: Seq<u8>| #[trigger]
                standard_base64(bytes) == image_base64@ implies bytes == found@ by {
                lemma_standard_base64_injective(bytes, found@);
            }
        }
    }
    image
}

/// At most one print dialog is open at a time: the slot is taken while one is.
pub struct PrintSlot {
    active: bool,
}

/// Proof of holding the print slot, handed back to release it.
pub struct PrintTicket {
    _private: (),
}

impl PrintSlot {
    pub closed spec fn is_active(&self) -> bool {
        self.active
    }

    pub fn new() -> (slot: Self)
        ensures
            !slot.is_active(),
    {
        PrintSlot { active: false }
    }

    /// Takes the slot when it is free.
    pub fn acquire(&mut self) -> (ticket: Option<PrintTicket>)
        ensures
            ticket is Some <==> !old(self).is_active(),
            final(self).is_active(),
    {
        if self.active {
            None
        } else {
            self.active = true;
            Some(PrintTicket { _private: () })
        }
    }

    /// Frees the slot once the dialog has closed.
    pub fn release(&mut self, ticket: PrintTicket)
        ensures
            !final(self).is_active(),
    {
        self.active = false;
    }
}

} // verus!

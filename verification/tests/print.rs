use poratake_daemon_win::print::{
    check_png_payload, composite_onto_white, decode_print_image, page_count, page_slice,
    printable_area, DeviceCaps, PageSlice, PrintError, PrintSlot, PrintableArea,
};

#[test]
fn composites_straight_alpha_onto_white() {
    let mut pixels = [0, 0, 0, 0, 0, 0, 255, 128, 10, 20, 30, 255];

    composite_onto_white(&mut pixels);

    assert_eq!(
        pixels,
        [255, 255, 255, 255, 127, 127, 255, 255, 10, 20, 30, 255]
    );
}

#[test]
fn compositing_leaves_a_trailing_partial_pixel_alone() {
    let mut pixels = [10, 20, 30, 0, 7, 8];
    composite_onto_white(&mut pixels);
    assert_eq!(pixels, [255, 255, 255, 255, 7, 8]);
}

#[test]
fn slices_tall_images_into_contiguous_vertical_pages() {
    let slices: Vec<PageSlice> = (0..4)
        .map(|page| page_slice(page, 10_000, 3_000, 2_000))
        .collect();

    assert_eq!(
        slices,
        [
            PageSlice {
                destination_height: 3_000,
                source_top: 0,
                source_height: 600,
            },
            PageSlice {
                destination_height: 3_000,
                source_top: 600,
                source_height: 600,
            },
            PageSlice {
                destination_height: 3_000,
                source_top: 1_200,
                source_height: 600,
            },
            PageSlice {
                destination_height: 1_000,
                source_top: 1_800,
                source_height: 200,
            },
        ]
    );
}

#[test]
fn a_tiny_source_still_gets_one_row_per_page() {
    assert_eq!(
        page_slice(1, 3_000, 1_000, 1),
        PageSlice { destination_height: 1_000, source_top: 0, source_height: 1 }
    );
}

#[test]
fn counts_pages_rounding_up() {
    assert_eq!(page_count(10_000, 3_000), 4);
    assert_eq!(page_count(9_000, 3_000), 3);
    assert_eq!(page_count(1, 3_000), 1);
}

#[test]
fn print_guard_allows_only_one_active_dialog() {
    let mut slot = PrintSlot::new();
    let first = slot.acquire().expect("first print guard");
    assert!(slot.acquire().is_none());
    slot.release(first);
    assert!(slot.acquire().is_some());
}

fn caps() -> DeviceCaps {
    DeviceCaps {
        width: 4800,
        height: 6600,
        dpi_x: 600,
        dpi_y: 600,
        physical_width: 5100,
        physical_height: 6600,
        offset_x: 150,
        offset_y: 0,
    }
}

#[test]
fn printable_area_keeps_half_an_inch_from_the_paper_edge() {
    assert_eq!(
        printable_area(caps()),
        Ok(PrintableArea { x: 150, y: 300, width: 4500, height: 6000, dpi_x: 600, dpi_y: 600 })
    );
}

#[test]
fn printable_area_falls_back_to_the_whole_region_without_room() {
    let mut small = caps();
    small.physical_width = 400;
    assert_eq!(
        printable_area(small),
        Ok(PrintableArea { x: 0, y: 0, width: 4800, height: 6600, dpi_x: 600, dpi_y: 600 })
    );
}

#[test]
fn printable_area_rejects_an_invalid_printer() {
    let mut broken = caps();
    broken.dpi_y = 0;
    assert_eq!(
        printable_area(broken),
        Err("Printer reported an invalid printable area".to_string())
    );
}

#[test]
fn accepts_only_base64_png_payloads() {
    // "iVBORw0KGgo=" is the base64 form of the eight signature bytes.
    assert_eq!(
        decode_print_image("iVBORw0KGgo="),
        Ok(vec![137, 80, 78, 71, 13, 10, 26, 10])
    );
    assert_eq!(decode_print_image("not base64!"), Err(PrintError::InvalidImage));
    assert_eq!(decode_print_image("aGVsbG8gd29ybGQ="), Err(PrintError::InvalidImage));
}

#[test]
fn print_images_must_be_canonical_base64() {
    // Only the exact encoding of the bytes is read: no missing padding and no
    // set bits after the last byte.
    assert_eq!(decode_print_image("iVBORw0KGgo"), Err(PrintError::InvalidImage));
    assert_eq!(decode_print_image("iVBORw0KGgp="), Err(PrintError::InvalidImage));
    assert_eq!(decode_print_image("iVBORw0KGgo=AAAA"), Err(PrintError::InvalidImage));
    assert_eq!(
        decode_print_image("iVBORw0KGgoAAQ=="),
        Ok(vec![137, 80, 78, 71, 13, 10, 26, 10, 0, 1])
    );
}

#[test]
fn png_check_looks_at_the_signature() {
    assert_eq!(check_png_payload(None), Err(PrintError::InvalidImage));
    assert_eq!(check_png_payload(Some(vec![137, 80, 78])), Err(PrintError::InvalidImage));
    let mut png = vec![137, 80, 78, 71, 13, 10, 26, 10, 0, 1];
    assert_eq!(check_png_payload(Some(png.clone())), Ok(png.clone()));
    png[1] = 81;
    assert_eq!(check_png_payload(Some(png)), Err(PrintError::InvalidImage));
}

#[test]
fn print_errors_carry_codes_and_messages() {
    assert_eq!(PrintError::PrintInProgress.code(), "PRINT_IN_PROGRESS");
    assert_eq!(
        PrintError::PrintInProgress.message(),
        "Another print dialog is already open"
    );
    assert_eq!(PrintError::InvalidImage.message(), "Failed to decode image data");
}

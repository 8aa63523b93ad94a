use poratake_daemon_win::png::encode_stitched_png;
use poratake_daemon_win::scroll_capture::CapturedFrame;

fn frame(rows: &[&[u8]], overlap: usize) -> CapturedFrame {
    let width = rows[0].len() / 4;
    CapturedFrame {
        width,
        height: rows.len(),
        pixels: rows.iter().flat_map(|row| row.iter().copied()).collect(),
        overlap,
    }
}

#[test]
fn encodes_the_stitched_rows_as_a_png_file() {
    let first = frame(&[&[1, 2, 3, 255, 4, 5, 6, 255], &[7, 8, 9, 255, 10, 11, 12, 255]], 0);
    let second = frame(&[&[7, 8, 9, 255, 10, 11, 12, 255], &[13, 14, 15, 255, 16, 17, 18, 255]], 1);
    let expected: Vec<u8> = vec![
        137, 80, 78, 71, 13, 10, 26, 10, 0, 0, 0, 13, 73, 72, 68, 82, 0, 0, 0, 2, 0, 0, 0, 3, 8,
        6, 0, 0, 0, 185, 234, 222, 129, 0, 0, 0, 48, 73, 68, 65, 84, 120, 1, 0, 9, 0, 246, 255,
        0, 1, 2, 3, 255, 4, 5, 6, 255, 0, 9, 0, 246, 255, 0, 7, 8, 9, 255, 10, 11, 12, 255, 1, 9,
        0, 246, 255, 0, 13, 14, 15, 255, 16, 17, 18, 255, 78, 99, 6, 166, 177, 247, 255, 203, 0,
        0, 0, 0, 73, 69, 78, 68, 174, 66, 96, 130,
    ];
    assert_eq!(encode_stitched_png(&[first, second], 2, 3), Ok(expected));
}

#[test]
fn refuses_images_it_cannot_write() {
    let one = || frame(&[&[0, 0, 0, 255]], 0);
    let error = |width: usize, height: usize, frames: &[CapturedFrame]| {
        encode_stitched_png(frames, width, height).unwrap_err()
    };
    assert_eq!(error(0, 1, &[one()]), "Invalid image dimensions");
    assert_eq!(error(1, 0, &[one()]), "Invalid image dimensions");
    assert_eq!(error(1, 1, &[]), "Invalid image dimensions");
    assert_eq!(error(1 << 32, 1, &[one()]), "Image width is too large");
    assert_eq!(error(1, 1 << 32, &[one()]), "Image height is too large");
    assert_eq!(error(1 << 20, 1 << 12, &[one()]), "PNG data is too large");
}

fn crc32(bytes: &[u8]) -> u32 {
    let mut crc = u32::MAX;
    for &byte in bytes {
        crc ^= byte as u32;
        for _ in 0..8 {
            crc = if crc & 1 == 1 { (crc >> 1) ^ 0xedb8_8320 } else { crc >> 1 };
        }
    }
    !crc
}

fn adler32(bytes: &[u8]) -> u32 {
    let (mut a, mut b) = (1u32, 0u32);
    for &byte in bytes {
        a = (a + byte as u32) % 65_521;
        b = (b + a) % 65_521;
    }
    (b << 16) | a
}

#[test]
fn splits_long_rows_into_stored_blocks() {
    let width = 20_000;
    let rows: Vec<Vec<u8>> = (0..2u32)
        .map(|y| (0..width * 4).map(|x| (x as u32 * 7 + y * 13) as u8).collect())
        .collect();
    let image = frame(&[&rows[0], &rows[1]], 0);
    let png = encode_stitched_png(&[image], width, 2).unwrap();
    let be32 = |at: usize| u32::from_be_bytes(png[at..at + 4].try_into().unwrap());
    assert_eq!(&png[12..16], b"IHDR");
    assert_eq!(be32(29), crc32(&png[12..29]));
    let idat_length = be32(33) as usize;
    assert_eq!(&png[37..41], b"IDAT");
    let stream = &png[41..41 + idat_length];
    assert_eq!(be32(41 + idat_length), crc32(&png[37..41 + idat_length]));
    assert_eq!(&png[png.len() - 12..], &[0, 0, 0, 0, 73, 69, 78, 68, 174, 66, 96, 130]);
    assert_eq!(&stream[..2], &[0x78, 0x01]);
    let mut at = 2;
    let mut data = Vec::new();
    let mut blocks = 0;
    loop {
        let last = stream[at] == 1;
        let length = u16::from_le_bytes([stream[at + 1], stream[at + 2]]);
        assert_eq!(!length, u16::from_le_bytes([stream[at + 3], stream[at + 4]]));
        data.extend_from_slice(&stream[at + 5..at + 5 + length as usize]);
        at += 5 + length as usize;
        blocks += 1;
        if last {
            break;
        }
    }
    assert_eq!(blocks, 4);
    assert_eq!(at + 4, stream.len());
    let mut expected = Vec::new();
    for row in &rows {
        expected.push(0);
        expected.extend_from_slice(row);
    }
    assert_eq!(data, expected);
    assert_eq!(u32::from_be_bytes(stream[at..].try_into().unwrap()), adler32(&expected));
}

//! The PNG file of a scroll capture: the stitched rows as 8-bit RGBA, in one
//! IDAT chunk holding a zlib stream of stored deflate blocks.
use vstd::prelude::*;
use crate::scroll_capture::CapturedFrame;

verus! {

/// One bit step of the reflected CRC-32 (polynomial 0xEDB88320).
pub open spec fn crc_bit(value: u32) -> u32 {
    if value % 2 == 1 {
        (value / 2) ^ 0xedb8_8320u32
    } else {
        value / 2
    }
}

/// `count` bit steps of the CRC-32 from `value`.
pub open spec fn crc_bits(value: u32, count: nat) -> u32
    decreases count,
{
    if count == 0 {
        value
    } else {
        crc_bit(crc_bits(value, (count - 1) as nat))
    }
}

/// The CRC-32 table entry of a byte value: eight bit steps.
pub open spec fn crc_table_entry(index: int) -> u32 {
    crc_bits(index as u32, 8)
}

/// The CRC-32 register after one more byte.
pub open spec fn crc_byte(crc: u32, byte: u8) -> u32 {
    crc_table_entry(((crc ^ (byte as u32)) % 256) as int) ^ (crc / 256)
}

/// The CRC-32 register after `bytes`, from `crc`.
pub open spec fn crc_update(crc: u32, bytes: Seq<u8>) -> u32
    decreases bytes.len(),
{
    if bytes.len() == 0 {
        crc
    } else {
        crc_byte(crc_update(crc, bytes.drop_last()), bytes.last())
    }
}

/// The CRC-32 of `bytes`, as PNG chunks carry it: the register starts with
/// every bit set and is inverted at the end.
pub open spec fn crc32(bytes: Seq<u8>) -> u32 {
    !crc_update(0xffff_ffffu32, bytes)
}

pub const ADLER_MODULUS: u32 = 65_521;

/// The two Adler-32 sums after `bytes`, from `state`: the running sum of the
/// bytes and the running sum of those sums, both modulo 65521.
pub open spec fn adler_update(state: (u32, u32), bytes: Seq<u8>) -> (u32, u32)
    decreases bytes.len(),
{
    if bytes.len() == 0 {
        state
    } else {
        let before = adler_update(state, bytes.drop_last());
        let a = ((before.0 + bytes.last()) % 65_521) as u32;
        (a, ((before.1 + a) % 65_521) as u32)
    }
}

/// The Adler-32 checksum of `bytes`, as a zlib stream ends with it.
pub open spec fn adler32(bytes: Seq<u8>) -> u32 {
    let sums = adler_update((1, 0), bytes);
    (sums.1 * 65_536 + sums.0) as u32
}

/// A 32-bit value in big-endian byte order.
pub open spec fn be32(value: u32) -> Seq<u8> {
    seq![
        (value / 0x100_0000) as u8,
        ((value / 0x1_0000) % 256) as u8,
        ((value / 256) % 256) as u8,
        (value % 256) as u8,
    ]
}

pub open spec fn png_signature_bytes() -> Seq<u8> {
    seq![137u8, 80, 78, 71, 13, 10, 26, 10]
}

/// A PNG chunk: the data's length, the type, the data, and the CRC-32 of the
/// type and the data.
pub open spec fn png_chunk(kind: Seq<u8>, data: Seq<u8>) -> Seq<u8> {
    be32(data.len() as u32) + kind + data + be32(crc32(kind + data))
}

pub open spec fn ihdr_type() -> Seq<u8> {
    seq![73u8, 72, 68, 82]
}

pub open spec fn idat_type() -> Seq<u8> {
    seq![73u8, 68, 65, 84]
}

pub open spec fn iend_type() -> Seq<u8> {
    seq![73u8, 69, 78, 68]
}

/// The header of an 8-bit RGBA image, without interlacing.
pub open spec fn ihdr_data(width: u32, height: u32) -> Seq<u8> {
    be32(width) + be32(height) + seq![8u8, 6, 0, 0, 0]
}

/// A row as the PNG stream holds it: filter type 0, then the row's bytes.
pub open spec fn filtered_row(row: Seq<u8>) -> Seq<u8> {
    seq![0u8] + row
}

/// The filtered rows, one after the other.
pub open spec fn filtered_rows(rows: Seq<Seq<u8>>) -> Seq<u8>
    decreases rows.len(),
{
    if rows.len() == 0 {
        Seq::empty()
    } else {
        filtered_rows(rows.drop_last()) + filtered_row(rows.last())
    }
}

pub const STORED_BLOCK_MAX: usize = 65_535;

/// The header of a stored deflate block of `length` bytes: the final flag,
/// then the length and its complement, low byte first.
pub open spec fn stored_block_header(length: int, is_final: bool) -> Seq<u8> {
    seq![
        if is_final { 1u8 } else { 0u8 },
        (length % 256) as u8,
        (length / 256) as u8,
        ((65_535 - length) % 256) as u8,
        ((65_535 - length) / 256) as u8,
    ]
}

/// `bytes` as stored deflate blocks of at most 65535 bytes; the last block is
/// final when `ends_stream` is.
pub open spec fn stored_blocks(bytes: Seq<u8>, ends_stream: bool) -> Seq<u8>
    decreases bytes.len(),
{
    if bytes.len() == 0 {
        Seq::empty()
    } else if bytes.len() <= 65_535 {
        stored_block_header(bytes.len() as int, ends_stream) + bytes
    } else {
        stored_block_header(65_535, false) + bytes.take(65_535) + stored_blocks(
            bytes.skip(65_535),
            ends_stream,
        )
    }
}

/// The deflate blocks of the rows: each filtered row in blocks of its own,
/// the blocks of row number `height` being the last of the stream.
pub open spec fn row_blocks(rows: Seq<Seq<u8>>, height: int) -> Seq<u8>
    decreases rows.len(),
{
    if rows.len() == 0 {
        Seq::empty()
    } else {
        row_blocks(rows.drop_last(), height) + stored_blocks(
            filtered_row(rows.last()),
            rows.len() == height,
        )
    }
}

/// Stored blocks needed for one filtered row of `row_bytes` pixel bytes.
pub open spec fn blocks_per_row(row_bytes: int) -> int {
    (row_bytes + 1 + 65_534) / 65_535
}

/// The length the IDAT chunk announces for `height` rows of `row_bytes`
/// bytes: the zlib header, the filtered rows with a block header for every
/// block, and the checksum.
pub open spec fn idat_length(row_bytes: int, height: int) -> int {
    (row_bytes + 1) * height + 5 * blocks_per_row(row_bytes) * height + 6
}

/// The zlib stream of the rows: header, stored blocks, Adler-32.
pub open spec fn zlib_stream(rows: Seq<Seq<u8>>, height: int) -> Seq<u8> {
    seq![0x78u8, 0x01] + row_blocks(rows, height) + be32(adler32(filtered_rows(rows)))
}

/// The PNG file of an RGBA image of `width` by `height` pixels whose rows are
/// `rows`.
pub open spec fn png_file(width: u32, height: u32, rows: Seq<Seq<u8>>) -> Seq<u8> {
    let stream = zlib_stream(rows, height as int);
    png_signature_bytes() + png_chunk(ihdr_type(), ihdr_data(width, height)) + be32(
        idat_length(width * 4, height as int) as u32,
    ) + idat_type() + stream + be32(crc32(idat_type() + stream)) + png_chunk(
        iend_type(),
        Seq::empty(),
    )
}

/// The first row a frame adds to the stitched image: all of the first frame,
/// and below the overlap of every later one.
pub open spec fn first_new_row(frame: CapturedFrame, is_first: bool) -> int {
    if is_first {
        0
    } else if frame.overlap < frame.height {
        frame.overlap as int
    } else {
        frame.height as int
    }
}

/// Row `row` of a frame, `row_bytes` bytes wide.
pub open spec fn frame_row(frame: CapturedFrame, row: int, row_bytes: int) -> Seq<u8> {
    frame.pixels@.subrange(row * row_bytes, (row + 1) * row_bytes)
}

/// The rows a frame adds to the stitched image.
pub open spec fn frame_rows(frame: CapturedFrame, is_first: bool, row_bytes: int) -> Seq<Seq<u8>> {
    let first = first_new_row(frame, is_first);
    Seq::new(
        (frame.height - first) as nat,
        |k: int| frame_row(frame, first + k, row_bytes),
    )
}

/// The rows of the stitched image: the first frame whole, then the rows each
/// later frame shows below its overlap.
pub open spec fn stitched_rows(frames: Seq<CapturedFrame>, row_bytes: int) -> Seq<Seq<u8>>
    decreases frames.len(),
{
    if frames.len() == 0 {
        Seq::empty()
    } else {
        stitched_rows(frames.drop_last(), row_bytes) + frame_rows(
            frames.last(),
            frames.len() == 1,
            row_bytes,
        )
    }
}

/// Why an image of `width` by `height` pixels from `frame_count` frames
/// cannot be written, if it cannot.
pub open spec fn png_error(width: usize, height: usize, frame_count: int) -> Option<Seq<char>> {
    if width == 0 || height == 0 || frame_count == 0 {
        Some("Invalid image dimensions"@)
    } else if width > u32::MAX {
        Some("Image width is too large"@)
    } else if height > u32::MAX {
        Some("Image height is too large"@)
    } else if width * 4 > usize::MAX {
        Some("PNG row is too large"@)
    } else if idat_length(width * 4, height as int) > u32::MAX {
        Some("PNG data is too large"@)
    } else {
        None
    }
}

proof fn lemma_crc_update_append(crc: u32, front: Seq<u8>, back: Seq<u8>)
    ensures
        crc_update(crc, front + back) == crc_update(crc_update(crc, front), back),
    decreases back.len(),
{
    if back.len() == 0 {
        assert(front + back =~= front);
    } else {
        lemma_crc_update_append(crc, front, back.drop_last());
        assert((front + back).drop_last() =~= front + back.drop_last());
        assert((front + back).last() == back.last());
    }
}

proof fn lemma_adler_update_append(state: (u32, u32), front: Seq<u8>, back: Seq<u8>)
    ensures
        adler_update(state, front + back) == adler_update(adler_update(state, front), back),
    decreases back.len(),
{
    if back.len() == 0 {
        assert(front + back =~= front);
    } else {
        lemma_adler_update_append(state, front, back.drop_last());
        assert((front + back).drop_last() =~= front + back.drop_last());
        assert((front + back).last() == back.last());
    }
}

/// The CRC-32 table of every byte value.
fn crc32_table() -> (table: Vec<u32>)
    ensures
        table@.len() == 256,
        forall|i: int| 0 <= i < 256 ==> #[trigger] table@[i] == crc_table_entry(i),
{
    let mut table: Vec<u32> = Vec::new();
    let mut index: u32 = 0;
    while index < 256
        invariant
            index <= 256,
            table@.len() == index,
            forall|i: int| 0 <= i < index ==> #[trigger] table@[i] == crc_table_entry(i),
        decreases 256 - index,
    {
        let mut value: u32 = index;
        let mut step: u32 = 0;
        while step < 8
            invariant
                step <= 8,
                index < 256,
                value == crc_bits(index, step as nat),
            decreases 8 - step,
        {
            value = if value % 2 == 1 {
                (value / 2) ^ 0xedb8_8320u32
            } else {
                value / 2
            };
            step = step + 1;
        }
        table.push(value);
        index = index + 1;
    }
    table
}

/// Appends `bytes[from..to]` to `out`, running them through the CRC-32
/// register.
fn write_crc_range(
    out: &mut Vec<u8>,
    crc: &mut u32,
    table: &Vec<u32>,
    bytes: &[u8],
    from: usize,
    to: usize,
)
    requires
        from <= to <= bytes@.len(),
        table@.len() == 256,
        forall|i: int| 0 <= i < 256 ==> #[trigger] table@[i] == crc_table_entry(i),
    ensures
        final(out)@ == old(out)@ + bytes@.subrange(from as int, to as int),
        *final(crc) == crc_update(*old(crc), bytes@.subrange(from as int, to as int)),
{
    let mut index: usize = from;
    assert(bytes@.subrange(from as int, from as int) =~= Seq::<u8>::empty());
    while index < to
        invariant
            from <= index <= to <= bytes@.len(),
            table@.len() == 256,
            forall|i: int| 0 <= i < 256 ==> #[trigger] table@[i] == crc_table_entry(i),
            out@ == old(out)@ + bytes@.subrange(from as int, index as int),
            *crc == crc_update(*old(crc), bytes@.subrange(from as int, index as int)),
        decreases to - index,
    {
        let byte = bytes[index];
        out.push(byte);
        let slot: u32 = (*crc ^ (byte as u32)) % 256;
        *crc = table[slot as usize] ^ (*crc / 256);
        assert(bytes@.subrange(from as int, index + 1).drop_last() =~= bytes@.subrange(
            from as int,
            index as int,
        ));
        assert(out@ =~= old(out)@ + bytes@.subrange(from as int, index + 1));
        index = index + 1;
    }
}

/// Appends `bytes` to `out`, running them through the CRC-32 register.
fn write_crc_bytes(out: &mut Vec<u8>, crc: &mut u32, table: &Vec<u32>, bytes: &[u8])
    requires
        table@.len() == 256,
        forall|i: int| 0 <= i < 256 ==> #[trigger] table@[i] == crc_table_entry(i),
    ensures
        final(out)@ == old(out)@ + bytes@,
        *final(crc) == crc_update(*old(crc), bytes@),
{
    write_crc_range(out, crc, table, bytes, 0, bytes.len());
    assert(bytes@.subrange(0, bytes@.len() as int) =~= bytes@);
}

/// Runs `bytes` through the two Adler-32 sums.
fn update_adler32(a: &mut u32, b: &mut u32, bytes: &[u8])
    requires
        *old(a) < 65_521,
        *old(b) < 65_521,
    ensures
        (*final(a), *final(b)) == adler_update((*old(a), *old(b)), bytes@),
        *final(a) < 65_521,
        *final(b) < 65_521,
{
    let mut index: usize = 0;
    while index < bytes.len()
        invariant
            index <= bytes@.len(),
            *a < 65_521,
            *b < 65_521,
            (*a, *b) == adler_update((*old(a), *old(b)), bytes@.take(index as int)),
        decreases bytes@.len() - index,
    {
        assert(bytes@.take(index + 1).drop_last() =~= bytes@.take(index as int));
        *a = (*a + bytes[index] as u32) % 65_521;
        *b = (*b + *a) % 65_521;
        index = index + 1;
    }
    assert(bytes@.take(bytes@.len() as int) =~= bytes@);
}

/// The big-endian bytes of a 32-bit value.
fn be32_bytes(value: u32) -> (bytes: [u8; 4])
    ensures
        bytes@ == be32(value),
{
    [
        (value / 0x100_0000) as u8,
        ((value / 0x1_0000) % 256) as u8,
        ((value / 256) % 256) as u8,
        (value % 256) as u8,
    ]
}

/// Appends a whole chunk: length, type, data and CRC-32.
fn write_png_chunk(out: &mut Vec<u8>, table: &Vec<u32>, kind: [u8; 4], data: &[u8])
    requires
        table@.len() == 256,
        forall|i: int| 0 <= i < 256 ==> #[trigger] table@[i] == crc_table_entry(i),
        data@.len() <= u32::MAX,
    ensures
        final(out)@ == old(out)@ + png_chunk(kind@, data@),
{
    let length = be32_bytes(data.len() as u32);
    let mut ignored: u32 = 0;
    write_crc_bytes(out, &mut ignored, table, &length);
    let mut crc: u32 = 0xffff_ffff;
    write_crc_bytes(out, &mut crc, table, &kind);
    write_crc_bytes(out, &mut crc, table, data);
    proof {
        lemma_crc_update_append(0xffff_ffffu32, kind@, data@);
    }
    let sum = be32_bytes(!crc);
    write_crc_bytes(out, &mut ignored, table, &sum);
    assert(out@ =~= old(out)@ + png_chunk(kind@, data@));
}

/// Appends `bytes` as stored deflate blocks of at most 65535 bytes, running
/// them through the CRC-32 register.
fn write_stored_blocks(
    out: &mut Vec<u8>,
    crc: &mut u32,
    table: &Vec<u32>,
    bytes: &[u8],
    ends_stream: bool,
)
    requires
        table@.len() == 256,
        forall|i: int| 0 <= i < 256 ==> #[trigger] table@[i] == crc_table_entry(i),
    ensures
        final(out)@ == old(out)@ + stored_blocks(bytes@, ends_stream),
        *final(crc) == crc_update(*old(crc), stored_blocks(bytes@, ends_stream)),
{
    let mut offset: usize = 0;
    let ghost start = out@;
    assert(bytes@.skip(0) =~= bytes@);
    assert(out@.skip(start.len() as int) =~= Seq::<u8>::empty());
    while offset < bytes.len()
        invariant
            offset <= bytes@.len(),
            table@.len() == 256,
            forall|i: int| 0 <= i < 256 ==> #[trigger] table@[i] == crc_table_entry(i),
            start == old(out)@,
            out@.len() >= start.len(),
            out@.take(start.len() as int) == start,
            out@.skip(start.len() as int) + stored_blocks(bytes@.skip(offset as int), ends_stream)
                == stored_blocks(bytes@, ends_stream),
            *crc == crc_update(*old(crc), out@.skip(start.len() as int)),
        decreases bytes@.len() - offset,
    {
        let ghost rest = bytes@.skip(offset as int);
        let remaining: usize = bytes.len() - offset;
        let block_length: usize = if remaining < STORED_BLOCK_MAX { remaining } else { STORED_BLOCK_MAX };
        let is_final: bool = ends_stream && block_length == remaining;
        let header: [u8; 5] = [
            if is_final { 1 } else { 0 },
            (block_length % 256) as u8,
            (block_length / 256) as u8,
            ((STORED_BLOCK_MAX - block_length) % 256) as u8,
            ((STORED_BLOCK_MAX - block_length) / 256) as u8,
        ];
        assert(header@ == stored_block_header(block_length as int, is_final));
        let ghost written = out@.skip(start.len() as int);
        write_crc_bytes(out, crc, table, &header);
        write_crc_range(out, crc, table, bytes, offset, offset + block_length);
        let ghost piece = header@ + bytes@.subrange(offset as int, offset + block_length);
        proof {
            lemma_crc_update_append(*old(crc), written, header@);
            lemma_crc_update_append(
                *old(crc),
                written + header@,
                bytes@.subrange(offset as int, offset + block_length),
            );
            assert(out@.skip(start.len() as int) =~= written + piece);
            assert(out@.take(start.len() as int) =~= start);
            assert(written + header@ + bytes@.subrange(offset as int, offset + block_length)
                =~= written + piece);
            assert(rest.take(block_length as int) =~= bytes@.subrange(
                offset as int,
                offset + block_length,
            ));
            assert(bytes@.skip(offset + block_length) =~= rest.skip(block_length as int));
            if remaining <= 65_535 {
                assert(rest.skip(block_length as int) =~= Seq::<u8>::empty());
                assert(rest =~= bytes@.subrange(offset as int, offset + block_length));
                assert(stored_blocks(rest, ends_stream) == piece);
            } else {
                assert(stored_blocks(rest, ends_stream) == piece + stored_blocks(
                    rest.skip(65_535),
                    ends_stream,
                ));
            }
            assert(out@.skip(start.len() as int) + stored_blocks(
                bytes@.skip(offset + block_length),
                ends_stream,
            ) =~= stored_blocks(bytes@, ends_stream));
        }
        offset = offset + block_length;
    }
    assert(bytes@.skip(offset as int) =~= Seq::<u8>::empty());
    assert(out@ =~= out@.take(start.len() as int) + out@.skip(start.len() as int));
}

/// How many rows have been written, counted up to one past any height a
/// PNG can have.
pub open spec fn capped_count(count: int) -> int {
    if count < 0x1_0000_0000 { count } else { 0x1_0000_0000 }
}

/// What the IDAT chunk holds so far, and its running checksums, once `rows`
/// have been written after `head`.
pub open spec fn rows_written(
    out: Seq<u8>,
    crc: u32,
    a: u32,
    b: u32,
    done: u64,
    head: Seq<u8>,
    rows: Seq<Seq<u8>>,
    height: int,
) -> bool {
    let body = idat_type() + seq![0x78u8, 0x01] + row_blocks(rows, height);
    &&& out == head + body
    &&& crc == crc_update(0xffff_ffffu32, body)
    &&& (a, b) == adler_update((1, 0), filtered_rows(rows))
    &&& a < 65_521 && b < 65_521
    &&& done == capped_count(rows.len() as int)
}

/// Appends one row of a frame: filtered, in stored blocks, through both
/// checksums.
fn write_png_row(
    out: &mut Vec<u8>,
    crc: &mut u32,
    a: &mut u32,
    b: &mut u32,
    done: &mut u64,
    table: &Vec<u32>,
    frame: &CapturedFrame,
    row: usize,
    row_bytes: usize,
    height: usize,
    Ghost(head): Ghost<Seq<u8>>,
    Ghost(rows): Ghost<Seq<Seq<u8>>>,
)
    requires
        table@.len() == 256,
        forall|i: int| 0 <= i < 256 ==> #[trigger] table@[i] == crc_table_entry(i),
        (row + 1) * row_bytes <= frame.pixels@.len(),
        row_bytes < usize::MAX,
        height <= u32::MAX,
        rows_written(old(out)@, *old(crc), *old(a), *old(b), *old(done), head, rows, height as int),
    ensures
        rows_written(
            final(out)@,
            *final(crc),
            *final(a),
            *final(b),
            *final(done),
            head,
            rows.push(frame_row(*frame, row as int, row_bytes as int)),
            height as int,
        ),
{
    let ghost line = frame_row(*frame, row as int, row_bytes as int);
    let length: usize = frame.pixels.len();
    assert(row * row_bytes + row_bytes <= length) by (nonlinear_arith)
        requires
            (row + 1) * row_bytes <= length,
    ;
    let start: usize = row * row_bytes;
    let mut filtered: Vec<u8> = Vec::new();
    filtered.push(0);
    assert((row + 1) * row_bytes == row * row_bytes + row_bytes) by (nonlinear_arith);
    assert(filtered@ =~= seq![0u8] + line.take(0));
    let mut index: usize = 0;
    while index < row_bytes
        invariant
            index <= row_bytes,
            start + row_bytes <= length,
            length == frame.pixels@.len(),
            start == row * row_bytes,
            line == frame.pixels@.subrange(start as int, start + row_bytes),
            filtered@ == seq![0u8] + line.take(index as int),
        decreases row_bytes - index,
    {
        filtered.push(frame.pixels[start + index]);
        assert(filtered@ =~= seq![0u8] + line.take(index + 1));
        index = index + 1;
    }
    assert(line.take(row_bytes as int) =~= line);
    assert(filtered@ == filtered_row(line));
    let ends_stream: bool = *done + 1 == height as u64;
    let ghost next = rows.push(line);
    assert(next.drop_last() =~= rows);
    proof {
        lemma_adler_update_append((1, 0), filtered_rows(rows), filtered_row(line));
    }
    update_adler32(a, b, filtered.as_slice());
    let ghost before = out@;
    let ghost body = idat_type() + seq![0x78u8, 0x01] + row_blocks(rows, height as int);
    write_stored_blocks(out, crc, table, filtered.as_slice(), ends_stream);
    proof {
        assert(ends_stream == (next.len() == height));
        lemma_crc_update_append(0xffff_ffffu32, body, stored_blocks(filtered_row(line), ends_stream));
        assert(idat_type() + seq![0x78u8, 0x01] + row_blocks(next, height as int) =~= body
            + stored_blocks(filtered_row(line), ends_stream));
        assert(out@ =~= head + (body + stored_blocks(filtered_row(line), ends_stream)));
    }
    if *done < 0x1_0000_0000 {
        *done = *done + 1;
    }
}

fn append_bytes(out: &mut Vec<u8>, bytes: &[u8])
    ensures
        final(out)@ == old(out)@ + bytes@,
{
    let mut index: usize = 0;
    while index < bytes.len()
        invariant
            index <= bytes@.len(),
            out@ == old(out)@ + bytes@.take(index as int),
        decreases bytes@.len() - index,
    {
        out.push(bytes[index]);
        assert(out@ =~= old(out)@ + bytes@.take(index + 1));
        index = index + 1;
    }
    assert(bytes@.take(bytes@.len() as int) =~= bytes@);
}

/// The rows of a frame that the image takes lie inside its pixels.
pub open spec fn frame_rows_fit(frame: CapturedFrame, is_first: bool, row_bytes: int) -> bool {
    first_new_row(frame, is_first) >= frame.height || frame.height * row_bytes
        <= frame.pixels@.len()
}

/// Encodes the stitched image of `frames`, `width` by `height` pixels, as a
/// PNG file: all rows of the first frame, then the rows of each later frame
/// below its overlap, as 8-bit RGBA in stored deflate blocks.
pub fn encode_stitched_png(frames: &[CapturedFrame], width: usize, height: usize) -> (png: Result<
    Vec<u8>,
    String,
>)
    requires
        png_error(width, height, frames@.len() as int) is None ==> forall|i: int|
            0 <= i < frames@.len() ==> frame_rows_fit(#[trigger] frames@[i], i == 0, width * 4),
    ensures
        match png {
            Ok(bytes) => png_error(width, height, frames@.len() as int) is None && bytes@
                == png_file(width as u32, height as u32, stitched_rows(frames@, width * 4)),
            Err(message) => png_error(width, height, frames@.len() as int) == Some(message@),
        },
{
    if width == 0 || height == 0 || frames.len() == 0 {
        return Err("Invalid image dimensions".to_owned());
    }
    if width > 0xffff_ffff {
        return Err("Image width is too large".to_owned());
    }
    if height > 0xffff_ffff {
        return Err("Image height is too large".to_owned());
    }
    let row_bytes: usize = match width.checked_mul(4) {
        Some(bytes) => bytes,
        None => {
            return Err("PNG row is too large".to_owned());
        },
    };
    let filtered_bytes: u128 = row_bytes as u128 + 1;
    let blocks: u128 = (filtered_bytes + 65_534) / 65_535;
    let rows_high: u128 = height as u128;
    assert(filtered_bytes * rows_high <= 0x4_0000_0000 * 0x1_0000_0000) by (nonlinear_arith)
        requires
            filtered_bytes <= 0x4_0000_0000,
            rows_high <= 0x1_0000_0000,
    ;
    assert(5 * blocks * rows_high <= 5 * 0x4_0000_0000 * 0x1_0000_0000) by (nonlinear_arith)
        requires
            blocks <= 0x4_0000_0000,
            rows_high <= 0x1_0000_0000,
    ;
    let payload: u128 = filtered_bytes * rows_high + 5 * blocks * rows_high + 6;
    assert(payload == idat_length(width * 4, height as int));
    if payload > 0xffff_ffff {
        return Err("PNG data is too large".to_owned());
    }
    assert(png_error(width, height, frames@.len() as int) is None);
    let table = crc32_table();
    let mut out: Vec<u8> = Vec::new();
    let signature: [u8; 8] = [137, 80, 78, 71, 13, 10, 26, 10];
    append_bytes(&mut out, &signature);
    let mut header: Vec<u8> = Vec::new();
    append_bytes(&mut header, &be32_bytes(width as u32));
    append_bytes(&mut header, &be32_bytes(height as u32));
    let format: [u8; 5] = [8, 6, 0, 0, 0];
    append_bytes(&mut header, &format);
    assert(header@ =~= ihdr_data(width as u32, height as u32));
    write_png_chunk(&mut out, &table, [73, 72, 68, 82], header.as_slice());
    append_bytes(&mut out, &be32_bytes(payload as u32));
    let ghost head = out@;
    let mut crc: u32 = 0xffff_ffff;
    let idat: [u8; 4] = [73, 68, 65, 84];
    let zlib_header: [u8; 2] = [0x78, 0x01];
    write_crc_bytes(&mut out, &mut crc, &table, &idat);
    write_crc_bytes(&mut out, &mut crc, &table, &zlib_header);
    proof {
        lemma_crc_update_append(0xffff_ffffu32, idat_type(), seq![0x78u8, 0x01]);
        assert(row_blocks(Seq::empty(), height as int) =~= Seq::<u8>::empty());
        assert(filtered_rows(Seq::empty()) =~= Seq::<u8>::empty());
        assert(idat_type() + seq![0x78u8, 0x01] + row_blocks(Seq::empty(), height as int)
            =~= idat@ + zlib_header@);
        assert(out@ =~= head + (idat@ + zlib_header@));
    }
    let mut a: u32 = 1;
    let mut b: u32 = 0;
    let mut done: u64 = 0;
    let mut index: usize = 0;
    assert(frames@.take(0) =~= Seq::<CapturedFrame>::empty());
    while index < frames.len()
        invariant
            index <= frames@.len(),
            row_bytes == width * 4,
            row_bytes < usize::MAX,
            height <= u32::MAX,
            table@.len() == 256,
            forall|i: int| 0 <= i < 256 ==> #[trigger] table@[i] == crc_table_entry(i),
            forall|i: int|
                0 <= i < frames@.len() ==> frame_rows_fit(#[trigger] frames@[i], i == 0, width * 4),
            rows_written(
                out@,
                crc,
                a,
                b,
                done,
                head,
                stitched_rows(frames@.take(index as int), row_bytes as int),
                height as int,
            ),
        decreases frames@.len() - index,
    {
        let frame = &frames[index];
        let ghost earlier = stitched_rows(frames@.take(index as int), row_bytes as int);
        let ghost added = frame_rows(*frame, index == 0, row_bytes as int);
        let first: usize = if index == 0 {
            0
        } else if frame.overlap < frame.height {
            frame.overlap
        } else {
            frame.height
        };
        assert(first == first_new_row(*frame, index == 0));
        assert(frame_rows_fit(frames@[index as int], index == 0, width * 4));
        let mut row: usize = first;
        assert(added.take(0) =~= Seq::<Seq<u8>>::empty());
        assert(earlier + added.take(0) =~= earlier);
        while row < frame.height
            invariant
                first <= row <= frame.height,
                first == first_new_row(*frame, index == 0),
                added == frame_rows(*frame, index == 0, row_bytes as int),
                frame_rows_fit(*frame, index == 0, row_bytes as int),
                row_bytes < usize::MAX,
                height <= u32::MAX,
                table@.len() == 256,
                forall|i: int| 0 <= i < 256 ==> #[trigger] table@[i] == crc_table_entry(i),
                rows_written(
                    out@,
                    crc,
                    a,
                    b,
                    done,
                    head,
                    earlier + added.take(row - first),
                    height as int,
                ),
            decreases frame.height - row,
        {
            let ghost length = frame.pixels@.len();
            assert((row + 1) * row_bytes <= length) by (nonlinear_arith)
                requires
                    row + 1 <= frame.height,
                    frame.height * row_bytes <= length,
            ;
            write_png_row(
                &mut out,
                &mut crc,
                &mut a,
                &mut b,
                &mut done,
                &table,
                frame,
                row,
                row_bytes,
                height,
                Ghost(head),
                Ghost(earlier + added.take(row - first)),
            );
            assert((earlier + added.take(row - first)).push(
                frame_row(*frame, row as int, row_bytes as int),
            ) =~= earlier + added.take(row + 1 - first));
            row = row + 1;
        }
        assert(added.take(frame.height - first) =~= added);
        assert(frames@.take(index + 1).drop_last() =~= frames@.take(index as int));
        assert(frames@.take(index + 1).last() == *frame);
        assert(stitched_rows(frames@.take(index + 1), row_bytes as int) == earlier + added);
        index = index + 1;
    }
    assert(frames@.take(frames@.len() as int) =~= frames@);
    let ghost rows = stitched_rows(frames@, row_bytes as int);
    let ghost body = idat_type() + seq![0x78u8, 0x01] + row_blocks(rows, height as int);
    let adler: u32 = b * 65_536 + a;
    let adler_bytes = be32_bytes(adler);
    write_crc_bytes(&mut out, &mut crc, &table, &adler_bytes);
    proof {
        lemma_crc_update_append(0xffff_ffffu32, body, adler_bytes@);
        assert(adler == adler32(filtered_rows(rows)));
        assert(idat_type() + zlib_stream(rows, height as int) =~= body + adler_bytes@);
    }
    append_bytes(&mut out, &be32_bytes(!crc));
    let nothing: [u8; 0] = [];
    write_png_chunk(&mut out, &table, [73, 69, 78, 68], &nothing);
    assert(out@ =~= png_file(width as u32, height as u32, rows));
    Ok(out)
}

} // verus!

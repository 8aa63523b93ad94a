//! Sizing images for the system text recognizer.
use vstd::prelude::*;
use crate::text::{chars_of, push_str, spec_trim, string_of, trim_chars};

verus! {

/// Images are enlarged by this factor before recognition, within the engine's limit.
pub const OCR_SCALE_FACTOR: u32 = 2;

/// The size an image is scaled to before recognition: its longest side doubled
/// (saturating) and capped at `maximum`, the other side scaled in proportion
/// (rounded down, at least 1). A zero limit or an empty side leaves it alone.
pub open spec fn spec_fit_ocr_dimensions(width: u32, height: u32, maximum: u32) -> (u32, u32) {
    if maximum == 0 || width == 0 || height == 0 {
        (width, height)
    } else {
        let longest: int = if width >= height { width as int } else { height as int };
        let doubled: int = if longest * 2 > u32::MAX { u32::MAX as int } else { longest * 2 };
        let side: int = if doubled < maximum { doubled } else { maximum as int };
        if width >= height {
            let other = height * side / (width as int);
            (side as u32, if other < 1 { 1u32 } else { other as u32 })
        } else {
            let other = width * side / (height as int);
            (if other < 1 { 1u32 } else { other as u32 }, side as u32)
        }
    }
}

pub fn fit_ocr_dimensions(width: u32, height: u32, maximum: u32) -> (size: (u32, u32))
    ensures
        size == spec_fit_ocr_dimensions(width, height, maximum),
{
    if maximum == 0 || width == 0 || height == 0 {
        return (width, height);
    }
    let longest_side: u32 = if width >= height { width } else { height };
    let doubled: u32 = match longest_side.checked_mul(OCR_SCALE_FACTOR) {
        Some(product) => product,
        None => u32::MAX,
    };
    let scaled_longest_side: u32 = if doubled < maximum { doubled } else { maximum };
    if width >= height {
        assert((height as u64) * (scaled_longest_side as u64) <= 0xffff_ffff * 0xffff_ffff)
            by (nonlinear_arith);
        let product: u64 = (height as u64) * (scaled_longest_side as u64);
        assert((height as u64) * (scaled_longest_side as u64) <= (width as u64) * (
        scaled_longest_side as u64)) by (nonlinear_arith)
            requires
                height <= width,
        ;
        let quotient: u64 = product / (width as u64);
        assert(quotient <= scaled_longest_side) by (nonlinear_arith)
            requires
                quotient == product / (width as u64),
                product <= (width as u64) * (scaled_longest_side as u64),
                width > 0,
        ;
        let scaled_height: u32 = if quotient < 1 { 1 } else { quotient as u32 };
        return (scaled_longest_side, scaled_height);
    }
    assert((width as u64) * (scaled_longest_side as u64) <= 0xffff_ffff * 0xffff_ffff)
        by (nonlinear_arith);
    let product: u64 = (width as u64) * (scaled_longest_side as u64);
    assert((width as u64) * (scaled_longest_side as u64) <= (height as u64) * (
    scaled_longest_side as u64)) by (nonlinear_arith)
        requires
            width <= height,
    ;
    let quotient: u64 = product / (height as u64);
    assert(quotient <= scaled_longest_side) by (nonlinear_arith)
        requires
            quotient == product / (height as u64),
            product <= (height as u64) * (scaled_longest_side as u64),
            height > 0,
    ;
    let scaled_width: u32 = if quotient < 1 { 1 } else { quotient as u32 };
    (scaled_width, scaled_longest_side)
}

/// The scaled image never has a side longer than the engine accepts, and the
/// longest side stays the longest.
pub proof fn lemma_fit_within_limit(width: u32, height: u32, maximum: u32)
    requires
        maximum > 0,
        width > 0,
        height > 0,
    ensures
        spec_fit_ocr_dimensions(width, height, maximum).0 <= maximum,
        spec_fit_ocr_dimensions(width, height, maximum).1 <= maximum,
        width >= height ==> spec_fit_ocr_dimensions(width, height, maximum).1
            <= spec_fit_ocr_dimensions(width, height, maximum).0,
        width < height ==> spec_fit_ocr_dimensions(width, height, maximum).0
            <= spec_fit_ocr_dimensions(width, height, maximum).1,
{
    let longest: int = if width >= height { width as int } else { height as int };
    let doubled: int = if longest * 2 > u32::MAX { u32::MAX as int } else { longest * 2 };
    let side: int = if doubled < maximum { doubled } else { maximum as int };
    assert(side >= 1);
    if width >= height {
        assert(height * side / (width as int) <= side) by (nonlinear_arith)
            requires
                height <= width,
                width > 0,
                side >= 0,
        ;
    } else {
        assert(width * side / (height as int) <= side) by (nonlinear_arith)
            requires
                width <= height,
                height > 0,
                side >= 0,
        ;
    }
}

pub open spec fn line_views(lines: Seq<String>) -> Seq<Seq<char>> {
    lines.map_values(|line: String| line@)
}

/// The lines one after another, a line break between each two.
pub open spec fn joined_lines(lines: Seq<Seq<char>>) -> Seq<char>
    decreases lines.len(),
{
    if lines.len() == 0 {
        Seq::empty()
    } else if lines.len() == 1 {
        lines[0]
    } else {
        joined_lines(lines.drop_last()) + "\n"@ + lines.last()
    }
}

/// The text of the recognized lines: joined by line breaks, with the
/// whitespace at both ends removed.
pub fn recognized_text(lines: &Vec<String>) -> (text: String)
    ensures
        text@ == spec_trim(joined_lines(line_views(lines@))),
{
    let mut joined = String::new();
    let mut index: usize = 0;
    assert(line_views(lines@).take(0) =~= Seq::<Seq<char>>::empty());
    while index < lines.len()
        invariant
            index <= lines@.len(),
            joined@ == joined_lines(line_views(lines@).take(index as int)),
        decreases lines@.len() - index,
    {
        let ghost views = line_views(lines@);
        assert(views.take(index + 1).drop_last() =~= views.take(index as int));
        assert(views.take(index + 1).last() == lines@[index as int]@);
        if index > 0 {
            push_str(&mut joined, "\n");
        } else {
            assert(views.take(1) =~= seq![lines@[0]@]);
        }
        push_str(&mut joined, lines[index].as_str());
        index = index + 1;
    }
    assert(line_views(lines@).take(lines@.len() as int) =~= line_views(lines@));
    let chars = chars_of(joined.as_str());
    let trimmed = trim_chars(&chars);
    string_of(&trimmed)
}

} // verus!

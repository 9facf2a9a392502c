//! ASCII art: which requests are accepted, and how brightness levels
//! become rows of characters.

use vstd::prelude::*;
use vstd::string::StringExecFns;
use crate::types::error::Error;

verus! {

/// Simple character set.
pub const CHAR_SET_SIMPLE: &'static str = " .'`-_:;+=*%#@";

/// Medium character set.
pub const CHAR_SET_MEDIUM: &'static str = " .'`-_:,;^!i?l~+/*()[]{}<>%#&$@";

/// Detailed character set.
pub const CHAR_SET_DETAILED: &'static str = " .'-,_`\":;!~*^=+|?/()[]{}<>ilrcvunxzjftmwqpdbaohk#$&%@";

/// Very detailed character set.
pub const CHAR_SET_VERY_DETAILED: &'static str =
    " `.-,:_`';\"^!|*\\/()[]{}?i~+><1lIctrJFnvuxLzsfjymeowqpkSadZbghVCE753YUROXG0PDK26948HQMNWB$%&#@";

/// Default target width in characters.
pub const DEFAULT_WIDTH: u32 = 100;

/// Default maximum height in characters.
pub const DEFAULT_HEIGHT: u32 = 50;

/// What is wrong with a request, if anything: the first of an empty
/// character set, a compensation factor that is not positive, a zero
/// width, and an image without rows.
pub enum Refusal {
    EmptyCharSet,
    Compensation,
    ZeroWidth,
    ZeroImageHeight,
}

/// The first thing that is wrong with a request, if anything is.
pub open spec fn refusal_of(
    char_count: nat,
    compensation_positive: bool,
    width: u32,
    image_height: u32,
) -> Option<Refusal> {
    if char_count == 0 {
        Some(Refusal::EmptyCharSet)
    } else if !compensation_positive {
        Some(Refusal::Compensation)
    } else if width == 0 {
        Some(Refusal::ZeroWidth)
    } else if image_height == 0 {
        Some(Refusal::ZeroImageHeight)
    } else {
        None
    }
}

/// The error by which a request is refused. `compensation` is the
/// compensation factor as it is printed.
pub open spec fn is_refusal(e: Error, refusal: Refusal, compensation: Seq<char>) -> bool {
    match refusal {
        Refusal::EmptyCharSet => e.is_validation_error(
            "Non-empty character set"@,
            "Empty character set"@,
            "ASCII conversion requires at least one character"@,
        ),
        Refusal::Compensation => e.is_validation_error(
            "Positive aspect ratio compensation"@,
            "Compensation factor: "@ + compensation,
            "Aspect ratio compensation must be greater than 0"@,
        ),
        Refusal::ZeroWidth => e.is_validation_error(
            "Positive width"@,
            "Width: 0"@,
            "Target width must be greater than 0"@,
        ),
        Refusal::ZeroImageHeight => e.is_validation_error(
            "Non-zero image height"@,
            "Image height: 0"@,
            "Input image height cannot be zero"@,
        ),
    }
}

/// Accepts or refuses a request to turn an image into ASCII art.
/// `compensation_positive` says whether the compensation factor is above
/// zero, `compensation` is the factor as it is printed.
pub fn check_request(
    char_count: usize,
    compensation_positive: bool,
    compensation: &str,
    width: u32,
    image_height: u32,
) -> (r: Result<(), Error>)
    ensures
        match refusal_of(char_count as nat, compensation_positive, width, image_height) {
            Some(refusal) => r is Err && is_refusal(r->Err_0, refusal, compensation@),
            None => r is Ok,
        },
{
    if char_count == 0 {
        return Err(
            Error::ValidationError {
                expected: "Non-empty character set".to_owned(),
                actual: "Empty character set".to_owned(),
                context: Some("ASCII conversion requires at least one character".to_owned()),
            },
        );
    }
    if !compensation_positive {
        let mut actual = "Compensation factor: ".to_owned();
        actual.append(compensation);
        return Err(
            Error::ValidationError {
                expected: "Positive aspect ratio compensation".to_owned(),
                actual,
                context: Some("Aspect ratio compensation must be greater than 0".to_owned()),
            },
        );
    }
    if width == 0 {
        return Err(
            Error::ValidationError {
                expected: "Positive width".to_owned(),
                actual: "Width: 0".to_owned(),
                context: Some("Target width must be greater than 0".to_owned()),
            },
        );
    }
    if image_height == 0 {
        return Err(
            Error::ValidationError {
                expected: "Non-zero image height".to_owned(),
                actual: "Image height: 0".to_owned(),
                context: Some("Input image height cannot be zero".to_owned()),
            },
        );
    }
    Ok(())
}

/// The height of the art: the height that the image's proportions ask
/// for, but at most `max_height` and at least one row.
pub open spec fn scaled_height_spec(wanted: u32, max_height: u32) -> u32 {
    if wanted <= max_height {
        if wanted >= 1 {
            wanted
        } else {
            1
        }
    } else if max_height >= 1 {
        max_height
    } else {
        1
    }
}

/// Bounds the height that the image's proportions ask for.
pub fn scaled_height(wanted: u32, max_height: u32) -> (height: u32)
    ensures
        height == scaled_height_spec(wanted, max_height),
        height >= 1,
{
    let bounded = if wanted <= max_height { wanted } else { max_height };
    if bounded >= 1 {
        bounded
    } else {
        1
    }
}

/// The character for a brightness level: the level picks the character,
/// and a level beyond the set picks the last one.
pub open spec fn level_char(level: usize, char_set: Seq<char>) -> char {
    if level < char_set.len() {
        char_set[level as int]
    } else {
        char_set[char_set.len() - 1]
    }
}

/// The art for a grid of brightness levels, row by row: one character for
/// every level, and a line feed after every row.
pub open spec fn rows_spec(levels: Seq<usize>, width: int, height: int, char_set: Seq<char>) -> Seq<
    char,
> {
    Seq::new(
        ((width + 1) * height) as nat,
        |i: int|
            if i % (width + 1) == width {
                '\n'
            } else {
                level_char(levels[(i / (width + 1)) * width + i % (width + 1)], char_set)
            },
    )
}

/// Turns a grid of brightness levels, given row by row, into ASCII art.
pub fn render_rows(levels: &Vec<usize>, width: u32, height: u32, char_set: &Vec<char>) -> (art:
    String)
    requires
        char_set@.len() > 0,
        levels@.len() == width * height,
    ensures
        art@ == rows_spec(levels@, width as int, height as int, char_set@),
{
    let count = char_set.len();
    let total = levels.len();
    let w = width as usize;
    let h = height as usize;
    let mut art = String::new();
    let mut y: usize = 0;
    while y < h
        invariant
            y <= h,
            w == width,
            h == height,
            count == char_set@.len(),
            count > 0,
            levels@.len() == w * h == total,
            art@.len() == (w + 1) * y,
            forall|i: int|
                0 <= i < art@.len() ==> art@[i] == rows_spec(
                    levels@,
                    width as int,
                    height as int,
                    char_set@,
                )[i],
        decreases h - y,
    {
        let mut x: usize = 0;
        assert(w * y + w <= w * h && (w + 1) * y + (w + 1) <= (w + 1) * h) by (nonlinear_arith)
            requires
                y < h,
        ;
        while x < w
            invariant
                y < h,
                x <= w,
                w == width,
                h == height,
                count == char_set@.len(),
                count > 0,
                levels@.len() == w * h == total,
                w * y + w <= w * h,
                (w + 1) * y + (w + 1) <= (w + 1) * h,
                art@.len() == (w + 1) * y + x,
                forall|i: int|
                    0 <= i < art@.len() ==> art@[i] == rows_spec(
                        levels@,
                        width as int,
                        height as int,
                        char_set@,
                    )[i],
            decreases w - x,
        {
            let ghost at = (w + 1) * y + x;
            assert(at / (w + 1) as int == y && at % (w + 1) as int == x) by (nonlinear_arith)
                requires
                    at == (w + 1) * y + x,
                    0 <= x < w + 1,
                    0 <= y,
            ;
            let level = levels[w * y + x];
            let c = if level < count {
                char_set[level]
            } else {
                char_set[count - 1]
            };
            art.push(c);
            x += 1;
        }
        let ghost at = (w + 1) * y + w;
        assert(at / (w + 1) as int == y && at % (w + 1) as int == w) by (nonlinear_arith)
            requires
                at == (w + 1) * y + w,
                0 <= w,
                0 <= y,
        ;
        art.push('\n');
        assert((w + 1) * (y + 1) == (w + 1) * y + w + 1) by (nonlinear_arith);
        y += 1;
    }
    assert(art@ =~= rows_spec(levels@, width as int, height as int, char_set@));
    art
}

} // verus!

//! Margin detection on decoded grayscale images.
//!
//! The embedding process decodes an image file into a plain grayscale
//! bitmap and hands it in here; everything that decides where the margins
//! are — background scanning, edge scanning, the unified margins of a
//! batch, and the crop and pad geometry — is verified on that bitmap.

use vstd::prelude::*;

use crate::margins::ContentRect;
use crate::margins::Margins;

verus! {

/// Margin error types.
#[derive(Debug)]
pub enum MarginError {
    /// The input image file does not exist.
    ImageNotFound(String),
    /// The input could not be decoded, or an output could not be encoded.
    InvalidImage(String),
    /// No content remains inside the detected margins.
    NoContentDetected,
    /// An input/output error outside decoding.
    IoError(String),
}

/// How content is told apart from background.
#[derive(Clone, Copy, Debug, PartialEq, Eq, Structural)]
pub enum ContentDetectionMode {
    /// Rows and columns with enough non-background pixels.
    BackgroundColor,
    /// Rows and columns with strong local gradients.
    EdgeDetection,
    /// Background detection with a loosened threshold.
    Histogram,
    /// The average of background and edge detection.
    Combined,
}

/// Options steering margin detection.
#[derive(Clone, Copy, Debug, PartialEq, Eq, Structural)]
pub struct MarginOptions {
    /// Luma at or above which a pixel counts as background.
    pub background_threshold: u8,
    /// A lower bound applied to every detected margin.
    pub min_margin: u32,
    /// The detection algorithm.
    pub detection_mode: ContentDetectionMode,
}

impl Default for MarginOptions {
    /// Background-colour detection against near-white, with no forced
    /// minimum margin.
    fn default() -> (o: MarginOptions)
        ensures
            o.background_threshold == 240,
            o.min_margin == 0,
            o.detection_mode == ContentDetectionMode::BackgroundColor,
    {
        MarginOptions {
            background_threshold: 240,
            min_margin: 0,
            detection_mode: ContentDetectionMode::BackgroundColor,
        }
    }
}

/// A decoded grayscale image: one luma byte per pixel, rows first.
#[derive(Debug)]
pub struct GrayBitmap {
    pub width: u32,
    pub height: u32,
    pub pixels: Vec<u8>,
}

impl GrayBitmap {
    /// The pixel buffer covers exactly the stated dimensions.
    pub open spec fn wf(self) -> bool {
        self.pixels@.len() == self.width as int * self.height as int
    }

    /// The luma of the pixel at column `x`, row `y`.
    pub open spec fn pixel(self, x: int, y: int) -> u8 {
        self.pixels@[y * self.width as int + x]
    }

    /// Build a bitmap, refusing a buffer that does not match the
    /// dimensions.
    pub fn new(width: u32, height: u32, pixels: Vec<u8>) -> (r: Result<GrayBitmap, MarginError>)
        ensures
            r.is_ok() == (pixels@.len() == width as int * height as int),
            r matches Ok(img) ==> img == (GrayBitmap { width, height, pixels }) && img.wf(),
            r is Err ==> (r matches Err(MarginError::InvalidImage(_))),
    {
        proof {
            assert(width as int * height as int <= 0xffff_ffff * 0xffff_ffff)
                by (nonlinear_arith)
                requires
                    width <= 0xffff_ffffu32 && height <= 0xffff_ffffu32,
            ;
        }
        let expected: u64 = (width as u64) * (height as u64);
        let ok = pixels.len() as u64 == expected;
        if ok {
            Ok(GrayBitmap { width, height, pixels })
        } else {
            Err(MarginError::InvalidImage(String::new()))
        }
    }

    /// Read one pixel.
    pub fn at(&self, x: u32, y: u32) -> (p: u8)
        requires
            self.wf(),
            x < self.width,
            y < self.height,
        ensures
            p == self.pixel(x as int, y as int),
    {
        proof {
            assert(y as int * self.width as int + x < self.width as int * self.height as int)
                by (nonlinear_arith)
                requires
                    x < self.width,
                    y < self.height,
            ;
            assert(0 <= y as int * self.width as int + x) by (nonlinear_arith)
                requires
                    0 <= x as int && 0 <= y as int && 0 <= self.width as int,
            ;
        }
        let n = self.pixels.len();
        proof {
            assert(y as int * self.width as int + x < n);
        }
        let idx: usize = (y as usize) * (self.width as usize) + (x as usize);
        self.pixels[idx]
    }
}

/// A pixel at or above the threshold counts as background.
pub open spec fn is_background(p: u8, threshold: u8) -> bool {
    p >= threshold
}

/// Non-background pixels among the first `upto` of row `y`.
pub open spec fn count_content_in_row(img: GrayBitmap, threshold: u8, y: int, upto: int) -> nat
    decreases upto,
{
    if upto <= 0 {
        0
    } else {
        count_content_in_row(img, threshold, y, upto - 1) + if !is_background(
            img.pixel(upto - 1, y),
            threshold,
        ) {
            1nat
        } else {
            0nat
        }
    }
}

/// Non-background pixels among the first `upto` of column `x`.
pub open spec fn count_content_in_col(img: GrayBitmap, threshold: u8, x: int, upto: int) -> nat
    decreases upto,
{
    if upto <= 0 {
        0
    } else {
        count_content_in_col(img, threshold, x, upto - 1) + if !is_background(
            img.pixel(x, upto - 1),
            threshold,
        ) {
            1nat
        } else {
            0nat
        }
    }
}

/// A row where content starts: strictly more than a tenth of its pixels
/// are non-background.
pub open spec fn row_has_content(img: GrayBitmap, threshold: u8, y: int) -> bool {
    10 * count_content_in_row(img, threshold, y, img.width as int) > img.width as int
}

/// A column where content starts, by the same tenth rule.
pub open spec fn col_has_content(img: GrayBitmap, threshold: u8, x: int) -> bool {
    10 * count_content_in_col(img, threshold, x, img.height as int) > img.height as int
}

/// The first row at or below `from` with content, scanning down.
pub open spec fn first_content_row(img: GrayBitmap, threshold: u8, from: int) -> Option<int>
    decreases (if from <= img.height as int {
        img.height as int - from
    } else {
        0int
    }),
{
    if from >= img.height as int {
        None
    } else if row_has_content(img, threshold, from) {
        Some(from)
    } else {
        first_content_row(img, threshold, from + 1)
    }
}

/// The last row at or above `from` with content, scanning up.
pub open spec fn last_content_row(img: GrayBitmap, threshold: u8, from: int) -> Option<int>
    decreases (if from >= 0 {
        from + 1
    } else {
        0int
    }),
{
    if from < 0 {
        None
    } else if row_has_content(img, threshold, from) {
        Some(from)
    } else {
        last_content_row(img, threshold, from - 1)
    }
}

/// The first column at or after `from` with content.
pub open spec fn first_content_col(img: GrayBitmap, threshold: u8, from: int) -> Option<int>
    decreases (if from <= img.width as int {
        img.width as int - from
    } else {
        0int
    }),
{
    if from >= img.width as int {
        None
    } else if col_has_content(img, threshold, from) {
        Some(from)
    } else {
        first_content_col(img, threshold, from + 1)
    }
}

/// The last column at or before `from` with content.
pub open spec fn last_content_col(img: GrayBitmap, threshold: u8, from: int) -> Option<int>
    decreases (if from >= 0 {
        from + 1
    } else {
        0int
    }),
{
    if from < 0 {
        None
    } else if col_has_content(img, threshold, from) {
        Some(from)
    } else {
        last_content_col(img, threshold, from - 1)
    }
}

/// Count the non-background pixels of one row.
fn count_row(img: &GrayBitmap, threshold: u8, y: u32) -> (c: usize)
    requires
        img.wf(),
        y < img.height,
    ensures
        c == count_content_in_row(*img, threshold, y as int, img.width as int),
        c <= img.width,
{
    let mut c: usize = 0;
    let mut x: u32 = 0;
    while x < img.width
        invariant
            img.wf(),
            y < img.height,
            0 <= x <= img.width,
            c == count_content_in_row(*img, threshold, y as int, x as int),
            c <= x,
        decreases img.width - x,
    {
        if img.at(x, y) < threshold {
            c += 1;
        }
        x += 1;
    }
    c
}

/// Count the non-background pixels of one column.
fn count_col(img: &GrayBitmap, threshold: u8, x: u32) -> (c: usize)
    requires
        img.wf(),
        x < img.width,
    ensures
        c == count_content_in_col(*img, threshold, x as int, img.height as int),
        c <= img.height,
{
    let mut c: usize = 0;
    let mut y: u32 = 0;
    while y < img.height
        invariant
            img.wf(),
            x < img.width,
            0 <= y <= img.height,
            c == count_content_in_col(*img, threshold, x as int, y as int),
            c <= y,
        decreases img.height - y,
    {
        if img.at(x, y) < threshold {
            c += 1;
        }
        y += 1;
    }
    c
}

/// Where content starts vertically: scanning from the top, the first
/// content row; from the bottom, the image height minus the last content
/// row.  Zero when no row holds content.
pub fn find_content_start_vertical(img: &GrayBitmap, threshold: u8, from_top: bool) -> (r: u32)
    requires
        img.wf(),
    ensures
        from_top ==> r == match first_content_row(*img, threshold, 0) {
            Some(y) => y,
            None => 0,
        },
        !from_top ==> r == match last_content_row(*img, threshold, img.height as int - 1) {
            Some(y) => img.height - y,
            None => 0,
        },
        r <= img.height,
    {
    if from_top {
        let mut y: u32 = 0;
        while y < img.height
            invariant
                img.wf(),
                from_top,
                0 <= y <= img.height,
                first_content_row(*img, threshold, 0) == first_content_row(*img, threshold,
                    y as int),
            decreases img.height - y,
        {
            let c = count_row(img, threshold, y);
            if c as u64 * 10 > img.width as u64 {
                return y;
            }
            y += 1;
        }
        0
    } else {
        let mut y: u32 = img.height;
        while y > 0
            invariant
                img.wf(),
                !from_top,
                0 <= y <= img.height,
                last_content_row(*img, threshold, img.height as int - 1) == last_content_row(
                    *img, threshold, y as int - 1),
            decreases y,
        {
            let c = count_row(img, threshold, y - 1);
            if c as u64 * 10 > img.width as u64 {
                return img.height - (y - 1);
            }
            y -= 1;
        }
        0
    }
}

/// Where content starts horizontally, by the same rule over columns.
pub fn find_content_start_horizontal(img: &GrayBitmap, threshold: u8, from_left: bool) -> (r:
    u32)
    requires
        img.wf(),
    ensures
        from_left ==> r == match first_content_col(*img, threshold, 0) {
            Some(x) => x,
            None => 0,
        },
        !from_left ==> r == match last_content_col(*img, threshold, img.width as int - 1) {
            Some(x) => img.width - x,
            None => 0,
        },
        r <= img.width,
    {
    if from_left {
        let mut x: u32 = 0;
        while x < img.width
            invariant
                img.wf(),
                from_left,
                0 <= x <= img.width,
                first_content_col(*img, threshold, 0) == first_content_col(*img, threshold,
                    x as int),
            decreases img.width - x,
        {
            let c = count_col(img, threshold, x);
            if c as u64 * 10 > img.height as u64 {
                return x;
            }
            x += 1;
        }
        0
    } else {
        let mut x: u32 = img.width;
        while x > 0
            invariant
                img.wf(),
                !from_left,
                0 <= x <= img.width,
                last_content_col(*img, threshold, img.width as int - 1) == last_content_col(
                    *img, threshold, x as int - 1),
            decreases x,
        {
            let c = count_col(img, threshold, x - 1);
            if c as u64 * 10 > img.height as u64 {
                return img.width - (x - 1);
            }
            x -= 1;
        }
        0
    }
}

/// The four raw margins of background-colour detection: top and bottom
/// from the first and last content row, left and right from the first and
/// last content column; a blank image reads margins covering it whole.
pub open spec fn background_margins_spec(img: GrayBitmap, threshold: u8) -> (int, int, int, int) {
    let top = match first_content_row(img, threshold, 0) {
        Some(y) => y,
        None => 0,
    };
    let bottom = match last_content_row(img, threshold, img.height as int - 1) {
        Some(y) => y,
        None => img.height as int,
    };
    let left = match first_content_col(img, threshold, 0) {
        Some(x) => x,
        None => 0,
    };
    let right = match last_content_col(img, threshold, img.width as int - 1) {
        Some(x) => x,
        None => img.width as int,
    };
    (top, bottom, left, right)
}

/// Background-colour margin detection.
pub fn detect_background_margins(img: &GrayBitmap, threshold: u8) -> (r: (u32, u32, u32, u32))
    requires
        img.wf(),
    ensures
        (r.0 as int, r.1 as int, r.2 as int, r.3 as int) == background_margins_spec(*img,
            threshold),
        r.0 <= img.height && r.1 <= img.height && r.2 <= img.width && r.3 <= img.width,
{
    let top = find_content_start_vertical(img, threshold, true);
    let bottom = img.height - find_content_start_vertical(img, threshold, false);
    let left = find_content_start_horizontal(img, threshold, true);
    let right = img.width - find_content_start_horizontal(img, threshold, false);
    (top, bottom, left, right)
}


/// Two lumas differing by more than the gradient threshold.
pub open spec fn diff_exceeds(a: u8, b: u8) -> bool {
    if a >= b {
        a - b > 30
    } else {
        b - a > 30
    }
}

/// An interior pixel whose luma differs sharply from some 4-neighbour.
pub open spec fn pixel_has_edge(img: GrayBitmap, x: int, y: int) -> bool {
    ||| diff_exceeds(img.pixel(x - 1, y), img.pixel(x, y))
    ||| diff_exceeds(img.pixel(x + 1, y), img.pixel(x, y))
    ||| diff_exceeds(img.pixel(x, y - 1), img.pixel(x, y))
    ||| diff_exceeds(img.pixel(x, y + 1), img.pixel(x, y))
}

/// An interior row holding some edge pixel.
pub open spec fn row_has_edge(img: GrayBitmap, y: int) -> bool {
    exists|x: int| 1 <= x < img.width as int - 1 && pixel_has_edge(img, x, y)
}

/// An interior column holding some edge pixel.
pub open spec fn col_has_edge(img: GrayBitmap, x: int) -> bool {
    exists|y: int| 1 <= y < img.height as int - 1 && pixel_has_edge(img, x, y)
}

/// The first interior row at or below `from` with an edge.
pub open spec fn first_edge_row(img: GrayBitmap, from: int) -> Option<int>
    decreases (if from <= img.height as int {
        img.height as int - from
    } else {
        0int
    }),
{
    if from >= img.height as int - 1 {
        None
    } else if row_has_edge(img, from) {
        Some(from)
    } else {
        first_edge_row(img, from + 1)
    }
}

/// The last interior row at or above `from` with an edge.
pub open spec fn last_edge_row(img: GrayBitmap, from: int) -> Option<int>
    decreases (if from >= 0 {
        from + 1
    } else {
        0int
    }),
{
    if from < 1 {
        None
    } else if row_has_edge(img, from) {
        Some(from)
    } else {
        last_edge_row(img, from - 1)
    }
}

/// The first interior column at or after `from` with an edge.
pub open spec fn first_edge_col(img: GrayBitmap, from: int) -> Option<int>
    decreases (if from <= img.width as int {
        img.width as int - from
    } else {
        0int
    }),
{
    if from >= img.width as int - 1 {
        None
    } else if col_has_edge(img, from) {
        Some(from)
    } else {
        first_edge_col(img, from + 1)
    }
}

/// The last interior column at or before `from` with an edge.
pub open spec fn last_edge_col(img: GrayBitmap, from: int) -> Option<int>
    decreases (if from >= 0 {
        from + 1
    } else {
        0int
    }),
{
    if from < 1 {
        None
    } else if col_has_edge(img, from) {
        Some(from)
    } else {
        last_edge_col(img, from - 1)
    }
}

/// Whether an interior pixel sits on an edge.
fn edge_at(img: &GrayBitmap, x: u32, y: u32) -> (b: bool)
    requires
        img.wf(),
        1 <= x && (x as int) < img.width as int - 1,
        1 <= y && (y as int) < img.height as int - 1,
    ensures
        b == pixel_has_edge(*img, x as int, y as int),
{
    let c = img.at(x, y);
    let l = img.at(x - 1, y);
    let r = img.at(x + 1, y);
    let u = img.at(x, y - 1);
    let d = img.at(x, y + 1);
    let dl = if l >= c { l - c } else { c - l };
    let dr = if r >= c { r - c } else { c - r };
    let du = if u >= c { u - c } else { c - u };
    let dd = if d >= c { d - c } else { c - d };
    dl > 30 || dr > 30 || du > 30 || dd > 30
}

/// Whether an interior row holds an edge pixel.
fn scan_row_for_edge(img: &GrayBitmap, y: u32) -> (b: bool)
    requires
        img.wf(),
        img.width >= 2,
        1 <= y && (y as int) < img.height as int - 1,
    ensures
        b == row_has_edge(*img, y as int),
{
    let mut x: u32 = 1;
    while x < img.width - 1
        invariant
            img.wf(),
            img.width >= 2,
            1 <= y && (y as int) < img.height as int - 1,
            1 <= x && x as int <= img.width as int - 1,
            forall|k: int| 1 <= k < x as int ==> !pixel_has_edge(*img, k, y as int),
        decreases img.width as int - x as int,
    {
        if edge_at(img, x, y) {
            return true;
        }
        x += 1;
    }
    false
}

/// Whether an interior column holds an edge pixel.
fn scan_col_for_edge(img: &GrayBitmap, x: u32) -> (b: bool)
    requires
        img.wf(),
        img.height >= 2,
        1 <= x && (x as int) < img.width as int - 1,
    ensures
        b == col_has_edge(*img, x as int),
{
    let mut y: u32 = 1;
    while y < img.height - 1
        invariant
            img.wf(),
            img.height >= 2,
            1 <= x && (x as int) < img.width as int - 1,
            1 <= y && y as int <= img.height as int - 1,
            forall|k: int| 1 <= k < y as int ==> !pixel_has_edge(*img, x as int, k),
        decreases img.height as int - y as int,
    {
        if edge_at(img, x, y) {
            return true;
        }
        y += 1;
    }
    false
}

/// A row scan over no columns finds nothing, wherever it starts.
proof fn lemma_no_edge_rows_up(img: GrayBitmap, from: int)
    requires
        forall|y: int| !row_has_edge(img, y),
    ensures
        first_edge_row(img, from) is None,
    decreases
        (if from <= img.height as int {
            img.height as int - from
        } else {
            0int
        }),
{
    if from < img.height as int - 1 {
        lemma_no_edge_rows_up(img, from + 1);
    }
}

/// The downward half of the scan above.
proof fn lemma_no_edge_rows_down(img: GrayBitmap, from: int)
    requires
        forall|y: int| !row_has_edge(img, y),
    ensures
        last_edge_row(img, from) is None,
    decreases
        if from >= 0 {
            from + 1
        } else {
            0int
        },
{
    if from >= 1 {
        lemma_no_edge_rows_down(img, from - 1);
    }
}

/// The upward half of the scan, for columns.
proof fn lemma_no_edge_cols_up(img: GrayBitmap, from: int)
    requires
        forall|x: int| !col_has_edge(img, x),
    ensures
        first_edge_col(img, from) is None,
    decreases
        (if from <= img.width as int {
            img.width as int - from
        } else {
            0int
        }),
{
    if from < img.width as int - 1 {
        lemma_no_edge_cols_up(img, from + 1);
    }
}

/// The downward half of the scan, for columns.
proof fn lemma_no_edge_cols_down(img: GrayBitmap, from: int)
    requires
        forall|x: int| !col_has_edge(img, x),
    ensures
        last_edge_col(img, from) is None,
    decreases
        (if from >= 0 {
            from + 1
        } else {
            0int
        }),
{
    if from >= 1 {
        lemma_no_edge_cols_down(img, from - 1);
    }
}

/// The first interior row with an edge, as the top margin; zero without
/// one.
fn find_first_edge_row(img: &GrayBitmap) -> (r: u32)
    requires
        img.wf(),
        img.width >= 2,
        img.height >= 2,
    ensures
        r as int == match first_edge_row(*img, 1) {
            Some(y) => y,
            None => 0,
        },
        r <= img.height,
{
    let mut y: u32 = 1;
    while y < img.height - 1
        invariant
            img.wf(),
            img.width >= 2,
            img.height >= 2,
            1 <= y && y as int <= img.height as int - 1,
            first_edge_row(*img, 1) == first_edge_row(*img, y as int),
        decreases img.height as int - y as int,
    {
        if scan_row_for_edge(img, y) {
            return y;
        }
        y += 1;
    }
    0
}

/// The distance from the image bottom past the last interior row with an
/// edge; zero without one.
fn find_last_edge_row(img: &GrayBitmap) -> (r: u32)
    requires
        img.wf(),
        img.width >= 2,
        img.height >= 2,
    ensures
        r as int == match last_edge_row(*img, img.height as int - 2) {
            Some(y) => img.height as int - (y + 1),
            None => 0,
        },
        r <= img.height,
{
    let mut y: u32 = img.height - 1;
    while y > 1
        invariant
            img.wf(),
            img.width >= 2,
            img.height >= 2,
            1 <= y && y as int <= img.height as int - 1,
            last_edge_row(*img, img.height as int - 2) == last_edge_row(*img, y as int - 1),
        decreases y,
    {
        if scan_row_for_edge(img, y - 1) {
            return img.height - y;
        }
        y -= 1;
    }
    0
}

/// The first interior column with an edge, as the left margin; zero
/// without one.
fn find_first_edge_col(img: &GrayBitmap) -> (r: u32)
    requires
        img.wf(),
        img.width >= 2,
        img.height >= 2,
    ensures
        r as int == match first_edge_col(*img, 1) {
            Some(x) => x,
            None => 0,
        },
        r <= img.width,
{
    let mut x: u32 = 1;
    while x < img.width - 1
        invariant
            img.wf(),
            img.width >= 2,
            img.height >= 2,
            1 <= x && x as int <= img.width as int - 1,
            first_edge_col(*img, 1) == first_edge_col(*img, x as int),
        decreases img.width as int - x as int,
    {
        if scan_col_for_edge(img, x) {
            return x;
        }
        x += 1;
    }
    0
}

/// The distance from the image right edge past the last interior column
/// with an edge; zero without one.
fn find_last_edge_col(img: &GrayBitmap) -> (r: u32)
    requires
        img.wf(),
        img.width >= 2,
        img.height >= 2,
    ensures
        r as int == match last_edge_col(*img, img.width as int - 2) {
            Some(x) => img.width as int - (x + 1),
            None => 0,
        },
        r <= img.width,
{
    let mut x: u32 = img.width - 1;
    while x > 1
        invariant
            img.wf(),
            img.width >= 2,
            img.height >= 2,
            1 <= x && x as int <= img.width as int - 1,
            last_edge_col(*img, img.width as int - 2) == last_edge_col(*img, x as int - 1),
        decreases x,
    {
        if scan_col_for_edge(img, x - 1) {
            return img.width - x;
        }
        x -= 1;
    }
    0
}

/// The four raw margins of gradient-based detection: top and left from
/// the first interior row and column with an edge, bottom and right from
/// the distance past the last; all zero when no edge is found.
pub open spec fn edge_margins_spec(img: GrayBitmap) -> (int, int, int, int) {
    let top = match first_edge_row(img, 1) {
        Some(y) => y,
        None => 0,
    };
    let bottom = match last_edge_row(img, img.height as int - 2) {
        Some(y) => img.height as int - (y + 1),
        None => 0,
    };
    let left = match first_edge_col(img, 1) {
        Some(x) => x,
        None => 0,
    };
    let right = match last_edge_col(img, img.width as int - 2) {
        Some(x) => img.width as int - (x + 1),
        None => 0,
    };
    (top, bottom, left, right)
}

/// Gradient-based margin detection.
pub fn detect_edge_margins(img: &GrayBitmap) -> (r: (u32, u32, u32, u32))
    requires
        img.wf(),
    ensures
        (r.0 as int, r.1 as int, r.2 as int, r.3 as int) == edge_margins_spec(*img),
        r.0 <= img.height && r.1 <= img.height && r.2 <= img.width && r.3 <= img.width,
{
    if img.width < 2 {
        proof {
            assert forall|y: int| !row_has_edge(*img, y) by {
                assert(img.width as int - 1 <= 1);
            }
            lemma_no_edge_rows_up(*img, 1);
            lemma_no_edge_rows_down(*img, img.height as int - 2);
        }
        return (0, 0, 0, 0);
    }
    if img.height < 2 {
        proof {
            assert forall|x: int| !col_has_edge(*img, x) by {
                assert(img.height as int - 1 <= 1);
            }
            lemma_no_edge_cols_up(*img, 1);
            lemma_no_edge_cols_down(*img, img.width as int - 2);
        }
        return (0, 0, 0, 0);
    }
    let top = find_first_edge_row(img);
    let bottom = find_last_edge_row(img);
    let left = find_first_edge_col(img);
    let right = find_last_edge_col(img);
    (top, bottom, left, right)
}

/// The loosened threshold the histogram mode scans with.
pub open spec fn histogram_threshold(t: u8) -> u8 {
    if t >= 10 {
        (t - 10) as u8
    } else {
        0
    }
}

/// The four raw margins under the configured detection mode.  The
/// combined mode averages background and edge detection, rounding down.
pub open spec fn raw_margins_spec(img: GrayBitmap, options: MarginOptions) -> (int, int, int, int) {
    match options.detection_mode {
        ContentDetectionMode::BackgroundColor => background_margins_spec(img,
            options.background_threshold),
        ContentDetectionMode::EdgeDetection => edge_margins_spec(img),
        ContentDetectionMode::Histogram => background_margins_spec(img, histogram_threshold(
            options.background_threshold)),
        ContentDetectionMode::Combined => {
            let bg = background_margins_spec(img, options.background_threshold);
            let ed = edge_margins_spec(img);
            ((bg.0 + ed.0) / 2, (bg.1 + ed.1) / 2, (bg.2 + ed.2) / 2, (bg.3 + ed.3) / 2)
        },
    }
}

/// The raw margins with the configured minimum applied to every side.
pub open spec fn clamped_margins_spec(img: GrayBitmap, options: MarginOptions) -> (int, int, int, int) {
    let raw = raw_margins_spec(img, options);
    let m = options.min_margin as int;
    (
        if raw.0 >= m {
            raw.0
        } else {
            m
        },
        if raw.1 >= m {
            raw.1
        } else {
            m
        },
        if raw.2 >= m {
            raw.2
        } else {
            m
        },
        if raw.3 >= m {
            raw.3
        } else {
            m
        },
    )
}

/// What is left of a span after taking two margins out of it, floored at
/// zero.
pub open spec fn remaining_span(span: int, a: int, b: int) -> int {
    if span > a + b {
        span - (a + b)
    } else {
        0
    }
}

/// A margin detection result.
#[derive(Clone, Copy, Debug)]
pub struct MarginDetection {
    /// Detected margins.
    pub margins: Margins,
    /// Image size.
    pub image_size: (u32, u32),
    /// Content rectangle.
    pub content_rect: ContentRect,
}

/// Detect margins in a single decoded image: scan under the configured
/// mode, apply the minimum margin, and refuse an image whose content area
/// vanishes.
pub fn detect(img: &GrayBitmap, options: &MarginOptions) -> (r: Result<MarginDetection,
    MarginError>)
    requires
        img.wf(),
    ensures
        ({
            let (top, bottom, left, right) = clamped_margins_spec(*img, *options);
            let cw = remaining_span(img.width as int, left, right);
            let ch = remaining_span(img.height as int, top, bottom);
            &&& r.is_ok() == (cw > 0 && ch > 0)
            &&& (r matches Ok(d) ==> {
                &&& d.margins.top == top && d.margins.bottom == bottom
                &&& d.margins.left == left && d.margins.right == right
                &&& d.image_size == (img.width, img.height)
                &&& d.content_rect == (ContentRect {
                    x: d.margins.left,
                    y: d.margins.top,
                    width: cw as u32,
                    height: ch as u32,
                })
            })
            &&& (r is Err ==> (r matches Err(MarginError::NoContentDetected)))
        }),
{
    let threshold = options.background_threshold;
    let (rt, rb, rl, rr) = match options.detection_mode {
        ContentDetectionMode::BackgroundColor => detect_background_margins(img, threshold),
        ContentDetectionMode::EdgeDetection => detect_edge_margins(img),
        ContentDetectionMode::Histogram => {
            let loose = if threshold >= 10 {
                threshold - 10
            } else {
                0
            };
            detect_background_margins(img, loose)
        },
        ContentDetectionMode::Combined => {
            let (t1, b1, l1, r1) = detect_background_margins(img, threshold);
            let (t2, b2, l2, r2) = detect_edge_margins(img);
            let t = ((t1 as u64 + t2 as u64) / 2) as u32;
            let b = ((b1 as u64 + b2 as u64) / 2) as u32;
            let l = ((l1 as u64 + l2 as u64) / 2) as u32;
            let rr2 = ((r1 as u64 + r2 as u64) / 2) as u32;
            (t, b, l, rr2)
        },
    };
    let m = options.min_margin;
    let top = if rt >= m {
        rt
    } else {
        m
    };
    let bottom = if rb >= m {
        rb
    } else {
        m
    };
    let left = if rl >= m {
        rl
    } else {
        m
    };
    let right = if rr >= m {
        rr
    } else {
        m
    };
    let horizontal: u64 = left as u64 + right as u64;
    let vertical: u64 = top as u64 + bottom as u64;
    let content_width: u32 = if (img.width as u64) > horizontal {
        (img.width as u64 - horizontal) as u32
    } else {
        0
    };
    let content_height: u32 = if (img.height as u64) > vertical {
        (img.height as u64 - vertical) as u32
    } else {
        0
    };
    if content_width == 0 || content_height == 0 {
        return Err(MarginError::NoContentDetected);
    }
    Ok(
        MarginDetection {
            margins: Margins { top, bottom, left, right },
            image_size: (img.width, img.height),
            content_rect: ContentRect {
                x: left,
                y: top,
                width: content_width,
                height: content_height,
            },
        },
    )
}

/// The common margins of a set of detections: the minimum of each side,
/// so no page loses content; zero margins with no detections.
pub open spec fn unified_margins_spec(s: Seq<MarginDetection>) -> Margins
    decreases s.len(),
{
    if s.len() == 0 {
        Margins { top: 0, bottom: 0, left: 0, right: 0 }
    } else if s.len() == 1 {
        s[0].margins
    } else {
        let rest = unified_margins_spec(s.drop_last());
        let m = s.last().margins;
        Margins {
            top: if rest.top <= m.top {
                rest.top
            } else {
                m.top
            },
            bottom: if rest.bottom <= m.bottom {
                rest.bottom
            } else {
                m.bottom
            },
            left: if rest.left <= m.left {
                rest.left
            } else {
                m.left
            },
            right: if rest.right <= m.right {
                rest.right
            } else {
                m.right
            },
        }
    }
}

/// The unified page size: the largest content width and height seen.
pub open spec fn unified_size_spec(s: Seq<MarginDetection>) -> (u32, u32)
    decreases s.len(),
{
    if s.len() == 0 {
        (0u32, 0u32)
    } else {
        let rest = unified_size_spec(s.drop_last());
        let c = s.last().content_rect;
        (
            if rest.0 >= c.width {
                rest.0
            } else {
                c.width
            },
            if rest.1 >= c.height {
                rest.1
            } else {
                c.height
            },
        )
    }
}

/// Unified margins result.
#[derive(Debug)]
pub struct UnifiedMargins {
    /// Common margins for all pages.
    pub margins: Margins,
    /// Per-page detection results.
    pub page_detections: Vec<MarginDetection>,
    /// Unified size after trimming.
    pub unified_size: (u32, u32),
}

/// Combine per-page detections into unified margins: the minimum margin
/// of each side and the largest content size.
pub fn unify_detections(detections: Vec<MarginDetection>) -> (u: UnifiedMargins)
    ensures
        u.margins == unified_margins_spec(detections@),
        u.unified_size == unified_size_spec(detections@),
        u.page_detections == detections,
{
    let ghost all = detections@;
    let mut margins = Margins { top: 0, bottom: 0, left: 0, right: 0 };
    let mut size: (u32, u32) = (0, 0);
    if detections.len() > 0 {
        margins = detections[0].margins;
        size = (detections[0].content_rect.width, detections[0].content_rect.height);
        proof {
            assert(all.take(1).drop_last() =~= all.take(0));
            assert(all.take(1).last() == all[0]);
            assert(all.take(0) =~= Seq::<MarginDetection>::empty());
            assert(unified_size_spec(all.take(0)) == (0u32, 0u32));
        }
        let mut i: usize = 1;
        while i < detections.len()
            invariant
                all == detections@,
                1 <= i <= all.len(),
                margins == unified_margins_spec(all.take(i as int)),
                size == unified_size_spec(all.take(i as int)),
            decreases all.len() - i,
        {
            proof {
                assert(all.take(i + 1).drop_last() =~= all.take(i as int));
                assert(all.take(i + 1).last() == all[i as int]);
            }
            let m = detections[i].margins;
            let c = detections[i].content_rect;
            margins = Margins {
                top: if margins.top <= m.top {
                    margins.top
                } else {
                    m.top
                },
                bottom: if margins.bottom <= m.bottom {
                    margins.bottom
                } else {
                    m.bottom
                },
                left: if margins.left <= m.left {
                    margins.left
                } else {
                    m.left
                },
                right: if margins.right <= m.right {
                    margins.right
                } else {
                    m.right
                },
            };
            size = (
                if size.0 >= c.width {
                    size.0
                } else {
                    c.width
                },
                if size.1 >= c.height {
                    size.1
                } else {
                    c.height
                },
            );
            i += 1;
        }
        proof {
            assert(all.take(all.len() as int) =~= all);
        }
    } else {
        proof {
            assert(all.take(0) =~= Seq::<MarginDetection>::empty());
            assert(unified_size_spec(all.take(0)) == (0u32, 0u32));
        }
    }
    UnifiedMargins { margins, page_detections: detections, unified_size: size }
}

/// Trim operation result.
#[derive(Debug)]
pub struct TrimResult {
    /// The file the image was read from.
    pub input_path: String,
    /// The file the result was written to.
    pub output_path: String,
    /// Width and height before the operation.
    pub original_size: (u32, u32),
    /// Width and height after it.
    pub trimmed_size: (u32, u32),
    /// The margins removed by a trim, or added by a pad.
    pub margins_applied: Margins,
}

/// The crop rectangle of a trim: what remains of the image inside the
/// margins, refused when nothing remains.
pub fn trim_rect(width: u32, height: u32, margins: &Margins) -> (r: Result<ContentRect,
    MarginError>)
    ensures
        ({
            let cw = remaining_span(width as int, margins.left as int, margins.right as int);
            let ch = remaining_span(height as int, margins.top as int, margins.bottom as int);
            &&& r.is_ok() == (cw > 0 && ch > 0)
            &&& (r matches Ok(c) ==> c == (ContentRect {
                x: margins.left,
                y: margins.top,
                width: cw as u32,
                height: ch as u32,
            }))
            &&& (r is Err ==> (r matches Err(MarginError::NoContentDetected)))
        }),
{
    let horizontal: u64 = margins.left as u64 + margins.right as u64;
    let vertical: u64 = margins.top as u64 + margins.bottom as u64;
    let crop_width: u32 = if (width as u64) > horizontal {
        (width as u64 - horizontal) as u32
    } else {
        0
    };
    let crop_height: u32 = if (height as u64) > vertical {
        (height as u64 - vertical) as u32
    } else {
        0
    };
    if crop_width == 0 || crop_height == 0 {
        return Err(MarginError::NoContentDetected);
    }
    Ok(ContentRect { x: margins.left, y: margins.top, width: crop_width, height: crop_height })
}

/// Where a smaller image sits when padded and centred onto a target
/// canvas: the four margins the padding adds around it.
pub fn pad_placement(original: (u32, u32), target: (u32, u32)) -> (m: Margins)
    ensures
        m.left == (if target.0 >= original.0 {
            (target.0 - original.0) / 2
        } else {
            0int
        }),
        m.top == (if target.1 >= original.1 {
            (target.1 - original.1) / 2
        } else {
            0int
        }),
        m.right == (if target.0 as int >= original.0 + m.left {
            target.0 - original.0 - m.left
        } else {
            0int
        }),
        m.bottom == (if target.1 as int >= original.1 + m.top {
            target.1 - original.1 - m.top
        } else {
            0int
        }),
{
    let offset_x: u32 = if target.0 >= original.0 {
        (target.0 - original.0) / 2
    } else {
        0
    };
    let offset_y: u32 = if target.1 >= original.1 {
        (target.1 - original.1) / 2
    } else {
        0
    };
    let used_w: u64 = original.0 as u64 + offset_x as u64;
    let used_h: u64 = original.1 as u64 + offset_y as u64;
    let right: u32 = if (target.0 as u64) >= used_w {
        (target.0 as u64 - used_w) as u32
    } else {
        0
    };
    let bottom: u32 = if (target.1 as u64) >= used_h {
        (target.1 as u64 - used_h) as u32
    } else {
        0
    };
    Margins { top: offset_y, bottom, left: offset_x, right }
}

} // verus!

use superbook_pdf::detect::detect;
use superbook_pdf::detect::detect_background_margins;
use superbook_pdf::detect::detect_edge_margins;
use superbook_pdf::detect::find_content_start_horizontal;
use superbook_pdf::detect::find_content_start_vertical;
use superbook_pdf::detect::pad_placement;
use superbook_pdf::detect::trim_rect;
use superbook_pdf::detect::unify_detections;
use superbook_pdf::detect::ContentDetectionMode;
use superbook_pdf::detect::GrayBitmap;
use superbook_pdf::detect::MarginError;
use superbook_pdf::detect::MarginOptions;
use superbook_pdf::margins::Margins;

#[test]
fn test_margins_uniform() {
    let margins = Margins::uniform(10);
    assert_eq!(margins.top, 10);
    assert_eq!(margins.bottom, 10);
    assert_eq!(margins.left, 10);
    assert_eq!(margins.right, 10);
}

#[test]
fn test_margins_total() {
    let margins = Margins {
        top: 10,
        bottom: 20,
        left: 15,
        right: 25,
    };
    assert_eq!(margins.total_horizontal(), 40);
    assert_eq!(margins.total_vertical(), 30);
}

#[test]
fn test_margins_default() {
    let margins = Margins::default();
    assert_eq!(margins.top, 0);
    assert_eq!(margins.bottom, 0);
    assert_eq!(margins.left, 0);
    assert_eq!(margins.right, 0);
}

/// A white bitmap with a black rectangle covering rows y0..y1 and columns
/// x0..x1.
fn bitmap_with_block(w: u32, h: u32, x0: u32, x1: u32, y0: u32, y1: u32) -> GrayBitmap {
    let mut pixels = vec![255u8; (w * h) as usize];
    for y in y0..y1 {
        for x in x0..x1 {
            pixels[(y * w + x) as usize] = 0;
        }
    }
    GrayBitmap::new(w, h, pixels).unwrap()
}

#[test]
fn test_bitmap_rejects_wrong_buffer() {
    let r = GrayBitmap::new(4, 4, vec![0u8; 15]);
    assert!(matches!(r, Err(MarginError::InvalidImage(_))));
}

#[test]
fn test_background_margins_of_centered_block() {
    // A 40x30 page, content in columns 5..15 and rows 3..8; every content
    // row and column is more than one tenth covered.
    let img = bitmap_with_block(40, 30, 5, 15, 3, 8);
    let (top, bottom, left, right) = detect_background_margins(&img, 240);
    assert_eq!(top, 3);
    assert_eq!(bottom, 7); // index of the last content row
    assert_eq!(left, 5);
    assert_eq!(right, 14); // index of the last content column
}

#[test]
fn test_background_margins_of_blank_page() {
    let img = bitmap_with_block(10, 10, 0, 0, 0, 0);
    let (top, bottom, left, right) = detect_background_margins(&img, 240);
    assert_eq!((top, bottom, left, right), (0, 10, 0, 10));
}

#[test]
fn test_content_scans_match_by_direction() {
    let img = bitmap_with_block(40, 30, 5, 15, 3, 8);
    assert_eq!(find_content_start_vertical(&img, 240, true), 3);
    assert_eq!(find_content_start_vertical(&img, 240, false), 30 - 7);
    assert_eq!(find_content_start_horizontal(&img, 240, true), 5);
    assert_eq!(find_content_start_horizontal(&img, 240, false), 40 - 14);
}

#[test]
fn test_edge_margins_of_centered_block() {
    let img = bitmap_with_block(40, 30, 5, 15, 3, 8);
    let (top, bottom, left, right) = detect_edge_margins(&img);
    // The outermost gradient sits one pixel outside the block.
    assert_eq!(top, 2);
    assert_eq!(bottom, 30 - 9);
    assert_eq!(left, 4);
    assert_eq!(right, 40 - 16);
}

#[test]
fn test_edge_margins_of_flat_page() {
    let img = bitmap_with_block(10, 10, 0, 0, 0, 0);
    assert_eq!(detect_edge_margins(&img), (0, 0, 0, 0));
}

#[test]
fn test_detect_background_mode() {
    let img = bitmap_with_block(40, 30, 5, 15, 3, 8);
    let options = MarginOptions::default();
    let d = detect(&img, &options).unwrap();
    assert_eq!(d.margins.top, 3);
    assert_eq!(d.margins.left, 5);
    assert_eq!(d.image_size, (40, 30));
    assert_eq!(d.content_rect.x, 5);
    assert_eq!(d.content_rect.y, 3);
    assert_eq!(d.content_rect.width, 40 - 5 - 14);
    assert_eq!(d.content_rect.height, 30 - 3 - 7);
}

#[test]
fn test_detect_applies_min_margin() {
    let img = bitmap_with_block(40, 40, 10, 15, 10, 15);
    let options = MarginOptions {
        background_threshold: 240,
        min_margin: 12,
        detection_mode: ContentDetectionMode::BackgroundColor,
    };
    let d = detect(&img, &options).unwrap();
    assert!(d.margins.top >= 12);
    assert!(d.margins.bottom >= 12);
    assert!(d.margins.left >= 12);
    assert!(d.margins.right >= 12);
}

#[test]
fn test_detect_blank_page_has_no_content() {
    let img = bitmap_with_block(10, 10, 0, 0, 0, 0);
    let options = MarginOptions::default();
    let r = detect(&img, &options);
    assert!(matches!(r, Err(MarginError::NoContentDetected)));
}

#[test]
fn test_detect_histogram_mode_runs() {
    let img = bitmap_with_block(40, 30, 5, 15, 3, 8);
    let options = MarginOptions {
        background_threshold: 240,
        min_margin: 0,
        detection_mode: ContentDetectionMode::Histogram,
    };
    let d = detect(&img, &options).unwrap();
    assert_eq!(d.margins.top, 3);
}

#[test]
fn test_detect_combined_mode_averages() {
    let img = bitmap_with_block(40, 30, 5, 15, 3, 8);
    let bg = detect_background_margins(&img, 240);
    let ed = detect_edge_margins(&img);
    let options = MarginOptions {
        background_threshold: 240,
        min_margin: 0,
        detection_mode: ContentDetectionMode::Combined,
    };
    let d = detect(&img, &options).unwrap();
    assert_eq!(d.margins.top, (bg.0 + ed.0) / 2);
    assert_eq!(d.margins.bottom, (bg.1 + ed.1) / 2);
    assert_eq!(d.margins.left, (bg.2 + ed.2) / 2);
    assert_eq!(d.margins.right, (bg.3 + ed.3) / 2);
}

#[test]
fn test_unify_detections_takes_min_margins_and_max_size() {
    let a = detect(
        &bitmap_with_block(40, 30, 5, 15, 3, 8),
        &MarginOptions::default(),
    )
    .unwrap();
    let b = detect(
        &bitmap_with_block(40, 30, 2, 30, 1, 20),
        &MarginOptions::default(),
    )
    .unwrap();
    let u = unify_detections(vec![a, b]);
    assert_eq!(u.margins.top, a.margins.top.min(b.margins.top));
    assert_eq!(u.margins.left, a.margins.left.min(b.margins.left));
    assert_eq!(
        u.unified_size.0,
        a.content_rect.width.max(b.content_rect.width)
    );
    assert_eq!(
        u.unified_size.1,
        a.content_rect.height.max(b.content_rect.height)
    );
    assert_eq!(u.page_detections.len(), 2);
}

#[test]
fn test_unify_detections_of_nothing() {
    let u = unify_detections(vec![]);
    assert_eq!(u.margins.top, 0);
    assert_eq!(u.unified_size, (0, 0));
}

#[test]
fn test_trim_rect_geometry() {
    let margins = Margins {
        top: 2,
        bottom: 3,
        left: 4,
        right: 5,
    };
    let c = trim_rect(100, 50, &margins).unwrap();
    assert_eq!(c.x, 4);
    assert_eq!(c.y, 2);
    assert_eq!(c.width, 100 - 9);
    assert_eq!(c.height, 50 - 5);
}

#[test]
fn test_trim_rect_rejects_consuming_margins() {
    let margins = Margins::uniform(30);
    let r = trim_rect(50, 100, &margins);
    assert!(matches!(r, Err(MarginError::NoContentDetected)));
}

#[test]
fn test_pad_placement_centers() {
    let m = pad_placement((10, 10), (20, 16));
    assert_eq!(m.left, 5);
    assert_eq!(m.right, 5);
    assert_eq!(m.top, 3);
    assert_eq!(m.bottom, 3);
}

#[test]
fn test_pad_placement_odd_remainder_goes_right() {
    let m = pad_placement((10, 10), (21, 15));
    assert_eq!(m.left, 5);
    assert_eq!(m.right, 6);
    assert_eq!(m.top, 2);
    assert_eq!(m.bottom, 3);
}

#[test]
fn test_pad_placement_oversized_original() {
    let m = pad_placement((30, 30), (20, 20));
    assert_eq!(m.left, 0);
    assert_eq!(m.right, 0);
    assert_eq!(m.top, 0);
    assert_eq!(m.bottom, 0);
}

use tmbf::error::Error;
use tmbf::ndi::{NDIFrameData, Pos2, Vec2, FRAME_FILL_BYTE};

#[test]
fn frame_buffer_is_sized_and_primed() {
    let pos = Pos2 { x: 10, y: 20 };
    let size = Vec2 { x: 3, y: 2 };
    let outer = Vec2 { x: 800, y: 600 };
    let frame = NDIFrameData::try_from(pos, size, outer).unwrap();
    assert_eq!(frame.buf.len(), 3 * 2 * 4);
    assert!(frame.buf.iter().all(|&b| b == FRAME_FILL_BYTE));
}

#[test]
fn empty_region_gives_an_empty_buffer() {
    let frame =
        NDIFrameData::try_from(Pos2::default(), Vec2::default(), Vec2::default()).unwrap();
    assert_eq!(frame.buf.len(), 0);
}

#[test]
fn negative_area_is_a_conversion_error() {
    let size = Vec2 { x: -1, y: 5 };
    assert!(matches!(
        NDIFrameData::try_from(Pos2::default(), size, Vec2::default()),
        Err(Error::TypeConversionError)
    ));
}

#[test]
fn read_region_is_measured_from_the_window_bottom() {
    let pos = Pos2 { x: 10, y: 20 };
    let size = Vec2 { x: 100, y: 50 };
    let outer = Vec2 { x: 800, y: 600 };
    let frame = NDIFrameData::try_from(pos, size, outer).unwrap();
    let (x, y, w, h) = frame.read_region();
    assert_eq!(x, 10);
    assert_eq!(y, 600 - (20 + 50));
    assert_eq!(w, 100);
    assert_eq!(h, 50);
}

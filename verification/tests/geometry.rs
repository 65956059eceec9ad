use libscreenshot::error::Error;
use libscreenshot::shared::area::Area;
use libscreenshot::shared::generic_area::GenericArea;

#[test]
fn area_new_stores_fields() {
    let a = Area::new(-5, 7, 640, 480);
    assert_eq!(a.x, -5);
    assert_eq!(a.y, 7);
    assert_eq!(a.width, 640);
    assert_eq!(a.height, 480);
}

#[test]
fn generic_area_conversion_preserves_values() {
    let a = Area::new(-1920, 1080, 2560, 1440);
    let g = GenericArea::<i32, i32>::try_from_area(&a).unwrap();
    assert_eq!(g.x, -1920);
    assert_eq!(g.y, 1080);
    assert_eq!(g.width, 2560);
    assert_eq!(g.height, 1440);
}

#[test]
fn generic_area_conversion_at_extremes() {
    let a = Area::new(i32::MIN as i64, i32::MAX as i64, i32::MAX as u64, 0);
    let g = GenericArea::<i32, i32>::try_from_area(&a).unwrap();
    assert_eq!(g.x, i32::MIN);
    assert_eq!(g.y, i32::MAX);
    assert_eq!(g.width, i32::MAX);
    assert_eq!(g.height, 0);
}

#[test]
fn generic_area_conversion_x_too_large() {
    let a = Area::new(i32::MAX as i64 + 1, 0, 1, 1);
    let r = GenericArea::<i32, i32>::try_from_area(&a);
    assert!(matches!(r, Err(Error::AreaIntConversionError)));
}

#[test]
fn generic_area_conversion_x_too_small() {
    let a = Area::new(i32::MIN as i64 - 1, 0, 1, 1);
    let r = GenericArea::<i32, i32>::try_from_area(&a);
    assert!(matches!(r, Err(Error::AreaIntConversionError)));
}

#[test]
fn generic_area_conversion_y_out_of_range() {
    let a = Area::new(0, i64::MAX, 1, 1);
    let r = GenericArea::<i32, i32>::try_from_area(&a);
    assert!(matches!(r, Err(Error::AreaIntConversionError)));
}

#[test]
fn generic_area_conversion_width_out_of_range() {
    let a = Area::new(0, 0, i32::MAX as u64 + 1, 1);
    let r = GenericArea::<i32, i32>::try_from_area(&a);
    assert!(matches!(r, Err(Error::AreaIntConversionError)));
}

#[test]
fn generic_area_conversion_height_out_of_range() {
    let a = Area::new(0, 0, 1, u64::MAX);
    let r = GenericArea::<i32, i32>::try_from_area(&a);
    assert!(matches!(r, Err(Error::AreaIntConversionError)));
}

#[test]
fn error_messages() {
    assert_eq!(Error::AreaIntConversionError.message(), "area coordinate out of range");
    assert_eq!(Error::WindowCaptureFailed.message(), "window capture failed");
}

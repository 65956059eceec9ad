use libscreenshot::canonical::Image;
use libscreenshot::error::Error;
use libscreenshot::get_capture_provider;
use libscreenshot::imagebuffer::to_image_buffer;
use libscreenshot::platform::dummy_provider::DummyProvider;
use libscreenshot::platform::linux::X11Provider;
use libscreenshot::platform::macos::CGProvider;
use libscreenshot::platform::windows::{GdiProvider, GraphicsCaptureProvider};
use libscreenshot::traits::Provider;

#[test]
fn a_capture_provider_exists_for_this_target() {
    assert!(get_capture_provider().is_some());
}

#[test]
fn every_backend_can_be_constructed() {
    let _ = DummyProvider::new();
    let _ = GraphicsCaptureProvider::new();
    let _: X11Provider = Provider::new();
    let _: GdiProvider = Provider::new();
    let _: CGProvider = Provider::new();
    let _: DummyProvider = Provider::new();
    let _: GraphicsCaptureProvider = Provider::new();
}

#[test]
fn canonical_image_checks_its_buffer_length() {
    let ok = Image::from_raw(2, 1, vec![0; 8]);
    assert!(ok.is_ok());
    let img = ok.unwrap();
    assert_eq!(img.width(), 2);
    assert_eq!(img.height(), 1);
    assert_eq!(img.as_bytes().len(), 8);
    let bad = Image::from_raw(2, 1, vec![0; 7]);
    assert!(matches!(bad, Err(Error::WindowCaptureFailed)));
    let bad2 = Image::from_raw(2, 2, vec![0; 8]);
    assert!(matches!(bad2, Err(Error::WindowCaptureFailed)));
}

#[test]
fn image_buffer_conversion_preserves_bytes_and_dimensions() {
    let bytes = vec![1, 2, 3, 4, 5, 6, 7, 8];
    let img = Image::from_raw(2, 1, bytes.clone()).unwrap();
    let buffer = to_image_buffer(img);
    assert_eq!(buffer.dimensions(), (2, 1));
    assert_eq!(buffer.into_bytes(), bytes);
}

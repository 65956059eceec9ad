pub mod gdi_provider;
pub mod graphics_capture_provider;

pub use self::gdi_provider::GdiProvider;
pub use self::graphics_capture_provider::GraphicsCaptureProvider;

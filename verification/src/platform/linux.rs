pub mod x11_provider;

pub use self::x11_provider::X11Provider;

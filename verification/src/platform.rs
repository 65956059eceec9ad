pub mod dummy_provider;
pub mod linux;
pub mod macos;
pub mod windows;

pub mod area;
pub mod generic_area;
pub mod screen_id;
pub mod window_id;

pub use self::area::Area;
pub use self::generic_area::GenericArea;
pub use self::screen_id::ScreenId;
pub use self::window_id::WindowId;

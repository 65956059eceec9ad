pub mod cg_provider;

pub use self::cg_provider::CGProvider;

pub mod cache;
pub mod icons;
pub mod loader;
pub mod urls;
pub mod walk;

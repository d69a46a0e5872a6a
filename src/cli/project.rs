pub mod conform;
pub mod engage;
pub mod license;

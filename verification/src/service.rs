pub mod interface;
pub mod pypi;

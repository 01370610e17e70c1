pub mod types;
pub mod sort;
pub mod export;
pub mod select;
pub mod jarmods;
pub mod local;
pub mod categories;
pub mod store;
pub mod recommended;

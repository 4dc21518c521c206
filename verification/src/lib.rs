pub mod bookmarks;
pub mod command;
pub mod convert;
pub mod encode;
pub mod index;
pub mod model;
pub mod project;
pub mod query;
pub mod rank;
pub mod search;
pub mod text;
pub mod window;

//! The selection lists that the browser's panels own.

pub mod multi_select_list;
pub mod select_list;

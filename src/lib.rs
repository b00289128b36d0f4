//! Pull-request tracking on a spreadsheet: reading the sheet's rows as
//! labelled records, selecting the rows of merged pull requests by title,
//! building the rows written back, cleaning the data of a new row, and
//! rendering the fetched records as JSON.
pub mod append;
pub mod codec;
pub mod error;
pub mod gs_args;
mod json;
pub mod locate;
pub mod record;
pub mod sheet_model;
pub mod text;
pub mod update;

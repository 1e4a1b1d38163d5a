//! Accounts of points kept in a spreadsheet: the records, how they are laid
//! out in sheet cells and read back, and the decisions of the login,
//! transfer and leaderboard services.
pub mod text;
pub mod sheet_serialize;
pub mod sheet_helper;
pub mod account;
pub mod routes;

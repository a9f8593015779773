//! Reservation server: the logic behind booking WireGuard interfaces for
//! teams, the login and admin guards, and paste identifiers.
//!
//! The logic is verified; the calls into `ipnet`, `rand` and `String::push`
//! stand behind trusted wrappers whose contracts say what they give back. The
//! web server, the database and the shell commands are driven by the program
//! around this library, which hands the results of its I/O to the step
//! functions of `booking_process`.

pub mod text;
pub mod records;
pub mod network;
pub mod booking_process;
pub mod paste_ids;
pub mod db_manager;
pub mod cred;

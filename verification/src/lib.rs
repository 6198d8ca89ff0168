//! Classifies collections of extracted source packages as trivial scaffolding
//! (a generated `main` that only prints a placeholder, a library with no public
//! surface) versus non-trivial packages that contain real logic.

pub mod discovery;
pub mod manifest;
pub mod order;
pub mod report;
pub mod resolve;
pub mod syntax;
pub mod text;
pub mod triviality;

//! Detection of packages compromised with cryptocurrency-stealing malware
//! in npm, yarn and pnpm lockfiles.
pub mod completeness;
pub mod json;
pub mod laws;
pub mod npm;
pub mod pnpm;
pub mod registry;
pub mod scanner;
pub mod text;
pub mod yarn;

pub use crate::registry::CompromisedPackage;
pub use crate::scanner::{Args, DetectedPackage, Finding, ScanResults, Scanner};

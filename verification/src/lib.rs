//! A small semantic-version value (major.minor.patch) with verified
//! decimal formatting, two project-specific textual encodings, and a
//! best-effort parser that mirrors "split on dots, take three numbers".

pub mod digits;
pub mod split;
pub mod version;

pub use version::channel;
pub use version::current_beta;
pub use version::current_nightly;
pub use version::current_stable;
pub use version::Version;

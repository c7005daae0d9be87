//! Project manifest handling: the package configuration data model, its
//! schema applied to a parsed TOML document with per-field defaulting, and
//! the values derived from it (the merged dependency set for a build mode,
//! the repository URL).

pub mod mode;
pub mod config;
pub mod document;
pub mod error;
pub mod io;
pub mod version;

pub use mode::Mode;
pub use config::Docs;
pub use config::PackageConfig;
pub use config::DocsPage;
pub use config::ErlangConfig;
pub use config::Link;
pub use config::Repository;
pub use config::Dependencies;
pub use error::Error;
pub use error::FileIoAction;
pub use error::FileKind;
pub use io::FileSystemReader;
pub use version::Version;
pub use version::VersionIdentifier;
pub use version::VersionRange;
pub use version::default_version;

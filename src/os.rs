//! The closed set of host platforms and what depends on each: the name the
//! runtime distribution service uses, the archive format of its downloads and
//! where the runtime's executable lies inside an extracted archive.

use vstd::prelude::*;

use crate::error::RunError;
use crate::text::{copy_strings, same_text, text_views};

verus! {

/// A host operating system that runtimes can be provisioned for.
#[derive(PartialEq, Eq, Structural, Clone, Copy, Debug)]
pub enum OS {
    Linux,
    Windows,
    MacOS,
}

/// The archive format of a runtime download.
#[derive(PartialEq, Eq, Structural, Clone, Copy, Debug)]
pub enum ArchiveFormat {
    /// A zip archive.
    Zip,
    /// A gzip-compressed tar archive.
    TarGz,
}

/// The platform that the name `name` (as Rust reports the target OS)
/// stands for, if it is one of the supported ones.
pub open spec fn os_named(name: Seq<char>) -> Option<OS> {
    if name == "windows"@ {
        Some(OS::Windows)
    } else if name == "linux"@ {
        Some(OS::Linux)
    } else if name == "macos"@ {
        Some(OS::MacOS)
    } else {
        None
    }
}

impl OS {
    /// The platform's name in the runtime distribution service's URLs.
    pub open spec fn spec_adoptium_name(self) -> Seq<char> {
        match self {
            OS::Linux => "linux"@,
            OS::Windows => "windows"@,
            OS::MacOS => "mac"@,
        }
    }

    /// Zip on Windows, a gzip-compressed tar everywhere else. The choice is
    /// keyed by the platform alone, before any byte is read.
    pub open spec fn spec_archive_format(self) -> ArchiveFormat {
        match self {
            OS::Windows => ArchiveFormat::Zip,
            _ => ArchiveFormat::TarGz,
        }
    }

    /// Where the executable lies below the top-level directory of an
    /// extracted runtime.
    pub open spec fn executable_layout(self) -> Seq<Seq<char>> {
        match self {
            OS::Linux => seq!["bin"@, "java"@],
            OS::Windows => seq!["bin"@, "java.exe"@],
            OS::MacOS => seq!["Contents"@, "Home"@, "bin"@, "java"@],
        }
    }

    /// The platform named `os_name`, a name as `std::env::consts::OS`
    /// gives it; `UnsupportedPlatform` for any other name.
    pub fn current(os_name: &str) -> (r: Result<OS, RunError>)
        ensures
            os_named(os_name@) matches Some(os) ==> r == Ok::<OS, RunError>(os),
            os_named(os_name@) is None ==> r matches Err(RunError::UnsupportedPlatform),
    {
        if same_text(os_name, "windows") {
            Ok(OS::Windows)
        } else if same_text(os_name, "linux") {
            Ok(OS::Linux)
        } else if same_text(os_name, "macos") {
            Ok(OS::MacOS)
        } else {
            Err(RunError::UnsupportedPlatform)
        }
    }

    /// The path of the executable of a runtime extracted into `path`.
    pub fn java_dir(&self, path: &Vec<String>) -> (r: Vec<String>)
        ensures
            text_views(r@) == text_views(path@) + self.executable_layout(),
    {
        let mut r = copy_strings(path);
        let ghost base = r@;
        match self {
            OS::Linux => {
                r.push(String::from_str("bin"));
                r.push(String::from_str("java"));
            },
            OS::Windows => {
                r.push(String::from_str("bin"));
                r.push(String::from_str("java.exe"));
            },
            OS::MacOS => {
                r.push(String::from_str("Contents"));
                r.push(String::from_str("Home"));
                r.push(String::from_str("bin"));
                r.push(String::from_str("java"));
            },
        }
        assert(text_views(r@) =~= text_views(base) + self.executable_layout());
        r
    }

    /// The platform's name in the runtime distribution service's URLs.
    pub fn adoptium_name(&self) -> (r: &'static str)
        ensures
            r@ == self.spec_adoptium_name(),
    {
        match self {
            OS::Linux => "linux",
            OS::Windows => "windows",
            OS::MacOS => "mac",
        }
    }

    /// The archive format of this platform's runtime downloads.
    pub fn archive_format(&self) -> (r: ArchiveFormat)
        ensures
            r == self.spec_archive_format(),
    {
        match self {
            OS::Windows => ArchiveFormat::Zip,
            _ => ArchiveFormat::TarGz,
        }
    }
}

} // verus!

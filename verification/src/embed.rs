//! Prebuilt `sp-serve` binaries and the architectures they are for.

use vstd::prelude::*;

use crate::text::{str_eq, trim_string};

verus! {

/// Remote CPU architecture, from `uname -m`.
#[derive(Debug, Clone, Copy, PartialEq, Eq, Structural)]
pub enum Arch {
    X86_64,
    Aarch64,
}

impl Arch {
    /// The architecture that `uname -m` output names.
    pub open spec fn named(uname: Seq<char>) -> Option<Arch> {
        let n = crate::text::trimmed(uname);
        if n == "x86_64"@ || n == "amd64"@ {
            Some(Arch::X86_64)
        } else if n == "aarch64"@ || n == "arm64"@ {
            Some(Arch::Aarch64)
        } else {
            None
        }
    }

    /// Short name used in the deployed file name.
    pub open spec fn name(self) -> Seq<char> {
        match self {
            Arch::X86_64 => "x86_64"@,
            Arch::Aarch64 => "aarch64"@,
        }
    }

    /// Env var naming a prebuilt binary path.
    pub open spec fn variable(self) -> Seq<char> {
        match self {
            Arch::X86_64 => "SP_SERVE_X86_64"@,
            Arch::Aarch64 => "SP_SERVE_AARCH64"@,
        }
    }

    /// Parse `uname -m` output.
    #[must_use]
    pub fn parse(uname: &str) -> (r: Option<Arch>)
        ensures
            r == Arch::named(uname@),
    {
        let n = trim_string(uname);
        if str_eq(n.as_str(), "x86_64") || str_eq(n.as_str(), "amd64") {
            Some(Arch::X86_64)
        } else if str_eq(n.as_str(), "aarch64") || str_eq(n.as_str(), "arm64") {
            Some(Arch::Aarch64)
        } else {
            None
        }
    }

    /// Short name used in the deployed file name.
    #[must_use]
    pub fn as_str(self) -> (r: &'static str)
        ensures
            r@ == self.name(),
    {
        match self {
            Arch::X86_64 => "x86_64",
            Arch::Aarch64 => "aarch64",
        }
    }

    /// Env var naming a prebuilt binary path (used by the build).
    #[must_use]
    pub fn env_var(self) -> (r: &'static str)
        ensures
            r@ == self.variable(),
    {
        match self {
            Arch::X86_64 => "SP_SERVE_X86_64",
            Arch::Aarch64 => "SP_SERVE_AARCH64",
        }
    }
}

/// The `sp-serve` binaries of a build; one that the build does not have is empty.
#[derive(Debug)]
pub struct ServeBinaries {
    pub x86_64: Vec<u8>,
    pub aarch64: Vec<u8>,
}

impl ServeBinaries {
    /// The binary for an architecture.
    pub open spec fn image(&self, arch: Arch) -> Seq<u8> {
        match arch {
            Arch::X86_64 => self.x86_64@,
            Arch::Aarch64 => self.aarch64@,
        }
    }
}

/// The embedded `sp-serve` binary for `arch`; `None` when the build embedded
/// only a placeholder.
#[must_use]
pub fn serve_binary(bins: &ServeBinaries, arch: Arch) -> (r: Option<&[u8]>)
    ensures
        match r {
            Some(b) => b@ == bins.image(arch) && b@.len() > 0,
            None => bins.image(arch).len() == 0,
        },
{
    let bin = match arch {
        Arch::X86_64 => &bins.x86_64,
        Arch::Aarch64 => &bins.aarch64,
    };
    if bin.len() == 0 {
        None
    } else {
        Some(bin.as_slice())
    }
}

} // verus!

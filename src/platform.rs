use vstd::prelude::*;
use vstd::string::*;

use crate::text::same_text;

verus! {

/// The vendor's name for an operating system: macOS is "darwin", every other
/// system keeps its own identifier.
pub open spec fn platform_of(os: Seq<char>) -> Seq<char> {
    if os == "macos"@ {
        "darwin"@
    } else {
        os
    }
}

/// The vendor's name for a CPU architecture: the known aliases fall into four
/// buckets, anything else passes through unchanged.
pub open spec fn arch_of(arch: Seq<char>) -> Seq<char> {
    if arch == "x86_64"@ || arch == "amd64"@ {
        "amd64"@
    } else if arch == "i686"@ || arch == "i386"@ || arch == "386"@ {
        "386"@
    } else if arch == "armv6l"@ || arch == "armv7l"@ {
        "armv6l"@
    } else if arch == "aarch64"@ || arch == "arm64"@ {
        "arm64"@
    } else {
        arch
    }
}

/// The operating system token used in archive names, for the host system `os`.
pub fn platform(os: &str) -> (r: String)
    ensures
        r@ == platform_of(os@),
{
    if same_text(os, "macos") {
        "darwin".to_owned()
    } else {
        os.to_owned()
    }
}

/// The architecture token used in archive names, for the host architecture `host`.
pub fn arch(host: &str) -> (r: String)
    ensures
        r@ == arch_of(host@),
{
    if same_text(host, "x86_64") || same_text(host, "amd64") {
        "amd64".to_owned()
    } else if same_text(host, "i686") || same_text(host, "i386") || same_text(host, "386") {
        "386".to_owned()
    } else if same_text(host, "armv6l") || same_text(host, "armv7l") {
        "armv6l".to_owned()
    } else if same_text(host, "aarch64") || same_text(host, "arm64") {
        "arm64".to_owned()
    } else {
        host.to_owned()
    }
}

} // verus!

use vstd::prelude::*;
use vstd::string::*;

use crate::plugin::{go_bin_of, gopath_of, goroot_of, join, join_path};

verus! {

/// Why an install stopped.
#[derive(Clone, Copy, Debug, PartialEq, Eq, Structural)]
pub enum InstallError {
    Download,
    ChecksumFetch,
    ChecksumMismatch,
    Extract,
    ToolchainInvalid,
    DefaultPackageInstall,
}

/// Where an install stands: the stage to perform next, or its end.
pub enum Stage {
    /// Download the archive from `tarball_url` to `tarball_path`.
    Download,
    /// Fetch the published checksum from `checksum_url`.
    FetchChecksum,
    /// Hash the downloaded archive and compare the digest with `expected`.
    VerifyChecksum { expected: String },
    /// Extract the archive into the install path.
    Extract,
    /// Run the installed compiler's `version` command.
    SmokeTest,
    /// Install the default package at `index`.
    Package { index: usize },
    /// The install is complete.
    Done,
    /// The install stopped with `error`.
    Failed { error: InstallError },
}

/// What came of performing a stage.
pub enum Event {
    /// The stage's work succeeded.
    Succeeded,
    /// The stage's work failed.
    Failed,
    /// The published checksum was fetched and reads `text`.
    ChecksumText { text: String },
    /// The downloaded archive's SHA-256 digest, in hexadecimal, is `hex`.
    Digest { hex: String },
}

/// The name of the release archive of a version for a platform and an
/// architecture.
pub open spec fn archive_name_of(version: Seq<char>, platform: Seq<char>, arch: Seq<char>) -> Seq<
    char,
> {
    "go"@ + version + "."@ + platform + "-"@ + arch + ".tar.gz"@
}

/// Where the release archive called `name` is published.
pub open spec fn archive_url_of(name: Seq<char>) -> Seq<char> {
    "https://dl.google.com/go/"@ + name
}

/// Where the checksum of the file at `url` is published.
pub open spec fn checksum_url_of(url: Seq<char>) -> Seq<char> {
    url + ".sha256"@
}

/// A character's code, with ASCII capital letters taken as small ones.
pub open spec fn fold(c: char) -> u32 {
    if 'A' <= c <= 'Z' {
        (c as u32 + 32) as u32
    } else {
        c as u32
    }
}

/// Whether a computed digest and a published checksum agree, letters
/// compared without regard to case.
pub open spec fn checksum_agrees(digest: Seq<char>, checksum: Seq<char>) -> bool {
    digest.len() == checksum.len() && forall|i: int|
        0 <= i < digest.len() ==> fold(#[trigger] digest[i]) == fold(checksum[i])
}

/// The stage that follows `stage` once `event` came of it, for an install
/// that skips checksum verification where `skip` holds and that installs `n`
/// default packages. Every failure ends the install, and an ended install
/// stays as it is.
pub open spec fn next_stage(skip: bool, n: nat, stage: Stage, event: Event) -> Stage {
    match stage {
        Stage::Download => match event {
            Event::Succeeded => Stage::FetchChecksum,
            _ => Stage::Failed { error: InstallError::Download },
        },
        Stage::FetchChecksum => match event {
            Event::ChecksumText { text } => if skip {
                Stage::Extract
            } else {
                Stage::VerifyChecksum { expected: text }
            },
            _ => Stage::Failed { error: InstallError::ChecksumFetch },
        },
        Stage::VerifyChecksum { expected } => match event {
            Event::Digest { hex } => if checksum_agrees(hex@, expected@) {
                Stage::Extract
            } else {
                Stage::Failed { error: InstallError::ChecksumMismatch }
            },
            _ => Stage::Failed { error: InstallError::ChecksumMismatch },
        },
        Stage::Extract => match event {
            Event::Succeeded => Stage::SmokeTest,
            _ => Stage::Failed { error: InstallError::Extract },
        },
        Stage::SmokeTest => match event {
            Event::Succeeded => if n == 0 {
                Stage::Done
            } else {
                Stage::Package { index: 0 }
            },
            _ => Stage::Failed { error: InstallError::ToolchainInvalid },
        },
        Stage::Package { index } => match event {
            Event::Succeeded => if index + 1 < n {
                Stage::Package { index: (index + 1) as usize }
            } else {
                Stage::Done
            },
            _ => Stage::Failed { error: InstallError::DefaultPackageInstall },
        },
        Stage::Done => Stage::Done,
        Stage::Failed { error } => Stage::Failed { error },
    }
}

/// The stage that a run of events leads to from `stage`.
pub open spec fn run_stages(skip: bool, n: nat, stage: Stage, events: Seq<Event>) -> Stage
    decreases events.len(),
{
    if events.len() == 0 {
        stage
    } else {
        next_stage(skip, n, run_stages(skip, n, stage, events.drop_last()), events.last())
    }
}

proof fn lemma_run_concat(skip: bool, n: nat, stage: Stage, a: Seq<Event>, b: Seq<Event>)
    ensures
        run_stages(skip, n, stage, a + b) == run_stages(skip, n, run_stages(skip, n, stage, a), b),
    decreases b.len(),
{
    if b.len() == 0 {
        assert(a + b == a);
    } else {
        assert((a + b).drop_last() == a + b.drop_last());
        lemma_run_concat(skip, n, stage, a, b.drop_last());
    }
}

/// An install that stopped stays stopped, whatever comes after.
pub proof fn lemma_failed_is_final(skip: bool, n: nat, error: InstallError, events: Seq<Event>)
    ensures
        run_stages(skip, n, Stage::Failed { error }, events) == (Stage::Failed { error }),
    decreases events.len(),
{
    if events.len() > 0 {
        lemma_failed_is_final(skip, n, error, events.drop_last());
    }
}

/// Where the checksum is checked, a digest that disagrees with the published
/// checksum stops the install with a mismatch, and no later event leads to
/// extraction; a digest that agrees leads to extraction.
pub proof fn lemma_checksum_enforced(n: nat, expected: String, hex: String, later: Seq<Event>)
    ensures
        !checksum_agrees(hex@, expected@) ==> run_stages(
            false,
            n,
            Stage::VerifyChecksum { expected },
            seq![Event::Digest { hex }] + later,
        ) == (Stage::Failed { error: InstallError::ChecksumMismatch }),
        checksum_agrees(hex@, expected@) ==> next_stage(
            false,
            n,
            Stage::VerifyChecksum { expected },
            Event::Digest { hex },
        ) == Stage::Extract,
{
    let first = seq![Event::Digest { hex }];
    let start = Stage::VerifyChecksum { expected };
    lemma_run_concat(false, n, start, first, later);
    assert(first.drop_last() == Seq::<Event>::empty());
    assert(run_stages(false, n, start, first.drop_last()) == start);
    assert(run_stages(false, n, start, first) == next_stage(false, n, start, first.last()));
    lemma_failed_is_final(false, n, InstallError::ChecksumMismatch, later);
}

/// Where the checksum is skipped, the fetched checksum goes unchecked: the
/// install goes on to extraction whatever it reads.
pub proof fn lemma_checksum_skipped(n: nat, text: String)
    ensures
        next_stage(true, n, Stage::FetchChecksum, Event::ChecksumText { text }) == Stage::Extract,
{
}

/// Whether a computed digest and a published checksum agree.
pub fn checksum_matches(digest: &str, checksum: &str) -> (r: bool)
    ensures
        r == checksum_agrees(digest@, checksum@),
{
    let n = digest.unicode_len();
    if n != checksum.unicode_len() {
        return false;
    }
    let mut i: usize = 0;
    while i < n
        invariant
            i <= n,
            n == digest@.len(),
            n == checksum@.len(),
            forall|j: int| 0 <= j < i ==> fold(#[trigger] digest@[j]) == fold(checksum@[j]),
        decreases n - i,
    {
        if fold_char(digest.get_char(i)) != fold_char(checksum.get_char(i)) {
            return false;
        }
        i = i + 1;
    }
    true
}

fn fold_char(c: char) -> (r: u32)
    ensures
        r == fold(c),
{
    if 'A' <= c && c <= 'Z' {
        c as u32 + 32
    } else {
        c as u32
    }
}

/// What an install of one version needs: where the archive comes from and
/// goes, where the toolchain lands, the default packages, and whether the
/// checksum is checked.
pub struct InstallPlan {
    pub tarball_url: String,
    pub checksum_url: String,
    pub tarball_path: String,
    pub install_path: String,
    pub goroot: String,
    pub gopath: String,
    pub go_bin: String,
    pub packages: Vec<String>,
    pub skip_checksum: bool,
}

impl InstallPlan {
    /// The plan to install `version` for `platform` and `arch` under
    /// `install`, downloading into `download`.
    pub fn new(
        version: &str,
        platform: &str,
        arch: &str,
        install: &str,
        download: &str,
        packages: Vec<String>,
        skip_checksum: bool,
    ) -> (r: Self)
        ensures
            r.tarball_url@ == archive_url_of(archive_name_of(version@, platform@, arch@)),
            r.checksum_url@ == checksum_url_of(
                archive_url_of(archive_name_of(version@, platform@, arch@)),
            ),
            r.tarball_path@ == join_path(download@, archive_name_of(version@, platform@, arch@)),
            r.install_path@ == install@,
            r.goroot@ == goroot_of(install@),
            r.gopath@ == gopath_of(install@),
            r.go_bin@ == go_bin_of(install@),
            r.packages == packages,
            r.skip_checksum == skip_checksum,
    {
        let name = archive_name(version, platform, arch);
        let mut url = "https://dl.google.com/go/".to_owned();
        url.append(name.as_str());
        let mut sum = url.clone();
        sum.append(".sha256");
        let tarball_path = join(download, name.as_str());
        let goroot = join(install, "go");
        let go_bin = join(goroot.as_str(), "bin/go");
        InstallPlan {
            tarball_url: url,
            checksum_url: sum,
            tarball_path,
            install_path: install.to_owned(),
            goroot,
            gopath: join(install, "packages"),
            go_bin,
            packages,
            skip_checksum,
        }
    }

    /// The stage that follows `stage` once `event` came of it.
    pub fn advance(&self, stage: Stage, event: Event) -> (r: Stage)
        ensures
            r == next_stage(self.skip_checksum, self.packages@.len(), stage, event),
    {
        match stage {
            Stage::Download => match event {
                Event::Succeeded => Stage::FetchChecksum,
                _ => Stage::Failed { error: InstallError::Download },
            },
            Stage::FetchChecksum => match event {
                Event::ChecksumText { text } => if self.skip_checksum {
                    Stage::Extract
                } else {
                    Stage::VerifyChecksum { expected: text }
                },
                _ => Stage::Failed { error: InstallError::ChecksumFetch },
            },
            Stage::VerifyChecksum { expected } => match event {
                Event::Digest { hex } => if checksum_matches(hex.as_str(), expected.as_str()) {
                    Stage::Extract
                } else {
                    Stage::Failed { error: InstallError::ChecksumMismatch }
                },
                _ => Stage::Failed { error: InstallError::ChecksumMismatch },
            },
            Stage::Extract => match event {
                Event::Succeeded => Stage::SmokeTest,
                _ => Stage::Failed { error: InstallError::Extract },
            },
            Stage::SmokeTest => match event {
                Event::Succeeded => if self.packages.len() == 0 {
                    Stage::Done
                } else {
                    Stage::Package { index: 0 }
                },
                _ => Stage::Failed { error: InstallError::ToolchainInvalid },
            },
            Stage::Package { index } => match event {
                Event::Succeeded => if index < self.packages.len() && index + 1 < self.packages.len() {
                    Stage::Package { index: index + 1 }
                } else {
                    Stage::Done
                },
                _ => Stage::Failed { error: InstallError::DefaultPackageInstall },
            },
            Stage::Done => Stage::Done,
            Stage::Failed { error } => Stage::Failed { error },
        }
    }
}

/// The name of the release archive of `version` for `platform` and `arch`.
pub fn archive_name(version: &str, platform: &str, arch: &str) -> (r: String)
    ensures
        r@ == archive_name_of(version@, platform@, arch@),
{
    let mut s = "go".to_owned();
    s.append(version);
    s.append(".");
    s.append(platform);
    s.append("-");
    s.append(arch);
    s.append(".tar.gz");
    s
}

} // verus!

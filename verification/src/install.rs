//! The installation pipeline: download, look for the unpacked directory,
//! unpack if it is missing.
//!
//! Nothing here touches the network or the disk. [`InstallPlan`] names what
//! is to be fetched and where it will show once unpacked; [`InstallStep`]
//! says what the caller has to do next, and the `after_*` functions turn what
//! came of that work into the step that follows.

use vstd::prelude::*;
use crate::error::InstallError;
use crate::release::Release;
use crate::text::same_text;

verus! {

/// The distributor's name for an operating system: `darwin` for `macos`, and
/// the given name for every other.
pub open spec fn os_name(os: Seq<char>) -> Seq<char> {
    if os == "macos"@ {
        "darwin"@
    } else {
        os
    }
}

/// The distributor's name for a processor architecture: `x64` for `x86_64`,
/// and the given name for every other.
pub open spec fn arch_name(arch: Seq<char>) -> Seq<char> {
    if arch == "x86_64"@ {
        "x64"@
    } else {
        arch
    }
}

/// The name of the archive of a version for a platform, without its
/// extension. It is also the name of the directory that unpacking creates.
pub open spec fn basename_text(version: Seq<char>, os: Seq<char>, arch: Seq<char>) -> Seq<char> {
    "node-"@ + version + "-"@ + os_name(os) + "-"@ + arch_name(arch)
}

/// The address of the archive of a version for a platform, as text.
pub open spec fn address_text(version: Seq<char>, os: Seq<char>, arch: Seq<char>) -> Seq<char> {
    "https://nodejs.org/dist/"@ + version + "/"@ + basename_text(version, os, arch) + ".tar.gz"@
}

/// The distributor's name for the operating system `os`.
pub fn normalize_os(os: &str) -> (name: String)
    ensures
        name@ == os_name(os@),
{
    if same_text(os, "macos") {
        String::from_str("darwin")
    } else {
        String::from_str(os)
    }
}

/// The distributor's name for the processor architecture `arch`.
pub fn normalize_arch(arch: &str) -> (name: String)
    ensures
        name@ == arch_name(arch@),
{
    if same_text(arch, "x86_64") {
        String::from_str("x64")
    } else {
        String::from_str(arch)
    }
}

/// The archive name of `version` for the platform `os`/`arch`.
pub fn artifact_basename(version: &str, os: &str, arch: &str) -> (name: String)
    ensures
        name@ == basename_text(version@, os@, arch@),
{
    let os_part: String = normalize_os(os);
    let arch_part: String = normalize_arch(arch);
    let mut name: String = String::from_str("node-");
    name.append(version);
    name.append("-");
    name.append(os_part.as_str());
    name.append("-");
    name.append(arch_part.as_str());
    name
}

/// The archive address of `version` for the platform `os`/`arch`, as text.
pub fn artifact_address(version: &str, os: &str, arch: &str) -> (address: String)
    ensures
        address@ == address_text(version@, os@, arch@),
{
    let name: String = artifact_basename(version, os, arch);
    let mut address: String = String::from_str("https://nodejs.org/dist/");
    address.append(version);
    address.append("/");
    address.append(name.as_str());
    address.append(".tar.gz");
    address
}

/// What `url::Url::parse` makes of `text`: the serialization of the URL it
/// reads, or nothing where it reads none.
pub uninterp spec fn parsed_url(text: Seq<char>) -> Option<Seq<char>>;

/// The error of `url::Url::parse`. It is carried through unread: nothing is
/// claimed about its values.
#[verifier::external_type_specification]
#[verifier::external_body]
pub struct ExParseError(url::ParseError);

/// Calls `url::Url::parse` on `text`. The contract only gives the outcome its
/// name: success hands back the serialization of the parsed URL, failure the
/// parser's error. Nothing is claimed about which texts parse.
#[verifier::external_body]
fn parse_url(text: &str) -> (r: Result<String, url::ParseError>)
    ensures
        match r {
            Ok(url) => parsed_url(text@) == Some(url@),
            Err(_) => parsed_url(text@) is None,
        },
{
    match url::Url::parse(text) {
        Ok(url) => Ok(String::from(url)),
        Err(e) => Err(e),
    }
}

/// What installing one release on one platform involves.
#[derive(Clone, Debug, PartialEq, Eq)]
pub struct InstallPlan {
    basename: String,
    url: String,
}

impl InstallPlan {
    /// The plan for installing `release` on the platform `os`/`arch`. It
    /// fails only if the archive address is not a URL.
    pub fn new(release: &Release, os: &str, arch: &str) -> (r: Result<InstallPlan, InstallError>)
        ensures
            match parsed_url(address_text(release@.version, os@, arch@)) {
                Some(url) => r is Ok && r->Ok_0.basename_text() == basename_text(
                    release@.version,
                    os@,
                    arch@,
                ) && r->Ok_0.url_text() == url,
                None => r == Err::<InstallPlan, InstallError>(InstallError::InvalidUrl),
            },
    {
        let basename: String = artifact_basename(release.version(), os, arch);
        let address: String = artifact_address(release.version(), os, arch);
        InstallPlan::from_parsed(basename, parse_url(address.as_str()))
    }

    /// The plan for an archive named `basename`, given what came of parsing
    /// its address.
    pub fn from_parsed(basename: String, parsed: Result<String, url::ParseError>) -> (r: Result<
        InstallPlan,
        InstallError,
    >)
        ensures
            match parsed {
                Ok(url) => r is Ok && r->Ok_0.basename_text() == basename@ && r->Ok_0.url_text()
                    == url@,
                Err(_) => r == Err::<InstallPlan, InstallError>(InstallError::InvalidUrl),
            },
    {
        match parsed {
            Ok(url) => Ok(InstallPlan { basename, url }),
            Err(_) => Err(InstallError::InvalidUrl),
        }
    }

    /// The archive name, as characters.
    pub closed spec fn basename_text(&self) -> Seq<char> {
        self.basename@
    }

    /// The download address, as characters.
    pub closed spec fn url_text(&self) -> Seq<char> {
        self.url@
    }

    /// The archive name without extension: the directory that shows under
    /// the prefix once the release is unpacked.
    pub fn basename(&self) -> (name: &str)
        ensures
            name@ == self.basename_text(),
    {
        self.basename.as_str()
    }

    /// The address to download the archive from.
    pub fn url(&self) -> (address: &str)
        ensures
            address@ == self.url_text(),
    {
        self.url.as_str()
    }
}

/// What the caller has to do next to carry an installation forward.
#[derive(Clone, Debug, PartialEq, Eq)]
pub enum InstallStep {
    /// Fetch the archive into the prefix.
    Download,
    /// Look whether the prefix already holds the unpacked directory.
    CheckInstalled,
    /// Unpack the archives of the prefix into the prefix.
    Extract,
    /// Nothing: the release is installed.
    Finished,
    /// Nothing: the installation failed.
    Failed(InstallError),
}

/// What came of the work that a step asked for.
#[derive(Debug, PartialEq, Eq)]
pub enum InstallEvent {
    /// The downloader returned, with its report if it failed.
    Downloaded(Result<(), String>),
    /// The prefix was looked at: does it hold the unpacked directory?
    Checked(bool),
    /// The extractor returned, with its report if it failed.
    Extracted(Result<(), String>),
}

/// The step that follows `step` once `event` has come in.
///
/// * After a download that succeeded comes the look for the unpacked
///   directory; a download that failed ends the installation with the
///   downloader's report.
/// * If the directory is there, the installation is finished; if not, the
///   archive is unpacked.
/// * Unpacking ends the installation, with the extractor's report if it
///   failed.
///
/// An event that does not answer `step` changes nothing. In particular
/// `Finished` and `Failed` are never left.
pub open spec fn next_step(step: InstallStep, event: InstallEvent) -> InstallStep {
    match (step, event) {
        (InstallStep::Download, InstallEvent::Downloaded(Ok(_))) => InstallStep::CheckInstalled,
        (InstallStep::Download, InstallEvent::Downloaded(Err(report))) => InstallStep::Failed(
            InstallError::Transport(report),
        ),
        (InstallStep::CheckInstalled, InstallEvent::Checked(true)) => InstallStep::Finished,
        (InstallStep::CheckInstalled, InstallEvent::Checked(false)) => InstallStep::Extract,
        (InstallStep::Extract, InstallEvent::Extracted(Ok(_))) => InstallStep::Finished,
        (InstallStep::Extract, InstallEvent::Extracted(Err(report))) => InstallStep::Failed(
            InstallError::Extraction(report),
        ),
        (unanswered, _) => unanswered,
    }
}

impl InstallStep {
    /// Where every installation starts: with the download.
    pub fn first() -> (step: InstallStep)
        ensures
            step == InstallStep::Download,
    {
        InstallStep::Download
    }

    /// Takes in what came of the work that this step asked for, and says
    /// what to do next.
    pub fn advance(self, event: InstallEvent) -> (next: InstallStep)
        ensures
            next == next_step(self, event),
    {
        match (self, event) {
            (InstallStep::Download, InstallEvent::Downloaded(outcome)) => match outcome {
                Ok(_) => InstallStep::CheckInstalled,
                Err(report) => InstallStep::Failed(InstallError::Transport(report)),
            },
            (InstallStep::CheckInstalled, InstallEvent::Checked(installed)) => {
                if installed {
                    InstallStep::Finished
                } else {
                    InstallStep::Extract
                }
            },
            (InstallStep::Extract, InstallEvent::Extracted(outcome)) => match outcome {
                Ok(_) => InstallStep::Finished,
                Err(report) => InstallStep::Failed(InstallError::Extraction(report)),
            },
            (unanswered, _) => unanswered,
        }
    }

    /// Whether the installation is over, and how it ended. `None` while
    /// there is still something to do.
    pub fn result(self) -> (r: Option<Result<(), InstallError>>)
        ensures
            r == match self {
                InstallStep::Finished => Some(Ok::<(), InstallError>(())),
                InstallStep::Failed(e) => Some(Err::<(), InstallError>(e)),
                _ => None::<Result<(), InstallError>>,
            },
    {
        match self {
            InstallStep::Finished => Some(Ok(())),
            InstallStep::Failed(e) => Some(Err(e)),
            _ => None,
        }
    }
}

/// What the two collaborators answer when one installation calls on them.
pub struct Answers {
    /// What the downloader reports.
    pub download: Result<(), String>,
    /// What the extractor reports, if it is called.
    pub extract: Result<(), String>,
}

/// One installation, seen from outside: how it ended and whether it called
/// the extractor.
pub struct Run {
    /// The last step: `Finished` or `Failed`.
    pub end: InstallStep,
    /// How often the extractor was called.
    pub extractions: nat,
}

/// The course of one installation: `installed` says whether the unpacked
/// directory is there when the pipeline looks for it, `answers` what the
/// collaborators report. The three events are taken in turn; an event whose
/// step was not reached changes nothing.
pub open spec fn run(installed: bool, answers: Answers) -> Run {
    let downloaded = next_step(InstallStep::Download, InstallEvent::Downloaded(answers.download));
    let checked = next_step(downloaded, InstallEvent::Checked(installed));
    let extracted = next_step(checked, InstallEvent::Extracted(answers.extract));
    Run {
        end: extracted,
        extractions: if checked == InstallStep::Extract {
            1
        } else {
            0
        },
    }
}

/// Every installation ends, in success or in failure, and a failure carries
/// the report of the collaborator that failed, unchanged.
pub proof fn lemma_run_ends(installed: bool, answers: Answers)
    ensures
        run(installed, answers).end == InstallStep::Finished || run(
            installed,
            answers,
        ).end is Failed,
        answers.download matches Err(report) ==> run(installed, answers).end
            == InstallStep::Failed(InstallError::Transport(report)),
        answers.download is Ok && !installed ==> (answers.extract matches Err(report) ==> run(
            installed,
            answers,
        ).end == InstallStep::Failed(InstallError::Extraction(report))),
        run(installed, answers).end == InstallStep::Finished <==> answers.download is Ok && (
        installed || answers.extract is Ok),
{
}

/// The extractor is called only after a download that succeeded, and only
/// if the unpacked directory is missing.
pub proof fn lemma_extraction_only_when_missing(installed: bool, answers: Answers)
    ensures
        run(installed, answers).extractions == 1 <==> answers.download is Ok && !installed,
        run(installed, answers).extractions <= 1,
{
}

/// Where the unpacked directory is already there, the extractor is not
/// called, and the installation succeeds as soon as the download does.
pub proof fn lemma_installed_skips_extraction(answers: Answers)
    ensures
        run(true, answers).extractions == 0,
        answers.download is Ok ==> run(true, answers).end == InstallStep::Finished,
{
}

/// Installing the same release twice in a row unpacks at most once, and not
/// at all the second time if the first installation succeeded.
///
/// The two runs are tied by what holds of the prefix between them: a
/// directory that was there stays there, and an installation that succeeded
/// has left the directory behind. A first run whose extraction failed is left
/// out: nothing is known of what a failed extractor leaves behind, and the
/// second run then unpacks again.
pub proof fn lemma_install_twice(
    installed_first: bool,
    first: Answers,
    installed_second: bool,
    second: Answers,
)
    requires
        installed_first ==> installed_second,
        run(installed_first, first).end == InstallStep::Finished ==> installed_second,
        !(run(installed_first, first).end matches InstallStep::Failed(
            InstallError::Extraction(_),
        )),
    ensures
        run(installed_first, first).extractions + run(installed_second, second).extractions <= 1,
        run(installed_first, first).end == InstallStep::Finished ==> run(
            installed_second,
            second,
        ).extractions == 0,
{
}

} // verus!

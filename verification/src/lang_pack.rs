//! What the player is told while passage packs are installed.

use crate::config::{ExtraRepo, TyperacerConfig};
use crate::text::{decimal, decimal_digits, str_eq, string_views, trim, trimmed};
use vstd::prelude::*;
use vstd::string::StringExecFns;

verus! {

/// The line that announces the download of the player's own packs; nothing
/// where there are none.
pub open spec fn extra_repos_line(count: nat) -> Seq<char> {
    if count == 0 {
        Seq::empty()
    } else {
        "Downloading ["@ + decimal_digits(count) + "] extra user configured repos...\n"@
    }
}

/// The line that announces the download of the player's own packs.
pub fn get_extra_repos_string(config: &TyperacerConfig) -> (line: String)
    ensures
        line@ == extra_repos_line(config.extra_repos@.len()),
{
    if config.extra_repos.len() == 0 {
        String::new()
    } else {
        let mut line = "Downloading [".to_owned();
        line.append(decimal(config.extra_repos.len() as u128).as_str());
        line.append("] extra user configured repos...\n");
        line
    }
}

/// The line on how the cleaning went.
pub fn get_cleaned_repos_string(successful: bool) -> (line: String)
    ensures
        line@ == (if successful {
            "Successfully deleted old repos!\n"@
        } else {
            "Issue deleting old repos. Try again later.\n"@
        }),
{
    if successful {
        "Successfully deleted old repos!\n".to_owned()
    } else {
        "Issue deleting old repos. Try again later.\n".to_owned()
    }
}

/// Whether the lines of a pack's version file name the wanted version: the
/// first line does, but for whitespace round it, and a second line follows.
pub open spec fn names_version(version_text: Seq<String>, wanted: Seq<char>) -> bool {
    version_text.len() >= 2 && trimmed(version_text[0]@) == wanted
}

/// Whether an installed pack, by the lines of its version file, is of the
/// wanted version.
pub fn check_proper_version(lang_pack_version: &str, version_text: &Vec<String>) -> (proper: bool)
    ensures
        proper == names_version(version_text@, lang_pack_version@),
{
    if version_text.len() < 2 {
        false
    } else {
        str_eq(trim(version_text[0].as_str()), lang_pack_version)
    }
}

/// A pack of the player's own as it is found installed: the name of its
/// directory, its path, and the lines of its version file, none where the
/// file is missing.
#[derive(Debug)]
pub struct InstalledPack {
    pub name: String,
    pub path: String,
    pub version_text: Vec<String>,
}

/// The first installed pack of a name.
pub open spec fn find_pack(installed: Seq<InstalledPack>, name: Seq<char>) -> Option<
    InstalledPack,
>
    decreases installed.len(),
{
    if installed.len() == 0 {
        None
    } else if installed[0].name@ == name {
        Some(installed[0])
    } else {
        find_pack(installed.drop_first(), name)
    }
}

/// Whether a wanted pack is installed in the wanted version.
pub open spec fn pack_ready(repo: ExtraRepo, installed: Seq<InstalledPack>) -> bool {
    match find_pack(installed, repo.name@) {
        Some(pack) => names_version(pack.version_text@, repo.version@),
        None => false,
    }
}

/// Whether the installed packs are the wanted ones: as many, and each
/// wanted one in its version.
pub open spec fn packs_ready(wanted: Seq<ExtraRepo>, installed: Seq<InstalledPack>) -> bool {
    &&& wanted.len() == installed.len()
    &&& forall|i: int| 0 <= i < wanted.len() ==> pack_ready(#[trigger] wanted[i], installed)
}

/// Whether a pack of this name is wanted.
pub open spec fn wants(wanted: Seq<ExtraRepo>, name: Seq<char>) -> bool {
    exists|i: int| 0 <= i < wanted.len() && (#[trigger] wanted[i]).name@ == name
}

/// The paths of the installed packs that no wanted pack is named like, in
/// order.
pub open spec fn stale_paths(wanted: Seq<ExtraRepo>, installed: Seq<InstalledPack>) -> Seq<
    Seq<char>,
>
    decreases installed.len(),
{
    if installed.len() == 0 {
        Seq::empty()
    } else {
        let earlier = stale_paths(wanted, installed.drop_last());
        if wants(wanted, installed.last().name@) {
            earlier
        } else {
            earlier.push(installed.last().path@)
        }
    }
}

/// Whether a wanted pack is installed in the wanted version.
fn pack_is_ready(repo: &ExtraRepo, installed: &Vec<InstalledPack>) -> (ready: bool)
    ensures
        ready == pack_ready(*repo, installed@),
{
    let mut i: usize = 0;
    proof {
        assert(installed@.skip(0) =~= installed@);
    }
    while i < installed.len()
        invariant
            i <= installed.len(),
            find_pack(installed@, repo.name@) == find_pack(installed@.skip(i as int), repo.name@),
        decreases installed.len() - i,
    {
        proof {
            assert(installed@.skip(i as int).drop_first() =~= installed@.skip(i + 1));
        }
        if str_eq(installed[i].name.as_str(), repo.name.as_str()) {
            return check_proper_version(repo.version.as_str(), &installed[i].version_text);
        }
        i += 1;
    }
    false
}

/// Whether a pack of this name is wanted.
fn is_wanted(wanted: &Vec<ExtraRepo>, name: &str) -> (found: bool)
    ensures
        found == wants(wanted@, name@),
{
    let mut i: usize = 0;
    while i < wanted.len()
        invariant
            i <= wanted.len(),
            forall|j: int| 0 <= j < i ==> (#[trigger] wanted@[j]).name@ != name@,
        decreases wanted.len() - i,
    {
        if str_eq(wanted[i].name.as_str(), name) {
            return true;
        }
        i += 1;
    }
    false
}

/// Whether the player's own packs are installed as the settings want them.
/// `None` stands for a missing directory of such packs.
pub fn check_extra_lang_packs(config: &TyperacerConfig, installed: Option<&Vec<InstalledPack>>) -> (clean:
    bool)
    ensures
        clean == (match installed {
            Some(packs) => packs_ready(config.extra_repos@, packs@),
            None => false,
        }),
{
    match installed {
        None => false,
        Some(packs) => {
            if config.extra_repos.len() != packs.len() {
                return false;
            }
            let mut i: usize = 0;
            while i < config.extra_repos.len()
                invariant
                    i <= config.extra_repos.len(),
                    installed == Some(packs),
                    config.extra_repos.len() == packs.len(),
                    forall|j: int|
                        0 <= j < i ==> pack_ready(#[trigger] config.extra_repos@[j], packs@),
                decreases config.extra_repos.len() - i,
            {
                if !pack_is_ready(&config.extra_repos[i], packs) {
                    return false;
                }
                i += 1;
            }
            true
        },
    }
}

/// Whether every pack is installed in the version that the settings want:
/// the main pack, by the lines of its version file, and the player's own.
pub fn check_lang_pack(
    config: &TyperacerConfig,
    main_version_text: &Vec<String>,
    installed: Option<&Vec<InstalledPack>>,
) -> (ready: bool)
    ensures
        ready == (names_version(main_version_text@, config.repo_version@) && (match installed {
            Some(packs) => packs_ready(config.extra_repos@, packs@),
            None => false,
        })),
{
    check_proper_version(config.repo_version.as_str(), main_version_text)
        && check_extra_lang_packs(config, installed)
}

/// The installed packs that the settings no longer name, to be cleaned
/// away, by their paths.
pub fn repos_to_clean(config: &TyperacerConfig, installed: &Vec<InstalledPack>) -> (stale: Vec<
    String,
>)
    ensures
        string_views(stale@) == stale_paths(config.extra_repos@, installed@),
{
    let mut stale: Vec<String> = Vec::new();
    let mut i: usize = 0;
    while i < installed.len()
        invariant
            i <= installed.len(),
            string_views(stale@) == stale_paths(config.extra_repos@, installed@.take(i as int)),
        decreases installed.len() - i,
    {
        proof {
            assert(installed@.take(i + 1).drop_last() =~= installed@.take(i as int));
        }
        if !is_wanted(&config.extra_repos, installed[i].name.as_str()) {
            stale.push(installed[i].path.clone());
        }
        i += 1;
    }
    proof {
        assert(installed@.take(installed.len() as int) =~= installed@);
    }
    stale
}

/// Where an installation stands: what the front end is to do next.
#[derive(Clone, Copy, Debug, PartialEq, Eq, Structural)]
pub enum InstallStep {
    /// Ask whether to update at all.
    AskUpdate,
    /// Make the data directory and report its path.
    MakeDataDir,
    /// Nothing but to show the log before the long download.
    Announce,
    /// Fetch the main pack and report how it went.
    FetchMain,
    /// Fetch the player's own packs and report how each went, and what is
    /// found installed.
    FetchExtras,
    /// Ask whether to delete the packs that are no longer named.
    AskClean,
    /// Delete them and report whether that went well.
    Clean,
    /// Nothing but to show the log.
    AnnounceEnd,
    /// Wait for any key.
    AwaitKey,
    /// The installation is over; the player wants to play, or not.
    Done(bool),
}

/// What the player answered.
#[derive(Clone, Copy, Debug, PartialEq, Eq, Structural)]
pub enum Answer {
    Yes,
    No,
    Interrupt,
    Other,
}

/// How the download of one pack went.
#[derive(Debug)]
pub struct ExtraOutcome {
    pub url: String,
    pub name: String,
    /// What went wrong, if anything did.
    pub error: Option<String>,
}

/// What the front end reports back after a step.
#[derive(Debug)]
pub enum Report {
    Nothing,
    Key(Answer),
    DataDir(String),
    MainFetched(Option<String>),
    ExtrasFetched(Vec<ExtraOutcome>, Vec<InstalledPack>),
    Cleaned(bool),
}

/// An installation as plain values.
pub struct Installation {
    pub step: InstallStep,
    /// What the player is shown.
    pub log: Seq<char>,
    /// The paths of the packs to clean away.
    pub stale: Seq<Seq<char>>,
}

/// The line on the download of one pack.
pub open spec fn outcome_line(outcome: ExtraOutcome) -> Seq<char> {
    match outcome.error {
        None => "Downloaded and installed user repo: "@ + outcome.url@ + " as "@ + outcome.name@
            + "\n"@,
        Some(error) => "Trouble downloading extra repo: "@ + outcome.url@ + ", error: "@ + error@
            + ". Please try again.\n"@,
    }
}

/// The lines on the downloads of the player's own packs.
pub open spec fn outcome_lines(outcomes: Seq<ExtraOutcome>) -> Seq<char>
    decreases outcomes.len(),
{
    if outcomes.len() == 0 {
        Seq::empty()
    } else {
        outcome_lines(outcomes.drop_last()) + outcome_line(outcomes.last())
    }
}

/// The paths as a list, one to a line.
pub open spec fn listing(paths: Seq<Seq<char>>) -> Seq<char>
    decreases paths.len(),
{
    if paths.len() == 0 {
        Seq::empty()
    } else if paths.len() == 1 {
        "- "@ + paths[0]
    } else {
        listing(paths.drop_last()) + "\n"@ + "- "@ + paths.last()
    }
}

/// The question whether to delete the packs that are no longer named.
pub open spec fn clean_question(stale: Seq<Seq<char>>) -> Seq<char> {
    "Found unreferenced repos:\n"@ + listing(stale) + "\nWould you like to delete them? (y/n)\n"@
}

/// The installation before its first step.
pub open spec fn install_start() -> Installation {
    Installation {
        step: InstallStep::AskUpdate,
        log: "Found updated lang packs! Update to the latest versions? (y/n)\n"@,
        stale: Seq::empty(),
    }
}

/// The installation after the front end reported on its step. A report that
/// does not answer the step changes nothing.
pub open spec fn after_report(
    before: Installation,
    repo: Seq<char>,
    wanted: Seq<ExtraRepo>,
    report: Report,
) -> Installation {
    match (before.step, report) {
        (InstallStep::AskUpdate, Report::Key(Answer::Yes)) => Installation {
            step: InstallStep::MakeDataDir,
            ..before
        },
        (InstallStep::AskUpdate, Report::Key(Answer::No)) => Installation {
            step: InstallStep::Done(false),
            ..before
        },
        (InstallStep::MakeDataDir, Report::DataDir(dir)) => Installation {
            step: InstallStep::Announce,
            log: before.log + "Making data dir at: "@ + dir@ + "\n"@,
            ..before
        },
        (InstallStep::Announce, Report::Nothing) => Installation {
            step: InstallStep::FetchMain,
            log: before.log
                + "Downloading and setting up lang packs (this may take a while with slow internet)...\n"@,
            ..before
        },
        (InstallStep::FetchMain, Report::MainFetched(None)) => Installation {
            step: InstallStep::FetchExtras,
            log: before.log + "Main lang pack downloaded and ready to go!\n"@ + extra_repos_line(
                wanted.len(),
            ),
            ..before
        },
        (InstallStep::FetchMain, Report::MainFetched(Some(error))) => Installation {
            step: InstallStep::AnnounceEnd,
            log: before.log + "Trouble downloading main repo at: "@ + repo + " error: "@ + error@
                + " please try again\n"@,
            ..before
        },
        (InstallStep::FetchExtras, Report::ExtrasFetched(outcomes, installed)) => {
            let stale = stale_paths(wanted, installed@);
            if stale.len() > 0 {
                Installation {
                    step: InstallStep::AskClean,
                    log: before.log + outcome_lines(outcomes@) + clean_question(stale),
                    stale,
                }
            } else {
                Installation {
                    step: InstallStep::AnnounceEnd,
                    log: before.log + outcome_lines(outcomes@),
                    stale,
                }
            }
        },
        (InstallStep::AskClean, Report::Key(Answer::Yes)) => Installation {
            step: InstallStep::Clean,
            ..before
        },
        (InstallStep::AskClean, Report::Key(Answer::No)) => Installation {
            step: InstallStep::AnnounceEnd,
            log: before.log + "Requested not to delete old repos.\n"@,
            ..before
        },
        (InstallStep::Clean, Report::Cleaned(successful)) => Installation {
            step: InstallStep::AnnounceEnd,
            log: before.log + (if successful {
                "Successfully deleted old repos!\n"@
            } else {
                "Issue deleting old repos. Try again later.\n"@
            }),
            ..before
        },
        (InstallStep::AnnounceEnd, Report::Nothing) => Installation {
            step: InstallStep::AwaitKey,
            log: before.log + "Press any key to continue or ^C to exit.\n"@,
            ..before
        },
        (InstallStep::AwaitKey, Report::Key(answer)) => Installation {
            step: InstallStep::Done(answer != Answer::Interrupt),
            ..before
        },
        _ => before,
    }
}

/// The installation of passage packs, step by step.
#[derive(Debug)]
pub struct Installer {
    step: InstallStep,
    log: String,
    stale: Vec<String>,
}

impl View for Installer {
    type V = Installation;

    closed spec fn view(&self) -> Installation {
        Installation { step: self.step, log: self.log@, stale: string_views(self.stale@) }
    }
}

impl Installer {
    /// An installation before its first step.
    pub fn new() -> (installer: Installer)
        ensures
            installer@ == install_start(),
    {
        let installer = Installer {
            step: InstallStep::AskUpdate,
            log: "Found updated lang packs! Update to the latest versions? (y/n)\n".to_owned(),
            stale: Vec::new(),
        };
        proof {
            assert(string_views(installer.stale@) =~= Seq::<Seq<char>>::empty());
        }
        installer
    }

    /// What the front end is to do next.
    pub fn step(&self) -> (step: InstallStep)
        ensures
            step == self@.step,
    {
        self.step
    }

    /// What the player is shown.
    pub fn log(&self) -> (log: &str)
        ensures
            log@ == self@.log,
    {
        self.log.as_str()
    }

    /// The paths of the packs to clean away.
    pub fn stale(&self) -> (stale: &Vec<String>)
        ensures
            string_views(stale@) == self@.stale,
    {
        &self.stale
    }

    /// Takes the front end's report on the step and moves on.
    pub fn advance(&mut self, config: &TyperacerConfig, report: Report)
        ensures
            final(self)@ == after_report(old(self)@, config.repo@, config.extra_repos@, report),
    {
        match (self.step, report) {
            (InstallStep::AskUpdate, Report::Key(Answer::Yes)) => {
                self.step = InstallStep::MakeDataDir;
            },
            (InstallStep::AskUpdate, Report::Key(Answer::No)) => {
                self.step = InstallStep::Done(false);
            },
            (InstallStep::MakeDataDir, Report::DataDir(dir)) => {
                self.step = InstallStep::Announce;
                self.log.append("Making data dir at: ");
                self.log.append(dir.as_str());
                self.log.append("\n");
            },
            (InstallStep::Announce, Report::Nothing) => {
                self.step = InstallStep::FetchMain;
                self.log.append(
                    "Downloading and setting up lang packs (this may take a while with slow internet)...\n",
                );
            },
            (InstallStep::FetchMain, Report::MainFetched(None)) => {
                self.step = InstallStep::FetchExtras;
                self.log.append("Main lang pack downloaded and ready to go!\n");
                self.log.append(get_extra_repos_string(config).as_str());
            },
            (InstallStep::FetchMain, Report::MainFetched(Some(error))) => {
                self.step = InstallStep::AnnounceEnd;
                self.log.append("Trouble downloading main repo at: ");
                self.log.append(config.repo.as_str());
                self.log.append(" error: ");
                self.log.append(error.as_str());
                self.log.append(" please try again\n");
            },
            (InstallStep::FetchExtras, Report::ExtrasFetched(outcomes, installed)) => {
                append_outcomes(&mut self.log, &outcomes);
                self.stale = repos_to_clean(config, &installed);
                if self.stale.len() > 0 {
                    self.step = InstallStep::AskClean;
                    append_question(&mut self.log, &self.stale);
                } else {
                    self.step = InstallStep::AnnounceEnd;
                }
            },
            (InstallStep::AskClean, Report::Key(Answer::Yes)) => {
                self.step = InstallStep::Clean;
            },
            (InstallStep::AskClean, Report::Key(Answer::No)) => {
                self.step = InstallStep::AnnounceEnd;
                self.log.append("Requested not to delete old repos.\n");
            },
            (InstallStep::Clean, Report::Cleaned(successful)) => {
                self.step = InstallStep::AnnounceEnd;
                self.log.append(get_cleaned_repos_string(successful).as_str());
            },
            (InstallStep::AnnounceEnd, Report::Nothing) => {
                self.step = InstallStep::AwaitKey;
                self.log.append("Press any key to continue or ^C to exit.\n");
            },
            (InstallStep::AwaitKey, Report::Key(answer)) => {
                self.step = InstallStep::Done(answer != Answer::Interrupt);
            },
            _ => {},
        }
    }
}

/// Appends the lines on the downloads of the player's own packs.
fn append_outcomes(log: &mut String, outcomes: &Vec<ExtraOutcome>)
    ensures
        final(log)@ == old(log)@ + outcome_lines(outcomes@),
{
    let mut i: usize = 0;
    while i < outcomes.len()
        invariant
            i <= outcomes.len(),
            log@ == old(log)@ + outcome_lines(outcomes@.take(i as int)),
        decreases outcomes.len() - i,
    {
        proof {
            assert(outcomes@.take(i + 1).drop_last() =~= outcomes@.take(i as int));
        }
        match &outcomes[i].error {
            None => {
                log.append("Downloaded and installed user repo: ");
                log.append(outcomes[i].url.as_str());
                log.append(" as ");
                log.append(outcomes[i].name.as_str());
                log.append("\n");
            },
            Some(error) => {
                log.append("Trouble downloading extra repo: ");
                log.append(outcomes[i].url.as_str());
                log.append(", error: ");
                log.append(error.as_str());
                log.append(". Please try again.\n");
            },
        }
        i += 1;
    }
    proof {
        assert(outcomes@.take(outcomes.len() as int) =~= outcomes@);
    }
}

/// Appends the question whether to delete the listed packs.
fn append_question(log: &mut String, stale: &Vec<String>)
    ensures
        final(log)@ == old(log)@ + clean_question(string_views(stale@)),
{
    let ghost paths = string_views(stale@);
    log.append("Found unreferenced repos:\n");
    let ghost head = log@;
    let mut i: usize = 0;
    while i < stale.len()
        invariant
            i <= stale.len(),
            paths == string_views(stale@),
            log@ == head + listing(paths.take(i as int)),
        decreases stale.len() - i,
    {
        proof {
            assert(paths.take(i + 1).drop_last() =~= paths.take(i as int));
        }
        if i > 0 {
            log.append("\n");
        }
        log.append("- ");
        log.append(stale[i].as_str());
        i += 1;
    }
    proof {
        assert(paths.take(stale.len() as int) =~= paths);
    }
    log.append("\nWould you like to delete them? (y/n)\n");
}

} // verus!

//! Versions: comparing the running version with the newest published one,
//! choosing how to upgrade, and the update notice. Parsing and ordering of
//! semantic versions are `semver`'s; fetching versions and running the
//! package managers are the caller's task.

use vstd::prelude::*;
use crate::scan::last_index_of;
use crate::text::{append_str, chars_of, contains_seq, owned, starts_with_seq, str_contains, str_starts_with};
use crate::vcs::{join_path, join_path_text, strip_trailing_slashes};

verus! {

broadcast use vstd::string::group_string_axioms;

#[verifier::external_type_specification]
#[verifier::external_body]
pub struct ExVersion(semver::Version);

/// The parts of a semantic version: major, minor and patch numbers, the
/// pre-release and the build metadata.
pub type VersionV = (u64, u64, u64, Seq<char>, Seq<char>);

/// A parsed semantic version.
pub struct SemVer {
    major: u64,
    minor: u64,
    patch: u64,
    pre: String,
    build: String,
    version: semver::Version,
}

impl SemVer {
    /// The major version number.
    pub fn major(&self) -> (r: u64)
        ensures
            r == self@.0,
    {
        self.major
    }

    /// The minor version number.
    pub fn minor(&self) -> (r: u64)
        ensures
            r == self@.1,
    {
        self.minor
    }

    /// The patch version number.
    pub fn patch(&self) -> (r: u64)
        ensures
            r == self@.2,
    {
        self.patch
    }
}

impl View for SemVer {
    type V = VersionV;

    closed spec fn view(&self) -> VersionV {
        (self.major, self.minor, self.patch, self.pre@, self.build@)
    }
}

/// The version that `semver::Version::parse` reads from a text, if any.
pub uninterp spec fn semver_parse(text: Seq<char>) -> Option<VersionV>;

/// Parses a semantic version with `semver::Version::parse`. The contract
/// names the outcome, which depends on the text alone; the grammar itself
/// is not restated.
#[verifier::external_body]
pub(crate) fn parse_version(text: &str) -> (r: Option<SemVer>)
    ensures
        match r {
            Some(v) => semver_parse(text@) == Some(v@),
            None => semver_parse(text@) is None,
        },
{
    match semver::Version::parse(text) {
        Ok(v) => Some(SemVer {
            major: v.major,
            minor: v.minor,
            patch: v.patch,
            pre: v.pre.as_str().to_string(),
            build: v.build.as_str().to_string(),
            version: v,
        }),
        Err(_) => None,
    }
}

/// Whether `semver` orders the first version at or after the second.
pub uninterp spec fn semver_at_least(a: VersionV, b: VersionV) -> bool;

/// Compares two versions with `semver::Version`'s `>=`. Its order is the
/// derived one: major, then minor, then patch, then pre-release and build
/// metadata; the contract states the first three steps and names the rest.
#[verifier::external_body]
pub(crate) fn version_at_least(a: &SemVer, b: &SemVer) -> (r: bool)
    ensures
        r == semver_at_least(a@, b@),
        a@.0 != b@.0 ==> r == (a@.0 > b@.0),
        a@.0 == b@.0 && a@.1 != b@.1 ==> r == (a@.1 > b@.1),
        a@.0 == b@.0 && a@.1 == b@.1 && a@.2 != b@.2 ==> r == (a@.2 > b@.2),
{
    a.version >= b.version
}

// ---------------------------------------------------------------------------
// Upgrades
// ---------------------------------------------------------------------------

/// Installation method detected
#[derive(Clone, Copy, Debug, PartialEq, Eq, Structural)]
pub enum InstallMethod {
    Cargo,
    Homebrew,
    Unknown,
}

impl InstallMethod {
    /// The name of the installation method.
    pub open spec fn spec_name(self) -> Seq<char> {
        match self {
            InstallMethod::Cargo => "cargo"@,
            InstallMethod::Homebrew => "homebrew"@,
            InstallMethod::Unknown => "unknown"@,
        }
    }

    /// The name of the installation method.
    pub fn name(&self) -> (r: &'static str)
        ensures
            r@ == self.spec_name(),
    {
        match self {
            InstallMethod::Cargo => "cargo",
            InstallMethod::Homebrew => "homebrew",
            InstallMethod::Unknown => "unknown",
        }
    }
}

/// `path` lies at or below `base`, comparing whole components; every path
/// lies below the empty base.
pub open spec fn path_starts_with(path: Seq<char>, base: Seq<char>) -> bool {
    let b = strip_trailing_slashes(base);
    let p = strip_trailing_slashes(path);
    b.len() == 0 || p == b || (b == "/"@ && starts_with_seq(p, "/"@)) || starts_with_seq(
        p,
        b + "/"@,
    )
}

fn strip_trailing_text(s: &str) -> (r: String)
    ensures
        r@ == strip_trailing_slashes(s@),
{
    let v = chars_of(s);
    let mut n = v.len();
    assert(v@.take(n as int) =~= v@);
    while n > 1 && v[n - 1] == '/'
        invariant
            n <= v.len(),
            strip_trailing_slashes(v@.take(n as int)) == strip_trailing_slashes(v@),
        decreases n,
    {
        assert(v@.take(n as int).drop_last() =~= v@.take(n - 1));
        n = n - 1;
    }
    let mut w: Vec<char> = Vec::new();
    let mut i: usize = 0;
    while i < n
        invariant
            i <= n,
            n <= v.len(),
            w@ == v@.take(i as int),
        decreases n - i,
    {
        w.push(v[i]);
        assert(v@.take(i + 1) =~= v@.take(i as int).push(v@[i as int]));
        i = i + 1;
    }
    crate::text::string_of(&w)
}

/// Whether `path` lies at or below `base`.
pub fn path_starts_with_text(path: &str, base: &str) -> (r: bool)
    ensures
        r == path_starts_with(path@, base@),
{
    let b = strip_trailing_text(base);
    let p = strip_trailing_text(path);
    if chars_of(b.as_str()).len() == 0 {
        return true;
    }
    if crate::text::str_eq(p.as_str(), b.as_str()) {
        return true;
    }
    if crate::text::str_eq(b.as_str(), "/") && str_starts_with(p.as_str(), "/") {
        return true;
    }
    let mut bs = b.clone();
    append_str(&mut bs, "/");
    str_starts_with(p.as_str(), bs.as_str())
}

/// The binary was installed by cargo: its path contains `.cargo/bin`, or
/// lies below `CARGO_HOME`, or below `~/.cargo/bin`.
pub open spec fn is_cargo_path(exe: Seq<char>, cargo_home: Option<Seq<char>>, home: Option<Seq<char>>) -> bool {
    contains_seq(exe, ".cargo/bin"@) || (match cargo_home {
        Some(c) => path_starts_with(exe, c),
        None => false,
    }) || (match home {
        Some(h) => path_starts_with(exe, join_path(join_path(h, ".cargo"@), "bin"@)),
        None => false,
    })
}

/// Check if the binary is installed via Cargo
pub fn is_cargo_install(exe: &str, cargo_home: Option<&str>, home: Option<&str>) -> (r: bool)
    ensures
        r == is_cargo_path(
            exe@,
            match cargo_home {
                Some(c) => Some(c@),
                None => None,
            },
            match home {
                Some(h) => Some(h@),
                None => None,
            },
        ),
{
    if str_contains(exe, ".cargo/bin") {
        return true;
    }
    if let Some(c) = cargo_home {
        if path_starts_with_text(exe, c) {
            return true;
        }
    }
    if let Some(h) = home {
        let dot_cargo = join_path_text(h, ".cargo");
        let bin = join_path_text(dot_cargo.as_str(), "bin");
        if path_starts_with_text(exe, bin.as_str()) {
            return true;
        }
    }
    false
}

/// The path of a Homebrew installation.
pub open spec fn is_homebrew_path(exe: Seq<char>) -> bool {
    contains_seq(exe, "/homebrew/"@) || contains_seq(exe, "/Cellar/"@)
}

/// How the binary was installed, from its path (when known), the cargo
/// home, the home directory, and whether `brew list polydup` succeeds.
pub open spec fn installation_method(
    exe: Option<Seq<char>>,
    cargo_home: Option<Seq<char>>,
    home: Option<Seq<char>>,
    brew_lists_polydup: bool,
) -> InstallMethod {
    match exe {
        None => InstallMethod::Unknown,
        Some(e) => if is_cargo_path(e, cargo_home, home) {
            InstallMethod::Cargo
        } else if is_homebrew_path(e) || brew_lists_polydup {
            InstallMethod::Homebrew
        } else {
            InstallMethod::Unknown
        },
    }
}

/// Detect how polydup was installed
pub fn detect_installation_method(
    exe: Option<&str>,
    cargo_home: Option<&str>,
    home: Option<&str>,
    brew_lists_polydup: bool,
) -> (r: InstallMethod)
    ensures
        r == installation_method(
            match exe {
                Some(e) => Some(e@),
                None => None,
            },
            match cargo_home {
                Some(c) => Some(c@),
                None => None,
            },
            match home {
                Some(h) => Some(h@),
                None => None,
            },
            brew_lists_polydup,
        ),
{
    match exe {
        None => InstallMethod::Unknown,
        Some(e) => {
            if is_cargo_install(e, cargo_home, home) {
                InstallMethod::Cargo
            } else if str_contains(e, "/homebrew/") || str_contains(e, "/Cellar/") || brew_lists_polydup {
                InstallMethod::Homebrew
            } else {
                InstallMethod::Unknown
            }
        },
    }
}

/// What the upgrade command does after comparing versions.
#[derive(Clone, Copy, Debug, PartialEq, Eq, Structural)]
pub enum UpgradeStep {
    /// Already running the latest version
    UpToDate,
    /// Only report that an update is available
    ReportOnly,
    /// Reinstall with `cargo install`
    ViaCargo,
    /// Upgrade with `brew upgrade`
    ViaHomebrew,
    /// Ask the user to upgrade by hand
    Manual,
}

/// The upgrade step: nothing when the current version is at least the
/// latest and no reinstall is forced; a report with `--check-only`;
/// otherwise the installation method's upgrade.
pub open spec fn upgrade_step_of(
    current: VersionV,
    latest: VersionV,
    check_only: bool,
    force: bool,
    method: InstallMethod,
) -> UpgradeStep {
    if semver_at_least(current, latest) && !force {
        UpgradeStep::UpToDate
    } else if check_only {
        UpgradeStep::ReportOnly
    } else {
        match method {
            InstallMethod::Cargo => UpgradeStep::ViaCargo,
            InstallMethod::Homebrew => UpgradeStep::ViaHomebrew,
            InstallMethod::Unknown => UpgradeStep::Manual,
        }
    }
}

/// Decide the upgrade step.
pub fn upgrade_step(
    current: &SemVer,
    latest: &SemVer,
    check_only: bool,
    force: bool,
    method: InstallMethod,
) -> (r: UpgradeStep)
    ensures
        r == upgrade_step_of(current@, latest@, check_only, force, method),
        current@.0 < latest@.0 ==> r != UpgradeStep::UpToDate,
{
    if version_at_least(current, latest) && !force {
        UpgradeStep::UpToDate
    } else if check_only {
        UpgradeStep::ReportOnly
    } else {
        match method {
            InstallMethod::Cargo => UpgradeStep::ViaCargo,
            InstallMethod::Homebrew => UpgradeStep::ViaHomebrew,
            InstallMethod::Unknown => UpgradeStep::Manual,
        }
    }
}

/// A forced upgrade never stops at "already up to date", and without
/// `--check-only` it always upgrades or asks for a manual upgrade.
pub proof fn lemma_forced_upgrade(current: VersionV, latest: VersionV, check_only: bool, method: InstallMethod)
    ensures
        upgrade_step_of(current, latest, check_only, true, method) != UpgradeStep::UpToDate,
        !check_only ==> upgrade_step_of(current, latest, check_only, true, method)
            != UpgradeStep::ReportOnly,
{
}

/// The arguments of the `cargo` command that upgrades polydup.
pub fn upgrade_via_cargo_args(force: bool) -> (r: Vec<&'static str>)
    ensures
        r@.len() == if force { 3int } else { 2int },
        r@[0]@ == "install"@,
        r@[1]@ == "polydup"@,
        force ==> r@[2]@ == "--force"@,
{
    let mut args = vec!["install", "polydup"];
    if force {
        args.push("--force");
    }
    args
}

// ---------------------------------------------------------------------------
// Update notices
// ---------------------------------------------------------------------------

/// How far a newer version is.
#[derive(Clone, Copy, Debug, PartialEq, Eq, Structural)]
pub enum UpdateStyle {
    Major,
    Minor,
    Patch,
}

/// The kind of an update: major when the major number grows, minor when
/// the minor number grows, a patch otherwise.
pub open spec fn update_style_of(current: VersionV, new: VersionV) -> UpdateStyle {
    if new.0 > current.0 {
        UpdateStyle::Major
    } else if new.1 > current.1 {
        UpdateStyle::Minor
    } else {
        UpdateStyle::Patch
    }
}

/// The update notice for a newer version, as printed on the standard error
/// stream.
pub open spec fn update_notice_text(current: Seq<char>, new: Seq<char>, style: UpdateStyle) -> Seq<char> {
    let (icon, kind, detail) = match style {
        UpdateStyle::Major => (
            "!!"@,
            "Major update available: "@,
            "Breaking changes may be present. Review changelog before updating."@,
        ),
        UpdateStyle::Minor => ("->"@, "Update available: "@, "New features available."@),
        UpdateStyle::Patch => ("->"@, "Patch available: "@, "Bug fixes available."@),
    };
    "\n"@ + icon + " "@ + kind + current + " -> "@ + new + "\n"@ + "   "@ + detail + "\n"@
        + "   Run 'polydup upgrade' or 'cargo install polydup' to update.\n"@ + "\n"@
}

/// Display color-coded update notification based on semver distance: the
/// notice, when both versions parse.
pub fn display_update_notification(current: &str, new_version: &str) -> (r: Option<String>)
    ensures
        match r {
            Some(t) => semver_parse(current@) is Some && semver_parse(new_version@) is Some && t@
                == update_notice_text(
                current@,
                new_version@,
                update_style_of(semver_parse(current@)->0, semver_parse(new_version@)->0),
            ),
            None => semver_parse(current@) is None || semver_parse(new_version@) is None,
        },
{
    let cur = match parse_version(current) {
        Some(v) => v,
        None => {
            return None;
        },
    };
    let new = match parse_version(new_version) {
        Some(v) => v,
        None => {
            return None;
        },
    };
    let style = if new.major > cur.major {
        UpdateStyle::Major
    } else if new.minor > cur.minor {
        UpdateStyle::Minor
    } else {
        UpdateStyle::Patch
    };
    let (icon, kind, detail) = match style {
        UpdateStyle::Major => (
            "!!",
            "Major update available: ",
            "Breaking changes may be present. Review changelog before updating.",
        ),
        UpdateStyle::Minor => ("->", "Update available: ", "New features available."),
        UpdateStyle::Patch => ("->", "Patch available: ", "Bug fixes available."),
    };
    let mut t = owned("\n");
    append_str(&mut t, icon);
    append_str(&mut t, " ");
    append_str(&mut t, kind);
    append_str(&mut t, current);
    append_str(&mut t, " -> ");
    append_str(&mut t, new_version);
    append_str(&mut t, "\n");
    append_str(&mut t, "   ");
    append_str(&mut t, detail);
    append_str(&mut t, "\n");
    append_str(&mut t, "   Run 'polydup upgrade' or 'cargo install polydup' to update.\n");
    append_str(&mut t, "\n");
    Some(t)
}

/// Whether a version text is a valid semantic version.
pub fn is_valid_version(text: &str) -> (r: bool)
    ensures
        r == semver_parse(text@) is Some,
{
    match parse_version(text) {
        Some(_) => true,
        None => false,
    }
}

/// The decision of the upgrade command from the version texts: `None` when
/// either text is not a valid version (the command fails then).
pub fn plan_upgrade(
    current: &str,
    latest: &str,
    check_only: bool,
    force: bool,
    method: InstallMethod,
) -> (r: Option<UpgradeStep>)
    ensures
        match r {
            Some(s) => semver_parse(current@) is Some && semver_parse(latest@) is Some && s
                == upgrade_step_of(
                semver_parse(current@)->0,
                semver_parse(latest@)->0,
                check_only,
                force,
                method,
            ),
            None => semver_parse(current@) is None || semver_parse(latest@) is None,
        },
{
    let cur = match parse_version(current) {
        Some(v) => v,
        None => {
            return None;
        },
    };
    let lat = match parse_version(latest) {
        Some(v) => v,
        None => {
            return None;
        },
    };
    Some(upgrade_step(&cur, &lat, check_only, force, method))
}

} // verus!

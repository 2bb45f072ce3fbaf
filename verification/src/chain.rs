//! The fallback chain that names one requirement.
//!
//! The chain is a sequence of questions, cheapest first. Each question is
//! put to the surroundings, which judge the version, read the file or run
//! the build; the answer decides whether the name is found, the
//! requirement fails, or the next question is asked.

use vstd::prelude::*;
use vstd::pervasive::unreached;
use crate::filename::is_source_dist_shaped;
use crate::filename::parse_source_dist;
use crate::filename::parse_wheel;
use crate::filename::source_dist_name_of;
use crate::filename::wheel_fault;
use crate::filename::wheel_name_of;
use crate::filename::WheelFault;
use crate::locator::has_wheel_extension;
use crate::locator::last_segment;
use crate::locator::source_kind;
use crate::locator::Locator;
use crate::locator::SourceKind;
use crate::metadata::pyproject_name;
use crate::metadata::pyproject_name_of;
use crate::metadata::setup_cfg_name;
use crate::metadata::setup_cfg_name_of;
use crate::name::PackageName;
use crate::pkg_info::pkg_info_name;
use crate::pkg_info::pkg_info_name_of;
use crate::requirement::Requirement;
use crate::requirement::ResolveError;
use crate::requirement::UnnamedRequirement;
use crate::requirement::VersionOrUrl;

verus! {

/// A question of the chain.
#[derive(Debug, Clone, Copy, PartialEq, Eq)]
pub enum Stage {
    /// Judge the version in the file name, read as a wheel's.
    WheelFilename,
    /// Judge the version in the file name, read as a source archive's.
    SourceDistFilename,
    /// Is the path a directory?
    Directory,
    /// Read the text of the directory's `PKG-INFO`.
    PkgInfo,
    /// Read the text of the directory's `pyproject.toml`.
    PyProject,
    /// Read the text of the directory's `setup.cfg`.
    SetupCfg,
    /// Build the source of the given kind and take the name of its metadata.
    Build(SourceKind),
}

/// The place of a question in the chain. Every answer leads to a question
/// of a higher rank or ends the chain, so no question is asked twice.
pub open spec fn rank(stage: Stage) -> int {
    match stage {
        Stage::WheelFilename => 0,
        Stage::SourceDistFilename => 1,
        Stage::Directory => 2,
        Stage::PkgInfo => 3,
        Stage::PyProject => 4,
        Stage::SetupCfg => 5,
        Stage::Build(_) => 6,
    }
}

/// Whether a step ends the chain or asks a question behind `stage`.
pub open spec fn advances(step: StepView, stage: Stage) -> bool {
    match step {
        StepView::Ask(next) => rank(next) > rank(stage),
        _ => true,
    }
}

/// Where the chain stands after an answer.
#[derive(Debug)]
pub enum Step {
    /// The next question.
    Ask(Stage),
    /// The name is found; nothing more is asked.
    Named(PackageName),
    /// The requirement cannot be named; nothing more is asked.
    Failed(ResolveError),
}

/// A step with the name as the characters of its normal form.
pub enum StepView {
    Ask(Stage),
    Named(Seq<char>),
    Failed(ResolveError),
}

impl View for Step {
    type V = StepView;

    open spec fn view(&self) -> StepView {
        match *self {
            Step::Ask(stage) => StepView::Ask(stage),
            Step::Named(name) => StepView::Named(name@),
            Step::Failed(error) => StepView::Failed(error),
        }
    }
}

/// The question that follows once the file name gave no name: none for an
/// unsupported scheme, the directory test for a local path, and the build
/// for everything else.
pub open spec fn after_filenames(locator: Locator) -> StepView {
    match source_kind(locator.scheme@) {
        None => StepView::Failed(ResolveError::UnsupportedScheme(locator.given)),
        Some(SourceKind::Path) => StepView::Ask(Stage::Directory),
        Some(kind) => StepView::Ask(Stage::Build(kind)),
    }
}

/// The first question: the wheel grammar for a file name that ends like a
/// wheel's, the source-distribution convention for any other.
pub fn begin(locator: &Locator) -> (r: Step)
    ensures
        r@ == (if has_wheel_extension(locator.path@) {
            StepView::Ask(Stage::WheelFilename)
        } else {
            StepView::Ask(Stage::SourceDistFilename)
        }),
{
    if locator.is_wheel() {
        Step::Ask(Stage::WheelFilename)
    } else {
        Step::Ask(Stage::SourceDistFilename)
    }
}

/// What the wheel grammar makes of the locator's file name, given the
/// verdict on the version in it: the name, or what is wrong.
pub open spec fn wheel_found(locator: Locator, version: Result<(), String>) -> Result<
    Seq<char>,
    ResolveError,
> {
    let file_name = last_segment(locator.path@);
    match wheel_fault(file_name) {
        Some(fault) => Err(ResolveError::MalformedFilename(fault)),
        None => match version {
            Ok(_) => Ok(wheel_name_of(file_name)),
            Err(why) => Err(ResolveError::MalformedFilename(WheelFault::InvalidVersion(why))),
        },
    }
}

/// What the convention of source archives makes of the locator's file
/// name, given whether the version in it is one: the name, or nothing.
pub open spec fn source_dist_found(locator: Locator, version_is_valid: bool) -> Option<Seq<char>> {
    let file_name = last_segment(locator.path@);
    if is_source_dist_shaped(file_name) && version_is_valid {
        Some(source_dist_name_of(file_name))
    } else {
        None
    }
}

/// After the wheel grammar: its name, or a fatal error. Nothing else is
/// tried for a file name that ends like a wheel's. The verdict on the
/// version counts only where the file name is well shaped.
pub fn after_wheel_filename(locator: &Locator, version: Result<(), String>) -> (r: Step)
    ensures
        advances(r@, Stage::WheelFilename),
        r@ == (match wheel_found(*locator, version) {
            Ok(name) => StepView::Named(name),
            Err(error) => StepView::Failed(error),
        }),
{
    let file_name: String = locator.file_name();
    match parse_wheel(file_name.as_str()) {
        Err(fault) => Step::Failed(ResolveError::MalformedFilename(fault)),
        Ok(parts) => match version {
            Ok(_) => Step::Named(parts.name),
            Err(why) => Step::Failed(
                ResolveError::MalformedFilename(WheelFault::InvalidVersion(why)),
            ),
        },
    }
}

/// After the convention of source archives: its name, or else the locator
/// is classified by its scheme.
pub fn after_source_dist_filename(locator: &Locator, version_is_valid: bool) -> (r: Step)
    ensures
        advances(r@, Stage::SourceDistFilename),
        r@ == (match source_dist_found(*locator, version_is_valid) {
            Some(name) => StepView::Named(name),
            None => after_filenames(*locator),
        }),
{
    let file_name: String = locator.file_name();
    let found: Option<PackageName> = match parse_source_dist(file_name.as_str()) {
        Some(parts) => if version_is_valid {
            Some(parts.name)
        } else {
            None
        },
        None => None,
    };
    match found {
        Some(name) => Step::Named(name),
        None => match locator.classify() {
            Ok(SourceKind::Path) => Step::Ask(Stage::Directory),
            Ok(kind) => Step::Ask(Stage::Build(kind)),
            Err(error) => Step::Failed(error),
        },
    }
}

/// After the directory test: static metadata is read from a directory
/// only; a file goes to the build.
pub fn after_directory(is_directory: bool) -> (r: Step)
    ensures
        advances(r@, Stage::Directory),
        r@ == (if is_directory {
            StepView::Ask(Stage::PkgInfo)
        } else {
            StepView::Ask(Stage::Build(SourceKind::Path))
        }),
{
    if is_directory {
        Step::Ask(Stage::PkgInfo)
    } else {
        Step::Ask(Stage::Build(SourceKind::Path))
    }
}

/// The name that the text of a legacy metadata file gives, if the file
/// could be read at all.
pub open spec fn pkg_info_found(text: Option<String>) -> Option<Seq<char>> {
    match text {
        Some(contents) => pkg_info_name_of(contents@),
        None => None,
    }
}

/// After `PKG-INFO`: the name it gives wins over every later reader.
pub fn after_pkg_info(text: Option<String>) -> (r: Step)
    ensures
        advances(r@, Stage::PkgInfo),
        r@ == (match pkg_info_found(text) {
            Some(name) => StepView::Named(name),
            None => StepView::Ask(Stage::PyProject),
        }),
{
    let found: Option<PackageName> = match text {
        Some(contents) => pkg_info_name(contents.as_str()),
        None => None,
    };
    match found {
        Some(name) => Step::Named(name),
        None => Step::Ask(Stage::PyProject),
    }
}

/// The name that the text of a project descriptor gives, if the file could
/// be read at all.
pub open spec fn pyproject_found(text: Option<String>) -> Option<Seq<char>> {
    match text {
        Some(contents) => pyproject_name_of(contents@),
        None => None,
    }
}

/// The name that the text of a setup configuration gives, if the file could
/// be read at all.
pub open spec fn setup_cfg_found(text: Option<String>) -> Option<Seq<char>> {
    match text {
        Some(contents) => setup_cfg_name_of(contents@),
        None => None,
    }
}

/// After `pyproject.toml`: the name it gives, or on to `setup.cfg`.
pub fn after_pyproject(text: Option<String>) -> (r: Step)
    ensures
        advances(r@, Stage::PyProject),
        r@ == (match pyproject_found(text) {
            Some(name) => StepView::Named(name),
            None => StepView::Ask(Stage::SetupCfg),
        }),
{
    let found: Option<PackageName> = match text {
        Some(contents) => pyproject_name(contents.as_str()),
        None => None,
    };
    match found {
        Some(name) => Step::Named(name),
        None => Step::Ask(Stage::SetupCfg),
    }
}

/// After `setup.cfg`: the name it gives, or on to the build.
pub fn after_setup_cfg(text: Option<String>) -> (r: Step)
    ensures
        advances(r@, Stage::SetupCfg),
        r@ == (match setup_cfg_found(text) {
            Some(name) => StepView::Named(name),
            None => StepView::Ask(Stage::Build(SourceKind::Path)),
        }),
{
    let found: Option<PackageName> = match text {
        Some(contents) => setup_cfg_name(contents.as_str()),
        None => None,
    };
    match found {
        Some(name) => Step::Named(name),
        None => Step::Ask(Stage::Build(SourceKind::Path)),
    }
}

/// After the build: the name of its metadata, or a fatal error that holds
/// the cause.
pub fn after_build(built: Result<PackageName, String>) -> (r: Step)
    ensures
        advances(r@, Stage::Build(SourceKind::Path)),
        r@ == (match built {
            Ok(name) => StepView::Named(name@),
            Err(cause) => StepView::Failed(ResolveError::Build(cause)),
        }),
{
    match built {
        Ok(name) => Step::Named(name),
        Err(cause) => Step::Failed(ResolveError::Build(cause)),
    }
}

/// What every question of the chain would be answered for one requirement.
#[derive(Debug)]
pub struct Evidence {
    /// The verdict on the version in a wheel's file name: the complaint
    /// where it is no version.
    pub wheel_version: Result<(), String>,
    /// Whether the version in a source archive's file name is one.
    pub source_dist_version: bool,
    /// Whether a local path is a directory.
    pub is_directory: bool,
    /// The text of `PKG-INFO`, where it can be read.
    pub pkg_info: Option<String>,
    /// The text of `pyproject.toml`, where it can be read.
    pub pyproject: Option<String>,
    /// The text of `setup.cfg`, where it can be read.
    pub setup_cfg: Option<String>,
    /// The build: the name of its metadata, or the cause of its failure.
    pub build: Result<PackageName, String>,
}

/// The name that the static readers find in a directory, in their fixed
/// order: the first that gives one wins.
pub open spec fn static_name(evidence: Evidence) -> Option<Seq<char>> {
    if pkg_info_found(evidence.pkg_info).is_some() {
        pkg_info_found(evidence.pkg_info)
    } else if pyproject_found(evidence.pyproject).is_some() {
        pyproject_found(evidence.pyproject)
    } else {
        setup_cfg_found(evidence.setup_cfg)
    }
}

/// The name that the build gives, or the error that wraps its cause.
pub open spec fn built_name(evidence: Evidence) -> Result<Seq<char>, ResolveError> {
    match evidence.build {
        Ok(name) => Ok(name@),
        Err(cause) => Err(ResolveError::Build(cause)),
    }
}

/// The outcome of the whole chain on one locator.
pub open spec fn name_found(locator: Locator, evidence: Evidence) -> Result<
    Seq<char>,
    ResolveError,
> {
    if has_wheel_extension(locator.path@) {
        wheel_found(locator, evidence.wheel_version)
    } else if source_dist_found(locator, evidence.source_dist_version).is_some() {
        Ok(source_dist_found(locator, evidence.source_dist_version).unwrap())
    } else {
        match source_kind(locator.scheme@) {
            None => Err(ResolveError::UnsupportedScheme(locator.given)),
            Some(SourceKind::Path) => if evidence.is_directory && static_name(evidence).is_some() {
                Ok(static_name(evidence).unwrap())
            } else {
                built_name(evidence)
            },
            Some(_) => built_name(evidence),
        }
    }
}

/// A file name that ends like a wheel's decides alone: whatever the
/// directory holds and whatever a build would give, the outcome is the
/// wheel grammar's, its name or its complaint.
pub proof fn lemma_wheel_filename_decides(locator: Locator, evidence: Evidence, other: Evidence)
    requires
        has_wheel_extension(locator.path@),
        evidence.wheel_version == other.wheel_version,
    ensures
        name_found(locator, evidence) == name_found(locator, other),
        evidence.wheel_version.is_err() ==> name_found(locator, evidence).is_err(),
        wheel_fault(last_segment(locator.path@)).is_some() ==> name_found(locator, evidence).is_err(),
{
}

/// A name found by a static reader never depends on the build, and a name
/// in `PKG-INFO` never on the readers behind it.
pub proof fn lemma_first_reader_wins(locator: Locator, evidence: Evidence, other: Evidence)
    requires
        !has_wheel_extension(locator.path@),
        source_dist_found(locator, evidence.source_dist_version).is_none(),
        source_dist_found(locator, other.source_dist_version).is_none(),
        source_kind(locator.scheme@) == Some(SourceKind::Path),
        evidence.is_directory,
        other.is_directory,
        evidence.pkg_info == other.pkg_info,
        pkg_info_found(evidence.pkg_info).is_some(),
    ensures
        name_found(locator, evidence) == name_found(locator, other),
        name_found(locator, evidence) == Ok::<Seq<char>, ResolveError>(
            pkg_info_found(evidence.pkg_info).unwrap(),
        ),
{
}

/// A locator with an unsupported scheme, whose file name gives no name,
/// fails whatever else is at hand, and the error holds the locator.
pub proof fn lemma_unsupported_scheme_fails(locator: Locator, evidence: Evidence)
    requires
        !has_wheel_extension(locator.path@),
        source_dist_found(locator, evidence.source_dist_version).is_none(),
        source_kind(locator.scheme@).is_none(),
    ensures
        name_found(locator, evidence) == Err::<Seq<char>, ResolveError>(
            ResolveError::UnsupportedScheme(locator.given),
        ),
{
}

/// Runs the chain on one locator, with every answer at hand.
pub fn name_with(locator: &Locator, evidence: Evidence) -> (r: Result<PackageName, ResolveError>)
    ensures
        match name_found(*locator, evidence) {
            Ok(name) => r.is_ok() && r.unwrap()@ == name,
            Err(error) => r == Err::<PackageName, ResolveError>(error),
        },
{
    let Evidence {
        wheel_version,
        source_dist_version,
        is_directory,
        pkg_info,
        pyproject,
        setup_cfg,
        build,
    } = evidence;
    let step = begin(locator);
    let step = match step {
        Step::Ask(Stage::WheelFilename) => after_wheel_filename(locator, wheel_version),
        Step::Ask(Stage::SourceDistFilename) => after_source_dist_filename(
            locator,
            source_dist_version,
        ),
        other => other,
    };
    let step = match step {
        Step::Ask(Stage::Directory) => after_directory(is_directory),
        other => other,
    };
    let step = match step {
        Step::Ask(Stage::PkgInfo) => after_pkg_info(pkg_info),
        other => other,
    };
    let step = match step {
        Step::Ask(Stage::PyProject) => after_pyproject(pyproject),
        other => other,
    };
    let step = match step {
        Step::Ask(Stage::SetupCfg) => after_setup_cfg(setup_cfg),
        other => other,
    };
    let step = match step {
        Step::Ask(Stage::Build(_)) => after_build(build),
        other => other,
    };
    match step {
        Step::Named(name) => Ok(name),
        Step::Failed(error) => Err(error),
        Step::Ask(_) => {
            proof {
                assert(false);
            }
            unreached()
        },
    }
}

/// Names one requirement, with every answer at hand: the name is the
/// chain's, extras and marker are copied over, and the requirement is
/// pinned to the literal locator.
pub fn resolve_with(requirement: UnnamedRequirement, evidence: Evidence) -> (r: Result<
    Requirement,
    ResolveError,
>)
    ensures
        match name_found(requirement.url, evidence) {
            Ok(name) => {
                &&& r.is_ok()
                &&& r.unwrap().name@ == name
                &&& r.unwrap().extras == requirement.extras
                &&& r.unwrap().marker == requirement.marker
                &&& r.unwrap().version_or_url == Some(VersionOrUrl::Url(requirement.url))
            },
            Err(error) => r == Err::<Requirement, ResolveError>(error),
        },
{
    match name_with(&requirement.url, evidence) {
        Ok(name) => Ok(requirement.named(name)),
        Err(error) => Err(error),
    }
}

} // verus!

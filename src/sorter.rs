use crate::classify::{
    extension_of, find_rule_for_content, is_hidden_name, is_first_rule_for, lemma_first_rule_unique,
    lower_of, route_name, route_of_name, NameRoute,
};
use crate::settings::{Settings, SettingsView};
use std::fmt::Write;
use vstd::prelude::*;

verus! {

/// What a path was found to be on disk.
#[derive(PartialEq, Eq, Structural, Clone, Copy, Debug)]
pub enum PathKind {
    Missing,
    Directory,
    /// It exists and is not a directory.
    Other,
}

/// Why a sort run stops.
#[derive(PartialEq, Eq, Structural, Clone, Copy, Debug)]
pub enum SortError {
    /// The settings name no source directory.
    NotInitialized,
    /// The source at this index does not exist.
    SourceMissing(usize),
    /// The source at this index exists and is not a directory.
    SourceNotDirectory(usize),
    /// The destination exists and is not a directory.
    DestinationNotDirectory,
    /// The directory to be ensured at this index exists and is not one.
    NotADirectory(usize),
    /// The date folder's name could not be formatted.
    BadDatePattern,
}

/// The first source at or after `i` that is not a directory.
pub open spec fn first_bad_source(sources: Seq<PathKind>, i: int) -> Option<int>
    decreases sources.len() - i,
{
    if i < 0 || i >= sources.len() {
        None
    } else if sources[i] != PathKind::Directory {
        Some(i)
    } else {
        first_bad_source(sources, i + 1)
    }
}

/// The verdict on a run's paths before any file is touched: there must be
/// a source, every source must be a directory, and the destination must be a
/// directory or missing (it is then created).
pub open spec fn paths_verdict(sources: Seq<PathKind>, destination: PathKind) -> Result<(), SortError> {
    if sources.len() == 0 {
        Err(SortError::NotInitialized)
    } else {
        match first_bad_source(sources, 0) {
            Some(i) => if sources[i] == PathKind::Missing {
                Err(SortError::SourceMissing(i as usize))
            } else {
                Err(SortError::SourceNotDirectory(i as usize))
            },
            None => if destination == PathKind::Other {
                Err(SortError::DestinationNotDirectory)
            } else {
                Ok(())
            },
        }
    }
}

/// Checks the configured sources, in order, and then the destination.
pub fn check_paths(sources: &Vec<PathKind>, destination: PathKind) -> (r: Result<(), SortError>)
    ensures
        r == paths_verdict(sources@, destination),
{
    if sources.len() == 0 {
        return Err(SortError::NotInitialized);
    }
    let mut i: usize = 0;
    while i < sources.len()
        invariant
            i <= sources@.len(),
            first_bad_source(sources@, 0) == first_bad_source(sources@, i as int),
        decreases sources@.len() - i,
    {
        match sources[i] {
            PathKind::Missing => return Err(SortError::SourceMissing(i)),
            PathKind::Other => return Err(SortError::SourceNotDirectory(i)),
            PathKind::Directory => {},
        }
        i = i + 1;
    }
    if destination == PathKind::Other {
        Err(SortError::DestinationNotDirectory)
    } else {
        Ok(())
    }
}

/// The first directory to be ensured at or after `i` that exists as
/// something else.
pub open spec fn first_blocked(dirs: Seq<PathKind>, i: int) -> Option<int>
    decreases dirs.len() - i,
{
    if i < 0 || i >= dirs.len() {
        None
    } else if dirs[i] == PathKind::Other {
        Some(i)
    } else {
        first_blocked(dirs, i + 1)
    }
}

/// Decides, for directories that must exist, which ones to create: each
/// missing one. Fails on the first that exists and is not a directory, in
/// which case none is to be created.
pub fn create_dirs(dirs: &Vec<PathKind>) -> (r: Result<Vec<bool>, SortError>)
    ensures
        match r {
            Ok(create) => first_blocked(dirs@, 0) is None && create@.len() == dirs@.len()
                && forall|i: int| 0 <= i < dirs@.len() ==> create@[i] == (dirs@[i] == PathKind::Missing),
            Err(e) => first_blocked(dirs@, 0) matches Some(i) && e == SortError::NotADirectory(i as usize),
        },
{
    let mut create: Vec<bool> = Vec::new();
    let mut i: usize = 0;
    while i < dirs.len()
        invariant
            i <= dirs@.len(),
            first_blocked(dirs@, 0) == first_blocked(dirs@, i as int),
            create@.len() == i,
            forall|j: int| 0 <= j < i ==> create@[j] == (dirs@[j] == PathKind::Missing),
        decreases dirs@.len() - i,
    {
        if dirs[i] == PathKind::Other {
            return Err(SortError::NotADirectory(i));
        }
        create.push(dirs[i] == PathKind::Missing);
        i = i + 1;
    }
    Ok(create)
}

/// The UTC time `secs` seconds after the Unix epoch, written with the
/// strftime-style `pattern`; none where the time is out of range or the
/// pattern is not valid.
pub uninterp spec fn utc_formatted(secs: int, pattern: Seq<char>) -> Option<Seq<char>>;

/// Relies on chrono's DateTime::<Utc>::from_timestamp and DateTime::format:
/// the text depends on the instant and the pattern alone; from_timestamp
/// returns None out of range, and formatting fails on an invalid pattern.
#[verifier::external_body]
fn format_utc(secs: i64, pattern: &str) -> (r: Option<String>)
    ensures
        match r {
            Some(text) => utc_formatted(secs as int, pattern@) == Some(text@),
            None => utc_formatted(secs as int, pattern@) is None,
        },
{
    let time = chrono::DateTime::<chrono::Utc>::from_timestamp(secs, 0)?;
    let mut text = String::new();
    match write!(text, "{}", time.format(pattern)) {
        Ok(()) => Some(text),
        Err(_) => None,
    }
}

/// The directories, below the destination, that a file sorted by rule `i`
/// goes to: the date folder first when it is used, then the rule's
/// subdirectory.
pub open spec fn target_dirs(s: SettingsView, i: int, secs: int) -> Result<Seq<Seq<char>>, SortError> {
    if s.use_date_pattern {
        match utc_formatted(secs, s.date_pattern) {
            Some(folder) => Ok(seq![folder, s.rules[i].destination]),
            None => Err(SortError::BadDatePattern),
        }
    } else {
        Ok(seq![s.rules[i].destination])
    }
}

/// A list of directory names as plain values.
pub open spec fn dirs_view(r: Result<Vec<String>, SortError>) -> Result<Seq<Seq<char>>, SortError> {
    match r {
        Ok(dirs) => Ok(dirs.deep_view()),
        Err(e) => Err(e),
    }
}

/// The directories, below the destination, for a file that rule `rule`
/// sorts and that was last modified `modified_secs` seconds after the epoch.
pub fn destination_dirs(settings: &Settings, rule: usize, modified_secs: i64) -> (r: Result<
    Vec<String>,
    SortError,
>)
    requires
        rule < settings.sort_patterns@.len(),
    ensures
        dirs_view(r) == target_dirs(settings@, rule as int, modified_secs as int),
{
    let mut dirs: Vec<String> = Vec::new();
    if settings.use_date_pattern {
        match format_utc(modified_secs, settings.date_pattern.as_str()) {
            Some(folder) => dirs.push(folder),
            None => return Err(SortError::BadDatePattern),
        }
    }
    dirs.push(settings.sort_patterns[rule].destination.clone());
    assert(dirs.deep_view() =~= target_dirs(settings@, rule as int, modified_secs as int)->Ok_0);
    Ok(dirs)
}

/// What becomes of one file, as plain values.
pub enum Placement {
    Ignore,
    Stay,
    /// Moved, under its own name, into these directories below the
    /// destination.
    MoveTo(Seq<Seq<char>>),
}

/// What becomes of one file.
#[derive(Debug)]
pub enum FilePlan {
    /// A dotfile: never moved.
    Ignore,
    /// No rule takes it: left where it is.
    Stay,
    /// Moved, under its own name, into these directories below the
    /// destination, the first one outermost.
    MoveTo(Vec<String>),
}

impl View for FilePlan {
    type V = Placement;

    open spec fn view(&self) -> Placement {
        match self {
            FilePlan::Ignore => Placement::Ignore,
            FilePlan::Stay => Placement::Stay,
            FilePlan::MoveTo(dirs) => Placement::MoveTo(dirs.deep_view()),
        }
    }
}

/// A plan as plain values.
pub open spec fn plan_view(r: Result<FilePlan, SortError>) -> Result<Placement, SortError> {
    match r {
        Ok(plan) => Ok(plan@),
        Err(e) => Err(e),
    }
}

/// Moving a file by rule `i`.
pub open spec fn move_by(s: SettingsView, i: int, secs: int) -> Result<Placement, SortError> {
    match target_dirs(s, i, secs) {
        Ok(dirs) => Ok(Placement::MoveTo(dirs)),
        Err(e) => Err(e),
    }
}

/// What becomes of the file named `name`, modified `secs` seconds after the
/// epoch, where `content_rule` is the rule that its content was found to
/// match (consulted only for a name without an extension).
pub open spec fn plan_of(s: SettingsView, name: Seq<char>, secs: int, content_rule: Option<int>) -> Result<
    Placement,
    SortError,
> {
    match route_of_name(s.rules, name) {
        NameRoute::Hidden => Ok(Placement::Ignore),
        NameRoute::NoRule => Ok(Placement::Stay),
        NameRoute::Rule(i) => move_by(s, i as int, secs),
        NameRoute::ProbeContent => match content_rule {
            Some(i) => move_by(s, i, secs),
            None => Ok(Placement::Stay),
        },
    }
}

fn plan_routed(settings: &Settings, route: NameRoute, content_rule: Option<usize>, modified_secs: i64) -> (r:
    Result<FilePlan, SortError>)
    requires
        route matches NameRoute::Rule(i) ==> i < settings.sort_patterns@.len(),
        content_rule matches Some(i) ==> i < settings.sort_patterns@.len(),
    ensures
        plan_view(r) == match route {
            NameRoute::Hidden => Ok(Placement::Ignore),
            NameRoute::NoRule => Ok(Placement::Stay),
            NameRoute::Rule(i) => move_by(settings@, i as int, modified_secs as int),
            NameRoute::ProbeContent => match content_rule {
                Some(i) => move_by(settings@, i as int, modified_secs as int),
                None => Ok(Placement::Stay),
            },
        },
{
    let rule = match route {
        NameRoute::Hidden => return Ok(FilePlan::Ignore),
        NameRoute::NoRule => return Ok(FilePlan::Stay),
        NameRoute::Rule(i) => i,
        NameRoute::ProbeContent => match content_rule {
            Some(i) => i,
            None => return Ok(FilePlan::Stay),
        },
    };
    match destination_dirs(settings, rule, modified_secs) {
        Ok(dirs) => Ok(FilePlan::MoveTo(dirs)),
        Err(e) => Err(e),
    }
}

/// What becomes of the file named `file_name`, last modified
/// `modified_secs` seconds after the epoch, given the rule that its content
/// was found to match, if any (consulted only for a name without an
/// extension).
pub fn plan_with_content_rule(
    settings: &Settings,
    file_name: &str,
    content_rule: Option<usize>,
    modified_secs: i64,
) -> (r: Result<FilePlan, SortError>)
    requires
        content_rule matches Some(i) ==> i < settings.sort_patterns@.len(),
    ensures
        plan_view(r) == plan_of(
            settings@,
            file_name@,
            modified_secs as int,
            match content_rule {
                Some(i) => Some(i as int),
                None => None,
            },
        ),
{
    let route = route_name(&settings.sort_patterns, file_name);
    proof {
        lemma_route_in_range(settings@, file_name@);
    }
    plan_routed(settings, route, content_rule, modified_secs)
}

/// What becomes of the file at `path`, named `file_name` and last modified
/// `modified_secs` seconds after the epoch. A name without an extension
/// has its content probed; whatever the probe finds, the file either stays
/// or is moved by a rule that lists a content type.
pub fn plan_file(settings: &Settings, path: &str, file_name: &str, modified_secs: i64) -> (r: Result<
    FilePlan,
    SortError,
>)
    ensures
        route_of_name(settings@.rules, file_name@) != NameRoute::ProbeContent ==> plan_view(r)
            == plan_of(settings@, file_name@, modified_secs as int, None),
        route_of_name(settings@.rules, file_name@) == NameRoute::ProbeContent ==> {
            ||| plan_view(r) == plan_of(settings@, file_name@, modified_secs as int, None)
            ||| exists|i: int|
                0 <= i < settings@.rules.len() && settings@.rules[i].mime_types.len() > 0
                    && plan_view(r) == #[trigger] plan_of(
                    settings@,
                    file_name@,
                    modified_secs as int,
                    Some(i),
                )
        },
{
    let route = route_name(&settings.sort_patterns, file_name);
    proof {
        lemma_route_in_range(settings@, file_name@);
    }
    let content_rule = if route == NameRoute::ProbeContent {
        find_rule_for_content(&settings.sort_patterns, path)
    } else {
        None
    };
    let r = plan_routed(settings, route, content_rule, modified_secs);
    proof {
        if let Some(i) = content_rule {
            assert(plan_view(r) == plan_of(settings@, file_name@, modified_secs as int, Some(i as int)));
        }
    }
    r
}

/// The first rule wins: a file whose lowercased extension the rule `i`
/// lists, and no earlier rule does, is moved by rule `i`, whatever later
/// rules list it too.
pub proof fn lemma_first_matching_rule_wins(
    s: SettingsView,
    name: Seq<char>,
    secs: int,
    content_rule: Option<int>,
    i: int,
)
    requires
        s.rules.len() <= usize::MAX,
        !is_hidden_name(name),
        extension_of(name) is Some,
        is_first_rule_for(s.rules, lower_of(extension_of(name)->0), i),
    ensures
        plan_of(s, name, secs, content_rule) == move_by(s, i, secs),
{
    lemma_first_rule_unique(s.rules, lower_of(extension_of(name)->0), i);
}

/// A file whose lowercased extension exactly one rule lists is moved,
/// under its own name, into that rule's subdirectory of the destination
/// when no date folder is used.
pub proof fn lemma_single_matching_rule_routes(
    s: SettingsView,
    name: Seq<char>,
    secs: int,
    content_rule: Option<int>,
    i: int,
)
    requires
        s.rules.len() <= usize::MAX,
        !is_hidden_name(name),
        !s.use_date_pattern,
        extension_of(name) is Some,
        0 <= i < s.rules.len(),
        s.rules[i].extensions.contains(lower_of(extension_of(name)->0)),
        forall|j: int|
            0 <= j < s.rules.len() && j != i ==> !#[trigger] s.rules[j].extensions.contains(
                lower_of(extension_of(name)->0),
            ),
    ensures
        plan_of(s, name, secs, content_rule) == Ok::<Placement, SortError>(
            Placement::MoveTo(seq![s.rules[i].destination]),
        ),
{
    lemma_first_matching_rule_wins(s, name, secs, content_rule, i);
}

/// A file whose lowercased extension no rule lists is never moved: it
/// stays (or is ignored, as a dotfile), and as its name is unchanged, every
/// later run, at any time, leaves it where it is again.
pub proof fn lemma_unmatched_file_stays(s: SettingsView, name: Seq<char>)
    requires
        extension_of(name) is Some,
        forall|j: int|
            0 <= j < s.rules.len() ==> !#[trigger] s.rules[j].extensions.contains(
                lower_of(extension_of(name)->0),
            ),
    ensures
        forall|secs: int, content_rule: Option<int>|
            #[trigger] plan_of(s, name, secs, content_rule) == if is_hidden_name(name) {
                Ok::<Placement, SortError>(Placement::Ignore)
            } else {
                Ok::<Placement, SortError>(Placement::Stay)
            },
{
    let e = lower_of(extension_of(name)->0);
    assert(forall|k: int| !is_first_rule_for(s.rules, e, k));
}

proof fn lemma_route_in_range(s: SettingsView, name: Seq<char>)
    ensures
        route_of_name(s.rules, name) matches NameRoute::Rule(i) ==> i < s.rules.len(),
{
    if let Some(ext) = extension_of(name) {
        let e = lower_of(ext);
        if exists|i: int| is_first_rule_for(s.rules, e, i) {
            let k = choose|i: int| is_first_rule_for(s.rules, e, i);
            assert(is_first_rule_for(s.rules, e, k));
        }
    }
}

} // verus!

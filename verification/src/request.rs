//! The build request: every flag of one invocation, parsed and put together.
//! The first value that does not parse stops the whole request.

use vstd::prelude::*;
use vstd::string::*;

use crate::changelog::{changelog_of, parse_changelog, ChangelogEntry, ChangelogView};
use crate::dependency::{
    dependency_error, dependency_of, parse_dependency, DependencyConstraint, DependencyView,
};
use crate::error::{AppError, ErrorKind, ErrorView};
use crate::files::{file_mapping_of, parse_file_mapping, FileEntry, FileKind, FileView};
use crate::text::views_of;

verus! {

/// The flags of one invocation, as they were written. A flag that takes one
/// value is absent or has its value; a flag that may be repeated has its
/// values in the order in which they were given.
#[derive(Debug, Clone, PartialEq, Eq)]
pub struct FlagSet {
    pub name: Option<String>,
    pub version: Option<String>,
    pub license: Option<String>,
    pub arch: Option<String>,
    pub release: Option<String>,
    pub description: Option<String>,
    pub exec_files: Vec<String>,
    pub doc_files: Vec<String>,
    pub config_files: Vec<String>,
    pub changelog: Vec<String>,
    pub requires: Vec<String>,
    pub provides: Vec<String>,
    pub obsoletes: Vec<String>,
    pub conflicts: Vec<String>,
}

/// The mathematical value of a [`FlagSet`].
pub struct FlagSetView {
    pub name: Option<Seq<char>>,
    pub version: Option<Seq<char>>,
    pub license: Option<Seq<char>>,
    pub arch: Option<Seq<char>>,
    pub release: Option<Seq<char>>,
    pub description: Option<Seq<char>>,
    pub exec_files: Seq<Seq<char>>,
    pub doc_files: Seq<Seq<char>>,
    pub config_files: Seq<Seq<char>>,
    pub changelog: Seq<Seq<char>>,
    pub requires: Seq<Seq<char>>,
    pub provides: Seq<Seq<char>>,
    pub obsoletes: Seq<Seq<char>>,
    pub conflicts: Seq<Seq<char>>,
}

/// The characters of a value that may be absent.
pub open spec fn text_of(value: Option<String>) -> Option<Seq<char>> {
    match value {
        Some(text) => Some(text@),
        None => None,
    }
}

impl View for FlagSet {
    type V = FlagSetView;

    open spec fn view(&self) -> FlagSetView {
        FlagSetView {
            name: text_of(self.name),
            version: text_of(self.version),
            license: text_of(self.license),
            arch: text_of(self.arch),
            release: text_of(self.release),
            description: text_of(self.description),
            exec_files: views_of(self.exec_files@),
            doc_files: views_of(self.doc_files@),
            config_files: views_of(self.config_files@),
            changelog: views_of(self.changelog@),
            requires: views_of(self.requires@),
            provides: views_of(self.provides@),
            obsoletes: views_of(self.obsoletes@),
            conflicts: views_of(self.conflicts@),
        }
    }
}

/// All that the packaging backend is told about one package.
#[derive(Debug, Clone, PartialEq, Eq)]
pub struct PackageBuildRequest {
    pub name: String,
    pub version: String,
    pub license: String,
    pub architecture: String,
    pub description: String,
    pub release: String,
    pub files: Vec<FileEntry>,
    pub changelog: Vec<ChangelogEntry>,
    pub requires: Vec<DependencyConstraint>,
    pub provides: Vec<DependencyConstraint>,
    pub obsoletes: Vec<DependencyConstraint>,
    pub conflicts: Vec<DependencyConstraint>,
}

/// The mathematical value of a [`PackageBuildRequest`].
pub struct RequestView {
    pub name: Seq<char>,
    pub version: Seq<char>,
    pub license: Seq<char>,
    pub architecture: Seq<char>,
    pub description: Seq<char>,
    pub release: Seq<char>,
    pub files: Seq<FileView>,
    pub changelog: Seq<ChangelogView>,
    pub requires: Seq<DependencyView>,
    pub provides: Seq<DependencyView>,
    pub obsoletes: Seq<DependencyView>,
    pub conflicts: Seq<DependencyView>,
}

/// The values of a sequence of file entries.
pub open spec fn file_views(files: Seq<FileEntry>) -> Seq<FileView> {
    files.map_values(|f: FileEntry| f@)
}

/// The values of a sequence of changelog entries.
pub open spec fn changelog_views(entries: Seq<ChangelogEntry>) -> Seq<ChangelogView> {
    entries.map_values(|e: ChangelogEntry| e@)
}

/// The values of a sequence of dependency constraints.
pub open spec fn dependency_views(constraints: Seq<DependencyConstraint>) -> Seq<DependencyView> {
    constraints.map_values(|d: DependencyConstraint| d@)
}

impl View for PackageBuildRequest {
    type V = RequestView;

    open spec fn view(&self) -> RequestView {
        RequestView {
            name: self.name@,
            version: self.version@,
            license: self.license@,
            architecture: self.architecture@,
            description: self.description@,
            release: self.release@,
            files: file_views(self.files@),
            changelog: changelog_views(self.changelog@),
            requires: dependency_views(self.requires@),
            provides: dependency_views(self.provides@),
            obsoletes: dependency_views(self.obsoletes@),
            conflicts: dependency_views(self.conflicts@),
        }
    }
}

/// What a sequence of outcomes comes to: the values in their order where all
/// are values, and else the first error.
pub open spec fn collect<T>(outcomes: Seq<Result<T, ErrorView>>) -> Result<Seq<T>, ErrorView>
    decreases outcomes.len(),
{
    if outcomes.len() == 0 {
        Ok(Seq::empty())
    } else {
        match collect(outcomes.drop_last()) {
            Err(e) => Err(e),
            Ok(items) => match outcomes.last() {
                Ok(item) => Ok(items.push(item)),
                Err(e) => Err(e),
            },
        }
    }
}

/// The outcome of reading `raw` as a dependency.
pub open spec fn dependency_outcome(raw: Seq<char>) -> Result<DependencyView, ErrorView> {
    match dependency_of(raw) {
        Some(d) => Ok(d),
        None => Err(dependency_error(raw)),
    }
}

/// The file entries of one flag family.
pub open spec fn files_of(raws: Seq<Seq<char>>, kind: FileKind) -> Result<Seq<FileView>, ErrorView> {
    collect(raws.map_values(|raw: Seq<char>| file_mapping_of(raw, kind)))
}

/// The changelog entries.
pub open spec fn changelogs_of(raws: Seq<Seq<char>>) -> Result<Seq<ChangelogView>, ErrorView> {
    collect(raws.map_values(|raw: Seq<char>| changelog_of(raw)))
}

/// The dependency constraints of one flag family.
pub open spec fn dependencies_of(raws: Seq<Seq<char>>) -> Result<Seq<DependencyView>, ErrorView> {
    collect(raws.map_values(|raw: Seq<char>| dependency_outcome(raw)))
}

/// The value of a flag, or `default` where the flag is absent.
pub open spec fn or_default(value: Option<Seq<char>>, default: Seq<char>) -> Seq<char> {
    match value {
        Some(text) => text,
        None => default,
    }
}

/// The error for an invocation without a package name.
pub open spec fn usage_error() -> ErrorView {
    ErrorView { kind: ErrorKind::Usage, cause: "the package name is required"@ }
}

/// The build request that a set of flags comes to.
///
/// The name must be there. The families are read in this order: executable
/// files, configuration files, documentation files, changelog, requires,
/// obsoletes, conflicts, provides; the first value that does not parse is the
/// error of the whole. The files of the three file families stand in one
/// list, in the order in which they were read.
pub open spec fn request_of(flags: FlagSetView) -> Result<RequestView, ErrorView> {
    let exec_files = files_of(flags.exec_files, FileKind::Executable);
    let config_files = files_of(flags.config_files, FileKind::Config);
    let doc_files = files_of(flags.doc_files, FileKind::Doc);
    let changelog = changelogs_of(flags.changelog);
    let required = dependencies_of(flags.requires);
    let obsoletes = dependencies_of(flags.obsoletes);
    let conflicts = dependencies_of(flags.conflicts);
    let provides = dependencies_of(flags.provides);
    if flags.name is None {
        Err(usage_error())
    } else if exec_files is Err {
        Err(exec_files->Err_0)
    } else if config_files is Err {
        Err(config_files->Err_0)
    } else if doc_files is Err {
        Err(doc_files->Err_0)
    } else if changelog is Err {
        Err(changelog->Err_0)
    } else if required is Err {
        Err(required->Err_0)
    } else if obsoletes is Err {
        Err(obsoletes->Err_0)
    } else if conflicts is Err {
        Err(conflicts->Err_0)
    } else if provides is Err {
        Err(provides->Err_0)
    } else {
        Ok(
            RequestView {
                name: flags.name->Some_0,
                version: or_default(flags.version, "1.0.0"@),
                license: or_default(flags.license, "MIT"@),
                architecture: or_default(flags.arch, "x86_64"@),
                description: or_default(flags.description, ""@),
                release: or_default(flags.release, "1"@),
                files: exec_files->Ok_0 + config_files->Ok_0 + doc_files->Ok_0,
                changelog: changelog->Ok_0,
                requires: required->Ok_0,
                provides: provides->Ok_0,
                obsoletes: obsoletes->Ok_0,
                conflicts: conflicts->Ok_0,
            },
        )
    }
}

/// The value of the outcome of a build.
pub open spec fn outcome_view(r: Result<PackageBuildRequest, AppError>) -> Result<
    RequestView,
    ErrorView,
> {
    match r {
        Ok(request) => Ok(request@),
        Err(e) => Err(e@),
    }
}

/// One more outcome joins those before it: an error before it stays, and
/// else its value is added at the end or its error is the error.
pub proof fn lemma_collect_step<T>(outcomes: Seq<Result<T, ErrorView>>, i: int)
    requires
        0 <= i < outcomes.len(),
    ensures
        collect(outcomes.take(i + 1)) == match collect(outcomes.take(i)) {
            Err(e) => Err(e),
            Ok(items) => match outcomes[i] {
                Ok(item) => Ok(items.push(item)),
                Err(e) => Err(e),
            },
        },
{
    assert(outcomes.take(i + 1).drop_last() == outcomes.take(i));
}

/// An error among the first outcomes is the error of them all.
pub proof fn lemma_collect_error_stays<T>(outcomes: Seq<Result<T, ErrorView>>, i: int)
    requires
        0 <= i <= outcomes.len(),
        collect(outcomes.take(i)) is Err,
    ensures
        collect(outcomes) == collect(outcomes.take(i)),
    decreases outcomes.len() - i,
{
    if i == outcomes.len() {
        assert(outcomes.take(i) == outcomes);
    } else {
        lemma_collect_step(outcomes, i);
        lemma_collect_error_stays(outcomes, i + 1);
    }
}

/// Fail fast: the first outcome that is an error is the outcome of the whole,
/// whatever follows it.
pub proof fn law_first_error_wins<T>(outcomes: Seq<Result<T, ErrorView>>, i: int)
    requires
        0 <= i < outcomes.len(),
        outcomes[i] is Err,
        forall|j: int| 0 <= j < i ==> outcomes[j] is Ok,
    ensures
        collect(outcomes) == Err::<Seq<T>, ErrorView>(outcomes[i]->Err_0),
{
    lemma_collect_values(outcomes.take(i));
    lemma_collect_step(outcomes, i);
    lemma_collect_error_stays(outcomes, i + 1);
}

/// Where every outcome is a value, the whole is these values: as many as
/// there were outcomes, each at its place.
pub proof fn lemma_collect_values<T>(outcomes: Seq<Result<T, ErrorView>>)
    requires
        forall|j: int| 0 <= j < outcomes.len() ==> outcomes[j] is Ok,
    ensures
        collect(outcomes) is Ok,
        collect(outcomes)->Ok_0.len() == outcomes.len(),
        forall|j: int| 0 <= j < outcomes.len() ==> collect(outcomes)->Ok_0[j] == outcomes[j]->Ok_0,
    decreases outcomes.len(),
{
    if outcomes.len() > 0 {
        lemma_collect_values(outcomes.drop_last());
    }
}

/// The file entries of one flag family, in the order of the values.
pub fn parse_files(raws: &Vec<String>, kind: FileKind) -> (r: Result<Vec<FileEntry>, AppError>)
    ensures
        match files_of(views_of(raws@), kind) {
            Ok(entries) => r is Ok && file_views(r->Ok_0@) == entries,
            Err(e) => r is Err && r->Err_0@ == e,
        },
{
    let ghost outcomes = views_of(raws@).map_values(|raw: Seq<char>| file_mapping_of(raw, kind));
    let mut entries: Vec<FileEntry> = Vec::new();
    let mut i: usize = 0;
    assert(outcomes.take(0) == Seq::<Result<FileView, ErrorView>>::empty());
    assert(file_views(entries@) == Seq::<FileView>::empty());
    while i < raws.len()
        invariant
            0 <= i <= raws.len(),
            outcomes == views_of(raws@).map_values(|raw: Seq<char>| file_mapping_of(raw, kind)),
            collect(outcomes.take(i as int)) == Ok::<Seq<FileView>, ErrorView>(
                file_views(entries@),
            ),
        decreases raws.len() - i,
    {
        proof {
            lemma_collect_step(outcomes, i as int);
        }
        match parse_file_mapping(raws[i].as_str(), kind) {
            Ok(entry) => {
                assert(file_views(entries@.push(entry)) == file_views(entries@).push(entry@));
                entries.push(entry);
            },
            Err(e) => {
                proof {
                    lemma_collect_error_stays(outcomes, i + 1);
                }
                return Err(e);
            },
        }
        i += 1;
    }
    assert(outcomes.take(i as int) == outcomes);
    Ok(entries)
}

/// The changelog entries, in the order of the values.
pub fn parse_changelogs(raws: &Vec<String>) -> (r: Result<Vec<ChangelogEntry>, AppError>)
    ensures
        match changelogs_of(views_of(raws@)) {
            Ok(entries) => r is Ok && changelog_views(r->Ok_0@) == entries,
            Err(e) => r is Err && r->Err_0@ == e,
        },
{
    let ghost outcomes = views_of(raws@).map_values(|raw: Seq<char>| changelog_of(raw));
    let mut entries: Vec<ChangelogEntry> = Vec::new();
    let mut i: usize = 0;
    assert(outcomes.take(0) == Seq::<Result<ChangelogView, ErrorView>>::empty());
    assert(changelog_views(entries@) == Seq::<ChangelogView>::empty());
    while i < raws.len()
        invariant
            0 <= i <= raws.len(),
            outcomes == views_of(raws@).map_values(|raw: Seq<char>| changelog_of(raw)),
            collect(outcomes.take(i as int)) == Ok::<Seq<ChangelogView>, ErrorView>(
                changelog_views(entries@),
            ),
        decreases raws.len() - i,
    {
        proof {
            lemma_collect_step(outcomes, i as int);
        }
        match parse_changelog(raws[i].as_str()) {
            Ok(entry) => {
                assert(changelog_views(entries@.push(entry)) == changelog_views(entries@).push(
                    entry@,
                ));
                entries.push(entry);
            },
            Err(e) => {
                proof {
                    lemma_collect_error_stays(outcomes, i + 1);
                }
                return Err(e);
            },
        }
        i += 1;
    }
    assert(outcomes.take(i as int) == outcomes);
    Ok(entries)
}

/// The dependency constraints of one flag family, in the order of the values.
pub fn parse_dependencies(raws: &Vec<String>) -> (r: Result<Vec<DependencyConstraint>, AppError>)
    ensures
        match dependencies_of(views_of(raws@)) {
            Ok(constraints) => r is Ok && dependency_views(r->Ok_0@) == constraints,
            Err(e) => r is Err && r->Err_0@ == e,
        },
{
    let ghost outcomes = views_of(raws@).map_values(|raw: Seq<char>| dependency_outcome(raw));
    let mut constraints: Vec<DependencyConstraint> = Vec::new();
    let mut i: usize = 0;
    assert(outcomes.take(0) == Seq::<Result<DependencyView, ErrorView>>::empty());
    assert(dependency_views(constraints@) == Seq::<DependencyView>::empty());
    while i < raws.len()
        invariant
            0 <= i <= raws.len(),
            outcomes == views_of(raws@).map_values(|raw: Seq<char>| dependency_outcome(raw)),
            collect(outcomes.take(i as int)) == Ok::<Seq<DependencyView>, ErrorView>(
                dependency_views(constraints@),
            ),
        decreases raws.len() - i,
    {
        proof {
            lemma_collect_step(outcomes, i as int);
        }
        match parse_dependency(raws[i].as_str()) {
            Ok(constraint) => {
                assert(dependency_views(constraints@.push(constraint)) == dependency_views(
                    constraints@,
                ).push(constraint@));
                constraints.push(constraint);
            },
            Err(e) => {
                proof {
                    lemma_collect_error_stays(outcomes, i + 1);
                }
                return Err(e);
            },
        }
        i += 1;
    }
    assert(outcomes.take(i as int) == outcomes);
    Ok(constraints)
}

/// The value of a flag, or `default` where the flag is absent.
fn value_or(value: &Option<String>, default: &str) -> (text: String)
    ensures
        text@ == or_default(text_of(*value), default@),
{
    match value {
        Some(text) => text.clone(),
        None => String::from_str(default),
    }
}

/// Puts the flags of one invocation together into a build request.
///
/// Fails with `Usage` where the name is absent, and else with the error of
/// the first value that does not parse; nothing is read after that value.
pub fn build_request(flags: &FlagSet) -> (r: Result<PackageBuildRequest, AppError>)
    ensures
        outcome_view(r) == request_of(flags@),
{
    let name = match &flags.name {
        Some(name) => name.clone(),
        None => {
            return Err(
                AppError::new(ErrorKind::Usage, String::from_str("the package name is required")),
            );
        },
    };
    let mut files = match parse_files(&flags.exec_files, FileKind::Executable) {
        Ok(entries) => entries,
        Err(e) => {
            return Err(e);
        },
    };
    let mut config_files = match parse_files(&flags.config_files, FileKind::Config) {
        Ok(entries) => entries,
        Err(e) => {
            return Err(e);
        },
    };
    let mut doc_files = match parse_files(&flags.doc_files, FileKind::Doc) {
        Ok(entries) => entries,
        Err(e) => {
            return Err(e);
        },
    };
    let changelog = match parse_changelogs(&flags.changelog) {
        Ok(entries) => entries,
        Err(e) => {
            return Err(e);
        },
    };
    let required = match parse_dependencies(&flags.requires) {
        Ok(constraints) => constraints,
        Err(e) => {
            return Err(e);
        },
    };
    let obsoletes = match parse_dependencies(&flags.obsoletes) {
        Ok(constraints) => constraints,
        Err(e) => {
            return Err(e);
        },
    };
    let conflicts = match parse_dependencies(&flags.conflicts) {
        Ok(constraints) => constraints,
        Err(e) => {
            return Err(e);
        },
    };
    let provides = match parse_dependencies(&flags.provides) {
        Ok(constraints) => constraints,
        Err(e) => {
            return Err(e);
        },
    };
    let ghost exec_views = file_views(files@);
    let ghost config_views = file_views(config_files@);
    let ghost doc_views = file_views(doc_files@);
    files.append(&mut config_files);
    files.append(&mut doc_files);
    assert(file_views(files@) == exec_views + config_views + doc_views);
    Ok(
        PackageBuildRequest {
            name,
            version: value_or(&flags.version, "1.0.0"),
            license: value_or(&flags.license, "MIT"),
            architecture: value_or(&flags.arch, "x86_64"),
            description: value_or(&flags.description, ""),
            release: value_or(&flags.release, "1"),
            files,
            changelog,
            requires: required,
            provides,
            obsoletes,
            conflicts,
        },
    )
}

/// Building twice from the same flags gives the same outcome: the same
/// request, field for field and in the same order, or the same error.
pub proof fn law_same_flags_same_outcome(
    first: FlagSet,
    first_outcome: Result<PackageBuildRequest, AppError>,
    second: FlagSet,
    second_outcome: Result<PackageBuildRequest, AppError>,
)
    requires
        first@ == second@,
        outcome_view(first_outcome) == request_of(first@),
        outcome_view(second_outcome) == request_of(second@),
    ensures
        outcome_view(first_outcome) == outcome_view(second_outcome),
{
}

} // verus!

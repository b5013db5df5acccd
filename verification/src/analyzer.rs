use vstd::prelude::*;

use crate::extract::extract_functions_of;
use crate::extract::extract_imports_of;
use crate::extract::extract_macros_of;
use crate::extract::extract_types_of;
use crate::extract::function_records;
use crate::extract::import_records;
use crate::extract::macro_records;
use crate::extract::type_records;
use crate::fs::fs_find;
use crate::fs::fs_is_readable;
use crate::fs::FileMap;
use crate::fs::FileState;
use crate::fs::FileStateV;
use crate::model::AnalyzerError;
use crate::model::ErrorV;
use crate::model::HeaderSummary;
use crate::model::Import;
use crate::model::ImportV;
use crate::model::ParsedFile;
use crate::model::ParsedFileV;
use crate::model::SummaryV;
use crate::syntax::c_parse_result;
use crate::syntax::parse_c_source;
use crate::syntax::SyntaxNode;
use crate::text::decimal_string;
use crate::text::join_path;
use crate::text::spec_decimal;
use crate::text::spec_join;

verus! {

/// The state of one analysis: the ordered search directories for resolving
/// quoted imports, a memo of every file parsed so far, and the graph of
/// resolved local imports. The memo and the graph are keyed by path; a
/// later entry for the same path shadows an earlier one.
pub struct CFileAnalyzer {
    pub include_paths: Vec<String>,
    pub parsed_files: Vec<(String, ParsedFile)>,
    pub import_graph: Vec<(String, Vec<String>)>,
}

/// What extraction makes of one file: all four record lists of its tree.
pub open spec fn spec_parsed_file(path: Seq<char>, tree: SyntaxNode) -> ParsedFileV {
    ParsedFileV {
        path: path,
        imports: import_records(tree),
        functions: function_records(tree),
        types: type_records(tree),
        macros: macro_records(tree),
    }
}

/// The text recorded as readable at `p`, and empty where none is.
pub open spec fn spec_content_at(fs: Seq<(Seq<char>, FileStateV)>, p: Seq<char>) -> Seq<char> {
    match fs_find(fs, p) {
        Option::Some(st) => match st {
            FileStateV::Readable(text) => text,
            FileStateV::Unreadable => Seq::empty(),
            FileStateV::Absent => Seq::empty(),
        },
        Option::None => Seq::empty(),
    }
}

/// The tree of the readable file recorded at `p`. Meaningful only where
/// that text parses; the walk applies it only to files it parsed.
pub open spec fn spec_tree_at(fs: Seq<(Seq<char>, FileStateV)>, p: Seq<char>) -> SyntaxNode {
    c_parse_result(spec_content_at(fs, p)).unwrap()
}

/// The memo entries that parsing the files at `ps` leaves, in that order.
pub open spec fn spec_memo_records(fs: Seq<(Seq<char>, FileStateV)>, ps: Seq<Seq<char>>) -> Seq<
    (Seq<char>, ParsedFileV),
> {
    ps.map_values(|p: Seq<char>| (p, spec_parsed_file(p, spec_tree_at(fs, p))))
}

/// The import-graph entries that parsing the files at `ps` leaves, in that
/// order.
pub open spec fn spec_graph_records(
    fs: Seq<(Seq<char>, FileStateV)>,
    dirs: Seq<Seq<char>>,
    ps: Seq<Seq<char>>,
) -> Seq<(Seq<char>, Seq<Seq<char>>)> {
    ps.map_values(
        |p: Seq<char>|
            (p, spec_locals_lenient(dirs, import_records(spec_tree_at(fs, p)), fs)),
    )
}

/// The one-line description of a file with `f` functions, `t` types and `m`
/// macros.
pub open spec fn spec_description(f: nat, t: nat, m: nat) -> Seq<char> {
    "Header file containing "@ + spec_decimal(f) + " functions, "@ + spec_decimal(t)
        + " types, and "@ + spec_decimal(m) + " macros"@
}

/// What resolving one import path against the search directories gives:
/// the first existing candidate, or nothing, or the first candidate whose
/// state is not recorded yet.
pub enum ResolutionV {
    Found(Seq<char>),
    NotFound,
    Unknown(Seq<char>),
}

pub enum Resolution {
    Found(String),
    NotFound,
    Unknown(String),
}

impl View for Resolution {
    type V = ResolutionV;

    open spec fn view(&self) -> ResolutionV {
        match self {
            Resolution::Found(p) => ResolutionV::Found(p@),
            Resolution::NotFound => ResolutionV::NotFound,
            Resolution::Unknown(p) => ResolutionV::Unknown(p@),
        }
    }
}

/// First match wins: the first search directory, in registration order,
/// whose join with `rel` exists, names the resolved path. A directory whose
/// candidate is not recorded in `fs` stops the search with `Unknown`.
pub open spec fn spec_resolve(
    dirs: Seq<Seq<char>>,
    rel: Seq<char>,
    fs: Seq<(Seq<char>, FileStateV)>,
) -> ResolutionV
    decreases dirs.len(),
{
    if dirs.len() == 0 {
        ResolutionV::NotFound
    } else {
        let cand = spec_join(dirs[0], rel);
        match fs_find(fs, cand) {
            Option::None => ResolutionV::Unknown(cand),
            Option::Some(st) => if st is Absent {
                spec_resolve(dirs.drop_first(), rel, fs)
            } else {
                ResolutionV::Found(cand)
            },
        }
    }
}

/// Resolution as the walk's callers see it: the found path or nothing.
pub open spec fn spec_resolve_opt(
    dirs: Seq<Seq<char>>,
    rel: Seq<char>,
    fs: Seq<(Seq<char>, FileStateV)>,
) -> Option<Seq<char>> {
    match spec_resolve(dirs, rel, fs) {
        ResolutionV::Found(p) => Option::Some(p),
        ResolutionV::NotFound => Option::None,
        ResolutionV::Unknown(c) => Option::None,
    }
}

/// The resolved paths of the local imports among `imports`, in order,
/// skipping system imports, unresolved ones, and ones whose candidates are
/// not all recorded.
pub open spec fn spec_locals_lenient(
    dirs: Seq<Seq<char>>,
    imports: Seq<ImportV>,
    fs: Seq<(Seq<char>, FileStateV)>,
) -> Seq<Seq<char>>
    decreases imports.len(),
{
    if imports.len() == 0 {
        Seq::empty()
    } else {
        let prefix = spec_locals_lenient(dirs, imports.drop_last(), fs);
        let last = imports.last();
        if last.is_system {
            prefix
        } else {
            match spec_resolve(dirs, last.path, fs) {
                ResolutionV::Found(p) => prefix + seq![p],
                ResolutionV::NotFound => prefix,
                ResolutionV::Unknown(c) => prefix,
            }
        }
    }
}

/// The resolved paths of the local imports among `imports`, in order, or
/// the first candidate path whose state the walk still has to learn.
pub enum LocalsV {
    Resolved(Seq<Seq<char>>),
    Needs(Seq<char>),
}

/// Strict resolution of the local imports, in order: a system import is
/// never looked at, an unresolved local import is dropped silently, and the
/// first candidate with no recorded state stops the run.
pub open spec fn spec_locals(
    dirs: Seq<Seq<char>>,
    imports: Seq<ImportV>,
    fs: Seq<(Seq<char>, FileStateV)>,
) -> LocalsV
    decreases imports.len(),
{
    if imports.len() == 0 {
        LocalsV::Resolved(Seq::empty())
    } else {
        let first = imports[0];
        let rest = spec_locals(dirs, imports.drop_first(), fs);
        if first.is_system {
            rest
        } else {
            match spec_resolve(dirs, first.path, fs) {
                ResolutionV::Unknown(c) => LocalsV::Needs(c),
                ResolutionV::NotFound => rest,
                ResolutionV::Found(p) => match rest {
                    LocalsV::Resolved(ps) => LocalsV::Resolved(seq![p] + ps),
                    LocalsV::Needs(c) => LocalsV::Needs(c),
                },
            }
        }
    }
}

/// How a walk ends: every reachable file summarized, a fatal error, or a
/// path whose state the walk still has to learn before it can go on.
pub enum OutcomeV {
    Done,
    Failed(ErrorV),
    Need(Seq<char>),
}

/// One pending piece of walk work: visit a file, or append a finished
/// summary to the output.
pub enum TaskV {
    Visit(Seq<char>),
    Emit(SummaryV),
}

enum Task {
    Visit(String),
    Emit(HeaderSummary),
}

impl View for Task {
    type V = TaskV;

    closed spec fn view(&self) -> TaskV {
        match self {
            Task::Visit(p) => TaskV::Visit(p@),
            Task::Emit(sum) => TaskV::Emit(sum@),
        }
    }
}

impl DeepView for Task {
    type V = TaskV;

    closed spec fn deep_view(&self) -> TaskV {
        self@
    }
}

/// Everything a finished or aborted walk leaves behind.
pub struct WalkRes {
    pub visited: Seq<Seq<char>>,
    pub summaries: Seq<SummaryV>,
    pub outcome: OutcomeV,
}

/// The visited memo is sound: no path twice, and only paths whose files
/// were readable, since only a parsed file is ever marked visited.
pub open spec fn visited_ok(fs: Seq<(Seq<char>, FileStateV)>, v: Seq<Seq<char>>) -> bool {
    v.no_duplicates() && forall|i: int| 0 <= i < v.len() ==> fs_is_readable(fs, #[trigger] v[i])
}

/// A path with a recorded state is one of the record's keys.
proof fn lemma_fs_find_key(fs: Seq<(Seq<char>, FileStateV)>, p: Seq<char>)
    requires
        fs_find(fs, p) is Some,
    ensures
        fs.map_values(|e: (Seq<char>, FileStateV)| e.0).contains(p),
    decreases fs.len(),
{
    let keys = fs.map_values(|e: (Seq<char>, FileStateV)| e.0);
    if fs.last().0 == p {
        assert(keys[fs.len() - 1] == p);
    } else {
        lemma_fs_find_key(fs.drop_last(), p);
        let keys0 = fs.drop_last().map_values(|e: (Seq<char>, FileStateV)| e.0);
        let i = choose|i: int| 0 <= i < keys0.len() && keys0[i] == p;
        assert(keys[i] == p);
    }
}

/// A sound visited memo never outgrows the record it draws from.
pub proof fn lemma_visited_card(fs: Seq<(Seq<char>, FileStateV)>, v: Seq<Seq<char>>)
    requires
        visited_ok(fs, v),
    ensures
        v.len() <= fs.len(),
{
    broadcast use vstd::seq_lib::seq_to_set_is_finite;

    v.unique_seq_to_set();
    let keys = fs.map_values(|e: (Seq<char>, FileStateV)| e.0);
    assert forall|p: Seq<char>| v.to_set().contains(p) implies keys.to_set().contains(p) by {
        let i = choose|i: int| 0 <= i < v.len() && v[i] == p;
        assert(fs_is_readable(fs, v[i]));
        lemma_fs_find_key(fs, p);
    }
    assert(v.to_set().subset_of(keys.to_set()));
    vstd::set_lib::lemma_len_subset(v.to_set(), keys.to_set());
    keys.lemma_cardinality_of_set();
}

/// Visit tasks for the resolved imports of one file, so stacked that the
/// first import is walked first.
pub open spec fn visits_rev(ps: Seq<Seq<char>>) -> Seq<TaskV> {
    Seq::new(ps.len(), |i: int| TaskV::Visit(ps[ps.len() - 1 - i]))
}

/// The summary of one parsed file.
pub open spec fn spec_summary(path: Seq<char>, tree: SyntaxNode) -> SummaryV {
    SummaryV {
        path: path,
        description: spec_description(
            function_records(tree).len(),
            type_records(tree).len(),
            macro_records(tree).len(),
        ),
        functions: function_records(tree),
        types: type_records(tree),
        macros: macro_records(tree),
    }
}

/// The depth-first walk, one pending task at a time. A visit of an already
/// visited path does nothing, which is what lets a cyclic import graph
/// terminate; a first visit parses the file, marks it visited, and stacks
/// its resolved local imports ahead of the file's own summary, so every
/// dependency's summary lands before the importer's own.
pub open spec fn spec_run(
    fs: Seq<(Seq<char>, FileStateV)>,
    dirs: Seq<Seq<char>>,
    stack: Seq<TaskV>,
    v: Seq<Seq<char>>,
    s: Seq<SummaryV>,
) -> WalkRes
    decreases fs.len() - v.len(), stack.len(),
        when visited_ok(fs, v)
        via spec_run_decreases
{
    if stack.len() == 0 {
        WalkRes { visited: v, summaries: s, outcome: OutcomeV::Done }
    } else {
        let rest = stack.drop_last();
        match stack.last() {
            TaskV::Emit(sum) => spec_run(fs, dirs, rest, v, s.push(sum)),
            TaskV::Visit(p) => {
                if v.contains(p) {
                    spec_run(fs, dirs, rest, v, s)
                } else {
                    match fs_find(fs, p) {
                        Option::None => WalkRes {
                            visited: v,
                            summaries: s,
                            outcome: OutcomeV::Need(p),
                        },
                        Option::Some(st) => match st {
                            FileStateV::Unreadable => WalkRes {
                                visited: v,
                                summaries: s,
                                outcome: OutcomeV::Failed(ErrorV::IoError(p)),
                            },
                            FileStateV::Absent => WalkRes {
                                visited: v,
                                summaries: s,
                                outcome: OutcomeV::Failed(ErrorV::IoError(p)),
                            },
                            FileStateV::Readable(text) => match c_parse_result(text) {
                                Option::None => WalkRes {
                                    visited: v,
                                    summaries: s,
                                    outcome: OutcomeV::Failed(
                                        ErrorV::ParseError("Failed to parse file"@),
                                    ),
                                },
                                Option::Some(tree) => {
                                    let v1 = v.push(p);
                                    match spec_locals(dirs, import_records(tree), fs) {
                                        LocalsV::Needs(c) => WalkRes {
                                            visited: v1,
                                            summaries: s,
                                            outcome: OutcomeV::Need(c),
                                        },
                                        LocalsV::Resolved(ps) => spec_run(
                                            fs,
                                            dirs,
                                            rest.push(TaskV::Emit(spec_summary(p, tree)))
                                                + visits_rev(ps),
                                            v1,
                                            s,
                                        ),
                                    }
                                },
                            },
                        },
                    }
                }
            },
        }
    }
}

#[via_fn]
proof fn spec_run_decreases(
    fs: Seq<(Seq<char>, FileStateV)>,
    dirs: Seq<Seq<char>>,
    stack: Seq<TaskV>,
    v: Seq<Seq<char>>,
    s: Seq<SummaryV>,
) {
    lemma_visited_card(fs, v);
    if stack.len() > 0 {
        match stack.last() {
            TaskV::Visit(p) => {
                if !v.contains(p) && fs_is_readable(fs, p) {
                    assert forall|i: int, j: int| 0 <= i < j < v.push(p).len() implies v.push(p)[i]
                        != v.push(p)[j] by {
                        if j == v.len() {
                            assert(v[i] == v.push(p)[i]);
                        }
                    }
                    assert(visited_ok(fs, v.push(p)));
                    lemma_visited_card(fs, v.push(p));
                }
            },
            TaskV::Emit(sum) => {},
        }
    }
}

/// How one entry into the walk ends, as `analyze_file_recursive` reports
/// it.
pub enum WalkStatus {
    Finished,
    Failed(AnalyzerError),
    NeedsFile(String),
}

impl View for WalkStatus {
    type V = OutcomeV;

    open spec fn view(&self) -> OutcomeV {
        match self {
            WalkStatus::Finished => OutcomeV::Done,
            WalkStatus::Failed(e) => OutcomeV::Failed(e@),
            WalkStatus::NeedsFile(p) => OutcomeV::Need(p@),
        }
    }
}

/// How one whole analysis ends: the ordered summaries, a fatal error, or
/// the path whose state the caller has to record before trying again.
pub enum AnalysisOutcome {
    Complete(Vec<HeaderSummary>),
    Failed(AnalyzerError),
    NeedsFile(String),
}

/// Mathematical image of an `AnalysisOutcome`.
pub enum AnalysisOutcomeV {
    Complete(Seq<SummaryV>),
    Failed(ErrorV),
    NeedsFile(Seq<char>),
}

impl View for AnalysisOutcome {
    type V = AnalysisOutcomeV;

    open spec fn view(&self) -> AnalysisOutcomeV {
        match self {
            AnalysisOutcome::Complete(sums) => AnalysisOutcomeV::Complete(sums.deep_view()),
            AnalysisOutcome::Failed(e) => AnalysisOutcomeV::Failed(e@),
            AnalysisOutcome::NeedsFile(p) => AnalysisOutcomeV::NeedsFile(p@),
        }
    }
}

/// What analyzing `root` against `fs` with the search directories `dirs`
/// yields: a pure function of those three values alone, so an unchanged
/// root, directory list and filesystem give the identical outcome.
pub open spec fn spec_analysis(
    fs: Seq<(Seq<char>, FileStateV)>,
    dirs: Seq<Seq<char>>,
    root: Seq<char>,
) -> AnalysisOutcomeV {
    let r = spec_run(fs, dirs, seq![TaskV::Visit(root)], Seq::empty(), Seq::empty());
    match r.outcome {
        OutcomeV::Done => AnalysisOutcomeV::Complete(r.summaries),
        OutcomeV::Failed(e) => AnalysisOutcomeV::Failed(e),
        OutcomeV::Need(p) => AnalysisOutcomeV::NeedsFile(p),
    }
}

/// Whether `v` holds `p`, by character-for-character comparison.
fn contains_path(v: &Vec<String>, p: &str) -> (r: bool)
    ensures
        r == v.deep_view().contains(p@),
{
    let len = v.len();
    let mut i: usize = 0;
    while i < len
        invariant
            len == v@.len(),
            0 <= i <= len,
            forall|j: int| 0 <= j < i ==> v.deep_view()[j] != p@,
        decreases len - i,
    {
        if crate::text::str_eq(v[i].as_str(), p) {
            assert(v.deep_view()[i as int] == p@);
            return true;
        }
        i = i + 1;
    }
    proof {
        assert forall|j: int| 0 <= j < v.deep_view().len() implies v.deep_view()[j] != p@ by {}
    }
    false
}

impl CFileAnalyzer {
    /// A fresh analyzer with no search directories and nothing analyzed.
    pub fn new() -> (r: CFileAnalyzer)
        ensures
            r.include_paths@.len() == 0,
            r.parsed_files@.len() == 0,
            r.import_graph@.len() == 0,
    {
        CFileAnalyzer {
            include_paths: Vec::new(),
            parsed_files: Vec::new(),
            import_graph: Vec::new(),
        }
    }

    /// Appends one search directory; directories registered earlier keep
    /// priority.
    pub fn add_include_path(&mut self, path: String)
        ensures
            final(self).include_paths.deep_view() == old(self).include_paths.deep_view().push(
                path@,
            ),
            final(self).parsed_files == old(self).parsed_files,
            final(self).import_graph == old(self).import_graph,
    {
        let ghost before = self.include_paths.deep_view();
        self.include_paths.push(path);
        proof {
            assert(self.include_paths.deep_view() =~= before.push(
                self.include_paths@.last().deep_view(),
            ));
        }
    }

    /// Resolves one textual import path against the search directories.
    fn resolve_probe(&self, rel: &str, fs: &FileMap) -> (r: Resolution)
        ensures
            r@ == spec_resolve(self.include_paths.deep_view(), rel@, fs@),
    {
        let ghost dirs = self.include_paths.deep_view();
        let len = self.include_paths.len();
        let mut i: usize = 0;
        proof {
            assert(dirs.skip(0) =~= dirs);
        }
        while i < len
            invariant
                len == self.include_paths@.len(),
                dirs == self.include_paths.deep_view(),
                0 <= i <= len,
                spec_resolve(dirs, rel@, fs@) == spec_resolve(dirs.skip(i as int), rel@, fs@),
            decreases len - i,
        {
            proof {
                assert(dirs.skip(i as int)[0] == dirs[i as int]);
                assert(dirs.skip(i as int).drop_first() =~= dirs.skip(i + 1));
            }
            let cand = join_path(self.include_paths[i].as_str(), rel);
            match fs.get(cand.as_str()) {
                Option::None => {
                    return Resolution::Unknown(cand);
                },
                Option::Some(st) => {
                    match st {
                        FileState::Absent => {},
                        FileState::Readable(c) => {
                            return Resolution::Found(cand);
                        },
                        FileState::Unreadable => {
                            return Resolution::Found(cand);
                        },
                    }
                },
            }
            i = i + 1;
        }
        Resolution::NotFound
    }

    /// Resolves one import to the first search directory holding it, or
    /// nothing: an unrecorded candidate counts as not existing here. The
    /// resolver never looks at `is_system`; its callers decide what to
    /// resolve. The current file plays no part in resolution.
    #[allow(unused_variables)]
    pub fn resolve_import(&self, current_file: &str, import: &Import, fs: &FileMap) -> (r: Option<
        String,
    >)
        ensures
            r.deep_view() == spec_resolve_opt(
                self.include_paths.deep_view(),
                import.path@,
                fs@,
            ),
    {
        match self.resolve_probe(import.path.as_str(), fs) {
            Resolution::Found(p) => Option::Some(p),
            Resolution::NotFound => Option::None,
            Resolution::Unknown(c) => Option::None,
        }
    }

    /// Resolves the local imports for the import graph, dropping whatever
    /// does not resolve.
    fn resolve_locals_lenient(&self, imports: &Vec<Import>, fs: &FileMap) -> (r: Vec<String>)
        ensures
            r.deep_view() == spec_locals_lenient(
                self.include_paths.deep_view(),
                imports.deep_view(),
                fs@,
            ),
    {
        let ghost dirs = self.include_paths.deep_view();
        let ghost imps = imports.deep_view();
        let mut out: Vec<String> = Vec::new();
        let len = imports.len();
        let mut i: usize = 0;
        proof {
            assert(out.deep_view() =~= spec_locals_lenient(dirs, imps.take(0), fs@));
        }
        while i < len
            invariant
                len == imports@.len(),
                dirs == self.include_paths.deep_view(),
                imps == imports.deep_view(),
                imps.len() == len,
                0 <= i <= len,
                out.deep_view() == spec_locals_lenient(dirs, imps.take(i as int), fs@),
            decreases len - i,
        {
            proof {
                assert(imps.take(i + 1).drop_last() =~= imps.take(i as int));
                assert(imps.take(i + 1).last() == imps[i as int]);
            }
            let imp = &imports[i];
            if !imp.is_system {
                match self.resolve_probe(imp.path.as_str(), fs) {
                    Resolution::Found(p) => {
                        out.push(p);
                        proof {
                            assert(out.deep_view() =~= spec_locals_lenient(
                                dirs,
                                imps.take(i + 1),
                                fs@,
                            ));
                        }
                    },
                    Resolution::NotFound => {},
                    Resolution::Unknown(c) => {},
                }
            }
            i = i + 1;
        }
        proof {
            assert(imps.take(len as int) =~= imps);
        }
        out
    }

    /// Strictly resolves the local imports for the walk, reporting the
    /// first candidate path whose state is not recorded yet.
    fn resolve_locals(&self, imports: &Vec<Import>, fs: &FileMap) -> (r: Result<Vec<String>, String>)
        ensures
            (match r {
                Result::Ok(ps) => spec_locals(self.include_paths.deep_view(), imports.deep_view(), fs@)
                    == LocalsV::Resolved(ps.deep_view()),
                Result::Err(c) => spec_locals(self.include_paths.deep_view(), imports.deep_view(), fs@)
                    == LocalsV::Needs(c@),
            }),
    {
        let ghost dirs = self.include_paths.deep_view();
        let ghost imps = imports.deep_view();
        let mut out: Vec<String> = Vec::new();
        let len = imports.len();
        let mut i: usize = 0;
        proof {
            assert(imps.skip(0) =~= imps);
            assert(out.deep_view() =~= Seq::<Seq<char>>::empty());
        }
        while i < len
            invariant
                len == imports@.len(),
                dirs == self.include_paths.deep_view(),
                imps == imports.deep_view(),
                imps.len() == len,
                0 <= i <= len,
                (spec_locals(dirs, imps, fs@) == match spec_locals(dirs, imps.skip(i as int), fs@) {
                    LocalsV::Resolved(ps) => LocalsV::Resolved(out.deep_view() + ps),
                    LocalsV::Needs(c) => LocalsV::Needs(c),
                }),
            decreases len - i,
        {
            proof {
                assert(imps.skip(i as int)[0] == imps[i as int]);
                assert(imps.skip(i as int).drop_first() =~= imps.skip(i + 1));
            }
            let imp = &imports[i];
            if !imp.is_system {
                match self.resolve_probe(imp.path.as_str(), fs) {
                    Resolution::Found(p) => {
                        let ghost out0 = out.deep_view();
                        out.push(p);
                        proof {
                            assert(out.deep_view() =~= out0.push(out.deep_view().last()));
                            assert forall|ps: Seq<Seq<char>>|
                                out0 + (seq![out.deep_view().last()] + ps) =~= out.deep_view()
                                    + ps by {};
                        }
                    },
                    Resolution::NotFound => {},
                    Resolution::Unknown(c) => {
                        return Result::Err(c);
                    },
                }
            }
            i = i + 1;
        }
        proof {
            assert(imps.skip(len as int) =~= Seq::<ImportV>::empty());
            assert(out.deep_view() + Seq::<Seq<char>>::empty() =~= out.deep_view());
        }
        Result::Ok(out)
    }

    /// The one-line description of a file with these counts of functions,
    /// types and macros.
    fn generate_description(&self, f: usize, t: usize, m: usize) -> (r: String)
        ensures
            r@ == spec_description(f as nat, t as nat, m as nat),
    {
        let mut s = "Header file containing ".to_owned();
        s.append(decimal_string(f).as_str());
        s.append(" functions, ");
        s.append(decimal_string(t).as_str());
        s.append(" types, and ");
        s.append(decimal_string(m).as_str());
        s.append(" macros");
        proof {
            assert(s@ =~= spec_description(f as nat, t as nat, m as nat));
        }
        s
    }

    /// Stores one parsed tree in the memo and its resolved local imports in
    /// the import graph.
    fn record_file(&mut self, path: &str, tree: &SyntaxNode, fs: &FileMap)
        ensures
            final(self).include_paths == old(self).include_paths,
            final(self).parsed_files.deep_view() == old(self).parsed_files.deep_view().push(
                (path@, spec_parsed_file(path@, *tree)),
            ),
            final(self).import_graph.deep_view() == old(self).import_graph.deep_view().push(
                (
                    path@,
                    spec_locals_lenient(
                        old(self).include_paths.deep_view(),
                        import_records(*tree),
                        fs@,
                    ),
                ),
            ),
    {
        let imports = extract_imports_of(tree);
        let functions = extract_functions_of(tree);
        let types = extract_types_of(tree);
        let macros = extract_macros_of(tree);
        let resolved = self.resolve_locals_lenient(&imports, fs);
        let pf = ParsedFile { path: path.to_owned(), imports, functions, types, macros };
        let ghost memo0 = self.parsed_files.deep_view();
        self.parsed_files.push((path.to_owned(), pf));
        proof {
            assert(self.parsed_files.deep_view() =~= memo0.push(
                (path@, spec_parsed_file(path@, *tree)),
            ));
        }
        let ghost graph0 = self.import_graph.deep_view();
        self.import_graph.push((path.to_owned(), resolved));
        proof {
            assert(self.import_graph.deep_view() =~= graph0.push(
                (
                    path@,
                    spec_locals_lenient(self.include_paths.deep_view(), import_records(*tree), fs@),
                ),
            ));
        }
    }

    /// Parses one file's text, stores the result in the memo, and records
    /// the file's resolved local imports in the import graph. The file's
    /// path is only a key here; the text is parsed as it stands.
    pub fn parse_file(&mut self, path: &str, content: &str, fs: &FileMap) -> (r: Result<
        (),
        AnalyzerError,
    >)
        ensures
            r is Ok <==> c_parse_result(content@) is Some,
            final(self).include_paths == old(self).include_paths,
            r is Err ==> final(self).parsed_files == old(self).parsed_files
                && final(self).import_graph == old(self).import_graph,
            (match r {
                Result::Err(e) => e@ == ErrorV::ParseError("Failed to parse file"@),
                Result::Ok(u) => true,
            }),
            r is Ok ==> final(self).parsed_files.deep_view() == old(
                self,
            ).parsed_files.deep_view().push(
                (path@, spec_parsed_file(path@, c_parse_result(content@).unwrap())),
            ),
            r is Ok ==> final(self).import_graph.deep_view() == old(
                self,
            ).import_graph.deep_view().push(
                (
                    path@,
                    spec_locals_lenient(
                        old(self).include_paths.deep_view(),
                        import_records(c_parse_result(content@).unwrap()),
                        fs@,
                    ),
                ),
            ),
    {
        match parse_c_source(content) {
            Option::None => Result::Err(
                AnalyzerError::ParseError("Failed to parse file".to_owned()),
            ),
            Option::Some(tree) => {
                self.record_file(path, &tree, fs);
                Result::Ok(())
            },
        }
    }

    /// Walks `file_path` and everything reachable from it through resolved
    /// local imports, appending one summary per newly visited file in
    /// dependency-first order. The caller's visited memo and summary list
    /// are extended exactly as `spec_run` says, and every file parsed on
    /// the way lands in the analyzer's own memo and import graph.
    pub fn analyze_file_recursive(
        &mut self,
        file_path: &str,
        analyzed_headers: &mut Vec<String>,
        summaries: &mut Vec<HeaderSummary>,
        fs: &FileMap,
    ) -> (r: WalkStatus)
        requires
            visited_ok(fs@, old(analyzed_headers).deep_view()),
        ensures
            final(self).include_paths == old(self).include_paths,
            visited_ok(fs@, final(analyzed_headers).deep_view()),
            ({
                let res = spec_run(
                    fs@,
                    old(self).include_paths.deep_view(),
                    seq![TaskV::Visit(file_path@)],
                    old(analyzed_headers).deep_view(),
                    old(summaries).deep_view(),
                );
                final(analyzed_headers).deep_view() == res.visited
                    && final(summaries).deep_view() == res.summaries
                    && r@ == res.outcome
                    && final(self).parsed_files.deep_view() == old(self).parsed_files.deep_view()
                    + spec_memo_records(
                    fs@,
                    res.visited.skip(old(analyzed_headers).deep_view().len() as int),
                )
                    && final(self).import_graph.deep_view() == old(self).import_graph.deep_view()
                    + spec_graph_records(
                    fs@,
                    old(self).include_paths.deep_view(),
                    res.visited.skip(old(analyzed_headers).deep_view().len() as int),
                )
            }),
    {
        let ghost dirs = self.include_paths.deep_view();
        let ghost res = spec_run(
            fs@,
            dirs,
            seq![TaskV::Visit(file_path@)],
            analyzed_headers.deep_view(),
            summaries.deep_view(),
        );
        let ghost k = analyzed_headers.deep_view().len() as int;
        let mut stack: Vec<Task> = Vec::new();
        stack.push(Task::Visit(file_path.to_owned()));
        proof {
            assert(stack.deep_view() =~= seq![TaskV::Visit(file_path@)]);
            assert(analyzed_headers.deep_view().skip(k) =~= Seq::<Seq<char>>::empty());
            assert(spec_memo_records(fs@, analyzed_headers.deep_view().skip(k)) =~= Seq::<
                (Seq<char>, ParsedFileV),
            >::empty());
            assert(spec_graph_records(fs@, dirs, analyzed_headers.deep_view().skip(k)) =~= Seq::<
                (Seq<char>, Seq<Seq<char>>),
            >::empty());
            assert(self.parsed_files.deep_view() =~= self.parsed_files.deep_view()
                + spec_memo_records(fs@, analyzed_headers.deep_view().skip(k)));
            assert(self.import_graph.deep_view() =~= self.import_graph.deep_view()
                + spec_graph_records(fs@, dirs, analyzed_headers.deep_view().skip(k)));
        }
        loop
            invariant
                self.include_paths == old(self).include_paths,
                dirs == old(self).include_paths.deep_view(),
                k == old(analyzed_headers).deep_view().len() as int,
                visited_ok(fs@, old(analyzed_headers).deep_view()),
                visited_ok(fs@, analyzed_headers.deep_view()),
                analyzed_headers.deep_view().len() >= k,
                self.parsed_files.deep_view() == old(self).parsed_files.deep_view()
                    + spec_memo_records(fs@, analyzed_headers.deep_view().skip(k)),
                self.import_graph.deep_view() == old(self).import_graph.deep_view()
                    + spec_graph_records(fs@, dirs, analyzed_headers.deep_view().skip(k)),
                spec_run(
                    fs@,
                    dirs,
                    stack.deep_view(),
                    analyzed_headers.deep_view(),
                    summaries.deep_view(),
                ) == res,
                (res == spec_run(
                    fs@,
                    dirs,
                    seq![TaskV::Visit(file_path@)],
                    old(analyzed_headers).deep_view(),
                    old(summaries).deep_view(),
                )),
            decreases fs@.len() - analyzed_headers@.len(), stack@.len(),
        {
            proof {
                lemma_visited_card(fs@, analyzed_headers.deep_view());
            }
            let ghost stack0 = stack.deep_view();
            let ghost v0 = analyzed_headers.deep_view();
            let ghost s0 = summaries.deep_view();
            let task = match stack.pop() {
                Option::Some(t) => t,
                Option::None => {
                    return WalkStatus::Finished;
                },
            };
            proof {
                assert(stack.deep_view() =~= stack0.drop_last());
                assert(task@ == stack0.last());
            }
            match task {
                Task::Emit(sum) => {
                    let ghost sumv = sum@;
                    summaries.push(sum);
                    proof {
                        assert(summaries.deep_view() =~= s0.push(sumv));
                    }
                },
                Task::Visit(p) => {
                    if contains_path(analyzed_headers, p.as_str()) {
                        proof {
                            assert(v0.contains(p@));
                        }
                    } else {
                        proof {
                            assert(!v0.contains(p@));
                        }
                        match fs.get(p.as_str()) {
                            Option::None => {
                                return WalkStatus::NeedsFile(p);
                            },
                            Option::Some(st) => match st {
                                FileState::Unreadable => {
                                    return WalkStatus::Failed(AnalyzerError::IoError(p));
                                },
                                FileState::Absent => {
                                    return WalkStatus::Failed(AnalyzerError::IoError(p));
                                },
                                FileState::Readable(content) => {
                                    let t = match parse_c_source(content.as_str()) {
                                        Option::Some(t) => t,
                                        Option::None => {
                                            return WalkStatus::Failed(
                                                AnalyzerError::ParseError(
                                                    "Failed to parse file".to_owned(),
                                                ),
                                            );
                                        },
                                    };
                                    self.record_file(p.as_str(), &t, fs);
                                    analyzed_headers.push(p.clone());
                                    proof {
                                        assert(analyzed_headers.deep_view() =~= v0.push(p@));
                                        assert(analyzed_headers.deep_view().skip(k) =~= v0.skip(
                                            k,
                                        ).push(p@));
                                        assert(fs_find(fs@, p@) == Option::Some(
                                            FileStateV::Readable(content@),
                                        ));
                                        assert(spec_tree_at(fs@, p@) == t);
                                        assert(spec_memo_records(fs@, v0.skip(k).push(p@))
                                            =~= spec_memo_records(fs@, v0.skip(k)).push(
                                            (p@, spec_parsed_file(p@, t)),
                                        ));
                                        assert(self.parsed_files.deep_view() =~= old(
                                            self,
                                        ).parsed_files.deep_view() + spec_memo_records(
                                            fs@,
                                            analyzed_headers.deep_view().skip(k),
                                        ));
                                        assert(spec_graph_records(fs@, dirs, v0.skip(k).push(p@))
                                            =~= spec_graph_records(fs@, dirs, v0.skip(k)).push(
                                            (
                                                p@,
                                                spec_locals_lenient(
                                                    dirs,
                                                    import_records(t),
                                                    fs@,
                                                ),
                                            ),
                                        ));
                                        assert(self.import_graph.deep_view() =~= old(
                                            self,
                                        ).import_graph.deep_view() + spec_graph_records(
                                            fs@,
                                            dirs,
                                            analyzed_headers.deep_view().skip(k),
                                        ));
                                        assert forall|i: int, j: int|
                                            0 <= i < j < v0.push(p@).len() implies v0.push(p@)[i]
                                            != v0.push(p@)[j] by {
                                            if j == v0.len() {
                                                assert(v0[i] == v0.push(p@)[i]);
                                            }
                                        }
                                        assert(visited_ok(fs@, analyzed_headers.deep_view()));
                                        lemma_visited_card(fs@, analyzed_headers.deep_view());
                                    }
                                    let imports = extract_imports_of(&t);
                                    match self.resolve_locals(&imports, fs) {
                                        Result::Err(c) => {
                                            return WalkStatus::NeedsFile(c);
                                        },
                                        Result::Ok(resolved) => {
                                            let functions = extract_functions_of(&t);
                                            let types = extract_types_of(&t);
                                            let macros = extract_macros_of(&t);
                                            let description = self.generate_description(
                                                functions.len(),
                                                types.len(),
                                                macros.len(),
                                            );
                                            let summary = HeaderSummary {
                                                path: p.clone(),
                                                description,
                                                functions,
                                                types,
                                                macros,
                                            };
                                            proof {
                                                assert(summary@ == spec_summary(
                                                    p@,
                                                    c_parse_result(content@).unwrap(),
                                                ));
                                            }
                                            stack.push(Task::Emit(summary));
                                            proof {
                                                assert(stack.deep_view() =~= stack0.drop_last()
                                                    .push(
                                                    TaskV::Emit(
                                                        spec_summary(
                                                            p@,
                                                            c_parse_result(content@).unwrap(),
                                                        ),
                                                    ),
                                                ));
                                            }
                                            let ghost base2 = stack.deep_view();
                                            let ghost ps = resolved.deep_view();
                                            let k = resolved.len();
                                            let mut j: usize = 0;
                                            proof {
                                                assert(stack.deep_view() =~= base2 + visits_rev(
                                                    ps,
                                                ).take(0));
                                            }
                                            while j < k
                                                invariant
                                                    k == resolved@.len(),
                                                    ps == resolved.deep_view(),
                                                    ps.len() == k,
                                                    0 <= j <= k,
                                                    stack.deep_view() == base2 + visits_rev(
                                                        ps,
                                                    ).take(j as int),
                                                decreases k - j,
                                            {
                                                let ghost prev = stack.deep_view();
                                                stack.push(
                                                    Task::Visit(resolved[k - 1 - j].clone()),
                                                );
                                                proof {
                                                    assert(resolved@[k - 1 - j].deep_view()
                                                        == ps[k - 1 - j]);
                                                    assert(stack.deep_view() =~= prev.push(
                                                        TaskV::Visit(ps[k - 1 - j]),
                                                    ));
                                                    assert(visits_rev(ps).take(
                                                        (j + 1) as int,
                                                    ).drop_last() =~= visits_rev(ps).take(
                                                        j as int,
                                                    ));
                                                    assert(visits_rev(ps).take(
                                                        (j + 1) as int,
                                                    ).last() == TaskV::Visit(ps[k - 1 - j]));
                                                    assert(stack.deep_view() =~= base2
                                                        + visits_rev(ps).take((j + 1) as int));
                                                }
                                                j = j + 1;
                                            }
                                            proof {
                                                assert(visits_rev(ps).take(k as int)
                                                    =~= visits_rev(ps));
                                                assert(spec_locals(
                                                    dirs,
                                                    import_records(
                                                        c_parse_result(content@).unwrap(),
                                                    ),
                                                    fs@,
                                                ) == LocalsV::Resolved(ps));
                                                assert(spec_run(
                                                    fs@,
                                                    dirs,
                                                    stack.deep_view(),
                                                    analyzed_headers.deep_view(),
                                                    summaries.deep_view(),
                                                ) == res);
                                            }
                                        },
                                    }
                                },
                            },
                        }
                    }
                },
            }
        }
    }

    /// Analyzes one root file: a fresh walk with an empty visited memo and
    /// an empty output list, as one single-shot run.
    pub fn analyze_c_file(&mut self, c_file_path: &str, fs: &FileMap) -> (r: AnalysisOutcome)
        ensures
            final(self).include_paths == old(self).include_paths,
            r@ == spec_analysis(fs@, old(self).include_paths.deep_view(), c_file_path@),
            ({
                let visited = spec_run(
                    fs@,
                    old(self).include_paths.deep_view(),
                    seq![TaskV::Visit(c_file_path@)],
                    Seq::<Seq<char>>::empty(),
                    Seq::<SummaryV>::empty(),
                ).visited;
                final(self).parsed_files.deep_view() == old(self).parsed_files.deep_view()
                    + spec_memo_records(fs@, visited) && final(self).import_graph.deep_view()
                    == old(self).import_graph.deep_view() + spec_graph_records(
                    fs@,
                    old(self).include_paths.deep_view(),
                    visited,
                )
            }),
    {
        let mut analyzed_headers: Vec<String> = Vec::new();
        let mut summaries: Vec<HeaderSummary> = Vec::new();
        proof {
            assert(analyzed_headers.deep_view() =~= Seq::<Seq<char>>::empty());
            assert(summaries.deep_view() =~= Seq::<SummaryV>::empty());
        }
        let r = match self.analyze_file_recursive(
            c_file_path,
            &mut analyzed_headers,
            &mut summaries,
            fs,
        ) {
            WalkStatus::Finished => AnalysisOutcome::Complete(summaries),
            WalkStatus::Failed(e) => AnalysisOutcome::Failed(e),
            WalkStatus::NeedsFile(p) => AnalysisOutcome::NeedsFile(p),
        };
        proof {
            let visited = spec_run(
                fs@,
                old(self).include_paths.deep_view(),
                seq![TaskV::Visit(c_file_path@)],
                Seq::<Seq<char>>::empty(),
                Seq::<SummaryV>::empty(),
            ).visited;
            assert(visited.skip(0) =~= visited);
        }
        r
    }
}

} // verus!

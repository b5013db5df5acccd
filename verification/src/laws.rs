use vstd::prelude::*;

use crate::analyzer::lemma_visited_card;
use crate::analyzer::spec_analysis;
use crate::analyzer::spec_locals;
use crate::analyzer::spec_resolve;
use crate::analyzer::spec_run;
use crate::analyzer::spec_summary;
use crate::analyzer::visited_ok;
use crate::analyzer::visits_rev;
use crate::analyzer::LocalsV;
use crate::analyzer::OutcomeV;
use crate::analyzer::ResolutionV;
use crate::analyzer::TaskV;
use crate::analyzer::WalkRes;
use crate::extract::import_records;
use crate::fs::fs_exists;
use crate::fs::fs_find;
use crate::fs::fs_is_readable;
use crate::fs::FileStateV;
use crate::model::SummaryV;
use crate::syntax::c_parse_result;
use crate::text::spec_join;

verus! {

/// The paths of a summary list, in order.
pub open spec fn summary_paths(s: Seq<SummaryV>) -> Seq<Seq<char>> {
    s.map_values(|x: SummaryV| x.path)
}

/// Resolution honours registration order: when the directory at position
/// `i` holds the import and every directory before it is recorded as not
/// holding it, the resolved path joins directory `i` — whatever any later
/// directory holds.
pub proof fn lemma_resolver_first_match(
    dirs: Seq<Seq<char>>,
    rel: Seq<char>,
    fs: Seq<(Seq<char>, FileStateV)>,
    i: int,
)
    requires
        0 <= i < dirs.len(),
        fs_exists(fs, spec_join(dirs[i], rel)),
        forall|j: int| 0 <= j < i ==> fs_find(fs, spec_join(#[trigger] dirs[j], rel))
            == Option::Some(FileStateV::Absent),
    ensures
        spec_resolve(dirs, rel, fs) == ResolutionV::Found(spec_join(dirs[i], rel)),
    decreases i,
{
    if i > 0 {
        lemma_resolver_first_match(dirs.drop_first(), rel, fs, i - 1);
    }
}

/// The paths of the summaries still pending on the walk stack, in stack
/// order.
pub open spec fn emit_paths(stack: Seq<TaskV>) -> Seq<Seq<char>>
    decreases stack.len(),
{
    if stack.len() == 0 {
        Seq::empty()
    } else {
        emit_paths(stack.drop_last()) + (match stack.last() {
            TaskV::Emit(sum) => seq![sum.path],
            TaskV::Visit(p) => Seq::empty(),
        })
    }
}

proof fn lemma_emit_paths_snoc(stack: Seq<TaskV>, t: TaskV)
    ensures
        emit_paths(stack.push(t)) == emit_paths(stack) + (match t {
            TaskV::Emit(sum) => seq![sum.path],
            TaskV::Visit(p) => Seq::<Seq<char>>::empty(),
        }),
{
    assert(stack.push(t).drop_last() =~= stack);
}

proof fn lemma_emit_paths_visits(a: Seq<TaskV>, ps: Seq<Seq<char>>)
    ensures
        emit_paths(a + visits_rev(ps)) == emit_paths(a),
    decreases ps.len(),
{
    if ps.len() == 0 {
        assert(a + visits_rev(ps) =~= a);
    } else {
        let shorter = a + visits_rev(ps.drop_first());
        assert(a + visits_rev(ps) =~= shorter.push(TaskV::Visit(ps[0])));
        lemma_emit_paths_snoc(shorter, TaskV::Visit(ps[0]));
        assert(emit_paths(shorter.push(TaskV::Visit(ps[0]))) =~= emit_paths(shorter));
        lemma_emit_paths_visits(a, ps.drop_first());
    }
}

/// The walk's bookkeeping: the visited memo is sound, no path is counted
/// twice between the finished summaries and the ones still pending on the
/// stack, every counted path was visited, and every visited path is
/// counted exactly once, finished or pending.
spec fn books_ok(
    fs: Seq<(Seq<char>, FileStateV)>,
    stack: Seq<TaskV>,
    v: Seq<Seq<char>>,
    s: Seq<SummaryV>,
) -> bool {
    &&& visited_ok(fs, v)
    &&& summary_paths(s).no_duplicates()
    &&& emit_paths(stack).no_duplicates()
    &&& (forall|p: Seq<char>| summary_paths(s).contains(p) ==> !emit_paths(stack).contains(p))
    &&& (forall|p: Seq<char>| summary_paths(s).contains(p) ==> v.contains(p))
    &&& (forall|p: Seq<char>| emit_paths(stack).contains(p) ==> v.contains(p))
    &&& (forall|p: Seq<char>|
        v.contains(p) ==> summary_paths(s).contains(p) || emit_paths(stack).contains(p))
}

proof fn lemma_run_books(
    fs: Seq<(Seq<char>, FileStateV)>,
    dirs: Seq<Seq<char>>,
    stack: Seq<TaskV>,
    v: Seq<Seq<char>>,
    s: Seq<SummaryV>,
)
    requires
        books_ok(fs, stack, v, s),
    ensures
        ({
            let r = spec_run(fs, dirs, stack, v, s);
            visited_ok(fs, r.visited) && (r.outcome is Done
                ==> summary_paths(r.summaries).no_duplicates() && (forall|p: Seq<char>|
                summary_paths(r.summaries).contains(p) <==> r.visited.contains(p)))
        }),
    decreases fs.len() - v.len(), stack.len(),
{
    if stack.len() == 0 {
        assert(emit_paths(stack) =~= Seq::<Seq<char>>::empty());
        assert forall|p: Seq<char>| v.contains(p) implies summary_paths(s).contains(p) by {
            assert(!emit_paths(stack).contains(p));
        }
    } else {
        let rest = stack.drop_last();
        match stack.last() {
            TaskV::Emit(sum) => {
                assert(stack =~= rest.push(TaskV::Emit(sum)));
                lemma_emit_paths_snoc(rest, TaskV::Emit(sum));
                assert(emit_paths(stack) =~= emit_paths(rest).push(sum.path));
                let es = emit_paths(stack);
                let er = emit_paths(rest);
                let s1 = s.push(sum);
                assert(summary_paths(s1) =~= summary_paths(s).push(sum.path));
                assert(es.contains(sum.path)) by {
                    assert(es[es.len() - 1] == sum.path);
                }
                assert forall|p: Seq<char>| er.contains(p) implies es.contains(p) by {
                    let i = choose|i: int| 0 <= i < er.len() && er[i] == p;
                    assert(es[i] == p);
                }
                assert(!er.contains(sum.path)) by {
                    if er.contains(sum.path) {
                        let i = choose|i: int| 0 <= i < er.len() && er[i] == sum.path;
                        assert(es[i] == sum.path);
                        assert(es[es.len() - 1] == sum.path);
                    }
                }
                assert forall|i: int, j: int|
                    0 <= i < j < summary_paths(s1).len() implies summary_paths(s1)[i]
                    != summary_paths(s1)[j] by {
                    if j == summary_paths(s).len() {
                        assert(summary_paths(s).contains(summary_paths(s)[i]));
                    }
                }
                assert forall|i: int, j: int| 0 <= i < j < er.len() implies er[i] != er[j] by {
                    assert(es[i] == er[i]);
                    assert(es[j] == er[j]);
                }
                assert forall|p: Seq<char>| summary_paths(s1).contains(p) implies !er.contains(
                    p,
                ) by {
                    if p != sum.path {
                        assert(summary_paths(s).contains(p));
                        assert(!es.contains(p));
                    }
                }
                assert forall|p: Seq<char>| summary_paths(s1).contains(p) implies v.contains(
                    p,
                ) by {
                    if p != sum.path {
                        assert(summary_paths(s).contains(p));
                    }
                }
                assert forall|p: Seq<char>|
                    v.contains(p) implies summary_paths(s1).contains(p) || er.contains(p) by {
                    if es.contains(p) {
                        let i = choose|i: int| 0 <= i < es.len() && es[i] == p;
                        if i < er.len() {
                            assert(er[i] == p);
                        } else {
                            assert(p == sum.path);
                            assert(summary_paths(s1)[summary_paths(s1).len() - 1] == p);
                        }
                    } else {
                        assert(summary_paths(s).contains(p));
                        let i = choose|i: int|
                            0 <= i < summary_paths(s).len() && summary_paths(s)[i] == p;
                        assert(summary_paths(s1)[i] == p);
                    }
                }
                assert(books_ok(fs, rest, v, s1));
                lemma_run_books(fs, dirs, rest, v, s1);
            },
            TaskV::Visit(p) => {
                assert(emit_paths(stack) =~= emit_paths(rest));
                if v.contains(p) {
                    assert(books_ok(fs, rest, v, s));
                    lemma_run_books(fs, dirs, rest, v, s);
                } else {
                    match fs_find(fs, p) {
                        Option::None => {},
                        Option::Some(st) => {
                            if st is Readable {
                                let text = st->Readable_0;
                                match c_parse_result(text) {
                                    Option::None => {},
                                    Option::Some(tree) => {
                                        let v1 = v.push(p);
                                        assert forall|i: int, j: int|
                                            0 <= i < j < v1.len() implies v1[i] != v1[j] by {
                                            if j == v.len() {
                                                assert(v[i] == v1[i]);
                                            }
                                        }
                                        assert(visited_ok(fs, v1));
                                        match spec_locals(dirs, import_records(tree), fs) {
                                            LocalsV::Needs(c) => {},
                                            LocalsV::Resolved(ps) => {
                                                let st1 = rest.push(
                                                    TaskV::Emit(spec_summary(p, tree)),
                                                ) + visits_rev(ps);
                                                lemma_emit_paths_visits(
                                                    rest.push(TaskV::Emit(spec_summary(p, tree))),
                                                    ps,
                                                );
                                                lemma_emit_paths_snoc(
                                                    rest,
                                                    TaskV::Emit(spec_summary(p, tree)),
                                                );
                                                assert(emit_paths(st1) =~= emit_paths(rest).push(
                                                    p,
                                                ));
                                                assert forall|i: int, j: int|
                                                    0 <= i < j < emit_paths(st1).len() implies
                                                    emit_paths(st1)[i] != emit_paths(st1)[j] by {
                                                    if j == emit_paths(rest).len() {
                                                        assert(emit_paths(rest).contains(
                                                            emit_paths(rest)[i],
                                                        ));
                                                    }
                                                }
                                                assert(books_ok(fs, st1, v1, s)) by {
                                                    assert forall|q: Seq<char>|
                                                        v1.contains(q) implies summary_paths(
                                                        s,
                                                    ).contains(q) || emit_paths(st1).contains(
                                                        q,
                                                    ) by {
                                                        if q == p {
                                                            assert(emit_paths(st1)[emit_paths(
                                                                st1,
                                                            ).len() - 1] == p);
                                                        } else {
                                                            let i = choose|i: int|
                                                                0 <= i < v1.len() && v1[i] == q;
                                                            assert(v[i] == q);
                                                            assert(v.contains(q));
                                                            if emit_paths(rest).contains(q) {
                                                                let j = choose|j: int|
                                                                    0 <= j < emit_paths(
                                                                        rest,
                                                                    ).len() && emit_paths(rest)[j]
                                                                        == q;
                                                                assert(emit_paths(st1)[j] == q);
                                                            }
                                                        }
                                                    }
                                                    assert forall|q: Seq<char>|
                                                        emit_paths(st1).contains(q) implies
                                                        v1.contains(q) by {
                                                        let i = choose|i: int|
                                                            0 <= i < emit_paths(st1).len()
                                                                && emit_paths(st1)[i] == q;
                                                        if i < emit_paths(rest).len() {
                                                            assert(emit_paths(rest).contains(q));
                                                            assert(v.contains(q));
                                                            let j = choose|j: int|
                                                                0 <= j < v.len() && v[j] == q;
                                                            assert(v1[j] == q);
                                                        } else {
                                                            assert(q == p);
                                                            assert(v1[v1.len() - 1] == p);
                                                        }
                                                    }
                                                    assert forall|q: Seq<char>|
                                                        summary_paths(s).contains(q) implies
                                                        v1.contains(q) by {
                                                        assert(v.contains(q));
                                                        let j = choose|j: int|
                                                            0 <= j < v.len() && v[j] == q;
                                                        assert(v1[j] == q);
                                                    }
                                                    assert forall|q: Seq<char>|
                                                        summary_paths(s).contains(q) implies
                                                        !emit_paths(st1).contains(q) by {
                                                        assert(v.contains(q));
                                                        if emit_paths(st1).contains(q) {
                                                            let i = choose|i: int|
                                                                0 <= i < emit_paths(st1).len()
                                                                    && emit_paths(st1)[i] == q;
                                                            if i < emit_paths(rest).len() {
                                                                assert(emit_paths(rest).contains(
                                                                    q,
                                                                ));
                                                            } else {
                                                                assert(q == p);
                                                            }
                                                        }
                                                    }
                                                }
                                                lemma_visited_card(fs, v1);
                                                lemma_run_books(fs, dirs, st1, v1, s);
                                            },
                                        }
                                    },
                                }
                            }
                        },
                    }
                }
            },
        }
    }
}

/// One summary per file: a finished walk, cyclic include graphs included,
/// lists no path twice, and its summaries' paths are exactly the visited
/// files — so the number of summaries equals the number of distinct files
/// reached, the root among them.
pub proof fn lemma_one_summary_per_file(
    fs: Seq<(Seq<char>, FileStateV)>,
    dirs: Seq<Seq<char>>,
    root: Seq<char>,
)
    ensures
        ({
            let r = spec_run(
                fs,
                dirs,
                seq![TaskV::Visit(root)],
                Seq::<Seq<char>>::empty(),
                Seq::<SummaryV>::empty(),
            );
            r.outcome is Done ==> summary_paths(r.summaries).no_duplicates() && (forall|
                p: Seq<char>,
            |
                summary_paths(r.summaries).contains(p) <==> r.visited.contains(p))
                && r.summaries.len() == r.visited.len()
        }),
{
    let v0 = Seq::<Seq<char>>::empty();
    let s0 = Seq::<SummaryV>::empty();
    let stack0 = seq![TaskV::Visit(root)];
    assert(stack0.len() == 1);
    assert(stack0.last() == TaskV::Visit(root));
    assert(stack0.drop_last() =~= Seq::<TaskV>::empty());
    assert(emit_paths(Seq::<TaskV>::empty()) == Seq::<Seq<char>>::empty());
    assert(emit_paths(stack0) =~= Seq::<Seq<char>>::empty());
    assert(books_ok(fs, stack0, v0, s0));
    lemma_run_books(fs, dirs, stack0, v0, s0);
    let r = spec_run(fs, dirs, stack0, v0, s0);
    if r.outcome is Done {
        let sp = summary_paths(r.summaries);
        sp.unique_seq_to_set();
        r.visited.unique_seq_to_set();
        assert(sp.to_set() =~= r.visited.to_set());
        assert(r.summaries.len() == r.visited.len());
    }
}

proof fn lemma_locals_all_system(
    dirs: Seq<Seq<char>>,
    imports: Seq<crate::model::ImportV>,
    fs: Seq<(Seq<char>, FileStateV)>,
)
    requires
        forall|i: int| 0 <= i < imports.len() ==> imports[i].is_system,
    ensures
        spec_locals(dirs, imports, fs) == LocalsV::Resolved(Seq::<Seq<char>>::empty()),
    decreases imports.len(),
{
    if imports.len() > 0 {
        assert forall|i: int| 0 <= i < imports.drop_first().len() implies imports.drop_first()[i]
            .is_system by {
            assert(imports.drop_first()[i] == imports[i + 1]);
        }
        lemma_locals_all_system(dirs, imports.drop_first(), fs);
    }
}

/// A system import is never traversed, whatever the search directories hold
/// of its name: a readable root whose imports are all system imports is the
/// run's one and only summary, and its one and only visited file.
pub proof fn lemma_system_imports_not_traversed(
    fs: Seq<(Seq<char>, FileStateV)>,
    dirs: Seq<Seq<char>>,
    root: Seq<char>,
    text: Seq<char>,
    tree: crate::syntax::SyntaxNode,
)
    requires
        fs_find(fs, root) == Option::Some(FileStateV::Readable(text)),
        c_parse_result(text) == Option::Some(tree),
        forall|i: int| 0 <= i < import_records(tree).len() ==> import_records(tree)[i].is_system,
    ensures
        ({
            let r = spec_run(
                fs,
                dirs,
                seq![TaskV::Visit(root)],
                Seq::<Seq<char>>::empty(),
                Seq::<SummaryV>::empty(),
            );
            r.outcome is Done && r.summaries == seq![spec_summary(root, tree)] && r.visited
                == seq![root]
        }),
{
    let v0 = Seq::<Seq<char>>::empty();
    let s0 = Seq::<SummaryV>::empty();
    let st0 = seq![TaskV::Visit(root)];
    lemma_locals_all_system(dirs, import_records(tree), fs);
    assert(visited_ok(fs, v0));
    assert(st0.last() == TaskV::Visit(root));
    assert(!v0.contains(root));
    let v1 = v0.push(root);
    let sum = spec_summary(root, tree);
    let st1 = st0.drop_last().push(TaskV::Emit(sum)) + visits_rev(Seq::<Seq<char>>::empty());
    assert(st1 =~= seq![TaskV::Emit(sum)]);
    assert(visited_ok(fs, v1));
    assert(spec_run(fs, dirs, st0, v0, s0) == spec_run(fs, dirs, st1, v1, s0));
    assert(st1.last() == TaskV::Emit(sum));
    assert(st1.drop_last() =~= Seq::<TaskV>::empty());
    assert(spec_run(fs, dirs, st1, v1, s0) == spec_run(
        fs,
        dirs,
        Seq::<TaskV>::empty(),
        v1,
        s0.push(sum),
    ));
    assert(s0.push(sum) =~= seq![sum]);
    assert(v1 =~= seq![root]);
}

/// An unreadable dependency aborts the whole run: when the root parses and
/// its one resolved local import names a file that exists but cannot be
/// read, the run fails with that path's read error and yields no summary at
/// all, the root's included.
pub proof fn lemma_unreadable_dependency_aborts(
    fs: Seq<(Seq<char>, FileStateV)>,
    dirs: Seq<Seq<char>>,
    root: Seq<char>,
    text: Seq<char>,
    tree: crate::syntax::SyntaxNode,
    dep: Seq<char>,
)
    requires
        fs_find(fs, root) == Option::Some(FileStateV::Readable(text)),
        c_parse_result(text) == Option::Some(tree),
        spec_locals(dirs, import_records(tree), fs) == LocalsV::Resolved(seq![dep]),
        fs_find(fs, dep) == Option::Some(FileStateV::Unreadable),
    ensures
        ({
            let r = spec_run(
                fs,
                dirs,
                seq![TaskV::Visit(root)],
                Seq::<Seq<char>>::empty(),
                Seq::<SummaryV>::empty(),
            );
            r.outcome == OutcomeV::Failed(crate::model::ErrorV::IoError(dep)) && r.summaries
                == Seq::<SummaryV>::empty()
        }),
{
    let v0 = Seq::<Seq<char>>::empty();
    let s0 = Seq::<SummaryV>::empty();
    let st0 = seq![TaskV::Visit(root)];
    assert(visited_ok(fs, v0));
    assert(st0.last() == TaskV::Visit(root));
    assert(!v0.contains(root));
    let v1 = v0.push(root);
    let sum = spec_summary(root, tree);
    let st1 = st0.drop_last().push(TaskV::Emit(sum)) + visits_rev(seq![dep]);
    assert(visits_rev(seq![dep]) =~= seq![TaskV::Visit(dep)]);
    assert(st1 =~= seq![TaskV::Emit(sum), TaskV::Visit(dep)]);
    assert(visited_ok(fs, v1));
    assert(spec_run(fs, dirs, st0, v0, s0) == spec_run(fs, dirs, st1, v1, s0));
    assert(st1.last() == TaskV::Visit(dep));
    assert(dep != root);
    assert(!v1.contains(dep));
    assert(spec_run(fs, dirs, st1, v1, s0) == WalkRes {
        visited: v1,
        summaries: s0,
        outcome: OutcomeV::Failed(crate::model::ErrorV::IoError(dep)),
    });
}

/// A cyclic include graph terminates with exactly one summary per file: two
/// files that each resolve a local import to the other give one summary
/// each, dependency first, and nothing twice.
pub proof fn lemma_cycle_two_files(
    fs: Seq<(Seq<char>, FileStateV)>,
    dirs: Seq<Seq<char>>,
    a: Seq<char>,
    text_a: Seq<char>,
    tree_a: crate::syntax::SyntaxNode,
    b: Seq<char>,
    text_b: Seq<char>,
    tree_b: crate::syntax::SyntaxNode,
)
    requires
        a != b,
        fs_find(fs, a) == Option::Some(FileStateV::Readable(text_a)),
        c_parse_result(text_a) == Option::Some(tree_a),
        spec_locals(dirs, import_records(tree_a), fs) == LocalsV::Resolved(seq![b]),
        fs_find(fs, b) == Option::Some(FileStateV::Readable(text_b)),
        c_parse_result(text_b) == Option::Some(tree_b),
        spec_locals(dirs, import_records(tree_b), fs) == LocalsV::Resolved(seq![a]),
    ensures
        ({
            let r = spec_run(
                fs,
                dirs,
                seq![TaskV::Visit(a)],
                Seq::<Seq<char>>::empty(),
                Seq::<SummaryV>::empty(),
            );
            r.outcome is Done && r.visited == seq![a, b] && r.summaries == seq![
                spec_summary(b, tree_b),
                spec_summary(a, tree_a),
            ]
        }),
{
    let v0 = Seq::<Seq<char>>::empty();
    let s0 = Seq::<SummaryV>::empty();
    let st0 = seq![TaskV::Visit(a)];
    let sum_a = spec_summary(a, tree_a);
    let sum_b = spec_summary(b, tree_b);
    assert(visited_ok(fs, v0));
    assert(st0.last() == TaskV::Visit(a));
    assert(!v0.contains(a));
    let v1 = v0.push(a);
    let st1 = st0.drop_last().push(TaskV::Emit(sum_a)) + visits_rev(seq![b]);
    assert(visits_rev(seq![b]) =~= seq![TaskV::Visit(b)]);
    assert(st1 =~= seq![TaskV::Emit(sum_a), TaskV::Visit(b)]);
    assert(visited_ok(fs, v1));
    assert(spec_run(fs, dirs, st0, v0, s0) == spec_run(fs, dirs, st1, v1, s0));
    assert(st1.last() == TaskV::Visit(b));
    assert(!v1.contains(b));
    let v2 = v1.push(b);
    let st2 = st1.drop_last().push(TaskV::Emit(sum_b)) + visits_rev(seq![a]);
    assert(visits_rev(seq![a]) =~= seq![TaskV::Visit(a)]);
    assert(st2 =~= seq![TaskV::Emit(sum_a), TaskV::Emit(sum_b), TaskV::Visit(a)]);
    assert(visited_ok(fs, v2)) by {
        assert(v2.len() == 2);
        assert(v2[0] == a);
        assert(v2[1] == b);
        assert(fs_is_readable(fs, a));
        assert(fs_is_readable(fs, b));
    }
    assert(spec_run(fs, dirs, st1, v1, s0) == spec_run(fs, dirs, st2, v2, s0));
    assert(st2.last() == TaskV::Visit(a));
    assert(v2.contains(a)) by {
        assert(v2[0] == a);
    }
    let st3 = st2.drop_last();
    assert(st3 =~= seq![TaskV::Emit(sum_a), TaskV::Emit(sum_b)]);
    assert(spec_run(fs, dirs, st2, v2, s0) == spec_run(fs, dirs, st3, v2, s0));
    assert(st3.last() == TaskV::Emit(sum_b));
    let st4 = st3.drop_last();
    assert(st4 =~= seq![TaskV::Emit(sum_a)]);
    let s1 = s0.push(sum_b);
    assert(spec_run(fs, dirs, st3, v2, s0) == spec_run(fs, dirs, st4, v2, s1));
    assert(st4.last() == TaskV::Emit(sum_a));
    assert(st4.drop_last() =~= Seq::<TaskV>::empty());
    let s2 = s1.push(sum_a);
    assert(spec_run(fs, dirs, st4, v2, s1) == spec_run(
        fs,
        dirs,
        Seq::<TaskV>::empty(),
        v2,
        s2,
    ));
    assert(v2 =~= seq![a, b]);
    assert(s2 =~= seq![sum_b, sum_a]);
}

/// The strictly resolved local imports of the file recorded at `q`: empty
/// where the file is missing, unreadable, unparsed, or where resolution
/// still waits on an unrecorded candidate.
pub open spec fn resolved_locals_of(
    fs: Seq<(Seq<char>, FileStateV)>,
    dirs: Seq<Seq<char>>,
    q: Seq<char>,
) -> Seq<Seq<char>> {
    match fs_find(fs, q) {
        Option::Some(st) => match st {
            FileStateV::Readable(text) => match c_parse_result(text) {
                Option::Some(tree) => match spec_locals(dirs, import_records(tree), fs) {
                    LocalsV::Resolved(ps) => ps,
                    LocalsV::Needs(c) => Seq::empty(),
                },
                Option::None => Seq::empty(),
            },
            FileStateV::Unreadable => Seq::empty(),
            FileStateV::Absent => Seq::empty(),
        },
        Option::None => Seq::empty(),
    }
}

/// The paths of the visits still pending on the walk stack, in stack order.
pub open spec fn visit_paths(stack: Seq<TaskV>) -> Seq<Seq<char>>
    decreases stack.len(),
{
    if stack.len() == 0 {
        Seq::empty()
    } else {
        visit_paths(stack.drop_last()) + (match stack.last() {
            TaskV::Visit(p) => seq![p],
            TaskV::Emit(sum) => Seq::empty(),
        })
    }
}

proof fn lemma_visit_paths_snoc(stack: Seq<TaskV>, t: TaskV)
    ensures
        visit_paths(stack.push(t)) == visit_paths(stack) + (match t {
            TaskV::Visit(p) => seq![p],
            TaskV::Emit(sum) => Seq::<Seq<char>>::empty(),
        }),
{
    assert(stack.push(t).drop_last() =~= stack);
}

proof fn lemma_visit_paths_visits(a: Seq<TaskV>, ps: Seq<Seq<char>>)
    ensures
        forall|p: Seq<char>| #[trigger]
            visit_paths(a + visits_rev(ps)).contains(p) <==> visit_paths(a).contains(p)
                || ps.contains(p),
    decreases ps.len(),
{
    if ps.len() == 0 {
        assert(a + visits_rev(ps) =~= a);
        assert(forall|p: Seq<char>| !ps.contains(p));
    } else {
        let shorter = a + visits_rev(ps.drop_first());
        assert(a + visits_rev(ps) =~= shorter.push(TaskV::Visit(ps[0])));
        lemma_visit_paths_snoc(shorter, TaskV::Visit(ps[0]));
        assert(visit_paths(shorter.push(TaskV::Visit(ps[0]))) =~= visit_paths(shorter).push(
            ps[0],
        ));
        lemma_visit_paths_visits(a, ps.drop_first());
        assert forall|p: Seq<char>| #[trigger]
            visit_paths(a + visits_rev(ps)).contains(p) implies visit_paths(a).contains(p)
            || ps.contains(p) by {
            let vp = visit_paths(shorter).push(ps[0]);
            let i = choose|i: int| 0 <= i < vp.len() && vp[i] == p;
            if i < visit_paths(shorter).len() {
                assert(visit_paths(shorter).contains(p));
                if ps.drop_first().contains(p) {
                    let j = choose|j: int|
                        0 <= j < ps.drop_first().len() && ps.drop_first()[j] == p;
                    assert(ps[j + 1] == p);
                }
            } else {
                assert(p == ps[0]);
            }
        }
        assert forall|p: Seq<char>|
            visit_paths(a).contains(p) || ps.contains(p) implies #[trigger] visit_paths(
            a + visits_rev(ps),
        ).contains(p) by {
            let vp = visit_paths(shorter).push(ps[0]);
            if visit_paths(a).contains(p) {
                assert(visit_paths(shorter).contains(p));
                let i = choose|i: int|
                    0 <= i < visit_paths(shorter).len() && visit_paths(shorter)[i] == p;
                assert(vp[i] == p);
            } else {
                let j = choose|j: int| 0 <= j < ps.len() && ps[j] == p;
                if j == 0 {
                    assert(vp[vp.len() - 1] == p);
                } else {
                    assert(ps.drop_first()[j - 1] == p);
                    assert(ps.drop_first().contains(p));
                    assert(visit_paths(shorter).contains(p));
                    let i = choose|i: int|
                        0 <= i < visit_paths(shorter).len() && visit_paths(shorter)[i] == p;
                    assert(vp[i] == p);
                }
            }
        }
    }
}

/// The walk's frontier bookkeeping: every resolved local import of a
/// visited file is visited or pending, and every visited or pending path is
/// a seed or a resolved local import of some visited file.
spec fn closure_inv(
    fs: Seq<(Seq<char>, FileStateV)>,
    dirs: Seq<Seq<char>>,
    seeds: Seq<Seq<char>>,
    stack: Seq<TaskV>,
    v: Seq<Seq<char>>,
) -> bool {
    &&& visited_ok(fs, v)
    &&& (forall|q: Seq<char>, p: Seq<char>|
        v.contains(q) && resolved_locals_of(fs, dirs, q).contains(p) ==> v.contains(p)
            || visit_paths(stack).contains(p))
    &&& (forall|p: Seq<char>|
        visit_paths(stack).contains(p) ==> seeds.contains(p) || exists|q: Seq<char>|
            v.contains(q) && #[trigger] resolved_locals_of(fs, dirs, q).contains(p))
    &&& (forall|p: Seq<char>|
        v.contains(p) ==> seeds.contains(p) || exists|q: Seq<char>|
            v.contains(q) && #[trigger] resolved_locals_of(fs, dirs, q).contains(p))
}

proof fn lemma_run_closure(
    fs: Seq<(Seq<char>, FileStateV)>,
    dirs: Seq<Seq<char>>,
    seeds: Seq<Seq<char>>,
    stack: Seq<TaskV>,
    v: Seq<Seq<char>>,
    s: Seq<SummaryV>,
)
    requires
        closure_inv(fs, dirs, seeds, stack, v),
    ensures
        ({
            let r = spec_run(fs, dirs, stack, v, s);
            (forall|p: Seq<char>| v.contains(p) ==> r.visited.contains(p)) && (r.outcome is Done
                ==> (forall|p: Seq<char>|
                visit_paths(stack).contains(p) ==> r.visited.contains(p)) && (forall|
                q: Seq<char>,
                p: Seq<char>,
            |
                r.visited.contains(q) && resolved_locals_of(fs, dirs, q).contains(p)
                    ==> r.visited.contains(p)) && (forall|p: Seq<char>|
                r.visited.contains(p) ==> seeds.contains(p) || exists|q: Seq<char>|
                    r.visited.contains(q) && #[trigger] resolved_locals_of(fs, dirs, q).contains(
                        p,
                    )))
        }),
    decreases fs.len() - v.len(), stack.len(),
{
    let r = spec_run(fs, dirs, stack, v, s);
    if stack.len() == 0 {
        assert(visit_paths(stack) =~= Seq::<Seq<char>>::empty());
        assert forall|q: Seq<char>, p: Seq<char>|
            r.visited.contains(q) && resolved_locals_of(fs, dirs, q).contains(p) implies
            r.visited.contains(p) by {
            assert(!visit_paths(stack).contains(p));
        }
    } else {
        let rest = stack.drop_last();
        match stack.last() {
            TaskV::Emit(sum) => {
                assert(stack =~= rest.push(TaskV::Emit(sum)));
                lemma_visit_paths_snoc(rest, TaskV::Emit(sum));
                assert(visit_paths(stack) =~= visit_paths(rest));
                assert(closure_inv(fs, dirs, seeds, rest, v));
                lemma_run_closure(fs, dirs, seeds, rest, v, s.push(sum));
            },
            TaskV::Visit(q) => {
                assert(stack =~= rest.push(TaskV::Visit(q)));
                lemma_visit_paths_snoc(rest, TaskV::Visit(q));
                assert(visit_paths(stack) =~= visit_paths(rest).push(q));
                assert(visit_paths(stack).contains(q)) by {
                    assert(visit_paths(stack)[visit_paths(stack).len() - 1] == q);
                }
                assert forall|p: Seq<char>| visit_paths(rest).contains(p) implies visit_paths(
                    stack,
                ).contains(p) by {
                    let i = choose|i: int|
                        0 <= i < visit_paths(rest).len() && visit_paths(rest)[i] == p;
                    assert(visit_paths(stack)[i] == p);
                }
                if v.contains(q) {
                    assert forall|q2: Seq<char>, p: Seq<char>|
                        v.contains(q2) && resolved_locals_of(fs, dirs, q2).contains(p) implies
                        v.contains(p) || visit_paths(rest).contains(p) by {
                        if visit_paths(stack).contains(p) && !v.contains(p) {
                            let i = choose|i: int|
                                0 <= i < visit_paths(stack).len() && visit_paths(stack)[i] == p;
                            if i < visit_paths(rest).len() {
                                assert(visit_paths(rest)[i] == p);
                            } else {
                                assert(p == q);
                            }
                        }
                    }
                    assert(closure_inv(fs, dirs, seeds, rest, v));
                    lemma_run_closure(fs, dirs, seeds, rest, v, s);
                } else {
                    match fs_find(fs, q) {
                        Option::None => {},
                        Option::Some(st) => {
                            if st is Readable {
                                let text = st->Readable_0;
                                match c_parse_result(text) {
                                    Option::None => {},
                                    Option::Some(tree) => {
                                        let v1 = v.push(q);
                                        assert forall|i: int, j: int|
                                            0 <= i < j < v1.len() implies v1[i] != v1[j] by {
                                            if j == v.len() {
                                                assert(v[i] == v1[i]);
                                            }
                                        }
                                        assert(visited_ok(fs, v1));
                                        assert(v1[v1.len() - 1] == q);
                                        assert(v1.contains(q));
                                        assert forall|p: Seq<char>| v.contains(p) implies
                                            v1.contains(p) by {
                                            let i = choose|i: int| 0 <= i < v.len() && v[i] == p;
                                            assert(v1[i] == p);
                                        }
                                        match spec_locals(dirs, import_records(tree), fs) {
                                            LocalsV::Needs(c) => {},
                                            LocalsV::Resolved(ps) => {
                                                assert(resolved_locals_of(fs, dirs, q) == ps);
                                                let mid = rest.push(
                                                    TaskV::Emit(spec_summary(q, tree)),
                                                );
                                                let st1 = mid + visits_rev(ps);
                                                lemma_visit_paths_snoc(
                                                    rest,
                                                    TaskV::Emit(spec_summary(q, tree)),
                                                );
                                                assert(visit_paths(mid) =~= visit_paths(rest));
                                                lemma_visit_paths_visits(mid, ps);
                                                assert(closure_inv(fs, dirs, seeds, st1, v1)) by {
                                                    assert forall|q2: Seq<char>, p: Seq<char>|
                                                        v1.contains(q2) && resolved_locals_of(
                                                            fs,
                                                            dirs,
                                                            q2,
                                                        ).contains(p) implies v1.contains(p)
                                                        || visit_paths(st1).contains(p) by {
                                                        if q2 == q {
                                                            assert(ps.contains(p));
                                                        } else {
                                                            assert(v.contains(q2)) by {
                                                                let i = choose|i: int|
                                                                    0 <= i < v1.len() && v1[i]
                                                                        == q2;
                                                                assert(v[i] == q2);
                                                            }
                                                            if !v.contains(p) {
                                                                assert(visit_paths(
                                                                    stack,
                                                                ).contains(p));
                                                                let i = choose|i: int|
                                                                    0 <= i < visit_paths(
                                                                        stack,
                                                                    ).len() && visit_paths(
                                                                        stack,
                                                                    )[i] == p;
                                                                if i < visit_paths(rest).len() {
                                                                    assert(visit_paths(
                                                                        rest,
                                                                    )[i] == p);
                                                                    assert(visit_paths(
                                                                        rest,
                                                                    ).contains(p));
                                                                } else {
                                                                    assert(p == q);
                                                                }
                                                            }
                                                        }
                                                    }
                                                    assert forall|p: Seq<char>|
                                                        visit_paths(st1).contains(p) implies
                                                        seeds.contains(p) || exists|
                                                        q2: Seq<char>,
                                                    |
                                                        v1.contains(q2)
                                                            && #[trigger] resolved_locals_of(
                                                            fs,
                                                            dirs,
                                                            q2,
                                                        ).contains(p) by {
                                                        if ps.contains(p) {
                                                            assert(v1.contains(q)
                                                                && resolved_locals_of(
                                                                fs,
                                                                dirs,
                                                                q,
                                                            ).contains(p));
                                                        } else {
                                                            assert(visit_paths(rest).contains(p));
                                                            assert(visit_paths(stack).contains(
                                                                p,
                                                            ));
                                                            if !seeds.contains(p) {
                                                                let q2 = choose|q2: Seq<char>|
                                                                    v.contains(q2)
                                                                        && #[trigger] resolved_locals_of(
                                                                        fs,
                                                                        dirs,
                                                                        q2,
                                                                    ).contains(p);
                                                                assert(v1.contains(q2)
                                                                    && resolved_locals_of(
                                                                    fs,
                                                                    dirs,
                                                                    q2,
                                                                ).contains(p));
                                                            }
                                                        }
                                                    }
                                                    assert forall|p: Seq<char>|
                                                        v1.contains(p) implies seeds.contains(p)
                                                            || exists|q2: Seq<char>|
                                                            v1.contains(q2)
                                                                && #[trigger] resolved_locals_of(
                                                                fs,
                                                                dirs,
                                                                q2,
                                                            ).contains(p) by {
                                                        if p == q {
                                                            assert(visit_paths(stack).contains(
                                                                q,
                                                            ));
                                                            if !seeds.contains(q) {
                                                                let q2 = choose|q2: Seq<char>|
                                                                    v.contains(q2)
                                                                        && #[trigger] resolved_locals_of(
                                                                        fs,
                                                                        dirs,
                                                                        q2,
                                                                    ).contains(q);
                                                                assert(v1.contains(q2)
                                                                    && resolved_locals_of(
                                                                    fs,
                                                                    dirs,
                                                                    q2,
                                                                ).contains(q));
                                                            }
                                                        } else if v.contains(p) {
                                                            if !seeds.contains(p) {
                                                                let q2 = choose|q2: Seq<char>|
                                                                    v.contains(q2)
                                                                        && #[trigger] resolved_locals_of(
                                                                        fs,
                                                                        dirs,
                                                                        q2,
                                                                    ).contains(p);
                                                                assert(v1.contains(q2)
                                                                    && resolved_locals_of(
                                                                    fs,
                                                                    dirs,
                                                                    q2,
                                                                ).contains(p));
                                                            }
                                                        } else {
                                                            let i = choose|i: int|
                                                                0 <= i < v1.len() && v1[i] == p;
                                                            assert(false);
                                                        }
                                                    }
                                                }
                                                lemma_visited_card(fs, v1);
                                                lemma_run_closure(fs, dirs, seeds, st1, v1, s);
                                                assert forall|p: Seq<char>|
                                                    visit_paths(stack).contains(p) && r.outcome
                                                        is Done implies r.visited.contains(p) by {
                                                    let i = choose|i: int|
                                                        0 <= i < visit_paths(stack).len()
                                                            && visit_paths(stack)[i] == p;
                                                    if i < visit_paths(rest).len() {
                                                        assert(visit_paths(rest)[i] == p);
                                                        assert(visit_paths(rest).contains(p));
                                                        assert(visit_paths(st1).contains(p));
                                                    } else {
                                                        assert(p == q);
                                                        assert(v1.contains(q));
                                                    }
                                                }
                                            },
                                        }
                                    },
                                }
                            }
                        },
                    }
                }
            },
        }
    }
}

/// Reachability, both ways: a finished run's visited files (and so, by the
/// one-summary law, its summaries) are closed under resolved local imports,
/// include the root, and hold nothing that is not the root or a resolved
/// local import of another visited file. System imports resolve nothing
/// here, so no file enters through one.
pub proof fn lemma_visited_is_reachable_set(
    fs: Seq<(Seq<char>, FileStateV)>,
    dirs: Seq<Seq<char>>,
    root: Seq<char>,
)
    ensures
        ({
            let r = spec_run(
                fs,
                dirs,
                seq![TaskV::Visit(root)],
                Seq::<Seq<char>>::empty(),
                Seq::<SummaryV>::empty(),
            );
            r.outcome is Done ==> r.visited.contains(root) && (forall|q: Seq<char>, p: Seq<char>|
                r.visited.contains(q) && resolved_locals_of(fs, dirs, q).contains(p)
                    ==> r.visited.contains(p)) && (forall|p: Seq<char>|
                r.visited.contains(p) ==> p == root || exists|q: Seq<char>|
                    r.visited.contains(q) && #[trigger] resolved_locals_of(fs, dirs, q).contains(
                        p,
                    ))
        }),
{
    let v0 = Seq::<Seq<char>>::empty();
    let s0 = Seq::<SummaryV>::empty();
    let stack0 = seq![TaskV::Visit(root)];
    let seeds = seq![root];
    assert(stack0.drop_last() =~= Seq::<TaskV>::empty());
    assert(visit_paths(Seq::<TaskV>::empty()) == Seq::<Seq<char>>::empty());
    assert(visit_paths(stack0) =~= seq![root]);
    assert(closure_inv(fs, dirs, seeds, stack0, v0)) by {
        assert forall|p: Seq<char>| visit_paths(stack0).contains(p) implies seeds.contains(
            p,
        ) by {
            assert(p == root);
            assert(seeds[0] == root);
        }
    }
    lemma_run_closure(fs, dirs, seeds, stack0, v0, s0);
    let r = spec_run(fs, dirs, stack0, v0, s0);
    if r.outcome is Done {
        assert(visit_paths(stack0).contains(root)) by {
            assert(visit_paths(stack0)[0] == root);
        }
        assert forall|p: Seq<char>| r.visited.contains(p) implies p == root || exists|
            q: Seq<char>,
        |
            r.visited.contains(q) && #[trigger] resolved_locals_of(fs, dirs, q).contains(p) by {
            if seeds.contains(p) {
                assert(p == root);
            }
        }
    }
}

/// A path enters the walk only through a local import: whatever strict
/// resolution yields was found for an import whose `is_system` is false. A
/// system import resolves nothing, whatever same-named file a search
/// directory holds.
pub proof fn lemma_resolved_paths_come_from_local_imports(
    dirs: Seq<Seq<char>>,
    imports: Seq<crate::model::ImportV>,
    fs: Seq<(Seq<char>, FileStateV)>,
)
    ensures
        (match spec_locals(dirs, imports, fs) {
            LocalsV::Resolved(ps) => forall|j: int|
                0 <= j < ps.len() ==> exists|i: int|
                    0 <= i < imports.len() && !(#[trigger] imports[i]).is_system && spec_resolve(
                        dirs,
                        imports[i].path,
                        fs,
                    ) == ResolutionV::Found(#[trigger] ps[j]),
            LocalsV::Needs(c) => true,
        }),
    decreases imports.len(),
{
    if imports.len() > 0 {
        lemma_resolved_paths_come_from_local_imports(dirs, imports.drop_first(), fs);
        let first = imports[0];
        let rest = spec_locals(dirs, imports.drop_first(), fs);
        match rest {
            LocalsV::Needs(c) => {},
            LocalsV::Resolved(ps0) => {
                assert forall|i: int| 0 <= i < imports.drop_first().len() implies
                    imports.drop_first()[i] == imports[i + 1] by {}
                if first.is_system || spec_resolve(dirs, first.path, fs) is NotFound {
                    match spec_locals(dirs, imports, fs) {
                        LocalsV::Resolved(ps) => {
                            assert(ps == ps0);
                            assert forall|j: int| #![trigger ps[j]] 0 <= j < ps.len() implies exists|i: int|
                                0 <= i < imports.len() && !(#[trigger] imports[i]).is_system
                                    && spec_resolve(dirs, imports[i].path, fs)
                                    == ResolutionV::Found(ps[j]) by {
                                let i0 = choose|i0: int|
                                    0 <= i0 < imports.drop_first().len() && !(
                                    #[trigger] imports.drop_first()[i0]).is_system && spec_resolve(
                                        dirs,
                                        imports.drop_first()[i0].path,
                                        fs,
                                    ) == ResolutionV::Found(ps0[j]);
                                assert(imports[i0 + 1] == imports.drop_first()[i0]);
                            }
                        },
                        LocalsV::Needs(c) => {},
                    }
                } else {
                    match spec_resolve(dirs, first.path, fs) {
                        ResolutionV::Unknown(c) => {},
                        ResolutionV::NotFound => {},
                        ResolutionV::Found(p) => {
                            let ps = seq![p] + ps0;
                            assert(spec_locals(dirs, imports, fs) == LocalsV::Resolved(ps));
                            assert forall|j: int| #![trigger ps[j]] 0 <= j < ps.len() implies exists|i: int|
                                0 <= i < imports.len() && !(#[trigger] imports[i]).is_system
                                    && spec_resolve(dirs, imports[i].path, fs)
                                    == ResolutionV::Found(ps[j]) by {
                                if j == 0 {
                                    assert(ps[0] == p);
                                    assert(!imports[0].is_system);
                                } else {
                                    assert(ps[j] == ps0[j - 1]);
                                    let i0 = choose|i0: int|
                                        0 <= i0 < imports.drop_first().len() && !(
                                        #[trigger] imports.drop_first()[i0]).is_system
                                            && spec_resolve(
                                            dirs,
                                            imports.drop_first()[i0].path,
                                            fs,
                                        ) == ResolutionV::Found(ps0[j - 1]);
                                    assert(imports[i0 + 1] == imports.drop_first()[i0]);
                                }
                            }
                        },
                    }
                }
            },
        }
    }
}

/// The whole of the count law: a complete analysis yields one summary per
/// file of the root's local-import closure — the summary paths hold no
/// duplicates, include the root, are closed under resolved local imports,
/// and hold nothing that is not the root or a resolved local import of
/// another summarized file. Their number is therefore the number of
/// distinct files reachable from the root through local includes.
pub proof fn lemma_complete_analysis_summarizes_reachable_files(
    fs: Seq<(Seq<char>, FileStateV)>,
    dirs: Seq<Seq<char>>,
    root: Seq<char>,
)
    ensures
        (match spec_analysis(fs, dirs, root) {
            crate::analyzer::AnalysisOutcomeV::Complete(sums) => {
                let paths = summary_paths(sums);
                &&& paths.no_duplicates()
                &&& paths.contains(root)
                &&& (forall|q: Seq<char>, p: Seq<char>|
                    paths.contains(q) && resolved_locals_of(fs, dirs, q).contains(p)
                        ==> paths.contains(p))
                &&& (forall|p: Seq<char>|
                    paths.contains(p) ==> p == root || exists|q: Seq<char>|
                        paths.contains(q) && #[trigger] resolved_locals_of(fs, dirs, q).contains(
                            p,
                        ))
            },
            crate::analyzer::AnalysisOutcomeV::Failed(e) => true,
            crate::analyzer::AnalysisOutcomeV::NeedsFile(p) => true,
        }),
{
    lemma_one_summary_per_file(fs, dirs, root);
    lemma_visited_is_reachable_set(fs, dirs, root);
    let r = spec_run(
        fs,
        dirs,
        seq![TaskV::Visit(root)],
        Seq::<Seq<char>>::empty(),
        Seq::<SummaryV>::empty(),
    );
    if r.outcome is Done {
        let paths = summary_paths(r.summaries);
        assert forall|p: Seq<char>| paths.contains(p) implies p == root || exists|q: Seq<char>|
            paths.contains(q) && #[trigger] resolved_locals_of(fs, dirs, q).contains(p) by {
            assert(r.visited.contains(p));
            if p != root {
                let q = choose|q: Seq<char>|
                    r.visited.contains(q) && #[trigger] resolved_locals_of(fs, dirs, q).contains(
                        p,
                    );
                assert(paths.contains(q));
            }
        }
    }
}

/// `p` lies within `n` steps of the root through resolved local imports.
pub open spec fn reachable_within(
    fs: Seq<(Seq<char>, FileStateV)>,
    dirs: Seq<Seq<char>>,
    root: Seq<char>,
    p: Seq<char>,
    n: nat,
) -> bool
    decreases n,
{
    p == root || (n > 0 && exists|q: Seq<char>| #[trigger]
        resolved_locals_of(fs, dirs, q).contains(p) && reachable_within(
            fs,
            dirs,
            root,
            q,
            (n - 1) as nat,
        ))
}

/// `p` is reachable from the root through resolved local imports: the least
/// set holding the root and closed under the files each member resolves.
pub open spec fn reachable(
    fs: Seq<(Seq<char>, FileStateV)>,
    dirs: Seq<Seq<char>>,
    root: Seq<char>,
    p: Seq<char>,
) -> bool {
    exists|n: nat| #[trigger] reachable_within(fs, dirs, root, p, n)
}

proof fn lemma_reachable_is_visited(
    fs: Seq<(Seq<char>, FileStateV)>,
    dirs: Seq<Seq<char>>,
    root: Seq<char>,
    p: Seq<char>,
    n: nat,
)
    requires
        reachable_within(fs, dirs, root, p, n),
        spec_run(
            fs,
            dirs,
            seq![TaskV::Visit(root)],
            Seq::<Seq<char>>::empty(),
            Seq::<SummaryV>::empty(),
        ).outcome is Done,
    ensures
        spec_run(
            fs,
            dirs,
            seq![TaskV::Visit(root)],
            Seq::<Seq<char>>::empty(),
            Seq::<SummaryV>::empty(),
        ).visited.contains(p),
    decreases n,
{
    lemma_visited_is_reachable_set(fs, dirs, root);
    if p != root {
        let q = choose|q: Seq<char>| #[trigger]
            resolved_locals_of(fs, dirs, q).contains(p) && reachable_within(
                fs,
                dirs,
                root,
                q,
                (n - 1) as nat,
            );
        lemma_reachable_is_visited(fs, dirs, root, q, (n - 1) as nat);
    }
}

/// Everything visited or on the frontier is reachable from the root.
spec fn frontier_reachable(
    fs: Seq<(Seq<char>, FileStateV)>,
    dirs: Seq<Seq<char>>,
    root: Seq<char>,
    stack: Seq<TaskV>,
    v: Seq<Seq<char>>,
) -> bool {
    &&& (forall|p: Seq<char>| v.contains(p) ==> reachable(fs, dirs, root, p))
    &&& (forall|p: Seq<char>| visit_paths(stack).contains(p) ==> reachable(fs, dirs, root, p))
}

proof fn lemma_run_reachable(
    fs: Seq<(Seq<char>, FileStateV)>,
    dirs: Seq<Seq<char>>,
    root: Seq<char>,
    stack: Seq<TaskV>,
    v: Seq<Seq<char>>,
    s: Seq<SummaryV>,
)
    requires
        visited_ok(fs, v),
        frontier_reachable(fs, dirs, root, stack, v),
    ensures
        forall|p: Seq<char>|
            spec_run(fs, dirs, stack, v, s).visited.contains(p) ==> reachable(fs, dirs, root, p),
    decreases fs.len() - v.len(), stack.len(),
{
    if stack.len() == 0 {
    } else {
        let rest = stack.drop_last();
        match stack.last() {
            TaskV::Emit(sum) => {
                assert(stack =~= rest.push(TaskV::Emit(sum)));
                lemma_visit_paths_snoc(rest, TaskV::Emit(sum));
                assert(visit_paths(stack) =~= visit_paths(rest));
                lemma_run_reachable(fs, dirs, root, rest, v, s.push(sum));
            },
            TaskV::Visit(q) => {
                assert(stack =~= rest.push(TaskV::Visit(q)));
                lemma_visit_paths_snoc(rest, TaskV::Visit(q));
                assert(visit_paths(stack) =~= visit_paths(rest).push(q));
                assert(visit_paths(stack).contains(q)) by {
                    assert(visit_paths(stack)[visit_paths(stack).len() - 1] == q);
                }
                assert forall|p: Seq<char>| visit_paths(rest).contains(p) implies visit_paths(
                    stack,
                ).contains(p) by {
                    let i = choose|i: int|
                        0 <= i < visit_paths(rest).len() && visit_paths(rest)[i] == p;
                    assert(visit_paths(stack)[i] == p);
                }
                if v.contains(q) {
                    lemma_run_reachable(fs, dirs, root, rest, v, s);
                } else {
                    match fs_find(fs, q) {
                        Option::None => {},
                        Option::Some(st) => {
                            if st is Readable {
                                let text = st->Readable_0;
                                match c_parse_result(text) {
                                    Option::None => {},
                                    Option::Some(tree) => {
                                        let v1 = v.push(q);
                                        assert forall|i: int, j: int|
                                            0 <= i < j < v1.len() implies v1[i] != v1[j] by {
                                            if j == v.len() {
                                                assert(v[i] == v1[i]);
                                            }
                                        }
                                        assert(visited_ok(fs, v1));
                                        assert forall|p: Seq<char>| v1.contains(p) implies
                                            reachable(fs, dirs, root, p) by {
                                            let i = choose|i: int| 0 <= i < v1.len() && v1[i] == p;
                                            if i < v.len() {
                                                assert(v.contains(p));
                                            } else {
                                                assert(p == q);
                                            }
                                        }
                                        match spec_locals(dirs, import_records(tree), fs) {
                                            LocalsV::Needs(c) => {},
                                            LocalsV::Resolved(ps) => {
                                                assert(resolved_locals_of(fs, dirs, q) == ps);
                                                let mid = rest.push(
                                                    TaskV::Emit(spec_summary(q, tree)),
                                                );
                                                let st1 = mid + visits_rev(ps);
                                                lemma_visit_paths_snoc(
                                                    rest,
                                                    TaskV::Emit(spec_summary(q, tree)),
                                                );
                                                assert(visit_paths(mid) =~= visit_paths(rest));
                                                lemma_visit_paths_visits(mid, ps);
                                                let qn = choose|qn: nat| #[trigger]
                                                    reachable_within(fs, dirs, root, q, qn);
                                                assert forall|p: Seq<char>|
                                                    visit_paths(st1).contains(p) implies
                                                    reachable(fs, dirs, root, p) by {
                                                    if ps.contains(p) {
                                                        assert(reachable_within(
                                                            fs,
                                                            dirs,
                                                            root,
                                                            p,
                                                            qn + 1,
                                                        )) by {
                                                            assert(resolved_locals_of(
                                                                fs,
                                                                dirs,
                                                                q,
                                                            ).contains(p) && reachable_within(
                                                                fs,
                                                                dirs,
                                                                root,
                                                                q,
                                                                (qn + 1 - 1) as nat,
                                                            ));
                                                        }
                                                    } else {
                                                        assert(visit_paths(rest).contains(p));
                                                        assert(visit_paths(stack).contains(p));
                                                    }
                                                }
                                                lemma_visited_card(fs, v1);
                                                lemma_run_reachable(
                                                    fs,
                                                    dirs,
                                                    root,
                                                    st1,
                                                    v1,
                                                    s,
                                                );
                                            },
                                        }
                                    },
                                }
                            }
                        },
                    }
                }
            },
        }
    }
}

/// The count law in full: a finished walk's visited files — and with the
/// one-summary law, its summaries — are exactly the files reachable from
/// the root through resolved local imports, however the graph branches or
/// cycles.
pub proof fn lemma_visited_equals_reachable(
    fs: Seq<(Seq<char>, FileStateV)>,
    dirs: Seq<Seq<char>>,
    root: Seq<char>,
)
    ensures
        ({
            let r = spec_run(
                fs,
                dirs,
                seq![TaskV::Visit(root)],
                Seq::<Seq<char>>::empty(),
                Seq::<SummaryV>::empty(),
            );
            r.outcome is Done ==> forall|p: Seq<char>|
                r.visited.contains(p) <==> reachable(fs, dirs, root, p)
        }),
{
    let v0 = Seq::<Seq<char>>::empty();
    let s0 = Seq::<SummaryV>::empty();
    let stack0 = seq![TaskV::Visit(root)];
    let r = spec_run(fs, dirs, stack0, v0, s0);
    assert(stack0.drop_last() =~= Seq::<TaskV>::empty());
    assert(visit_paths(Seq::<TaskV>::empty()) == Seq::<Seq<char>>::empty());
    assert(visit_paths(stack0) =~= seq![root]);
    assert(frontier_reachable(fs, dirs, root, stack0, v0)) by {
        assert forall|p: Seq<char>| visit_paths(stack0).contains(p) implies reachable(
            fs,
            dirs,
            root,
            p,
        ) by {
            assert(p == root);
            assert(reachable_within(fs, dirs, root, root, 0));
        }
    }
    lemma_run_reachable(fs, dirs, root, stack0, v0, s0);
    if r.outcome is Done {
        assert forall|p: Seq<char>| reachable(fs, dirs, root, p) implies r.visited.contains(
            p,
        ) by {
            let n = choose|n: nat| #[trigger] reachable_within(fs, dirs, root, p, n);
            lemma_reachable_is_visited(fs, dirs, root, p, n);
        }
    }
}

/// An unreadable reachable dependency forbids completion: no walk whose
/// root can reach a file that exists but cannot be read ever finishes with
/// a summary list — the fully general shape of the abort law.
pub proof fn lemma_reachable_unreadable_never_completes(
    fs: Seq<(Seq<char>, FileStateV)>,
    dirs: Seq<Seq<char>>,
    root: Seq<char>,
    dep: Seq<char>,
)
    requires
        reachable(fs, dirs, root, dep),
        fs_find(fs, dep) == Option::Some(FileStateV::Unreadable),
    ensures
        !(spec_run(
            fs,
            dirs,
            seq![TaskV::Visit(root)],
            Seq::<Seq<char>>::empty(),
            Seq::<SummaryV>::empty(),
        ).outcome is Done),
{
    let v0 = Seq::<Seq<char>>::empty();
    let s0 = Seq::<SummaryV>::empty();
    let stack0 = seq![TaskV::Visit(root)];
    let r = spec_run(fs, dirs, stack0, v0, s0);
    if r.outcome is Done {
        lemma_visited_equals_reachable(fs, dirs, root);
        assert(r.visited.contains(dep));
        assert(stack0.drop_last() =~= Seq::<TaskV>::empty());
        assert(emit_paths(Seq::<TaskV>::empty()) == Seq::<Seq<char>>::empty());
        assert(emit_paths(stack0) =~= Seq::<Seq<char>>::empty());
        assert(books_ok(fs, stack0, v0, s0));
        lemma_run_books(fs, dirs, stack0, v0, s0);
        assert(fs_is_readable(fs, dep)) by {
            let i = choose|i: int| 0 <= i < r.visited.len() && r.visited[i] == dep;
        }
        assert(false);
    }
}

/// Analysis is deterministic: the outcome is a function of the root path,
/// the search directories, and the recorded filesystem alone, so two runs
/// over equal inputs end byte for byte alike.
pub proof fn lemma_analysis_deterministic(
    fs1: Seq<(Seq<char>, FileStateV)>,
    dirs1: Seq<Seq<char>>,
    root1: Seq<char>,
    fs2: Seq<(Seq<char>, FileStateV)>,
    dirs2: Seq<Seq<char>>,
    root2: Seq<char>,
)
    requires
        fs1 == fs2,
        dirs1 == dirs2,
        root1 == root2,
    ensures
        spec_analysis(fs1, dirs1, root1) == spec_analysis(fs2, dirs2, root2),
{
}

} // verus!

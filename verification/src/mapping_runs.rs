//! Runs of mapped guest RAM, each with the generation of the mapping.
use crate::guest_memory::GuestRange;
use vstd::prelude::*;

verus! {

/// The age of a mapping: a restored range gets a generation that was never used before.
#[derive(Clone, Copy, Debug, PartialEq, Eq, PartialOrd, Ord, Structural)]
pub struct MappingGeneration(pub u64);

impl MappingGeneration {
    /// The generation of RAM that was never released.
    pub fn initial() -> (result: MappingGeneration)
        ensures
            result == MappingGeneration(0),
    {
        MappingGeneration(0)
    }

    pub fn value(self) -> (result: u64)
        ensures
            result == self.0,
    {
        self.0
    }
}

/// A stretch of mapped RAM whose addresses share one generation.
#[derive(Clone, Copy, Debug, PartialEq, Eq, Structural)]
pub struct MappingRun {
    pub range: GuestRange,
    pub generation: MappingGeneration,
}

/// Runs are nonempty, ordered by address, and do not overlap.
pub open spec fn runs_ordered(runs: Seq<MappingRun>) -> bool {
    &&& forall|i: int| 0 <= i < runs.len() ==> (#[trigger] runs[i]).range.valid()
    &&& forall|i: int, j: int|
        0 <= i < j < runs.len() ==> (#[trigger] runs[i]).range.end <= (#[trigger] runs[j]).range.start
}

/// Whether `address` is mapped with `generation`.
pub open spec fn mapped_with(
    runs: Seq<MappingRun>,
    address: int,
    generation: MappingGeneration,
) -> bool {
    exists|i: int|
        0 <= i < runs.len() && (#[trigger] runs[i]).range.has(address) && runs[i].generation
            == generation
}

/// Whether `address` is mapped at all.
pub open spec fn mapped(runs: Seq<MappingRun>, address: int) -> bool {
    exists|i: int| 0 <= i < runs.len() && (#[trigger] runs[i]).range.has(address)
}

/// Whether every address of `range` is mapped.
pub open spec fn all_mapped(runs: Seq<MappingRun>, range: GuestRange) -> bool {
    forall|a: int| #[trigger] range.has(a) ==> mapped(runs, a)
}

/// What is left of one run when `cut` is taken out.
pub open spec fn run_pieces(run: MappingRun, cut: GuestRange) -> Seq<MappingRun> {
    if !run.range.meets(cut) {
        seq![run]
    } else {
        let left = if run.range.start < cut.start {
            seq![
                MappingRun {
                    range: GuestRange { start: run.range.start, end: cut.start },
                    generation: run.generation,
                },
            ]
        } else {
            seq![]
        };
        let right = if cut.end < run.range.end {
            seq![
                MappingRun {
                    range: GuestRange { start: cut.end, end: run.range.end },
                    generation: run.generation,
                },
            ]
        } else {
            seq![]
        };
        left + right
    }
}

/// What is left of all runs when `cut` is taken out.
pub open spec fn carve_spec(runs: Seq<MappingRun>, cut: GuestRange) -> Seq<MappingRun>
    decreases runs.len(),
{
    if runs.len() == 0 {
        seq![]
    } else {
        carve_spec(runs.drop_last(), cut) + run_pieces(runs.last(), cut)
    }
}

/// The runs with `run` put behind those that start no later.
pub open spec fn insert_spec(runs: Seq<MappingRun>, run: MappingRun) -> Seq<MappingRun>
    decreases runs.len(),
{
    if runs.len() == 0 {
        seq![run]
    } else if runs.last().range.start <= run.range.start {
        runs.push(run)
    } else {
        insert_spec(runs.drop_last(), run).push(runs.last())
    }
}

/// The runs with neighbours that touch and share a generation joined.
pub open spec fn coalesce_spec(runs: Seq<MappingRun>) -> Seq<MappingRun>
    decreases runs.len(),
{
    if runs.len() == 0 {
        seq![]
    } else {
        let done = coalesce_spec(runs.drop_last());
        let run = runs.last();
        if done.len() > 0 && done.last().range.end == run.range.start && done.last().generation
            == run.generation {
            done.update(
                done.len() - 1,
                MappingRun {
                    range: GuestRange { start: done.last().range.start, end: run.range.end },
                    generation: run.generation,
                },
            )
        } else {
            done.push(run)
        }
    }
}

/// How many addresses between `lo` and `hi` one run holds.
pub open spec fn run_share(run: MappingRun, lo: int, hi: int) -> int {
    let start = if run.range.start > lo {
        run.range.start as int
    } else {
        lo
    };
    let end = if run.range.end < hi {
        run.range.end as int
    } else {
        hi
    };
    if end > start {
        end - start
    } else {
        0
    }
}

/// How many addresses between `lo` and `hi` all runs together hold.
pub open spec fn covered(runs: Seq<MappingRun>, lo: int, hi: int) -> int
    decreases runs.len(),
{
    if runs.len() == 0 {
        0
    } else {
        covered(runs.drop_last(), lo, hi) + run_share(runs.last(), lo, hi)
    }
}

proof fn lemma_covered_bounds(runs: Seq<MappingRun>, lo: int, hi: int)
    requires
        runs_ordered(runs),
        lo <= hi,
    ensures
        0 <= covered(runs, lo, hi) <= hi - lo,
        runs.len() > 0 && runs.last().range.end <= hi && runs.last().range.end >= lo ==> covered(
            runs,
            lo,
            hi,
        ) <= runs.last().range.end - lo,
    decreases runs.len(),
{
    if runs.len() > 0 {
        let rest = runs.drop_last();
        let last = runs.last();
        let cap = if last.range.start < hi {
            if last.range.start > lo {
                last.range.start as int
            } else {
                lo
            }
        } else {
            hi
        };
        lemma_covered_bounds(rest, lo, cap);
        lemma_covered_tail(rest, lo, cap, hi);
    }
}

/// Runs that all end by `cap` (or lie below `lo`) hold nothing beyond it.
proof fn lemma_covered_tail(runs: Seq<MappingRun>, lo: int, cap: int, hi: int)
    requires
        runs_ordered(runs),
        lo <= cap <= hi,
        forall|i: int|
            0 <= i < runs.len() ==> (#[trigger] runs[i]).range.end <= cap || cap == hi,
    ensures
        covered(runs, lo, hi) == covered(runs, lo, cap),
    decreases runs.len(),
{
    if runs.len() > 0 {
        let rest = runs.drop_last();
        assert forall|i: int| 0 <= i < rest.len() implies (#[trigger] rest[i]).range.end <= cap
            || cap == hi by {
            assert(rest[i] == runs[i]);
        }
        lemma_covered_tail(rest, lo, cap, hi);
        assert(runs[runs.len() - 1] == runs.last());
    }
}

proof fn lemma_covered_split(runs: Seq<MappingRun>, lo: int, mid: int, hi: int)
    requires
        lo <= mid <= hi,
        runs_ordered(runs),
    ensures
        covered(runs, lo, hi) == covered(runs, lo, mid) + covered(runs, mid, hi),
    decreases runs.len(),
{
    if runs.len() > 0 {
        lemma_covered_split(runs.drop_last(), lo, mid, hi);
        assert(runs[runs.len() - 1] == runs.last());
    }
}

/// A single address counts once where it is mapped and not at all where it is not.
proof fn lemma_covered_one(runs: Seq<MappingRun>, a: int)
    requires
        runs_ordered(runs),
    ensures
        covered(runs, a, a + 1) == if mapped(runs, a) {
            1int
        } else {
            0
        },
    decreases runs.len(),
{
    if runs.len() > 0 {
        let rest = runs.drop_last();
        lemma_covered_one(rest, a);
        if mapped(rest, a) {
            let i = choose|i: int| 0 <= i < rest.len() && (#[trigger] rest[i]).range.has(a);
            assert(runs[i].range.has(a));
            assert(runs[i].range.end <= runs[runs.len() - 1].range.start);
            assert(mapped(runs, a));
        } else if runs.last().range.has(a) {
            assert(runs[runs.len() - 1].range.has(a));
            assert(mapped(runs, a));
        } else if mapped(runs, a) {
            let i = choose|i: int| 0 <= i < runs.len() && (#[trigger] runs[i]).range.has(a);
            assert(i < rest.len());
            assert(rest[i].range.has(a));
        }
    }
}

/// The runs hold as many addresses as a range has exactly where all of it is mapped.
proof fn lemma_covered_iff_all_mapped(runs: Seq<MappingRun>, range: GuestRange)
    requires
        runs_ordered(runs),
        range.start <= range.end,
    ensures
        covered(runs, range.start as int, range.end as int) == range.size() <==> all_mapped(
            runs,
            range,
        ),
{
    let lo = range.start as int;
    let hi = range.end as int;
    if all_mapped(runs, range) {
        assert forall|a: int| lo <= a < hi implies #[trigger] mapped(runs, a) by {
            assert(range.has(a));
        }
        lemma_covered_count(runs, lo, hi);
    } else {
        let a = choose|a: int| #[trigger] range.has(a) && !mapped(runs, a);
        lemma_covered_split(runs, lo, a, hi);
        lemma_covered_split(runs, a, a + 1, hi);
        lemma_covered_one(runs, a);
        lemma_covered_bounds(runs, lo, a);
        lemma_covered_bounds(runs, a + 1, hi);
    }
}

proof fn lemma_covered_count(runs: Seq<MappingRun>, lo: int, hi: int)
    requires
        runs_ordered(runs),
        lo <= hi,
        forall|a: int| lo <= a < hi ==> #[trigger] mapped(runs, a),
    ensures
        covered(runs, lo, hi) == hi - lo,
    decreases hi - lo,
{
    if lo < hi {
        lemma_covered_split(runs, lo, hi - 1, hi);
        lemma_covered_one(runs, hi - 1);
        assert(mapped(runs, hi - 1));
        lemma_covered_count(runs, lo, hi - 1);
    } else {
        lemma_covered_bounds(runs, lo, hi);
    }
}

/// Carving takes out the addresses of the cut and leaves every other address mapped as
/// it was, in order.
pub proof fn law_carve_removes_exactly_the_cut(runs: Seq<MappingRun>, cut: GuestRange)
    requires
        runs_ordered(runs),
        cut.valid(),
    ensures
        runs_ordered(carve_spec(runs, cut)),
        forall|a: int, g: MappingGeneration|
            #[trigger] mapped_with(carve_spec(runs, cut), a, g) <==> mapped_with(runs, a, g)
                && !cut.has(a),
        runs.len() > 0 ==> forall|i: int|
            0 <= i < carve_spec(runs, cut).len() ==> (#[trigger] carve_spec(
                runs,
                cut,
            )[i]).range.end <= runs.last().range.end,
        carve_spec(runs, cut).len() <= runs.len() + 1,
        runs.len() > 0 && runs.last().range.end <= cut.end ==> carve_spec(runs, cut).len()
            <= runs.len(),
    decreases runs.len(),
{
    if runs.len() > 0 {
        let rest = runs.drop_last();
        let last = runs.last();
        law_carve_removes_exactly_the_cut(rest, cut);
        let done = carve_spec(rest, cut);
        let pieces = run_pieces(last, cut);
        let all = carve_spec(runs, cut);
        assert(all == done + pieces);
        assert(runs[runs.len() - 1] == last);
        if rest.len() > 0 {
            assert(rest.last() == runs[runs.len() - 2]);
            assert(runs[runs.len() - 2].range.end <= runs[runs.len() - 1].range.start);
        } else {
            assert(done.len() == 0);
        }
        assert forall|i: int| 0 <= i < all.len() implies (#[trigger] all[i]).range.valid()
            && all[i].range.end <= last.range.end by {
            if i < done.len() {
                assert(all[i] == done[i]);
            } else {
                assert(all[i] == pieces[i - done.len()]);
            }
        }
        assert forall|i: int, j: int| 0 <= i < j < all.len() implies (#[trigger] all[i]).range.end
            <= (#[trigger] all[j]).range.start by {
            if j < done.len() {
                assert(all[i] == done[i] && all[j] == done[j]);
            } else {
                assert(all[j] == pieces[j - done.len()]);
                if i < done.len() {
                    assert(all[i] == done[i]);
                } else {
                    assert(all[i] == pieces[i - done.len()]);
                }
            }
        }
        assert forall|a: int, g: MappingGeneration|
            #[trigger] mapped_with(all, a, g) <==> mapped_with(runs, a, g) && !cut.has(a) by {
            assert(mapped_with(done, a, g) <==> mapped_with(rest, a, g) && !cut.has(a));
            assert(mapped_with(runs, a, g) <==> mapped_with(rest, a, g) || (last.range.has(a)
                && last.generation == g)) by {
                if mapped_with(rest, a, g) {
                    let i = choose|i: int|
                        0 <= i < rest.len() && (#[trigger] rest[i]).range.has(a)
                            && rest[i].generation == g;
                    assert(runs[i] == rest[i]);
                }
                if mapped_with(runs, a, g) {
                    let i = choose|i: int|
                        0 <= i < runs.len() && (#[trigger] runs[i]).range.has(a)
                            && runs[i].generation == g;
                    if i < rest.len() {
                        assert(rest[i] == runs[i]);
                    }
                }
            }
            assert(mapped_with(all, a, g) <==> mapped_with(done, a, g) || mapped_with(
                pieces,
                a,
                g,
            )) by {
                if mapped_with(done, a, g) {
                    let i = choose|i: int|
                        0 <= i < done.len() && (#[trigger] done[i]).range.has(a)
                            && done[i].generation == g;
                    assert(all[i] == done[i]);
                }
                if mapped_with(pieces, a, g) {
                    let i = choose|i: int|
                        0 <= i < pieces.len() && (#[trigger] pieces[i]).range.has(a)
                            && pieces[i].generation == g;
                    assert(all[i + done.len()] == pieces[i]);
                }
                if mapped_with(all, a, g) {
                    let i = choose|i: int|
                        0 <= i < all.len() && (#[trigger] all[i]).range.has(a) && all[i].generation
                            == g;
                    if i < done.len() {
                        assert(all[i] == done[i]);
                    } else {
                        assert(all[i] == pieces[i - done.len()]);
                    }
                }
            }
            lemma_pieces(last, cut, a, g);
        }
    }
}

proof fn lemma_pieces(run: MappingRun, cut: GuestRange, a: int, g: MappingGeneration)
    requires
        run.range.valid(),
        cut.valid(),
    ensures
        mapped_with(run_pieces(run, cut), a, g) <==> run.range.has(a) && run.generation == g
            && !cut.has(a),
{
    let pieces = run_pieces(run, cut);
    if run.range.has(a) && run.generation == g && !cut.has(a) {
        if !run.range.meets(cut) || a < cut.start {
            assert(pieces[0].range.has(a) && pieces[0].generation == g);
        } else {
            let k = pieces.len() - 1;
            assert(pieces[k].range.has(a) && pieces[k].generation == g);
        }
    }
}

/// Inserting a run that meets no other keeps the order, and maps its addresses besides
/// those that were mapped.
pub proof fn law_insert_adds_exactly_the_run(runs: Seq<MappingRun>, run: MappingRun)
    requires
        runs_ordered(runs),
        run.range.valid(),
        forall|i: int| 0 <= i < runs.len() ==> !(#[trigger] runs[i]).range.meets(run.range),
    ensures
        runs_ordered(insert_spec(runs, run)),
        insert_spec(runs, run).len() == runs.len() + 1,
        forall|a: int, g: MappingGeneration|
            #[trigger] mapped_with(insert_spec(runs, run), a, g) <==> mapped_with(runs, a, g) || (
            run.range.has(a) && run.generation == g),
        forall|i: int|
            0 <= i < insert_spec(runs, run).len() ==> #[trigger] insert_spec(runs, run)[i] == run
                || runs.contains(insert_spec(runs, run)[i]),
    decreases runs.len(),
{
    let all = insert_spec(runs, run);
    if runs.len() == 0 {
        assert(all[0] == run);
        assert forall|a: int, g: MappingGeneration|
            #[trigger] mapped_with(all, a, g) <==> mapped_with(runs, a, g) || (run.range.has(a)
                && run.generation == g) by {
            if run.range.has(a) && run.generation == g {
                assert(all[0].range.has(a));
            }
        }
    } else {
        let last = runs.last();
        let rest = runs.drop_last();
        assert(runs[runs.len() - 1] == last);
        if last.range.start <= run.range.start {
            assert(all == runs.push(run));
            assert forall|i: int, j: int|
                0 <= i < j < all.len() implies (#[trigger] all[i]).range.end <= (
            #[trigger] all[j]).range.start by {
                if j == runs.len() {
                    assert(all[i] == runs[i]);
                }
            }
            assert forall|a: int, g: MappingGeneration|
                #[trigger] mapped_with(all, a, g) <==> mapped_with(runs, a, g) || (run.range.has(a)
                    && run.generation == g) by {
                if mapped_with(runs, a, g) {
                    let i = choose|i: int|
                        0 <= i < runs.len() && (#[trigger] runs[i]).range.has(a)
                            && runs[i].generation == g;
                    assert(all[i] == runs[i]);
                }
                if run.range.has(a) && run.generation == g {
                    assert(all[runs.len() as int].range.has(a));
                }
                if mapped_with(all, a, g) {
                    let i = choose|i: int|
                        0 <= i < all.len() && (#[trigger] all[i]).range.has(a) && all[i].generation
                            == g;
                    if i < runs.len() {
                        assert(all[i] == runs[i]);
                    }
                }
            }
            assert forall|i: int| 0 <= i < all.len() implies #[trigger] all[i] == run
                || runs.contains(all[i]) by {
                if i < runs.len() {
                    assert(all[i] == runs[i]);
                }
            }
        } else {
            assert forall|i: int| 0 <= i < rest.len() implies !(#[trigger] rest[i]).range.meets(
                run.range,
            ) by {
                assert(rest[i] == runs[i]);
            }
            law_insert_adds_exactly_the_run(rest, run);
            let done = insert_spec(rest, run);
            assert(all == done.push(last));
            assert(run.range.end <= last.range.start);
            assert forall|i: int| 0 <= i < done.len() implies (#[trigger] done[i]).range.end
                <= last.range.start by {
                if done[i] != run {
                    let k = choose|k: int| 0 <= k < rest.len() && rest[k] == done[i];
                    assert(runs[k] == rest[k]);
                }
            }
            assert forall|i: int, j: int|
                0 <= i < j < all.len() implies (#[trigger] all[i]).range.end <= (
            #[trigger] all[j]).range.start by {
                assert(all[i] == done[i]);
                if j < done.len() {
                    assert(all[j] == done[j]);
                }
            }
            assert forall|i: int| 0 <= i < all.len() implies #[trigger] all[i] == run
                || runs.contains(all[i]) by {
                if i < done.len() {
                    assert(all[i] == done[i]);
                    if done[i] != run {
                        let k = choose|k: int| 0 <= k < rest.len() && rest[k] == done[i];
                        assert(runs[k] == all[i]);
                    }
                } else {
                    assert(runs[runs.len() - 1] == all[i]);
                }
            }
            assert forall|a: int, g: MappingGeneration|
                #[trigger] mapped_with(all, a, g) <==> mapped_with(runs, a, g) || (run.range.has(a)
                    && run.generation == g) by {
                assert(mapped_with(done, a, g) <==> mapped_with(rest, a, g) || (run.range.has(a)
                    && run.generation == g));
                lemma_mapped_push(done, last, a, g);
                lemma_mapped_push(rest, last, a, g);
                assert(rest.push(last) == runs);
            }
        }
    }
}

proof fn lemma_mapped_push(
    runs: Seq<MappingRun>,
    run: MappingRun,
    a: int,
    g: MappingGeneration,
)
    ensures
        mapped_with(runs.push(run), a, g) <==> mapped_with(runs, a, g) || (run.range.has(a)
            && run.generation == g),
{
    let all = runs.push(run);
    if mapped_with(runs, a, g) {
        let i = choose|i: int|
            0 <= i < runs.len() && (#[trigger] runs[i]).range.has(a) && runs[i].generation == g;
        assert(all[i] == runs[i]);
    }
    if run.range.has(a) && run.generation == g {
        assert(all[runs.len() as int].range.has(a));
    }
    if mapped_with(all, a, g) {
        let i = choose|i: int|
            0 <= i < all.len() && (#[trigger] all[i]).range.has(a) && all[i].generation == g;
        if i < runs.len() {
            assert(all[i] == runs[i]);
        }
    }
}

/// Joining neighbours changes no address's generation, keeps the order and never makes
/// more runs.
pub proof fn law_coalesce_preserves_mapping(runs: Seq<MappingRun>)
    requires
        runs_ordered(runs),
    ensures
        runs_ordered(coalesce_spec(runs)),
        coalesce_spec(runs).len() <= runs.len(),
        forall|a: int, g: MappingGeneration|
            #[trigger] mapped_with(coalesce_spec(runs), a, g) <==> mapped_with(runs, a, g),
        runs.len() > 0 ==> coalesce_spec(runs).len() > 0 && coalesce_spec(runs).last().range.end
            == runs.last().range.end,
    decreases runs.len(),
{
    if runs.len() > 0 {
        let rest = runs.drop_last();
        let run = runs.last();
        assert(runs[runs.len() - 1] == run);
        law_coalesce_preserves_mapping(rest);
        let done = coalesce_spec(rest);
        let all = coalesce_spec(runs);
        assert(rest.push(run) == runs);
        if rest.len() > 0 {
            assert(rest.last() == runs[runs.len() - 2]);
            assert(runs[runs.len() - 2].range.end <= runs[runs.len() - 1].range.start);
        }
        assert forall|i: int| 0 <= i < done.len() implies (#[trigger] done[i]).range.end
            <= run.range.start by {
            assert(done[done.len() - 1] == done.last());
            if i < done.len() - 1 {
                assert(done[i].range.end <= done[done.len() - 1].range.start);
                assert(done[done.len() - 1].range.valid());
            }
        }
        if done.len() > 0 && done.last().range.end == run.range.start && done.last().generation
            == run.generation {
            let n = done.len() - 1;
            assert(done[n] == done.last());
            assert(all.len() == done.len());
            assert(done[n].range.valid());
            assert forall|i: int, j: int|
                0 <= i < j < all.len() implies (#[trigger] all[i]).range.end <= (
            #[trigger] all[j]).range.start by {
                assert(all[i] == done[i]);
                assert(done[i].range.end <= done[j].range.start);
            }
            assert forall|a: int, g: MappingGeneration|
                #[trigger] mapped_with(all, a, g) <==> mapped_with(runs, a, g) by {
                lemma_mapped_push(rest, run, a, g);
                assert(mapped_with(done, a, g) <==> mapped_with(rest, a, g));
                if mapped_with(all, a, g) {
                    let i = choose|i: int|
                        0 <= i < all.len() && (#[trigger] all[i]).range.has(a) && all[i].generation
                            == g;
                    if i < n || a < run.range.start {
                        assert(done[i].range.has(a) && done[i].generation == g);
                    }
                }
                if mapped_with(done, a, g) {
                    let i = choose|i: int|
                        0 <= i < done.len() && (#[trigger] done[i]).range.has(a)
                            && done[i].generation == g;
                    assert(all[i].range.has(a) && all[i].generation == g);
                }
                if run.range.has(a) && run.generation == g {
                    assert(all[n].range.has(a) && all[n].generation == g);
                }
            }
        } else {
            assert(all == done.push(run));
            assert forall|i: int, j: int|
                0 <= i < j < all.len() implies (#[trigger] all[i]).range.end <= (
            #[trigger] all[j]).range.start by {
                assert(all[i] == done[i]);
            }
            assert forall|a: int, g: MappingGeneration|
                #[trigger] mapped_with(all, a, g) <==> mapped_with(runs, a, g) by {
                lemma_mapped_push(rest, run, a, g);
                lemma_mapped_push(done, run, a, g);
                assert(mapped_with(done, a, g) <==> mapped_with(rest, a, g));
            }
        }
    }
}

/// Runs that touch differ in their generation.
pub open spec fn merged(runs: Seq<MappingRun>) -> bool {
    forall|i: int, j: int|
        0 <= i < j < runs.len() && (#[trigger] runs[i]).range.end == (
        #[trigger] runs[j]).range.start ==> runs[i].generation != runs[j].generation
}

/// Joining neighbours leaves none to join: runs that touch differ in their generation.
pub proof fn law_coalesce_merges(runs: Seq<MappingRun>)
    requires
        runs_ordered(runs),
    ensures
        merged(coalesce_spec(runs)),
    decreases runs.len(),
{
    if runs.len() > 0 {
        let rest = runs.drop_last();
        let run = runs.last();
        let done = coalesce_spec(rest);
        let all = coalesce_spec(runs);
        law_coalesce_merges(rest);
        law_coalesce_preserves_mapping(rest);
        law_coalesce_preserves_mapping(runs);
        assert(runs[runs.len() - 1] == run);
        let n = done.len() - 1;
        let joined = done.len() > 0 && done.last().range.end == run.range.start
            && done.last().generation == run.generation;
        assert forall|i: int, j: int|
            0 <= i < j < all.len() && (#[trigger] all[i]).range.end == (
            #[trigger] all[j]).range.start implies all[i].generation != all[j].generation by {
            assert(all[i] == done[i]);
            if joined {
                assert(done[j].range.start == all[j].range.start);
                assert(done[i].generation != done[j].generation);
            } else if j <= n {
                assert(all[j] == done[j]);
            } else if i < n {
                assert(done[i].range.end <= done[n].range.start);
                assert(done[n].range.valid());
                assert(all[n] == done[n]);
                assert(all[n].range.end <= all[j].range.start);
            }
        }
    }
}

/// Every piece that carving leaves is of a run, from its start or the end of the cut to its end
/// or the start of the cut.
proof fn lemma_carve_source(runs: Seq<MappingRun>, cut: GuestRange, at: int) -> (source: int)
    requires
        0 <= at < carve_spec(runs, cut).len(),
    ensures
        0 <= source < runs.len(),
        ({
            let piece = carve_spec(runs, cut)[at];
            let run = runs[source];
            &&& piece.generation == run.generation
            &&& piece.range.start == run.range.start || piece.range.start == cut.end
            &&& piece.range.end == run.range.end || piece.range.end == cut.start
        }),
    decreases runs.len(),
{
    let rest = runs.drop_last();
    let done = carve_spec(rest, cut);
    let pieces = run_pieces(runs.last(), cut);
    if at < done.len() {
        let source = lemma_carve_source(rest, cut, at);
        assert(runs[source] == rest[source]);
        source
    } else {
        assert(carve_spec(runs, cut)[at] == pieces[at - done.len()]);
        runs.len() - 1
    }
}

/// Carving leaves no runs that could be joined where there were none.
pub proof fn law_carve_keeps_merged(runs: Seq<MappingRun>, cut: GuestRange)
    requires
        runs_ordered(runs),
        merged(runs),
        cut.valid(),
    ensures
        merged(carve_spec(runs, cut)),
{
    let left = carve_spec(runs, cut);
    law_carve_removes_exactly_the_cut(runs, cut);
    assert forall|i: int, j: int|
        0 <= i < j < left.len() && (#[trigger] left[i]).range.end == (
        #[trigger] left[j]).range.start implies left[i].generation != left[j].generation by {
        let p = lemma_carve_source(runs, cut, i);
        let q = lemma_carve_source(runs, cut, j);
        let touch = left[j].range.start as int;
        assert(left[i].range.valid() && left[j].range.valid());
        assert(left[i].range.has(touch - 1) && left[j].range.has(touch));
        assert(mapped_with(left, touch - 1, left[i].generation));
        assert(mapped_with(left, touch, left[j].generation));
        assert(!cut.has(touch - 1) && !cut.has(touch));
        assert(runs[p].range.end == touch && runs[q].range.start == touch);
        assert(runs[p].range.valid() && runs[q].range.valid());
        if q < p {
            assert(runs[q].range.end <= runs[p].range.start);
        }
        assert(p < q);
    }
}

/// `run` is a largest stretch of addresses that are mapped with one generation.
pub open spec fn maximal(runs: Seq<MappingRun>, run: MappingRun) -> bool {
    &&& run.range.valid()
    &&& forall|a: int| #[trigger] run.range.has(a) ==> mapped_with(runs, a, run.generation)
    &&& !mapped_with(runs, run.range.start - 1, run.generation)
    &&& !mapped_with(runs, run.range.end as int, run.generation)
}

/// Where no runs are left to join, the runs are the largest stretches with one generation, each
/// once: there are as many runs as such stretches.
pub proof fn law_runs_are_the_maximal_stretches(runs: Seq<MappingRun>)
    requires
        runs_ordered(runs),
        merged(runs),
    ensures
        forall|run: MappingRun| #[trigger] runs.contains(run) <==> maximal(runs, run),
        runs.no_duplicates(),
        runs.to_set() == Set::new(|run: MappingRun| maximal(runs, run)),
        Set::new(|run: MappingRun| maximal(runs, run)).len() == runs.len(),
{
    assert forall|run: MappingRun| #[trigger] runs.contains(run) <==> maximal(runs, run) by {
        if runs.contains(run) {
            let i = choose|i: int| 0 <= i < runs.len() && runs[i] == run;
            lemma_run_is_maximal(runs, i);
        }
        if maximal(runs, run) {
            lemma_maximal_is_a_run(runs, run);
        }
    }
    assert forall|i: int, j: int| 0 <= i < j < runs.len() implies runs[i] != runs[j] by {
        assert(runs[i].range.valid() && runs[j].range.valid());
        assert(runs[i].range.end <= runs[j].range.start);
    }
    assert(runs.to_set() =~= Set::new(|run: MappingRun| maximal(runs, run))) by {
        assert forall|run: MappingRun|
            runs.to_set().contains(run) == Set::new(
                |run: MappingRun| maximal(runs, run),
            ).contains(run) by {
            assert(runs.to_set().contains(run) == runs.contains(run));
        }
    }
    runs.unique_seq_to_set();
}

proof fn lemma_run_is_maximal(runs: Seq<MappingRun>, i: int)
    requires
        runs_ordered(runs),
        merged(runs),
        0 <= i < runs.len(),
    ensures
        maximal(runs, runs[i]),
{
    let run = runs[i];
    assert(run.range.valid());
    assert forall|a: int| #[trigger] run.range.has(a) implies mapped_with(
        runs,
        a,
        run.generation,
    ) by {
        assert(runs[i].range.has(a));
    }
    if mapped_with(runs, run.range.start - 1, run.generation) {
        let j = choose|j: int|
            0 <= j < runs.len() && (#[trigger] runs[j]).range.has(run.range.start - 1)
                && runs[j].generation == run.generation;
        if j < i {
            assert(runs[j].range.end <= runs[i].range.start);
        } else if i < j {
            assert(runs[i].range.end <= runs[j].range.start);
        }
    }
    if mapped_with(runs, run.range.end as int, run.generation) {
        let j = choose|j: int|
            0 <= j < runs.len() && (#[trigger] runs[j]).range.has(run.range.end as int)
                && runs[j].generation == run.generation;
        if j < i {
            assert(runs[j].range.end <= runs[i].range.start);
        } else if i < j {
            assert(runs[i].range.end <= runs[j].range.start);
        }
    }
}

proof fn lemma_maximal_is_a_run(runs: Seq<MappingRun>, run: MappingRun)
    requires
        runs_ordered(runs),
        merged(runs),
        maximal(runs, run),
    ensures
        runs.contains(run),
{
    assert(run.range.has(run.range.start as int));
    assert(mapped_with(runs, run.range.start as int, run.generation));
    let i = choose|i: int|
        0 <= i < runs.len() && (#[trigger] runs[i]).range.has(run.range.start as int)
            && runs[i].generation == run.generation;
    if runs[i].range.start < run.range.start {
        assert(runs[i].range.has(run.range.start - 1));
    }
    if runs[i].range.end > run.range.end {
        assert(runs[i].range.has(run.range.end as int));
    }
    if runs[i].range.end < run.range.end {
        let next = runs[i].range.end as int;
        assert(run.range.has(next));
        assert(mapped_with(runs, next, run.generation));
        let j = choose|j: int|
            0 <= j < runs.len() && (#[trigger] runs[j]).range.has(next) && runs[j].generation
                == run.generation;
        if i < j {
            assert(runs[i].range.end <= runs[j].range.start);
        } else if j < i {
            assert(runs[j].range.end <= runs[i].range.start);
            assert(runs[i].range.valid());
        }
    }
    assert(runs[i] == run);
}

/// No address has two generations.
pub proof fn law_generation_is_unique(
    runs: Seq<MappingRun>,
    a: int,
    first: MappingGeneration,
    second: MappingGeneration,
)
    requires
        runs_ordered(runs),
        mapped_with(runs, a, first),
        mapped_with(runs, a, second),
    ensures
        first == second,
{
    let i = choose|i: int|
        0 <= i < runs.len() && (#[trigger] runs[i]).range.has(a) && runs[i].generation == first;
    let j = choose|j: int|
        0 <= j < runs.len() && (#[trigger] runs[j]).range.has(a) && runs[j].generation == second;
    if i < j {
        assert(runs[i].range.end <= runs[j].range.start);
    } else if j < i {
        assert(runs[j].range.end <= runs[i].range.start);
    }
}

/// The generation of `address`, if it is mapped.
pub fn find_generation(runs: &Vec<MappingRun>, address: u64) -> (result: Option<MappingGeneration>)
    requires
        runs_ordered(runs@),
    ensures
        forall|g: MappingGeneration|
            #[trigger] mapped_with(runs@, address as int, g) <==> result == Some(g),
{
    let mut i: usize = 0;
    while i < runs.len()
        invariant
            i <= runs.len(),
            runs_ordered(runs@),
            forall|k: int| 0 <= k < i ==> !(#[trigger] runs@[k]).range.has(address as int),
        decreases runs.len() - i,
    {
        if runs[i].range.start <= address && address < runs[i].range.end {
            proof {
                assert(mapped_with(runs@, address as int, runs@[i as int].generation));
                assert forall|g: MappingGeneration|
                    #[trigger] mapped_with(runs@, address as int, g) implies g
                    == runs@[i as int].generation by {
                    law_generation_is_unique(
                        runs@,
                        address as int,
                        g,
                        runs@[i as int].generation,
                    );
                }
            }
            return Some(runs[i].generation);
        }
        i = i + 1;
    }
    None
}

/// Whether every address of `range` is mapped.
pub fn covers_range(runs: &Vec<MappingRun>, range: GuestRange) -> (result: bool)
    requires
        runs_ordered(runs@),
        range.valid(),
    ensures
        result == all_mapped(runs@, range),
{
    let mut total: u64 = 0;
    let mut i: usize = 0;
    while i < runs.len()
        invariant
            i <= runs.len(),
            runs_ordered(runs@),
            range.valid(),
            total == covered(runs@.take(i as int), range.start as int, range.end as int),
        decreases runs.len() - i,
    {
        let run = runs[i];
        let start: u64 = if run.range.start > range.start {
            run.range.start
        } else {
            range.start
        };
        let end: u64 = if run.range.end < range.end {
            run.range.end
        } else {
            range.end
        };
        proof {
            let next = runs@.take(i + 1);
            assert(next.drop_last() == runs@.take(i as int));
            assert(next.last() == run);
            assert(runs_ordered(next)) by {
                assert forall|a: int, b: int| 0 <= a < b < next.len() implies (
                #[trigger] next[a]).range.end <= (#[trigger] next[b]).range.start by {
                    assert(next[a] == runs@[a] && next[b] == runs@[b]);
                }
            }
            lemma_covered_bounds(next, range.start as int, range.end as int);
        }
        if end > start {
            total = total + (end - start);
        }
        i = i + 1;
    }
    proof {
        assert(runs@.take(runs.len() as int) == runs@);
        lemma_covered_iff_all_mapped(runs@, range);
    }
    total == range.byte_len()
}

/// Takes `cut` out of the runs.
pub fn carve(runs: &Vec<MappingRun>, cut: GuestRange) -> (result: Vec<MappingRun>)
    requires
        runs_ordered(runs@),
        cut.valid(),
    ensures
        result@ == carve_spec(runs@, cut),
        runs_ordered(result@),
{
    let mut left: Vec<MappingRun> = Vec::new();
    let mut i: usize = 0;
    while i < runs.len()
        invariant
            i <= runs.len(),
            left@ == carve_spec(runs@.take(i as int), cut),
        decreases runs.len() - i,
    {
        let run = runs[i];
        let ghost before = left@;
        if !run.range.overlaps(cut) {
            left.push(run);
            assert(left@ == before + run_pieces(run, cut));
        } else {
            if run.range.start < cut.start {
                left.push(
                    MappingRun {
                        range: GuestRange { start: run.range.start, end: cut.start },
                        generation: run.generation,
                    },
                );
            }
            if cut.end < run.range.end {
                left.push(
                    MappingRun {
                        range: GuestRange { start: cut.end, end: run.range.end },
                        generation: run.generation,
                    },
                );
            }
            assert(left@ == before + run_pieces(run, cut));
        }
        proof {
            let next = runs@.take(i + 1);
            assert(next.drop_last() == runs@.take(i as int));
            assert(next.last() == run);
        }
        i = i + 1;
    }
    proof {
        assert(runs@.take(runs.len() as int) == runs@);
        law_carve_removes_exactly_the_cut(runs@, cut);
    }
    left
}

/// Adds a run at its place in the order.
pub fn insert_run(runs: &mut Vec<MappingRun>, run: MappingRun)
    ensures
        final(runs)@ == insert_spec(old(runs)@, run),
{
    let mut place: usize = runs.len();
    proof {
        assert(runs@.take(place as int) == runs@);
        assert(runs@.skip(place as int) == Seq::<MappingRun>::empty());
        assert(insert_spec(runs@, run) == insert_spec(runs@, run) + runs@.skip(place as int));
    }
    while place > 0 && runs[place - 1].range.start > run.range.start
        invariant
            place <= runs.len(),
            insert_spec(runs@, run) == insert_spec(runs@.take(place as int), run) + runs@.skip(
                place as int,
            ),
        decreases place,
    {
        proof {
            let head = runs@.take(place as int);
            let prior = runs@.take(place - 1);
            assert(head.drop_last() == prior);
            assert(head.last() == runs@[place - 1]);
            assert(insert_spec(head, run) == insert_spec(prior, run).push(runs@[place - 1]));
            assert(insert_spec(prior, run).push(runs@[place - 1]) + runs@.skip(place as int)
                == insert_spec(prior, run) + runs@.skip(place - 1));
        }
        place = place - 1;
    }
    proof {
        let head = runs@.take(place as int);
        if place > 0 {
            assert(head.last() == runs@[place - 1]);
        }
        assert(insert_spec(head, run) == head.push(run));
        assert(head.push(run) + runs@.skip(place as int) == runs@.insert(place as int, run));
    }
    runs.insert(place, run);
}

/// Joins neighbours that touch and share a generation.
pub fn coalesce(runs: &Vec<MappingRun>) -> (result: Vec<MappingRun>)
    ensures
        result@ == coalesce_spec(runs@),
{
    let mut joined: Vec<MappingRun> = Vec::new();
    let mut i: usize = 0;
    while i < runs.len()
        invariant
            i <= runs.len(),
            joined@ == coalesce_spec(runs@.take(i as int)),
        decreases runs.len() - i,
    {
        let run = runs[i];
        proof {
            let next = runs@.take(i + 1);
            assert(next.drop_last() == runs@.take(i as int));
            assert(next.last() == run);
        }
        let count: usize = joined.len();
        if count > 0 && joined[count - 1].range.end == run.range.start && joined[count
            - 1].generation == run.generation {
            let start: u64 = joined[count - 1].range.start;
            joined.set(
                count - 1,
                MappingRun {
                    range: GuestRange { start, end: run.range.end },
                    generation: run.generation,
                },
            );
        } else {
            joined.push(run);
        }
        i = i + 1;
    }
    proof {
        assert(runs@.take(runs.len() as int) == runs@);
    }
    joined
}

} // verus!

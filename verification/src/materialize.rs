//! Remote-directory materialization: walk a target directory path one
//! component at a time, extending a confirmed prefix, and create whatever
//! is missing.
//!
//! The walk's decisions are a state machine (`Materializer`) driven from
//! outside with the remote filesystem's answers; its semantics over a
//! modeled filesystem is `mat_run`, about which the two laws of this
//! module are proved: a successful walk is idempotent, and a prefix that
//! exists as a non-directory blocks the walk, always.

use vstd::prelude::*;
use crate::path::{components_of, join_path, spec_join, split_normal};

verus! {

/// What a remote filesystem holds at one path prefix.
#[derive(Debug, PartialEq, Eq, Structural, Clone, Copy)]
pub enum PathKind {
    Dir,
    NonDir,
}

/// Run the walk over a modeled filesystem, keyed by component prefixes,
/// from component `i` on: an existing directory is passed over, an existing
/// non-directory blocks the walk at its index, and a missing prefix is
/// created as a directory. Yields the filesystem as the walk leaves it and
/// the blocking index, if any.
pub open spec fn mat_run(
    fs: Map<Seq<Seq<char>>, PathKind>,
    comps: Seq<Seq<char>>,
    i: int,
) -> (Map<Seq<Seq<char>>, PathKind>, Option<int>)
    decreases comps.len() - i,
{
    if i < 0 || i >= comps.len() {
        (fs, None)
    } else {
        let p = comps.take(i + 1);
        if fs.contains_key(p) {
            if fs[p] is Dir {
                mat_run(fs, comps, i + 1)
            } else {
                (fs, Some(i))
            }
        } else {
            mat_run(fs.insert(p, PathKind::Dir), comps, i + 1)
        }
    }
}

/// After a successful walk every visited prefix is a directory, and
/// whatever the filesystem already held is still there, unchanged.
pub proof fn lemma_mat_run_success(
    fs: Map<Seq<Seq<char>>, PathKind>,
    comps: Seq<Seq<char>>,
    i: int,
)
    requires
        0 <= i <= comps.len(),
        mat_run(fs, comps, i).1 is None,
    ensures
        forall|j: int|
            i <= j < comps.len() ==> mat_run(fs, comps, i).0.contains_key(
                #[trigger] comps.take(j + 1),
            ) && mat_run(fs, comps, i).0[comps.take(j + 1)] is Dir,
        fs.submap_of(mat_run(fs, comps, i).0),
    decreases comps.len() - i,
{
    if i >= comps.len() {
        assert(fs.submap_of(fs));
    } else {
        let p = comps.take(i + 1);
        let r = mat_run(fs, comps, i);
        if fs.contains_key(p) {
            lemma_mat_run_success(fs, comps, i + 1);
            let r1 = mat_run(fs, comps, i + 1);
            assert(r == r1);
            assert forall|j: int| i <= j < comps.len() implies r.0.contains_key(
                #[trigger] comps.take(j + 1),
            ) && r.0[comps.take(j + 1)] is Dir by {
                if j == i {
                    assert(fs.dom().contains(p));
                }
                assert(r.0.contains_key(comps.take(j + 1)));
                assert(r.0[comps.take(j + 1)] is Dir);
            }
        } else {
            let fs1 = fs.insert(p, PathKind::Dir);
            lemma_mat_run_success(fs1, comps, i + 1);
            let r1 = mat_run(fs1, comps, i + 1);
            assert(r == r1);
            assert(fs.submap_of(fs1)) by {
                assert forall|k: Seq<Seq<char>>| #[trigger]
                    fs.dom().contains(k) implies fs1.dom().contains(k) && fs[k] == fs1[k] by {}
            }
            vstd::map_lib::lemma_submap_of_trans(fs, fs1, r1.0);
            assert forall|j: int| i <= j < comps.len() implies r.0.contains_key(
                #[trigger] comps.take(j + 1),
            ) && r.0[comps.take(j + 1)] is Dir by {
                if j == i {
                    assert(fs1.dom().contains(p));
                }
                assert(r.0.contains_key(comps.take(j + 1)));
                assert(r.0[comps.take(j + 1)] is Dir);
            }
        }
    }
}

/// A walk over a filesystem that already holds every prefix as a directory
/// only looks: it creates nothing and changes nothing.
pub proof fn lemma_mat_run_noop(fs: Map<Seq<Seq<char>>, PathKind>, comps: Seq<Seq<char>>, i: int)
    requires
        0 <= i <= comps.len(),
        forall|j: int|
            i <= j < comps.len() ==> fs.contains_key(#[trigger] comps.take(j + 1)) && fs[comps.take(
                j + 1,
            )] is Dir,
    ensures
        mat_run(fs, comps, i) == (fs, None::<int>),
    decreases comps.len() - i,
{
    if i < comps.len() {
        lemma_mat_run_noop(fs, comps, i + 1);
    }
}

/// Materialization is idempotent: a second walk over the filesystem a
/// successful walk left behind succeeds too and leaves it exactly as it
/// found it.
pub proof fn lemma_materialize_idempotent(fs: Map<Seq<Seq<char>>, PathKind>, comps: Seq<Seq<char>>)
    requires
        mat_run(fs, comps, 0).1 is None,
    ensures
        mat_run(mat_run(fs, comps, 0).0, comps, 0) == (mat_run(fs, comps, 0).0, None::<int>),
{
    if comps.len() > 0 {
        lemma_mat_run_success(fs, comps, 0);
        lemma_mat_run_noop(mat_run(fs, comps, 0).0, comps, 0);
    }
}

proof fn lemma_mat_run_blocked_from(
    fs: Map<Seq<Seq<char>>, PathKind>,
    comps: Seq<Seq<char>>,
    i: int,
    j: int,
)
    requires
        0 <= i <= j < comps.len(),
        fs.contains_key(comps.take(j + 1)),
        fs[comps.take(j + 1)] is NonDir,
    ensures
        mat_run(fs, comps, i).1 is Some,
    decreases j - i,
{
    let p = comps.take(i + 1);
    if i < j {
        if fs.contains_key(p) {
            if fs[p] is Dir {
                lemma_mat_run_blocked_from(fs, comps, i + 1, j);
            }
        } else {
            assert(comps.take(i + 1).len() == i + 1);
            assert(comps.take(j + 1).len() == j + 1);
            lemma_mat_run_blocked_from(fs.insert(p, PathKind::Dir), comps, i + 1, j);
        }
    }
}

/// Materialization fails deterministically when some component prefix
/// already exists as a non-directory: the walk never completes over such a
/// filesystem.
pub proof fn lemma_materialize_blocked(
    fs: Map<Seq<Seq<char>>, PathKind>,
    comps: Seq<Seq<char>>,
    j: int,
)
    requires
        0 <= j < comps.len(),
        fs.contains_key(comps.take(j + 1)),
        fs[comps.take(j + 1)] is NonDir,
    ensures
        mat_run(fs, comps, 0).1 is Some,
{
    lemma_mat_run_blocked_from(fs, comps, 0, j);
}

/// What a query of the remote filesystem reported for one prefix. A failed
/// query is taken as `Missing`, as the walk then tries to create the prefix.
#[derive(Debug, PartialEq, Eq, Structural, Clone, Copy)]
pub enum StatOutcome {
    IsDir,
    NotDir,
    Missing,
}

/// What a query of the modeled filesystem reports for prefix `p`.
pub open spec fn stat_of(fs: Map<Seq<Seq<char>>, PathKind>, p: Seq<Seq<char>>) -> StatOutcome {
    if fs.contains_key(p) {
        if fs[p] is Dir {
            StatOutcome::IsDir
        } else {
            StatOutcome::NotDir
        }
    } else {
        StatOutcome::Missing
    }
}

/// The modeled run takes at component `i` exactly the step the walk takes
/// on the corresponding query outcome: a directory is passed over, a
/// non-directory blocks the run there, and a missing prefix is created
/// before the run goes on. This is the sense in which `Materializer`,
/// driven with the remote filesystem's answers, performs `mat_run`.
pub proof fn lemma_mat_run_step(fs: Map<Seq<Seq<char>>, PathKind>, comps: Seq<Seq<char>>, i: int)
    requires
        0 <= i < comps.len(),
    ensures
        stat_of(fs, comps.take(i + 1)) is IsDir ==> mat_run(fs, comps, i) == mat_run(
            fs,
            comps,
            i + 1,
        ),
        stat_of(fs, comps.take(i + 1)) is NotDir ==> mat_run(fs, comps, i) == (fs, Some(i)),
        stat_of(fs, comps.take(i + 1)) is Missing ==> mat_run(fs, comps, i) == mat_run(
            fs.insert(comps.take(i + 1), PathKind::Dir),
            comps,
            i + 1,
        ),
{
}

/// Why a walk stopped short.
#[derive(Debug, PartialEq, Eq, Structural, Clone, Copy)]
pub enum MatError {
    /// The pending prefix exists but is not a directory: creating over it
    /// would corrupt data, so the walk stops at once.
    NotADirectory,
    /// Creating the pending prefix failed.
    MkdirFailed,
}

/// What the walk is waiting for next.
#[derive(Debug, PartialEq, Eq, Structural, Clone, Copy)]
pub enum MatPhase {
    /// Waiting for a query of the pending prefix.
    Stat,
    /// The pending prefix is missing; waiting for its creation.
    Mkdir,
    /// Every component is in place.
    Done,
    /// Stopped short; `error` says why.
    Failed,
}

/// The absolute prefix after `n` components: the root, extended by one
/// component per step.
pub open spec fn abs_prefix(comps: Seq<Seq<char>>, n: int) -> Seq<char>
    decreases n,
{
    if n <= 0 {
        seq!['/']
    } else {
        spec_join(abs_prefix(comps, n - 1), comps[n - 1])
    }
}

/// The walk itself, one remote round-trip per step: the driving loop asks
/// `target` which prefix to query or create, performs that call, and hands
/// the answer back through `on_stat` or `on_mkdir`.
pub struct Materializer {
    /// The normal components of the target directory.
    pub comps: Vec<String>,
    /// How many components are confirmed as directories.
    pub i: usize,
    /// The confirmed prefix: `abs_prefix` of the first `i` components.
    pub current: String,
    /// What the walk is waiting for.
    pub phase: MatPhase,
    /// Why the walk failed, once it has.
    pub error: Option<MatError>,
}

impl Materializer {
    pub open spec fn wf(self) -> bool {
        &&& self.i <= self.comps.len()
        &&& self.current@ == abs_prefix(self.comps.deep_view(), self.i as int)
        &&& (self.phase is Stat ==> self.i < self.comps.len())
        &&& (self.phase is Mkdir ==> self.i < self.comps.len())
        &&& (self.phase is Done ==> self.i == self.comps.len())
        &&& (self.phase is Failed <==> self.error is Some)
    }

    /// Begin a walk toward `dir`. A target with no normal components is
    /// complete before any remote call.
    pub fn new(dir: &str) -> (m: Materializer)
        ensures
            m.wf(),
            m.comps.deep_view() == components_of(dir@),
            m.i == 0,
            m.error is None,
            m.phase is Done <==> components_of(dir@).len() == 0,
            m.phase is Stat <==> components_of(dir@).len() > 0,
    {
        let comps = split_normal(dir);
        let phase = if comps.len() == 0 {
            MatPhase::Done
        } else {
            MatPhase::Stat
        };
        proof {
            reveal_strlit("/");
            assert("/"@ =~= seq!['/']);
        }
        Materializer { comps, i: 0, current: String::from_str("/"), phase, error: None }
    }

    /// The prefix the pending query or creation is about: the confirmed
    /// prefix extended by the next component.
    pub fn target(&self) -> (p: String)
        requires
            self.wf(),
            self.phase is Stat || self.phase is Mkdir,
        ensures
            p@ == abs_prefix(self.comps.deep_view(), self.i + 1),
    {
        proof {
            assert(self.comps.deep_view()[self.i as int] == self.comps@[self.i as int]@);
        }
        join_path(self.current.as_str(), self.comps[self.i].as_str())
    }

    /// Confirm the pending component and move to the next one.
    fn advance(&mut self)
        requires
            old(self).wf(),
            old(self).phase is Stat || old(self).phase is Mkdir,
        ensures
            final(self).wf(),
            final(self).comps == old(self).comps,
            final(self).i == old(self).i + 1,
            final(self).error is None,
            final(self).phase is Done <==> final(self).i == final(self).comps.len(),
            final(self).phase is Stat <==> final(self).i < final(self).comps.len(),
    {
        proof {
            assert(self.comps.deep_view()[self.i as int] == self.comps@[self.i as int]@);
        }
        let next = join_path(self.current.as_str(), self.comps[self.i].as_str());
        self.current = next;
        self.i = self.i + 1;
        self.phase = if self.i == self.comps.len() {
            MatPhase::Done
        } else {
            MatPhase::Stat
        };
    }

    /// Feed back what the query of `target` reported: a directory is passed
    /// over, a missing prefix moves the walk to creation, and anything else
    /// stops it at once.
    pub fn on_stat(&mut self, outcome: StatOutcome)
        requires
            old(self).wf(),
            old(self).phase is Stat,
        ensures
            final(self).wf(),
            final(self).comps == old(self).comps,
            outcome is IsDir ==> final(self).i == old(self).i + 1 && final(self).error is None
                && (final(self).phase is Done <==> final(self).i == final(self).comps.len())
                && (final(self).phase is Stat <==> final(self).i < final(self).comps.len()),
            outcome is Missing ==> final(self).phase is Mkdir && final(self).i == old(self).i
                && final(self).current == old(self).current && final(self).error is None,
            outcome is NotDir ==> final(self).phase is Failed && final(self).error == Some(
                MatError::NotADirectory,
            ) && final(self).i == old(self).i,
    {
        match outcome {
            StatOutcome::IsDir => self.advance(),
            StatOutcome::Missing => {
                self.phase = MatPhase::Mkdir;
            },
            StatOutcome::NotDir => {
                self.phase = MatPhase::Failed;
                self.error = Some(MatError::NotADirectory);
            },
        }
    }

    /// Feed back whether creating `target` succeeded: success confirms the
    /// component, failure stops the walk at once.
    pub fn on_mkdir(&mut self, created: bool)
        requires
            old(self).wf(),
            old(self).phase is Mkdir,
        ensures
            final(self).wf(),
            final(self).comps == old(self).comps,
            created ==> final(self).i == old(self).i + 1 && final(self).error is None
                && (final(self).phase is Done <==> final(self).i == final(self).comps.len())
                && (final(self).phase is Stat <==> final(self).i < final(self).comps.len()),
            !created ==> final(self).phase is Failed && final(self).error == Some(
                MatError::MkdirFailed,
            ) && final(self).i == old(self).i,
    {
        if created {
            self.advance();
        } else {
            self.phase = MatPhase::Failed;
            self.error = Some(MatError::MkdirFailed);
        }
    }
}

} // verus!

//! The navigation sequence: candidate paths, the current position, and the
//! temporary directories that entered archives were extracted into.
//!
//! Loading a file is outside work. The navigator decides which path to try
//! next; the caller loads it and reports what came of it with
//! [`Navigator::report`], until no path is pending.
use vstd::prelude::*;

verus! {

/// A temporary directory that deletes itself when closed or dropped.
#[verifier::external_type_specification]
#[verifier::external_body]
pub struct ExTempDir(tempfile::TempDir);

/// At most this many archives are entered while looking for one entry to
/// show. An archive met beyond that counts as an entry that cannot be shown,
/// which bounds archives nested in archives.
pub const MAX_ARCHIVES_PER_STEP: usize = 16;

/// The navigation step in progress.
#[derive(PartialEq, Eq, Structural, Debug, Clone, Copy)]
pub enum Direction {
    /// Towards the end; an entry that fails is removed and the next one tried.
    Forward,
    /// Towards the start; an entry that fails is removed and the one before tried.
    Backward,
    /// From the first entry onwards, until one shows or none is left.
    FromStart,
    /// From the last entry backwards, until one shows or none is left.
    FromEnd,
    /// The current entry only; a failure changes nothing.
    Stay,
}

/// What became of one attempt to show a path, as the model sees it.
pub enum Attempt {
    Show,
    Fail,
    Expand(Seq<String>),
}

/// What became of one attempt to show a path.
pub enum Outcome {
    /// The path was shown.
    Shown,
    /// The path could not be shown.
    Failed,
    /// The path was an archive, extracted into `tmp_dir`; `files` are its members.
    Expanded { files: Vec<String>, tmp_dir: tempfile::TempDir },
}

impl Outcome {
    pub open spec fn attempt(&self) -> Attempt {
        match self {
            Outcome::Shown => Attempt::Show,
            Outcome::Failed => Attempt::Fail,
            Outcome::Expanded { files, .. } => Attempt::Expand(files@),
        }
    }
}

/// The mathematical state of a navigator.
pub struct NavState {
    pub paths: Seq<String>,
    pub index: int,
    /// `Some` while a step is in progress and the entry at `index` awaits an outcome.
    pub step: Option<Direction>,
    /// Archives entered during the step in progress.
    pub expansions: nat,
}

impl NavState {
    pub open spec fn wf(self) -> bool {
        &&& 0 <= self.index
        &&& (self.paths.len() == 0 ==> self.index == 0 && self.step is None)
        &&& (self.paths.len() > 0 ==> self.index < self.paths.len())
        &&& (self.step == Some(Direction::FromStart) ==> self.index == 0)
        &&& self.expansions <= MAX_ARCHIVES_PER_STEP
    }

    /// The path that awaits an outcome, if any.
    pub open spec fn pending(self) -> Option<String> {
        if self.step is Some && 0 <= self.index < self.paths.len() {
            Some(self.paths[self.index])
        } else {
            None
        }
    }
}

pub open spec fn idle(paths: Seq<String>, index: int) -> NavState {
    NavState { paths, index, step: None, expansions: 0 }
}

pub open spec fn trying(paths: Seq<String>, index: int, d: Direction, expansions: nat) -> NavState {
    NavState { paths, index, step: Some(d), expansions }
}

/// The state right after a navigation operation is asked for.
pub open spec fn begin(s: NavState, d: Direction) -> NavState {
    let n = s.paths.len();
    match d {
        Direction::Forward => if s.index + 1 < n {
            trying(s.paths, s.index + 1, d, 0)
        } else {
            idle(s.paths, s.index)
        },
        Direction::Backward => if 0 < s.index < n {
            trying(s.paths, s.index - 1, d, 0)
        } else {
            idle(s.paths, s.index)
        },
        Direction::FromStart => if n > 0 {
            trying(s.paths, 0, d, 0)
        } else {
            idle(s.paths, 0)
        },
        Direction::FromEnd => if n > 0 {
            trying(s.paths, n - 1, d, 0)
        } else {
            idle(s.paths, 0)
        },
        Direction::Stay => if n > 0 {
            trying(s.paths, s.index, d, 0)
        } else {
            idle(s.paths, 0)
        },
    }
}

/// The state after the pending entry could not be shown: outside `Stay` the
/// entry is removed and the step goes on in its direction.
pub open spec fn fail(s: NavState) -> NavState {
    let i = s.index;
    let rest = s.paths.remove(i);
    let n = rest.len();
    match s.step {
        Some(Direction::Forward) => if i < n {
            trying(rest, i, Direction::Forward, s.expansions)
        } else if n > 0 {
            idle(rest, n - 1)
        } else {
            idle(rest, 0)
        },
        Some(Direction::Backward) => if i > 0 {
            trying(rest, i - 1, Direction::Backward, s.expansions)
        } else {
            idle(rest, 0)
        },
        Some(Direction::FromStart) => if n > 0 {
            trying(rest, 0, Direction::FromStart, s.expansions)
        } else {
            idle(rest, 0)
        },
        Some(Direction::FromEnd) => if i > 0 {
            trying(rest, i - 1, Direction::FromEnd, s.expansions)
        } else if n > 0 {
            trying(rest, 0, Direction::FromEnd, s.expansions)
        } else {
            idle(rest, 0)
        },
        _ => idle(s.paths, s.index),
    }
}

/// `paths` with the entry at `i` replaced by `files`.
pub open spec fn splice(paths: Seq<String>, i: int, files: Seq<String>) -> Seq<String> {
    paths.subrange(0, i) + files + paths.subrange(i + 1, paths.len() as int)
}

/// The state after the pending entry turned out to be an archive with members
/// `files`: they take its place and the first of them is tried. An archive
/// without members is spliced out: its slot goes, and outside `Stay` the step
/// goes on as after a failure, while under `Stay` the entry now at that
/// position is tried, if there is one. An archive beyond the bound of
/// [`MAX_ARCHIVES_PER_STEP`] counts as a failure.
pub open spec fn expand(s: NavState, files: Seq<String>) -> NavState {
    if files.len() == 0 && s.step == Some(Direction::Stay) {
        let rest = s.paths.remove(s.index);
        if s.index < rest.len() {
            trying(rest, s.index, Direction::Stay, s.expansions)
        } else if rest.len() > 0 {
            idle(rest, rest.len() - 1)
        } else {
            idle(rest, 0)
        }
    } else if s.expansions < MAX_ARCHIVES_PER_STEP && files.len() > 0 {
        trying(splice(s.paths, s.index, files), s.index, s.step.unwrap(), s.expansions + 1)
    } else {
        fail(s)
    }
}

/// The state after the outcome `a` of the pending entry is known.
pub open spec fn report(s: NavState, a: Attempt) -> NavState {
    if s.pending() is Some {
        match a {
            Attempt::Show => idle(s.paths, s.index),
            Attempt::Fail => fail(s),
            Attempt::Expand(files) => expand(s, files),
        }
    } else {
        s
    }
}

/// The state in which a step ends when every path `p` that is tried has the
/// outcome `outcome(p)`.
pub open spec fn run(s: NavState, outcome: spec_fn(String) -> Attempt) -> NavState
    decreases MAX_ARCHIVES_PER_STEP - s.expansions, s.paths.len(),
{
    if s.pending() is Some && s.expansions <= MAX_ARCHIVES_PER_STEP {
        let t = report(s, outcome(s.paths[s.index]));
        if t.pending() is Some && t.expansions <= MAX_ARCHIVES_PER_STEP && (t.expansions
            > s.expansions || (t.expansions == s.expansions && t.paths.len() < s.paths.len())) {
            run(t, outcome)
        } else {
            t
        }
    } else {
        s
    }
}

/// Each report keeps the state well formed, and while a step goes on it
/// either enters one more archive or removes one entry.
pub proof fn lemma_report_progress(s: NavState, a: Attempt)
    requires
        s.wf(),
    ensures
        report(s, a).wf(),
        s.pending() is Some && report(s, a).pending() is Some ==> {
            let t = report(s, a);
            ||| t.expansions == s.expansions + 1
            ||| (t.expansions == s.expansions && t.paths.len() == s.paths.len() - 1)
        },
{
    if s.pending() is Some {
        match a {
            Attempt::Expand(files) => {
                if s.expansions < MAX_ARCHIVES_PER_STEP && files.len() > 0 {
                    let t = report(s, a);
                    assert(t.paths.len() == s.paths.len() + files.len() - 1);
                    assert(t.paths[s.index] == files[0]);
                }
            },
            _ => {},
        }
    }
}

/// Starting a step keeps the state well formed.
proof fn lemma_begin_wf(s: NavState, d: Direction)
    requires
        s.wf(),
    ensures
        begin(s, d).wf(),
{
}

/// Whatever the outcomes of the paths tried, a step ends in a well-formed
/// state with no path pending: every report either enters one more archive,
/// of which a step enters boundedly many, or removes an entry.
pub proof fn law_step_ends(s: NavState, outcome: spec_fn(String) -> Attempt)
    requires
        s.wf(),
    ensures
        run(s, outcome).wf(),
        run(s, outcome).pending() is None,
    decreases MAX_ARCHIVES_PER_STEP - s.expansions, s.paths.len(),
{
    if s.pending() is Some {
        let a = outcome(s.paths[s.index]);
        lemma_report_progress(s, a);
        let t = report(s, a);
        if t.pending() is Some {
            law_step_ends(t, outcome);
        }
    }
}

/// The outcome of a path that shows exactly when `valid` holds of it.
pub open spec fn shows_if(valid: spec_fn(String) -> bool) -> spec_fn(String) -> Attempt {
    |p: String|
        if valid(p) {
            Attempt::Show
        } else {
            Attempt::Fail
        }
}

/// The first position from `i` on whose path `valid` holds, or the length of
/// `paths` if there is none.
pub open spec fn first_showable(paths: Seq<String>, i: int, valid: spec_fn(String) -> bool) -> int
    decreases paths.len() - i,
{
    if i < 0 || i >= paths.len() {
        paths.len() as int
    } else if valid(paths[i]) {
        i
    } else {
        first_showable(paths, i + 1, valid)
    }
}

/// Entering an archive at position `i` with `k` members changes the length of
/// the sequence by `k - 1`, keeps the entries before `i` and after the archive
/// in their order, and leaves the position on the first member, which is the
/// path to try next.
pub proof fn law_splice(s: NavState, files: Seq<String>)
    requires
        s.wf(),
        s.pending() is Some,
        s.expansions < MAX_ARCHIVES_PER_STEP,
        files.len() > 0,
    ensures
        ({
            let t = report(s, Attempt::Expand(files));
            let i = s.index;
            let k = files.len() as int;
            &&& t.paths.len() == s.paths.len() + k - 1
            &&& t.paths.subrange(0, i) == s.paths.subrange(0, i)
            &&& t.paths.subrange(i, i + k) == files
            &&& t.paths.subrange(i + k, t.paths.len() as int) == s.paths.subrange(
                i + 1,
                s.paths.len() as int,
            )
            &&& t.index == i
            &&& t.pending() == Some(files[0])
        }),
{
    let t = report(s, Attempt::Expand(files));
    let i = s.index;
    let k = files.len() as int;
    assert(t.paths.subrange(0, i) =~= s.paths.subrange(0, i));
    assert(t.paths.subrange(i, i + k) =~= files);
    assert(t.paths.subrange(i + k, t.paths.len() as int) =~= s.paths.subrange(
        i + 1,
        s.paths.len() as int,
    ));
}

proof fn lemma_first_showable_after_remove(
    q: Seq<String>,
    i: int,
    k: int,
    valid: spec_fn(String) -> bool,
)
    requires
        0 <= i <= k < q.len(),
    ensures
        first_showable(q.remove(i), k, valid) == first_showable(q, k + 1, valid) - 1,
    decreases q.len() - k,
{
    let rest = q.remove(i);
    if k < q.len() - 1 {
        assert(rest[k] == q[k + 1]);
        if !valid(rest[k]) {
            lemma_first_showable_after_remove(q, i, k + 1, valid);
        }
    }
}

proof fn lemma_forward_settles(q: Seq<String>, i: int, e: nat, valid: spec_fn(String) -> bool)
    requires
        1 <= i < q.len(),
        e <= MAX_ARCHIVES_PER_STEP,
    ensures
        ({
            let r = run(trying(q, i, Direction::Forward, e), shows_if(valid));
            let j = first_showable(q, i, valid);
            &&& j < q.len() ==> r == idle(q.subrange(0, i) + q.subrange(j, q.len() as int), i)
            &&& j == q.len() ==> r == idle(q.subrange(0, i), i - 1)
        }),
    decreases q.len(),
{
    let t = trying(q, i, Direction::Forward, e);
    let oc = shows_if(valid);
    let rest = q.remove(i);
    if valid(q[i]) {
        assert(q.subrange(0, i) + q.subrange(i, q.len() as int) =~= q);
    } else {
        assert(oc(q[i]) == Attempt::Fail);
        let j = first_showable(q, i, valid);
        assert(j == first_showable(q, i + 1, valid));
        assert(report(t, oc(q[i])) == fail(t));
        if i < q.len() - 1 {
            let u = trying(rest, i, Direction::Forward, e);
            assert(fail(t) == u);
            assert(run(t, oc) == run(u, oc));
            lemma_forward_settles(rest, i, e, valid);
            lemma_first_showable_after_remove(q, i, i, valid);
            assert(rest.subrange(0, i) =~= q.subrange(0, i));
            if j < q.len() {
                lemma_first_showable_is_showable(q, i + 1, valid);
                assert(rest.subrange(j - 1, rest.len() as int) =~= q.subrange(j, q.len() as int));
            }
        } else {
            assert(fail(t) == idle(rest, i - 1));
            assert(rest =~= q.subrange(0, i));
        }
    }
}

/// Moving forward from any position `i` over entries that cannot be shown
/// lands on the first showable entry after it, if there is one, and removes
/// exactly the entries passed over on the way, each once; with none, every
/// entry after `i` is removed and the position stays on `i`.
pub proof fn law_next_skips_unshowable(paths: Seq<String>, i: int, valid: spec_fn(String) -> bool)
    requires
        0 <= i < paths.len(),
    ensures
        ({
            let s = run(begin(idle(paths, i), Direction::Forward), shows_if(valid));
            let j = first_showable(paths, i + 1, valid);
            &&& j < paths.len() ==> s == idle(
                paths.subrange(0, i + 1) + paths.subrange(j, paths.len() as int),
                i + 1,
            ) && valid(s.paths[i + 1])
            &&& j == paths.len() ==> s == idle(paths.subrange(0, i + 1), i)
        }),
{
    let j = first_showable(paths, i + 1, valid);
    if i + 1 < paths.len() {
        assert(begin(idle(paths, i), Direction::Forward) == trying(
            paths,
            i + 1,
            Direction::Forward,
            0,
        ));
        lemma_forward_settles(paths, i + 1, 0, valid);
        if j < paths.len() {
            lemma_first_showable_is_showable(paths, i + 1, valid);
            let s = idle(paths.subrange(0, i + 1) + paths.subrange(j, paths.len() as int), i + 1);
            assert(s.paths[i + 1] == paths[j]);
        }
    } else {
        assert(paths =~= paths.subrange(0, i + 1));
    }
}

/// How many outcomes a step asks for before it ends, when every path `p`
/// that is tried has the outcome `outcome(p)`.
pub open spec fn attempts(s: NavState, outcome: spec_fn(String) -> Attempt) -> nat
    decreases MAX_ARCHIVES_PER_STEP - s.expansions, s.paths.len(),
{
    if s.pending() is Some && s.expansions <= MAX_ARCHIVES_PER_STEP {
        let t = report(s, outcome(s.paths[s.index]));
        if t.pending() is Some && t.expansions <= MAX_ARCHIVES_PER_STEP && (t.expansions
            > s.expansions || (t.expansions == s.expansions && t.paths.len() < s.paths.len())) {
            1 + attempts(t, outcome)
        } else {
            1
        }
    } else {
        0
    }
}

proof fn lemma_forward_attempts(q: Seq<String>, i: int, e: nat, valid: spec_fn(String) -> bool)
    requires
        0 <= i < q.len(),
        e <= MAX_ARCHIVES_PER_STEP,
    ensures
        attempts(trying(q, i, Direction::Forward, e), shows_if(valid)) <= q.len() - i,
    decreases q.len(),
{
    let t = trying(q, i, Direction::Forward, e);
    let oc = shows_if(valid);
    if !valid(q[i]) {
        assert(oc(q[i]) == Attempt::Fail);
        assert(report(t, oc(q[i])) == fail(t));
        if i < q.len() - 1 {
            lemma_forward_attempts(q.remove(i), i, e, valid);
        }
    }
}

/// A move forward from position `i` over `n` entries none of which is an
/// archive asks for at most `n - i - 1` outcomes: each one that fails is
/// removed, and the step goes on from the same position.
pub proof fn law_next_attempts_bounded(paths: Seq<String>, i: int, valid: spec_fn(String) -> bool)
    requires
        0 <= i < paths.len(),
    ensures
        attempts(begin(idle(paths, i), Direction::Forward), shows_if(valid)) <= paths.len() - i - 1,
{
    if i + 1 < paths.len() {
        lemma_forward_attempts(paths, i + 1, 0, valid);
    }
}

/// An archive without members leaves the sequence one shorter, with the
/// entries before and after it in their order; when the current entry is
/// shown again, the entry now at its position is tried, or the step ends if
/// none is left there.
pub proof fn law_splice_empty(s: NavState)
    requires
        s.wf(),
        s.pending() is Some,
    ensures
        ({
            let t = report(s, Attempt::Expand(Seq::empty()));
            let i = s.index;
            &&& t.paths == s.paths.remove(i)
            &&& t.paths.len() == s.paths.len() - 1
            &&& s.step == Some(Direction::Stay) ==> {
                &&& i < t.paths.len() ==> t.index == i && t.pending() == Some(t.paths[i])
                &&& i == t.paths.len() ==> t.pending() is None
            }
        }),
{
}

proof fn lemma_first_showable_is_showable(paths: Seq<String>, i: int, valid: spec_fn(String) -> bool)
    requires
        0 <= i,
        first_showable(paths, i, valid) < paths.len(),
    ensures
        i <= first_showable(paths, i, valid),
        valid(paths[first_showable(paths, i, valid)]),
    decreases paths.len() - i,
{
    if i < paths.len() && !valid(paths[i]) {
        lemma_first_showable_is_showable(paths, i + 1, valid);
    }
}

proof fn lemma_from_start_settles(t: NavState, outcome: spec_fn(String) -> Attempt)
    requires
        t.wf(),
        t.step == Some(Direction::FromStart),
    ensures
        ({
            let r = run(t, outcome);
            &&& r == idle(r.paths, 0)
            &&& r.paths.len() > 0 ==> outcome(r.paths[0]) == Attempt::Show
        }),
    decreases MAX_ARCHIVES_PER_STEP - t.expansions, t.paths.len(),
{
    let a = outcome(t.paths[t.index]);
    let u = report(t, a);
    lemma_report_progress(t, a);
    if u.pending() is Some {
        lemma_from_start_settles(u, outcome);
    }
}

/// Jumping to the start twice in a row, with every path having the same
/// outcome both times, ends in the same state as jumping once: the same entry
/// is shown and the sequence is the same.
pub proof fn law_jump_to_start_idempotent(s: NavState, outcome: spec_fn(String) -> Attempt)
    requires
        s.wf(),
    ensures
        ({
            let once = run(begin(s, Direction::FromStart), outcome);
            run(begin(once, Direction::FromStart), outcome) == once
        }),
{
    let b = begin(s, Direction::FromStart);
    if s.paths.len() > 0 {
        lemma_from_start_settles(b, outcome);
        let once = run(b, outcome);
        if once.paths.len() > 0 {
            let b2 = begin(once, Direction::FromStart);
            assert(report(b2, outcome(b2.paths[0])) == once);
        }
    }
}

/// The candidate paths, the position among them, and the directories that
/// entered archives were extracted into.
pub struct Navigator {
    paths: Vec<String>,
    index: usize,
    step: Option<Direction>,
    expansions: usize,
    temp_dirs: Vec<tempfile::TempDir>,
}

impl View for Navigator {
    type V = NavState;

    closed spec fn view(&self) -> NavState {
        NavState {
            paths: self.paths@,
            index: self.index as int,
            step: self.step,
            expansions: self.expansions as nat,
        }
    }
}

impl Navigator {
    pub open spec fn wf(&self) -> bool {
        self@.wf()
    }

    /// The temporary directories held until [`Navigator::quit`].
    pub closed spec fn retained(&self) -> Seq<tempfile::TempDir> {
        self.temp_dirs@
    }

    /// A navigator over `paths`, positioned on the first of them, with nothing
    /// in progress.
    pub fn new(paths: Vec<String>) -> (r: Navigator)
        ensures
            r.wf(),
            r@ == idle(paths@, 0),
            r.retained().len() == 0,
    {
        Navigator { paths, index: 0, step: None, expansions: 0, temp_dirs: Vec::new() }
    }

    /// The candidate paths.
    pub fn paths(&self) -> (r: &Vec<String>)
        ensures
            r@ == self@.paths,
    {
        &self.paths
    }

    /// The current position.
    pub fn index(&self) -> (r: usize)
        ensures
            r == self@.index,
    {
        self.index
    }

    /// The path that awaits an outcome, if any.
    pub fn pending(&self) -> (r: Option<String>)
        requires
            self.wf(),
        ensures
            r == self@.pending(),
    {
        if self.step.is_some() && self.index < self.paths.len() {
            Some(self.paths[self.index].clone())
        } else {
            None
        }
    }

    fn start(&mut self, d: Direction) -> (r: Option<String>)
        requires
            old(self).wf(),
        ensures
            final(self).wf(),
            final(self)@ == begin(old(self)@, d),
            final(self).retained() == old(self).retained(),
            r == final(self)@.pending(),
    {
        let n = self.paths.len();
        match d {
            Direction::Forward => {
                if self.index + 1 < n {
                    self.index = self.index + 1;
                    self.step = Some(d);
                } else {
                    self.step = None;
                }
            },
            Direction::Backward => {
                if 0 < self.index && self.index < n {
                    self.index = self.index - 1;
                    self.step = Some(d);
                } else {
                    self.step = None;
                }
            },
            Direction::FromStart => {
                self.index = 0;
                self.step = if n > 0 {
                    Some(d)
                } else {
                    None
                };
            },
            Direction::FromEnd => {
                if n > 0 {
                    self.index = n - 1;
                    self.step = Some(d);
                } else {
                    self.index = 0;
                    self.step = None;
                }
            },
            Direction::Stay => {
                if n > 0 {
                    self.step = Some(d);
                } else {
                    self.index = 0;
                    self.step = None;
                }
            },
        }
        self.expansions = 0;
        proof {
            lemma_begin_wf(old(self)@, d);
        }
        self.pending()
    }

    /// Moves one entry towards the end, if there is one, and returns the path
    /// to try there.
    pub fn next(&mut self) -> (r: Option<String>)
        requires
            old(self).wf(),
        ensures
            final(self).wf(),
            final(self)@ == begin(old(self)@, Direction::Forward),
            final(self).retained() == old(self).retained(),
            r == final(self)@.pending(),
    {
        self.start(Direction::Forward)
    }

    /// Moves one entry towards the start, if there is one, and returns the
    /// path to try there.
    pub fn prev(&mut self) -> (r: Option<String>)
        requires
            old(self).wf(),
        ensures
            final(self).wf(),
            final(self)@ == begin(old(self)@, Direction::Backward),
            final(self).retained() == old(self).retained(),
            r == final(self)@.pending(),
    {
        self.start(Direction::Backward)
    }

    /// Moves to the first entry and returns the path to try there, if any.
    pub fn jump_to_start(&mut self) -> (r: Option<String>)
        requires
            old(self).wf(),
        ensures
            final(self).wf(),
            final(self)@ == begin(old(self)@, Direction::FromStart),
            final(self).retained() == old(self).retained(),
            r == final(self)@.pending(),
    {
        self.start(Direction::FromStart)
    }

    /// Moves to the last entry and returns the path to try there, if any.
    pub fn jump_to_end(&mut self) -> (r: Option<String>)
        requires
            old(self).wf(),
        ensures
            final(self).wf(),
            final(self)@ == begin(old(self)@, Direction::FromEnd),
            final(self).retained() == old(self).retained(),
            r == final(self)@.pending(),
    {
        self.start(Direction::FromEnd)
    }

    /// Returns the current path to try again, if any; a failure there removes
    /// nothing.
    pub fn show_current(&mut self) -> (r: Option<String>)
        requires
            old(self).wf(),
        ensures
            final(self).wf(),
            final(self)@ == begin(old(self)@, Direction::Stay),
            final(self).retained() == old(self).retained(),
            r == final(self)@.pending(),
    {
        self.start(Direction::Stay)
    }

    fn remove_failed(&mut self)
        requires
            old(self).wf(),
            old(self)@.pending() is Some,
        ensures
            final(self).wf(),
            final(self)@ == fail(old(self)@),
            final(self).retained() == old(self).retained(),
    {
        let i = self.index;
        match self.step {
            Some(Direction::Stay) | None => {
                self.step = None;
                self.expansions = 0;
                return;
            },
            _ => {},
        }
        self.paths.remove(i);
        let n = self.paths.len();
        match self.step {
            Some(Direction::Forward) => {
                if i < n {
                } else if n > 0 {
                    self.index = n - 1;
                    self.step = None;
                } else {
                    self.index = 0;
                    self.step = None;
                }
            },
            Some(Direction::Backward) => {
                if i > 0 {
                    self.index = i - 1;
                } else {
                    self.index = 0;
                    self.step = None;
                }
            },
            Some(Direction::FromStart) => {
                if n == 0 {
                    self.step = None;
                }
            },
            _ => {
                if i > 0 {
                    self.index = i - 1;
                } else if n > 0 {
                    self.index = 0;
                } else {
                    self.index = 0;
                    self.step = None;
                }
            },
        }
        if self.step.is_none() {
            self.expansions = 0;
        }
    }

    /// Takes the outcome of the pending path and returns the path to try
    /// next, if the step goes on. A directory of extracted files is held
    /// until [`Navigator::quit`] whether or not its files were taken.
    pub fn report(&mut self, outcome: Outcome) -> (r: Option<String>)
        requires
            old(self).wf(),
        ensures
            final(self).wf(),
            final(self)@ == report(old(self)@, outcome.attempt()),
            r == final(self)@.pending(),
            match outcome {
                Outcome::Expanded { tmp_dir, .. } => final(self).retained() == old(
                    self,
                ).retained().push(tmp_dir),
                _ => final(self).retained() == old(self).retained(),
            },
    {
        proof {
            lemma_report_progress(self@, outcome.attempt());
        }
        if !(self.step.is_some() && self.index < self.paths.len()) {
            if let Outcome::Expanded { files: _, tmp_dir } = outcome {
                self.temp_dirs.push(tmp_dir);
            }
            return None;
        }
        match outcome {
            Outcome::Shown => {
                self.step = None;
                self.expansions = 0;
            },
            Outcome::Failed => {
                self.remove_failed();
            },
            Outcome::Expanded { files, tmp_dir } => {
                self.temp_dirs.push(tmp_dir);
                if files.len() == 0 && matches!(self.step, Some(Direction::Stay)) {
                    let i = self.index;
                    self.paths.remove(i);
                    let n = self.paths.len();
                    if i >= n {
                        self.index = if n > 0 {
                            n - 1
                        } else {
                            0
                        };
                        self.step = None;
                        self.expansions = 0;
                    }
                } else if self.expansions < MAX_ARCHIVES_PER_STEP && files.len() > 0 {
                    let ghost old_paths = self.paths@;
                    let mut files = files;
                    let ghost members = files@;
                    let mut rest = self.paths.split_off(self.index);
                    self.paths.append(&mut files);
                    rest.remove(0);
                    self.paths.append(&mut rest);
                    self.expansions = self.expansions + 1;
                    assert(self.paths@ =~= splice(old_paths, self.index as int, members));
                } else {
                    self.remove_failed();
                }
            },
        }
        self.pending()
    }

    /// Hands over every held temporary directory, for the caller to delete,
    /// and holds none afterwards.
    pub fn quit(&mut self) -> (r: Vec<tempfile::TempDir>)
        requires
            old(self).wf(),
        ensures
            final(self).wf(),
            final(self)@ == old(self)@,
            r@ == old(self).retained(),
            final(self).retained().len() == 0,
    {
        let mut dirs = Vec::new();
        dirs.append(&mut self.temp_dirs);
        dirs
    }
}

} // verus!

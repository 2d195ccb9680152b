use vstd::prelude::*;
use crate::request::{DeliberateThinkingRequest, DeliberateThinkingResponse, Submission, ValidationError};
use crate::thought::{ThoughtData, ThoughtView, timeline_view};

verus! {

/// Position of the first step numbered `k`, if any.
pub open spec fn first_match(tl: Seq<ThoughtView>, k: u32) -> Option<int>
    decreases tl.len(),
{
    if tl.len() == 0 {
        None
    } else if tl[0].thought_number == k {
        Some(0)
    } else {
        match first_match(tl.drop_first(), k) {
            Some(i) => Some(i + 1),
            None => None,
        }
    }
}

/// A timeline after revising step `k` with `t`: the first step numbered `k`
/// is replaced in place; when there is none, `t` is appended.
pub open spec fn revised(tl: Seq<ThoughtView>, k: u32, t: ThoughtView) -> Seq<ThoughtView> {
    match first_match(tl, k) {
        Some(i) => tl.update(i, t),
        None => tl.push(t),
    }
}

/// Length of the longest prefix of `tl` whose steps are all numbered at most `k`.
pub open spec fn base_len(tl: Seq<ThoughtView>, k: u32) -> nat
    decreases tl.len(),
{
    if tl.len() == 0 {
        0
    } else if tl[0].thought_number <= k {
        1 + base_len(tl.drop_first(), k)
    } else {
        0
    }
}

/// The steps that a new branch from step `k` starts with: the prefix of `main`
/// numbered at most `k`.
pub open spec fn branch_base(main: Seq<ThoughtView>, k: u32) -> Seq<ThoughtView> {
    main.take(base_len(main, k) as int)
}

/// Scanning `tl` up to `i` without meeting step `k` decides the first match
/// once position `i` holds `k` or the end is reached.
pub proof fn lemma_first_match_at(tl: Seq<ThoughtView>, k: u32, i: int)
    requires
        0 <= i <= tl.len(),
        forall|j: int| 0 <= j < i ==> tl[j].thought_number != k,
    ensures
        i < tl.len() && tl[i].thought_number == k ==> first_match(tl, k) == Some(i),
        i == tl.len() ==> first_match(tl, k) is None,
    decreases i,
{
    if i > 0 {
        let rest = tl.drop_first();
        assert forall|j: int| 0 <= j < i - 1 implies rest[j].thought_number != k by {
            assert(rest[j] == tl[j + 1]);
        }
        lemma_first_match_at(rest, k, i - 1);
    }
}

/// Scanning `tl` up to `i` with every step numbered at most `k` decides the
/// prefix length once position `i` exceeds `k` or the end is reached.
pub proof fn lemma_base_len_at(tl: Seq<ThoughtView>, k: u32, i: int)
    requires
        0 <= i <= tl.len(),
        forall|j: int| 0 <= j < i ==> tl[j].thought_number <= k,
        i == tl.len() || tl[i].thought_number > k,
    ensures
        base_len(tl, k) == i,
    decreases i,
{
    if i > 0 {
        let rest = tl.drop_first();
        assert forall|j: int| 0 <= j < i - 1 implies rest[j].thought_number <= k by {
            assert(rest[j] == tl[j + 1]);
        }
        if i - 1 < rest.len() {
            assert(rest[i - 1] == tl[i]);
        }
        lemma_base_len_at(rest, k, i - 1);
    }
}

/// The first match, when there is one, is a step numbered `k` with none before it.
pub proof fn lemma_first_match_found(tl: Seq<ThoughtView>, k: u32)
    ensures
        match first_match(tl, k) {
            Some(i) => 0 <= i < tl.len() && tl[i].thought_number == k
                && forall|j: int| 0 <= j < i ==> tl[j].thought_number != k,
            None => forall|j: int| 0 <= j < tl.len() ==> tl[j].thought_number != k,
        },
    decreases tl.len(),
{
    if tl.len() > 0 && tl[0].thought_number != k {
        let rest = tl.drop_first();
        lemma_first_match_found(rest, k);
        match first_match(rest, k) {
            Some(i) => {
                assert forall|j: int| 0 <= j < i + 1 implies tl[j].thought_number != k by {
                    if j > 0 {
                        assert(tl[j] == rest[j - 1]);
                    }
                }
            },
            None => {
                assert forall|j: int| 0 <= j < tl.len() implies tl[j].thought_number != k by {
                    if j > 0 {
                        assert(tl[j] == rest[j - 1]);
                    }
                }
            },
        }
    }
}

/// The value of the whole ledger: the main timeline, the named branches in
/// the order they were created, and the index of the active branch (none
/// while the main timeline is active).
pub struct LedgerView {
    pub main: Seq<ThoughtView>,
    pub branches: Seq<(Seq<char>, Seq<ThoughtView>)>,
    pub active: Option<int>,
}

impl LedgerView {
    /// The ledger at the start of a session: empty main timeline, no branches.
    pub open spec fn empty() -> LedgerView {
        LedgerView { main: Seq::empty(), branches: Seq::empty(), active: None }
    }

    /// Branch names are unique and the active index names a branch.
    pub open spec fn wf(self) -> bool {
        &&& forall|i: int, j: int|
            0 <= i < j < self.branches.len() ==> self.branches[i].0 != self.branches[j].0
        &&& match self.active {
            Some(i) => 0 <= i < self.branches.len(),
            None => true,
        }
    }

    /// The timeline that plain submissions and revisions target.
    pub open spec fn active_timeline(self) -> Seq<ThoughtView> {
        match self.active {
            Some(i) => self.branches[i].1,
            None => self.main,
        }
    }

    /// The known branch names, in order of creation.
    pub open spec fn branch_names(self) -> Seq<Seq<char>> {
        self.branches.map_values(|b: (Seq<char>, Seq<ThoughtView>)| b.0)
    }

    /// Whether a branch of this name exists.
    pub open spec fn has_branch(self, name: Seq<char>) -> bool {
        exists|i: int| 0 <= i < self.branches.len() && self.branches[i].0 == name
    }

    /// The position of the branch of this name (meaningful when it exists).
    pub open spec fn branch_index(self, name: Seq<char>) -> int {
        choose|i: int| 0 <= i < self.branches.len() && self.branches[i].0 == name
    }

    /// The ledger with its active timeline replaced by `tl`.
    pub open spec fn with_active_timeline(self, tl: Seq<ThoughtView>) -> LedgerView {
        match self.active {
            Some(i) => LedgerView {
                branches: self.branches.update(i, (self.branches[i].0, tl)),
                ..self
            },
            None => LedgerView { main: tl, ..self },
        }
    }

    /// After a plain submission: `t` appended to the active timeline.
    pub open spec fn after_plain(self, t: ThoughtView) -> LedgerView {
        self.with_active_timeline(self.active_timeline().push(t))
    }

    /// After a revision of step `k`: the active timeline revised in place or extended.
    pub open spec fn after_revision(self, k: u32, t: ThoughtView) -> LedgerView {
        self.with_active_timeline(revised(self.active_timeline(), k, t))
    }

    /// After a branch submission: the branch `name` is created from the main
    /// timeline's prefix numbered at most `k` if it is new, `t` is appended to
    /// it, and it becomes the active branch.
    pub open spec fn after_branch(self, k: u32, name: Seq<char>, t: ThoughtView) -> LedgerView {
        if self.has_branch(name) {
            let i = self.branch_index(name);
            LedgerView {
                branches: self.branches.update(i, (name, self.branches[i].1.push(t))),
                active: Some(i),
                ..self
            }
        } else {
            LedgerView {
                branches: self.branches.push((name, branch_base(self.main, k).push(t))),
                active: Some(self.branches.len() as int),
                ..self
            }
        }
    }

    /// After a valid request, recorded as its submission kind says.
    pub open spec fn after_request(self, req: DeliberateThinkingRequest) -> LedgerView {
        let t = req.thought_view();
        match req.submission() {
            Submission::Branch { from, branch_id } => self.after_branch(from, branch_id@, t),
            Submission::Revision { target } => self.after_revision(target, t),
            Submission::Plain => self.after_plain(t),
        }
    }

    /// Every timeline can grow by one step and still have its length fit in a `u32`.
    pub open spec fn has_room(self) -> bool {
        &&& self.main.len() < u32::MAX
        &&& forall|i: int| 0 <= i < self.branches.len() ==> self.branches[i].1.len() < u32::MAX
    }
}

/// Replacing one branch changes only that branch's value.
proof fn lemma_branch_update_view(s: Seq<Branch>, i: int)
    requires
        0 <= i < s.len(),
    ensures
        forall|b: Branch| #[trigger] branches_view(s.update(i, b)) == branches_view(s).update(i, b@),
{
    assert forall|b: Branch| #[trigger] branches_view(s.update(i, b)) == branches_view(s).update(i, b@) by {
        assert(branches_view(s.update(i, b)) =~= branches_view(s).update(i, b@));
    }
}

/// A new branch's base is no longer than the main timeline.
/// It consists of steps numbered at most `k`, and stops at the end of the
/// main timeline or at the first step numbered above `k`.
pub proof fn lemma_base_len_bound(tl: Seq<ThoughtView>, k: u32)
    ensures
        base_len(tl, k) <= tl.len(),
        forall|j: int| 0 <= j < base_len(tl, k) ==> tl[j].thought_number <= k,
        base_len(tl, k) < tl.len() ==> tl[base_len(tl, k) as int].thought_number > k,
    decreases tl.len(),
{
    if tl.len() > 0 && tl[0].thought_number <= k {
        let rest = tl.drop_first();
        lemma_base_len_bound(rest, k);
        assert forall|j: int| 0 <= j < base_len(tl, k) implies tl[j].thought_number <= k by {
            if j > 0 {
                assert(tl[j] == rest[j - 1]);
            }
        }
        if base_len(tl, k) < tl.len() {
            assert(tl[base_len(tl, k) as int] == rest[base_len(rest, k) as int]);
        }
    }
}

/// With room on every timeline, the active timeline's length after a request
/// fits in a `u32`.
pub proof fn lemma_after_request_fits(v: LedgerView, req: DeliberateThinkingRequest)
    requires
        v.wf(),
        v.has_room(),
    ensures
        v.after_request(req).active_timeline().len() <= u32::MAX,
{
    let t = req.thought_view();
    match req.submission() {
        Submission::Branch { from, branch_id } => {
            if v.has_branch(branch_id@) {
                let i = v.branch_index(branch_id@);
                assert(v.branches[i].1.len() < u32::MAX);
            } else {
                lemma_base_len_bound(v.main, from);
            }
        },
        Submission::Revision { target } => {
            lemma_first_match_found(v.active_timeline(), target);
        },
        Submission::Plain => {},
    }
}

/// The values of a sequence of branches.
closed spec fn branches_view(s: Seq<Branch>) -> Seq<(Seq<char>, Seq<ThoughtView>)> {
    s.map_values(|b: Branch| b@)
}

/// A named branch timeline.
struct Branch {
    name: String,
    thoughts: Vec<ThoughtData>,
}

impl View for Branch {
    type V = (Seq<char>, Seq<ThoughtView>);

    closed spec fn view(&self) -> (Seq<char>, Seq<ThoughtView>) {
        (self.name@, timeline_view(self.thoughts@))
    }
}

/// The ledger: the main timeline, the named branches and the active branch.
pub struct DeliberateThinkingState {
    thought_history: Vec<ThoughtData>,
    branches: Vec<Branch>,
    active: Option<usize>,
}

impl View for DeliberateThinkingState {
    type V = LedgerView;

    closed spec fn view(&self) -> LedgerView {
        LedgerView {
            main: timeline_view(self.thought_history@),
            branches: branches_view(self.branches@),
            active: match self.active {
                Some(i) => Some(i as int),
                None => None,
            },
        }
    }
}

impl Default for DeliberateThinkingState {
    /// A ledger with nothing recorded.
    fn default() -> (r: Self)
        ensures
            r.wf(),
            r@ == LedgerView::empty(),
    {
        DeliberateThinkingState::new()
    }
}

impl DeliberateThinkingState {
    /// A ledger with nothing recorded.
    pub fn new() -> (r: Self)
        ensures
            r@ == LedgerView::empty(),
    {
        let r = DeliberateThinkingState { thought_history: Vec::new(), branches: Vec::new(), active: None };
        assert(r@.main =~= Seq::<ThoughtView>::empty());
        assert(r@.branches =~= Seq::<(Seq<char>, Seq<ThoughtView>)>::empty());
        r
    }

    /// Branch names are unique and the active index names a branch.
    pub open spec fn wf(&self) -> bool {
        self@.wf()
    }

    /// The timeline that plain submissions and revisions target, lent for mutation.
    fn active_timeline_mut(&mut self) -> (r: &mut Vec<ThoughtData>)
        requires
            old(self).wf(),
        ensures
            timeline_view(r@) == old(self)@.active_timeline(),
            final(self)@ == old(self)@.with_active_timeline(timeline_view(final(r)@)),
            final(self).wf(),
    {
        match self.active {
            Some(i) => {
                proof {
                    lemma_branch_update_view(self.branches@, i as int);
                }
                &mut self.branches[i].thoughts
            },
            None => &mut self.thought_history,
        }
    }

    /// Appends a step to the active timeline.
    pub fn add_thought(&mut self, thought_data: ThoughtData)
        requires
            old(self).wf(),
        ensures
            final(self).wf(),
            final(self)@ == old(self)@.after_plain(thought_data@),
    {
        let ghost t = thought_data@;
        let tl = self.active_timeline_mut();
        tl.push(thought_data);
        assert(timeline_view(tl@) =~= old(self)@.active_timeline().push(t));
    }

    /// Revises step `revises` of the active timeline with `thought_data`, or
    /// appends it when the active timeline has no step of that number.
    pub fn handle_revision(&mut self, revises: u32, thought_data: ThoughtData)
        requires
            old(self).wf(),
        ensures
            final(self).wf(),
            final(self)@ == old(self)@.after_revision(revises, thought_data@),
    {
        let tl = self.active_timeline_mut();
        Self::revise_or_append(tl, revises, thought_data);
    }

    /// The active timeline: the active branch, or the main timeline when no
    /// branch is active.
    pub fn get_current_history(&self) -> (r: &[ThoughtData])
        requires
            self.wf(),
        ensures
            timeline_view(r@) == self@.active_timeline(),
    {
        match self.active {
            Some(i) => self.branches[i].thoughts.as_slice(),
            None => self.thought_history.as_slice(),
        }
    }

    /// The number of steps on the active timeline.
    pub fn get_history_length(&self) -> (r: u32)
        requires
            self.wf(),
            self@.active_timeline().len() <= u32::MAX,
        ensures
            r == self@.active_timeline().len(),
    {
        let h = self.get_current_history();
        h.len() as u32
    }

    /// The names of all branches, in order of creation.
    pub fn get_branch_names(&self) -> (r: Vec<String>)
        ensures
            r@.map_values(|s: String| s@) == self@.branch_names(),
    {
        let mut r: Vec<String> = Vec::new();
        let n = self.branches.len();
        let mut i: usize = 0;
        while i < n
            invariant
                n == self.branches@.len(),
                0 <= i <= n,
                r@.len() == i,
                forall|j: int| 0 <= j < i ==> #[trigger] r@[j]@ == self.branches@[j].name@,
            decreases n - i,
        {
            r.push(self.branches[i].name.clone());
            i = i + 1;
        }
        assert(r@.map_values(|s: String| s@) =~= self@.branch_names());
        r
    }

    /// The name of the active branch, if a branch is active.
    pub fn current_branch(&self) -> (r: Option<String>)
        requires
            self.wf(),
        ensures
            match self@.active {
                Some(i) => r is Some && r->0@ == self@.branches[i].0,
                None => r is None,
            },
    {
        match self.active {
            Some(i) => Some(self.branches[i].name.clone()),
            None => None,
        }
    }

    /// Whether every timeline can take one more step with its length still
    /// fitting in a `u32`.
    pub fn has_room(&self) -> (r: bool)
        ensures
            r == self@.has_room(),
    {
        if self.thought_history.len() >= u32::MAX as usize {
            return false;
        }
        let n = self.branches.len();
        let mut i: usize = 0;
        while i < n
            invariant
                n == self.branches@.len(),
                0 <= i <= n,
                forall|j: int| 0 <= j < i ==> #[trigger] self@.branches[j].1.len() < u32::MAX,
            decreases n - i,
        {
            if self.branches[i].thoughts.len() >= u32::MAX as usize {
                assert(self@.branches[i as int].1.len() >= u32::MAX);
                return false;
            }
            i = i + 1;
        }
        true
    }

    /// Position of the branch called `name`, if there is one.
    fn find_branch(&self, name: &String) -> (r: Option<usize>)
        requires
            self.wf(),
        ensures
            match r {
                Some(i) => self@.has_branch(name@) && i == self@.branch_index(name@),
                None => !self@.has_branch(name@),
            },
    {
        let n = self.branches.len();
        let mut i: usize = 0;
        while i < n
            invariant
                n == self.branches@.len(),
                0 <= i <= n,
                self.wf(),
                forall|j: int| 0 <= j < i ==> #[trigger] self@.branches[j].0 != name@,
            decreases n - i,
        {
            if self.branches[i].name == *name {
                proof {
                    assert(self@.branches[i as int].0 == name@);
                    let c = self@.branch_index(name@);
                    assert(0 <= c < self@.branches.len() && self@.branches[c].0 == name@);
                    if c < i {
                        assert(self@.branches[c].0 != name@);
                    } else if c > i {
                        assert(self@.branches[i as int].0 != self@.branches[c].0);
                    }
                }
                return Some(i);
            }
            i = i + 1;
        }
        None
    }

    /// Starts or continues the branch `branch_id`: a new branch begins with
    /// the main timeline's prefix numbered at most `branch_from`; the step is
    /// appended to the branch, which becomes the active one.
    pub fn handle_branching(&mut self, branch_from: u32, branch_id: String, thought_data: ThoughtData)
        requires
            old(self).wf(),
        ensures
            final(self).wf(),
            final(self)@ == old(self)@.after_branch(branch_from, branch_id@, thought_data@),
    {
        let ghost t = thought_data@;
        let ghost v0 = self@;
        match self.find_branch(&branch_id) {
            Some(i) => {
                proof {
                    lemma_branch_update_view(self.branches@, i as int);
                }
                self.branches[i].thoughts.push(thought_data);
                self.active = Some(i);
                assert(self@.branches[i as int].1 =~= v0.branches[i as int].1.push(t));
                assert(self@.branches =~= v0.branches.update(i as int, (branch_id@, v0.branches[i as int].1.push(t))));
            },
            None => {
                let mut base: Vec<ThoughtData> = Vec::new();
                let n = self.thought_history.len();
                let mut j: usize = 0;
                while j < n && self.thought_history[j].thought_number <= branch_from
                    invariant
                        n == self.thought_history@.len(),
                        self@ == v0,
                        0 <= j <= n,
                        base@ == self.thought_history@.take(j as int),
                        forall|k: int| 0 <= k < j ==> #[trigger] v0.main[k].thought_number <= branch_from,
                    decreases n - j,
                {
                    base.push(self.thought_history[j].duplicate());
                    assert(base@ =~= self.thought_history@.take(j + 1));
                    j = j + 1;
                }
                proof {
                    lemma_base_len_at(v0.main, branch_from, j as int);
                    assert(timeline_view(base@) =~= branch_base(v0.main, branch_from));
                }
                base.push(thought_data);
                assert(timeline_view(base@) =~= branch_base(v0.main, branch_from).push(t));
                self.branches.push(Branch { name: branch_id, thoughts: base });
                self.active = Some(self.branches.len() - 1);
                assert(self@.branches =~= v0.branches.push((branch_id@, branch_base(v0.main, branch_from).push(t))));
            },
        }
    }

    /// Validates `request`, records it as its kind says, and reports the
    /// branch names and the active timeline's length. An invalid request
    /// leaves the ledger unchanged.
    pub fn process_request(&mut self, request: DeliberateThinkingRequest) -> (r: Result<DeliberateThinkingResponse, ValidationError>)
        requires
            old(self).wf(),
            old(self)@.has_room(),
        ensures
            final(self).wf(),
            request.thought_number == 0 || request.total_thoughts == 0 ==> r is Err && final(self)@ == old(self)@,
            match request.validation() {
                Err(e) => r == Err::<DeliberateThinkingResponse, ValidationError>(e) && final(self)@ == old(self)@,
                Ok(()) => {
                    &&& final(self)@ == old(self)@.after_request(request)
                    &&& r is Ok
                    &&& r->Ok_0.thought_number == request.thought_number
                    &&& r->Ok_0.total_thoughts == request.total_thoughts
                    &&& r->Ok_0.next_thought_needed == request.next_thought_needed
                    &&& r->Ok_0.branches@.map_values(|s: String| s@) == final(self)@.branch_names()
                    &&& r->Ok_0.thought_history_length == final(self)@.active_timeline().len()
                },
            },
    {
        request.validate()?;
        let thought_data = ThoughtData::from(request.duplicate());
        match request.classify() {
            Submission::Branch { from, branch_id } => self.handle_branching(from, branch_id, thought_data),
            Submission::Revision { target } => self.handle_revision(target, thought_data),
            Submission::Plain => self.add_thought(thought_data),
        }
        proof {
            lemma_after_request_fits(old(self)@, request);
        }
        let branches = self.get_branch_names();
        let len = self.get_history_length();
        Ok(DeliberateThinkingResponse::new(&request, branches, len))
    }

    /// Replaces the first step numbered `revises` with `thought_data`, or appends
    /// `thought_data` when no step carries that number.
    pub fn revise_or_append(thoughts: &mut Vec<ThoughtData>, revises: u32, thought_data: ThoughtData)
        ensures
            timeline_view(final(thoughts)@) == revised(timeline_view(old(thoughts)@), revises, thought_data@),
    {
        let ghost tl = timeline_view(thoughts@);
        let n = thoughts.len();
        let mut i: usize = 0;
        while i < n
            invariant
                n == thoughts@.len(),
                tl == timeline_view(thoughts@),
                thoughts@ == old(thoughts)@,
                0 <= i <= n,
                forall|j: int| 0 <= j < i ==> tl[j].thought_number != revises,
            decreases n - i,
        {
            if thoughts[i].thought_number == revises {
                proof {
                    lemma_first_match_at(tl, revises, i as int);
                }
                let ghost t = thought_data@;
                thoughts[i] = thought_data;
                assert(timeline_view(thoughts@) =~= tl.update(i as int, t));
                return;
            }
            i = i + 1;
        }
        proof {
            lemma_first_match_at(tl, revises, i as int);
        }
        let ghost t = thought_data@;
        thoughts.push(thought_data);
        assert(timeline_view(thoughts@) =~= tl.push(t));
    }
}

} // verus!

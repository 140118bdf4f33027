use vstd::prelude::*;

use crate::text::str_eq;

verus! {

/// Where the animation of a rendered layout stands.
#[derive(Debug, Clone, Copy, PartialEq, Eq, Structural)]
pub enum State {
    InProgress,
    CanFinish,
    Finished,
}

/// The outcome of scanning the layouts of a device, as a specification sees it.
pub enum ScanOutcome {
    /// Nothing is drawn this tick.
    Idle,
    /// The predicate of this layout has to be asked before the scan can go on.
    NeedPredicate(int),
    /// This layout is drawn; `new_update` when it was marked and its predicate held.
    Render(int, bool),
}

/// Whether the layout at `p`, the one drawn last, is drawn again without a new update:
/// a `ForDuration` layout while its time lasts, a `Once` layout while its animation runs.
pub open spec fn repeats(last: int, state: State, has_time: bool, p: int) -> bool {
    last == p && ((has_time && state == State::CanFinish) || state == State::InProgress)
}

/// The outcome of scanning the layouts from priority `p` on (0 is the most important),
/// when the predicates asked answer `answers` in turn.
///
/// A layout that is marked for update and whose predicate holds is drawn as a new
/// update. While the layout drawn last still has time left, no layout of lower priority
/// is considered.
pub open spec fn scan_from(
    flags: Seq<bool>,
    last: int,
    state: State,
    has_time: bool,
    p: int,
    answers: Seq<bool>,
) -> ScanOutcome
    decreases flags.len() - p, 2int,
{
    if p < 0 || p >= flags.len() {
        ScanOutcome::Idle
    } else if has_time && last < p {
        ScanOutcome::Idle
    } else if flags[p] {
        resume(flags, last, state, has_time, p, answers)
    } else {
        repeat_or_next(flags, last, state, has_time, p, answers)
    }
}

/// The scan at layout `p` once its predicate has been asked for.
pub open spec fn resume(
    flags: Seq<bool>,
    last: int,
    state: State,
    has_time: bool,
    p: int,
    answers: Seq<bool>,
) -> ScanOutcome
    decreases flags.len() - p, 1int,
{
    if answers.len() == 0 {
        ScanOutcome::NeedPredicate(p)
    } else if answers[0] {
        ScanOutcome::Render(p, true)
    } else {
        repeat_or_next(flags, last, state, has_time, p, answers.drop_first())
    }
}

/// The scan at layout `p` once it is known not to be a new update.
pub open spec fn repeat_or_next(
    flags: Seq<bool>,
    last: int,
    state: State,
    has_time: bool,
    p: int,
    answers: Seq<bool>,
) -> ScanOutcome
    decreases flags.len() - p, 0int,
{
    if repeats(last, state, has_time, p) {
        ScanOutcome::Render(p, false)
    } else if p + 1 <= flags.len() {
        scan_from(flags, last, state, has_time, p + 1, answers)
    } else {
        ScanOutcome::Idle
    }
}

/// From priority `p` on, with no layout up to the one drawn last marked for update, a
/// scan reaches the layout drawn last and draws it again when its animation still runs.
proof fn lemma_scan_reaches_last(
    flags: Seq<bool>,
    last: int,
    has_time: bool,
    p: int,
    answers: Seq<bool>,
)
    requires
        0 <= p <= last < flags.len(),
        forall|i: int| p <= i <= last ==> !#[trigger] flags[i],
    ensures
        scan_from(flags, last, State::InProgress, has_time, p, answers) == ScanOutcome::Render(last, false),
    decreases last - p,
{
    if p < last {
        lemma_scan_reaches_last(flags, last, has_time, p + 1, answers);
    }
}

/// A layout whose animation is still in progress keeps being drawn, as no new update,
/// whether or not its time has run out, unless a layout at least as important is
/// marked for update.
pub proof fn lemma_in_progress_is_drawn_again(
    flags: Seq<bool>,
    last: int,
    has_time: bool,
    answers: Seq<bool>,
)
    requires
        0 <= last < flags.len(),
        forall|i: int| 0 <= i <= last ==> !#[trigger] flags[i],
    ensures
        scan_from(flags, last, State::InProgress, has_time, 0, answers) == ScanOutcome::Render(last, false),
{
    lemma_scan_reaches_last(flags, last, has_time, 0, answers);
}

/// From priority `p` on, with nothing marked, a scan of a layout that does not repeat
/// draws nothing.
proof fn lemma_scan_idle_from(
    flags: Seq<bool>,
    last: int,
    state: State,
    has_time: bool,
    p: int,
    answers: Seq<bool>,
)
    requires
        0 <= p,
        forall|i: int| 0 <= i < flags.len() ==> !#[trigger] flags[i],
        state == State::Finished || (state == State::CanFinish && !has_time),
    ensures
        scan_from(flags, last, state, has_time, p, answers) == ScanOutcome::Idle,
    decreases flags.len() - p,
{
    if p < flags.len() {
        if !(has_time && last < p) {
            lemma_scan_idle_from(flags, last, state, has_time, p + 1, answers);
        }
    }
}

/// A layout whose animation may finish is drawn again only while its time lasts: with
/// its time left and no layout at least as important marked, it is drawn again.
pub proof fn lemma_can_finish_drawn_while_time_lasts(flags: Seq<bool>, last: int, answers: Seq<bool>)
    requires
        0 <= last < flags.len(),
        forall|i: int| 0 <= i <= last ==> !#[trigger] flags[i],
    ensures
        scan_from(flags, last, State::CanFinish, true, 0, answers) == ScanOutcome::Render(last, false),
{
    lemma_can_finish_reaches_last(flags, last, 0, answers);
}

proof fn lemma_can_finish_reaches_last(flags: Seq<bool>, last: int, p: int, answers: Seq<bool>)
    requires
        0 <= p <= last < flags.len(),
        forall|i: int| p <= i <= last ==> !#[trigger] flags[i],
    ensures
        scan_from(flags, last, State::CanFinish, true, p, answers) == ScanOutcome::Render(last, false),
    decreases last - p,
{
    if p < last {
        lemma_can_finish_reaches_last(flags, last, p + 1, answers);
    }
}

/// With nothing marked for update, nothing is drawn once the layout drawn last has
/// finished its animation, or may finish it and its time has run out.
pub proof fn lemma_nothing_drawn_when_done(
    flags: Seq<bool>,
    last: int,
    state: State,
    has_time: bool,
    answers: Seq<bool>,
)
    requires
        forall|i: int| 0 <= i < flags.len() ==> !#[trigger] flags[i],
        state == State::Finished || (state == State::CanFinish && !has_time),
    ensures
        scan_from(flags, last, state, has_time, 0, answers) == ScanOutcome::Idle,
{
    lemma_scan_idle_from(flags, last, state, has_time, 0, answers);
}

/// What the caller of a scan step has to do next.
#[derive(Debug, Clone, Copy, PartialEq, Eq, Structural)]
pub enum ScanAction {
    /// Call the predicate of this layout and pass its answer to the next step.
    TestPredicate(usize),
    /// Draw this layout, then report the result with `finish_update`.
    Render { layout: usize, new_update: bool, screen_changed: bool },
    /// Nothing is drawn this tick.
    Idle,
}

/// A scan of the layouts of one device, in progress.
pub struct UpdateScan {
    priority: usize,
    pending: bool,
    done: bool,
    has_time_remaining: bool,
    answers: Ghost<Seq<bool>>,
}

impl UpdateScan {
    /// The predicate answers given so far.
    pub closed spec fn answers(&self) -> Seq<bool> {
        self.answers@
    }

    /// Whether the scan has ended with a `Render` or `Idle` action.
    pub closed spec fn is_done(&self) -> bool {
        self.done
    }

    /// Whether the scan waits for the answer of a predicate.
    pub closed spec fn is_pending(&self) -> bool {
        self.pending
    }

    /// Whether the layout drawn last still had time left when the scan began.
    pub closed spec fn has_time(&self) -> bool {
        self.has_time_remaining
    }
}

/// The scheduling state of one device: which of its layouts to draw on each tick.
pub struct LayoutSchedule {
    name: String,
    run_on: Vec<Vec<String>>,
    layout_update_flags: Vec<bool>,
    time_remaining: u64,
    last_priority: usize,
    state: State,
}

/// Whether `list` holds `key`.
pub open spec fn holds_key(list: Seq<Seq<char>>, key: Seq<char>) -> bool {
    exists|i: int| 0 <= i < list.len() && list[i] == key
}

impl LayoutSchedule {
    pub closed spec fn name(&self) -> Seq<char> {
        self.name@
    }

    /// For each layout, the events that mark it for update.
    pub closed spec fn run_on(&self) -> Seq<Seq<Seq<char>>> {
        self.run_on@.map_values(|keys: Vec<String>| keys@.map_values(|k: String| k@))
    }

    pub closed spec fn flags(&self) -> Seq<bool> {
        self.layout_update_flags@
    }

    /// Milliseconds the layout drawn last still holds the screen.
    pub closed spec fn time_remaining(&self) -> u64 {
        self.time_remaining
    }

    pub closed spec fn last_priority(&self) -> usize {
        self.last_priority
    }

    pub closed spec fn state(&self) -> State {
        self.state
    }

    pub closed spec fn wf(&self) -> bool {
        self.run_on@.len() == self.layout_update_flags@.len()
    }

    /// The schedule of a newly registered device whose layouts are marked by the events
    /// in `run_on`, most important layout first.
    pub fn new(name: String, run_on: Vec<Vec<String>>) -> (r: Self)
        ensures
            r.wf(),
            r.name() == name@,
            r.run_on() == run_on@.map_values(|keys: Vec<String>| keys@.map_values(|k: String| k@)),
            r.flags() == Seq::new(run_on@.len(), |i: int| false),
            r.time_remaining() == 0,
            r.last_priority() == 0,
            r.state() == State::Finished,
    {
        let mut flags: Vec<bool> = Vec::new();
        let mut i: usize = 0;
        while i < run_on.len()
            invariant
                i <= run_on@.len(),
                flags@ == Seq::new(i as nat, |j: int| false),
            decreases run_on@.len() - i,
        {
            flags.push(false);
            i = i + 1;
        }
        LayoutSchedule {
            name,
            run_on,
            layout_update_flags: flags,
            time_remaining: 0,
            last_priority: 0,
            state: State::Finished,
        }
    }

    pub fn name_str(&self) -> (r: &str)
        ensures
            r@ == self.name(),
    {
        self.name.as_str()
    }

    /// Marks for update every layout that `key` is listed for.
    pub fn mark_for_update(&mut self, key: &str)
        requires
            old(self).wf(),
        ensures
            final(self).wf(),
            final(self).run_on() == old(self).run_on(),
            final(self).name() == old(self).name(),
            final(self).time_remaining() == old(self).time_remaining(),
            final(self).last_priority() == old(self).last_priority(),
            final(self).state() == old(self).state(),
            final(self).flags().len() == old(self).flags().len(),
            forall|i: int|
                0 <= i < old(self).flags().len() ==> #[trigger] final(self).flags()[i] == (
                old(self).flags()[i] || holds_key(old(self).run_on()[i], key@)),
    {
        let mut i: usize = 0;
        while i < self.run_on.len()
            invariant
                self.wf(),
                i <= self.run_on@.len(),
                self.run_on() == old(self).run_on(),
                self.name() == old(self).name(),
                self.time_remaining() == old(self).time_remaining(),
                self.last_priority() == old(self).last_priority(),
                self.state() == old(self).state(),
                self.flags().len() == old(self).flags().len(),
                forall|j: int|
                    0 <= j < i ==> #[trigger] self.flags()[j] == (old(self).flags()[j] || holds_key(
                        old(self).run_on()[j],
                        key@,
                    )),
                forall|j: int| i <= j < self.flags().len() ==> #[trigger] self.flags()[j] == old(self).flags()[j],
            decreases self.run_on@.len() - i,
        {
            let found = Self::contains_key(&self.run_on[i], key);
            assert(self.run_on()[i as int] == self.run_on@[i as int]@.map_values(|k: String| k@));
            if found {
                self.layout_update_flags.set(i, true);
            }
            i = i + 1;
        }
    }

    fn contains_key(list: &Vec<String>, key: &str) -> (r: bool)
        ensures
            r == holds_key(list@.map_values(|k: String| k@), key@),
    {
        let ghost keys = list@.map_values(|k: String| k@);
        let mut i: usize = 0;
        while i < list.len()
            invariant
                i <= list@.len(),
                keys == list@.map_values(|k: String| k@),
                forall|j: int| 0 <= j < i ==> keys[j] != key@,
            decreases list@.len() - i,
        {
            if str_eq(list[i].as_str(), key) {
                assert(keys[i as int] == key@);
                return true;
            }
            i = i + 1;
        }
        false
    }

    /// Forgets pending updates and the layout drawn last, so that the next tick starts
    /// afresh.
    pub fn reset(&mut self)
        requires
            old(self).wf(),
        ensures
            final(self).wf(),
            final(self).run_on() == old(self).run_on(),
            final(self).name() == old(self).name(),
            final(self).flags() == Seq::new(old(self).flags().len(), |i: int| false),
            final(self).time_remaining() == 0,
            final(self).last_priority() == 0,
            final(self).state() == State::Finished,
    {
        self.clear_flags();
        self.time_remaining = 0;
        self.last_priority = 0;
        self.state = State::Finished;
    }

    fn clear_flags(&mut self)
        requires
            old(self).wf(),
        ensures
            final(self).wf(),
            final(self).run_on() == old(self).run_on(),
            final(self).name() == old(self).name(),
            final(self).time_remaining() == old(self).time_remaining(),
            final(self).last_priority() == old(self).last_priority(),
            final(self).state() == old(self).state(),
            final(self).flags() == Seq::new(old(self).flags().len(), |i: int| false),
    {
        let mut i: usize = 0;
        while i < self.layout_update_flags.len()
            invariant
                self.wf(),
                i <= self.flags().len(),
                self.flags().len() == old(self).flags().len(),
                self.run_on() == old(self).run_on(),
                self.name() == old(self).name(),
                self.time_remaining() == old(self).time_remaining(),
                self.last_priority() == old(self).last_priority(),
                self.state() == old(self).state(),
                forall|j: int| 0 <= j < i ==> !#[trigger] self.flags()[j],
            decreases self.flags().len() - i,
        {
            self.layout_update_flags.set(i, false);
            i = i + 1;
        }
        assert(self.flags() =~= Seq::new(old(self).flags().len(), |i: int| false));
    }

    /// The scan invariant: the outcome of scanning from the top with the answers given
    /// so far followed by any further answers `xs` is what the scan still to come yields
    /// on `xs`.
    pub closed spec fn scan_consistent(&self, scan: &UpdateScan) -> bool {
        &&& scan.priority <= self.flags().len()
        &&& scan.pending ==> scan.priority < self.flags().len()
        &&& forall|xs: Seq<bool>|
            #[trigger] scan_from(
                self.flags(),
                self.last_priority() as int,
                self.state(),
                scan.has_time_remaining,
                0,
                scan.answers@ + xs,
            ) == if scan.pending {
                resume(
                    self.flags(),
                    self.last_priority() as int,
                    self.state(),
                    scan.has_time_remaining,
                    scan.priority as int,
                    xs,
                )
            } else {
                scan_from(
                    self.flags(),
                    self.last_priority() as int,
                    self.state(),
                    scan.has_time_remaining,
                    scan.priority as int,
                    xs,
                )
            }
    }

    /// Starts a tick: takes `time_passed` milliseconds off the time the layout drawn last
    /// still holds the screen, and begins the scan of the layouts.
    pub fn begin_update(&mut self, time_passed: u64) -> (r: UpdateScan)
        requires
            old(self).wf(),
        ensures
            final(self).wf(),
            final(self).run_on() == old(self).run_on(),
            final(self).name() == old(self).name(),
            final(self).flags() == old(self).flags(),
            final(self).last_priority() == old(self).last_priority(),
            final(self).state() == old(self).state(),
            final(self).time_remaining() == (if old(self).time_remaining() > time_passed {
                old(self).time_remaining() - time_passed
            } else {
                0
            }),
            r.has_time() == (final(self).time_remaining() != 0),
            r.answers() == Seq::<bool>::empty(),
            !r.is_done(),
            !r.is_pending(),
            final(self).scan_consistent(&r),
    {
        self.time_remaining = if self.time_remaining > time_passed {
            self.time_remaining - time_passed
        } else {
            0
        };
        let scan = UpdateScan {
            priority: 0,
            pending: false,
            done: false,
            has_time_remaining: self.time_remaining != 0,
            answers: Ghost(Seq::empty()),
        };
        assert forall|xs: Seq<bool>|
            #[trigger] scan_from(
                self.flags(),
                self.last_priority() as int,
                self.state(),
                scan.has_time_remaining,
                0,
                scan.answers@ + xs,
            ) == scan_from(
                self.flags(),
                self.last_priority() as int,
                self.state(),
                scan.has_time_remaining,
                0,
                xs,
            ) by {
            assert(scan.answers@ + xs =~= xs);
        }
        scan
    }

    /// One step of the scan. `answer` is the answer of the predicate asked for by the
    /// previous step, and `None` when none was asked for.
    ///
    /// With the answers given so far, the action is what `scan_from` yields from the
    /// top: a predicate to ask, the layout to draw, or nothing. When the scan ends, every
    /// update mark is cleared.
    pub fn scan(&mut self, scan: &mut UpdateScan, answer: Option<bool>) -> (r: ScanAction)
        requires
            old(self).wf(),
            !old(scan).is_done(),
            old(self).scan_consistent(old(scan)),
            old(scan).is_pending() <==> answer is Some,
        ensures
            final(self).wf(),
            final(self).run_on() == old(self).run_on(),
            final(self).name() == old(self).name(),
            final(self).time_remaining() == old(self).time_remaining(),
            final(self).last_priority() == old(self).last_priority(),
            final(self).state() == old(self).state(),
            final(scan).has_time() == old(scan).has_time(),
            final(scan).answers() == (match answer {
                Some(b) => old(scan).answers().push(b),
                None => old(scan).answers(),
            }),
            ({
                let outcome = scan_from(
                    old(self).flags(),
                    old(self).last_priority() as int,
                    old(self).state(),
                    old(scan).has_time(),
                    0,
                    final(scan).answers(),
                );
                match r {
                    ScanAction::TestPredicate(i) => outcome == ScanOutcome::NeedPredicate(i as int)
                        && i < old(self).flags().len() && final(self).flags() == old(self).flags()
                        && final(self).scan_consistent(final(scan)) && !final(scan).is_done()
                        && final(scan).is_pending(),
                    ScanAction::Render { layout, new_update, screen_changed } => outcome
                        == ScanOutcome::Render(layout as int, new_update) && layout < old(
                        self,
                    ).flags().len() && screen_changed == (layout != old(self).last_priority())
                        && final(self).flags() == Seq::new(old(self).flags().len(), |i: int| false)
                        && final(scan).is_done(),
                    ScanAction::Idle => outcome == ScanOutcome::Idle && final(self).flags()
                        == Seq::new(old(self).flags().len(), |i: int| false)
                        && final(scan).is_done(),
                }
            }),
    {
        let ghost flags = self.flags();
        let ghost last = self.last_priority() as int;
        let ghost st = self.state();
        let ghost has = scan.has_time_remaining;
        let ghost answers0 = scan.answers@;
        let n = self.layout_update_flags.len();
        let mut p = scan.priority;
        let mut resuming = false;
        let mut resume_answer = false;
        match answer {
            Some(b) => {
                let ghost a1 = answers0.push(b);
                proof {
                    assert forall|xs: Seq<bool>|
                        #[trigger] scan_from(flags, last, st, has, 0, a1 + xs) == (if b {
                            ScanOutcome::Render(p as int, true)
                        } else {
                            repeat_or_next(flags, last, st, has, p as int, xs)
                        }) by {
                        assert(a1 + xs =~= answers0 + (seq![b] + xs));
                        assert((seq![b] + xs).drop_first() =~= xs);
                    }
                }
                scan.answers = Ghost(a1);
                scan.pending = false;
                resuming = true;
                resume_answer = b;
            },
            None => {},
        }
        let ghost answers = scan.answers@;
        let mut result = ScanAction::Idle;
        if resuming && resume_answer {
            result = ScanAction::Render { layout: p, new_update: true, screen_changed: p != self.last_priority };
            assert(scan_from(flags, last, st, has, 0, answers + Seq::empty()) == ScanOutcome::Render(p as int, true));
            assert(answers + Seq::<bool>::empty() =~= answers);
        } else {
            let mut skip_mark = resuming;
            loop
                invariant_except_break
                    !scan.pending,
                invariant
                    self.wf(),
                    self.flags() == flags,
                    self.last_priority() == last,
                    self.state() == st,
                    self.run_on() == old(self).run_on(),
                    self.name() == old(self).name(),
                    self.time_remaining() == old(self).time_remaining(),
                    n == flags.len(),
                    answers == scan.answers@,
                    has == scan.has_time_remaining,
                    !scan.done,
                    p <= n,
                    skip_mark ==> p < n,
                    forall|xs: Seq<bool>|
                        #[trigger] scan_from(flags, last, st, has, 0, answers + xs) == if skip_mark {
                            repeat_or_next(flags, last, st, has, p as int, xs)
                        } else {
                            scan_from(flags, last, st, has, p as int, xs)
                        },
                ensures
                    self.wf(),
                    self.flags() == flags,
                    self.last_priority() == last,
                    self.state() == st,
                    self.run_on() == old(self).run_on(),
                    self.name() == old(self).name(),
                    self.time_remaining() == old(self).time_remaining(),
                    answers == scan.answers@,
                    has == scan.has_time_remaining,
                    !scan.done,
                    match result {
                        ScanAction::TestPredicate(i) => i < n && scan.pending && scan.priority == i
                            && scan_from(flags, last, st, has, 0, answers) == ScanOutcome::NeedPredicate(i as int)
                            && forall|xs: Seq<bool>|
                            #[trigger] scan_from(flags, last, st, has, 0, answers + xs) == resume(
                                flags,
                                last,
                                st,
                                has,
                                i as int,
                                xs,
                            ),
                        ScanAction::Render { layout, new_update, screen_changed } => layout < n
                            && !new_update && screen_changed == (layout != last)
                            && scan_from(flags, last, st, has, 0, answers)
                            == ScanOutcome::Render(layout as int, false),
                        ScanAction::Idle => scan_from(flags, last, st, has, 0, answers)
                            == ScanOutcome::Idle,
                    },
                decreases n - p, if skip_mark { 0int } else { 1int },
            {
                assert(answers + Seq::<bool>::empty() =~= answers);
                if !skip_mark {
                    if p >= n {
                        result = ScanAction::Idle;
                        break ;
                    }
                    if scan.has_time_remaining && self.last_priority < p {
                        result = ScanAction::Idle;
                        break ;
                    }
                    if self.layout_update_flags[p] {
                        scan.pending = true;
                        scan.priority = p;
                        result = ScanAction::TestPredicate(p);
                        break ;
                    }
                }
                let repeat_for_duration = scan.has_time_remaining && self.state == State::CanFinish;
                let repeat_once = self.state == State::InProgress;
                if self.last_priority == p && (repeat_for_duration || repeat_once) {
                    result = ScanAction::Render { layout: p, new_update: false, screen_changed: false };
                    break ;
                }
                p = p + 1;
                skip_mark = false;
            }
        }
        match result {
            ScanAction::TestPredicate(_) => {},
            _ => {
                scan.done = true;
                self.clear_flags();
            },
        }
        result
    }

    /// Ends a tick in which `layout` was drawn: a new update gets the duration the
    /// layout asked for, and the layout and its animation state are remembered.
    pub fn finish_update(&mut self, layout: usize, new_update: bool, duration: u64, state: State)
        requires
            old(self).wf(),
        ensures
            final(self).wf(),
            final(self).run_on() == old(self).run_on(),
            final(self).name() == old(self).name(),
            final(self).flags() == old(self).flags(),
            final(self).time_remaining() == if new_update {
                duration
            } else {
                old(self).time_remaining()
            },
            final(self).last_priority() == layout,
            final(self).state() == state,
    {
        if new_update {
            self.time_remaining = duration;
        }
        self.last_priority = layout;
        self.state = state;
    }
}

/// Milliseconds a layout holds the screen when it does not say.
pub const DEFAULT_UPDATE_TIME_MS: u64 = 1000;

/// The time, in milliseconds, a drawn layout holds the screen: what it asked for, or the
/// default.
pub fn layout_duration(duration: Option<u64>) -> (r: u64)
    ensures
        r == match duration {
            Some(d) => d,
            None => DEFAULT_UPDATE_TIME_MS,
        },
{
    match duration {
        Some(d) => d,
        None => DEFAULT_UPDATE_TIME_MS,
    }
}

/// Whether `after` is `before` with every layout listed for `key` marked for update.
pub open spec fn marked_for(before: &LayoutSchedule, after: &LayoutSchedule, key: Seq<char>) -> bool {
    &&& after.wf()
    &&& after.run_on() == before.run_on()
    &&& after.name() == before.name()
    &&& after.time_remaining() == before.time_remaining()
    &&& after.last_priority() == before.last_priority()
    &&& after.state() == before.state()
    &&& after.flags().len() == before.flags().len()
    &&& forall|i: int|
        0 <= i < before.flags().len() ==> #[trigger] after.flags()[i] == (before.flags()[i]
            || holds_key(before.run_on()[i], key))
}

/// Whether `after` is `before` started afresh.
pub open spec fn reset_from(before: &LayoutSchedule, after: &LayoutSchedule) -> bool {
    &&& after.wf()
    &&& after.run_on() == before.run_on()
    &&& after.name() == before.name()
    &&& after.flags() == Seq::new(before.flags().len(), |i: int| false)
    &&& after.time_remaining() == 0
    &&& after.last_priority() == 0
    &&& after.state() == State::Finished
}

/// Whether `after` is `before` with the first schedule called `name` started afresh, at
/// position `r`; `r` is `None` and nothing changes when no schedule has that name.
pub open spec fn reset_outcome(
    before: Seq<LayoutSchedule>,
    after: Seq<LayoutSchedule>,
    name: Seq<char>,
    r: Option<usize>,
) -> bool {
    &&& after.len() == before.len()
    &&& match r {
        Some(k) => k < before.len() && before[k as int].name() == name && (forall|j: int|
            0 <= j < k ==> (#[trigger] before[j]).name() != name) && reset_from(
            &before[k as int],
            &after[k as int],
        ) && forall|j: int| 0 <= j < before.len() && j != k ==> #[trigger] after[j] == before[j],
        None => (forall|j: int| 0 <= j < before.len() ==> (#[trigger] before[j]).name() != name)
            && after == before,
    }
}

/// The schedules of all registered devices, in the order they were registered.
pub struct Schedules {
    items: Vec<LayoutSchedule>,
}

impl Schedules {
    pub closed spec fn items(&self) -> Seq<LayoutSchedule> {
        self.items@
    }

    pub open spec fn wf(&self) -> bool {
        forall|i: int| 0 <= i < self.items().len() ==> (#[trigger] self.items()[i]).wf()
    }

    /// No device is registered yet.
    pub fn new() -> (r: Self)
        ensures
            r.wf(),
            r.items().len() == 0,
    {
        Schedules { items: Vec::new() }
    }

    /// Adds the schedule of a newly registered device.
    pub fn register(&mut self, schedule: LayoutSchedule)
        requires
            old(self).wf(),
            schedule.wf(),
        ensures
            final(self).wf(),
            final(self).items() == old(self).items().push(schedule),
    {
        self.items.push(schedule);
        assert forall|i: int| 0 <= i < self.items().len() implies (#[trigger] self.items()[i]).wf() by {
            if i < old(self).items().len() {
                assert(self.items()[i] == old(self).items()[i]);
            }
        }
    }

    pub fn len(&self) -> (r: usize)
        ensures
            r == self.items().len(),
    {
        self.items.len()
    }

    /// Marks for update, on every device, each layout that `key` is listed for.
    pub fn mark_for_update(&mut self, key: &str)
        requires
            old(self).wf(),
        ensures
            final(self).wf(),
            final(self).items().len() == old(self).items().len(),
            forall|i: int|
                0 <= i < old(self).items().len() ==> marked_for(
                    &old(self).items()[i],
                    &#[trigger] final(self).items()[i],
                    key@,
                ),
    {
        let mut i: usize = 0;
        while i < self.items.len()
            invariant
                self.wf(),
                i <= self.items().len(),
                self.items().len() == old(self).items().len(),
                forall|j: int|
                    0 <= j < i ==> marked_for(&old(self).items()[j], &#[trigger] self.items()[j], key@),
                forall|j: int| i <= j < self.items().len() ==> #[trigger] self.items()[j] == old(self).items()[j],
            decreases self.items().len() - i,
        {
            let mut item = self.items.remove(i);
            item.mark_for_update(key);
            self.items.insert(i, item);
            i = i + 1;
        }
    }

    /// Starts the device called `name` afresh, as a switch of its screen requires. Gives
    /// the position of that device, the first of that name, or `None` when no device has
    /// that name.
    pub fn reset(&mut self, name: &str) -> (r: Option<usize>)
        requires
            old(self).wf(),
        ensures
            final(self).wf(),
            final(self).items().len() == old(self).items().len(),
            reset_outcome(old(self).items(), final(self).items(), name@, r),
    {
        let mut i: usize = 0;
        while i < self.items.len()
            invariant
                self.items() == old(self).items(),
                self.wf(),
                i <= self.items().len(),
                forall|j: int| 0 <= j < i ==> (#[trigger] self.items()[j]).name() != name@,
            decreases self.items().len() - i,
        {
            if str_eq(self.items[i].name_str(), name) {
                let mut item = self.items.remove(i);
                item.reset();
                self.items.insert(i, item);
                return Some(i);
            }
            i = i + 1;
        }
        None
    }
}

/// What any scan decides, whatever the predicates answer: a layout is drawn as a new
/// update only when it was marked for one; otherwise only the layout drawn last is drawn
/// again, and only while it repeats; a predicate is only asked of a marked layout; and
/// while the layout drawn last still has time left, no layout of lower priority is
/// asked or drawn.
pub proof fn lemma_scan_outcome(
    flags: Seq<bool>,
    last: int,
    state: State,
    has_time: bool,
    p: int,
    answers: Seq<bool>,
)
    requires
        0 <= p,
    ensures
        match scan_from(flags, last, state, has_time, p, answers) {
            ScanOutcome::Render(q, true) => p <= q < flags.len() && flags[q] && (has_time ==> q
                <= last),
            ScanOutcome::Render(q, false) => p <= q < flags.len() && q == last && repeats(
                last,
                state,
                has_time,
                q,
            ),
            ScanOutcome::NeedPredicate(q) => p <= q < flags.len() && flags[q] && (has_time ==> q
                <= last),
            ScanOutcome::Idle => true,
        },
    decreases flags.len() - p, answers.len(), 1int,
{
    if p >= flags.len() || (has_time && last < p) {
    } else if flags[p] {
        if answers.len() > 0 && !answers[0] {
            lemma_repeat_or_next_outcome(flags, last, state, has_time, p, answers.drop_first());
        }
    } else {
        lemma_repeat_or_next_outcome(flags, last, state, has_time, p, answers);
    }
}

proof fn lemma_repeat_or_next_outcome(
    flags: Seq<bool>,
    last: int,
    state: State,
    has_time: bool,
    p: int,
    answers: Seq<bool>,
)
    requires
        0 <= p < flags.len(),
        has_time ==> p <= last,
    ensures
        match repeat_or_next(flags, last, state, has_time, p, answers) {
            ScanOutcome::Render(q, true) => p <= q < flags.len() && flags[q] && (has_time ==> q
                <= last),
            ScanOutcome::Render(q, false) => p <= q < flags.len() && q == last && repeats(
                last,
                state,
                has_time,
                q,
            ),
            ScanOutcome::NeedPredicate(q) => p <= q < flags.len() && flags[q] && (has_time ==> q
                <= last),
            ScanOutcome::Idle => true,
        },
    decreases flags.len() - p, answers.len(), 0int,
{
    if !repeats(last, state, has_time, p) && p + 1 <= flags.len() {
        lemma_scan_outcome(flags, last, state, has_time, p + 1, answers);
    }
}

} // verus!

//! The supervision loop as a state machine.
//!
//! A running supervisor waits for its children. Each wait ends in one
//! [`SupervisorEvent`]; [`Supervision::step`] turns it into the next state and
//! a [`Step`]: the tasks to abort and to spawn, in order, and whether the
//! supervisor itself ends.
//!
//! Every time a child is started, the new task gets an instance number of its
//! own. A report that comes from an instance which has been replaced since,
//! because a sibling's failure made the supervisor abort it, is ignored.

use vstd::prelude::*;

use crate::restart_window::{recorded, RestartWindow, NANOS_PER_SEC};
use crate::supervisor::{
    end_affected, first_affected, same_child, sets_off_restart, ChildSpec, ExitReason, Restart,
    RestartPolicy, Supervisor, SupervisorSpec,
};

verus! {

/// What the supervisor asks of the runtime.
#[derive(Debug, Clone, Copy, PartialEq, Eq, Structural)]
pub enum Action {
    /// Start the child of `slot`, and report its end as that of `instance`.
    Spawn { slot: usize, instance: u64 },
    /// Abort the running `instance` of the child of `slot`.
    Abort { slot: usize, instance: u64 },
}

/// Why a supervisor ended.
#[derive(Debug, Clone, Copy, PartialEq, Eq, Structural)]
pub enum SupervisorExit {
    /// All children have stopped.
    Finished,
    /// The supervisor gave up, so that its own supervisor may restart it.
    Escalated,
}

/// How a wait for the children ended.
#[derive(Debug, PartialEq, Eq)]
pub enum SupervisorEvent {
    /// `instance` of the child of `slot` ended.
    Exited { slot: usize, instance: u64, reason: ExitReason },
    /// A task that forwards a child's end failed itself.
    ForwarderFailed,
    /// No report is outstanding.
    Drained,
}

/// What the supervisor does about an event.
#[derive(Debug, PartialEq, Eq)]
pub struct Step {
    /// To be carried out in order.
    pub actions: Vec<Action>,
    /// Set when the supervisor ends after `actions`.
    pub exit: Option<SupervisorExit>,
}

/// The state of a running supervisor, without names and factories.
#[verifier::ext_equal]
pub struct SupervisionState {
    pub strategy: Restart,
    pub max_restarts: u32,
    /// Length of the restart window in nanoseconds.
    pub within: int,
    /// The restart policy of each child.
    pub policies: Seq<RestartPolicy>,
    /// The running instance of each child, if it runs.
    pub running: Seq<Option<u64>>,
    /// The restart times that count at the last one.
    pub history: Seq<u128>,
    /// The number that the next instance gets.
    pub next_instance: int,
}

impl SupervisionState {
    /// Each running instance has a number that was given out, and no two have the same.
    pub open spec fn valid(self) -> bool {
        &&& self.policies.len() == self.running.len()
        &&& 0 <= self.next_instance <= u64::MAX
        &&& forall|i: int|
            0 <= i < self.running.len() ==> (#[trigger] self.running[i] matches Some(a)
                ==> a < self.next_instance)
        &&& forall|i: int, j: int|
            0 <= i < j < self.running.len() && self.running[i] is Some
                ==> #[trigger] self.running[i] != #[trigger] self.running[j]
    }

    /// Whether there are instance numbers left to restart every child once.
    pub open spec fn has_room(self) -> bool {
        self.next_instance + self.running.len() <= u64::MAX
    }

    /// The state in which slot `slot` is stopped.
    pub open spec fn stopped(self, slot: int) -> Self {
        SupervisionState { running: self.running.update(slot, None), ..self }
    }

    /// The state in which `history` is the restart history.
    pub open spec fn with_history(self, history: Seq<u128>) -> Self {
        SupervisionState { history, ..self }
    }

    /// The state in which no child runs.
    pub open spec fn all_stopped(self) -> Self {
        SupervisionState { running: Seq::new(self.running.len(), |i: int| None), ..self }
    }

    /// The state in which the children of the slots from `first` to `end` run
    /// as new instances, numbered in order.
    pub open spec fn started(self, first: int, end: int) -> Self {
        SupervisionState {
            running: Seq::new(
                self.running.len(),
                |i: int|
                    if first <= i < end {
                        Some((self.next_instance + (i - first)) as u64)
                    } else {
                        self.running[i]
                    },
            ),
            next_instance: self.next_instance + (end - first),
            ..self
        }
    }

    /// The state in which the children of the slots from `first` to `end` run
    /// as new instances, numbered in order, except that temporary ones are stopped.
    pub open spec fn restarted(self, first: int, end: int) -> Self {
        SupervisionState {
            running: Seq::new(
                self.running.len(),
                |i: int|
                    if first <= i < end {
                        if self.policies[i] == RestartPolicy::Temporary {
                            None
                        } else {
                            Some((self.next_instance + restartable(self.policies, first, i)) as u64)
                        }
                    } else {
                        self.running[i]
                    },
            ),
            next_instance: self.next_instance + restartable(self.policies, first, end),
            ..self
        }
    }
}

/// How many of the slots from `first` to `end` hold a child that may be restarted.
pub open spec fn restartable(policies: Seq<RestartPolicy>, first: int, end: int) -> int
    decreases end - first,
{
    if end <= first {
        0
    } else if policies[end - 1] == RestartPolicy::Temporary {
        restartable(policies, first, end - 1)
    } else {
        restartable(policies, first, end - 1) + 1
    }
}

/// New instances keep the state valid.
proof fn lemma_started_valid(state: SupervisionState, first: int, end: int)
    requires
        state.valid(),
        0 <= first <= end <= state.running.len(),
        state.next_instance + (end - first) <= u64::MAX,
    ensures
        state.started(first, end).valid(),
{
}

/// The children that may be restarted before slot `i` are no more than those
/// before slot `end`, and fewer if slot `i` holds one.
pub(crate) proof fn lemma_restartable(
    policies: Seq<RestartPolicy>,
    first: int,
    i: int,
    end: int,
)
    requires
        first <= i <= end,
    ensures
        0 <= restartable(policies, first, i) <= i - first,
        restartable(policies, first, i) <= restartable(policies, first, end) <= end - first,
        i < end && policies[i] != RestartPolicy::Temporary ==> restartable(policies, first, i)
            < restartable(policies, first, end),
    decreases end - first,
{
    if i < end {
        lemma_restartable(policies, first, i, end - 1);
    } else if first < end {
        lemma_restartable(policies, first, i - 1, end - 1);
    }
}

/// A restart keeps the state valid.
proof fn lemma_restarted_valid(state: SupervisionState, first: int, end: int)
    requires
        state.valid(),
        0 <= first <= end <= state.running.len(),
        state.next_instance + (end - first) <= u64::MAX,
    ensures
        state.restarted(first, end).valid(),
{
    let after = state.restarted(first, end);
    lemma_restartable(state.policies, first, first, end);
    assert forall|i: int| 0 <= i < after.running.len() implies (#[trigger] after.running[i] matches Some(
        a,
    ) ==> a < after.next_instance) by {
        if first <= i < end {
            lemma_restartable(state.policies, first, i, end);
        }
    }
    assert forall|i: int, j: int|
        0 <= i < j < after.running.len() && after.running[i] is Some implies #[trigger] after.running[i]
        != #[trigger] after.running[j] by {
        if first <= i < end {
            lemma_restartable(state.policies, first, i, end);
            if j < end {
                lemma_restartable(state.policies, first, i, j);
                lemma_restartable(state.policies, first, j, end);
            }
        } else if first <= j < end {
            lemma_restartable(state.policies, first, j, end);
        }
    }
}

/// Stopping a child keeps the state valid.
proof fn lemma_stopped_valid(state: SupervisionState, slot: int)
    requires
        state.valid(),
        0 <= slot < state.running.len(),
    ensures
        state.stopped(slot).valid(),
{
}

/// What restarts the child of `slot`: its running instance, if there is one, is
/// aborted, and unless it is temporary it is spawned as `instance`.
pub open spec fn replacement(
    slot: int,
    policy: RestartPolicy,
    running: Option<u64>,
    instance: int,
) -> Seq<Action> {
    let abort = match running {
        Some(old) => seq![Action::Abort { slot: slot as usize, instance: old }],
        None => Seq::empty(),
    };
    if policy == RestartPolicy::Temporary {
        abort
    } else {
        abort.push(Action::Spawn { slot: slot as usize, instance: instance as u64 })
    }
}

/// What restarts the slots from `first` to `end`, in order, where `next` is the
/// number that the next instance gets.
pub open spec fn restart_actions(
    policies: Seq<RestartPolicy>,
    running: Seq<Option<u64>>,
    first: int,
    end: int,
    next: int,
) -> Seq<Action>
    decreases end - first,
{
    if end <= first {
        Seq::empty()
    } else {
        restart_actions(policies, running, first, end - 1, next) + replacement(
            end - 1,
            policies[end - 1],
            running[end - 1],
            next + restartable(policies, first, end - 1),
        )
    }
}

/// What aborts every child that runs in the first `end` slots, in order.
pub open spec fn abort_actions(running: Seq<Option<u64>>, end: int) -> Seq<Action>
    decreases end,
{
    if end <= 0 {
        Seq::empty()
    } else {
        match running[end - 1] {
            Some(a) => abort_actions(running, end - 1).push(
                Action::Abort { slot: (end - 1) as usize, instance: a },
            ),
            None => abort_actions(running, end - 1),
        }
    }
}

/// A step of the model: the next state, the actions and the end, if any.
pub struct StepModel {
    pub state: SupervisionState,
    pub actions: Seq<Action>,
    pub exit: Option<SupervisorExit>,
}

/// The step that changes nothing.
pub open spec fn ignored(state: SupervisionState) -> StepModel {
    StepModel { state, actions: Seq::empty(), exit: None }
}

/// The step after which the child of `slot` is stopped and nothing else changed.
pub open spec fn left_stopped(state: SupervisionState, slot: int) -> StepModel {
    StepModel { state: state.stopped(slot), actions: Seq::empty(), exit: None }
}

/// The step after a failure of the child of `slot` that the window does not allow any more.
pub open spec fn escalated(state: SupervisionState, slot: int, history: Seq<u128>) -> StepModel {
    StepModel {
        state: state.with_history(history).all_stopped(),
        actions: abort_actions(state.stopped(slot).running, state.running.len() as int),
        exit: Some(SupervisorExit::Escalated),
    }
}

/// The step after a failure of the child of `slot` that leads to a restart.
pub open spec fn restarting(state: SupervisionState, slot: int, history: Seq<u128>) -> StepModel {
    let first = first_affected(state.strategy, slot);
    let end = end_affected(state.strategy, slot, state.running.len() as int);
    StepModel {
        state: state.with_history(history).restarted(first, end),
        actions: restart_actions(
            state.policies,
            state.stopped(slot).running,
            first,
            end,
            state.next_instance,
        ),
        exit: None,
    }
}

/// What the end of an instance leads to.
pub open spec fn exited(
    state: SupervisionState,
    slot: int,
    instance: u64,
    reason: ExitReason,
    now: u128,
) -> StepModel {
    let history = recorded(state.history, now, state.within);
    if state.running[slot] != Some(instance) {
        ignored(state)
    } else if !sets_off_restart(state.policies[slot], reason) {
        left_stopped(state, slot)
    } else if history.len() > state.max_restarts {
        escalated(state, slot, history)
    } else {
        restarting(state, slot, history)
    }
}

/// What an event leads to.
pub open spec fn step_model(state: SupervisionState, event: SupervisorEvent, now: u128) -> StepModel {
    match event {
        SupervisorEvent::Exited { slot, instance, reason } => exited(
            state,
            slot as int,
            instance,
            reason,
            now,
        ),
        SupervisorEvent::ForwarderFailed => StepModel {
            state,
            actions: Seq::empty(),
            exit: Some(SupervisorExit::Escalated),
        },
        SupervisorEvent::Drained => StepModel {
            state,
            actions: Seq::empty(),
            exit: if forall|i: int| 0 <= i < state.running.len() ==> state.running[i] is None {
                Some(SupervisorExit::Finished)
            } else {
                None
            },
        },
    }
}

/// The slot of an event, if it has one, exists.
pub open spec fn has_slot(state: SupervisionState, event: SupervisorEvent) -> bool {
    event matches SupervisorEvent::Exited { slot, .. } ==> slot < state.running.len()
}

/// The state of a supervisor none of whose children has been started.
pub open spec fn initial<F>(spec: SupervisorSpec, children: Seq<ChildSpec<F>>) -> SupervisionState {
    SupervisionState {
        strategy: spec.strategy,
        max_restarts: spec.max_restarts,
        within: spec.within_secs * NANOS_PER_SEC,
        policies: children.map_values(|c: ChildSpec<F>| c.restart),
        running: Seq::new(children.len(), |i: int| None),
        history: Seq::empty(),
        next_instance: 0,
    }
}

/// Per-child bookkeeping.
struct Slot<F> {
    spec: ChildSpec<F>,
    /// The running instance; `None` when the child is stopped.
    running: Option<u64>,
}

/// A running supervisor.
pub struct Supervision<F> {
    spec: SupervisorSpec,
    slots: Vec<Slot<F>>,
    window: RestartWindow,
    next_instance: u64,
}

impl<F> View for Supervision<F> {
    type V = SupervisionState;

    closed spec fn view(&self) -> SupervisionState {
        SupervisionState {
            strategy: self.spec.strategy,
            max_restarts: self.window.max_restarts(),
            within: self.window.within(),
            policies: self.slots@.map_values(|s: Slot<F>| s.spec.restart),
            running: self.slots@.map_values(|s: Slot<F>| s.running),
            history: self.window.history(),
            next_instance: self.next_instance as int,
        }
    }
}

impl SupervisorExit {
    /// Whether a supervisor that ended like this has a task that ended for `reason`.
    pub open spec fn shows_as(self, reason: ExitReason) -> bool {
        match self {
            SupervisorExit::Finished => reason is Normal,
            SupervisorExit::Escalated => reason is Panic,
        }
    }

    /// How the task of a supervisor that ended like this has to end: it
    /// returns, or it panics with the given message, which is what lets its own
    /// supervisor see a failure.
    pub fn task_result(self) -> (result: Result<(), &'static str>)
        ensures
            self is Finished ==> result == Ok::<(), &'static str>(()),
            self is Escalated ==> (result matches Err(message) && message@
                == "supervisor escalated"@),
    {
        match self {
            SupervisorExit::Finished => Ok(()),
            SupervisorExit::Escalated => Err("supervisor escalated"),
        }
    }
}

impl<F> Supervision<F> {
    /// The configuration of the supervisor.
    pub closed spec fn config(&self) -> SupervisorSpec {
        self.spec
    }

    /// The specifications of the children.
    pub closed spec fn child_specs(&self) -> Seq<ChildSpec<F>> {
        self.slots@.map_values(|s: Slot<F>| s.spec)
    }

    /// Start a supervisor: every child is spawned, in the order in which the
    /// children were added.
    pub fn begin(supervisor: Supervisor<F>) -> (started: (Self, Vec<Action>)) where F: Clone
        ensures
            started.0.config() == supervisor.config(),
            started.0.child_specs() == supervisor.child_specs(),
            started.0@ == initial(supervisor.config(), supervisor.child_specs()).started(
                0,
                supervisor.child_specs().len() as int,
            ),
            started.0@.valid(),
            started.1@ == Seq::new(
                supervisor.child_specs().len(),
                |i: int| Action::Spawn { slot: i as usize, instance: i as u64 },
            ),
            started.0@.strategy == supervisor.config().strategy,
            started.0@.max_restarts == supervisor.config().max_restarts,
            started.0@.within == supervisor.config().within_secs * 1_000_000_000,
            started.0@.history == Seq::<u128>::empty(),
            started.0@.next_instance == supervisor.child_specs().len(),
            started.0@.policies.len() == supervisor.child_specs().len(),
            started.0@.running.len() == supervisor.child_specs().len(),
            forall|i: int|
                0 <= i < supervisor.child_specs().len() ==> #[trigger] started.0@.policies[i]
                    == supervisor.child_specs()[i].restart,
            forall|i: int|
                0 <= i < supervisor.child_specs().len() ==> #[trigger] started.0@.running[i] == Some(
                    i as u64,
                ),
    {
        let ghost specs = supervisor.child_specs();
        let (spec, children) = supervisor.into_parts();
        let count: usize = children.len();
        let window = RestartWindow::new(spec.max_restarts, spec.within_secs);
        let mut supervision = Supervision { spec, slots: Vec::new(), window, next_instance: 0 };
        let mut actions: Vec<Action> = Vec::new();
        for child in iter: children
            invariant
                iter.seq() == specs,
                specs.len() == count,
                supervision.config() == spec,
                supervision.child_specs() == specs.take(iter.index()),
                supervision@ == initial(spec, specs.take(iter.index())).started(0, iter.index()),
                actions@ == Seq::new(
                    iter.index() as nat,
                    |i: int| Action::Spawn { slot: i as usize, instance: i as u64 },
                ),
        {
            let i: usize = actions.len();
            let ghost n = iter.index();
            proof {
                lemma_started_valid(initial(spec, specs.take(n)), 0, n);
            }
            let action = supervision.spawn_child(i, child);
            actions.push(action);
            proof {
                let target = initial(spec, specs.take(n + 1)).started(0, n + 1);
                assert(supervision.child_specs() =~= specs.take(n + 1));
                assert(supervision@.policies =~= target.policies);
                assert(supervision@.running =~= target.running);
            }
        }
        proof {
            assert(specs.take(specs.len() as int) =~= specs);
            lemma_started_valid(initial(spec, specs), 0, specs.len() as int);
        }
        (supervision, actions)
    }

    /// Put a child into slot `i` and start it.
    ///
    /// Slots that are missing before slot `i` are filled with stopped copies of the child.
    pub fn spawn_child(&mut self, i: usize, spec: ChildSpec<F>) -> (action: Action) where F: Clone
        requires
            old(self)@.valid(),
            old(self)@.next_instance < u64::MAX,
        ensures
            final(self).config() == old(self).config(),
            final(self)@.valid(),
            final(self)@.strategy == old(self)@.strategy,
            final(self)@.max_restarts == old(self)@.max_restarts,
            final(self)@.within == old(self)@.within,
            final(self)@.history == old(self)@.history,
            final(self)@.next_instance == old(self)@.next_instance + 1,
            final(self)@.running.len() == if i < old(self)@.running.len() {
                old(self)@.running.len() as int
            } else {
                i + 1
            },
            final(self).child_specs().len() == final(self)@.running.len(),
            forall|j: int|
                0 <= j < final(self)@.running.len() ==> #[trigger] final(self)@.policies[j]
                    == final(self).child_specs()[j].restart,
            final(self).child_specs()[i as int] == spec,
            final(self)@.running[i as int] == Some(old(self)@.next_instance as u64),
            forall|j: int|
                0 <= j < old(self)@.running.len() && j != i
                    ==> #[trigger] final(self).child_specs()[j] == old(self).child_specs()[j],
            forall|j: int|
                0 <= j < old(self)@.running.len() && j != i ==> #[trigger] final(self)@.running[j]
                    == old(self)@.running[j],
            forall|j: int|
                old(self)@.running.len() <= j < i ==> same_child(
                    spec,
                    #[trigger] final(self).child_specs()[j],
                ),
            forall|j: int|
                old(self)@.running.len() <= j < i ==> {
                    let copy = #[trigger] final(self).child_specs()[j];
                    &&& copy.id == spec.id
                    &&& copy.restart == spec.restart
                },
            forall|j: int|
                old(self)@.running.len() <= j < i ==> #[trigger] final(self)@.running[j] is None,
            action == (Action::Spawn { slot: i, instance: old(self)@.next_instance as u64 }),
    {
        let ghost before = *self;
        while self.slots.len() <= i
            invariant
                self.spec == before.spec,
                self.window == before.window,
                self.next_instance == before.next_instance,
                self.slots@.len() >= before.slots@.len(),
                self.slots@.len() <= i + 1 || self.slots@.len() == before.slots@.len(),
                forall|j: int|
                    0 <= j < before.slots@.len() ==> #[trigger] self.slots@[j] == before.slots@[j],
                forall|j: int|
                    before.slots@.len() <= j < self.slots@.len() ==> {
                        &&& same_child(spec, (#[trigger] self.slots@[j]).spec)
                        &&& self.slots@[j].running is None
                    },
            decreases i + 1 - self.slots.len(),
        {
            self.slots.push(Slot { spec: spec.clone(), running: None });
        }
        self.slots[i].spec = spec;
        proof {
            assert(self@.valid()) by {
                assert(before@.valid());
                assert forall|j: int| 0 <= j < self@.running.len() implies #[trigger] self@.running[j]
                    == if j < before@.running.len() {
                    before@.running[j]
                } else {
                    None
                } by {}
            }
            lemma_started_valid(self@, i as int, i + 1);
        }
        self.start_slot(i)
    }

    /// Give the child of slot `i` a new instance.
    fn start_slot(&mut self, i: usize) -> (action: Action)
        requires
            i < old(self)@.running.len(),
            old(self)@.next_instance < u64::MAX,
        ensures
            final(self).config() == old(self).config(),
            final(self).child_specs() == old(self).child_specs(),
            final(self)@ == old(self)@.started(i as int, i + 1),
            action == (Action::Spawn { slot: i, instance: old(self)@.next_instance as u64 }),
    {
        let instance: u64 = self.next_instance;
        self.next_instance = instance + 1;
        self.slots[i].running = Some(instance);
        assert(self@.running =~= old(self)@.started(i as int, i + 1).running);
        assert(self@.policies =~= old(self)@.policies);
        assert(self.child_specs() =~= old(self).child_specs());
        Action::Spawn { slot: i, instance }
    }

    /// Mark the child of slot `i` as stopped.
    fn stop_slot(&mut self, i: usize)
        requires
            i < old(self)@.running.len(),
        ensures
            final(self).config() == old(self).config(),
            final(self).child_specs() == old(self).child_specs(),
            final(self)@ == old(self)@.stopped(i as int),
    {
        self.slots[i].running = None;
        assert(self@.running =~= old(self)@.stopped(i as int).running);
        assert(self@.policies =~= old(self)@.policies);
        assert(self.child_specs() =~= old(self).child_specs());
    }

    /// Abort every running child. All children are stopped afterwards.
    fn abort_all(&mut self) -> (actions: Vec<Action>)
        ensures
            final(self).config() == old(self).config(),
            final(self).child_specs() == old(self).child_specs(),
            final(self)@ == old(self)@.all_stopped(),
            actions@ == abort_actions(old(self)@.running, old(self)@.running.len() as int),
    {
        let ghost before = *self;
        let mut actions: Vec<Action> = Vec::new();
        let count: usize = self.slots.len();
        for i in 0..count
            invariant
                count == self.slots@.len(),
                self.spec == before.spec,
                self.window == before.window,
                self.next_instance == before.next_instance,
                self.slots@.len() == before.slots@.len(),
                forall|j: int|
                    0 <= j < self.slots@.len() ==> (#[trigger] self.slots@[j]).spec
                        == before.slots@[j].spec,
                forall|j: int| 0 <= j < i ==> (#[trigger] self.slots@[j]).running is None,
                forall|j: int|
                    i <= j < self.slots@.len() ==> #[trigger] self.slots@[j] == before.slots@[j],
                actions@ == abort_actions(before@.running, i as int),
        {
            if let Some(instance) = self.slots[i].running {
                assert(before@.running[i as int] == Some(instance));
                actions.push(Action::Abort { slot: i, instance });
                self.slots[i].running = None;
            } else {
                assert(before@.running[i as int] is None);
            }
        }
        assert(self@.running =~= before@.all_stopped().running);
        assert(self@.policies =~= before@.policies);
        assert(self.child_specs() =~= before.child_specs());
        actions
    }

    /// Restart the children that the strategy names after the one of slot
    /// `failed`. Temporary ones among them are stopped instead.
    fn apply_strategy(&mut self, failed: usize) -> (actions: Vec<Action>)
        requires
            failed < old(self)@.running.len(),
            old(self)@.has_room(),
        ensures
            final(self).config() == old(self).config(),
            final(self).child_specs() == old(self).child_specs(),
            final(self)@ == old(self)@.restarted(
                first_affected(old(self)@.strategy, failed as int),
                end_affected(old(self)@.strategy, failed as int, old(self)@.running.len() as int),
            ),
            actions@ == restart_actions(
                old(self)@.policies,
                old(self)@.running,
                first_affected(old(self)@.strategy, failed as int),
                end_affected(old(self)@.strategy, failed as int, old(self)@.running.len() as int),
                old(self)@.next_instance,
            ),
    {
        let ghost before = *self;
        let ghost first = first_affected(before@.strategy, failed as int);
        let mut actions: Vec<Action> = Vec::new();
        let to_restart = self.spec.strategy.affected(failed, self.slots.len());
        assert(self@ =~= before@.restarted(first, first));
        for k in 0..to_restart.len()
            invariant
                before@.has_room(),
                0 <= first,
                first + to_restart@.len() <= before@.running.len(),
                forall|m: int|
                    0 <= m < to_restart@.len() ==> #[trigger] to_restart@[m] == first + m,
                self.config() == before.config(),
                self.child_specs() == before.child_specs(),
                self@ == before@.restarted(first, first + k),
                actions@ == restart_actions(
                    before@.policies,
                    before@.running,
                    first,
                    first + k,
                    before@.next_instance,
                ),
        {
            let i: usize = to_restart[k];
            let ghost at = self@;
            let ghost added = actions@;
            let ghost instance = before@.next_instance + restartable(
                before@.policies,
                first,
                first + k,
            );
            let ghost target = before@.restarted(first, first + k + 1);
            proof {
                lemma_restartable(before@.policies, first, first + k, first + k);
                assert(at.running.len() == self.slots@.len());
                assert(at.policies == before@.policies);
                assert(at.policies[i as int] == self.slots@[i as int].spec.restart);
                assert(at.running[i as int] == before@.running[i as int]);
            }
            if let Some(old_instance) = self.slots[i].running {
                actions.push(Action::Abort { slot: i, instance: old_instance });
            }
            if self.slots[i].spec.restart == RestartPolicy::Temporary {
                self.stop_slot(i);
                assert(self@.running =~= target.running);
            } else {
                actions.push(self.start_slot(i));
                assert(self@.running =~= target.running);
            }
            assert(self@ =~= target);
            assert(actions@ =~= added + replacement(
                i as int,
                before@.policies[i as int],
                before@.running[i as int],
                instance,
            ));
        }
        actions
    }

    /// What to do about the end of an instance.
    pub fn child_exited(&mut self, slot: usize, instance: u64, reason: &ExitReason, now: u128) -> (
    step: Step)
        requires
            old(self)@.valid(),
            old(self)@.has_room(),
            slot < old(self)@.running.len(),
        ensures
            final(self).config() == old(self).config(),
            final(self).child_specs() == old(self).child_specs(),
            final(self)@ == exited(old(self)@, slot as int, instance, *reason, now).state,
            final(self)@.valid(),
            step.actions@ == exited(old(self)@, slot as int, instance, *reason, now).actions,
            step.exit == exited(old(self)@, slot as int, instance, *reason, now).exit,
            ({
                let event = SupervisorEvent::Exited { slot, instance, reason: *reason };
                let model = step_model(old(self)@, event, now);
                &&& final(self)@ == model.state
                &&& step.actions@ == model.actions
                &&& step.exit == model.exit
            }),
    {
        if self.slots[slot].running != Some(instance) {
            return Step { actions: Vec::new(), exit: None };
        }
        self.stop_slot(slot);
        proof {
            lemma_stopped_valid(old(self)@, slot as int);
        }
        if !self.slots[slot].spec.restart.restarts_after(reason) {
            return Step { actions: Vec::new(), exit: None };
        }
        let allowed = self.window.record(now);
        let ghost counted = self@;
        assert(counted =~= old(self)@.stopped(slot as int).with_history(counted.history));
        if !allowed {
            assert(counted.all_stopped() =~= old(self)@.with_history(
                counted.history,
            ).all_stopped());
            return Step { actions: self.abort_all(), exit: Some(SupervisorExit::Escalated) };
        }
        proof {
            let first = first_affected(counted.strategy, slot as int);
            let end = end_affected(counted.strategy, slot as int, counted.running.len() as int);
            assert(counted.restarted(first, end) =~= old(self)@.with_history(
                counted.history,
            ).restarted(first, end));
            lemma_restarted_valid(counted, first, end);
        }
        Step { actions: self.apply_strategy(slot), exit: None }
    }

    /// Whether some child runs.
    pub fn any_running(&self) -> (any: bool)
        ensures
            any == exists|i: int| 0 <= i < self@.running.len() && self@.running[i] is Some,
    {
        for i in 0..self.slots.len()
            invariant
                forall|j: int| 0 <= j < i ==> self@.running[j] is None,
        {
            assert(self@.running[i as int] == self.slots@[i as int].running);
            if self.slots[i].running.is_some() {
                return true;
            }
        }
        false
    }

    /// What to do about an event, at the time `now`.
    pub fn step(&mut self, event: SupervisorEvent, now: u128) -> (step: Step)
        requires
            old(self)@.valid(),
            old(self)@.has_room(),
            has_slot(old(self)@, event),
        ensures
            final(self).config() == old(self).config(),
            final(self).child_specs() == old(self).child_specs(),
            final(self)@ == step_model(old(self)@, event, now).state,
            final(self)@.valid(),
            step.actions@ == step_model(old(self)@, event, now).actions,
            step.exit == step_model(old(self)@, event, now).exit,
    {
        match event {
            SupervisorEvent::Exited { slot, instance, reason } => self.child_exited(
                slot,
                instance,
                &reason,
                now,
            ),
            SupervisorEvent::ForwarderFailed => Step {
                actions: Vec::new(),
                exit: Some(SupervisorExit::Escalated),
            },
            SupervisorEvent::Drained => {
                let exit = if self.any_running() {
                    None
                } else {
                    Some(SupervisorExit::Finished)
                };
                Step { actions: Vec::new(), exit }
            },
        }
    }

    /// Whether there are instance numbers left to restart every child once.
    pub fn has_room(&self) -> (room: bool)
        ensures
            room == self@.has_room(),
            room <==> self@.next_instance + self@.running.len() <= u64::MAX,
    {
        self.slots.len() as u64 <= u64::MAX - self.next_instance
    }

    /// The number of children.
    pub fn len(&self) -> (count: usize)
        ensures
            count == self@.running.len(),
            count == self.child_specs().len(),
    {
        self.slots.len()
    }

    /// The specification of the child of `slot`.
    pub fn child(&self, slot: usize) -> (spec: &ChildSpec<F>)
        requires
            slot < self.child_specs().len(),
        ensures
            *spec == self.child_specs()[slot as int],
            spec.restart == self@.policies[slot as int],
    {
        &self.slots[slot].spec
    }
}

} // verus!

//! What a supervisor is made of: its strategy, its child specifications and
//! the reasons for which a child ends.
//!
//! The loop that restarts children is in [`crate::supervision`].

use std::sync::Arc;

use vstd::prelude::*;

verus! {

/// Restart strategy: which children restart when one of them fails.
#[derive(Debug, Clone, Copy, PartialEq, Eq, Structural)]
pub enum Restart {
    /// Only the failed child restarts.
    OneForOne,
    /// The failed child and every child started after it restart, in order,
    /// except that temporary ones stop. Useful when later children depend on
    /// earlier ones.
    RestForOne,
    /// Every child restarts, except that temporary ones stop. Use when
    /// children are tightly coupled.
    OneForAll,
}

/// A child's restart policy: whether a failure of this child makes the
/// supervisor apply its strategy, and whether a strategy may restart this child.
#[derive(Debug, Clone, Copy, PartialEq, Eq, Structural)]
pub enum RestartPolicy {
    /// Always restart on failure.
    Permanent,
    /// Restart only if it ended abnormally.
    Transient,
    /// Never restart. A failure of this child is neither answered nor counted,
    /// and when a sibling's failure reaches it, it is stopped and stays so.
    Temporary,
}

/// Why a supervised task ended.
#[derive(Debug, PartialEq, Eq)]
pub enum ExitReason {
    /// Returned cleanly. Nothing is restarted.
    Normal,
    /// Task panicked. Holds the panic message.
    Panic(String),
    /// Task was aborted.
    Aborted,
    /// Some other join error.
    Other(String),
}

impl Clone for ExitReason {
    fn clone(&self) -> (copy: Self)
        ensures
            copy == *self,
    {
        match self {
            ExitReason::Normal => ExitReason::Normal,
            ExitReason::Panic(text) => ExitReason::Panic(text.clone()),
            ExitReason::Aborted => ExitReason::Aborted,
            ExitReason::Other(text) => ExitReason::Other(text.clone()),
        }
    }
}

/// The first slot that `strategy` restarts when slot `failed` fails.
pub open spec fn first_affected(strategy: Restart, failed: int) -> int {
    match strategy {
        Restart::OneForOne => failed,
        Restart::RestForOne => failed,
        Restart::OneForAll => 0,
    }
}

/// The end of the slots that `strategy` restarts when slot `failed` of `count` fails.
pub open spec fn end_affected(strategy: Restart, failed: int, count: int) -> int {
    match strategy {
        Restart::OneForOne => failed + 1,
        Restart::RestForOne => count,
        Restart::OneForAll => count,
    }
}

/// Whether a child with this policy that ended for this reason sets off a restart.
pub open spec fn sets_off_restart(policy: RestartPolicy, reason: ExitReason) -> bool {
    &&& reason !is Normal
    &&& policy != RestartPolicy::Temporary
}

impl Restart {
    /// The slots to restart, in order, when slot `failed` of `count` fails.
    pub fn affected(self, failed: usize, count: usize) -> (slots: Vec<usize>)
        requires
            failed < count,
        ensures
            slots@.len() == end_affected(self, failed as int, count as int) - first_affected(
                self,
                failed as int,
            ),
            forall|k: int|
                0 <= k < slots@.len() ==> #[trigger] slots@[k] == first_affected(
                    self,
                    failed as int,
                ) + k,
            self is OneForOne ==> slots@ == seq![failed],
            self is RestForOne ==> slots@ == Seq::new(
                (count - failed) as nat,
                |k: int| (failed + k) as usize,
            ),
            self is OneForAll ==> slots@ == Seq::new(count as nat, |k: int| k as usize),
    {
        let first: usize = match self {
            Restart::OneForOne => failed,
            Restart::RestForOne => failed,
            Restart::OneForAll => 0,
        };
        let end: usize = match self {
            Restart::OneForOne => failed + 1,
            Restart::RestForOne => count,
            Restart::OneForAll => count,
        };
        let mut slots: Vec<usize> = Vec::new();
        for i in first..end
            invariant
                slots@.len() == i - first,
                forall|k: int| 0 <= k < slots@.len() ==> #[trigger] slots@[k] == first + k,
        {
            slots.push(i);
        }
        slots
    }
}

impl RestartPolicy {
    /// Whether a child that ended for `reason` sets off a restart.
    pub fn restarts_after(self, reason: &ExitReason) -> (restarts: bool)
        ensures
            restarts == sets_off_restart(self, *reason),
            restarts <==> !(reason is Normal) && !(self is Temporary),
    {
        match reason {
            ExitReason::Normal => false,
            ExitReason::Panic(_) | ExitReason::Aborted | ExitReason::Other(_) => {
                self != RestartPolicy::Temporary
            },
        }
    }
}

/// How a child is (re)started: by a factory of the caller's, or as a
/// supervisor with children of its own.
pub enum Factory<F> {
    /// A task that the caller's factory starts.
    Task(F),
    /// A nested supervisor, started anew with all its children.
    Tree(Arc<Supervisor<F>>),
}

/// Whether `copy` starts what `original` starts: the same supervisor, or a
/// clone of the same factory.
pub open spec fn same_start<F: Clone>(original: Factory<F>, copy: Factory<F>) -> bool {
    match original {
        Factory::Task(f) => copy matches Factory::Task(g) && cloned::<F>(f, g),
        Factory::Tree(_) => copy == original,
    }
}

impl<F: Clone> Clone for Factory<F> {
    fn clone(&self) -> (copy: Self)
        ensures
            same_start(*self, copy),
            *self matches Factory::Task(f) ==> (copy matches Factory::Task(g) && cloned::<F>(f, g)),
            *self is Tree ==> copy == *self,
    {
        match self {
            Factory::Task(f) => Factory::Task(f.clone()),
            Factory::Tree(supervisor) => Factory::Tree(Arc::clone(supervisor)),
        }
    }
}

/// Specification for one child.
pub struct ChildSpec<F> {
    /// A unique name for this child within its supervisor.
    pub id: Arc<str>,
    pub restart: RestartPolicy,
    /// Used every time the child needs to be (re)started.
    pub factory: Factory<F>,
}

impl<F> ChildSpec<F> {
    /// A child that `factory` starts.
    pub fn new<I: Into<Arc<str>>>(id: I, restart: RestartPolicy, factory: F) -> (spec: Self)
        ensures
            call_ensures(<I as Into<Arc<str>>>::into, (id,), spec.id),
            spec.restart == restart,
            spec.factory == Factory::Task(factory),
    {
        ChildSpec { id: id.into(), restart, factory: Factory::Task(factory) }
    }
}

/// Whether `copy` specifies the child that `original` specifies.
pub open spec fn same_child<F: Clone>(original: ChildSpec<F>, copy: ChildSpec<F>) -> bool {
    &&& copy.id == original.id
    &&& copy.restart == original.restart
    &&& same_start(original.factory, copy.factory)
}

impl<F: Clone> Clone for ChildSpec<F> {
    fn clone(&self) -> (copy: Self)
        ensures
            same_child(*self, copy),
            copy.id == self.id,
            copy.restart == self.restart,
            self.factory matches Factory::Task(f) ==> (copy.factory matches Factory::Task(g)
                && cloned::<F>(f, g)),
            self.factory is Tree ==> copy.factory == self.factory,
    {
        ChildSpec {
            id: Arc::clone(&self.id),
            restart: self.restart,
            factory: self.factory.clone(),
        }
    }
}

/// Top-level supervisor configuration.
#[derive(Debug)]
pub struct SupervisorSpec {
    pub name: Arc<str>,
    pub strategy: Restart,
    /// Restarts allowed within `within_secs` before the supervisor escalates.
    pub max_restarts: u32,
    pub within_secs: u64,
}

impl SupervisorSpec {
    pub fn new<I: Into<Arc<str>>>(
        name: I,
        strategy: Restart,
        max_restarts: u32,
        within_secs: u64,
    ) -> (spec: Self)
        ensures
            call_ensures(<I as Into<Arc<str>>>::into, (name,), spec.name),
            spec.strategy == strategy,
            spec.max_restarts == max_restarts,
            spec.within_secs == within_secs,
    {
        SupervisorSpec { name: name.into(), strategy, max_restarts, within_secs }
    }

    /// Sensible defaults: one-for-one, 5 restarts per 10 seconds.
    pub fn default_one_for_one<I: Into<Arc<str>>>(name: I) -> (spec: Self)
        ensures
            call_ensures(<I as Into<Arc<str>>>::into, (name,), spec.name),
            spec.strategy == Restart::OneForOne,
            spec.max_restarts == 5,
            spec.within_secs == 10,
    {
        Self::new(name, Restart::OneForOne, 5, 10)
    }
}

impl Clone for SupervisorSpec {
    fn clone(&self) -> (copy: Self)
        ensures
            copy == *self,
    {
        SupervisorSpec {
            name: Arc::clone(&self.name),
            strategy: self.strategy,
            max_restarts: self.max_restarts,
            within_secs: self.within_secs,
        }
    }
}

/// A supervisor that has not been started yet.
pub struct Supervisor<F> {
    spec: SupervisorSpec,
    children: Vec<ChildSpec<F>>,
}

impl<F> Supervisor<F> {
    /// Its configuration.
    pub closed spec fn config(&self) -> SupervisorSpec {
        self.spec
    }

    /// Its children, in the order in which they were added.
    pub closed spec fn child_specs(&self) -> Seq<ChildSpec<F>> {
        self.children@
    }

    pub fn new(spec: SupervisorSpec) -> (supervisor: Self)
        ensures
            supervisor.config() == spec,
            supervisor.child_specs() == Seq::<ChildSpec<F>>::empty(),
    {
        Supervisor { spec, children: Vec::new() }
    }

    /// Register a child. Children are started in the order they are added.
    pub fn child(self, spec: ChildSpec<F>) -> (supervisor: Self)
        ensures
            supervisor.config() == self.config(),
            supervisor.child_specs() == self.child_specs().push(spec),
    {
        let mut children = self.children;
        children.push(spec);
        Supervisor { spec: self.spec, children }
    }

    /// The configuration.
    pub fn spec(&self) -> (spec: &SupervisorSpec)
        ensures
            *spec == self.config(),
    {
        &self.spec
    }

    /// Take the supervisor apart into its configuration and its children.
    pub fn into_parts(self) -> (parts: (SupervisorSpec, Vec<ChildSpec<F>>))
        ensures
            parts.0 == self.config(),
            parts.1@ == self.child_specs(),
    {
        (self.spec, self.children)
    }
}

impl<F: Clone> Clone for Supervisor<F> {
    fn clone(&self) -> (copy: Self)
        ensures
            copy.config() == self.config(),
            copy.child_specs().len() == self.child_specs().len(),
            forall|i: int|
                0 <= i < self.child_specs().len() ==> same_child(
                    self.child_specs()[i],
                    #[trigger] copy.child_specs()[i],
                ),
            forall|i: int|
                0 <= i < self.child_specs().len() ==> {
                    let original = self.child_specs()[i];
                    let child = #[trigger] copy.child_specs()[i];
                    &&& child.id == original.id
                    &&& child.restart == original.restart
                    &&& original.factory matches Factory::Task(f) ==> (
                    child.factory matches Factory::Task(g) && cloned::<F>(f, g))
                    &&& original.factory is Tree ==> child.factory == original.factory
                },
    {
        Supervisor { spec: self.spec.clone(), children: self.children.clone() }
    }
}

/// What can become a child of a supervisor: this is how supervision trees nest.
pub trait Supervised<F>: Sized {
    /// The supervisor that is started as the child.
    spec fn tree(self) -> Supervisor<F>;

    /// Wrap this supervisor as a child of a parent supervisor. Each restart
    /// starts the whole supervisor again, with all its children.
    fn into_child_spec<I: Into<Arc<str>>>(self, id: I, restart: RestartPolicy) -> (spec: ChildSpec<
        F,
    >)
        ensures
            call_ensures(<I as Into<Arc<str>>>::into, (id,), spec.id),
            spec.restart == restart,
            spec.factory == Factory::Tree(Arc::new(self.tree())),
    ;
}

impl<F> Supervised<F> for Supervisor<F> {
    open spec fn tree(self) -> Supervisor<F> {
        self
    }

    fn into_child_spec<I: Into<Arc<str>>>(self, id: I, restart: RestartPolicy) -> (spec: ChildSpec<
        F,
    >)
        ensures
            spec.factory == Factory::Tree(Arc::new(self)),
    {
        ChildSpec { id: id.into(), restart, factory: Factory::Tree(Arc::new(self)) }
    }
}

/// The ids of the children, in order.
pub fn child_ids<F>(specs: &[ChildSpec<F>]) -> (ids: Vec<&str>)
    ensures
        ids@.len() == specs@.len(),
        forall|i: int| 0 <= i < ids@.len() ==> (#[trigger] ids@[i])@ == (*specs@[i].id)@,
{
    let mut ids: Vec<&str> = Vec::new();
    for i in 0..specs.len()
        invariant
            ids@.len() == i,
            forall|j: int| 0 <= j < ids@.len() ==> (#[trigger] ids@[j])@ == (*specs@[j].id)@,
    {
        ids.push(&specs[i].id);
    }
    ids
}

/// Whether two supervisors start the same tree, looked at down to `depth`
/// levels below them: they have the same configuration and as many children,
/// and pairwise the children have the same id and policy and are started by
/// clones of the same factory, or are supervisors that start the same tree.
pub open spec fn same_tree<F: Clone>(a: Supervisor<F>, b: Supervisor<F>, depth: nat) -> bool
    decreases depth,
{
    &&& a.config() == b.config()
    &&& a.child_specs().len() == b.child_specs().len()
    &&& forall|i: int|
        0 <= i < a.child_specs().len() ==> {
            let x = #[trigger] a.child_specs()[i];
            let y = b.child_specs()[i];
            &&& x.id == y.id
            &&& x.restart == y.restart
            &&& match (x.factory, y.factory) {
                (Factory::Task(f), Factory::Task(g)) => cloned::<F>(f, g),
                (Factory::Tree(s), Factory::Tree(t)) => depth > 0 ==> same_tree(
                    *s,
                    *t,
                    (depth - 1) as nat,
                ),
                _ => false,
            }
        }
}

proof fn lemma_same_tree_reflexive<F: Clone>(a: Supervisor<F>, depth: nat)
    ensures
        same_tree(a, a, depth),
    decreases depth,
{
    if depth > 0 {
        assert forall|i: int| 0 <= i < a.child_specs().len() implies (
        (#[trigger] a.child_specs()[i]).factory matches Factory::Tree(s) ==> same_tree(
            *s,
            *s,
            (depth - 1) as nat,
        )) by {
            if let Factory::Tree(s) = a.child_specs()[i].factory {
                lemma_same_tree_reflexive(*s, (depth - 1) as nat);
            }
        }
    }
}

/// A copy of a supervisor starts the same tree, at every depth: no child, at
/// whatever level, is lost, added or changed.
pub proof fn law_copy_starts_the_same_tree<F: Clone>(
    supervisor: Supervisor<F>,
    copy: Supervisor<F>,
    depth: nat,
)
    requires
        cloned::<Supervisor<F>>(supervisor, copy),
    ensures
        same_tree(supervisor, copy, depth),
{
    if supervisor == copy {
        lemma_same_tree_reflexive(supervisor, depth);
    } else {
        assert forall|i: int| 0 <= i < supervisor.child_specs().len() implies {
            let x = #[trigger] supervisor.child_specs()[i];
            let y = copy.child_specs()[i];
            &&& x.id == y.id
            &&& x.restart == y.restart
            &&& match (x.factory, y.factory) {
                (Factory::Task(f), Factory::Task(g)) => cloned::<F>(f, g),
                (Factory::Tree(s), Factory::Tree(t)) => depth > 0 ==> same_tree(
                    *s,
                    *t,
                    (depth - 1) as nat,
                ),
                _ => false,
            }
        } by {
            let y = copy.child_specs()[i];
            if let Factory::Tree(s) = supervisor.child_specs()[i].factory {
                if depth > 0 {
                    lemma_same_tree_reflexive(*s, (depth - 1) as nat);
                }
            }
        }
    }
}

/// Each nested supervisor of a copy is the one that was given, with all its children.
pub proof fn law_nested_supervisors_are_kept<F: Clone>(
    supervisor: Supervisor<F>,
    copy: Supervisor<F>,
    i: int,
)
    requires
        cloned::<Supervisor<F>>(supervisor, copy),
        0 <= i < supervisor.child_specs().len(),
        supervisor.child_specs()[i].factory is Tree,
    ensures
        copy.child_specs()[i].factory == supervisor.child_specs()[i].factory,
{
    if supervisor != copy {
        assert(same_child(supervisor.child_specs()[i], copy.child_specs()[i]));
    }
}

/// A supervisor that becomes a child is started as itself, with all its children.
pub proof fn law_nested_supervisor_is_itself<F>(supervisor: Supervisor<F>)
    ensures
        <Supervisor<F> as Supervised<F>>::tree(supervisor) == supervisor,
{
}

/// Which slots a strategy names when slot `failed` of `count` fails: one-for-one
/// the failed one, rest-for-one the failed one and those after it, one-for-all
/// every one; each once, and in order.
pub proof fn law_strategy_names_slots(
    strategy: Restart,
    failed: usize,
    count: usize,
    slots: Vec<usize>,
    i: usize,
    j: int,
    k: int,
)
    requires
        failed < count,
        call_ensures(Restart::affected, (strategy, failed, count), slots),
    ensures
        slots@.contains(i) <==> match strategy {
            Restart::OneForOne => i == failed,
            Restart::RestForOne => failed <= i < count,
            Restart::OneForAll => i < count,
        },
        0 <= j < k < slots@.len() ==> slots@[j] < slots@[k],
{
    let first = first_affected(strategy, failed as int);
    if 0 <= i - first < slots@.len() {
        assert(slots@[i - first] == i);
    }
}

/// A child sets off a restart exactly when it did not end normally, unless it
/// is temporary.
pub proof fn law_policies(policy: RestartPolicy, reason: ExitReason)
    ensures
        sets_off_restart(policy, reason) <==> {
            &&& reason is Panic || reason is Aborted || reason is Other
            &&& policy is Permanent || policy is Transient
        },
{
}

} // verus!

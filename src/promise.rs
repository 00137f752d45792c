use vstd::prelude::*;

verus! {

/// A script function registered as a continuation, known by the engine's
/// handle for it.
#[derive(Clone, Copy, Debug, PartialEq, Eq, Structural)]
pub struct Callback {
    pub id: u64,
}

/// A shared handle on a promise that an [`Engine`] holds. Every holder of a
/// copy of the handle reaches the same promise.
#[derive(Clone, Copy, Debug, PartialEq, Eq, Structural)]
pub struct Promise {
    id: usize,
}

impl View for Promise {
    type V = nat;

    closed spec fn view(&self) -> nat {
        self.id as nat
    }
}

/// The lifecycle of a promise: pending until settled once, for good.
#[derive(Clone, Copy, Debug, PartialEq, Eq)]
pub enum PromiseState<T, E> {
    Pending,
    Fulfilled(T),
    Rejected(E),
}

impl<T, E> PromiseState<T, E> {
    pub open spec fn is_settled(self) -> bool {
        !(self is Pending)
    }
}

/// A pair of continuations registered by `Then`, with the promise derived
/// from them.
#[derive(Clone, Copy, Debug, PartialEq, Eq, Structural)]
pub struct Reaction {
    pub on_fulfilled: Callback,
    pub on_rejected: Callback,
    pub derived: Promise,
}

/// A continuation waiting in the queue: the callback to run, the value or
/// reason that it receives, and the promise that its outcome settles.
#[derive(Debug, PartialEq, Eq)]
pub struct Job<T, E> {
    pub callback: Callback,
    pub argument: Result<T, E>,
    pub derived: Promise,
}

/// The terminal state that an outcome settles a promise in.
pub open spec fn settled_state<T, E>(outcome: Result<T, E>) -> PromiseState<T, E> {
    match outcome {
        Ok(v) => PromiseState::Fulfilled(v),
        Err(e) => PromiseState::Rejected(e),
    }
}

/// The job that a reaction becomes once its promise settles with `outcome`.
pub open spec fn reaction_job<T, E>(r: Reaction, outcome: Result<T, E>) -> Job<T, E> {
    Job {
        callback: if outcome is Ok {
            r.on_fulfilled
        } else {
            r.on_rejected
        },
        argument: outcome,
        derived: r.derived,
    }
}

/// The jobs of a list of reactions, in registration order.
pub open spec fn reaction_jobs<T, E>(rs: Seq<Reaction>, outcome: Result<T, E>) -> Seq<Job<T, E>> {
    rs.map_values(|r: Reaction| reaction_job(r, outcome))
}

/// The promises of one execution thread and its FIFO queue of continuation
/// jobs. Promises are numbered in creation order and live as long as the
/// engine does.
pub struct Engine<T, E> {
    states: Vec<PromiseState<T, E>>,
    reactions: Vec<Vec<Reaction>>,
    jobs: Vec<Job<T, E>>,
}

impl<T: Copy, E: Copy> Engine<T, E> {
    /// The state of each promise, by number.
    pub closed spec fn states(&self) -> Seq<PromiseState<T, E>> {
        self.states@
    }

    /// The reactions registered on each promise and not yet turned into jobs.
    pub closed spec fn reactions(&self) -> Seq<Seq<Reaction>> {
        self.reactions@.map_values(|v: Vec<Reaction>| v@)
    }

    /// The job queue, head first.
    pub closed spec fn jobs(&self) -> Seq<Job<T, E>> {
        self.jobs@
    }

    pub open spec fn holds(&self, p: Promise) -> bool {
        p@ < self.states().len()
    }

    pub open spec fn state_of(&self, p: Promise) -> PromiseState<T, E> {
        self.states()[p@ as int]
    }

    /// Reactions wait on pending promises only, and every handle that the
    /// engine stores names one of its promises.
    pub open spec fn wf(&self) -> bool {
        &&& self.reactions().len() == self.states().len()
        &&& forall|i: int|
            0 <= i < self.states().len() && #[trigger] self.reactions()[i].len() > 0
                ==> self.states()[i] is Pending
        &&& forall|i: int, j: int|
            0 <= i < self.reactions().len() && 0 <= j < self.reactions()[i].len() ==> self.holds(
                #[trigger] self.reactions()[i][j].derived,
            )
        &&& forall|k: int| 0 <= k < self.jobs().len() ==> self.holds(#[trigger] self.jobs()[k].derived)
    }

    /// No promise of `self` is gone from `later`, and none that was settled
    /// has changed.
    pub open spec fn keeps_settled(&self, later: &Self) -> bool {
        &&& self.states().len() <= later.states().len()
        &&& forall|i: int|
            0 <= i < self.states().len() && (#[trigger] self.states()[i]).is_settled()
                ==> later.states()[i] == self.states()[i]
    }

    /// An engine with no promise and no job.
    pub fn new() -> (r: Self)
        ensures
            r.wf(),
            r.states().len() == 0,
            r.jobs().len() == 0,
    {
        let r = Engine { states: Vec::new(), reactions: Vec::new(), jobs: Vec::new() };
        assert(r.reactions() =~= Seq::empty());
        r
    }

    /// The number of promises created so far.
    pub fn len(&self) -> (r: usize)
        requires
            self.wf(),
        ensures
            r == self.states().len(),
    {
        self.states.len()
    }

    /// The number of jobs waiting in the queue.
    pub fn queued_jobs(&self) -> (r: usize)
        ensures
            r == self.jobs().len(),
    {
        self.jobs.len()
    }

    /// Whether `p` names a promise of this engine.
    pub fn contains(&self, p: Promise) -> (r: bool)
        ensures
            r == self.holds(p),
    {
        p.id < self.states.len()
    }

    /// The current state of a promise.
    pub fn state(&self, p: Promise) -> (r: PromiseState<T, E>)
        requires
            self.holds(p),
        ensures
            r == self.state_of(p),
    {
        self.states[p.id]
    }

    fn push_promise(&mut self, state: PromiseState<T, E>) -> (p: Promise)
        requires
            old(self).wf(),
        ensures
            final(self).wf(),
            p@ == old(self).states().len(),
            final(self).states() == old(self).states().push(state),
            final(self).reactions() == old(self).reactions().push(Seq::empty()),
            final(self).jobs() == old(self).jobs(),
    {
        let p = Promise { id: self.states.len() };
        self.states.push(state);
        self.reactions.push(Vec::new());
        assert(self.reactions() =~= old(self).reactions().push(Seq::empty()));
        assert forall|i: int, j: int|
            0 <= i < self.reactions().len() && 0 <= j < self.reactions()[i].len() implies self.holds(
                #[trigger] self.reactions()[i][j].derived,
            ) by {
            assert(i < old(self).reactions().len());
            assert(old(self).holds(old(self).reactions()[i][j].derived));
        }
        assert forall|k: int| 0 <= k < self.jobs().len() implies self.holds(
            #[trigger] self.jobs()[k].derived,
        ) by {
            assert(old(self).holds(old(self).jobs()[k].derived));
        }
        p
    }

    /// Settles `p` with `outcome` if it is still pending, and queues the
    /// jobs of its reactions in registration order; does nothing otherwise.
    fn settle(&mut self, p: Promise, outcome: Result<T, E>)
        requires
            old(self).wf(),
            old(self).holds(p),
        ensures
            final(self).wf(),
            old(self).keeps_settled(&*final(self)),
            old(self).state_of(p) is Pending ==> {
                &&& final(self).states() == old(self).states().update(p@ as int, settled_state(outcome))
                &&& final(self).reactions() == old(self).reactions().update(p@ as int, Seq::empty())
                &&& final(self).jobs() == old(self).jobs() + reaction_jobs(old(self).reactions()[p@ as int], outcome)
            },
            old(self).state_of(p).is_settled() ==> *final(self) == *old(self),
    {
        match self.states[p.id] {
            PromiseState::Pending => {},
            _ => {
                return;
            },
        }
        let ghost old_reactions = self.reactions();
        let mut taken: Vec<Reaction> = Vec::new();
        self.reactions.set_and_swap(p.id, &mut taken);
        let state = match outcome {
            Ok(v) => PromiseState::Fulfilled(v),
            Err(e) => PromiseState::Rejected(e),
        };
        self.states.set(p.id, state);
        assert(self.reactions() =~= old_reactions.update(p@ as int, Seq::empty()));
        assert(taken@ == old_reactions[p@ as int]);
        let n = taken.len();
        let mut k: usize = 0;
        while k < n
            invariant
                n == taken@.len(),
                k <= n,
                taken@ == old_reactions[p@ as int],
                old_reactions == old(self).reactions(),
                self.states() == old(self).states().update(p@ as int, settled_state(outcome)),
                self.reactions() == old_reactions.update(p@ as int, Seq::empty()),
                self.jobs() == old(self).jobs() + reaction_jobs(taken@.subrange(0, k as int), outcome),
                self.wf(),
                forall|j: int| 0 <= j < n ==> self.holds(#[trigger] taken@[j].derived),
            decreases n - k,
        {
            let r = taken[k];
            let callback = match outcome {
                Ok(_) => r.on_fulfilled,
                Err(_) => r.on_rejected,
            };
            let job = Job { callback, argument: outcome, derived: r.derived };
            enqueue_job(self, job);
            assert(reaction_jobs(taken@.subrange(0, k + 1), outcome) =~= reaction_jobs(
                taken@.subrange(0, k as int),
                outcome,
            ).push(reaction_job(r, outcome)));
            k = k + 1;
        }
        assert(taken@.subrange(0, n as int) == taken@);
    }

    /// Takes the job at the head of the queue, for the host to run. The
    /// host reports the callback's outcome through `complete_job`.
    pub fn next_job(&mut self) -> (job: Option<Job<T, E>>)
        requires
            old(self).wf(),
        ensures
            final(self).wf(),
            final(self).states() == old(self).states(),
            final(self).reactions() == old(self).reactions(),
            old(self).jobs().len() == 0 ==> job is None && final(self).jobs() == old(self).jobs(),
            old(self).jobs().len() > 0 ==> job == Some(old(self).jobs()[0]) && final(self).jobs()
                == old(self).jobs().drop_first(),
            job matches Some(j) ==> final(self).holds(j.derived),
    {
        if self.jobs.len() == 0 {
            return None;
        }
        let job = self.jobs.remove(0);
        assert(self.jobs() =~= old(self).jobs().drop_first());
        assert(old(self).holds(old(self).jobs()[0].derived));
        assert forall|k: int| 0 <= k < self.jobs().len() implies self.holds(
            #[trigger] self.jobs()[k].derived,
        ) by {
            assert(self.jobs()[k] == old(self).jobs()[k + 1]);
        }
        Some(job)
    }

    /// Settles the promise derived from a job with what its callback
    /// returned (`Ok`) or threw (`Err`). A failing callback rejects the
    /// derived promise and touches nothing else.
    pub fn complete_job(&mut self, job: Job<T, E>, outcome: Result<T, E>)
        requires
            old(self).wf(),
            old(self).holds(job.derived),
        ensures
            final(self).wf(),
            old(self).keeps_settled(&*final(self)),
            old(self).state_of(job.derived) is Pending ==> {
                &&& final(self).states() == old(self).states().update(
                    job.derived@ as int,
                    settled_state(outcome),
                )
                &&& final(self).reactions() == old(self).reactions().update(
                    job.derived@ as int,
                    Seq::empty(),
                )
                &&& final(self).jobs() == old(self).jobs() + reaction_jobs(
                    old(self).reactions()[job.derived@ as int],
                    outcome,
                )
            },
            old(self).state_of(job.derived).is_settled() ==> *final(self) == *old(self),
    {
        self.settle(job.derived, outcome);
    }
}

#[allow(non_snake_case)]
impl Promise {
    /// A new pending promise, which only the engine's owner can settle.
    pub fn new<T: Copy, E: Copy>(engine: &mut Engine<T, E>) -> (p: Promise)
        requires
            old(engine).wf(),
        ensures
            final(engine).wf(),
            p@ == old(engine).states().len(),
            final(engine).states() == old(engine).states().push(PromiseState::Pending),
            final(engine).reactions() == old(engine).reactions().push(Seq::empty()),
            final(engine).jobs() == old(engine).jobs(),
    {
        engine.push_promise(PromiseState::Pending)
    }

    /// A new promise, already fulfilled with `value`.
    pub fn Resolve<T: Copy, E: Copy>(engine: &mut Engine<T, E>, value: T) -> (p: Promise)
        requires
            old(engine).wf(),
        ensures
            final(engine).wf(),
            p@ == old(engine).states().len(),
            final(engine).states() == old(engine).states().push(PromiseState::Fulfilled(value)),
            final(engine).reactions() == old(engine).reactions().push(Seq::empty()),
            final(engine).jobs() == old(engine).jobs(),
    {
        engine.push_promise(PromiseState::Fulfilled(value))
    }

    /// A new promise, already rejected with `reason`.
    pub fn Reject<T: Copy, E: Copy>(engine: &mut Engine<T, E>, reason: E) -> (p: Promise)
        requires
            old(engine).wf(),
        ensures
            final(engine).wf(),
            p@ == old(engine).states().len(),
            final(engine).states() == old(engine).states().push(PromiseState::Rejected(reason)),
            final(engine).reactions() == old(engine).reactions().push(Seq::empty()),
            final(engine).jobs() == old(engine).jobs(),
    {
        engine.push_promise(PromiseState::Rejected(reason))
    }

    /// Fulfills this promise with `value` if it is pending, queueing the
    /// fulfillment callbacks of its reactions; a settled promise is left as
    /// it is, and so is the whole engine.
    pub fn MaybeResolve<T: Copy, E: Copy>(&self, engine: &mut Engine<T, E>, value: T)
        requires
            old(engine).wf(),
            old(engine).holds(*self),
        ensures
            final(engine).wf(),
            old(engine).keeps_settled(&*final(engine)),
            old(engine).state_of(*self) is Pending ==> {
                &&& final(engine).states() == old(engine).states().update(
                    self@ as int,
                    PromiseState::Fulfilled(value),
                )
                &&& final(engine).reactions() == old(engine).reactions().update(
                    self@ as int,
                    Seq::empty(),
                )
                &&& final(engine).jobs() == old(engine).jobs() + reaction_jobs(
                    old(engine).reactions()[self@ as int],
                    Ok::<T, E>(value),
                )
            },
            old(engine).state_of(*self).is_settled() ==> *final(engine) == *old(engine),
    {
        engine.settle(*self, Ok(value));
    }

    /// Rejects this promise with `reason` if it is pending, queueing the
    /// rejection callbacks of its reactions; a settled promise is left as it
    /// is, and so is the whole engine.
    pub fn MaybeReject<T: Copy, E: Copy>(&self, engine: &mut Engine<T, E>, reason: E)
        requires
            old(engine).wf(),
            old(engine).holds(*self),
        ensures
            final(engine).wf(),
            old(engine).keeps_settled(&*final(engine)),
            old(engine).state_of(*self) is Pending ==> {
                &&& final(engine).states() == old(engine).states().update(
                    self@ as int,
                    PromiseState::Rejected(reason),
                )
                &&& final(engine).reactions() == old(engine).reactions().update(
                    self@ as int,
                    Seq::empty(),
                )
                &&& final(engine).jobs() == old(engine).jobs() + reaction_jobs(
                    old(engine).reactions()[self@ as int],
                    Err::<T, E>(reason),
                )
            },
            old(engine).state_of(*self).is_settled() ==> *final(engine) == *old(engine),
    {
        engine.settle(*self, Err(reason));
    }

    /// Registers two continuations and returns the pending promise derived
    /// from them. Nothing runs here: on a pending promise the pair waits for
    /// the settlement, on a settled one the matching callback is queued
    /// behind every job already waiting.
    pub fn Then<T: Copy, E: Copy>(
        &self,
        engine: &mut Engine<T, E>,
        on_fulfilled: Callback,
        on_rejected: Callback,
    ) -> (derived: Promise)
        requires
            old(engine).wf(),
            old(engine).holds(*self),
        ensures
            final(engine).wf(),
            derived@ == old(engine).states().len(),
            final(engine).states() == old(engine).states().push(PromiseState::Pending),
            old(engine).state_of(*self) is Pending ==> final(engine).reactions() == old(
                engine,
            ).reactions().update(
                self@ as int,
                old(engine).reactions()[self@ as int].push(
                    (Reaction { on_fulfilled, on_rejected, derived }),
                ),
            ).push(Seq::empty()),
            old(engine).state_of(*self) is Pending ==> final(engine).jobs() == old(engine).jobs(),
            old(engine).state_of(*self).is_settled() ==> final(engine).reactions() == old(
                engine,
            ).reactions().push(Seq::empty()),
            old(engine).state_of(*self) matches PromiseState::Fulfilled(v) ==> final(engine).jobs()
                == old(engine).jobs().push((Job { callback: on_fulfilled, argument: Ok(v), derived })),
            old(engine).state_of(*self) matches PromiseState::Rejected(e) ==> final(engine).jobs()
                == old(engine).jobs().push((Job { callback: on_rejected, argument: Err(e), derived })),
    {
        let derived = engine.push_promise(PromiseState::Pending);
        let r = Reaction { on_fulfilled, on_rejected, derived };
        match engine.states[self.id] {
            PromiseState::Pending => {
                let ghost before = engine.reactions();
                let mut list: Vec<Reaction> = Vec::new();
                engine.reactions.set_and_swap(self.id, &mut list);
                list.push(r);
                engine.reactions.set(self.id, list);
                assert(engine.reactions() =~= before.update(self@ as int, before[self@ as int].push(r)));
                assert forall|i: int, j: int|
                    0 <= i < engine.reactions().len() && 0 <= j < engine.reactions()[i].len()
                        implies engine.holds(#[trigger] engine.reactions()[i][j].derived) by {
                    if i != self@ as int || j < before[i].len() {
                        assert(engine.reactions()[i][j] == before[i][j]);
                    }
                }
            },
            PromiseState::Fulfilled(v) => {
                enqueue_job(engine, Job { callback: on_fulfilled, argument: Ok(v), derived });
            },
            PromiseState::Rejected(e) => {
                enqueue_job(engine, Job { callback: on_rejected, argument: Err(e), derived });
            },
        }
        derived
    }
}

/// Puts a job at the tail of the queue; it runs after every job queued
/// before it.
pub fn enqueue_job<T: Copy, E: Copy>(engine: &mut Engine<T, E>, job: Job<T, E>)
    requires
        old(engine).wf(),
        old(engine).holds(job.derived),
    ensures
        final(engine).wf(),
        final(engine).states() == old(engine).states(),
        final(engine).reactions() == old(engine).reactions(),
        final(engine).jobs() == old(engine).jobs().push(job),
{
    engine.jobs.push(job);
}

} // verus!

//! The lifecycle controller: what to do when the host process announces that
//! the library was loaded into it or is about to leave it.
//!
//! Attaching acquires four things in a fixed order: a console, an interpreter
//! state, the registration of the script operations in it, and the console
//! session that runs on a thread of its own. The controller asks for one step
//! at a time and is told whether it succeeded. A failure, or a detach, gives
//! back what was acquired so far, latest first, and leaves the controller
//! detached, so that a later attach starts from nothing.

use vstd::prelude::*;

verus! {

/// Where the controller stands.
#[derive(Clone, Copy, Debug, PartialEq, Eq, Structural)]
pub enum Phase {
    /// Nothing is held.
    Detached,
    /// The steps of attaching are under way.
    Attaching,
    /// Everything is held and the console session runs.
    Attached,
}

/// One step of attaching.
#[derive(Clone, Copy, Debug, PartialEq, Eq, Structural)]
pub enum Step {
    /// The console device for standard input and output.
    Console,
    /// The interpreter state.
    Interpreter,
    /// The script operations, registered in the interpreter's globals.
    Bridge,
    /// The console session on its own thread.
    Session,
}

/// What the controller is told.
#[derive(Clone, Copy, Debug, PartialEq, Eq, Structural)]
pub enum Event {
    /// The host loaded the library into the process.
    Attach,
    /// The host is unloading the library.
    Detach,
    /// The step that was asked for succeeded.
    Acquired,
    /// The step that was asked for failed.
    Failed,
}

/// What the controller asks its caller to do.
#[derive(Debug, PartialEq, Eq)]
pub enum Directive {
    /// Nothing.
    Idle,
    /// Carry out this step and report `Acquired` or `Failed`.
    Acquire(Step),
    /// Give back what these steps acquired, in this order.
    Release(Vec<Step>),
}

/// A directive as specifications see it.
pub enum Order {
    /// Nothing.
    Idle,
    /// Carry out a step.
    Acquire(Step),
    /// Give back what the steps acquired, in order.
    Release(Seq<Step>),
}

impl View for Directive {
    type V = Order;

    open spec fn view(&self) -> Order {
        match self {
            Directive::Idle => Order::Idle,
            Directive::Acquire(step) => Order::Acquire(*step),
            Directive::Release(steps) => Order::Release(steps@),
        }
    }
}

/// The number of steps that attaching takes.
pub const STEPS: usize = 4;

/// The step at a position of the attach sequence.
pub open spec fn step_at(i: int) -> Step {
    if i <= 0 {
        Step::Console
    } else if i == 1 {
        Step::Interpreter
    } else if i == 2 {
        Step::Bridge
    } else {
        Step::Session
    }
}

/// The first `n` steps of the attach sequence, latest first.
pub open spec fn release_order(n: nat) -> Seq<Step> {
    Seq::new(n, |i: int| step_at(n - 1 - i))
}

/// The state of a controller as specifications see it.
pub struct ControllerState {
    /// Where the controller stands.
    pub phase: Phase,
    /// How many steps of the attach sequence have succeeded.
    pub acquired: nat,
}

impl ControllerState {
    /// Detached holds nothing, attached holds everything, and attaching has
    /// at least one step left.
    pub open spec fn well_formed(self) -> bool {
        match self.phase {
            Phase::Detached => self.acquired == 0,
            Phase::Attaching => self.acquired < STEPS,
            Phase::Attached => self.acquired == STEPS,
        }
    }
}

/// The state in which nothing is held.
pub open spec fn detached() -> ControllerState {
    ControllerState { phase: Phase::Detached, acquired: 0 }
}

/// The next state and the directive for a state and an event.
///
/// An attach is heeded only when detached. While attaching, each success
/// leads to the next step, and the last one to the attached state. A failure
/// while attaching, and a detach while attaching or attached, release what
/// is held and lead to the detached state. Everything else changes nothing.
pub open spec fn react(s: ControllerState, event: Event) -> (ControllerState, Order) {
    match (s.phase, event) {
        (Phase::Detached, Event::Attach) => (
            ControllerState { phase: Phase::Attaching, acquired: 0 },
            Order::Acquire(Step::Console),
        ),
        (Phase::Attaching, Event::Acquired) => if s.acquired + 1 >= STEPS {
            (ControllerState { phase: Phase::Attached, acquired: STEPS as nat }, Order::Idle)
        } else {
            (
                ControllerState { phase: Phase::Attaching, acquired: s.acquired + 1 },
                Order::Acquire(step_at(s.acquired as int + 1)),
            )
        },
        (Phase::Attaching, Event::Failed) => (detached(), Order::Release(release_order(s.acquired))),
        (Phase::Attaching, Event::Detach) => (detached(), Order::Release(release_order(s.acquired))),
        (Phase::Attached, Event::Detach) => (detached(), Order::Release(release_order(s.acquired))),
        _ => (s, Order::Idle),
    }
}

/// The reason code with which the Windows loader announces that the library
/// was loaded into the process.
pub const PROCESS_ATTACH: u32 = 1;

/// The reason code with which the Windows loader announces that the library
/// is being unloaded from the process.
pub const PROCESS_DETACH: u32 = 0;

/// The event that a reason code of the host stands for, if any.
pub open spec fn event_of(reason: u32) -> Option<Event> {
    if reason == PROCESS_ATTACH {
        Some(Event::Attach)
    } else if reason == PROCESS_DETACH {
        Some(Event::Detach)
    } else {
        None
    }
}

/// Every transition keeps the state well-formed.
pub proof fn lemma_react_keeps_well_formed(s: ControllerState, event: Event)
    requires
        s.well_formed(),
    ensures
        react(s, event).0.well_formed(),
{
}

/// A detach leads to the detached state from every state, in one transition,
/// and releases exactly what was held.
pub proof fn lemma_detach_always_detaches(s: ControllerState)
    requires
        s.well_formed(),
    ensures
        react(s, Event::Detach).0 == detached(),
        s.phase is Detached ==> react(s, Event::Detach).1 is Idle,
        !(s.phase is Detached) ==> react(s, Event::Detach).1 == Order::Release(
            release_order(s.acquired),
        ),
{
}

/// After a detach, an attach starts the sequence from its first step with
/// nothing held: no state survives a detach and a new attach.
pub proof fn lemma_reattach_starts_afresh(s: ControllerState)
    requires
        s.well_formed(),
    ensures
        react(react(s, Event::Detach).0, Event::Attach) == (
            ControllerState { phase: Phase::Attaching, acquired: 0 },
            Order::Acquire(Step::Console),
        ),
{
}

/// The session is asked for only while attaching, as the last step, once the
/// console, the interpreter and the bridge are held; so an attachment starts
/// at most one session, and none before its operations are registered.
pub proof fn lemma_session_starts_last(s: ControllerState, event: Event)
    requires
        s.well_formed(),
        react(s, event).1 == Order::Acquire(Step::Session),
    ensures
        s.phase is Attaching,
        event is Acquired,
        react(s, event).0.phase is Attaching,
        react(s, event).0.acquired == STEPS - 1,
        release_order(react(s, event).0.acquired) == seq![
            Step::Bridge,
            Step::Interpreter,
            Step::Console,
        ],
{
    assert(release_order(3) =~= seq![Step::Bridge, Step::Interpreter, Step::Console]);
}

/// What a detach from the attached state releases: the session first, then
/// the bridge, the interpreter and the console.
pub proof fn lemma_full_release_order()
    ensures
        release_order(STEPS as nat) == seq![
            Step::Session,
            Step::Bridge,
            Step::Interpreter,
            Step::Console,
        ],
{
    assert(release_order(4) =~= seq![
        Step::Session,
        Step::Bridge,
        Step::Interpreter,
        Step::Console,
    ]);
}

/// Reads a reason code of the host as an event.
pub fn event_for_reason(reason: u32) -> (r: Option<Event>)
    ensures
        r == event_of(reason),
{
    if reason == PROCESS_ATTACH {
        Some(Event::Attach)
    } else if reason == PROCESS_DETACH {
        Some(Event::Detach)
    } else {
        None
    }
}

/// The step at a position of the attach sequence.
fn step_number(i: usize) -> (s: Step)
    ensures
        s == step_at(i as int),
{
    if i == 0 {
        Step::Console
    } else if i == 1 {
        Step::Interpreter
    } else if i == 2 {
        Step::Bridge
    } else {
        Step::Session
    }
}

/// The first `n` steps of the attach sequence, latest first.
fn steps_to_release(n: usize) -> (v: Vec<Step>)
    ensures
        v@ == release_order(n as nat),
{
    let mut v: Vec<Step> = Vec::new();
    let mut left: usize = n;
    while left > 0
        invariant
            left <= n,
            v@.len() == n - left,
            forall|i: int| 0 <= i < v@.len() ==> v@[i] == step_at(n - 1 - i),
        decreases left,
    {
        left -= 1;
        v.push(step_number(left));
    }
    v
}

/// The lifecycle controller of one process.
#[derive(Debug)]
pub struct Controller {
    phase: Phase,
    acquired: usize,
}

impl View for Controller {
    type V = ControllerState;

    closed spec fn view(&self) -> ControllerState {
        ControllerState { phase: self.phase, acquired: self.acquired as nat }
    }
}

impl Controller {
    #[verifier::type_invariant]
    spec fn consistent(&self) -> bool {
        self@.well_formed()
    }

    /// A controller that is detached.
    pub fn new() -> (c: Controller)
        ensures
            c@ == detached(),
    {
        Controller { phase: Phase::Detached, acquired: 0 }
    }

    /// Where the controller stands.
    pub fn phase(&self) -> (p: Phase)
        ensures
            p == self@.phase,
            self@.well_formed(),
    {
        proof {
            use_type_invariant(self);
        }
        self.phase
    }

    /// How many steps of the attach sequence have succeeded.
    pub fn acquired(&self) -> (n: usize)
        ensures
            n == self@.acquired,
            self@.well_formed(),
    {
        proof {
            use_type_invariant(self);
        }
        self.acquired
    }

    /// Takes an event and says what to do.
    pub fn handle(&mut self, event: Event) -> (r: Directive)
        ensures
            (final(self)@, r@) == react(old(self)@, event),
            final(self)@.well_formed(),
    {
        proof {
            use_type_invariant(&*self);
        }
        match (self.phase, event) {
            (Phase::Detached, Event::Attach) => {
                *self = Controller { phase: Phase::Attaching, acquired: 0 };
                Directive::Acquire(Step::Console)
            },
            (Phase::Attaching, Event::Acquired) => {
                let reached: usize = self.acquired + 1;
                if reached >= STEPS {
                    *self = Controller { phase: Phase::Attached, acquired: STEPS };
                    Directive::Idle
                } else {
                    *self = Controller { phase: Phase::Attaching, acquired: reached };
                    Directive::Acquire(step_number(reached))
                }
            },
            (Phase::Attaching, Event::Failed) => self.let_go(),
            (Phase::Attaching, Event::Detach) => self.let_go(),
            (Phase::Attached, Event::Detach) => self.let_go(),
            _ => Directive::Idle,
        }
    }

    /// Takes a reason code of the host and says what to do; a code that
    /// stands for no event changes nothing.
    pub fn notify(&mut self, reason: u32) -> (r: Directive)
        ensures
            event_of(reason) matches Some(event) ==> (final(self)@, r@) == react(
                old(self)@,
                event,
            ),
            event_of(reason) is None ==> final(self)@ == old(self)@ && r@ is Idle,
            final(self)@.well_formed(),
    {
        match event_for_reason(reason) {
            Some(event) => self.handle(event),
            None => {
                proof {
                    use_type_invariant(&*self);
                }
                Directive::Idle
            },
        }
    }

    /// Releases what is held and becomes detached.
    fn let_go(&mut self) -> (r: Directive)
        ensures
            final(self)@ == detached(),
            r@ == Order::Release(release_order(old(self)@.acquired)),
    {
        let steps = steps_to_release(self.acquired);
        *self = Controller { phase: Phase::Detached, acquired: 0 };
        Directive::Release(steps)
    }
}

} // verus!

//! The life of a listener and the supervisor that swaps listeners.
//!
//! An instance is bound, accepts, is told to stop, and drains: it never
//! accepts again. The supervisor holds the instance that accepts; to load
//! another it first retires that one, then puts the fresh one in its place
//! and hands the old one out to be drained. Connections that an instance
//! accepted are no part of its state: stopping it does not touch them.

use vstd::prelude::*;

verus! {

/// Where a listener stands in its life.
#[derive(Clone, Copy, Debug, PartialEq, Eq, Structural)]
pub enum InstancePhase {
    /// The socket is bound; no accept loop runs yet.
    Bound,
    /// The accept loop runs.
    Accepting,
    /// The accept loop was told to stop; what it accepted goes on.
    Draining,
    /// The accept loop has ended and the socket is free.
    Drained,
}

/// The place of a phase in the life of a listener.
pub open spec fn rank(phase: InstancePhase) -> nat {
    match phase {
        InstancePhase::Bound => 0,
        InstancePhase::Accepting => 1,
        InstancePhase::Draining => 2,
        InstancePhase::Drained => 3,
    }
}

/// One bound listener: its address, the handle `S` by which its accept loop
/// is told to stop, and the handle `T` of the accept loop itself, which
/// leaves the instance once.
#[derive(Debug)]
pub struct ProxyInstance<S, T> {
    listen_address: String,
    phase: InstancePhase,
    shutdown: S,
    accept_task: Option<T>,
}

impl<S, T> ProxyInstance<S, T> {
    /// The address that the listener is bound to.
    pub closed spec fn address(&self) -> Seq<char> {
        self.listen_address@
    }

    /// Where the listener stands.
    pub closed spec fn phase(&self) -> InstancePhase {
        self.phase
    }

    /// The handle by which the accept loop is told to stop.
    pub closed spec fn shutdown(&self) -> S {
        self.shutdown
    }

    /// The handle of the accept loop, while the instance holds it.
    pub closed spec fn accept_task(&self) -> Option<T> {
        self.accept_task
    }

    /// A listener that is bound to `listen_address` and not yet started.
    pub fn bound(listen_address: String, shutdown: S) -> (instance: ProxyInstance<S, T>)
        ensures
            instance.address() == listen_address@,
            instance.phase() == InstancePhase::Bound,
            instance.shutdown() == shutdown,
            instance.accept_task().is_none(),
    {
        ProxyInstance { listen_address, phase: InstancePhase::Bound, shutdown, accept_task: None }
    }

    /// Takes the handle of the accept loop that was spawned for a bound
    /// listener, which accepts from now on. A listener that was started
    /// before gives the handle back and stays as it is.
    pub fn start(&mut self, accept_task: T) -> (refused: Option<T>)
        ensures
            rank(final(self).phase()) >= rank(old(self).phase()),
            final(self).address() == old(self).address(),
            final(self).shutdown() == old(self).shutdown(),
            old(self).phase() == InstancePhase::Bound ==> refused.is_none() && final(self).phase()
                == InstancePhase::Accepting && final(self).accept_task() == Some(accept_task),
            old(self).phase() != InstancePhase::Bound ==> refused == Some(accept_task)
                && final(self).phase() == old(self).phase() && final(self).accept_task() == old(self).accept_task(),
    {
        match self.phase {
            InstancePhase::Bound => {
                self.phase = InstancePhase::Accepting;
                self.accept_task = Some(accept_task);
                None
            },
            _ => Some(accept_task),
        }
    }

    /// Retires an accepting listener: from now on it drains. Returns whether
    /// the stop signal is to be written, which is the case once in the life
    /// of a listener; in any other phase nothing changes.
    pub fn signal_shutdown(&mut self) -> (write: bool)
        ensures
            rank(final(self).phase()) >= rank(old(self).phase()),
            write == (old(self).phase() == InstancePhase::Accepting),
            final(self).phase() == if write {
                InstancePhase::Draining
            } else {
                old(self).phase()
            },
            final(self).address() == old(self).address(),
            final(self).shutdown() == old(self).shutdown(),
            final(self).accept_task() == old(self).accept_task(),
    {
        match self.phase {
            InstancePhase::Accepting => {
                self.phase = InstancePhase::Draining;
                true
            },
            _ => false,
        }
    }

    /// Moves the handle of the accept loop out of the instance. The handle
    /// comes out once; afterwards the instance holds none.
    pub fn take_accept_task(&mut self) -> (task: Option<T>)
        ensures
            task == old(self).accept_task(),
            final(self).accept_task().is_none(),
            final(self).phase() == old(self).phase(),
            final(self).address() == old(self).address(),
            final(self).shutdown() == old(self).shutdown(),
    {
        self.accept_task.take()
    }

    /// Notes that the accept loop of a draining listener has ended: the
    /// listener is drained. In any other phase nothing changes.
    pub fn joined(&mut self)
        ensures
            rank(final(self).phase()) >= rank(old(self).phase()),
            final(self).phase() == if old(self).phase() == InstancePhase::Draining {
                InstancePhase::Drained
            } else {
                old(self).phase()
            },
            final(self).address() == old(self).address(),
            final(self).shutdown() == old(self).shutdown(),
            final(self).accept_task() == old(self).accept_task(),
    {
        match self.phase {
            InstancePhase::Draining => {
                self.phase = InstancePhase::Drained;
            },
            _ => {},
        }
    }

    /// The address that the listener is bound to.
    pub fn listen_address(&self) -> (text: &String)
        ensures
            text@ == self.address(),
    {
        &self.listen_address
    }

    /// Where the listener stands.
    pub fn current_phase(&self) -> (phase: InstancePhase)
        ensures
            phase == self.phase(),
    {
        self.phase
    }

    /// The handle by which the accept loop is told to stop.
    pub fn shutdown_signal(&self) -> (handle: &S)
        ensures
            *handle == self.shutdown(),
    {
        &self.shutdown
    }
}

/// Holds the listener that accepts, and swaps it for another without
/// stopping what the old one accepted.
///
/// Loading a listener takes two calls, with the caller's work between them:
/// `retire_active` tells whether the listener in the slot is to be told to
/// stop, the caller writes the signal and binds the new address, and
/// `load_listener` puts the fresh listener in the slot and hands the old one
/// out to be drained.
#[derive(Debug)]
pub struct ProxySupervisor<S, T> {
    active: Option<ProxyInstance<S, T>>,
}

impl<S, T> ProxySupervisor<S, T> {
    /// The listener in the slot.
    pub closed spec fn active(&self) -> Option<ProxyInstance<S, T>> {
        self.active
    }

    /// Whether the slot holds a listener that accepts.
    pub open spec fn is_accepting(&self) -> bool {
        self.active() matches Some(i) && i.phase() == InstancePhase::Accepting
    }

    /// A supervisor with an empty slot.
    pub fn new() -> (supervisor: ProxySupervisor<S, T>)
        ensures
            supervisor.active().is_none(),
    {
        ProxySupervisor { active: None }
    }

    /// The listener in the slot.
    pub fn active_proxy(&self) -> (instance: Option<&ProxyInstance<S, T>>)
        ensures
            instance.is_some() == self.active().is_some(),
            instance matches Some(i) ==> *i == self.active().unwrap(),
    {
        self.active.as_ref()
    }

    /// Opens a reload: the listener in the slot, if it accepts, is retired.
    /// Returns whether its stop signal is to be written. Afterwards the slot
    /// holds no listener that accepts.
    pub fn retire_active(&mut self) -> (write: bool)
        ensures
            write == old(self).is_accepting(),
            !final(self).is_accepting(),
            final(self).active().is_some() == old(self).active().is_some(),
            final(self).active() matches Some(i) ==> {
                let was = old(self).active().unwrap();
                &&& i.phase() == if write {
                    InstancePhase::Draining
                } else {
                    was.phase()
                }
                &&& i.address() == was.address()
                &&& i.shutdown() == was.shutdown()
                &&& i.accept_task() == was.accept_task()
            },
    {
        match self.active.take() {
            None => false,
            Some(mut instance) => {
                let write = instance.signal_shutdown();
                self.active = Some(instance);
                write
            },
        }
    }

    /// Closes a reload: the fresh listener takes the slot and the listener
    /// that held it is handed out to be drained. A fresh listener is refused
    /// and given back, and nothing changes, where it does not accept or
    /// where the slot still holds a listener that does.
    ///
    /// So the listener that is handed out never accepts: of the two, the
    /// one in the slot is the only one that does.
    pub fn load_listener(&mut self, fresh: ProxyInstance<S, T>) -> (swapped: Result<
        Option<ProxyInstance<S, T>>,
        ProxyInstance<S, T>,
    >)
        ensures
            fresh.phase() == InstancePhase::Accepting && !old(self).is_accepting() ==> swapped
                == Ok::<Option<ProxyInstance<S, T>>, ProxyInstance<S, T>>(old(self).active())
                && final(self).active() == Some(fresh),
            !(fresh.phase() == InstancePhase::Accepting && !old(self).is_accepting()) ==> swapped
                == Err::<Option<ProxyInstance<S, T>>, ProxyInstance<S, T>>(fresh) && final(
                self).active() == old(self).active(),
            swapped matches Ok(Some(previous)) ==> previous.phase() != InstancePhase::Accepting,
            swapped.is_ok() ==> final(self).is_accepting(),
    {
        match fresh.current_phase() {
            InstancePhase::Accepting => {},
            _ => { return Err(fresh); },
        }
        let previous = self.active.take();
        match previous {
            None => {
                self.active = Some(fresh);
                Ok(None)
            },
            Some(instance) => {
                match instance.current_phase() {
                    InstancePhase::Accepting => {
                        self.active = Some(instance);
                        Err(fresh)
                    },
                    _ => {
                        self.active = Some(fresh);
                        Ok(Some(instance))
                    },
                }
            },
        }
    }
}

/// What the accept loop of a listener meets.
#[derive(Clone, Copy, Debug, PartialEq, Eq, Structural)]
pub enum AcceptEvent {
    /// The stop signal was written.
    Shutdown,
    /// The stop signal can no longer be written: its writer is gone.
    ShutdownClosed,
    /// A connection came in.
    Connection,
    /// Accepting a connection failed.
    AcceptError,
}

/// What the accept loop does about an event.
#[derive(Clone, Copy, Debug, PartialEq, Eq, Structural)]
pub enum AcceptAction {
    /// Hand the connection to a handler that runs on its own.
    Serve,
    /// Report the failure and go on accepting.
    Report,
    /// Leave the loop. A connection that came with the event is dropped.
    Stop,
}

/// The event that the stop signal makes for a loop that accepts on a
/// listener handed to it, by the value that the signal carries, or `None`
/// where it carries none. Only a signal that carries `true` makes an event;
/// on anything else, a writer that is gone included, the loop goes on.
pub open spec fn signal_event(carried: Option<bool>) -> Option<AcceptEvent> {
    match carried {
        Some(true) => Some(AcceptEvent::Shutdown),
        _ => None,
    }
}

/// The event that a change of the stop signal makes for the loop of a
/// supervised listener, by the value that the signal carries after the
/// change, or `None` where its writer is gone. Every change is a shutdown,
/// whatever the signal carries.
pub open spec fn change_event(carried: Option<bool>) -> AcceptEvent {
    match carried {
        Some(_) => AcceptEvent::Shutdown,
        None => AcceptEvent::ShutdownClosed,
    }
}

impl AcceptEvent {
    /// The event that the stop signal makes for a loop that accepts on a
    /// listener handed to it: a shutdown where the signal carries `true`,
    /// none otherwise.
    pub fn of_signal(carried: Option<bool>) -> (event: Option<AcceptEvent>)
        ensures
            event == signal_event(carried),
    {
        match carried {
            Some(true) => Some(AcceptEvent::Shutdown),
            _ => None,
        }
    }

    /// The event that a change of the stop signal makes for the loop of a
    /// supervised listener: a shutdown on every change, and the loss of the
    /// signal where its writer is gone.
    pub fn of_change(carried: Option<bool>) -> (event: AcceptEvent)
        ensures
            event == change_event(carried),
    {
        match carried {
            Some(_) => AcceptEvent::Shutdown,
            None => AcceptEvent::ShutdownClosed,
        }
    }
}

/// Whether a loop that hears its stop signal through `signal_event` still
/// accepts after the signal was looked at a number of times.
pub open spec fn accepting_after_signals(accepting: bool, carried: Seq<Option<bool>>) -> bool
    decreases carried.len(),
{
    if carried.len() == 0 {
        accepting
    } else {
        accepting_after_signals(
            match signal_event(carried[0]) {
                None => accepting,
                Some(event) => accept_action(accepting, event) != AcceptAction::Stop,
            },
            carried.drop_first(),
        )
    }
}

/// What an accept loop does about an event, by whether it still accepts.
pub open spec fn accept_action(accepting: bool, event: AcceptEvent) -> AcceptAction {
    if !accepting {
        AcceptAction::Stop
    } else {
        match event {
            AcceptEvent::Shutdown => AcceptAction::Stop,
            AcceptEvent::ShutdownClosed => AcceptAction::Stop,
            AcceptEvent::Connection => AcceptAction::Serve,
            AcceptEvent::AcceptError => AcceptAction::Report,
        }
    }
}

/// Whether an accept loop still accepts after a run of events.
pub open spec fn accepting_after(accepting: bool, events: Seq<AcceptEvent>) -> bool
    decreases events.len(),
{
    if events.len() == 0 {
        accepting
    } else {
        accepting_after(
            accept_action(accepting, events[0]) != AcceptAction::Stop,
            events.drop_first(),
        )
    }
}

/// How many connections an accept loop serves during a run of events.
pub open spec fn served_during(accepting: bool, events: Seq<AcceptEvent>) -> nat
    decreases events.len(),
{
    if events.len() == 0 {
        0
    } else {
        let action = accept_action(accepting, events[0]);
        (if action == AcceptAction::Serve {
            1nat
        } else {
            0nat
        }) + served_during(action != AcceptAction::Stop, events.drop_first())
    }
}

/// The accept loop of one listener.
pub struct AcceptLoop {
    accepting: bool,
}

impl AcceptLoop {
    /// Whether the loop still accepts.
    pub closed spec fn accepting(&self) -> bool {
        self.accepting
    }

    /// A loop that accepts.
    pub fn new() -> (accept_loop: AcceptLoop)
        ensures
            accept_loop.accepting(),
    {
        AcceptLoop { accepting: true }
    }

    /// Whether the loop still accepts.
    pub fn is_accepting(&self) -> (yes: bool)
        ensures
            yes == self.accepting(),
    {
        self.accepting
    }

    /// Decides what is done about an event. A loop that was told to stop, or
    /// whose stop signal is gone, stops and never serves again.
    pub fn on_event(&mut self, event: AcceptEvent) -> (action: AcceptAction)
        ensures
            action == accept_action(old(self).accepting(), event),
            final(self).accepting() == (action != AcceptAction::Stop),
    {
        if !self.accepting {
            return AcceptAction::Stop;
        }
        match event {
            AcceptEvent::Shutdown => {
                self.accepting = false;
                AcceptAction::Stop
            },
            AcceptEvent::ShutdownClosed => {
                self.accepting = false;
                AcceptAction::Stop
            },
            AcceptEvent::Connection => AcceptAction::Serve,
            AcceptEvent::AcceptError => AcceptAction::Report,
        }
    }
}

/// An accept loop that has stopped stays stopped and serves no connection,
/// whatever comes.
pub proof fn lemma_stopped_serves_none(events: Seq<AcceptEvent>)
    ensures
        !accepting_after(false, events),
        served_during(false, events) == 0,
    decreases events.len(),
{
    if events.len() > 0 {
        lemma_stopped_serves_none(events.drop_first());
    }
}

/// Once the stop signal has reached an accept loop, no connection that comes
/// later is served: whatever came `before` the signal and whatever comes
/// `later`, the loop serves during the whole run what it served before the
/// signal.
pub proof fn lemma_shutdown_ends_serving(before: Seq<AcceptEvent>, later: Seq<AcceptEvent>)
    ensures
        served_during(true, before + seq![AcceptEvent::Shutdown] + later) == served_during(
            true,
            before,
        ),
        !accepting_after(true, before + seq![AcceptEvent::Shutdown] + later),
{
    lemma_run_ends_serving(true, before, later);
}

proof fn lemma_run_ends_serving(
    accepting: bool,
    before: Seq<AcceptEvent>,
    later: Seq<AcceptEvent>,
)
    ensures
        served_during(accepting, before + seq![AcceptEvent::Shutdown] + later) == served_during(
            accepting,
            before,
        ),
        !accepting_after(accepting, before + seq![AcceptEvent::Shutdown] + later),
    decreases before.len(),
{
    let run = before + seq![AcceptEvent::Shutdown] + later;
    if before.len() == 0 {
        assert(run.drop_first() =~= later);
        assert(run[0] == AcceptEvent::Shutdown);
        lemma_stopped_serves_none(later);
    } else {
        assert(run[0] == before[0]);
        assert(run.drop_first() =~= before.drop_first() + seq![AcceptEvent::Shutdown] + later);
        lemma_run_ends_serving(
            accept_action(accepting, before[0]) != AcceptAction::Stop,
            before.drop_first(),
            later,
        );
    }
}

/// A loop that accepts on a listener handed to it stops on the signal only
/// once the signal has carried `true`: while it never did, the loop goes on,
/// whether the writer of the signal lives or not.
pub proof fn lemma_only_true_stops(carried: Seq<Option<bool>>)
    ensures
        accepting_after_signals(true, carried) == !carried.contains(Some(true)),
    decreases carried.len(),
{
    if carried.len() == 0 {
    } else {
        let rest = carried.drop_first();
        if carried[0] == Some(true) {
            lemma_signals_keep_stopped(rest);
        } else {
            lemma_only_true_stops(rest);
            if rest.contains(Some(true)) {
                let i = choose|i: int| 0 <= i < rest.len() && rest[i] == Some(true);
                assert(carried[i + 1] == Some(true));
            }
            if carried.contains(Some(true)) {
                let i = choose|i: int| 0 <= i < carried.len() && carried[i] == Some(true);
                assert(rest[i - 1] == Some(true));
            }
        }
    }
}

proof fn lemma_signals_keep_stopped(carried: Seq<Option<bool>>)
    ensures
        !accepting_after_signals(false, carried),
    decreases carried.len(),
{
    if carried.len() > 0 {
        lemma_signals_keep_stopped(carried.drop_first());
    }
}

/// The loop of a supervised listener stops on every change of its signal.
pub proof fn lemma_every_change_stops(accepting: bool, carried: Option<bool>)
    ensures
        accept_action(accepting, change_event(carried)) == AcceptAction::Stop,
{
}

} // verus!

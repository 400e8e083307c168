//! The shutdown coordinator: turns one external interrupt into one
//! termination notice for every stage, then waits until the stages have
//! stopped, and in any case until the sink has flushed.
use vstd::prelude::*;
use crate::common::RegisteredSignal;

verus! {

#[derive(Clone, Copy, Debug, PartialEq, Eq, Structural)]
pub enum ShutdownState {
    /// Waiting for an interrupt.
    Armed,
    /// The interrupt came; the notice is being sent to the stages.
    Notified,
    /// The notice was sent; waiting for the stages to acknowledge.
    Draining,
    /// Every stage that had to acknowledge did; the process may exit.
    Stopped,
}

/// The stages that receive the termination notice.
#[derive(Clone, Copy, Debug, PartialEq, Eq, Structural)]
pub enum Component {
    Scheduler,
    Fetcher,
    Aggregator,
    Sink,
}

/// The coordinator. Each flag records that a stage acknowledged the notice;
/// the sink acknowledges once it has flushed.
pub struct SignalHandler {
    pub state: ShutdownState,
    pub scheduler_done: bool,
    pub fetcher_done: bool,
    pub aggregator_done: bool,
    pub sink_done: bool,
}

impl SignalHandler {
    pub open spec fn all_done(&self) -> bool {
        self.scheduler_done && self.fetcher_done && self.aggregator_done && self.sink_done
    }

    pub open spec fn is_done(&self, c: Component) -> bool {
        match c {
            Component::Scheduler => self.scheduler_done,
            Component::Fetcher => self.fetcher_done,
            Component::Aggregator => self.aggregator_done,
            Component::Sink => self.sink_done,
        }
    }

    /// No acknowledgment before the interrupt, and no stop before the sink
    /// has flushed.
    pub open spec fn wf(&self) -> bool {
        &&& self.state == ShutdownState::Armed ==> !self.scheduler_done && !self.fetcher_done
            && !self.aggregator_done && !self.sink_done
        &&& self.state == ShutdownState::Stopped ==> self.sink_done
    }

    pub fn new() -> (r: SignalHandler)
        ensures
            r.wf(),
            r.state == ShutdownState::Armed,
    {
        SignalHandler {
            state: ShutdownState::Armed,
            scheduler_done: false,
            fetcher_done: false,
            aggregator_done: false,
            sink_done: false,
        }
    }

    /// An interrupt arrives. The first one yields the notice to broadcast;
    /// any later one yields nothing and changes nothing.
    pub fn on_interrupt(&mut self) -> (r: Option<RegisteredSignal>)
        requires
            old(self).wf(),
        ensures
            final(self).wf(),
            old(self).state == ShutdownState::Armed ==> r is Some && final(self).state
                == ShutdownState::Notified,
            old(self).state != ShutdownState::Armed ==> r is None && *final(self) == *old(self),
            final(self).scheduler_done == old(self).scheduler_done,
            final(self).fetcher_done == old(self).fetcher_done,
            final(self).aggregator_done == old(self).aggregator_done,
            final(self).sink_done == old(self).sink_done,
    {
        match self.state {
            ShutdownState::Armed => {
                self.state = ShutdownState::Notified;
                Some(RegisteredSignal)
            },
            _ => None,
        }
    }

    /// The notice has gone out to every stage: the coordinator drains, and
    /// stops at once where every stage has acknowledged already.
    pub fn broadcast_sent(&mut self)
        requires
            old(self).wf(),
        ensures
            final(self).wf(),
            old(self).state == ShutdownState::Notified ==> final(self).state == if old(
                self,
            ).all_done() {
                ShutdownState::Stopped
            } else {
                ShutdownState::Draining
            },
            old(self).state != ShutdownState::Notified ==> final(self).state == old(self).state,
            final(self).scheduler_done == old(self).scheduler_done,
            final(self).fetcher_done == old(self).fetcher_done,
            final(self).aggregator_done == old(self).aggregator_done,
            final(self).sink_done == old(self).sink_done,
    {
        if self.state == ShutdownState::Notified {
            if self.scheduler_done && self.fetcher_done && self.aggregator_done && self.sink_done {
                self.state = ShutdownState::Stopped;
            } else {
                self.state = ShutdownState::Draining;
            }
        }
    }

    /// A stage acknowledges the notice. Before the interrupt this changes
    /// nothing; after it the stage is recorded, and a draining coordinator
    /// stops once every stage is.
    pub fn on_ack(&mut self, c: Component)
        requires
            old(self).wf(),
        ensures
            final(self).wf(),
            old(self).state == ShutdownState::Armed ==> *final(self) == *old(self),
            old(self).state != ShutdownState::Armed ==> {
                &&& final(self).is_done(c)
                &&& forall|d: Component| d != c ==> final(self).is_done(d) == old(self).is_done(d)
                &&& final(self).state == if old(self).state == ShutdownState::Draining
                    && final(self).all_done() {
                    ShutdownState::Stopped
                } else {
                    old(self).state
                }
            },
    {
        if self.state == ShutdownState::Armed {
            return;
        }
        match c {
            Component::Scheduler => self.scheduler_done = true,
            Component::Fetcher => self.fetcher_done = true,
            Component::Aggregator => self.aggregator_done = true,
            Component::Sink => self.sink_done = true,
        }
        if self.state == ShutdownState::Draining && self.scheduler_done && self.fetcher_done
            && self.aggregator_done && self.sink_done {
            self.state = ShutdownState::Stopped;
        }
    }

    /// The wait for acknowledgments timed out: a draining coordinator stops
    /// if the sink has flushed, and otherwise keeps waiting for it.
    pub fn on_deadline(&mut self)
        requires
            old(self).wf(),
        ensures
            final(self).wf(),
            final(self).state == if old(self).state == ShutdownState::Draining
                && old(self).sink_done {
                ShutdownState::Stopped
            } else {
                old(self).state
            },
            final(self).scheduler_done == old(self).scheduler_done,
            final(self).fetcher_done == old(self).fetcher_done,
            final(self).aggregator_done == old(self).aggregator_done,
            final(self).sink_done == old(self).sink_done,
    {
        if self.state == ShutdownState::Draining && self.sink_done {
            self.state = ShutdownState::Stopped;
        }
    }

    pub fn is_stopped(&self) -> (r: bool)
        ensures
            r == (self.state == ShutdownState::Stopped),
    {
        self.state == ShutdownState::Stopped
    }
}

} // verus!

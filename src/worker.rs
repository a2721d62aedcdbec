use vstd::prelude::*;
use crate::probe::{HandshakeOutcome, TLS_PORT, classification_of, classify, probe_target};
use crate::record::Record;
use crate::report::{ResultLine, line_of, render};
use crate::text::decimal;

verus! {

/// What a worker does with what its queue handed it.
#[derive(Debug)]
pub enum WorkerAction {
    /// Make one handshake attempt against `target` for `record`.
    Probe { target: String, record: Record },
    /// The queue is closed and drained: the worker ends.
    Stop,
}

/// The decisions of one worker of the pool, identified by its index.
#[derive(Debug)]
pub struct Worker {
    index: usize,
    stopped: bool,
}

impl Worker {
    pub closed spec fn spec_index(&self) -> nat {
        self.index as nat
    }

    pub closed spec fn spec_stopped(&self) -> bool {
        self.stopped
    }

    /// Worker number `index`, waiting for its first record.
    pub fn new(index: usize) -> (r: Worker)
        ensures
            r.spec_index() == index,
            !r.spec_stopped(),
    {
        Worker { index, stopped: false }
    }

    pub fn index(&self) -> (r: usize)
        ensures
            r == self.spec_index(),
    {
        self.index
    }

    pub fn is_stopped(&self) -> (r: bool)
        ensures
            r == self.spec_stopped(),
    {
        self.stopped
    }

    /// Takes what the queue handed over: a record is probed at `<domain>:443`,
    /// and a closed queue (`None`) ends the worker for good.
    pub fn on_receive(&mut self, item: Option<Record>) -> (r: WorkerAction)
        ensures
            final(self).spec_index() == old(self).spec_index(),
            !old(self).spec_stopped() && item is Some ==> (r matches WorkerAction::Probe {
                target,
                record,
            } && record == item->Some_0 && target@ == record.domain@ + ":"@ + decimal(
                TLS_PORT as nat,
            )) && !final(self).spec_stopped(),
            !old(self).spec_stopped() && item is None ==> r is Stop && final(self).spec_stopped(),
            old(self).spec_stopped() ==> r is Stop && final(self).spec_stopped(),
    {
        if self.stopped {
            return WorkerAction::Stop;
        }
        match item {
            Some(record) => {
                let target = probe_target(record.domain());
                WorkerAction::Probe { target, record }
            },
            None => {
                self.stopped = true;
                WorkerAction::Stop
            },
        }
    }

    /// The line this worker emits for `record` after the handshake ended
    /// with `outcome`: `None` for a failure.
    pub fn finish(&self, record: &Record, outcome: HandshakeOutcome) -> (r: Option<ResultLine>)
        ensures
            r is None <==> line_of(self.spec_index(), record, classification_of(outcome)) is None,
            r matches Some(line) ==> line_of(self.spec_index(), record, classification_of(outcome))
                == Some((line.stream, line.text@)),
    {
        let c = classify(outcome);
        render(self.index, record, c)
    }
}

} // verus!

use vstd::prelude::*;

verus! {

/// The number of times one query is sent before the exchange gives up.
pub const MAX_SENDS: u8 = 3;

/// What followed one send of the query.
#[derive(Clone, Copy, Debug, PartialEq, Eq, Structural)]
pub enum AttemptOutcome {
    /// A reply came back.
    Reply,
    /// The receive timed out or would block.
    TimedOut,
    /// Sending or receiving failed otherwise.
    Failed,
}

/// What the caller does next in an exchange.
#[derive(Clone, Copy, Debug, PartialEq, Eq, Structural)]
pub enum ExchangeAction {
    /// Send the query (again) and wait for a reply.
    Send,
    /// Decode the reply that came back.
    Decode,
    /// Stop: the exchange failed in transport.
    GiveUp,
}

/// The state of one request/response exchange with one name server: how
/// many times the query has been sent.
#[derive(Clone, Copy, Debug, PartialEq, Eq, Structural)]
pub struct Exchange {
    pub sends: u8,
}

impl Exchange {
    pub open spec fn wf(self) -> bool {
        1 <= self.sends <= MAX_SENDS
    }

    /// Begins an exchange: the query is to be sent a first time.
    pub fn start() -> (r: (Exchange, ExchangeAction))
        ensures
            r.0.sends == 1,
            r.1 == ExchangeAction::Send,
    {
        (Exchange { sends: 1 }, ExchangeAction::Send)
    }

    /// Takes in what followed the last send, and says what comes next.
    pub fn on_outcome(&mut self, o: AttemptOutcome) -> (r: ExchangeAction)
        requires
            old(self).wf(),
        ensures
            (*final(self), r) == exchange_step(*old(self), o),
            final(self).wf(),
    {
        match o {
            AttemptOutcome::Reply => ExchangeAction::Decode,
            AttemptOutcome::Failed => ExchangeAction::GiveUp,
            AttemptOutcome::TimedOut => {
                if self.sends < MAX_SENDS {
                    self.sends = self.sends + 1;
                    ExchangeAction::Send
                } else {
                    ExchangeAction::GiveUp
                }
            },
        }
    }
}

/// One step of an exchange: a reply is decoded, a hard failure ends it at
/// once, and a timeout leads to another send while fewer than three were made.
pub open spec fn exchange_step(s: Exchange, o: AttemptOutcome) -> (Exchange, ExchangeAction) {
    match o {
        AttemptOutcome::Reply => (s, ExchangeAction::Decode),
        AttemptOutcome::Failed => (s, ExchangeAction::GiveUp),
        AttemptOutcome::TimedOut => if s.sends < MAX_SENDS {
            (Exchange { sends: (s.sends + 1) as u8 }, ExchangeAction::Send)
        } else {
            (s, ExchangeAction::GiveUp)
        },
    }
}

/// The state and action after feeding `outs` to an exchange in state `s`,
/// one per send, stopping at the first action that is not another send.
pub open spec fn exchange_run(s: Exchange, outs: Seq<AttemptOutcome>) -> (Exchange, ExchangeAction)
    decreases outs.len(),
{
    if outs.len() == 0 {
        (s, ExchangeAction::Send)
    } else {
        let (s2, a) = exchange_step(s, outs[0]);
        if a == ExchangeAction::Send {
            exchange_run(s2, outs.drop_first())
        } else {
            (s2, a)
        }
    }
}

/// The state in which every exchange begins.
pub open spec fn exchange_start() -> Exchange {
    Exchange { sends: 1 }
}

proof fn lemma_run_keeps_bound(s: Exchange, outs: Seq<AttemptOutcome>)
    requires
        s.wf(),
    ensures
        exchange_run(s, outs).0.wf(),
        exchange_run(s, outs).0.sends >= s.sends,
    decreases outs.len(),
{
    if outs.len() > 0 {
        let (s2, a) = exchange_step(s, outs[0]);
        if a == ExchangeAction::Send {
            lemma_run_keeps_bound(s2, outs.drop_first());
        }
    }
}

/// An exchange sends its query at most three times, whatever follows each
/// send; three timeouts in a row end it with a transport failure after the
/// third send; any other failure ends it after the first send.
pub proof fn lemma_exchange_bounded(outs: Seq<AttemptOutcome>)
    ensures
        exchange_run(exchange_start(), outs).0.sends <= 3,
        outs.len() >= 3 && outs[0] == AttemptOutcome::TimedOut && outs[1] == AttemptOutcome::TimedOut
            && outs[2] == AttemptOutcome::TimedOut ==> exchange_run(exchange_start(), outs) == (
        Exchange { sends: 3 }, ExchangeAction::GiveUp),
        outs.len() >= 1 && outs[0] == AttemptOutcome::Failed ==> exchange_run(exchange_start(), outs)
            == (Exchange { sends: 1 }, ExchangeAction::GiveUp),
{
    lemma_run_keeps_bound(exchange_start(), outs);
    if outs.len() >= 3 && outs[0] == AttemptOutcome::TimedOut && outs[1] == AttemptOutcome::TimedOut
        && outs[2] == AttemptOutcome::TimedOut {
        let o1 = outs.drop_first();
        let o2 = o1.drop_first();
        assert(o1[0] == outs[1]);
        assert(o2[0] == outs[2]);
        assert(exchange_run(Exchange { sends: 3 }, o2) == (Exchange { sends: 3 }, ExchangeAction::GiveUp));
        assert(exchange_run(Exchange { sends: 2 }, o1) == exchange_run(Exchange { sends: 3 }, o2));
    }
}

} // verus!

//! The phase of the exchange that is in flight, and the slot on the
//! connection that remembers it.
//!
//! The slot outlives the call. Whoever takes the connection next reads it to
//! learn whether the last exchange ran to its end or left packets of an
//! unfinished one on the wire.

use vstd::prelude::*;
use crate::message::{PrepareOk, PrepareResponse, ServerError};

verus! {

/// The packet that a phase waits for.
#[derive(Clone, Copy, Debug, PartialEq, Eq, Structural)]
pub enum Expect {
    PrepareResponse,
    ParameterDefinition,
    ParameterTerminator,
    ColumnDefinition,
    ColumnTerminator,
}

/// The steps of one exchange. `remaining` counts the definitions still to
/// arrive, the awaited one included: a session never records a zero.
#[derive(Clone, Copy, Debug, PartialEq, Eq, Structural)]
pub enum ProtocolPhase {
    Idle,
    AwaitingPrepareResponse,
    AwaitingParameterDefinition { remaining: u16 },
    AwaitingParameterTerminator,
    AwaitingColumnDefinition { remaining: u16 },
    AwaitingColumnTerminator,
    Complete,
    Failed,
}

impl ProtocolPhase {
    /// The packet read next in this phase, if any.
    pub open spec fn expects(self) -> Option<Expect> {
        match self {
            ProtocolPhase::AwaitingPrepareResponse => Some(Expect::PrepareResponse),
            ProtocolPhase::AwaitingParameterDefinition { .. } => Some(Expect::ParameterDefinition),
            ProtocolPhase::AwaitingParameterTerminator => Some(Expect::ParameterTerminator),
            ProtocolPhase::AwaitingColumnDefinition { .. } => Some(Expect::ColumnDefinition),
            ProtocolPhase::AwaitingColumnTerminator => Some(Expect::ColumnTerminator),
            _ => None,
        }
    }

    /// How many definitions of the current list are still expected; zero in
    /// every phase that is not a countdown.
    pub open spec fn remaining(self) -> nat {
        match self {
            ProtocolPhase::AwaitingParameterDefinition { remaining } => remaining as nat,
            ProtocolPhase::AwaitingColumnDefinition { remaining } => remaining as nat,
            _ => 0,
        }
    }

    /// No phase follows `Complete` or `Failed`.
    pub open spec fn terminal(self) -> bool {
        self is Complete || self is Failed
    }

    /// A packet of this exchange is still owed by the server. A connection
    /// found in such a phase after the call has ended cannot be reused
    /// as it is.
    pub open spec fn in_flight(self) -> bool {
        self.expects() is Some
    }

    /// The position of the phase in the fixed order of an exchange.
    pub open spec fn position(self) -> nat {
        match self {
            ProtocolPhase::Idle => 0,
            ProtocolPhase::AwaitingPrepareResponse => 1,
            ProtocolPhase::AwaitingParameterDefinition { .. } => 2,
            ProtocolPhase::AwaitingParameterTerminator => 3,
            ProtocolPhase::AwaitingColumnDefinition { .. } => 4,
            ProtocolPhase::AwaitingColumnTerminator => 5,
            ProtocolPhase::Complete => 6,
            ProtocolPhase::Failed => 6,
        }
    }

    /// `self` comes strictly before `later` in an exchange: at an earlier
    /// position, or in the same countdown with more definitions to go.
    pub open spec fn precedes(self, later: ProtocolPhase) -> bool {
        self.position() < later.position() || (self.position() == later.position()
            && self.remaining() > later.remaining())
    }

    pub fn is_terminal(&self) -> (terminal: bool)
        ensures
            terminal == self.terminal(),
    {
        match self {
            ProtocolPhase::Complete => true,
            ProtocolPhase::Failed => true,
            _ => false,
        }
    }

    pub fn is_in_flight(&self) -> (in_flight: bool)
        ensures
            in_flight == self.in_flight(),
    {
        self.expected().is_some()
    }

    pub fn expected(&self) -> (expect: Option<Expect>)
        ensures
            expect == self.expects(),
    {
        match self {
            ProtocolPhase::AwaitingPrepareResponse => Some(Expect::PrepareResponse),
            ProtocolPhase::AwaitingParameterDefinition { .. } => Some(Expect::ParameterDefinition),
            ProtocolPhase::AwaitingParameterTerminator => Some(Expect::ParameterTerminator),
            ProtocolPhase::AwaitingColumnDefinition { .. } => Some(Expect::ColumnDefinition),
            ProtocolPhase::AwaitingColumnTerminator => Some(Expect::ColumnTerminator),
            _ => None,
        }
    }

    pub fn remaining_definitions(&self) -> (remaining: u16)
        ensures
            remaining == self.remaining(),
    {
        match self {
            ProtocolPhase::AwaitingParameterDefinition { remaining } => *remaining,
            ProtocolPhase::AwaitingColumnDefinition { remaining } => *remaining,
            _ => 0,
        }
    }
}

/// `precedes` never holds of a phase and itself.
pub proof fn lemma_precedes_irreflexive(phase: ProtocolPhase)
    ensures
        !phase.precedes(phase),
{
}

/// `precedes` is transitive. With irreflexivity this makes it a strict
/// order: a chain of phases, each preceding the next, visits none twice.
pub proof fn lemma_precedes_transitive(a: ProtocolPhase, b: ProtocolPhase, c: ProtocolPhase)
    requires
        a.precedes(b),
        b.precedes(c),
    ensures
        a.precedes(c),
{
}

/// Nothing comes after a terminal phase.
pub proof fn lemma_terminal_is_last(phase: ProtocolPhase, later: ProtocolPhase)
    requires
        phase.terminal(),
    ensures
        !phase.precedes(later),
{
}

/// The slot that holds the phase in flight. It has one writer, the exchange
/// that borrows it, and is always replaced whole.
#[derive(Debug)]
pub struct PhaseTracker {
    phase: ProtocolPhase,
}

impl View for PhaseTracker {
    type V = ProtocolPhase;

    closed spec fn view(&self) -> ProtocolPhase {
        self.phase
    }
}

impl PhaseTracker {
    /// A slot on which no exchange has run.
    pub fn new() -> (tracker: Self)
        ensures
            tracker@ == ProtocolPhase::Idle,
    {
        PhaseTracker { phase: ProtocolPhase::Idle }
    }

    pub fn phase(&self) -> (phase: ProtocolPhase)
        ensures
            phase == self@,
    {
        self.phase
    }

    /// The request is on the wire: the response is awaited.
    pub fn begin(&mut self)
        ensures
            final(self)@ == ProtocolPhase::AwaitingPrepareResponse,
    {
        self.record(ProtocolPhase::AwaitingPrepareResponse);
    }

    /// Replaces the phase.
    pub fn record(&mut self, phase: ProtocolPhase)
        ensures
            final(self)@ == phase,
    {
        self.phase = phase;
    }

    /// Splits the response. An error ends the exchange in `Failed` and is
    /// handed back as it came; a success passes through and the slot is
    /// left alone.
    pub fn end_if_error(&mut self, response: PrepareResponse) -> (result: Result<
        PrepareOk,
        ServerError,
    >)
        ensures
            result == response.as_result(),
            final(self)@ == (if response is Error {
                ProtocolPhase::Failed
            } else {
                old(self)@
            }),
    {
        match response.into_result() {
            Ok(ok) => Ok(ok),
            Err(error) => {
                self.record(ProtocolPhase::Failed);
                Err(error)
            },
        }
    }

    /// The exchange ran to its end.
    pub fn end(&mut self)
        ensures
            final(self)@ == ProtocolPhase::Complete,
    {
        self.record(ProtocolPhase::Complete);
    }
}

} // verus!

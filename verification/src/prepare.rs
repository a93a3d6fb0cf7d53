//! The exchange that prepares a statement, as a machine that is fed events.
//!
//! [`PrepareSession::start`] hands out the request to write. From then on
//! each [`Event`] given to [`PrepareSession::step`] is answered with the
//! packet to read next, with the finished statement, or with the error that
//! ends the call. The session never waits and never retries; the phase slot
//! of the connection is written before each read is asked for.
//!
//! What a step does is defined once, on [`SessionModel`], by
//! [`transition`]; `step` is proved to do exactly that.

use vstd::prelude::*;
use crate::capabilities::Capabilities;
use crate::message::{ColumnDefinition, PrepareRequest, PrepareResponse, ServerError};
use crate::phase::{Expect, PhaseTracker, ProtocolPhase};
use crate::statement::{in_arrival_order, StatementBuilder, StatementDescriptor, StatementView};

verus! {

/// `sqlx_core::Error`, the error type of the driver around this crate. A
/// failed write, read or decode is reported in it. Nothing is claimed of
/// what a value holds: the session hands it on untouched.
#[verifier::external_type_specification]
#[verifier::external_body]
pub struct ExDriverError(sqlx_core::Error);

/// What the channel reports back to the session.
#[derive(Debug)]
pub enum Event {
    /// The request packet has been written.
    RequestSent,
    /// The response to the request was read and decoded.
    Response(PrepareResponse),
    /// A column-definition packet was read and decoded.
    Definition(ColumnDefinition),
    /// A list terminator was read.
    Terminator,
    /// The write or read that was due failed, or the packet read did not
    /// decode as the one awaited.
    ChannelFailed(sqlx_core::Error),
}

/// Why a call ended without a statement.
#[derive(Debug)]
pub enum PrepareError {
    /// The server refused the statement. It sends nothing after its error,
    /// so the connection is clean.
    Server(ServerError),
    /// The channel failed while a packet was owed. The position in the
    /// byte stream is lost with it.
    Channel(sqlx_core::Error),
    /// An event arrived that the phase in flight has no place for.
    Protocol { phase: ProtocolPhase },
}

/// A session as the contracts see it.
///
/// `awaiting` is `None` until the request has been written. The two counts
/// are zero until the response announces them.
#[verifier::ext_equal]
pub struct SessionModel {
    pub omit_terminators: bool,
    pub awaiting: Option<Expect>,
    pub parameter_count: nat,
    pub column_count: nat,
    pub lists: StatementView,
}

/// Where one event takes a session.
#[verifier::ext_equal]
pub enum Transition {
    /// One more packet is to be read, by the session given.
    Next(SessionModel),
    /// Both lists are complete.
    Done(StatementView),
    /// The call ends with this error.
    Failed(PrepareError),
}

impl SessionModel {
    /// The session before anything was written.
    pub open spec fn initial(omit_terminators: bool) -> SessionModel {
        SessionModel {
            omit_terminators,
            awaiting: None,
            parameter_count: 0,
            column_count: 0,
            lists: StatementView::empty(),
        }
    }

    /// What holds of every session that `start` and `step` hand out: the
    /// lists never outgrow the announced counts, a definition is awaited
    /// only while its list is short, a terminator only after a non-empty
    /// list on a connection that sends them, and columns only once the
    /// parameters are complete.
    pub open spec fn wf(self) -> bool {
        let parameters = self.lists.parameters.len();
        let columns = self.lists.columns.len();
        &&& self.parameter_count <= u16::MAX
        &&& self.column_count <= u16::MAX
        &&& in_arrival_order(self.lists.columns)
        &&& match self.awaiting {
            None | Some(Expect::PrepareResponse) => {
                &&& self.parameter_count == 0
                &&& self.column_count == 0
                &&& parameters == 0
                &&& columns == 0
            },
            Some(Expect::ParameterDefinition) => {
                &&& parameters < self.parameter_count
                &&& columns == 0
            },
            Some(Expect::ParameterTerminator) => {
                &&& !self.omit_terminators
                &&& 0 < parameters == self.parameter_count
                &&& columns == 0
            },
            Some(Expect::ColumnDefinition) => {
                &&& parameters == self.parameter_count
                &&& columns < self.column_count
            },
            Some(Expect::ColumnTerminator) => {
                &&& !self.omit_terminators
                &&& parameters == self.parameter_count
                &&& 0 < columns == self.column_count
            },
        }
    }

    /// The phase that the slot holds while this session waits.
    pub open spec fn phase(self) -> ProtocolPhase {
        match self.awaiting {
            None => ProtocolPhase::Idle,
            Some(Expect::PrepareResponse) => ProtocolPhase::AwaitingPrepareResponse,
            Some(Expect::ParameterDefinition) => ProtocolPhase::AwaitingParameterDefinition {
                remaining: (self.parameter_count - self.lists.parameters.len()) as u16,
            },
            Some(Expect::ParameterTerminator) => ProtocolPhase::AwaitingParameterTerminator,
            Some(Expect::ColumnDefinition) => ProtocolPhase::AwaitingColumnDefinition {
                remaining: (self.column_count - self.lists.columns.len()) as u16,
            },
            Some(Expect::ColumnTerminator) => ProtocolPhase::AwaitingColumnTerminator,
        }
    }

    /// What comes next once the parameter list may be complete: the next
    /// parameter while one is missing; else its terminator, if the list is
    /// not empty and the connection sends terminators; else the columns.
    pub open spec fn after_parameter(self) -> Transition {
        if self.lists.parameters.len() < self.parameter_count {
            Transition::Next(
                SessionModel { awaiting: Some(Expect::ParameterDefinition), ..self },
            )
        } else if self.parameter_count > 0 && !self.omit_terminators {
            Transition::Next(
                SessionModel { awaiting: Some(Expect::ParameterTerminator), ..self },
            )
        } else {
            self.after_column()
        }
    }

    /// The same for the column list, after which the statement is done.
    pub open spec fn after_column(self) -> Transition {
        if self.lists.columns.len() < self.column_count {
            Transition::Next(SessionModel { awaiting: Some(Expect::ColumnDefinition), ..self })
        } else if self.column_count > 0 && !self.omit_terminators {
            Transition::Next(SessionModel { awaiting: Some(Expect::ColumnTerminator), ..self })
        } else {
            Transition::Done(self.lists)
        }
    }
}

impl Transition {
    /// The phase in the slot after the step, given the phase before it. A
    /// server error ends in `Failed`; any other error leaves the slot as it
    /// was, in flight.
    pub open spec fn phase_after(self, before: ProtocolPhase) -> ProtocolPhase {
        match self {
            Transition::Next(session) => session.phase(),
            Transition::Done(_) => ProtocolPhase::Complete,
            Transition::Failed(PrepareError::Server(_)) => ProtocolPhase::Failed,
            Transition::Failed(_) => before,
        }
    }
}

/// The step function of the exchange.
///
/// A failure of the channel ends the call whatever was awaited. Otherwise
/// the event must be the one awaited: the written request opens the
/// exchange, the response either fails it or announces the counts, each
/// definition extends the list that is being read, each terminator closes
/// its list. Anything else is a protocol error.
pub open spec fn transition(session: SessionModel, event: Event) -> Transition {
    match (session.awaiting, event) {
        (_, Event::ChannelFailed(error)) => Transition::Failed(PrepareError::Channel(error)),
        (None, Event::RequestSent) => Transition::Next(
            SessionModel { awaiting: Some(Expect::PrepareResponse), ..session },
        ),
        (Some(Expect::PrepareResponse), Event::Response(PrepareResponse::Error(error))) => {
            Transition::Failed(PrepareError::Server(error))
        },
        (Some(Expect::PrepareResponse), Event::Response(PrepareResponse::Success(ok))) => {
            SessionModel {
                parameter_count: ok.parameter_count as nat,
                column_count: ok.column_count as nat,
                ..session
            }.after_parameter()
        },
        (Some(Expect::ParameterDefinition), Event::Definition(definition)) => {
            SessionModel { lists: session.lists.with_parameter(definition), ..session }
                .after_parameter()
        },
        (Some(Expect::ParameterTerminator), Event::Terminator) => session.after_column(),
        (Some(Expect::ColumnDefinition), Event::Definition(definition)) => {
            SessionModel { lists: session.lists.with_column(definition), ..session }.after_column()
        },
        (Some(Expect::ColumnTerminator), Event::Terminator) => Transition::Done(session.lists),
        _ => Transition::Failed(PrepareError::Protocol { phase: session.phase() }),
    }
}

/// One exchange in progress.
#[derive(Debug)]
pub struct PrepareSession {
    omit_terminators: bool,
    awaiting: Option<Expect>,
    parameter_count: u16,
    column_count: u16,
    builder: StatementBuilder,
}

/// What the caller does after a successful step.
#[derive(Debug)]
pub enum Progress {
    /// Read one packet, decode it as `expect` says, and hand it to
    /// `session`.
    Read { session: PrepareSession, expect: Expect },
    /// The statement is prepared.
    Done(StatementDescriptor),
}

impl View for PrepareSession {
    type V = SessionModel;

    closed spec fn view(&self) -> SessionModel {
        SessionModel {
            omit_terminators: self.omit_terminators,
            awaiting: self.awaiting,
            parameter_count: self.parameter_count as nat,
            column_count: self.column_count as nat,
            lists: self.builder@,
        }
    }
}

impl PrepareSession {
    #[verifier::type_invariant]
    spec fn inv(self) -> bool {
        self@.wf()
    }

    /// Opens an exchange for `sql` on a connection that negotiated
    /// `capabilities`. The request is to be written before the first step.
    pub fn start<'a>(sql: &'a str, capabilities: &Capabilities) -> (started: (
        PrepareSession,
        PrepareRequest<'a>,
    ))
        ensures
            started.0@ == SessionModel::initial(capabilities.terminators_omitted()),
            started.1.sql == sql,
    {
        let session = PrepareSession {
            omit_terminators: capabilities.omits_terminators(),
            awaiting: None,
            parameter_count: 0,
            column_count: 0,
            builder: StatementBuilder::new(0, 0),
        };
        (session, PrepareRequest::new(sql))
    }

    /// The phase in which the session waits.
    pub fn phase(&self) -> (phase: ProtocolPhase)
        ensures
            self@.wf(),
            phase == self@.phase(),
    {
        proof {
            use_type_invariant(self);
        }
        match self.awaiting {
            None => ProtocolPhase::Idle,
            Some(Expect::PrepareResponse) => ProtocolPhase::AwaitingPrepareResponse,
            Some(Expect::ParameterDefinition) => {
                let received: usize = self.builder.parameter_count();
                ProtocolPhase::AwaitingParameterDefinition {
                    remaining: (self.parameter_count as usize - received) as u16,
                }
            },
            Some(Expect::ParameterTerminator) => ProtocolPhase::AwaitingParameterTerminator,
            Some(Expect::ColumnDefinition) => {
                let received: usize = self.builder.column_count();
                ProtocolPhase::AwaitingColumnDefinition {
                    remaining: (self.column_count as usize - received) as u16,
                }
            },
            Some(Expect::ColumnTerminator) => ProtocolPhase::AwaitingColumnTerminator,
        }
    }

    /// Takes one event and decides what follows, as `transition` says. The
    /// phase of what follows is in `tracker` when the call returns.
    pub fn step(self, tracker: &mut PhaseTracker, event: Event) -> (result: Result<
        Progress,
        PrepareError,
    >)
        ensures
            self@.wf(),
            final(tracker)@ == transition(self@, event).phase_after(old(tracker)@),
            match transition(self@, event) {
                Transition::Next(next) => {
                    &&& result matches Ok(Progress::Read { session, expect })
                    &&& session@ == next
                    &&& next.awaiting == Some(expect)
                },
                Transition::Done(lists) => {
                    &&& result matches Ok(Progress::Done(statement))
                    &&& statement@ == lists
                },
                Transition::Failed(error) => result == Err::<Progress, PrepareError>(error),
            },
    {
        proof {
            use_type_invariant(&self);
        }
        match (self.awaiting, event) {
            (_, Event::ChannelFailed(error)) => Err(PrepareError::Channel(error)),
            (None, Event::RequestSent) => {
                tracker.begin();
                Ok(
                    Progress::Read {
                        session: PrepareSession { awaiting: Some(Expect::PrepareResponse), ..self },
                        expect: Expect::PrepareResponse,
                    },
                )
            },
            (Some(Expect::PrepareResponse), Event::Response(response)) => {
                match tracker.end_if_error(response) {
                    Ok(ok) => Ok(
                        after_parameter(
                            self.omit_terminators,
                            ok.parameter_count,
                            ok.column_count,
                            StatementBuilder::new(ok.parameter_count, ok.column_count),
                            tracker,
                        ),
                    ),
                    Err(error) => Err(PrepareError::Server(error)),
                }
            },
            (Some(Expect::ParameterDefinition), Event::Definition(definition)) => {
                // Only the type is kept of a parameter's definition.
                let builder = self.builder.push_parameter(&definition);
                Ok(
                    after_parameter(
                        self.omit_terminators,
                        self.parameter_count,
                        self.column_count,
                        builder,
                        tracker,
                    ),
                )
            },
            (Some(Expect::ParameterTerminator), Event::Terminator) => {
                Ok(
                    after_column(
                        self.omit_terminators,
                        self.parameter_count,
                        self.column_count,
                        self.builder,
                        tracker,
                    ),
                )
            },
            (Some(Expect::ColumnDefinition), Event::Definition(definition)) => {
                let builder = self.builder.push_column(definition);
                Ok(
                    after_column(
                        self.omit_terminators,
                        self.parameter_count,
                        self.column_count,
                        builder,
                        tracker,
                    ),
                )
            },
            (Some(Expect::ColumnTerminator), Event::Terminator) => {
                tracker.end();
                Ok(Progress::Done(self.builder.finish()))
            },
            _ => Err(PrepareError::Protocol { phase: self.phase() }),
        }
    }
}

/// The lists of `builder` under the given counts, with nothing awaited yet.
spec fn gathered(
    omit_terminators: bool,
    parameter_count: u16,
    column_count: u16,
    builder: StatementBuilder,
) -> SessionModel {
    SessionModel {
        omit_terminators,
        awaiting: None,
        parameter_count: parameter_count as nat,
        column_count: column_count as nat,
        lists: builder@,
    }
}

/// The relation between what a step returns and what the model asks for.
spec fn carries_out(progress: Progress, wanted: Transition) -> bool {
    match wanted {
        Transition::Next(next) => {
            &&& progress matches Progress::Read { session, expect }
            &&& session@ == next
            &&& next.awaiting == Some(expect)
        },
        Transition::Done(lists) => {
            &&& progress matches Progress::Done(statement)
            &&& statement@ == lists
        },
        Transition::Failed(_) => false,
    }
}

/// Counts down the parameters, then asks for their terminator where one is
/// sent, then goes on to the columns.
fn after_parameter(
    omit_terminators: bool,
    parameter_count: u16,
    column_count: u16,
    builder: StatementBuilder,
    tracker: &mut PhaseTracker,
) -> (progress: Progress)
    requires
        builder@.parameters.len() <= parameter_count,
        builder@.columns.len() == 0,
    ensures
        carries_out(
            progress,
            gathered(omit_terminators, parameter_count, column_count, builder).after_parameter(),
        ),
        final(tracker)@ == gathered(
            omit_terminators,
            parameter_count,
            column_count,
            builder,
        ).after_parameter().phase_after(old(tracker)@),
{
    let received: usize = builder.parameter_count();
    if received < parameter_count as usize {
        let remaining: u16 = (parameter_count as usize - received) as u16;
        tracker.record(ProtocolPhase::AwaitingParameterDefinition { remaining });
        Progress::Read {
            session: PrepareSession {
                omit_terminators,
                awaiting: Some(Expect::ParameterDefinition),
                parameter_count,
                column_count,
                builder,
            },
            expect: Expect::ParameterDefinition,
        }
    } else if parameter_count > 0 && !omit_terminators {
        // Servers that do not omit terminators close a non-empty list with one.
        tracker.record(ProtocolPhase::AwaitingParameterTerminator);
        Progress::Read {
            session: PrepareSession {
                omit_terminators,
                awaiting: Some(Expect::ParameterTerminator),
                parameter_count,
                column_count,
                builder,
            },
            expect: Expect::ParameterTerminator,
        }
    } else {
        after_column(omit_terminators, parameter_count, column_count, builder, tracker)
    }
}

/// Counts down the columns, then asks for their terminator where one is
/// sent, then completes the statement.
fn after_column(
    omit_terminators: bool,
    parameter_count: u16,
    column_count: u16,
    builder: StatementBuilder,
    tracker: &mut PhaseTracker,
) -> (progress: Progress)
    requires
        builder@.parameters.len() == parameter_count,
        builder@.columns.len() <= column_count,
    ensures
        carries_out(
            progress,
            gathered(omit_terminators, parameter_count, column_count, builder).after_column(),
        ),
        final(tracker)@ == gathered(
            omit_terminators,
            parameter_count,
            column_count,
            builder,
        ).after_column().phase_after(old(tracker)@),
{
    let received: usize = builder.column_count();
    if received < column_count as usize {
        let remaining: u16 = (column_count as usize - received) as u16;
        tracker.record(ProtocolPhase::AwaitingColumnDefinition { remaining });
        Progress::Read {
            session: PrepareSession {
                omit_terminators,
                awaiting: Some(Expect::ColumnDefinition),
                parameter_count,
                column_count,
                builder,
            },
            expect: Expect::ColumnDefinition,
        }
    } else if column_count > 0 && !omit_terminators {
        tracker.record(ProtocolPhase::AwaitingColumnTerminator);
        Progress::Read {
            session: PrepareSession {
                omit_terminators,
                awaiting: Some(Expect::ColumnTerminator),
                parameter_count,
                column_count,
                builder,
            },
            expect: Expect::ColumnTerminator,
        }
    } else {
        tracker.end();
        Progress::Done(builder.finish())
    }
}

} // verus!

//! What holds of every step and of whole exchanges.
//!
//! An exchange is a session fed a sequence of events. [`run`] replays one
//! and records the phases written to the slot, the reads asked for, the
//! number of events taken and how it ended. The laws below are stated of
//! [`transition`] and of [`run`]; since `PrepareSession::step` is proved to
//! follow `transition`, they hold of every caller's loop.

use vstd::prelude::*;
use crate::message::{ColumnDefinition, PrepareOk, PrepareResponse, ServerError};
use crate::phase::{Expect, ProtocolPhase};
use crate::prepare::{transition, Event, PrepareError, SessionModel, Transition};
use crate::statement::{in_arrival_order, ColumnDescriptor, ParameterTypeInfo, StatementView};

verus! {

/// How a replay ended.
#[verifier::ext_equal]
pub enum Ending {
    /// The events ran out while the session was still waiting.
    Pending(SessionModel),
    /// The statement was prepared.
    Completed(StatementView),
    /// The call failed.
    Failed(PrepareError),
}

/// The record of a replay.
#[verifier::ext_equal]
pub struct Run {
    /// The phases written to the slot, in order.
    pub phases: Seq<ProtocolPhase>,
    /// The packets that the caller was asked to read, in order.
    pub reads: Seq<Expect>,
    /// How many events were taken. An exchange takes no event after the one
    /// that ends it.
    pub consumed: nat,
    pub end: Ending,
}

/// The read that a session waits for, as a sequence of at most one.
pub open spec fn asked(session: SessionModel) -> Seq<Expect> {
    match session.awaiting {
        Some(expect) => seq![expect],
        None => Seq::empty(),
    }
}

/// Replays `events` on `session`.
pub open spec fn run(session: SessionModel, events: Seq<Event>) -> Run
    decreases events.len(), 0int,
{
    if events.len() == 0 {
        Run {
            phases: Seq::empty(),
            reads: Seq::empty(),
            consumed: 0,
            end: Ending::Pending(session),
        }
    } else {
        let rest = follow(transition(session, events[0]), events.skip(1));
        Run { consumed: rest.consumed + 1, ..rest }
    }
}

/// What a transition writes and asks for, followed by the replay of
/// `events` on the session it leads to, if it leads to one.
pub open spec fn follow(step: Transition, events: Seq<Event>) -> Run
    decreases events.len(), 1int,
{
    match step {
        Transition::Next(next) => {
            let rest = run(next, events);
            Run {
                phases: seq![next.phase()] + rest.phases,
                reads: asked(next) + rest.reads,
                ..rest
            }
        },
        Transition::Done(lists) => Run {
            phases: seq![ProtocolPhase::Complete],
            reads: Seq::empty(),
            consumed: 0,
            end: Ending::Completed(lists),
        },
        Transition::Failed(error) => Run {
            phases: if error is Server {
                seq![ProtocolPhase::Failed]
            } else {
                Seq::empty()
            },
            reads: Seq::empty(),
            consumed: 0,
            end: Ending::Failed(error),
        },
    }
}

/// Every session that a step hands out is well formed, and a finished
/// statement has as many parameters and columns as the response announced,
/// the columns numbered in the order in which they came.
pub proof fn lemma_step_keeps_sessions_well_formed(session: SessionModel, event: Event)
    requires
        session.wf(),
    ensures
        match transition(session, event) {
            Transition::Next(next) => {
                &&& next.wf()
                &&& next.awaiting is Some
                &&& next.omit_terminators == session.omit_terminators
            },
            Transition::Done(lists) => {
                &&& lists.parameters.len() == session.parameter_count
                &&& lists.columns.len() == session.column_count
                &&& in_arrival_order(lists.columns)
            },
            Transition::Failed(_) => true,
        },
{
}

/// The phase moves strictly forward with every step that writes it: no
/// phase is entered twice, and within a countdown the number of remaining
/// definitions falls.
pub proof fn lemma_step_moves_phase_forward(session: SessionModel, event: Event)
    requires
        session.wf(),
    ensures
        ({
            let step = transition(session, event);
            let after = step.phase_after(session.phase());
            if step matches Transition::Failed(error) && !(error is Server) {
                after == session.phase()
            } else {
                session.phase().precedes(after)
            }
        }),
{
}

/// While a definition is awaited the phase counts at least one remaining,
/// and what it counts is what the list still lacks.
pub proof fn lemma_countdown_is_positive(session: SessionModel)
    requires
        session.wf(),
    ensures
        session.awaiting == Some(Expect::ParameterDefinition) ==> session.phase().remaining()
            == session.parameter_count - session.lists.parameters.len() > 0,
        session.awaiting == Some(Expect::ColumnDefinition) ==> session.phase().remaining()
            == session.column_count - session.lists.columns.len() > 0,
        session.phase().expects() == session.awaiting,
        !session.phase().terminal(),
{
}

/// A terminator is awaited for a list only if that list is not empty and
/// the connection did not negotiate the omission of terminators.
pub proof fn lemma_terminator_only_after_nonempty_list(session: SessionModel)
    requires
        session.wf(),
    ensures
        session.awaiting == Some(Expect::ParameterTerminator) ==> session.parameter_count > 0
            && !session.omit_terminators,
        session.awaiting == Some(Expect::ColumnTerminator) ==> session.column_count > 0
            && !session.omit_terminators,
{
}

/// A server error in answer to the request ends the call with exactly that
/// error and the slot in `Failed`, whatever the capabilities.
pub proof fn lemma_server_error_ends_exchange(session: SessionModel, error: ServerError)
    requires
        session.wf(),
        session.awaiting == Some(Expect::PrepareResponse),
    ensures
        ({
            let step = transition(session, Event::Response(PrepareResponse::Error(error)));
            &&& step == Transition::Failed(PrepareError::Server(error))
            &&& step.phase_after(session.phase()) == ProtocolPhase::Failed
        }),
{
}

/// A failure of the channel ends the call with the channel's own error and
/// leaves the slot as it was: once the request is out, in flight.
pub proof fn lemma_channel_failure_leaves_phase(session: SessionModel, error: sqlx_core::Error)
    requires
        session.wf(),
    ensures
        ({
            let step = transition(session, Event::ChannelFailed(error));
            &&& step == Transition::Failed(PrepareError::Channel(error))
            &&& step.phase_after(session.phase()) == session.phase()
            &&& session.awaiting is Some ==> session.phase().in_flight()
        }),
{
}

/// Along any exchange the phases written to the slot come in strictly
/// ascending order, and all of them after the phase in which the session
/// started: none is written twice.
pub proof fn lemma_exchange_never_revisits_a_phase(session: SessionModel, events: Seq<Event>)
    requires
        session.wf(),
    ensures
        ({
            let phases = run(session, events).phases;
            &&& forall|i: int|
                0 <= i < phases.len() ==> session.phase().precedes(#[trigger] phases[i])
            &&& forall|i: int, j: int|
                0 <= i < j < phases.len() ==> (#[trigger] phases[i]).precedes(#[trigger] phases[j])
            &&& forall|i: int, j: int|
                0 <= i < j < phases.len() ==> #[trigger] phases[i] != #[trigger] phases[j]
        }),
    decreases events.len(),
{
    let phases = run(session, events).phases;
    if events.len() > 0 {
        lemma_step_keeps_sessions_well_formed(session, events[0]);
        lemma_step_moves_phase_forward(session, events[0]);
        if let Transition::Next(next) = transition(session, events[0]) {
            lemma_exchange_never_revisits_a_phase(next, events.skip(1));
            let rest = run(next, events.skip(1)).phases;
            assert(phases =~= seq![next.phase()] + rest);
            assert forall|i: int| 0 <= i < phases.len() implies session.phase().precedes(
                #[trigger] phases[i],
            ) by {
                if i > 0 {
                    assert(phases[i] == rest[i - 1]);
                }
            }
            assert forall|i: int, j: int| 0 <= i < j < phases.len() implies (#[trigger] phases[i])
                .precedes(#[trigger] phases[j]) by {
                assert(phases[j] == rest[j - 1]);
                if i > 0 {
                    assert(phases[i] == rest[i - 1]);
                }
            }
        }
    }
}

/// Whenever a read is asked for, the slot already holds the phase that
/// waits for that packet: the `i`-th read of an exchange answers the `i`-th
/// phase written.
pub proof fn lemma_each_read_is_announced_in_the_slot(session: SessionModel, events: Seq<Event>)
    requires
        session.wf(),
    ensures
        ({
            let replay = run(session, events);
            &&& replay.reads.len() <= replay.phases.len()
            &&& forall|i: int|
                0 <= i < replay.reads.len() ==> (#[trigger] replay.phases[i]).expects() == Some(
                    replay.reads[i],
                )
        }),
    decreases events.len(),
{
    let replay = run(session, events);
    if events.len() > 0 {
        lemma_step_keeps_sessions_well_formed(session, events[0]);
        if let Transition::Next(next) = transition(session, events[0]) {
            lemma_each_read_is_announced_in_the_slot(next, events.skip(1));
            let rest = run(next, events.skip(1));
            assert(replay.phases =~= seq![next.phase()] + rest.phases);
            assert(replay.reads =~= asked(next) + rest.reads);
            assert forall|i: int| 0 <= i < replay.reads.len() implies (#[trigger] replay.phases[i])
                .expects() == Some(replay.reads[i]) by {
                if i > 0 {
                    assert(replay.phases[i] == rest.phases[i - 1]);
                    assert(replay.reads[i] == rest.reads[i - 1]);
                }
            }
        }
    }
}

/// An exchange that has taken all its events without completing or failing
/// is waiting for a packet: its session is well formed, the slot holds the
/// session's phase, and that phase is in flight. Left at that, the
/// connection is not clean.
pub proof fn lemma_interrupted_exchange_is_in_flight(session: SessionModel, events: Seq<Event>)
    requires
        session.wf(),
        events.len() > 0,
    ensures
        ({
            let replay = run(session, events);
            replay.end matches Ending::Pending(waiting) ==> {
                &&& waiting.wf()
                &&& replay.consumed == events.len()
                &&& replay.phases.len() == events.len()
                &&& replay.phases.last() == waiting.phase()
                &&& waiting.phase().in_flight()
            }
        }),
    decreases events.len(),
{
    let replay = run(session, events);
    lemma_step_keeps_sessions_well_formed(session, events[0]);
    if let Transition::Next(next) = transition(session, events[0]) {
        let later = events.skip(1);
        if later.len() > 0 {
            lemma_interrupted_exchange_is_in_flight(next, later);
        }
        assert(replay.phases =~= seq![next.phase()] + run(next, later).phases);
    }
}

/// The countdown of one list of `count` definitions: the phase of each
/// read names how many are still to come, that one included.
pub open spec fn parameter_countdown(count: nat) -> Seq<ProtocolPhase> {
    Seq::new(
        count,
        |i: int| ProtocolPhase::AwaitingParameterDefinition { remaining: (count - i) as u16 },
    )
}

pub open spec fn column_countdown(count: nat) -> Seq<ProtocolPhase> {
    Seq::new(
        count,
        |i: int| ProtocolPhase::AwaitingColumnDefinition { remaining: (count - i) as u16 },
    )
}

/// Whether a list of `count` definitions is closed by a terminator: it is
/// if the list is not empty and the connection did not negotiate that
/// terminators are left out.
pub open spec fn terminated(count: nat, omit_terminators: bool) -> bool {
    count > 0 && !omit_terminators
}

/// `item` once if `present`, else nothing.
pub open spec fn once_if<T>(present: bool, item: T) -> Seq<T> {
    if present {
        seq![item]
    } else {
        Seq::empty()
    }
}

/// The phases in which the packets of a successful exchange are read, in
/// order: the response, the parameters counted down, their terminator, the
/// columns counted down, their terminator.
pub open spec fn phase_plan(parameters: nat, columns: nat, omit_terminators: bool) -> Seq<
    ProtocolPhase,
> {
    seq![ProtocolPhase::AwaitingPrepareResponse] + parameter_countdown(parameters) + once_if(
        terminated(parameters, omit_terminators),
        ProtocolPhase::AwaitingParameterTerminator,
    ) + column_countdown(columns) + once_if(
        terminated(columns, omit_terminators),
        ProtocolPhase::AwaitingColumnTerminator,
    )
}

/// The reads of a successful exchange, in order.
pub open spec fn read_plan(parameters: nat, columns: nat, omit_terminators: bool) -> Seq<Expect> {
    seq![Expect::PrepareResponse] + Seq::new(parameters, |i: int| Expect::ParameterDefinition)
        + once_if(terminated(parameters, omit_terminators), Expect::ParameterTerminator)
        + Seq::new(columns, |i: int| Expect::ColumnDefinition) + once_if(
        terminated(columns, omit_terminators),
        Expect::ColumnTerminator,
    )
}

/// The definitions of one list as the events in which they arrive.
pub open spec fn arriving(definitions: Seq<ColumnDefinition>) -> Seq<Event> {
    Seq::new(definitions.len(), |i: int| Event::Definition(definitions[i]))
}

/// What a server that accepts the statement makes the channel report: the
/// written request, the response, and the two lists, each closed by a
/// terminator where the connection sends one.
pub open spec fn accepted(
    ok: PrepareOk,
    parameters: Seq<ColumnDefinition>,
    columns: Seq<ColumnDefinition>,
    omit_terminators: bool,
) -> Seq<Event> {
    seq![Event::RequestSent, Event::Response(PrepareResponse::Success(ok))] + arriving(parameters)
        + once_if(terminated(parameters.len(), omit_terminators), Event::Terminator) + arriving(
        columns,
    ) + once_if(terminated(columns.len(), omit_terminators), Event::Terminator)
}

/// The types of the given parameter definitions.
pub open spec fn types_of(definitions: Seq<ColumnDefinition>) -> Seq<ParameterTypeInfo> {
    Seq::new(definitions.len(), |i: int| ParameterTypeInfo::of(definitions[i]))
}

/// The given column definitions, numbered from `first` in their order.
pub open spec fn numbered(first: nat, definitions: Seq<ColumnDefinition>) -> Seq<
    ColumnDescriptor,
> {
    Seq::new(
        definitions.len(),
        |i: int| ColumnDescriptor { index: (first + i) as usize, definition: definitions[i] },
    )
}

/// The statement that the two lists of definitions describe.
pub open spec fn described(
    parameters: Seq<ColumnDefinition>,
    columns: Seq<ColumnDefinition>,
) -> StatementView {
    StatementView { parameters: types_of(parameters), columns: numbered(0, columns) }
}

/// The events still to come once `columns` are all that the column list
/// lacks.
spec fn columns_to_come(session: SessionModel, columns: Seq<ColumnDefinition>) -> Seq<Event> {
    arriving(columns) + once_if(
        terminated(session.column_count, session.omit_terminators),
        Event::Terminator,
    )
}

/// The events still to come once `parameters` are all that the parameter
/// list lacks.
spec fn lists_to_come(
    session: SessionModel,
    parameters: Seq<ColumnDefinition>,
    columns: Seq<ColumnDefinition>,
) -> Seq<Event> {
    arriving(parameters) + once_if(
        terminated(session.parameter_count, session.omit_terminators),
        Event::Terminator,
    ) + columns_to_come(session, columns)
}

/// The phases still to be written once `left` columns are missing.
spec fn column_phases_to_come(left: nat, closed: bool) -> Seq<ProtocolPhase> {
    column_countdown(left) + once_if(closed, ProtocolPhase::AwaitingColumnTerminator)
        + seq![ProtocolPhase::Complete]
}

/// The reads still to be asked for once `left` columns are missing.
spec fn column_reads_to_come(left: nat, closed: bool) -> Seq<Expect> {
    Seq::new(left, |i: int| Expect::ColumnDefinition) + once_if(closed, Expect::ColumnTerminator)
}

/// The phases still to be written once `left` parameters and all `columns`
/// are missing.
spec fn phases_to_come(left: nat, closed: bool, columns: nat, columns_closed: bool) -> Seq<
    ProtocolPhase,
> {
    parameter_countdown(left) + once_if(closed, ProtocolPhase::AwaitingParameterTerminator)
        + column_phases_to_come(columns, columns_closed)
}

/// The reads still to be asked for once `left` parameters and all
/// `columns` are missing.
spec fn reads_to_come(left: nat, closed: bool, columns: nat, columns_closed: bool) -> Seq<Expect> {
    Seq::new(left, |i: int| Expect::ParameterDefinition) + once_if(
        closed,
        Expect::ParameterTerminator,
    ) + column_reads_to_come(columns, columns_closed)
}

/// With one more column missing, its countdown phase and its read come
/// first.
proof fn lemma_one_more_column_to_come(left: nat, closed: bool)
    requires
        left > 0,
    ensures
        column_phases_to_come(left, closed) == (seq![
            ProtocolPhase::AwaitingColumnDefinition { remaining: left as u16 },
        ] + column_phases_to_come((left - 1) as nat, closed)),
        column_reads_to_come(left, closed) == seq![Expect::ColumnDefinition]
            + column_reads_to_come((left - 1) as nat, closed),
{
    let fewer = (left - 1) as nat;
    assert(column_countdown(left) =~= seq![
        ProtocolPhase::AwaitingColumnDefinition { remaining: left as u16 },
    ] + column_countdown(fewer));
    assert(Seq::new(left, |i: int| Expect::ColumnDefinition) =~= seq![Expect::ColumnDefinition]
        + Seq::new(fewer, |i: int| Expect::ColumnDefinition));
    assert(column_phases_to_come(left, closed) =~= seq![
        ProtocolPhase::AwaitingColumnDefinition { remaining: left as u16 },
    ] + column_phases_to_come(fewer, closed));
    assert(column_reads_to_come(left, closed) =~= seq![Expect::ColumnDefinition]
        + column_reads_to_come(fewer, closed));
}

/// The same for one more parameter.
proof fn lemma_one_more_parameter_to_come(
    left: nat,
    closed: bool,
    columns: nat,
    columns_closed: bool,
)
    requires
        left > 0,
    ensures
        phases_to_come(left, closed, columns, columns_closed) == (seq![
            ProtocolPhase::AwaitingParameterDefinition { remaining: left as u16 },
        ] + phases_to_come((left - 1) as nat, closed, columns, columns_closed)),
        reads_to_come(left, closed, columns, columns_closed) == seq![Expect::ParameterDefinition]
            + reads_to_come((left - 1) as nat, closed, columns, columns_closed),
{
    let fewer = (left - 1) as nat;
    assert(parameter_countdown(left) =~= seq![
        ProtocolPhase::AwaitingParameterDefinition { remaining: left as u16 },
    ] + parameter_countdown(fewer));
    assert(Seq::new(left, |i: int| Expect::ParameterDefinition) =~= seq![
        Expect::ParameterDefinition,
    ] + Seq::new(fewer, |i: int| Expect::ParameterDefinition));
    assert(phases_to_come(left, closed, columns, columns_closed) =~= seq![
        ProtocolPhase::AwaitingParameterDefinition { remaining: left as u16 },
    ] + phases_to_come(fewer, closed, columns, columns_closed));
    assert(reads_to_come(left, closed, columns, columns_closed) =~= seq![
        Expect::ParameterDefinition,
    ] + reads_to_come(fewer, closed, columns, columns_closed));
}

/// Once no parameter is missing, what is to come is the terminator of the
/// parameters, if they have one, and then what the columns bring.
proof fn lemma_no_parameter_to_come(closed: bool, columns: nat, columns_closed: bool)
    ensures
        phases_to_come(0, closed, columns, columns_closed) == once_if(
            closed,
            ProtocolPhase::AwaitingParameterTerminator,
        ) + column_phases_to_come(columns, columns_closed),
        reads_to_come(0, closed, columns, columns_closed) == once_if(
            closed,
            Expect::ParameterTerminator,
        ) + column_reads_to_come(columns, columns_closed),
{
    assert(phases_to_come(0, closed, columns, columns_closed) =~= once_if(
        closed,
        ProtocolPhase::AwaitingParameterTerminator,
    ) + column_phases_to_come(columns, columns_closed));
    assert(reads_to_come(0, closed, columns, columns_closed) =~= once_if(
        closed,
        Expect::ParameterTerminator,
    ) + column_reads_to_come(columns, columns_closed));
}

/// The plans of a whole exchange are the response followed by what is to
/// come when every definition is missing.
proof fn lemma_plans_begin_with_the_response(parameters: nat, columns: nat, omit: bool)
    ensures
        phase_plan(parameters, columns, omit).push(ProtocolPhase::Complete) == seq![
            ProtocolPhase::AwaitingPrepareResponse,
        ] + phases_to_come(
            parameters,
            terminated(parameters, omit),
            columns,
            terminated(columns, omit),
        ),
        read_plan(parameters, columns, omit) == seq![Expect::PrepareResponse] + reads_to_come(
            parameters,
            terminated(parameters, omit),
            columns,
            terminated(columns, omit),
        ),
{
    assert(phase_plan(parameters, columns, omit).push(ProtocolPhase::Complete) =~= seq![
        ProtocolPhase::AwaitingPrepareResponse,
    ] + phases_to_come(
        parameters,
        terminated(parameters, omit),
        columns,
        terminated(columns, omit),
    ));
    assert(read_plan(parameters, columns, omit) =~= seq![Expect::PrepareResponse] + reads_to_come(
        parameters,
        terminated(parameters, omit),
        columns,
        terminated(columns, omit),
    ));
}

/// From a session whose parameters are complete, the column definitions
/// that are missing, and their terminator, complete the statement.
proof fn lemma_columns_complete(session: SessionModel, columns: Seq<ColumnDefinition>)
    requires
        session.column_count <= u16::MAX,
        session.lists.columns.len() + columns.len() == session.column_count,
    ensures
        ({
            let closed = terminated(session.column_count, session.omit_terminators);
            let replay = follow(session.after_column(), columns_to_come(session, columns));
            &&& replay.phases == column_phases_to_come(columns.len(), closed)
            &&& replay.reads == column_reads_to_come(columns.len(), closed)
            &&& replay.consumed == columns_to_come(session, columns).len()
            &&& replay.end == Ending::Completed(
                StatementView {
                    parameters: session.lists.parameters,
                    columns: session.lists.columns + numbered(
                        session.lists.columns.len(),
                        columns,
                    ),
                },
            )
        }),
    decreases columns.len(),
{
    let closed = terminated(session.column_count, session.omit_terminators);
    let events = columns_to_come(session, columns);
    let replay = follow(session.after_column(), events);
    let lists = StatementView {
        parameters: session.lists.parameters,
        columns: session.lists.columns + numbered(session.lists.columns.len(), columns),
    };
    if columns.len() == 0 {
        assert(lists =~= session.lists);
        if closed {
            // Only the terminator is to come.
            let waiting = SessionModel { awaiting: Some(Expect::ColumnTerminator), ..session };
            assert(events =~= seq![Event::Terminator]);
            assert(events.skip(1) =~= Seq::<Event>::empty());
            assert(transition(waiting, events[0]) == Transition::Done(session.lists));
            let rest = follow(Transition::Done(session.lists), events.skip(1));
            assert(replay.phases =~= seq![waiting.phase()] + rest.phases);
            assert(replay.reads =~= seq![Expect::ColumnTerminator] + rest.reads);
        } else {
            assert(events =~= Seq::<Event>::empty());
        }
        assert(replay.phases =~= column_phases_to_come(0, closed));
        assert(replay.reads =~= column_reads_to_come(0, closed));
    } else {
        // The next column arrives; the others follow by induction.
        let waiting = SessionModel { awaiting: Some(Expect::ColumnDefinition), ..session };
        let extended = SessionModel {
            lists: waiting.lists.with_column(columns[0]),
            ..waiting
        };
        let later = columns.skip(1);
        assert(events[0] == Event::Definition(columns[0]));
        assert(events.skip(1) =~= columns_to_come(extended, later));
        assert(transition(waiting, events[0]) == extended.after_column());
        lemma_columns_complete(extended, later);
        let rest = follow(extended.after_column(), columns_to_come(extended, later));
        assert(replay.phases =~= seq![waiting.phase()] + rest.phases);
        assert(replay.reads =~= seq![Expect::ColumnDefinition] + rest.reads);
        lemma_one_more_column_to_come(columns.len(), closed);
        assert(extended.lists.columns + numbered(extended.lists.columns.len(), later)
            =~= lists.columns);
    }
    assert(replay.end == Ending::Completed(lists));
}

/// From a session that has no column yet, the parameter definitions that
/// are missing, their terminator, and the whole column list complete the
/// statement.
proof fn lemma_lists_complete(
    session: SessionModel,
    parameters: Seq<ColumnDefinition>,
    columns: Seq<ColumnDefinition>,
)
    requires
        session.parameter_count <= u16::MAX,
        session.column_count <= u16::MAX,
        session.lists.parameters.len() + parameters.len() == session.parameter_count,
        session.lists.columns.len() == 0,
        columns.len() == session.column_count,
    ensures
        ({
            let omit = session.omit_terminators;
            let closed = terminated(session.parameter_count, omit);
            let columns_closed = terminated(session.column_count, omit);
            let events = lists_to_come(session, parameters, columns);
            let replay = follow(session.after_parameter(), events);
            &&& replay.phases == phases_to_come(
                parameters.len(),
                closed,
                columns.len(),
                columns_closed,
            )
            &&& replay.reads == reads_to_come(
                parameters.len(),
                closed,
                columns.len(),
                columns_closed,
            )
            &&& replay.consumed == events.len()
            &&& replay.end == Ending::Completed(
                StatementView {
                    parameters: session.lists.parameters + types_of(parameters),
                    columns: numbered(0, columns),
                },
            )
        }),
    decreases parameters.len(),
{
    let omit = session.omit_terminators;
    let closed = terminated(session.parameter_count, omit);
    let columns_closed = terminated(session.column_count, omit);
    let events = lists_to_come(session, parameters, columns);
    let replay = follow(session.after_parameter(), events);
    let lists = StatementView {
        parameters: session.lists.parameters + types_of(parameters),
        columns: numbered(0, columns),
    };
    if parameters.len() == 0 {
        // The parameters are complete: their terminator, if any, and then
        // the columns.
        assert(session.lists.parameters + types_of(parameters) =~= session.lists.parameters);
        assert(session.lists.columns + numbered(0, columns) =~= numbered(0, columns));
        lemma_columns_complete(session, columns);
        lemma_no_parameter_to_come(closed, columns.len(), columns_closed);
        let rest = follow(session.after_column(), columns_to_come(session, columns));
        if closed {
            let waiting = SessionModel { awaiting: Some(Expect::ParameterTerminator), ..session };
            assert(events =~= seq![Event::Terminator] + columns_to_come(session, columns));
            assert(events.skip(1) =~= columns_to_come(session, columns));
            assert(transition(waiting, events[0]) == session.after_column());
            assert(replay.phases =~= seq![waiting.phase()] + rest.phases);
            assert(replay.reads =~= seq![Expect::ParameterTerminator] + rest.reads);
        } else {
            assert(events =~= columns_to_come(session, columns));
            assert(replay.phases =~= rest.phases);
            assert(replay.reads =~= rest.reads);
        }
    } else {
        // The next parameter arrives; the others follow by induction.
        let waiting = SessionModel { awaiting: Some(Expect::ParameterDefinition), ..session };
        let extended = SessionModel {
            lists: waiting.lists.with_parameter(parameters[0]),
            ..waiting
        };
        let later = parameters.skip(1);
        assert(events[0] == Event::Definition(parameters[0]));
        assert(events.skip(1) =~= lists_to_come(extended, later, columns));
        assert(transition(waiting, events[0]) == extended.after_parameter());
        lemma_lists_complete(extended, later, columns);
        let rest = follow(extended.after_parameter(), lists_to_come(extended, later, columns));
        assert(replay.phases =~= seq![waiting.phase()] + rest.phases);
        assert(replay.reads =~= seq![Expect::ParameterDefinition] + rest.reads);
        lemma_one_more_parameter_to_come(parameters.len(), closed, columns.len(), columns_closed);
        assert(extended.lists.parameters + types_of(later) =~= lists.parameters);
    }
    assert(replay.end == Ending::Completed(lists));
}

/// The replay of an exchange in which the server accepts the statement.
pub open spec fn accepted_run(
    omit_terminators: bool,
    ok: PrepareOk,
    parameters: Seq<ColumnDefinition>,
    columns: Seq<ColumnDefinition>,
) -> Run {
    run(
        SessionModel::initial(omit_terminators),
        accepted(ok, parameters, columns, omit_terminators),
    )
}

/// Whatever the counts that the response announces, and whatever the
/// definitions hold, an accepted statement is prepared in exactly the
/// planned steps.
///
/// The reads are the response, one per parameter, the parameter terminator
/// if there is a parameter and terminators are sent, one per column, and
/// the column terminator if there is a column and terminators are sent, in
/// that order. The slot holds the planned phase during each read and
/// `Complete` at the end. Every event is taken: with the request that makes
/// `2 + parameters + columns` packets and one more for each terminator. The
/// statement holds the type of each parameter in order and each column
/// under the position at which it arrived.
pub proof fn theorem_accepted_statement_is_prepared(
    omit_terminators: bool,
    ok: PrepareOk,
    parameters: Seq<ColumnDefinition>,
    columns: Seq<ColumnDefinition>,
)
    requires
        parameters.len() == ok.parameter_count,
        columns.len() == ok.column_count,
    ensures
        ({
            let replay = accepted_run(omit_terminators, ok, parameters, columns);
            &&& replay.reads == read_plan(parameters.len(), columns.len(), omit_terminators)
            &&& replay.phases == phase_plan(
                parameters.len(),
                columns.len(),
                omit_terminators,
            ).push(ProtocolPhase::Complete)
            &&& replay.consumed == accepted(ok, parameters, columns, omit_terminators).len()
            &&& replay.consumed == 2 + parameters.len() + columns.len() + (if terminated(
                parameters.len(),
                omit_terminators,
            ) {
                1nat
            } else {
                0nat
            }) + (if terminated(columns.len(), omit_terminators) {
                1nat
            } else {
                0nat
            })
            &&& replay.end == Ending::Completed(described(parameters, columns))
        }),
{
    let events = accepted(ok, parameters, columns, omit_terminators);
    let initial = SessionModel::initial(omit_terminators);
    let replay = run(initial, events);
    let sent = SessionModel { awaiting: Some(Expect::PrepareResponse), ..initial };
    let announced = SessionModel {
        parameter_count: ok.parameter_count as nat,
        column_count: ok.column_count as nat,
        ..sent
    };
    let to_come = lists_to_come(announced, parameters, columns);
    // The request is written, the response announces the counts, and the
    // lists arrive.
    assert(events =~= seq![Event::RequestSent, Event::Response(PrepareResponse::Success(ok))]
        + to_come);
    assert(events.skip(1) =~= seq![Event::Response(PrepareResponse::Success(ok))] + to_come);
    assert(events.skip(1).skip(1) =~= to_come);
    assert(transition(initial, events[0]) == Transition::Next(sent));
    assert(transition(sent, events.skip(1)[0]) == announced.after_parameter());
    lemma_lists_complete(announced, parameters, columns);
    lemma_plans_begin_with_the_response(parameters.len(), columns.len(), omit_terminators);
    let rest = follow(announced.after_parameter(), to_come);
    let answered = run(sent, events.skip(1));
    assert(answered.phases =~= rest.phases);
    assert(answered.reads =~= rest.reads);
    assert(replay.phases =~= seq![ProtocolPhase::AwaitingPrepareResponse] + rest.phases);
    assert(replay.reads =~= seq![Expect::PrepareResponse] + rest.reads);
    assert(announced.lists.parameters + types_of(parameters) =~= types_of(parameters));
    assert(replay.end == Ending::Completed(described(parameters, columns)));
}

/// How often `item` stands in `items`.
pub open spec fn occurrences<T>(items: Seq<T>, item: T) -> nat
    decreases items.len(),
{
    if items.len() == 0 {
        0
    } else {
        occurrences(items.drop_last(), item) + (if items.last() == item {
            1nat
        } else {
            0nat
        })
    }
}

proof fn lemma_occurrences_add<T>(front: Seq<T>, back: Seq<T>, item: T)
    ensures
        occurrences(front + back, item) == occurrences(front, item) + occurrences(back, item),
    decreases back.len(),
{
    if back.len() == 0 {
        assert(front + back =~= front);
    } else {
        assert((front + back).drop_last() =~= front + back.drop_last());
        lemma_occurrences_add(front, back.drop_last(), item);
    }
}

proof fn lemma_occurrences_repeated<T>(count: nat, repeated: T, item: T)
    ensures
        occurrences(Seq::new(count, |i: int| repeated), item) == (if repeated == item {
            count
        } else {
            0
        }),
    decreases count,
{
    if count > 0 {
        let shorter = (count - 1) as nat;
        assert(Seq::new(count, |i: int| repeated).drop_last() =~= Seq::new(
            shorter,
            |i: int| repeated,
        ));
        lemma_occurrences_repeated(shorter, repeated, item);
    }
}

proof fn lemma_occurrences_once_if<T>(present: bool, single: T, item: T)
    ensures
        occurrences(once_if(present, single), item) == (if present && single == item {
            1nat
        } else {
            0nat
        }),
{
    reveal_with_fuel(occurrences, 2);
    if present {
        assert(seq![single].drop_last() =~= Seq::<T>::empty());
    }
}

proof fn lemma_plan_reads_each_packet_once(parameters: nat, columns: nat, omit_terminators: bool)
    ensures
        ({
            let plan = read_plan(parameters, columns, omit_terminators);
            &&& occurrences(plan, Expect::PrepareResponse) == 1
            &&& occurrences(plan, Expect::ParameterDefinition) == parameters
            &&& occurrences(plan, Expect::ColumnDefinition) == columns
            &&& occurrences(plan, Expect::ParameterTerminator) == (if terminated(
                parameters,
                omit_terminators,
            ) {
                1nat
            } else {
                0nat
            })
            &&& occurrences(plan, Expect::ColumnTerminator) == (if terminated(
                columns,
                omit_terminators,
            ) {
                1nat
            } else {
                0nat
            })
        }),
{
    let response = seq![Expect::PrepareResponse];
    let parameter_reads = Seq::new(parameters, |i: int| Expect::ParameterDefinition);
    let parameter_end = once_if(
        terminated(parameters, omit_terminators),
        Expect::ParameterTerminator,
    );
    let column_reads = Seq::new(columns, |i: int| Expect::ColumnDefinition);
    let column_end = once_if(terminated(columns, omit_terminators), Expect::ColumnTerminator);
    assert(response =~= once_if(true, Expect::PrepareResponse));
    assert forall|item: Expect|
        occurrences(#[trigger] read_plan(parameters, columns, omit_terminators), item)
            == occurrences(response, item) + occurrences(parameter_reads, item) + occurrences(
            parameter_end,
            item,
        ) + occurrences(column_reads, item) + occurrences(column_end, item) by {
        lemma_occurrences_add(response, parameter_reads, item);
        lemma_occurrences_add(response + parameter_reads, parameter_end, item);
        lemma_occurrences_add(response + parameter_reads + parameter_end, column_reads, item);
        lemma_occurrences_add(
            response + parameter_reads + parameter_end + column_reads,
            column_end,
            item,
        );
    }
    assert forall|item: Expect|
        occurrences(response, item) == (if item == Expect::PrepareResponse {
            1nat
        } else {
            0nat
        }) && occurrences(parameter_reads, item) == (if item == Expect::ParameterDefinition {
            parameters
        } else {
            0nat
        }) && occurrences(column_reads, item) == (if item == Expect::ColumnDefinition {
            columns
        } else {
            0nat
        }) && occurrences(parameter_end, item) == (if terminated(parameters, omit_terminators)
            && item == Expect::ParameterTerminator {
            1nat
        } else {
            0nat
        }) && #[trigger] occurrences(column_end, item) == (if terminated(
            columns,
            omit_terminators,
        ) && item == Expect::ColumnTerminator {
            1nat
        } else {
            0nat
        }) by {
        lemma_occurrences_once_if(true, Expect::PrepareResponse, item);
        lemma_occurrences_repeated(parameters, Expect::ParameterDefinition, item);
        lemma_occurrences_repeated(columns, Expect::ColumnDefinition, item);
        lemma_occurrences_once_if(
            terminated(parameters, omit_terminators),
            Expect::ParameterTerminator,
            item,
        );
        lemma_occurrences_once_if(
            terminated(columns, omit_terminators),
            Expect::ColumnTerminator,
            item,
        );
    }
}

/// An accepted statement costs exactly one read of the response, one
/// definition read for each parameter and for each column, and one
/// terminator read for each list that is not empty, unless the connection
/// omits terminators.
pub proof fn lemma_each_packet_is_read_once(
    omit_terminators: bool,
    ok: PrepareOk,
    parameters: Seq<ColumnDefinition>,
    columns: Seq<ColumnDefinition>,
)
    requires
        parameters.len() == ok.parameter_count,
        columns.len() == ok.column_count,
    ensures
        ({
            let reads = accepted_run(omit_terminators, ok, parameters, columns).reads;
            &&& occurrences(reads, Expect::PrepareResponse) == 1
            &&& occurrences(reads, Expect::ParameterDefinition) == ok.parameter_count
            &&& occurrences(reads, Expect::ColumnDefinition) == ok.column_count
            &&& occurrences(reads, Expect::ParameterTerminator) == (if ok.parameter_count > 0
                && !omit_terminators {
                1nat
            } else {
                0nat
            })
            &&& occurrences(reads, Expect::ColumnTerminator) == (if ok.column_count > 0
                && !omit_terminators {
                1nat
            } else {
                0nat
            })
        }),
{
    theorem_accepted_statement_is_prepared(omit_terminators, ok, parameters, columns);
    lemma_plan_reads_each_packet_once(parameters.len(), columns.len(), omit_terminators);
}

/// During the `k`-th parameter read, `k` counted from one, the slot holds
/// the parameter countdown at `parameter_count - k + 1`. A countdown phase
/// never reads zero: after the last definition the phase moves on, to the
/// terminator if one is sent.
pub proof fn lemma_parameter_reads_count_down(
    omit_terminators: bool,
    ok: PrepareOk,
    parameters: Seq<ColumnDefinition>,
    columns: Seq<ColumnDefinition>,
    k: int,
)
    requires
        parameters.len() == ok.parameter_count,
        columns.len() == ok.column_count,
        1 <= k <= ok.parameter_count,
    ensures
        ({
            let replay = accepted_run(omit_terminators, ok, parameters, columns);
            &&& replay.reads[k] == Expect::ParameterDefinition
            &&& replay.phases[k] == ProtocolPhase::AwaitingParameterDefinition {
                remaining: (ok.parameter_count - k + 1) as u16,
            }
            &&& replay.phases[k].remaining() == ok.parameter_count - k + 1
            &&& forall|i: int|
                0 <= i < replay.phases.len() ==> ((#[trigger] replay.phases[i]).remaining() == 0
                    <==> !(replay.phases[i] is AwaitingParameterDefinition
                    || replay.phases[i] is AwaitingColumnDefinition))
            &&& ok.parameter_count > 0 && !omit_terminators ==> replay.phases[ok.parameter_count
                + 1] == ProtocolPhase::AwaitingParameterTerminator
        }),
{
    theorem_accepted_statement_is_prepared(omit_terminators, ok, parameters, columns);
}

/// The columns of the prepared statement are the definitions in the order
/// in which they arrived, each under its zero-based position; the numbers
/// owe nothing to what the definitions hold.
pub proof fn lemma_columns_keep_arrival_order(
    omit_terminators: bool,
    ok: PrepareOk,
    parameters: Seq<ColumnDefinition>,
    columns: Seq<ColumnDefinition>,
)
    requires
        parameters.len() == ok.parameter_count,
        columns.len() == ok.column_count,
    ensures
        ({
            let replay = accepted_run(omit_terminators, ok, parameters, columns);
            &&& replay.end matches Ending::Completed(statement)
            &&& statement.parameters.len() == ok.parameter_count
            &&& statement.columns.len() == ok.column_count
            &&& forall|i: int|
                0 <= i < ok.column_count ==> (#[trigger] statement.columns[i]).index == i
                    && statement.columns[i].definition == columns[i]
            &&& forall|i: int|
                0 <= i < ok.parameter_count ==> #[trigger] statement.parameters[i]
                    == ParameterTypeInfo::of(parameters[i])
        }),
{
    theorem_accepted_statement_is_prepared(omit_terminators, ok, parameters, columns);
}

/// If the server answers the request with an error, the call returns that
/// error and the slot ends in `Failed`. The response is the only packet
/// read: whatever else the channel might report is never asked for, with
/// or without terminators.
pub proof fn theorem_rejected_statement_reads_nothing_more(
    omit_terminators: bool,
    error: ServerError,
    later: Seq<Event>,
)
    ensures
        ({
            let events = seq![
                Event::RequestSent,
                Event::Response(PrepareResponse::Error(error)),
            ] + later;
            let replay = run(SessionModel::initial(omit_terminators), events);
            &&& replay.reads == seq![Expect::PrepareResponse]
            &&& replay.phases == seq![
                ProtocolPhase::AwaitingPrepareResponse,
                ProtocolPhase::Failed,
            ]
            &&& replay.consumed == 2
            &&& replay.end == Ending::Failed(PrepareError::Server(error))
        }),
{
    let events = seq![Event::RequestSent, Event::Response(PrepareResponse::Error(error))] + later;
    let initial = SessionModel::initial(omit_terminators);
    let replay = run(initial, events);
    let sent = SessionModel { awaiting: Some(Expect::PrepareResponse), ..initial };
    assert(transition(initial, events[0]) == Transition::Next(sent));
    assert(transition(sent, events.skip(1)[0]) == Transition::Failed(PrepareError::Server(error)));
    let answered = run(sent, events.skip(1));
    assert(answered.phases =~= seq![ProtocolPhase::Failed]);
    assert(replay.phases =~= seq![ProtocolPhase::AwaitingPrepareResponse] + answered.phases);
    assert(replay.reads =~= seq![Expect::PrepareResponse] + answered.reads);
}

/// On a connection that negotiated the omission of terminators none is
/// ever read, however many parameters and columns there are.
pub proof fn lemma_no_terminator_read_when_omitted(
    ok: PrepareOk,
    parameters: Seq<ColumnDefinition>,
    columns: Seq<ColumnDefinition>,
)
    requires
        parameters.len() == ok.parameter_count,
        columns.len() == ok.column_count,
    ensures
        ({
            let replay = accepted_run(true, ok, parameters, columns);
            &&& replay.consumed == 2 + ok.parameter_count + ok.column_count
            &&& replay.reads.len() == 1 + ok.parameter_count + ok.column_count
            &&& forall|i: int|
                0 <= i < replay.reads.len() ==> #[trigger] replay.reads[i]
                    != Expect::ParameterTerminator && replay.reads[i] != Expect::ColumnTerminator
        }),
{
    theorem_accepted_statement_is_prepared(true, ok, parameters, columns);
}

} // verus!

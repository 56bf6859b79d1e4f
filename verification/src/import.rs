//! The bulk import: many measurements recorded in one transaction, all of them
//! or none.
//!
//! [`import_data`] is one step of the import. It takes where the import stands
//! and the store's reply to the statement sent last, and says what to send
//! next, or what to answer. A driver sends the statements until the step
//! answers. [`import_into`] is that driver for a [`Table`].
use crate::decimal::{storage_decimal_of, to_storage_decimal, Decimal, DecimalView};
use crate::instant::{storage_instant_of, to_storage_instant, StorageInstant};
use crate::masses::{Failure, INTERNAL_SERVER_ERROR, OK};
use crate::models::{ImportMasses, ImportPayload, OwnerIdentity};
use crate::storage::{Reply, ReplyView, Statement, StatementView, StoredRowView};
use crate::table::{keys_given, Table, TableView, MAX_ID};
use vstd::prelude::*;

verus! {

/// Where an import stands.
#[derive(Clone, Copy, Debug, PartialEq, Eq)]
pub enum ImportState {
    /// Nothing was sent yet.
    Start,
    /// The transaction is being opened.
    Opening,
    /// The measurement at this place of the payload is being recorded.
    Inserting(usize),
    /// The transaction is being committed.
    Committing,
    /// The transaction is being rolled back.
    RollingBack,
    /// The import was answered with this status.
    Finished(u16),
}

/// What the driver of an import does next.
#[derive(Debug, PartialEq, Eq)]
pub enum ImportAction {
    /// Send the statement, and come back with the reply.
    Run(Statement),
    /// Answer the request with the status.
    Respond(u16),
}

/// An [`ImportAction`] with the mass of its statement as a number.
pub enum ImportActionView {
    Run(StatementView),
    Respond(u16),
}

impl View for ImportAction {
    type V = ImportActionView;

    open spec fn view(&self) -> ImportActionView {
        match *self {
            ImportAction::Run(statement) => ImportActionView::Run(statement@),
            ImportAction::Respond(status) => ImportActionView::Respond(status),
        }
    }
}

/// The statement that records `record` for `owner`.
pub open spec fn import_statement_of(
    owner: OwnerIdentity,
    record: ImportMasses,
    expansion: Option<DecimalView>,
) -> Result<StatementView, Failure> {
    match storage_instant_of(record.measurement_timestamp) {
        Err(failure) => Err(Failure::TemporalConversionFailure(failure)),
        Ok(measurement_timestamp) => match storage_instant_of(record.created_at) {
            Err(failure) => Err(Failure::TemporalConversionFailure(failure)),
            Ok(created_at) => Ok(
                StatementView::InsertDated {
                    user_id: owner.user_id,
                    mass_kg: storage_decimal_of(record.mass_kg, expansion),
                    measurement_timestamp,
                    created_at,
                },
            ),
        },
    }
}

/// The step that records the measurement at `index`, or that closes the
/// transaction: it is committed when no measurement is left, and rolled back
/// when the measurement cannot be recorded, or when the expansions are not one
/// for each measurement.
pub open spec fn record_step(
    owner: OwnerIdentity,
    records: Seq<ImportMasses>,
    expansions: Seq<Option<DecimalView>>,
    index: int,
) -> (ImportState, ImportActionView) {
    if expansions.len() != records.len() {
        (ImportState::RollingBack, ImportActionView::Run(StatementView::Rollback))
    } else if index < 0 || index >= records.len() {
        (ImportState::Committing, ImportActionView::Run(StatementView::Commit))
    } else {
        match import_statement_of(owner, records[index], expansions[index]) {
            Ok(statement) => (
                ImportState::Inserting(index as usize),
                ImportActionView::Run(statement),
            ),
            Err(_) => (ImportState::RollingBack, ImportActionView::Run(StatementView::Rollback)),
        }
    }
}

/// One step of an import: where it stands next, and what the driver does.
///
/// An import whose expansions are not one for each measurement is refused
/// before anything is sent: no mass is stored without its expansion.
pub open spec fn import_step(
    owner: OwnerIdentity,
    records: Seq<ImportMasses>,
    expansions: Seq<Option<DecimalView>>,
    state: ImportState,
    reply: Option<ReplyView>,
) -> (ImportState, ImportActionView) {
    let failed = (
        ImportState::Finished(INTERNAL_SERVER_ERROR),
        ImportActionView::Respond(INTERNAL_SERVER_ERROR),
    );
    match state {
        ImportState::Start => if expansions.len() == records.len() {
            (ImportState::Opening, ImportActionView::Run(StatementView::Begin))
        } else {
            failed
        },
        ImportState::Opening => if reply == Some(ReplyView::Done) {
            record_step(owner, records, expansions, 0)
        } else {
            failed
        },
        ImportState::Inserting(index) => if reply == Some(ReplyView::Affected(1)) {
            record_step(owner, records, expansions, index + 1)
        } else {
            (ImportState::RollingBack, ImportActionView::Run(StatementView::Rollback))
        },
        ImportState::Committing => if reply == Some(ReplyView::Done) {
            (ImportState::Finished(OK), ImportActionView::Respond(OK))
        } else {
            failed
        },
        ImportState::RollingBack => failed,
        ImportState::Finished(status) => (
            ImportState::Finished(status),
            ImportActionView::Respond(status),
        ),
    }
}

/// Builds the statement that records one measurement of an import for `owner`,
/// with the instant of its recording as the payload gives it.
///
/// `expansion` is what the decimal library made of the mass. An instant that
/// cannot be converted fails the measurement, and with it the import.
pub fn import_statement(
    owner: OwnerIdentity,
    record: &ImportMasses,
    expansion: Option<Decimal>,
) -> (built: Result<Statement, Failure>)
    ensures
        crate::masses::statement_view(built) == import_statement_of(
            owner,
            *record,
            expansion.deep_view(),
        ),
        built is Ok <==> record.measurement_timestamp.supported() && record.created_at.supported(),
{
    let measurement_timestamp = match to_storage_instant(record.measurement_timestamp) {
        Ok(stored) => stored,
        Err(failure) => {
            return Err(Failure::TemporalConversionFailure(failure));
        },
    };
    let created_at = match to_storage_instant(record.created_at) {
        Ok(stored) => stored,
        Err(failure) => {
            return Err(Failure::TemporalConversionFailure(failure));
        },
    };
    Ok(
        Statement::InsertDated {
            user_id: owner.user_id,
            mass_kg: to_storage_decimal(record.mass_kg, expansion),
            measurement_timestamp,
            created_at,
        },
    )
}

/// The step that records the measurement at `index`, or closes the
/// transaction.
fn record(
    owner: OwnerIdentity,
    payload: &ImportPayload,
    expansions: &Vec<Option<Decimal>>,
    index: usize,
) -> (next: (ImportState, ImportAction))
    ensures
        (next.0, next.1@) == record_step(
            owner,
            payload.masses@,
            expansions.deep_view(),
            index as int,
        ),
{
    if expansions.len() != payload.masses.len() {
        return (ImportState::RollingBack, ImportAction::Run(Statement::Rollback));
    }
    if index >= payload.masses.len() {
        return (ImportState::Committing, ImportAction::Run(Statement::Commit));
    }
    let expansion = match &expansions[index] {
        Some(decimal) => Some(decimal.clone()),
        None => None,
    };
    match import_statement(owner, &payload.masses[index], expansion) {
        Ok(statement) => (ImportState::Inserting(index), ImportAction::Run(statement)),
        Err(_) => (ImportState::RollingBack, ImportAction::Run(Statement::Rollback)),
    }
}

/// Takes one step of the import of `payload` for `owner`.
///
/// `expansions` holds, for each measurement of the payload and at its place,
/// what the decimal library made of its mass. `reply` is the store's reply to
/// the statement that the step before asked for; the first step has none.
///
/// The import opens a transaction, records the measurements in their order
/// and commits. When a measurement cannot be recorded, it rolls the
/// transaction back and answers [`INTERNAL_SERVER_ERROR`]; it answers [`OK`]
/// only once the store has committed. Expansions that are not one for each
/// measurement fail the import before it sends anything.
pub fn import_data(
    owner: OwnerIdentity,
    payload: &ImportPayload,
    expansions: &Vec<Option<Decimal>>,
    state: ImportState,
    reply: Option<Reply>,
) -> (next: (ImportState, ImportAction))
    ensures
        (next.0, next.1@) == import_step(
            owner,
            payload.masses@,
            expansions.deep_view(),
            state,
            reply.deep_view(),
        ),
{
    match state {
        ImportState::Start => {
            if expansions.len() == payload.masses.len() {
                (ImportState::Opening, ImportAction::Run(Statement::Begin))
            } else {
                (
                    ImportState::Finished(INTERNAL_SERVER_ERROR),
                    ImportAction::Respond(INTERNAL_SERVER_ERROR),
                )
            }
        },
        ImportState::Opening => match reply {
            Some(Reply::Done) => record(owner, payload, expansions, 0),
            _ => (
                ImportState::Finished(INTERNAL_SERVER_ERROR),
                ImportAction::Respond(INTERNAL_SERVER_ERROR),
            ),
        },
        ImportState::Inserting(index) => match reply {
            Some(Reply::Affected(1)) => {
                if index < payload.masses.len() {
                    record(owner, payload, expansions, index + 1)
                } else {
                    record(owner, payload, expansions, index)
                }
            },
            _ => (ImportState::RollingBack, ImportAction::Run(Statement::Rollback)),
        },
        ImportState::Committing => match reply {
            Some(Reply::Done) => (ImportState::Finished(OK), ImportAction::Respond(OK)),
            _ => (
                ImportState::Finished(INTERNAL_SERVER_ERROR),
                ImportAction::Respond(INTERNAL_SERVER_ERROR),
            ),
        },
        ImportState::RollingBack => (
            ImportState::Finished(INTERNAL_SERVER_ERROR),
            ImportAction::Respond(INTERNAL_SERVER_ERROR),
        ),
        ImportState::Finished(status) => (
            ImportState::Finished(status),
            ImportAction::Respond(status),
        ),
    }
}

/// The row that the store adds for the measurement at `index` of an import
/// that found `first_id` as the next key. Its instants are those of the
/// measurement, to the nanosecond.
pub open spec fn imported_row(
    first_id: int,
    owner: OwnerIdentity,
    records: Seq<ImportMasses>,
    expansions: Seq<Option<DecimalView>>,
    index: int,
) -> StoredRowView {
    StoredRowView {
        id: (first_id + index) as i32,
        user_id: owner.user_id,
        mass_kg: storage_decimal_of(records[index].mass_kg, expansions[index]),
        measurement_timestamp: StorageInstant {
            unix_nanos: records[index].measurement_timestamp.unix_nanos() as i128,
        },
        created_at: StorageInstant { unix_nanos: records[index].created_at.unix_nanos() as i128 },
    }
}

/// `rows` with the first `count` measurements of an import added.
pub open spec fn imported_rows(
    rows: Map<i32, StoredRowView>,
    first_id: int,
    owner: OwnerIdentity,
    records: Seq<ImportMasses>,
    expansions: Seq<Option<DecimalView>>,
    count: int,
) -> Map<i32, StoredRowView>
    decreases count,
{
    if count <= 0 {
        rows
    } else {
        imported_rows(rows, first_id, owner, records, expansions, count - 1).insert(
            (first_id + count - 1) as i32,
            imported_row(first_id, owner, records, expansions, count - 1),
        )
    }
}

/// What an import adds: one row for each of the first `count` measurements,
/// under keys that no row had, and nothing else. Every row that was there
/// stays as it was.
pub proof fn imported_rows_hold_the_records(
    rows: Map<i32, StoredRowView>,
    first_id: int,
    owner: OwnerIdentity,
    records: Seq<ImportMasses>,
    expansions: Seq<Option<DecimalView>>,
    count: int,
)
    requires
        keys_given(rows, first_id),
        0 <= count,
        1 <= first_id,
        first_id + count <= MAX_ID + 1,
    ensures
        forall|id: i32|
            imported_rows(rows, first_id, owner, records, expansions, count).contains_key(id) <==> (
            rows.contains_key(id) || first_id <= id < first_id + count),
        forall|id: i32| #[trigger]
            rows.contains_key(id) ==> imported_rows(
                rows,
                first_id,
                owner,
                records,
                expansions,
                count,
            )[id] == rows[id],
        forall|k: int|
            0 <= k < count ==> imported_rows(rows, first_id, owner, records, expansions, count)[(
            first_id + k) as i32] == #[trigger] imported_row(
                first_id,
                owner,
                records,
                expansions,
                k,
            ),
    decreases count,
{
    if count > 0 {
        imported_rows_hold_the_records(rows, first_id, owner, records, expansions, count - 1);
    }
}

/// The import of `records` into `table` goes through: the expansions are one
/// for each measurement, no transaction is open, the store fails none of the
/// statements, every instant can be converted, and the store has a key left for
/// every measurement.
pub open spec fn import_succeeds(
    table: TableView,
    records: Seq<ImportMasses>,
    expansions: Seq<Option<DecimalView>>,
) -> bool {
    &&& expansions.len() == records.len()
    &&& !table.in_transaction()
    &&& table.fault matches Some(count) ==> count >= records.len() + 2
    &&& forall|k: int|
        0 <= k < records.len() ==> (#[trigger] records[k]).measurement_timestamp.supported()
            && records[k].created_at.supported()
    &&& table.next_id + records.len() <= MAX_ID + 1
}

/// The store has carried out `count` statements since it was in the state
/// `start`, and failed none.
spec fn carried_out(start: TableView, now: TableView, count: int) -> bool {
    match start.fault {
        None => now.fault is None,
        Some(budget) => budget >= count && now.fault == Some((budget - count) as nat),
    }
}

/// What holds between two steps of an import that began in the state `start`:
/// `table` is the store after the statement sent last, `reply` its reply.
spec fn import_holds(
    start: TableView,
    owner: OwnerIdentity,
    records: Seq<ImportMasses>,
    expansions: Seq<Option<DecimalView>>,
    state: ImportState,
    reply: Option<ReplyView>,
    table: TableView,
) -> bool {
    let size = records.len() as int;
    match state {
        ImportState::Start => reply is None && table == start,
        ImportState::Opening => if reply == Some(ReplyView::Done) {
            &&& expansions.len() == size
            &&& start.saved is None
            &&& table.saved == Some(start.rows)
            &&& table.rows == start.rows
            &&& table.next_id == start.next_id
            &&& carried_out(start, table, 1)
        } else {
            &&& table.rows == start.rows
            &&& table.saved == start.saved
            &&& !import_succeeds(start, records, expansions)
        },
        ImportState::Inserting(index) => {
            &&& expansions.len() == size
            &&& index < size
            &&& start.saved is None
            &&& table.saved == Some(start.rows)
            &&& forall|k: int|
                0 <= k <= index ==> (#[trigger] records[k]).measurement_timestamp.supported()
                    && records[k].created_at.supported()
            &&& if reply == Some(ReplyView::Affected(1)) {
                &&& table.rows == imported_rows(
                    start.rows,
                    start.next_id,
                    owner,
                    records,
                    expansions,
                    index + 1,
                )
                &&& table.next_id == start.next_id + index + 1
                &&& carried_out(start, table, index + 2)
            } else {
                !import_succeeds(start, records, expansions)
            }
        },
        ImportState::Committing => {
            &&& start.saved is None
            &&& table.saved is None
            &&& if reply == Some(ReplyView::Done) {
                &&& table.rows == imported_rows(
                    start.rows,
                    start.next_id,
                    owner,
                    records,
                    expansions,
                    size,
                )
                &&& table.next_id == start.next_id + size
                &&& carried_out(start, table, size + 2)
                &&& import_succeeds(start, records, expansions)
            } else {
                &&& table.rows == start.rows
                &&& !import_succeeds(start, records, expansions)
            }
        },
        ImportState::RollingBack => {
            &&& start.saved is None
            &&& table.saved is None
            &&& table.rows == start.rows
            &&& !import_succeeds(start, records, expansions)
        },
        ImportState::Finished(_) => false,
    }
}

/// How many steps an import in `state` has before it, at most.
spec fn steps_left(state: ImportState, size: int) -> int {
    match state {
        ImportState::Start => size + 4,
        ImportState::Opening => size + 3,
        ImportState::Inserting(index) => size + 2 - index,
        ImportState::Committing => 1,
        ImportState::RollingBack => 1,
        ImportState::Finished(_) => 0,
    }
}

/// A step that sends a statement keeps what holds between steps.
proof fn lemma_import_runs(
    start: TableView,
    owner: OwnerIdentity,
    records: Seq<ImportMasses>,
    expansions: Seq<Option<DecimalView>>,
    state: ImportState,
    reply: Option<ReplyView>,
    table: TableView,
    now: StorageInstant,
    answer: ReplyView,
)
    requires
        table.well_formed(),
        records.len() <= usize::MAX,
        import_holds(start, owner, records, expansions, state, reply, table),
        import_step(owner, records, expansions, state, reply).1 is Run,
        table.answers(import_step(owner, records, expansions, state, reply).1->Run_0, now, answer),
    ensures
        import_holds(
            start,
            owner,
            records,
            expansions,
            import_step(owner, records, expansions, state, reply).0,
            Some(answer),
            table.effect(import_step(owner, records, expansions, state, reply).1->Run_0, now),
        ),
        steps_left(import_step(owner, records, expansions, state, reply).0, records.len() as int)
            < steps_left(state, records.len() as int),
{
    match state {
        ImportState::Opening => {
            lemma_record_step(start, owner, records, expansions, 0, table, now, answer);
        },
        ImportState::Inserting(index) => {
            if reply == Some(ReplyView::Affected(1)) {
                lemma_record_step(
                    start,
                    owner,
                    records,
                    expansions,
                    index + 1,
                    table,
                    now,
                    answer,
                );
            }
        },
        _ => {},
    }
}

/// The step that records the measurement at `index`, once those before it are
/// recorded, keeps what holds between steps.
proof fn lemma_record_step(
    start: TableView,
    owner: OwnerIdentity,
    records: Seq<ImportMasses>,
    expansions: Seq<Option<DecimalView>>,
    index: int,
    table: TableView,
    now: StorageInstant,
    answer: ReplyView,
)
    requires
        table.well_formed(),
        records.len() <= usize::MAX,
        expansions.len() == records.len(),
        0 <= index <= records.len(),
        start.saved is None,
        table.saved == Some(start.rows),
        table.rows == imported_rows(start.rows, start.next_id, owner, records, expansions, index),
        table.next_id == start.next_id + index,
        carried_out(start, table, index + 1),
        forall|k: int|
            0 <= k < index ==> (#[trigger] records[k]).measurement_timestamp.supported()
                && records[k].created_at.supported(),
        record_step(owner, records, expansions, index).1 is Run,
        table.answers(record_step(owner, records, expansions, index).1->Run_0, now, answer),
    ensures
        import_holds(
            start,
            owner,
            records,
            expansions,
            record_step(owner, records, expansions, index).0,
            Some(answer),
            table.effect(record_step(owner, records, expansions, index).1->Run_0, now),
        ),
{
    if index < records.len() {
        let record = records[index];
        assert(import_statement_of(owner, record, expansions[index]) is Ok
            <==> record.measurement_timestamp.supported() && record.created_at.supported());
    }
}

/// A step that answers does so as the import went.
proof fn lemma_import_answers(
    start: TableView,
    owner: OwnerIdentity,
    records: Seq<ImportMasses>,
    expansions: Seq<Option<DecimalView>>,
    state: ImportState,
    reply: Option<ReplyView>,
    table: TableView,
)
    requires
        import_holds(start, owner, records, expansions, state, reply, table),
        import_step(owner, records, expansions, state, reply).1 is Respond,
    ensures
        ({
            let status = import_step(owner, records, expansions, state, reply).1->Respond_0;
            &&& status == OK || status == INTERNAL_SERVER_ERROR
            &&& status == OK <==> import_succeeds(start, records, expansions)
            &&& status == OK ==> table.rows == imported_rows(
                start.rows,
                start.next_id,
                owner,
                records,
                expansions,
                records.len() as int,
            )
            &&& status == OK ==> table.next_id == start.next_id + records.len() && table.fault
                == match start.fault {
                Some(count) => Some((count - records.len() - 2) as nat),
                None => None,
            }
            &&& status != OK ==> table.rows == start.rows
            &&& table.saved == start.saved
        }),
{
}

/// Imports `payload` for `owner` into `table`, all of it or nothing.
///
/// `expansions` holds, for each measurement of the payload and at its place,
/// what the decimal library made of its mass. `now` is the instant of the
/// store's clock.
///
/// The answer is [`OK`] where every measurement was recorded and the
/// transaction committed, and [`INTERNAL_SERVER_ERROR`] otherwise. After a
/// failure the store holds the rows that it held before, whichever statement
/// failed; no transaction is left open by the import.
pub fn import_into(
    table: &mut Table,
    owner: OwnerIdentity,
    payload: &ImportPayload,
    expansions: &Vec<Option<Decimal>>,
    now: StorageInstant,
) -> (status: u16)
    ensures
        status == OK || status == INTERNAL_SERVER_ERROR,
        old(table)@.well_formed(),
        final(table)@.well_formed(),
        status == OK <==> import_succeeds(old(table)@, payload.masses@, expansions.deep_view()),
        status == OK ==> final(table)@.rows == imported_rows(
            old(table)@.rows,
            old(table)@.next_id,
            owner,
            payload.masses@,
            expansions.deep_view(),
            payload.masses@.len() as int,
        ),
        status == OK ==> final(table)@.next_id == old(table)@.next_id + payload.masses@.len()
            && final(table)@.fault == match old(table)@.fault {
            Some(count) => Some((count - payload.masses@.len() - 2) as nat),
            None => None,
        },
        status != OK ==> final(table)@.rows == old(table)@.rows,
        final(table)@.saved == old(table)@.saved,
{
    proof {
        use_type_invariant(&*table);
        table.consistent_is_well_formed();
    }
    let ghost start = table@;
    let ghost records = payload.masses@;
    let ghost made = expansions.deep_view();
    let mut state = ImportState::Start;
    let mut reply: Option<Reply> = None;
    loop
        invariant
            start == old(table)@,
            start.well_formed(),
            table@.well_formed(),
            records == payload.masses@,
            records.len() == payload.masses.len(),
            made == expansions.deep_view(),
            import_holds(start, owner, records, made, state, reply.deep_view(), table@),
        decreases steps_left(state, records.len() as int),
    {
        let ghost before = table@;
        let ghost shown = reply.deep_view();
        let (next, action) = import_data(owner, payload, expansions, state, reply);
        match action {
            ImportAction::Respond(status) => {
                proof {
                    lemma_import_answers(start, owner, records, made, state, shown, before);
                }
                return status;
            },
            ImportAction::Run(statement) => {
                let answer = table.execute(statement, now);
                proof {
                    lemma_import_runs(
                        start,
                        owner,
                        records,
                        made,
                        state,
                        shown,
                        before,
                        now,
                        answer@,
                    );
                }
                reply = Some(answer);
                state = next;
            },
        }
    }
}

} // verus!

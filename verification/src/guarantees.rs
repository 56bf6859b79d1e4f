//! What the service guarantees, proved of every store and every request.
//!
//! Each law here joins the statement that an operation builds, what a row
//! store does with it, and the answer that the operation makes of the reply.
//! That a bulk import records all of its measurements or none is stated of
//! [`crate::import::import_into`] itself.
use crate::decimal::{storage_decimal_of, DecimalView};
use crate::instant::{
    application_round_trip, conversion_keeps_order, storage_instant_of, StorageInstant,
};
use crate::import::{import_statement_of, import_step, ImportActionView, ImportState};
use crate::masses::{
    create_answer_of, create_statement_of, delete_statement_of, delete_status_of, get_statement_of,
    list_answer_of, list_statement_of, mass_of, masses_follow_rows, row_answer_of,
    update_answer_of, update_statement_of, Failure, NOT_FOUND, NO_CONTENT,
};
use crate::models::{ImportMasses, Mass, NewMass, OwnerIdentity};
use crate::storage::{ReplyView, StatementView};
use crate::table::{owned_row, TableView};
use vstd::prelude::*;

verus! {

/// A measurement of one user is out of reach for every other user.
///
/// Whatever another user asks of it, reading, replacing or removing, and
/// whatever the request holds, the store keeps its rows as they are and no
/// answer shows the measurement. Unless the store fails, the answer is that the
/// measurement was not found, the same as for a key that no measurement has.
pub proof fn other_owner_reaches_nothing(
    table: TableView,
    owner: OwnerIdentity,
    other: OwnerIdentity,
    id: i32,
    payload: NewMass,
    expansion: Option<DecimalView>,
    now: StorageInstant,
    reply: ReplyView,
    reading: Option<u64>,
)
    requires
        owned_row(table.rows, id, owner.user_id) is Some,
        other != owner,
    ensures
        table.answers(get_statement_of(other, id), now, reply) ==> row_answer_of(reply, reading)
            == if table.fails_next() {
            Err::<Mass, Failure>(Failure::InfrastructureFailure)
        } else {
            Err::<Mass, Failure>(Failure::NotFoundOrForbidden)
        },
        table.effect(update_statement_of(other, id, payload, expansion), now).rows == table.rows,
        table.answers(update_statement_of(other, id, payload, expansion), now, reply)
            ==> update_answer_of(payload, reply, reading) == if table.fails_next() {
            Err::<Mass, Failure>(Failure::InfrastructureFailure)
        } else {
            Err::<Mass, Failure>(Failure::NotFoundOrForbidden)
        },
        table.effect(delete_statement_of(other, id), now).rows == table.rows,
        table.answers(delete_statement_of(other, id), now, reply) ==> delete_status_of(reply)
            != NO_CONTENT && (!table.fails_next() ==> delete_status_of(reply) == NOT_FOUND),
{
}

/// Every statement that an operation builds is bound to the owner of the
/// request. An import sends, besides, only the statements that frame its
/// transaction.
pub proof fn statements_are_bound_to_the_owner(
    owner: OwnerIdentity,
    id: i32,
    payload: NewMass,
    expansion: Option<DecimalView>,
    record: ImportMasses,
    records: Seq<ImportMasses>,
    expansions: Seq<Option<DecimalView>>,
    state: ImportState,
    reply: Option<ReplyView>,
)
    ensures
        list_statement_of(owner).scope() == Some(owner.user_id),
        get_statement_of(owner, id).scope() == Some(owner.user_id),
        delete_statement_of(owner, id).scope() == Some(owner.user_id),
        create_statement_of(owner, payload, expansion) matches Ok(statement) ==> statement.scope()
            == Some(owner.user_id),
        update_statement_of(owner, id, payload, expansion).scope() == Some(owner.user_id),
        import_statement_of(owner, record, expansion) matches Ok(statement) ==> statement.scope()
            == Some(owner.user_id),
        import_step(owner, records, expansions, state, reply).1 matches ImportActionView::Run(
            statement,
        ) ==> statement.scope() is None || statement.scope() == Some(owner.user_id),
{
}

/// A request for a measurement is answered as not found exactly where the
/// owner has no measurement under the key: where no measurement has it, and
/// where the one that has it belongs to another user. The store then keeps
/// its rows as they are. This holds of reading, replacing and removing alike,
/// whatever the request holds, as long as the store carries the statement out.
pub proof fn not_found_means_no_row_of_the_owner(
    table: TableView,
    owner: OwnerIdentity,
    id: i32,
    payload: NewMass,
    expansion: Option<DecimalView>,
    now: StorageInstant,
    reply: ReplyView,
    reading: Option<u64>,
)
    requires
        !table.fails_next(),
    ensures
        table.answers(get_statement_of(owner, id), now, reply) ==> (row_answer_of(reply, reading)
            == Err::<Mass, Failure>(Failure::NotFoundOrForbidden) <==> owned_row(
            table.rows,
            id,
            owner.user_id,
        ) is None),
        table.answers(update_statement_of(owner, id, payload, expansion), now, reply) ==> (
        update_answer_of(payload, reply, reading) == Err::<Mass, Failure>(
            Failure::NotFoundOrForbidden,
        ) <==> owned_row(table.rows, id, owner.user_id) is None),
        table.answers(delete_statement_of(owner, id), now, reply) ==> (delete_status_of(reply)
            == NOT_FOUND <==> owned_row(table.rows, id, owner.user_id) is None),
        owned_row(table.rows, id, owner.user_id) is None ==> {
            &&& table.effect(get_statement_of(owner, id), now).rows == table.rows
            &&& table.effect(update_statement_of(owner, id, payload, expansion), now).rows
                == table.rows
            &&& table.effect(delete_statement_of(owner, id), now).rows == table.rows
        },
{
}

/// A replacement whose instant cannot be converted replaces nothing. Where the
/// owner has the measurement, the request fails for that reason; the instant
/// is never exchanged for another.
pub proof fn update_with_a_bad_instant_changes_nothing(
    table: TableView,
    owner: OwnerIdentity,
    id: i32,
    payload: NewMass,
    expansion: Option<DecimalView>,
    now: StorageInstant,
    reply: ReplyView,
    reading: Option<u64>,
)
    requires
        payload.measurement_timestamp matches Some(instant) && !instant.supported(),
    ensures
        table.effect(update_statement_of(owner, id, payload, expansion), now).rows == table.rows,
        !table.fails_next() && owned_row(table.rows, id, owner.user_id) is Some && table.answers(
            update_statement_of(owner, id, payload, expansion),
            now,
            reply,
        ) ==> update_answer_of(payload, reply, reading) matches Err(
            Failure::TemporalConversionFailure(_),
        ),
{
}

/// No statement of one user changes or removes a row of another.
pub proof fn statements_keep_to_their_owner(
    table: TableView,
    statement: StatementView,
    now: StorageInstant,
    id: i32,
)
    requires
        table.well_formed(),
        table.rows.contains_key(id),
        statement.scope() matches Some(user_id) && table.rows[id].user_id != user_id,
    ensures
        table.effect(statement, now).rows.contains_key(id),
        table.effect(statement, now).rows[id] == table.rows[id],
{
}

/// No reply to a statement of one user holds a row of another.
pub proof fn replies_keep_to_their_owner(
    table: TableView,
    statement: StatementView,
    now: StorageInstant,
    reply: ReplyView,
)
    requires
        table.well_formed(),
        statement.scope() is Some,
        table.answers(statement, now, reply),
    ensures
        reply matches ReplyView::Row(Some(row)) ==> row.user_id == statement.scope()->Some_0,
        reply matches ReplyView::Rows(rows) ==> forall|i: int|
            0 <= i < rows.len() ==> (#[trigger] rows[i]).user_id == statement.scope()->Some_0,
{
    if let ReplyView::Rows(rows) = reply {
        if let StatementView::SelectOwned { user_id } = statement {
            assert forall|i: int| 0 <= i < rows.len() implies (#[trigger] rows[i]).user_id
                == user_id by {
                assert(owned_row(table.rows, rows[i].id, user_id) == Some(rows[i]));
            }
        }
    }
}

/// A listing shows the measurements of the owner, the latest first: none was
/// measured later than one that stands before it, whatever instants were
/// recorded and however many of them are the same.
pub proof fn listing_is_latest_first(
    table: TableView,
    owner: OwnerIdentity,
    now: StorageInstant,
    reply: ReplyView,
    readings: Seq<Option<u64>>,
)
    requires
        table.answers(list_statement_of(owner), now, reply),
        list_answer_of(reply, readings) is Ok,
    ensures
        forall|i: int, j: int|
            0 <= i < j < list_answer_of(reply, readings)->Ok_0.len() ==> (
            #[trigger] list_answer_of(reply, readings)->Ok_0[j]).measurement_timestamp.not_after(
                (#[trigger] list_answer_of(reply, readings)->Ok_0[i]).measurement_timestamp,
            ),
        forall|i: int|
            0 <= i < list_answer_of(reply, readings)->Ok_0.len() ==> owned_row(
                table.rows,
                (#[trigger] list_answer_of(reply, readings)->Ok_0[i]).id,
                owner.user_id,
            ) is Some,
{
    let rows = reply->Rows_0;
    let shown = list_answer_of(reply, readings)->Ok_0;
    masses_follow_rows(rows, readings);
    assert forall|i: int, j: int| 0 <= i < j < shown.len() implies (
    #[trigger] shown[j]).measurement_timestamp.not_after(
        (#[trigger] shown[i]).measurement_timestamp,
    ) by {
        assert(mass_of(rows[i], readings[i]) == Ok::<Mass, Failure>(shown[i]));
        assert(mass_of(rows[j], readings[j]) == Ok::<Mass, Failure>(shown[j]));
        assert(rows[i].measurement_timestamp.unix_nanos
            >= rows[j].measurement_timestamp.unix_nanos);
        application_round_trip(rows[i].measurement_timestamp);
        application_round_trip(rows[j].measurement_timestamp);
        conversion_keeps_order(shown[j].measurement_timestamp, shown[i].measurement_timestamp);
    }
    assert forall|i: int| 0 <= i < shown.len() implies owned_row(
        table.rows,
        (#[trigger] shown[i]).id,
        owner.user_id,
    ) is Some by {
        assert(mass_of(rows[i], readings[i]) == Ok::<Mass, Failure>(shown[i]));
        assert(owned_row(table.rows, rows[i].id, owner.user_id) == Some(rows[i]));
    }
}

/// Replacing a measurement changes its mass, and the instant of its
/// measurement only where the request names one. The key, the owner and the
/// instant of the recording stay, and so does every other row.
pub proof fn update_replaces_what_is_given(
    table: TableView,
    owner: OwnerIdentity,
    id: i32,
    payload: NewMass,
    expansion: Option<DecimalView>,
    now: StorageInstant,
)
    requires
        table.well_formed(),
        !table.fails_next(),
        owned_row(table.rows, id, owner.user_id) is Some,
        payload.measurement_timestamp matches Some(instant) ==> instant.supported(),
    ensures
        ({
            let statement = update_statement_of(owner, id, payload, expansion);
            let before = table.rows[id];
            let after = table.effect(statement, now).rows;
            &&& after.dom() == table.rows.dom()
            &&& forall|other: i32|
                other != id && after.contains_key(other) ==> after[other] == table.rows[other]
            &&& after[id].id == id
            &&& after[id].user_id == before.user_id
            &&& after[id].created_at == before.created_at
            &&& after[id].mass_kg == storage_decimal_of(payload.mass_kg, expansion)
            &&& after[id].measurement_timestamp == match payload.measurement_timestamp {
                None => before.measurement_timestamp,
                Some(instant) => storage_instant_of(instant)->Ok_0,
            }
            &&& table.answers(statement, now, ReplyView::Row(Some(after[id])))
            &&& forall|reading: Option<u64>|
                update_answer_of(payload, ReplyView::Row(Some(after[id])), reading)
                    == #[trigger] mass_of(after[id], reading)
        }),
{
    let statement = update_statement_of(owner, id, payload, expansion);
    let after = table.effect(statement, now).rows;
    assert(after.dom() =~= table.rows.dom());
}

/// A measurement that was recorded is there to be read: the store gave it a
/// key that no row had, and a request of its owner for that key shows what the
/// recording showed.
pub proof fn created_measurement_can_be_read(
    table: TableView,
    owner: OwnerIdentity,
    payload: NewMass,
    expansion: Option<DecimalView>,
    now: StorageInstant,
    later: StorageInstant,
    reply: ReplyView,
    reading: Option<u64>,
)
    requires
        table.well_formed(),
        create_statement_of(owner, payload, expansion) is Ok,
        table.answers(create_statement_of(owner, payload, expansion)->Ok_0, now, reply),
        create_answer_of(reply, reading) is Ok,
        !table.effect(create_statement_of(owner, payload, expansion)->Ok_0, now).fails_next(),
    ensures
        ({
            let created = create_answer_of(reply, reading)->Ok_0;
            let after = table.effect(create_statement_of(owner, payload, expansion)->Ok_0, now);
            &&& !table.rows.contains_key(created.id)
            &&& after.rows == table.rows.insert(created.id, reply->Row_0->Some_0)
            &&& forall|found: ReplyView|
                after.answers(get_statement_of(owner, created.id), later, found) ==> row_answer_of(
                    found,
                    reading,
                ) == Ok::<Mass, Failure>(created)
        }),
{
}

/// A measurement that was removed is gone: a request of its owner for its key
/// finds nothing, and no other row has changed.
pub proof fn deleted_measurement_is_gone(
    table: TableView,
    owner: OwnerIdentity,
    id: i32,
    now: StorageInstant,
    later: StorageInstant,
    reply: ReplyView,
    found: ReplyView,
    reading: Option<u64>,
)
    requires
        table.well_formed(),
        table.answers(delete_statement_of(owner, id), now, reply),
        delete_status_of(reply) == NO_CONTENT,
        table.effect(delete_statement_of(owner, id), now).answers(
            get_statement_of(owner, id),
            later,
            found,
        ),
        !table.effect(delete_statement_of(owner, id), now).fails_next(),
    ensures
        owned_row(table.rows, id, owner.user_id) is Some,
        table.effect(delete_statement_of(owner, id), now).rows == table.rows.remove(id),
        row_answer_of(found, reading) == Err::<Mass, Failure>(Failure::NotFoundOrForbidden),
{
}

} // verus!

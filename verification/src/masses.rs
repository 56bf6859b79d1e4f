//! The operations on single measurements: list, create, get, update, delete.
//!
//! Each operation is two functions. The first builds the statement for the row
//! store, bound to the owner; the second takes the store's reply and decides
//! what the service answers. Between the two a driver sends the statement.
//! Where a mass crosses between the tiers, the caller hands over what the
//! decimal library made of it.
use crate::decimal::{
    application_float_of, storage_decimal_of, to_application_float, to_storage_decimal, Decimal,
    DecimalView,
};
use crate::instant::{
    application_instant_of, storage_instant_of, to_application_instant, to_storage_instant,
    ApplicationInstant, StorageInstant, TemporalConversionFailure,
};
use crate::models::{Mass, NewMass, OwnerIdentity};
use crate::storage::{Reply, ReplyView, Statement, StatementView, StoredRow, StoredRowView};
use vstd::prelude::*;

verus! {

/// The status of an answer that carries what was asked for.
pub const OK: u16 = 200;

/// The status of an answer to a request that was carried out and has nothing
/// to show.
pub const NO_CONTENT: u16 = 204;

/// The status of an answer to a request for a measurement that the owner does
/// not have.
pub const NOT_FOUND: u16 = 404;

/// The status of an answer to a request that failed.
pub const INTERNAL_SERVER_ERROR: u16 = 500;

/// Why an operation did not do what was asked.
#[derive(Clone, Copy, Debug, PartialEq, Eq, Structural)]
pub enum Failure {
    /// No measurement has the key, or the one that has it belongs to another
    /// user. The two are not told apart.
    NotFoundOrForbidden,
    /// An instant could not be converted between the tiers.
    TemporalConversionFailure(TemporalConversionFailure),
    /// The row store failed, or the driver handed over a reply that the
    /// statement does not have, or readings or expansions that are not one
    /// for each row or measurement.
    InfrastructureFailure,
}

impl Failure {
    /// The status that tells a client of this failure.
    pub open spec fn status_of(self) -> u16 {
        match self {
            Failure::NotFoundOrForbidden => NOT_FOUND,
            _ => INTERNAL_SERVER_ERROR,
        }
    }

    /// The status that tells a client of this failure.
    pub fn status(&self) -> (status: u16)
        ensures
            status == self.status_of(),
    {
        match self {
            Failure::NotFoundOrForbidden => NOT_FOUND,
            _ => INTERNAL_SERVER_ERROR,
        }
    }
}

/// The measurement that is shown for `row`, where `reading` is what the decimal
/// library read from the row's mass.
pub open spec fn mass_of(row: StoredRowView, reading: Option<u64>) -> Result<Mass, Failure> {
    match application_instant_of(row.measurement_timestamp) {
        Err(failure) => Err(Failure::TemporalConversionFailure(failure)),
        Ok(measurement_timestamp) => match application_instant_of(row.created_at) {
            Err(failure) => Err(Failure::TemporalConversionFailure(failure)),
            Ok(created_at) => Ok(
                Mass {
                    id: row.id,
                    mass_kg: application_float_of(reading),
                    measurement_timestamp,
                    created_at,
                },
            ),
        },
    }
}

/// The measurements that are shown for `rows`, in their order, where
/// `readings` holds for each row, at its place, what the decimal library read
/// from its mass. The first row that cannot be shown fails the whole.
pub open spec fn masses_of(rows: Seq<StoredRowView>, readings: Seq<Option<u64>>) -> Result<
    Seq<Mass>,
    Failure,
>
    decreases rows.len(),
{
    if rows.len() == 0 {
        Ok(Seq::empty())
    } else {
        match masses_of(rows.drop_last(), readings) {
            Err(failure) => Err(failure),
            Ok(shown) => match mass_of(rows.last(), readings[rows.len() - 1]) {
                Err(failure) => Err(failure),
                Ok(mass) => Ok(shown.push(mass)),
            },
        }
    }
}

/// The instant to store for an instant that a client may have left out.
pub open spec fn stored_instant_of(instant: Option<ApplicationInstant>) -> Result<
    Option<StorageInstant>,
    Failure,
> {
    match instant {
        None => Ok(None),
        Some(given) => match storage_instant_of(given) {
            Ok(stored) => Ok(Some(stored)),
            Err(failure) => Err(Failure::TemporalConversionFailure(failure)),
        },
    }
}

/// The statement that lists the measurements of `owner`.
pub open spec fn list_statement_of(owner: OwnerIdentity) -> StatementView {
    StatementView::SelectOwned { user_id: owner.user_id }
}

/// The statement that records `payload` for `owner`.
pub open spec fn create_statement_of(
    owner: OwnerIdentity,
    payload: NewMass,
    expansion: Option<DecimalView>,
) -> Result<StatementView, Failure> {
    match stored_instant_of(payload.measurement_timestamp) {
        Err(failure) => Err(failure),
        Ok(measurement_timestamp) => Ok(
            StatementView::Insert {
                user_id: owner.user_id,
                mass_kg: storage_decimal_of(payload.mass_kg, expansion),
                measurement_timestamp,
            },
        ),
    }
}

/// The statement that reads the measurement `id` of `owner`.
pub open spec fn get_statement_of(owner: OwnerIdentity, id: i32) -> StatementView {
    StatementView::SelectOne { id, user_id: owner.user_id }
}

/// The statement that replaces the measurement `id` of `owner` by `payload`.
///
/// Where the instant of the payload cannot be converted, nothing can be
/// replaced, and the statement only asks whether the owner has the
/// measurement.
pub open spec fn update_statement_of(
    owner: OwnerIdentity,
    id: i32,
    payload: NewMass,
    expansion: Option<DecimalView>,
) -> StatementView {
    match stored_instant_of(payload.measurement_timestamp) {
        Err(_) => get_statement_of(owner, id),
        Ok(measurement_timestamp) => StatementView::Update {
            id,
            user_id: owner.user_id,
            mass_kg: storage_decimal_of(payload.mass_kg, expansion),
            measurement_timestamp,
        },
    }
}

/// The statement that removes the measurement `id` of `owner`.
pub open spec fn delete_statement_of(owner: OwnerIdentity, id: i32) -> StatementView {
    StatementView::Delete { id, user_id: owner.user_id }
}

/// The answer to a listing. Readings that are not one for each row of the
/// reply fail it: no mass is shown without its reading.
pub open spec fn list_answer_of(reply: ReplyView, readings: Seq<Option<u64>>) -> Result<
    Seq<Mass>,
    Failure,
> {
    match reply {
        ReplyView::Rows(rows) => if readings.len() == rows.len() {
            masses_of(rows, readings)
        } else {
            Err(Failure::InfrastructureFailure)
        },
        _ => Err(Failure::InfrastructureFailure),
    }
}

/// The answer to the recording of a measurement.
pub open spec fn create_answer_of(reply: ReplyView, reading: Option<u64>) -> Result<Mass, Failure> {
    match reply {
        ReplyView::Row(Some(row)) => mass_of(row, reading),
        _ => Err(Failure::InfrastructureFailure),
    }
}

/// The answer to a request for one measurement.
pub open spec fn row_answer_of(reply: ReplyView, reading: Option<u64>) -> Result<Mass, Failure> {
    match reply {
        ReplyView::Row(Some(row)) => mass_of(row, reading),
        ReplyView::Row(None) => Err(Failure::NotFoundOrForbidden),
        _ => Err(Failure::InfrastructureFailure),
    }
}

/// The answer to the replacement of a measurement by `payload`.
///
/// That the owner has no such measurement comes first. Only where the owner
/// has it does an instant that cannot be converted fail the request.
pub open spec fn update_answer_of(
    payload: NewMass,
    reply: ReplyView,
    reading: Option<u64>,
) -> Result<Mass, Failure> {
    match stored_instant_of(payload.measurement_timestamp) {
        Ok(_) => row_answer_of(reply, reading),
        Err(failure) => match reply {
            ReplyView::Row(Some(_)) => Err(failure),
            ReplyView::Row(None) => Err(Failure::NotFoundOrForbidden),
            _ => Err(Failure::InfrastructureFailure),
        },
    }
}

/// The status that answers the removal of a measurement.
pub open spec fn delete_status_of(reply: ReplyView) -> u16 {
    match reply {
        ReplyView::Affected(count) => if count == 0 {
            NOT_FOUND
        } else {
            NO_CONTENT
        },
        _ => INTERNAL_SERVER_ERROR,
    }
}

/// A statement or a failure, the statement with its mass as a number.
pub open spec fn statement_view(built: Result<Statement, Failure>) -> Result<
    StatementView,
    Failure,
> {
    match built {
        Ok(statement) => Ok(statement@),
        Err(failure) => Err(failure),
    }
}

/// Measurements or a failure, the measurements as a sequence.
pub open spec fn masses_view(shown: Result<Vec<Mass>, Failure>) -> Result<Seq<Mass>, Failure> {
    match shown {
        Ok(masses) => Ok(masses@),
        Err(failure) => Err(failure),
    }
}

/// Shows a stored row as a measurement of the application tier.
///
/// `reading` is what the decimal library read from the row's mass as a
/// binary64 number, `None` where it could not. A mass that could not be read is
/// shown as `0.0`. An instant that cannot be converted fails the row.
pub fn to_mass(row: &StoredRow, reading: Option<u64>) -> (shown: Result<Mass, Failure>)
    ensures
        shown == mass_of(row@, reading),
{
    let measurement_timestamp = match to_application_instant(row.measurement_timestamp) {
        Ok(instant) => instant,
        Err(failure) => {
            return Err(Failure::TemporalConversionFailure(failure));
        },
    };
    let created_at = match to_application_instant(row.created_at) {
        Ok(instant) => instant,
        Err(failure) => {
            return Err(Failure::TemporalConversionFailure(failure));
        },
    };
    let mass_kg = to_application_float(reading);
    Ok(Mass { id: row.id, mass_kg, measurement_timestamp, created_at })
}

/// Converts the instant of a measurement that a client may have left out.
fn to_stored_instant(instant: Option<ApplicationInstant>) -> (stored: Result<
    Option<StorageInstant>,
    Failure,
>)
    ensures
        stored == stored_instant_of(instant),
{
    match instant {
        None => Ok(None),
        Some(given) => match to_storage_instant(given) {
            Ok(stored) => Ok(Some(stored)),
            Err(failure) => Err(Failure::TemporalConversionFailure(failure)),
        },
    }
}

/// Builds the statement that lists the measurements of `owner`, the latest
/// first.
pub fn list_masses_statement(owner: OwnerIdentity) -> (statement: Statement)
    ensures
        statement@ == list_statement_of(owner),
{
    Statement::SelectOwned { user_id: owner.user_id }
}

/// Answers a listing: the measurements of the reply, in its order.
///
/// `readings` holds, for each row of the reply and at its place, what the
/// decimal library read from its mass. The listing fails where the store
/// failed, where the readings are not one for each row, and where an instant
/// of a row cannot be converted.
pub fn list_masses(reply: Reply, readings: Vec<Option<u64>>) -> (answer: Result<Vec<Mass>, Failure>)
    ensures
        masses_view(answer) == list_answer_of(reply@, readings@),
{
    let rows = match reply {
        Reply::Rows(rows) => rows,
        _ => {
            return Err(Failure::InfrastructureFailure);
        },
    };
    if readings.len() != rows.len() {
        return Err(Failure::InfrastructureFailure);
    }
    let mut masses: Vec<Mass> = Vec::new();
    let mut k: usize = 0;
    while k < rows.len()
        invariant
            k <= rows.len(),
            readings.len() == rows.len(),
            reply@ == ReplyView::Rows(rows.deep_view()),
            masses_of(rows.deep_view().take(k as int), readings@) == Ok::<Seq<Mass>, Failure>(
                masses@,
            ),
        decreases rows.len() - k,
    {
        let reading = readings[k];
        let ghost shown = rows.deep_view();
        proof {
            assert(shown.take(k + 1).drop_last() == shown.take(k as int));
            assert(shown.take(k + 1).last() == rows[k as int]@);
        }
        match to_mass(&rows[k], reading) {
            Ok(mass) => {
                masses.push(mass);
            },
            Err(failure) => {
                proof {
                    lemma_masses_fail_early(shown, readings@, k + 1);
                }
                return Err(failure);
            },
        }
        k += 1;
    }
    assert(rows.deep_view().take(k as int) == rows.deep_view());
    Ok(masses)
}

/// Where the first `count` rows cannot be shown, the rows cannot, and for the
/// same reason.
proof fn lemma_masses_fail_early(rows: Seq<StoredRowView>, readings: Seq<Option<u64>>, count: int)
    requires
        0 <= count <= rows.len(),
        masses_of(rows.take(count), readings) is Err,
    ensures
        masses_of(rows, readings) == masses_of(rows.take(count), readings),
    decreases rows.len() - count,
{
    if count < rows.len() {
        assert(rows.take(count + 1).drop_last() == rows.take(count));
        lemma_masses_fail_early(rows, readings, count + 1);
    } else {
        assert(rows.take(count) == rows);
    }
}

/// A listing that can be shown shows every row, each at its place.
pub proof fn masses_follow_rows(rows: Seq<StoredRowView>, readings: Seq<Option<u64>>)
    requires
        masses_of(rows, readings) is Ok,
    ensures
        masses_of(rows, readings)->Ok_0.len() == rows.len(),
        forall|i: int|
            0 <= i < rows.len() ==> mass_of(#[trigger] rows[i], readings[i]) == Ok::<
                Mass,
                Failure,
            >(masses_of(rows, readings)->Ok_0[i]),
    decreases rows.len(),
{
    if rows.len() > 0 {
        masses_follow_rows(rows.drop_last(), readings);
        let shown = masses_of(rows, readings)->Ok_0;
        let before = masses_of(rows.drop_last(), readings)->Ok_0;
        assert forall|i: int| 0 <= i < rows.len() implies mass_of(
            #[trigger] rows[i],
            readings[i],
        ) == Ok::<Mass, Failure>(shown[i]) by {
            if i < rows.len() - 1 {
                assert(rows.drop_last()[i] == rows[i]);
                assert(shown[i] == before[i]);
            }
        }
    }
}

/// Builds the statement that records a measurement for `owner`.
///
/// `expansion` is what the decimal library made of the mass. The store stamps
/// the recording, and the measurement too where the payload names no instant.
/// Only an instant that cannot be converted fails the request.
pub fn create_mass_statement(
    owner: OwnerIdentity,
    payload: NewMass,
    expansion: Option<Decimal>,
) -> (built: Result<Statement, Failure>)
    ensures
        statement_view(built) == create_statement_of(owner, payload, expansion.deep_view()),
        built is Ok <==> (payload.measurement_timestamp matches Some(instant)
            ==> instant.supported()),
{
    let measurement_timestamp = match to_stored_instant(payload.measurement_timestamp) {
        Ok(stored) => stored,
        Err(failure) => {
            return Err(failure);
        },
    };
    Ok(
        Statement::Insert {
            user_id: owner.user_id,
            mass_kg: to_storage_decimal(payload.mass_kg, expansion),
            measurement_timestamp,
        },
    )
}

/// Answers the recording of a measurement: the measurement as the store holds
/// it, with the key and the instants that the store gave.
///
/// `reading` is what the decimal library read from the mass of the new row.
pub fn create_mass(reply: Reply, reading: Option<u64>) -> (answer: Result<Mass, Failure>)
    ensures
        answer == create_answer_of(reply@, reading),
{
    match reply {
        Reply::Row(Some(row)) => to_mass(&row, reading),
        _ => Err(Failure::InfrastructureFailure),
    }
}

/// Builds the statement that reads the measurement `id` of `owner`.
pub fn get_mass_statement(owner: OwnerIdentity, id: i32) -> (statement: Statement)
    ensures
        statement@ == get_statement_of(owner, id),
{
    Statement::SelectOne { id, user_id: owner.user_id }
}

/// Answers a request for one measurement.
///
/// `reading` is what the decimal library read from the mass of the row. Where
/// the store found no row, the measurement does not exist or is another
/// user's, and the answer is the same for both.
pub fn get_mass(reply: Reply, reading: Option<u64>) -> (answer: Result<Mass, Failure>)
    ensures
        answer == row_answer_of(reply@, reading),
{
    match reply {
        Reply::Row(Some(row)) => to_mass(&row, reading),
        Reply::Row(None) => Err(Failure::NotFoundOrForbidden),
        _ => Err(Failure::InfrastructureFailure),
    }
}

/// Builds the statement that replaces the measurement `id` of `owner`.
///
/// `expansion` is what the decimal library made of the new mass. The mass is
/// replaced in any case, the instant of the measurement only where the payload
/// names one. The statement reaches no row of another user.
///
/// Where the instant of the payload cannot be converted, the statement
/// replaces nothing: it asks whether the owner has the measurement, so that
/// [`update_mass`] can answer a request for a measurement that the owner does
/// not have as it answers every such request.
pub fn update_mass_statement(
    owner: OwnerIdentity,
    id: i32,
    payload: NewMass,
    expansion: Option<Decimal>,
) -> (statement: Statement)
    ensures
        statement@ == update_statement_of(owner, id, payload, expansion.deep_view()),
        statement@ is Update <==> (payload.measurement_timestamp matches Some(instant)
            ==> instant.supported()),
        statement@ is Update || statement@ == get_statement_of(owner, id),
{
    match to_stored_instant(payload.measurement_timestamp) {
        Ok(measurement_timestamp) => Statement::Update {
            id,
            user_id: owner.user_id,
            mass_kg: to_storage_decimal(payload.mass_kg, expansion),
            measurement_timestamp,
        },
        Err(_) => Statement::SelectOne { id, user_id: owner.user_id },
    }
}

/// Answers the replacement of a measurement by `payload`: the measurement as
/// it now stands.
///
/// `reply` is the store's reply to the statement of [`update_mass_statement`]
/// for the same payload, `reading` what the decimal library read from the mass
/// of its row. Where the store found no row of the owner, the answer is that
/// the measurement was not found, whatever the payload holds. Where it found
/// the row and the instant of the payload cannot be converted, the request
/// fails for that reason, and the row is as it was.
pub fn update_mass(payload: NewMass, reply: Reply, reading: Option<u64>) -> (answer: Result<
    Mass,
    Failure,
>)
    ensures
        answer == update_answer_of(payload, reply@, reading),
{
    match to_stored_instant(payload.measurement_timestamp) {
        Ok(_) => match reply {
            Reply::Row(Some(row)) => to_mass(&row, reading),
            Reply::Row(None) => Err(Failure::NotFoundOrForbidden),
            _ => Err(Failure::InfrastructureFailure),
        },
        Err(failure) => match reply {
            Reply::Row(Some(_)) => Err(failure),
            Reply::Row(None) => Err(Failure::NotFoundOrForbidden),
            _ => Err(Failure::InfrastructureFailure),
        },
    }
}

/// Builds the statement that removes the measurement `id` of `owner`.
pub fn delete_mass_statement(owner: OwnerIdentity, id: i32) -> (statement: Statement)
    ensures
        statement@ == delete_statement_of(owner, id),
{
    Statement::Delete { id, user_id: owner.user_id }
}

/// Answers the removal of a measurement with a status: [`NO_CONTENT`] where a
/// row was removed, [`NOT_FOUND`] where none was, [`INTERNAL_SERVER_ERROR`]
/// where the store failed.
pub fn delete_mass(reply: Reply) -> (status: u16)
    ensures
        status == delete_status_of(reply@),
{
    match reply {
        Reply::Affected(count) => if count == 0 {
            NOT_FOUND
        } else {
            NO_CONTENT
        },
        _ => INTERNAL_SERVER_ERROR,
    }
}

} // verus!

use mass_store::decimal::Decimal;
use mass_store::import::{import_data, import_into, import_statement, ImportAction, ImportState};
use mass_store::instant::{ApplicationInstant, StorageInstant, TemporalConversionFailure};
use mass_store::masses::Failure;
use mass_store::models::{ImportMasses, ImportPayload, OwnerIdentity};
use mass_store::storage::{Reply, Statement, StoredRow};
use mass_store::table::Table;

const ALICE: OwnerIdentity = OwnerIdentity { user_id: 7 };
const BOB: OwnerIdentity = OwnerIdentity { user_id: 8 };

fn seconds(seconds: i64) -> ApplicationInstant {
    ApplicationInstant { seconds, nanoseconds: 0 }
}

fn clock(seconds: i64) -> StorageInstant {
    StorageInstant { unix_nanos: seconds as i128 * 1_000_000_000 }
}

fn kilos(whole: u8) -> Decimal {
    Decimal { negative: false, magnitude: vec![whole], scale: 0 }
}

fn record(whole: u8, measured: i64, created: i64) -> ImportMasses {
    ImportMasses {
        mass_kg: (whole as f64).to_bits(),
        measurement_timestamp: seconds(measured),
        created_at: seconds(created),
    }
}

fn batch(count: u8) -> (ImportPayload, Vec<Option<Decimal>>) {
    let masses = (0..count).map(|k| record(60 + k, 100 + k as i64, 1_000 + k as i64)).collect();
    let expansions = (0..count).map(|k| Some(kilos(60 + k))).collect();
    (ImportPayload { masses }, expansions)
}

fn stored(id: i32, user_id: i32, whole: u8, measured: i64, created: i64) -> StoredRow {
    StoredRow {
        id,
        user_id,
        mass_kg: kilos(whole),
        measurement_timestamp: clock(measured),
        created_at: clock(created),
    }
}

fn rows_of(table: &mut Table, user_id: i32) -> Vec<StoredRow> {
    match table.execute(Statement::SelectOwned { user_id }, clock(0)) {
        Reply::Rows(rows) => rows,
        other => panic!("no rows: {:?}", other),
    }
}

fn insert_of(k: u8) -> Statement {
    Statement::InsertDated {
        user_id: 7,
        mass_kg: kilos(60 + k),
        measurement_timestamp: clock(100 + k as i64),
        created_at: clock(1_000 + k as i64),
    }
}

#[test]
fn a_record_becomes_an_insert_with_both_instants() {
    assert_eq!(import_statement(ALICE, &record(60, 100, 1_000), Some(kilos(60))), Ok(insert_of(0)));
    assert_eq!(
        import_statement(ALICE, &record(60, 100, 1_000), None),
        Ok(Statement::InsertDated {
            user_id: 7,
            mass_kg: Decimal::zero(),
            measurement_timestamp: clock(100),
            created_at: clock(1_000),
        })
    );
}

#[test]
fn a_record_with_an_instant_that_cannot_be_stored_is_refused() {
    let measured = record(60, 253_402_300_800, 1_000);
    assert_eq!(
        import_statement(ALICE, &measured, Some(kilos(60))),
        Err(Failure::TemporalConversionFailure(TemporalConversionFailure::OutOfRange))
    );
    let created = ImportMasses {
        created_at: ApplicationInstant { seconds: 0, nanoseconds: 2_000_000_000 },
        ..record(60, 100, 1_000)
    };
    assert_eq!(
        import_statement(ALICE, &created, Some(kilos(60))),
        Err(Failure::TemporalConversionFailure(TemporalConversionFailure::Malformed))
    );
}

#[test]
fn the_steps_of_an_import_that_goes_through() {
    let (payload, expansions) = batch(2);
    let step = |state, reply| import_data(ALICE, &payload, &expansions, state, reply);
    assert_eq!(
        step(ImportState::Start, None),
        (ImportState::Opening, ImportAction::Run(Statement::Begin))
    );
    assert_eq!(
        step(ImportState::Opening, Some(Reply::Done)),
        (ImportState::Inserting(0), ImportAction::Run(insert_of(0)))
    );
    assert_eq!(
        step(ImportState::Inserting(0), Some(Reply::Affected(1))),
        (ImportState::Inserting(1), ImportAction::Run(insert_of(1)))
    );
    assert_eq!(
        step(ImportState::Inserting(1), Some(Reply::Affected(1))),
        (ImportState::Committing, ImportAction::Run(Statement::Commit))
    );
    assert_eq!(
        step(ImportState::Committing, Some(Reply::Done)),
        (ImportState::Finished(200), ImportAction::Respond(200))
    );
    assert_eq!(
        step(ImportState::Finished(200), None),
        (ImportState::Finished(200), ImportAction::Respond(200))
    );
}

#[test]
fn the_steps_of_an_import_that_fails() {
    let (payload, expansions) = batch(2);
    let step = |state, reply| import_data(ALICE, &payload, &expansions, state, reply);
    let failed = (ImportState::Finished(500), ImportAction::Respond(500));
    let rollback = (ImportState::RollingBack, ImportAction::Run(Statement::Rollback));
    assert_eq!(step(ImportState::Opening, Some(Reply::Failed)), failed);
    assert_eq!(step(ImportState::Opening, None), failed);
    assert_eq!(step(ImportState::Inserting(0), Some(Reply::Failed)), rollback);
    assert_eq!(step(ImportState::Inserting(1), Some(Reply::Affected(0))), rollback);
    assert_eq!(step(ImportState::Inserting(1), None), rollback);
    assert_eq!(step(ImportState::RollingBack, Some(Reply::Done)), failed);
    assert_eq!(step(ImportState::RollingBack, Some(Reply::Failed)), failed);
    assert_eq!(step(ImportState::Committing, Some(Reply::Failed)), failed);
    assert_eq!(step(ImportState::Finished(500), Some(Reply::Done)), failed);
}

#[test]
fn a_record_that_cannot_be_stored_rolls_the_import_back() {
    let (mut payload, expansions) = batch(3);
    payload.masses[1].created_at = seconds(i64::MAX);
    let step = |state, reply| import_data(ALICE, &payload, &expansions, state, reply);
    assert_eq!(
        step(ImportState::Inserting(0), Some(Reply::Affected(1))),
        (ImportState::RollingBack, ImportAction::Run(Statement::Rollback))
    );
}

#[test]
fn expansions_that_are_not_one_for_each_record_refuse_the_import() {
    let (payload, expansions) = batch(2);
    let short: Vec<Option<Decimal>> = vec![Some(kilos(60))];
    let none: Vec<Option<Decimal>> = vec![];
    let long: Vec<Option<Decimal>> = vec![Some(kilos(60)), Some(kilos(61)), None];
    let failed = (ImportState::Finished(500), ImportAction::Respond(500));
    let rollback = (ImportState::RollingBack, ImportAction::Run(Statement::Rollback));
    for given in [&short, &none, &long] {
        assert_eq!(import_data(ALICE, &payload, given, ImportState::Start, None), failed);
        assert_eq!(
            import_data(ALICE, &payload, given, ImportState::Opening, Some(Reply::Done)),
            rollback
        );
        for index in [0, 1] {
            let state = ImportState::Inserting(index);
            assert_eq!(
                import_data(ALICE, &payload, given, state, Some(Reply::Affected(1))),
                rollback
            );
        }
        let mut table = Table::new();
        assert_eq!(import_into(&mut table, ALICE, &payload, given, clock(0)), 500);
        assert_eq!(rows_of(&mut table, 7), vec![]);
        assert_eq!(table.execute(Statement::Begin, clock(0)), Reply::Done);
    }
    let mut table = Table::new();
    assert_eq!(import_into(&mut table, ALICE, &payload, &expansions, clock(0)), 200);
    assert_eq!(rows_of(&mut table, 7).len(), 2);
}

#[test]
fn an_expansion_that_could_not_be_made_stores_zero() {
    let (payload, _) = batch(1);
    let none: Vec<Option<Decimal>> = vec![None];
    let (_, action) = import_data(ALICE, &payload, &none, ImportState::Opening, Some(Reply::Done));
    assert_eq!(
        action,
        ImportAction::Run(Statement::InsertDated {
            user_id: 7,
            mass_kg: Decimal::zero(),
            measurement_timestamp: clock(100),
            created_at: clock(1_000),
        })
    );
}

#[test]
fn an_empty_import_opens_and_commits() {
    let (payload, expansions) = batch(0);
    assert_eq!(
        import_data(ALICE, &payload, &expansions, ImportState::Opening, Some(Reply::Done)),
        (ImportState::Committing, ImportAction::Run(Statement::Commit))
    );
    let mut table = Table::new();
    assert_eq!(import_into(&mut table, ALICE, &payload, &expansions, clock(0)), 200);
    assert_eq!(rows_of(&mut table, 7), vec![]);
}

#[test]
fn an_import_records_every_measurement() {
    let (payload, expansions) = batch(3);
    let mut table = Table::new();
    assert_eq!(import_into(&mut table, ALICE, &payload, &expansions, clock(5_000)), 200);
    assert_eq!(
        rows_of(&mut table, 7),
        vec![
            stored(3, 7, 62, 102, 1_002),
            stored(2, 7, 61, 101, 1_001),
            stored(1, 7, 60, 100, 1_000),
        ]
    );
    assert_eq!(rows_of(&mut table, 8), vec![]);
    assert_eq!(table.execute(Statement::Begin, clock(0)), Reply::Done);
}

#[test]
fn an_import_adds_to_what_the_store_holds() {
    let (payload, expansions) = batch(2);
    let mut table = Table::new();
    assert_eq!(import_into(&mut table, BOB, &payload, &expansions, clock(0)), 200);
    assert_eq!(import_into(&mut table, ALICE, &payload, &expansions, clock(0)), 200);
    assert_eq!(
        rows_of(&mut table, 7),
        vec![stored(4, 7, 61, 101, 1_001), stored(3, 7, 60, 100, 1_000)]
    );
    assert_eq!(
        rows_of(&mut table, 8),
        vec![stored(2, 8, 61, 101, 1_001), stored(1, 8, 60, 100, 1_000)]
    );
}

#[test]
fn a_failure_at_any_statement_leaves_no_measurement() {
    let (payload, expansions) = batch(4);
    for failing in 0..6u64 {
        let mut table = Table::new();
        table.execute(
            Statement::InsertDated {
                user_id: 7,
                mass_kg: kilos(1),
                measurement_timestamp: clock(1),
                created_at: clock(1),
            },
            clock(0),
        );
        table.fail_after(failing);
        assert_eq!(import_into(&mut table, ALICE, &payload, &expansions, clock(0)), 500);
        assert_eq!(rows_of(&mut table, 7), vec![stored(1, 7, 1, 1, 1)]);
        assert_eq!(rows_of(&mut table, 8), vec![]);
        assert_eq!(table.execute(Statement::Begin, clock(0)), Reply::Done);
    }
    let mut table = Table::new();
    table.fail_after(6);
    assert_eq!(import_into(&mut table, ALICE, &payload, &expansions, clock(0)), 200);
    assert_eq!(table.execute(Statement::SelectOwned { user_id: 7 }, clock(0)), Reply::Failed);
    assert_eq!(rows_of(&mut table, 7).len(), 4);
}

#[test]
fn a_record_that_cannot_be_stored_leaves_no_measurement() {
    let (mut payload, expansions) = batch(4);
    payload.masses[2].measurement_timestamp = seconds(i64::MIN);
    let mut table = Table::new();
    assert_eq!(import_into(&mut table, ALICE, &payload, &expansions, clock(0)), 500);
    assert_eq!(rows_of(&mut table, 7), vec![]);
    assert_eq!(table.execute(Statement::Begin, clock(0)), Reply::Done);
}

#[test]
fn an_import_inside_an_open_transaction_is_refused() {
    let (payload, expansions) = batch(2);
    let mut table = Table::new();
    assert_eq!(table.execute(Statement::Begin, clock(0)), Reply::Done);
    assert_eq!(import_into(&mut table, ALICE, &payload, &expansions, clock(0)), 500);
    assert_eq!(rows_of(&mut table, 7), vec![]);
    assert_eq!(table.execute(Statement::Commit, clock(0)), Reply::Done);
}

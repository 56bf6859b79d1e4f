//! The records of the application tier.
//!
//! A mass in kilograms is a binary64 number, carried by its bit pattern.
use crate::instant::ApplicationInstant;
use vstd::prelude::*;

verus! {

/// The authenticated user on whose behalf an operation runs. Every statement
/// that the service sends is bound to one, and reaches that user's rows only.
#[derive(Clone, Copy, Debug, PartialEq, Eq, Structural)]
pub struct OwnerIdentity {
    pub user_id: i32,
}

/// A measurement as the service shows it.
#[derive(Clone, Copy, Debug, PartialEq, Eq)]
pub struct Mass {
    /// The key that the store gave the measurement.
    pub id: i32,
    /// The mass in kilograms, as the bits of a binary64 number.
    pub mass_kg: u64,
    /// When the mass was measured.
    pub measurement_timestamp: ApplicationInstant,
    /// When the measurement was recorded.
    pub created_at: ApplicationInstant,
}

/// What a client sends to record a measurement, or to replace one.
#[derive(Clone, Copy, Debug, PartialEq, Eq)]
pub struct NewMass {
    /// The mass in kilograms, as the bits of a binary64 number.
    pub mass_kg: u64,
    /// When the mass was measured. Left out, a new measurement is stamped by
    /// the store, and a replaced one keeps the instant it had.
    pub measurement_timestamp: Option<ApplicationInstant>,
}

/// One measurement of a bulk import. Unlike a measurement recorded singly, it
/// brings the instant of its recording with it.
#[derive(Clone, Copy, Debug, PartialEq, Eq)]
pub struct ImportMasses {
    /// The mass in kilograms, as the bits of a binary64 number.
    pub mass_kg: u64,
    /// When the mass was measured.
    pub measurement_timestamp: ApplicationInstant,
    /// When the measurement was first recorded.
    pub created_at: ApplicationInstant,
}

/// The measurements of one bulk import.
#[derive(Debug, PartialEq, Eq)]
pub struct ImportPayload {
    pub masses: Vec<ImportMasses>,
}

} // verus!

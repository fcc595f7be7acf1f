use vstd::prelude::*;

verus! {

/// Why an operation on the ledger was rejected. A rejected operation leaves
/// the ledger as it was.
#[derive(Clone, Copy, Debug, PartialEq, Eq, Structural)]
pub enum RafflesErrors {
    /// The deadline of a new vault is not strictly after its creation time.
    InvalidCloseDate,
    /// No vault carries the requested id.
    VaultNotFound,
    /// The vault's deadline has passed.
    VaultClosed,
    /// A new participant would exceed the vault's capacity.
    CapacityExceeded,
    /// The caller's balance is below the amount to deposit.
    InsufficientFunds,
    /// The escrow account could not be derived, its address is taken, or the
    /// creator cannot fund it.
    EscrowCreationFailed,
    /// No id counter has been initialized yet.
    CounterNotInitialized,
    /// A counter or total would leave the range of its integer type.
    ArithmeticOverflow,
}

impl RafflesErrors {
    /// A human-readable description of the error.
    pub fn message(&self) -> (r: &'static str) {
        match self {
            RafflesErrors::InvalidCloseDate => "Close date has passed!",
            RafflesErrors::VaultNotFound => "No vault with this id!",
            RafflesErrors::VaultClosed => "This vault is closed!",
            RafflesErrors::CapacityExceeded => "This vault does not allow any more participants!",
            RafflesErrors::InsufficientFunds => "Insufficient funds!",
            RafflesErrors::EscrowCreationFailed => "The escrow account could not be created!",
            RafflesErrors::CounterNotInitialized => "The id counter is not initialized!",
            RafflesErrors::ArithmeticOverflow => "Arithmetic overflow!",
        }
    }
}

} // verus!

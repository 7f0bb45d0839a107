use vstd::prelude::*;

verus! {

/// Every way in which a command can be turned down.
#[derive(Debug, Clone, Copy, PartialEq, Eq, Structural)]
pub enum ContractError {
    NotAuthorized,
    InsufficientFunds,
    ExcessFunds,
    DuplicatePlayerAddress,
    InsufficientQuarters,
    InsufficientGridCells,
    CoordinatesOutOfBounds,
    InvalidGridCellPrice,
    InvalidTeamCount,
    UnknownPlayerAddress,
    InvalidQuarterSplit,
    NotStarted,
    AlreadyResolved,
    AlreadyClaimedRefund,
    AlreadyStarted,
    CellSoldOut,
    GameOver,
}

impl ContractError {
    /// The words in which the error is reported.
    pub open spec fn text(self) -> Seq<char> {
        match self {
            ContractError::NotAuthorized => "NotAuthorized"@,
            ContractError::InsufficientFunds => "InsufficientFunds"@,
            ContractError::ExcessFunds => "ExcessFunds"@,
            ContractError::DuplicatePlayerAddress => "DuplicatePlayerAddress"@,
            ContractError::InsufficientQuarters => "InsufficientQuarters"@,
            ContractError::InsufficientGridCells => "InsufficientGridCells"@,
            ContractError::CoordinatesOutOfBounds => "CoordinatesOutOfBounds"@,
            ContractError::InvalidGridCellPrice => "InvalidGridCellPrice"@,
            ContractError::InvalidTeamCount => "InvalidTeamCount"@,
            ContractError::UnknownPlayerAddress => "UnknownPlayerAddress"@,
            ContractError::InvalidQuarterSplit => "InvalidQuarterSplit"@,
            ContractError::NotStarted => "NotStarted"@,
            ContractError::AlreadyResolved => "AlreadyResolved"@,
            ContractError::AlreadyClaimedRefund => "AlreadyClaimedRefund"@,
            ContractError::AlreadyStarted => "AlreadyStarted"@,
            ContractError::CellSoldOut => "CellSoldOut"@,
            ContractError::GameOver => "GameOver"@,
        }
    }

    /// The words in which the error is reported.
    pub fn to_string(&self) -> (res: String)
        ensures
            res@ == self.text(),
    {
        match self {
            ContractError::NotAuthorized => "NotAuthorized".to_owned(),
            ContractError::InsufficientFunds => "InsufficientFunds".to_owned(),
            ContractError::ExcessFunds => "ExcessFunds".to_owned(),
            ContractError::DuplicatePlayerAddress => "DuplicatePlayerAddress".to_owned(),
            ContractError::InsufficientQuarters => "InsufficientQuarters".to_owned(),
            ContractError::InsufficientGridCells => "InsufficientGridCells".to_owned(),
            ContractError::CoordinatesOutOfBounds => "CoordinatesOutOfBounds".to_owned(),
            ContractError::InvalidGridCellPrice => "InvalidGridCellPrice".to_owned(),
            ContractError::InvalidTeamCount => "InvalidTeamCount".to_owned(),
            ContractError::UnknownPlayerAddress => "UnknownPlayerAddress".to_owned(),
            ContractError::InvalidQuarterSplit => "InvalidQuarterSplit".to_owned(),
            ContractError::NotStarted => "NotStarted".to_owned(),
            ContractError::AlreadyResolved => "AlreadyResolved".to_owned(),
            ContractError::AlreadyClaimedRefund => "AlreadyClaimedRefund".to_owned(),
            ContractError::AlreadyStarted => "AlreadyStarted".to_owned(),
            ContractError::CellSoldOut => "CellSoldOut".to_owned(),
            ContractError::GameOver => "GameOver".to_owned(),
        }
    }
}

} // verus!

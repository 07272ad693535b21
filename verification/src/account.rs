//! Accounts as a program sees them: their address, funds, data and
//! access flags, all held as plain values.

use crate::counter::Counter;
use crate::pubkey::Pubkey;
use vstd::prelude::*;

verus! {

/// One account, with its address, funds, stored data, owner and flags.
#[derive(Clone, PartialEq, Eq, Debug)]
pub struct AccountInfo {
    /// The public key identifying the account.
    pub key: Pubkey,
    /// The funds the account holds.
    pub lamports: u64,
    /// The data stored in the account.
    pub data: Vec<u8>,
    /// The owner of this account, itself an account.
    pub owner: Pubkey,
    /// The epoch at which rent is next due.
    pub rent_epoch: u64,
    /// Whether the transaction is signed with this account's key.
    pub is_signer: bool,
    /// Whether the account data may be modified.
    pub is_writable: bool,
    /// Whether the account is an executable program.
    pub executable: bool,
}

/// Access to the parts of an account a program reads: funds, data,
/// owner, executability and rent epoch.
pub trait Account {
    /// Returns the funds, the data, the owner, whether the account is
    /// executable, and the rent epoch.
    fn get(&mut self) -> (u64, Vec<u8>, Pubkey, bool, u64);
}

impl Account for AccountInfo {
    fn get(&mut self) -> (u64, Vec<u8>, Pubkey, bool, u64) {
        (
            self.lamports,
            self.data.clone(),
            self.owner.clone(),
            self.executable,
            self.rent_epoch,
        )
    }
}

/// The accounts an initialization instruction touches: the counter
/// account derived for the caller, and the caller itself.
#[derive(Clone, PartialEq, Eq, Debug)]
pub struct InitializeAccounts {
    /// The derived counter account to initialize.
    pub pda_counter: Counter,
    /// The caller paying for the initialization.
    pub user: Pubkey,
}

} // verus!

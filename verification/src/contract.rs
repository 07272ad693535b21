//! Stored contract state: an owned contract with a guarded setter and an
//! eraser, a sub-structure of balances and delegates, a fundraiser, a
//! guarded proxy, and a child contract that defers to its parent.
//!
//! Callers that the chain would identify by the message sender hand the
//! sender in as an argument; a balance the chain would be asked for is
//! handed in the same way.

use crate::token::{bal_of, Address};
use vstd::prelude::*;

verus! {

/// A contract with an owner, an activity flag, and a list of hashes.
pub struct Contract {
    /// Who may administer the contract.
    pub owner: Address,
    /// Whether the contract is active.
    pub active: bool,
    /// Stored hashes.
    pub hashes: Vec<u64>,
}

impl Contract {
    /// Gets the owner from storage.
    pub fn owner(&self) -> (r: Result<Address, Vec<u8>>)
        ensures
            r == Ok::<Address, Vec<u8>>(self.owner),
    {
        Ok(self.owner)
    }

    /// Updates the owner, provided the sender is the current owner;
    /// anyone else leaves the contract untouched.
    pub fn set_owner(&mut self, sender: Address, new_owner: Address) -> (r: Result<(), Vec<u8>>)
        ensures
            sender == old(self).owner ==> final(self).owner == new_owner,
            sender != old(self).owner ==> final(self).owner == old(self).owner,
            final(self).active == old(self).active,
            final(self).hashes@ == old(self).hashes@,
            r is Ok,
    {
        let current = match self.owner() {
            Ok(o) => o,
            Err(_) => {
                return Ok(());
            },
        };
        if sender == current {
            self.owner = new_owner;
        }
        Ok(())
    }

    /// Erases the contract's storage: the owner reverts to the zero
    /// address and the hashes are cleared.
    pub fn remove(contract: &mut Contract)
        ensures
            final(contract).owner == (Address { value: 0 }),
            final(contract).hashes@.len() == 0,
            final(contract).active == old(contract).active,
    {
        contract.owner = Address { value: 0 };
        contract.hashes.clear();
    }
}

/// One delegate of a contract.
#[derive(Clone, Copy, PartialEq, Eq, Structural, Debug)]
pub struct Delegate {
    /// The delegate's address.
    pub addr: Address,
}

/// A nested storage structure: a balance journal and a delegate list.
pub struct SubStruct {
    /// Balances per address; the newest entry for an address counts.
    pub balances: Vec<(Address, u64)>,
    /// The registered delegates, oldest first.
    pub delegates: Vec<Delegate>,
}

impl SubStruct {
    /// Registers one more delegate.
    pub fn add_delegate(&mut self, delegate: Delegate) -> (r: Result<(), Vec<u8>>)
        ensures
            final(self).delegates@ == old(self).delegates@.push(delegate),
            final(self).balances@ == old(self).balances@,
            r is Ok,
    {
        self.delegates.push(delegate);
        Ok(())
    }

    /// Records the given balance of `address` as observed now, and
    /// answers with it. Asking the chain for the balance is the caller's
    /// business.
    pub fn track_balance(&mut self, address: Address, balance: u64) -> (r: Result<u64, Vec<u8>>)
        ensures
            bal_of(final(self).balances@, address) == balance,
            forall|b: Address|
                b != address ==> #[trigger] bal_of(final(self).balances@, b) == bal_of(
                    old(self).balances@,
                    b,
                ),
            final(self).delegates@ == old(self).delegates@,
            r == Ok::<u64, Vec<u8>>(balance),
    {
        let ghost v0 = self.balances@;
        self.balances.push((address, balance));
        proof {
            assert(self.balances@.drop_last() =~= v0);
        }
        Ok(balance)
    }
}

/// A fundraiser accumulating donations.
pub struct Fundraiser {
    /// What was donated so far.
    pub raised: u64,
}

impl Fundraiser {
    /// Receives a donation of `value`.
    pub fn donate(&mut self, value: u64) -> (r: Result<(), Vec<u8>>)
        requires
            old(self).raised + value <= u64::MAX,
        ensures
            final(self).raised == old(self).raised + value,
            r is Ok,
    {
        self.raised = self.raised + value;
        Ok(())
    }
}

/// A proxy that only its owner may drive.
pub struct Proxy {
    /// Who may drive the proxy.
    pub owner: Address,
}

impl Proxy {
    /// Admits the sender only if it is the owner.
    pub fn only_owner(&self, sender: Address) -> (r: Result<(), Vec<u8>>)
        ensures
            r is Ok <==> sender == self.owner,
            r matches Err(e) ==> e@.len() == 0,
    {
        if self.owner != sender {
            return Err(Vec::new());
        }
        Ok(())
    }
}

/// A parent contract counting the calls it served.
pub struct Parent {
    /// How often the parent was called.
    pub calls: u64,
}

impl Parent {
    /// Serves one call.
    pub fn parent_method(&mut self)
        requires
            old(self).calls < u64::MAX,
        ensures
            final(self).calls == old(self).calls + 1,
    {
        self.calls = self.calls + 1;
    }
}

/// A child contract that borrows its parent's behaviour.
pub struct Child {
    /// The asset the child manages.
    pub asset: Address,
    /// Shares in circulation.
    pub total_supply: u64,
    /// The inherited parent.
    pub parent: Parent,
}

impl Child {
    /// Defers to the parent and reports success.
    pub fn child_method(&mut self, amount: u64) -> (r: Result<(), Vec<u8>>)
        requires
            old(self).parent.calls < u64::MAX,
        ensures
            final(self).parent.calls == old(self).parent.calls + 1,
            final(self).asset == old(self).asset,
            final(self).total_supply == old(self).total_supply,
            r is Ok,
    {
        let _ = amount;
        self.parent.parent_method();
        Ok(())
    }
}

} // verus!

//! A fungible token ledger: balances and allowances per address, minting,
//! transfers, approvals and burning, with a wrapping token and a vault on
//! top.
//!
//! The ledger is kept as a journal: the newest entry for an address is
//! its balance. Callers that the chain would identify by the message
//! sender hand the sender in as an argument instead.

use vstd::prelude::*;

verus! {

/// An account address, by its numeric value.
#[derive(Clone, Copy, PartialEq, Eq, Structural, Hash, Debug)]
pub struct Address {
    /// The numeric value of the address.
    pub value: u64,
}

/// The balance the journal assigns to `a`: its newest entry, or zero.
pub open spec fn bal_of(entries: Seq<(Address, u64)>, a: Address) -> u64
    decreases entries.len(),
{
    if entries.len() == 0 {
        0
    } else if entries.last().0 == a {
        entries.last().1
    } else {
        bal_of(entries.drop_last(), a)
    }
}

/// The allowance the journal assigns to the pair of owner and spender:
/// its newest entry, or zero.
pub open spec fn allowance_of(
    entries: Seq<(Address, Address, u64)>,
    owner: Address,
    spender: Address,
) -> u64
    decreases entries.len(),
{
    if entries.len() == 0 {
        0
    } else if entries.last().0 == owner && entries.last().1 == spender {
        entries.last().2
    } else {
        allowance_of(entries.drop_last(), owner, spender)
    }
}

/// Why a token operation failed.
#[derive(Clone, Copy, PartialEq, Eq, Structural, Debug)]
pub enum Erc20Error {
    /// The sender held less than the operation needed.
    InsufficientBalance {
        /// Whose balance fell short.
        from: Address,
        /// What that balance was.
        have: u64,
        /// What the operation needed.
        want: u64,
    },
}

/// The token ledger: balances, allowances, and the total supply.
pub struct Erc20 {
    balances: Vec<(Address, u64)>,
    allowances: Vec<(Address, Address, u64)>,
    total_supply: u64,
}

impl Erc20 {
    /// The balance of `a`.
    pub closed spec fn balance(self, a: Address) -> u64 {
        bal_of(self.balances@, a)
    }

    /// The allowance `owner` granted `spender`.
    pub closed spec fn allowance(self, owner: Address, spender: Address) -> u64 {
        allowance_of(self.allowances@, owner, spender)
    }

    /// The total number of tokens in circulation.
    pub closed spec fn supply(self) -> u64 {
        self.total_supply
    }

    /// An empty ledger: no balances, no allowances, nothing minted.
    pub fn new() -> (r: Erc20)
        ensures
            forall|a: Address| #[trigger] r.balance(a) == 0,
            forall|o: Address, s: Address| #[trigger] r.allowance(o, s) == 0,
            r.supply() == 0,
    {
        Erc20 { balances: Vec::new(), allowances: Vec::new(), total_supply: 0 }
    }

    /// Looks the balance of `a` up in the journal, newest entry first.
    fn balance_lookup(&self, a: Address) -> (r: u64)
        ensures
            r == self.balance(a),
    {
        let ghost v = self.balances@;
        let mut i: usize = self.balances.len();
        proof {
            assert(v.subrange(0, i as int) =~= v);
        }
        while i > 0
            invariant
                i <= self.balances.len(),
                v == self.balances@,
                bal_of(v, a) == bal_of(v.subrange(0, i as int), a),
            decreases i,
        {
            i = i - 1;
            proof {
                assert(v.subrange(0, i + 1 as int).last() == v[i as int]);
                assert(v.subrange(0, i + 1 as int).drop_last() =~= v.subrange(0, i as int));
            }
            if self.balances[i].0 == a {
                return self.balances[i].1;
            }
        }
        proof {
            assert(v.subrange(0, 0) =~= Seq::<(Address, u64)>::empty());
        }
        0
    }

    /// Appends a journal entry setting the balance of `a` to `v`.
    fn balance_put(&mut self, a: Address, v: u64)
        ensures
            final(self).balance(a) == v,
            forall|b: Address| b != a ==> #[trigger] final(self).balance(b) == old(self).balance(b),
            final(self).supply() == old(self).supply(),
            forall|o: Address, s: Address|
                #[trigger] final(self).allowance(o, s) == old(self).allowance(o, s),
    {
        let ghost v0 = self.balances@;
        self.balances.push((a, v));
        proof {
            assert(self.balances@.drop_last() =~= v0);
        }
    }

    /// Mints `value` fresh tokens to `address`.
    pub fn mint(&mut self, address: Address, value: u64)
        requires
            old(self).balance(address) + value <= u64::MAX,
            old(self).supply() + value <= u64::MAX,
        ensures
            final(self).balance(address) == old(self).balance(address) + value,
            forall|b: Address|
                b != address ==> #[trigger] final(self).balance(b) == old(self).balance(b),
            final(self).supply() == old(self).supply() + value,
            forall|o: Address, s: Address|
                #[trigger] final(self).allowance(o, s) == old(self).allowance(o, s),
    {
        let current = self.balance_lookup(address);
        self.balance_put(address, current + value);
        let ghost mid = *self;
        self.total_supply = self.total_supply + value;
        proof {
            assert(self.balances@ == mid.balances@);
            assert(self.allowances@ == mid.allowances@);
            assert forall|b: Address| b != address implies #[trigger] self.balance(b) == old(
                self,
            ).balance(b) by {
                assert(mid.balance(b) == old(self).balance(b));
            }
            assert(self.balance(address) == mid.balance(address));
            assert forall|o: Address, s: Address| #[trigger] self.allowance(o, s) == old(
                self,
            ).allowance(o, s) by {
                assert(mid.allowance(o, s) == old(self).allowance(o, s));
            }
        }
    }

    /// The balance of `address`; always answers.
    pub fn balance_of(&self, address: Address) -> (r: Result<u64, Erc20Error>)
        ensures
            r == Ok::<u64, Erc20Error>(self.balance(address)),
    {
        Ok(self.balance_lookup(address))
    }

    /// Transfers `value` from `from` to `to`. The sender must hold at
    /// least `value`; otherwise the ledger is untouched and the shortfall
    /// reported.
    pub fn transfer_impl(&mut self, from: Address, to: Address, value: u64) -> (r: Result<
        (),
        Erc20Error,
    >)
        requires
            old(self).balance(from) >= value && from != to ==> old(self).balance(to) + value
                <= u64::MAX,
        ensures
            old(self).balance(from) < value ==> r == Err::<(), Erc20Error>(
                Erc20Error::InsufficientBalance {
                    from,
                    have: old(self).balance(from),
                    want: value,
                },
            ) && *final(self) == *old(self),
            old(self).balance(from) >= value ==> {
                &&& r == Ok::<(), Erc20Error>(())
                &&& final(self).supply() == old(self).supply()
                &&& (from == to ==> forall|b: Address|
                    #[trigger] final(self).balance(b) == old(self).balance(b))
                &&& (from != to ==> final(self).balance(from) == old(self).balance(from) - value
                    && final(self).balance(to) == old(self).balance(to) + value && forall|
                    b: Address,
                |
                    b != from && b != to ==> #[trigger] final(self).balance(b) == old(
                        self,
                    ).balance(b))
                &&& forall|o: Address, s: Address|
                    #[trigger] final(self).allowance(o, s) == old(self).allowance(o, s)
            },
    {
        let old_sender_balance = self.balance_lookup(from);
        if old_sender_balance < value {
            return Err(
                Erc20Error::InsufficientBalance { from, have: old_sender_balance, want: value },
            );
        }
        self.balance_put(from, old_sender_balance - value);
        let ghost mid = *self;
        let to_balance = self.balance_lookup(to);
        self.balance_put(to, to_balance + value);
        proof {
            assert(self.balance(to) == to_balance + value);
            if from != to {
                assert(self.balance(from) == mid.balance(from));
                assert(mid.balance(from) == old(self).balance(from) - value);
                assert(mid.balance(to) == old(self).balance(to));
            } else {
                assert(to_balance == old(self).balance(from) - value);
                assert forall|b: Address| #[trigger] self.balance(b) == old(self).balance(
                    b,
                ) by {
                    if b != to {
                        assert(self.balance(b) == mid.balance(b));
                        assert(mid.balance(b) == old(self).balance(b));
                    }
                }
            }
            assert forall|b: Address| b != from && b != to implies #[trigger] self.balance(b)
                == old(self).balance(b) by {
                assert(self.balance(b) == mid.balance(b));
                assert(mid.balance(b) == old(self).balance(b));
            }
            assert(self.supply() == mid.supply());
            assert forall|o: Address, s: Address| #[trigger] self.allowance(o, s) == old(
                self,
            ).allowance(o, s) by {
                assert(mid.allowance(o, s) == old(self).allowance(o, s));
            }
        }
        Ok(())
    }

    /// Transfers `value` from `sender` to `to` and answers `true` on
    /// success.
    pub fn transfer(&mut self, sender: Address, to: Address, value: u64) -> (r: Result<
        bool,
        Erc20Error,
    >)
        requires
            old(self).balance(sender) >= value && sender != to ==> old(self).balance(to) + value
                <= u64::MAX,
        ensures
            old(self).balance(sender) < value ==> r == Err::<bool, Erc20Error>(
                Erc20Error::InsufficientBalance {
                    from: sender,
                    have: old(self).balance(sender),
                    want: value,
                },
            ) && *final(self) == *old(self),
            old(self).balance(sender) >= value ==> r == Ok::<bool, Erc20Error>(true),
    {
        match self.transfer_impl(sender, to, value) {
            Ok(()) => Ok(true),
            Err(e) => Err(e),
        }
    }

    /// Grants `spender` an allowance of `value` out of `sender`'s
    /// balance.
    pub fn approve(&mut self, sender: Address, spender: Address, value: u64) -> (r: Result<
        bool,
        Erc20Error,
    >)
        ensures
            final(self).allowance(sender, spender) == value,
            forall|o: Address, s: Address|
                !(o == sender && s == spender) ==> #[trigger] final(self).allowance(o, s) == old(
                    self,
                ).allowance(o, s),
            forall|b: Address| #[trigger] final(self).balance(b) == old(self).balance(b),
            final(self).supply() == old(self).supply(),
            r == Ok::<bool, Erc20Error>(true),
    {
        let ghost v0 = self.allowances@;
        self.allowances.push((sender, spender, value));
        proof {
            assert(self.allowances@.drop_last() =~= v0);
        }
        Ok(true)
    }

    /// Burns `value` tokens out of `from`'s balance. The holder must own
    /// at least `value`; otherwise the ledger is untouched and the
    /// shortfall reported.
    pub fn burn(&mut self, from: Address, value: u64) -> (r: Result<(), Erc20Error>)
        requires
            old(self).balance(from) >= value ==> old(self).supply() >= value,
        ensures
            old(self).balance(from) < value ==> r == Err::<(), Erc20Error>(
                Erc20Error::InsufficientBalance {
                    from,
                    have: old(self).balance(from),
                    want: value,
                },
            ) && *final(self) == *old(self),
            old(self).balance(from) >= value ==> {
                &&& r == Ok::<(), Erc20Error>(())
                &&& final(self).balance(from) == old(self).balance(from) - value
                &&& forall|b: Address|
                    b != from ==> #[trigger] final(self).balance(b) == old(self).balance(b)
                &&& final(self).supply() == old(self).supply() - value
                &&& forall|o: Address, s: Address|
                    #[trigger] final(self).allowance(o, s) == old(self).allowance(o, s)
            },
    {
        let have = self.balance_lookup(from);
        if have < value {
            return Err(Erc20Error::InsufficientBalance { from, have, want: value });
        }
        self.balance_put(from, have - value);
        let ghost mid = *self;
        self.total_supply = self.total_supply - value;
        proof {
            assert(self.balances@ == mid.balances@);
            assert(self.allowances@ == mid.allowances@);
            assert(self.balance(from) == mid.balance(from));
            assert forall|b: Address| b != from implies #[trigger] self.balance(b) == old(
                self,
            ).balance(b) by {
                assert(self.balance(b) == mid.balance(b));
                assert(mid.balance(b) == old(self).balance(b));
            }
            assert forall|o: Address, s: Address| #[trigger] self.allowance(o, s) == old(
                self,
            ).allowance(o, s) by {
                assert(mid.allowance(o, s) == old(self).allowance(o, s));
            }
        }
        Ok(())
    }
}

/// A token whose public mint credits the message sender.
pub struct Token {
    /// The underlying ledger.
    pub erc20: Erc20,
}

impl Token {
    /// Mints `amount` to `sender`.
    pub fn mint(&mut self, sender: Address, amount: u64) -> (r: Result<(), Vec<u8>>)
        requires
            old(self).erc20.balance(sender) + amount <= u64::MAX,
            old(self).erc20.supply() + amount <= u64::MAX,
        ensures
            final(self).erc20.balance(sender) == old(self).erc20.balance(sender) + amount,
            forall|b: Address|
                b != sender ==> #[trigger] final(self).erc20.balance(b) == old(
                    self,
                ).erc20.balance(b),
            final(self).erc20.supply() == old(self).erc20.supply() + amount,
            r is Ok,
    {
        self.erc20.mint(sender, amount);
        Ok(())
    }
}

/// Why a vault operation failed.
#[derive(Clone, Copy, PartialEq, Eq, Structural, Debug)]
pub enum VaultError {
    /// The share computation overflowed.
    Overflow,
    /// The vault holds no assets to divide by.
    DivideByZero,
    /// The holder owned fewer shares than withdrawn.
    InsufficientBalance,
}

/// A vault of shares over an asset balance.
pub struct Vault {
    /// Shares in circulation.
    pub total_supply: u64,
    /// Assets the vault holds.
    pub total_assets: u64,
    /// The share ledger.
    pub erc20: Erc20,
}

impl Vault {
    /// Withdraws `amount` from the vault: validates the share
    /// computation, burns the withdrawn amount from `sender`'s ledger
    /// balance, and answers with the amount to pay out. Paying it out is
    /// the caller's business.
    pub fn withdraw(&mut self, sender: Address, amount: u64) -> (r: Result<u64, VaultError>)
        requires
            old(self).erc20.balance(sender) >= amount ==> old(self).erc20.supply() >= amount,
        ensures
            old(self).total_supply != 0 && amount * old(self).total_supply > u64::MAX ==> r
                == Err::<u64, VaultError>(VaultError::Overflow) && *final(self) == *old(self),
            old(self).total_supply != 0 && amount * old(self).total_supply <= u64::MAX && old(
                self,
            ).total_assets == 0 ==> r == Err::<u64, VaultError>(VaultError::DivideByZero)
                && *final(self) == *old(self),
            (old(self).total_supply == 0 || (amount * old(self).total_supply <= u64::MAX && old(
                self,
            ).total_assets != 0)) ==> {
                &&& (old(self).erc20.balance(sender) < amount ==> r == Err::<u64, VaultError>(
                    VaultError::InsufficientBalance,
                ) && *final(self) == *old(self))
                &&& (old(self).erc20.balance(sender) >= amount ==> {
                    &&& r == Ok::<u64, VaultError>(amount)
                    &&& final(self).erc20.balance(sender) == old(self).erc20.balance(sender)
                        - amount
                    &&& final(self).erc20.supply() == old(self).erc20.supply() - amount
                    &&& final(self).total_supply == old(self).total_supply
                    &&& final(self).total_assets == old(self).total_assets
                })
            },
    {
        let supply = self.total_supply;
        let _shares: u64;
        if supply == 0 {
            _shares = amount;
        } else {
            match amount.checked_mul(supply) {
                None => {
                    return Err(VaultError::Overflow);
                },
                Some(product) => match product.checked_div(self.total_assets) {
                    None => {
                        return Err(VaultError::DivideByZero);
                    },
                    Some(q) => {
                        _shares = q;
                    },
                },
            }
        }
        match self.erc20.burn(sender, amount) {
            Err(_) => Err(VaultError::InsufficientBalance),
            Ok(()) => Ok(amount),
        }
    }
}

} // verus!

//! The ledger as a mathematical value, and what each of its operations does
//! to it.

use crate::error::LedgerError;
use crate::pubkey::Pubkey;
use crate::state::offer::Offer;
use crate::total::{lemma_total_insert, lemma_total_remove, total};
use vstd::prelude::*;

verus! {

/// Names a token account: the holdings of one owner in one asset. An owner has
/// at most one account for an asset.
#[derive(Clone, Copy, Debug, PartialEq, Eq)]
pub struct TokenAccountId {
    /// Who controls the account: a party, or the derived authority of an offer.
    pub owner: Pubkey,
    /// The asset that the account holds.
    pub mint: Pubkey,
}

/// What a token account holds.
#[derive(Clone, Copy, Debug, PartialEq, Eq)]
pub struct TokenAccount {
    /// The balance, in units of the account's asset.
    pub amount: u64,
    /// The storage deposit set aside when the account was opened. It goes to
    /// the recipient named when the account is closed.
    pub deposit: u64,
}

/// An offer on the ledger, with the storage deposit set aside for its record.
#[derive(Clone, Copy, Debug, PartialEq, Eq)]
pub struct OfferRecord {
    pub offer: Offer,
    pub deposit: u64,
}

/// A call on the asset ledger. The ledger offers these two and no others.
#[derive(Clone, Copy, Debug, PartialEq, Eq)]
pub enum LedgerCall {
    /// Move `amount` tokens of the asset `mint` from one account to another.
    Transfer { from: TokenAccountId, to: TokenAccountId, amount: u64, mint: Pubkey },
    /// Close an empty account and hand its storage deposit to `recipient`.
    CloseAccount { account: TokenAccountId, recipient: Pubkey },
}

/// Weighs a token account by its balance, where it holds `mint`.
pub open spec fn tokens_of(mint: Pubkey) -> spec_fn(TokenAccountId, TokenAccount) -> nat {
    |id: TokenAccountId, account: TokenAccount|
        if id.mint == mint {
            account.amount as nat
        } else {
            0nat
        }
}

/// Weighs a token account by its storage deposit.
pub open spec fn account_deposit() -> spec_fn(TokenAccountId, TokenAccount) -> nat {
    |id: TokenAccountId, account: TokenAccount| account.deposit as nat
}

/// Weighs an offer record by its storage deposit.
pub open spec fn record_deposit() -> spec_fn(u64, OfferRecord) -> nat {
    |id: u64, record: OfferRecord| record.deposit as nat
}

/// Weighs a reserve balance by its amount.
pub open spec fn reserve_amount() -> spec_fn(Pubkey, u64) -> nat {
    |owner: Pubkey, amount: u64| amount as nat
}

/// The ledger as a mathematical value.
#[verifier::ext_equal]
pub struct LedgerView {
    /// The program in whose name offers sign for their vaults.
    pub program_id: Pubkey,
    /// The token accounts that exist.
    pub accounts: Map<TokenAccountId, TokenAccount>,
    /// The live offers, by identifier.
    pub offers: Map<u64, OfferRecord>,
    /// The reserve balance of each identity that has one.
    pub reserves: Map<Pubkey, u64>,
    /// The identifiers of settled offers. None is ever used again.
    pub retired: Set<u64>,
}

impl LedgerView {
    /// The balance of a token account; zero where the account does not exist.
    pub open spec fn balance(self, id: TokenAccountId) -> nat {
        if self.accounts.contains_key(id) {
            self.accounts[id].amount as nat
        } else {
            0
        }
    }

    /// The storage deposit of a token account; zero where the account does
    /// not exist.
    pub open spec fn deposit(self, id: TokenAccountId) -> nat {
        if self.accounts.contains_key(id) {
            self.accounts[id].deposit as nat
        } else {
            0
        }
    }

    /// The reserve balance of an identity; zero where it has none.
    pub open spec fn reserve(self, owner: Pubkey) -> nat {
        if self.reserves.contains_key(owner) {
            self.reserves[owner] as nat
        } else {
            0
        }
    }

    /// All tokens of one asset, over every account.
    pub open spec fn supply(self, mint: Pubkey) -> nat {
        total(self.accounts, tokens_of(mint))
    }

    /// All reserve on the ledger: the reserve balances, and the deposits set
    /// aside for token accounts and offer records.
    pub open spec fn reserve_supply(self) -> nat {
        total(self.reserves, reserve_amount()) + total(self.accounts, account_deposit()) + total(
            self.offers,
            record_deposit(),
        )
    }

    /// What holds of every ledger: it is finite, each offer stands under its
    /// own identifier, no settled identifier is live, and neither the tokens of
    /// an asset nor the reserve outgrow a `u64`.
    pub open spec fn wf(self) -> bool {
        &&& self.accounts.dom().finite()
        &&& self.offers.dom().finite()
        &&& self.reserves.dom().finite()
        &&& forall|id: u64| #[trigger]
            self.offers.contains_key(id) ==> self.offers[id].offer.id == id && !self.retired.contains(
                id,
            )
        &&& forall|mint: Pubkey| #[trigger] self.supply(mint) <= u64::MAX
        &&& self.reserve_supply() <= u64::MAX
    }

    /// The ledger with `amount` more in the reserve of `owner`.
    pub open spec fn credit(self, owner: Pubkey, amount: nat) -> LedgerView {
        LedgerView {
            reserves: self.reserves.insert(owner, (self.reserve(owner) + amount) as u64),
            ..self
        }
    }

    /// The ledger with `amount` less in the reserve of `owner`.
    pub open spec fn debit(self, owner: Pubkey, amount: nat) -> LedgerView {
        LedgerView {
            reserves: self.reserves.insert(owner, (self.reserve(owner) - amount) as u64),
            ..self
        }
    }

    /// The ledger with an empty token account under `id`, opened without a
    /// deposit where none existed.
    pub open spec fn with_account(self, id: TokenAccountId) -> LedgerView {
        if self.accounts.contains_key(id) {
            self
        } else {
            LedgerView {
                accounts: self.accounts.insert(id, TokenAccount { amount: 0, deposit: 0 }),
                ..self
            }
        }
    }

    /// The ledger after `payer` opened the empty token account `id` and set
    /// `deposit` aside for it, or the reason for which the ledger refuses.
    pub open spec fn open_account(self, payer: Pubkey, id: TokenAccountId, deposit: u64) -> Result<
        LedgerView,
        LedgerError,
    > {
        if self.accounts.contains_key(id) {
            Err(LedgerError::AccountInUse)
        } else if self.reserve(payer) < deposit {
            Err(LedgerError::InsufficientFunds)
        } else {
            Ok(
                LedgerView {
                    accounts: self.accounts.insert(id, TokenAccount { amount: 0, deposit }),
                    ..self
                }.debit(payer, deposit as nat),
            )
        }
    }

    /// The ledger after the whole supply of the asset `id.mint`, `amount`
    /// tokens, was issued to the account `id`, or the reason for which the
    /// ledger refuses.
    pub open spec fn issue(self, id: TokenAccountId, amount: u64) -> Result<
        LedgerView,
        LedgerError,
    > {
        if !self.accounts.contains_key(id) {
            Err(LedgerError::AccountNotFound)
        } else if self.supply(id.mint) != 0 {
            Err(LedgerError::AlreadyIssued)
        } else {
            Ok(
                LedgerView {
                    accounts: self.accounts.insert(
                        id,
                        TokenAccount { amount, ..self.accounts[id] },
                    ),
                    ..self
                },
            )
        }
    }

    /// The ledger after `offer` was put on record, with `deposit` of the
    /// reserve of `payer` set aside for the record, or the reason for which
    /// the ledger refuses.
    pub open spec fn register(self, payer: Pubkey, offer: Offer, deposit: u64) -> Result<
        LedgerView,
        LedgerError,
    > {
        if self.offers.contains_key(offer.id) || self.retired.contains(offer.id) {
            Err(LedgerError::OfferIdInUse)
        } else if self.reserve(payer) < deposit {
            Err(LedgerError::InsufficientFunds)
        } else {
            Ok(
                LedgerView {
                    offers: self.offers.insert(offer.id, OfferRecord { offer, deposit }),
                    ..self
                }.debit(payer, deposit as nat),
            )
        }
    }

    /// The ledger after the record of the offer `id` was destroyed: the
    /// identifier is retired and the deposit of the record lies in the
    /// reserve of `recipient`.
    pub open spec fn retire(self, id: u64, recipient: Pubkey) -> LedgerView {
        LedgerView {
            offers: self.offers.remove(id),
            retired: self.retired.insert(id),
            ..self
        }.credit(recipient, self.offers[id].deposit as nat)
    }

    /// The ledger after a transfer of `amount` tokens of `mint` from one
    /// account to another, or the reason for which the ledger rejects it.
    pub open spec fn transfer(
        self,
        from: TokenAccountId,
        to: TokenAccountId,
        amount: u64,
        mint: Pubkey,
        authority: Pubkey,
    ) -> Result<LedgerView, LedgerError> {
        if !self.accounts.contains_key(from) || !self.accounts.contains_key(to) {
            Err(LedgerError::AccountNotFound)
        } else if from.mint != mint || to.mint != mint {
            Err(LedgerError::MintMismatch)
        } else if from.owner != authority {
            Err(LedgerError::InvalidAuthority)
        } else if self.accounts[from].amount < amount {
            Err(LedgerError::InsufficientFunds)
        } else if from == to {
            Ok(self)
        } else {
            Ok(
                LedgerView {
                    accounts: self.accounts.insert(
                        from,
                        TokenAccount {
                            amount: (self.accounts[from].amount - amount) as u64,
                            ..self.accounts[from]
                        },
                    ).insert(
                        to,
                        TokenAccount {
                            amount: (self.accounts[to].amount + amount) as u64,
                            ..self.accounts[to]
                        },
                    ),
                    ..self
                },
            )
        }
    }

    /// The ledger after the closure of a token account, its deposit gone to
    /// the reserve of `recipient`, or the reason for which the ledger rejects
    /// the closure.
    pub open spec fn close(
        self,
        account: TokenAccountId,
        recipient: Pubkey,
        authority: Pubkey,
    ) -> Result<LedgerView, LedgerError> {
        if !self.accounts.contains_key(account) {
            Err(LedgerError::AccountNotFound)
        } else if account.owner != authority {
            Err(LedgerError::InvalidAuthority)
        } else if self.accounts[account].amount != 0 {
            Err(LedgerError::AccountNotEmpty)
        } else {
            Ok(
                LedgerView { accounts: self.accounts.remove(account), ..self }.credit(
                    recipient,
                    self.accounts[account].deposit as nat,
                ),
            )
        }
    }
}

impl LedgerView {
    /// The ledger after a call made for `authority`, or the reason for which
    /// the ledger rejects the call.
    pub open spec fn perform(self, call: LedgerCall, authority: Pubkey) -> Result<
        LedgerView,
        LedgerError,
    > {
        match call {
            LedgerCall::Transfer { from, to, amount, mint } => self.transfer(
                from,
                to,
                amount,
                mint,
                authority,
            ),
            LedgerCall::CloseAccount { account, recipient } => self.close(
                account,
                recipient,
                authority,
            ),
        }
    }

    /// A call that the ledger accepts keeps the ledger well-formed and leaves
    /// the supply of every asset, and the reserve on the ledger, as they were.
    pub proof fn lemma_perform(self, call: LedgerCall, authority: Pubkey)
        requires
            self.wf(),
            self.perform(call, authority) is Ok,
        ensures
            self.perform(call, authority)->Ok_0.wf(),
            forall|m: Pubkey|
                #[trigger] self.perform(call, authority)->Ok_0.supply(m) == self.supply(m),
            self.perform(call, authority)->Ok_0.reserve_supply() == self.reserve_supply(),
    {
        match call {
            LedgerCall::Transfer { from, to, amount, mint } => {
                self.lemma_transfer(from, to, amount, mint, authority);
            },
            LedgerCall::CloseAccount { account, recipient } => {
                self.lemma_close(account, recipient, authority);
            },
        }
    }

    /// Two distinct accounts of one asset hold no more together than the
    /// asset's supply.
    pub proof fn lemma_pair_within_supply(self, a: TokenAccountId, b: TokenAccountId)
        requires
            self.accounts.dom().finite(),
            self.accounts.contains_key(a),
            self.accounts.contains_key(b),
            a != b,
            a.mint == b.mint,
        ensures
            self.accounts[a].amount + self.accounts[b].amount <= self.supply(a.mint),
    {
        let w = tokens_of(a.mint);
        lemma_total_remove(self.accounts, w, a);
        lemma_total_remove(self.accounts.remove(a), w, b);
    }

    /// A reserve balance and the deposit of a token account are no more
    /// together than the reserve on the ledger.
    pub proof fn lemma_deposit_within_reserve(self, owner: Pubkey, account: TokenAccountId)
        requires
            self.accounts.dom().finite(),
            self.reserves.dom().finite(),
            self.accounts.contains_key(account),
        ensures
            self.reserve(owner) + self.accounts[account].deposit <= self.reserve_supply(),
    {
        lemma_total_remove(self.accounts, account_deposit(), account);
        if self.reserves.contains_key(owner) {
            lemma_total_remove(self.reserves, reserve_amount(), owner);
        }
    }

    /// A reserve balance and the deposit of an offer record are no more
    /// together than the reserve on the ledger.
    pub proof fn lemma_record_within_reserve(self, owner: Pubkey, id: u64)
        requires
            self.offers.dom().finite(),
            self.reserves.dom().finite(),
            self.offers.contains_key(id),
        ensures
            self.reserve(owner) + self.offers[id].deposit <= self.reserve_supply(),
    {
        lemma_total_remove(self.offers, record_deposit(), id);
        if self.reserves.contains_key(owner) {
            lemma_total_remove(self.reserves, reserve_amount(), owner);
        }
    }

    /// A credit adds its amount to the reserve balances.
    pub proof fn lemma_credit(self, owner: Pubkey, amount: nat)
        requires
            self.reserves.dom().finite(),
            self.reserve(owner) + amount <= u64::MAX,
        ensures
            total(self.credit(owner, amount).reserves, reserve_amount()) == total(
                self.reserves,
                reserve_amount(),
            ) + amount,
            self.credit(owner, amount).reserve(owner) == self.reserve(owner) + amount,
    {
        lemma_total_insert(
            self.reserves,
            reserve_amount(),
            owner,
            (self.reserve(owner) + amount) as u64,
        );
    }

    /// A debit takes its amount from the reserve balances.
    pub proof fn lemma_debit(self, owner: Pubkey, amount: nat)
        requires
            self.reserves.dom().finite(),
            amount <= self.reserve(owner),
        ensures
            total(self.debit(owner, amount).reserves, reserve_amount()) + amount == total(
                self.reserves,
                reserve_amount(),
            ),
            self.debit(owner, amount).reserve(owner) == self.reserve(owner) - amount,
    {
        lemma_total_insert(
            self.reserves,
            reserve_amount(),
            owner,
            (self.reserve(owner) - amount) as u64,
        );
    }

    /// An account opened on demand changes neither a supply nor the reserve.
    pub proof fn lemma_with_account(self, id: TokenAccountId)
        requires
            self.wf(),
        ensures
            self.with_account(id).wf(),
            forall|m: Pubkey| #[trigger] self.with_account(id).supply(m) == self.supply(m),
            self.with_account(id).reserve_supply() == self.reserve_supply(),
    {
        let after = self.with_account(id);
        if !self.accounts.contains_key(id) {
            let opened = TokenAccount { amount: 0, deposit: 0 };
            assert forall|m: Pubkey| #[trigger] after.supply(m) == self.supply(m) by {
                lemma_total_insert(self.accounts, tokens_of(m), id, opened);
            }
            lemma_total_insert(self.accounts, account_deposit(), id, opened);
            assert forall|m: Pubkey| #[trigger] after.supply(m) <= u64::MAX by {
                assert(self.supply(m) <= u64::MAX);
            }
        }
    }

    /// An account that the ledger opens keeps the ledger well-formed: the
    /// deposit moves from the payer's reserve to the account, and no supply
    /// changes.
    pub proof fn lemma_open_account(self, payer: Pubkey, id: TokenAccountId, deposit: u64)
        requires
            self.wf(),
            self.open_account(payer, id, deposit) is Ok,
        ensures
            self.open_account(payer, id, deposit)->Ok_0.wf(),
            forall|m: Pubkey|
                #[trigger] self.open_account(payer, id, deposit)->Ok_0.supply(m) == self.supply(m),
            self.open_account(payer, id, deposit)->Ok_0.reserve_supply() == self.reserve_supply(),
    {
        let after = self.open_account(payer, id, deposit)->Ok_0;
        let opened = TokenAccount { amount: 0, deposit };
        let with = LedgerView { accounts: self.accounts.insert(id, opened), ..self };
        with.lemma_debit(payer, deposit as nat);
        assert forall|m: Pubkey| #[trigger] after.supply(m) == self.supply(m) by {
            lemma_total_insert(self.accounts, tokens_of(m), id, opened);
        }
        lemma_total_insert(self.accounts, account_deposit(), id, opened);
        assert forall|m: Pubkey| #[trigger] after.supply(m) <= u64::MAX by {
            assert(self.supply(m) <= u64::MAX);
        }
    }

    /// An issue that the ledger accepts keeps the ledger well-formed: the
    /// asset's supply is the amount issued, and nothing else changes.
    pub proof fn lemma_issue(self, id: TokenAccountId, amount: u64)
        requires
            self.wf(),
            self.issue(id, amount) is Ok,
        ensures
            self.issue(id, amount)->Ok_0.wf(),
            self.issue(id, amount)->Ok_0.supply(id.mint) == amount,
            forall|m: Pubkey|
                m != id.mint ==> #[trigger] self.issue(id, amount)->Ok_0.supply(m) == self.supply(m),
            self.issue(id, amount)->Ok_0.reserve_supply() == self.reserve_supply(),
    {
        let after = self.issue(id, amount)->Ok_0;
        let issued = TokenAccount { amount, ..self.accounts[id] };
        lemma_total_remove(self.accounts, tokens_of(id.mint), id);
        assert forall|m: Pubkey| true implies #[trigger] after.supply(m) == (if m == id.mint {
            amount as nat
        } else {
            self.supply(m)
        }) by {
            lemma_total_insert(self.accounts, tokens_of(m), id, issued);
        }
        lemma_total_insert(self.accounts, account_deposit(), id, issued);
        assert forall|m: Pubkey| #[trigger] after.supply(m) <= u64::MAX by {
            assert(self.supply(m) <= u64::MAX);
        }
    }

    /// An offer that the ledger puts on record keeps the ledger well-formed:
    /// the deposit moves from the payer's reserve to the record.
    pub proof fn lemma_register(self, payer: Pubkey, offer: Offer, deposit: u64)
        requires
            self.wf(),
            self.register(payer, offer, deposit) is Ok,
        ensures
            self.register(payer, offer, deposit)->Ok_0.wf(),
            forall|m: Pubkey|
                #[trigger] self.register(payer, offer, deposit)->Ok_0.supply(m) == self.supply(m),
            self.register(payer, offer, deposit)->Ok_0.reserve_supply() == self.reserve_supply(),
    {
        let after = self.register(payer, offer, deposit)->Ok_0;
        let with = LedgerView {
            offers: self.offers.insert(offer.id, OfferRecord { offer, deposit }),
            ..self
        };
        with.lemma_debit(payer, deposit as nat);
        lemma_total_insert(self.offers, record_deposit(), offer.id, OfferRecord { offer, deposit });
        assert forall|m: Pubkey| #[trigger] after.supply(m) <= u64::MAX by {
            assert(self.supply(m) <= u64::MAX);
        }
        assert forall|id: u64| #[trigger] after.offers.contains_key(id) implies after.offers[id].offer.id
            == id && !after.retired.contains(id) by {
            if id != offer.id {
                assert(self.offers.contains_key(id));
            }
        }
    }

    /// The destruction of an offer's record keeps the ledger well-formed: the
    /// record's deposit moves to the recipient's reserve, for which there is
    /// room, and no supply changes.
    pub proof fn lemma_retire(self, id: u64, recipient: Pubkey)
        requires
            self.wf(),
            self.offers.contains_key(id),
        ensures
            self.retire(id, recipient).wf(),
            self.reserve(recipient) + self.offers[id].deposit <= u64::MAX,
            forall|m: Pubkey| #[trigger] self.retire(id, recipient).supply(m) == self.supply(m),
            self.retire(id, recipient).reserve_supply() == self.reserve_supply(),
    {
        let after = self.retire(id, recipient);
        self.lemma_record_within_reserve(recipient, id);
        let without = LedgerView {
            offers: self.offers.remove(id),
            retired: self.retired.insert(id),
            ..self
        };
        without.lemma_credit(recipient, self.offers[id].deposit as nat);
        lemma_total_remove(self.offers, record_deposit(), id);
        assert forall|m: Pubkey| #[trigger] after.supply(m) <= u64::MAX by {
            assert(self.supply(m) <= u64::MAX);
        }
        assert forall|k: u64| #[trigger] after.offers.contains_key(k) implies after.offers[k].offer.id
            == k && !after.retired.contains(k) by {
            assert(self.offers.contains_key(k));
        }
    }

    /// A transfer that the ledger accepts keeps the ledger well-formed, moves
    /// no reserve, and leaves the supply of every asset as it was. The
    /// receiving balance has room for the amount.
    pub proof fn lemma_transfer(
        self,
        from: TokenAccountId,
        to: TokenAccountId,
        amount: u64,
        mint: Pubkey,
        authority: Pubkey,
    )
        requires
            self.wf(),
            self.transfer(from, to, amount, mint, authority) is Ok,
        ensures
            self.transfer(from, to, amount, mint, authority)->Ok_0.wf(),
            from != to ==> self.accounts[to].amount + amount <= u64::MAX,
            forall|m: Pubkey|
                #[trigger] self.transfer(from, to, amount, mint, authority)->Ok_0.supply(m)
                    == self.supply(m),
            self.transfer(from, to, amount, mint, authority)->Ok_0.reserve_supply()
                == self.reserve_supply(),
    {
        let after = self.transfer(from, to, amount, mint, authority)->Ok_0;
        if from != to {
            self.lemma_pair_within_supply(from, to);
            assert(self.supply(mint) <= u64::MAX);
            let a1 = TokenAccount {
                amount: (self.accounts[from].amount - amount) as u64,
                ..self.accounts[from]
            };
            let a2 = TokenAccount {
                amount: (self.accounts[to].amount + amount) as u64,
                ..self.accounts[to]
            };
            let m1 = self.accounts.insert(from, a1);
            assert(after.accounts == m1.insert(to, a2));
            assert forall|m: Pubkey| #[trigger] after.supply(m) == self.supply(m) by {
                lemma_total_insert(self.accounts, tokens_of(m), from, a1);
                lemma_total_insert(m1, tokens_of(m), to, a2);
            }
            lemma_total_insert(self.accounts, account_deposit(), from, a1);
            lemma_total_insert(m1, account_deposit(), to, a2);
            assert forall|m: Pubkey| #[trigger] after.supply(m) <= u64::MAX by {
                assert(self.supply(m) <= u64::MAX);
            }
        }
    }

    /// A closure that the ledger accepts keeps the ledger well-formed and
    /// leaves the supply of every asset, and the reserve on the ledger, as
    /// they were. The recipient's reserve has room for the deposit.
    pub proof fn lemma_close(self, account: TokenAccountId, recipient: Pubkey, authority: Pubkey)
        requires
            self.wf(),
            self.close(account, recipient, authority) is Ok,
        ensures
            self.close(account, recipient, authority)->Ok_0.wf(),
            self.reserve(recipient) + self.accounts[account].deposit <= u64::MAX,
            forall|m: Pubkey|
                #[trigger] self.close(account, recipient, authority)->Ok_0.supply(m) == self.supply(
                    m,
                ),
            self.close(account, recipient, authority)->Ok_0.reserve_supply()
                == self.reserve_supply(),
    {
        let after = self.close(account, recipient, authority)->Ok_0;
        let deposit = self.accounts[account].deposit as nat;
        self.lemma_deposit_within_reserve(recipient, account);
        let without = LedgerView { accounts: self.accounts.remove(account), ..self };
        without.lemma_credit(recipient, deposit);
        lemma_total_remove(self.accounts, account_deposit(), account);
        assert forall|m: Pubkey| #[trigger] after.supply(m) == self.supply(m) by {
            lemma_total_remove(self.accounts, tokens_of(m), account);
        }
        assert forall|m: Pubkey| #[trigger] after.supply(m) <= u64::MAX by {
            assert(self.supply(m) <= u64::MAX);
        }
    }
}

} // verus!

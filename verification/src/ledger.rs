//! The ledger in memory.

use crate::authority::AuthorityToken;
use crate::error::LedgerError;
use crate::model::{
    account_deposit, record_deposit, reserve_amount, tokens_of, LedgerCall, LedgerView, OfferRecord,
    TokenAccount, TokenAccountId,
};
use crate::pubkey::Pubkey;
use crate::state::offer::Offer;
use crate::table::{
    index_of, lemma_finite, lemma_push, lemma_remove, lemma_row, lemma_update, to_map, unique_keys,
    Entry,
};
use crate::total::{lemma_total_empty, lemma_total_insert, lemma_total_remove, lemma_total_zero};
use vstd::prelude::*;

verus! {

/// The asset ledger: token accounts, live offers and reserve balances.
///
/// Two ledgers compare equal where they hold the same rows in the same order:
/// a ledger equals its snapshot, and a ledger that a failed request left
/// equals the one that the request found.
#[derive(Debug, PartialEq, Eq)]
pub struct Ledger {
    program_id: Pubkey,
    accounts: Vec<Entry<TokenAccountId, TokenAccount>>,
    offers: Vec<Entry<u64, OfferRecord>>,
    reserves: Vec<Entry<Pubkey, u64>>,
    retired: Vec<u64>,
}

impl View for Ledger {
    type V = LedgerView;

    closed spec fn view(&self) -> LedgerView {
        LedgerView {
            program_id: self.program_id,
            accounts: to_map(self.accounts@),
            offers: to_map(self.offers@),
            reserves: to_map(self.reserves@),
            retired: self.retired@.to_set(),
        }
    }
}

impl Ledger {
    /// The ledger is in order: no key stands twice in a table, and its view
    /// is well-formed.
    pub closed spec fn wf(&self) -> bool {
        &&& unique_keys(self.accounts@)
        &&& unique_keys(self.offers@)
        &&& unique_keys(self.reserves@)
        &&& self@.wf()
    }

    /// A ledger in order has a well-formed view.
    pub proof fn lemma_wf(&self)
        requires
            self.wf(),
        ensures
            self@.wf(),
    {
    }

    /// A ledger without accounts or offers, for the program `program_id`,
    /// whose whole reserve, `funds`, lies with `treasury`.
    pub fn new(program_id: Pubkey, treasury: Pubkey, funds: u64) -> (ledger: Ledger)
        ensures
            ledger.wf(),
            ledger@ == (LedgerView {
                program_id,
                accounts: Map::empty(),
                offers: Map::empty(),
                reserves: Map::empty().insert(treasury, funds),
                retired: Set::empty(),
            }),
    {
        let mut reserves: Vec<Entry<Pubkey, u64>> = Vec::new();
        reserves.push(Entry { key: treasury, value: funds });
        let ledger = Ledger {
            program_id,
            accounts: Vec::new(),
            offers: Vec::new(),
            reserves,
            retired: Vec::new(),
        };
        proof {
            let none: Seq<Entry<Pubkey, u64>> = Seq::empty();
            assert(to_map(none) =~= Map::empty());
            lemma_push(none, Entry { key: treasury, value: funds });
            assert(ledger.reserves@ =~= none.push(Entry { key: treasury, value: funds }));
            assert(to_map(ledger.accounts@) =~= Map::empty());
            assert(to_map(ledger.offers@) =~= Map::empty());
            assert(ledger.retired@.to_set() =~= Set::empty());
            let view = ledger@;
            assert(view.accounts.dom() =~= Set::empty());
            assert(view.offers.dom() =~= Set::empty());
            lemma_finite(ledger.reserves@);
            assert forall|mint: Pubkey| #[trigger] view.supply(mint) <= u64::MAX by {
                lemma_total_empty(tokens_of(mint));
            }
            lemma_total_empty(account_deposit());
            lemma_total_empty(record_deposit());
            lemma_total_empty(reserve_amount());
            lemma_total_insert(Map::<Pubkey, u64>::empty(), reserve_amount(), treasury, funds);
        }
        ledger
    }

    /// The row of a token account, if it exists.
    fn find_account(&self, id: &TokenAccountId) -> (found: Option<usize>)
        requires
            self.wf(),
        ensures
            match found {
                Some(i) => i < self.accounts@.len() && self.accounts@[i as int].key == *id
                    && self@.accounts.contains_key(*id) && self@.accounts[*id]
                    == self.accounts@[i as int].value,
                None => !self@.accounts.contains_key(*id),
            },
    {
        let mut i: usize = 0;
        while i < self.accounts.len()
            invariant
                self.wf(),
                i <= self.accounts@.len(),
                forall|k: int| 0 <= k < i ==> (#[trigger] self.accounts@[k]).key != *id,
            decreases self.accounts@.len() - i,
        {
            let key = &self.accounts[i].key;
            if key.owner == id.owner && key.mint == id.mint {
                proof {
                    lemma_row(self.accounts@, i as int);
                }
                return Some(i);
            }
            i += 1;
        }
        None
    }

    /// The row of a live offer, if there is one with this identifier.
    fn find_offer(&self, id: u64) -> (found: Option<usize>)
        requires
            self.wf(),
        ensures
            match found {
                Some(i) => i < self.offers@.len() && self.offers@[i as int].key == id
                    && self@.offers.contains_key(id) && self@.offers[id]
                    == self.offers@[i as int].value,
                None => !self@.offers.contains_key(id),
            },
    {
        let mut i: usize = 0;
        while i < self.offers.len()
            invariant
                self.wf(),
                i <= self.offers@.len(),
                forall|k: int| 0 <= k < i ==> (#[trigger] self.offers@[k]).key != id,
            decreases self.offers@.len() - i,
        {
            if self.offers[i].key == id {
                proof {
                    lemma_row(self.offers@, i as int);
                }
                return Some(i);
            }
            i += 1;
        }
        None
    }

    /// The row of the reserve of `owner`, if it has one.
    fn find_reserve(&self, owner: &Pubkey) -> (found: Option<usize>)
        requires
            self.wf(),
        ensures
            match found {
                Some(i) => i < self.reserves@.len() && self.reserves@[i as int].key == *owner
                    && self@.reserves.contains_key(*owner) && self@.reserves[*owner]
                    == self.reserves@[i as int].value,
                None => !self@.reserves.contains_key(*owner),
            },
    {
        let mut i: usize = 0;
        while i < self.reserves.len()
            invariant
                self.wf(),
                i <= self.reserves@.len(),
                forall|k: int| 0 <= k < i ==> (#[trigger] self.reserves@[k]).key != *owner,
            decreases self.reserves@.len() - i,
        {
            if self.reserves[i].key == *owner {
                proof {
                    lemma_row(self.reserves@, i as int);
                }
                return Some(i);
            }
            i += 1;
        }
        None
    }

    /// The program in whose name offers sign for their vaults.
    pub fn program_id(&self) -> (id: Pubkey)
        ensures
            id == self@.program_id,
    {
        self.program_id
    }

    /// The token account under `id`, if it exists.
    pub fn account(&self, id: &TokenAccountId) -> (account: Option<TokenAccount>)
        requires
            self.wf(),
        ensures
            account == (if self@.accounts.contains_key(*id) {
                Some(self@.accounts[*id])
            } else {
                None
            }),
    {
        match self.find_account(id) {
            Some(i) => Some(self.accounts[i].value),
            None => None,
        }
    }

    /// The live offer with the identifier `id`, if there is one.
    pub fn offer(&self, id: u64) -> (record: Option<OfferRecord>)
        requires
            self.wf(),
        ensures
            record == (if self@.offers.contains_key(id) {
                Some(self@.offers[id])
            } else {
                None
            }),
    {
        match self.find_offer(id) {
            Some(i) => Some(self.offers[i].value),
            None => None,
        }
    }

    /// The reserve balance of `owner`; zero where it has none.
    pub fn reserve(&self, owner: &Pubkey) -> (amount: u64)
        requires
            self.wf(),
        ensures
            amount == self@.reserve(*owner),
    {
        match self.find_reserve(owner) {
            Some(i) => self.reserves[i].value,
            None => 0,
        }
    }

    /// Whether an offer with the identifier `id` was settled.
    pub fn is_retired(&self, id: u64) -> (retired: bool)
        ensures
            retired == self@.retired.contains(id),
    {
        let mut i: usize = 0;
        while i < self.retired.len()
            invariant
                i <= self.retired@.len(),
                forall|k: int| 0 <= k < i ==> self.retired@[k] != id,
            decreases self.retired@.len() - i,
        {
            if self.retired[i] == id {
                return true;
            }
            i += 1;
        }
        false
    }

    /// Writes the reserve balance of `owner`.
    fn set_reserve(&mut self, owner: &Pubkey, amount: u64)
        requires
            unique_keys(old(self).reserves@),
        ensures
            unique_keys(final(self).reserves@),
            to_map(final(self).reserves@) == to_map(old(self).reserves@).insert(*owner, amount),
            final(self).program_id == old(self).program_id,
            final(self).accounts == old(self).accounts,
            final(self).offers == old(self).offers,
            final(self).retired == old(self).retired,
    {
        let mut i: usize = 0;
        while i < self.reserves.len()
            invariant
                *self == *old(self),
                unique_keys(self.reserves@),
                i <= self.reserves@.len(),
                forall|k: int| 0 <= k < i ==> (#[trigger] self.reserves@[k]).key != *owner,
            decreases self.reserves@.len() - i,
        {
            if self.reserves[i].key == *owner {
                proof {
                    lemma_update(self.reserves@, i as int, amount);
                }
                self.reserves.set(i, Entry { key: *owner, value: amount });
                return ;
            }
            i += 1;
        }
        proof {
            lemma_push(self.reserves@, Entry { key: *owner, value: amount });
        }
        self.reserves.push(Entry { key: *owner, value: amount });
    }

    /// Moves `amount` tokens of the asset `mint` from the account `from` to
    /// the account `to`, for the owner of `from`.
    ///
    /// The ledger rejects the move, and changes nothing, where an account
    /// does not exist, where one of them holds another asset than `mint`,
    /// where `authority` is not the token of the owner of `from`, or where
    /// `from` holds less than `amount`.
    pub fn transfer_tokens(
        &mut self,
        from: &TokenAccountId,
        to: &TokenAccountId,
        amount: u64,
        mint: &Pubkey,
        authority: &AuthorityToken,
    ) -> (result: Result<(), LedgerError>)
        requires
            old(self).wf(),
        ensures
            final(self).wf(),
            match old(self)@.transfer(*from, *to, amount, *mint, authority@) {
                Ok(after) => result is Ok && final(self)@ == after,
                Err(reason) => result == Err::<(), LedgerError>(reason) && final(self)@ == old(
                    self,
                )@,
            },
    {
        let source = match self.find_account(from) {
            Some(i) => i,
            None => {
                return Err(LedgerError::AccountNotFound);
            },
        };
        let target = match self.find_account(to) {
            Some(i) => i,
            None => {
                return Err(LedgerError::AccountNotFound);
            },
        };
        if from.mint != *mint || to.mint != *mint {
            return Err(LedgerError::MintMismatch);
        }
        if from.owner != authority.address() {
            return Err(LedgerError::InvalidAuthority);
        }
        let held = self.accounts[source].value;
        if held.amount < amount {
            return Err(LedgerError::InsufficientFunds);
        }
        if source == target {
            return Ok(());
        }
        let received = self.accounts[target].value;
        proof {
            old(self)@.lemma_transfer(*from, *to, amount, *mint, authority@);
            lemma_update(
                self.accounts@,
                source as int,
                TokenAccount { amount: (held.amount - amount) as u64, deposit: held.deposit },
            );
            lemma_update(
                self.accounts@.update(
                    source as int,
                    Entry {
                        key: *from,
                        value: TokenAccount {
                            amount: (held.amount - amount) as u64,
                            deposit: held.deposit,
                        },
                    },
                ),
                target as int,
                TokenAccount {
                    amount: (received.amount + amount) as u64,
                    deposit: received.deposit,
                },
            );
        }
        self.accounts.set(
            source,
            Entry {
                key: *from,
                value: TokenAccount { amount: held.amount - amount, deposit: held.deposit },
            },
        );
        self.accounts.set(
            target,
            Entry {
                key: *to,
                value: TokenAccount { amount: received.amount + amount, deposit: received.deposit },
            },
        );
        Ok(())
    }

    /// Closes the empty token account `account` for its owner, and hands the
    /// storage deposit of the account to the reserve of `recipient`.
    ///
    /// The ledger rejects the closure, and changes nothing, where the account
    /// does not exist, where `authority` is not the token of its owner, or
    /// where it still holds tokens.
    pub fn close_token_account(
        &mut self,
        account: &TokenAccountId,
        recipient: &Pubkey,
        authority: &AuthorityToken,
    ) -> (result: Result<(), LedgerError>)
        requires
            old(self).wf(),
        ensures
            final(self).wf(),
            match old(self)@.close(*account, *recipient, authority@) {
                Ok(after) => result is Ok && final(self)@ == after,
                Err(reason) => result == Err::<(), LedgerError>(reason) && final(self)@ == old(
                    self,
                )@,
            },
    {
        let row = match self.find_account(account) {
            Some(i) => i,
            None => {
                return Err(LedgerError::AccountNotFound);
            },
        };
        if account.owner != authority.address() {
            return Err(LedgerError::InvalidAuthority);
        }
        let closed = self.accounts[row].value;
        if closed.amount != 0 {
            return Err(LedgerError::AccountNotEmpty);
        }
        let before = self.reserve(recipient);
        proof {
            old(self)@.lemma_close(*account, *recipient, authority@);
            lemma_remove(self.accounts@, row as int);
        }
        self.accounts.remove(row);
        self.set_reserve(recipient, before + closed.deposit);
        Ok(())
    }

    /// Makes one call on the ledger for the identity of `authority`. A call
    /// that the ledger rejects changes nothing.
    pub fn perform(&mut self, call: &LedgerCall, authority: &AuthorityToken) -> (result: Result<
        (),
        LedgerError,
    >)
        requires
            old(self).wf(),
        ensures
            final(self).wf(),
            match old(self)@.perform(*call, authority@) {
                Ok(after) => result is Ok && final(self)@ == after,
                Err(reason) => result == Err::<(), LedgerError>(reason) && final(self)@ == old(
                    self,
                )@,
            },
    {
        match call {
            LedgerCall::Transfer { from, to, amount, mint } => self.transfer_tokens(
                from,
                to,
                *amount,
                mint,
                authority,
            ),
            LedgerCall::CloseAccount { account, recipient } => self.close_token_account(
                account,
                recipient,
                authority,
            ),
        }
    }

    /// Opens the empty token account `id`; `payer` sets `deposit` aside for
    /// it out of its reserve.
    ///
    /// The ledger refuses, and changes nothing, where the account exists or
    /// the payer's reserve does not cover the deposit.
    pub fn open_token_account(
        &mut self,
        payer: &Pubkey,
        id: &TokenAccountId,
        deposit: u64,
    ) -> (result: Result<(), LedgerError>)
        requires
            old(self).wf(),
        ensures
            final(self).wf(),
            match old(self)@.open_account(*payer, *id, deposit) {
                Ok(after) => result is Ok && final(self)@ == after,
                Err(reason) => result == Err::<(), LedgerError>(reason) && final(self)@ == old(
                    self,
                )@,
            },
    {
        if self.find_account(id).is_some() {
            return Err(LedgerError::AccountInUse);
        }
        let funds = self.reserve(payer);
        if funds < deposit {
            return Err(LedgerError::InsufficientFunds);
        }
        proof {
            old(self)@.lemma_open_account(*payer, *id, deposit);
            lemma_push(
                self.accounts@,
                Entry { key: *id, value: TokenAccount { amount: 0, deposit } },
            );
        }
        self.accounts.push(Entry { key: *id, value: TokenAccount { amount: 0, deposit } });
        self.set_reserve(payer, funds - deposit);
        Ok(())
    }

    /// Whether no tokens of the asset `mint` are in circulation.
    fn unissued(&self, mint: &Pubkey) -> (none: bool)
        requires
            self.wf(),
        ensures
            none == (self@.supply(*mint) == 0),
    {
        let mut i: usize = 0;
        while i < self.accounts.len()
            invariant
                self.wf(),
                i <= self.accounts@.len(),
                forall|k: int|
                    0 <= k < i ==> (#[trigger] self.accounts@[k]).key.mint != *mint
                        || self.accounts@[k].value.amount == 0,
            decreases self.accounts@.len() - i,
        {
            if self.accounts[i].key.mint == *mint && self.accounts[i].value.amount != 0 {
                proof {
                    lemma_row(self.accounts@, i as int);
                    lemma_total_remove(
                        self@.accounts,
                        tokens_of(*mint),
                        self.accounts@[i as int].key,
                    );
                }
                return false;
            }
            i += 1;
        }
        proof {
            let accounts = self@.accounts;
            assert forall|id: TokenAccountId| accounts.contains_key(id) implies #[trigger] tokens_of(
                *mint,
            )(id, accounts[id]) == 0 by {
                let k = index_of(self.accounts@, id);
                lemma_row(self.accounts@, k);
            }
            lemma_total_zero(accounts, tokens_of(*mint));
        }
        true
    }

    /// Issues the asset `id.mint`: its whole supply, `amount` tokens, goes to
    /// the account `id`.
    ///
    /// The ledger refuses, and changes nothing, where the account does not
    /// exist or tokens of the asset are in circulation already.
    pub fn issue(&mut self, id: &TokenAccountId, amount: u64) -> (result: Result<(), LedgerError>)
        requires
            old(self).wf(),
        ensures
            final(self).wf(),
            match old(self)@.issue(*id, amount) {
                Ok(after) => result is Ok && final(self)@ == after,
                Err(reason) => result == Err::<(), LedgerError>(reason) && final(self)@ == old(
                    self,
                )@,
            },
    {
        let row = match self.find_account(id) {
            Some(i) => i,
            None => {
                return Err(LedgerError::AccountNotFound);
            },
        };
        if !self.unissued(&id.mint) {
            return Err(LedgerError::AlreadyIssued);
        }
        let deposit = self.accounts[row].value.deposit;
        proof {
            old(self)@.lemma_issue(*id, amount);
            lemma_update(self.accounts@, row as int, TokenAccount { amount, deposit });
        }
        self.accounts.set(row, Entry { key: *id, value: TokenAccount { amount, deposit } });
        Ok(())
    }

    /// Puts `offer` on record; `payer` sets `deposit` aside for the record
    /// out of its reserve.
    ///
    /// The ledger refuses, and changes nothing, where the identifier of the
    /// offer is that of a live or of a settled offer, or where the payer's
    /// reserve does not cover the deposit.
    pub fn register_offer(&mut self, payer: &Pubkey, offer: Offer, deposit: u64) -> (result: Result<
        (),
        LedgerError,
    >)
        requires
            old(self).wf(),
        ensures
            final(self).wf(),
            match old(self)@.register(*payer, offer, deposit) {
                Ok(after) => result is Ok && final(self)@ == after,
                Err(reason) => result == Err::<(), LedgerError>(reason) && final(self)@ == old(
                    self,
                )@,
            },
    {
        if self.find_offer(offer.id).is_some() || self.is_retired(offer.id) {
            return Err(LedgerError::OfferIdInUse);
        }
        let funds = self.reserve(payer);
        if funds < deposit {
            return Err(LedgerError::InsufficientFunds);
        }
        proof {
            old(self)@.lemma_register(*payer, offer, deposit);
            lemma_push(
                self.offers@,
                Entry { key: offer.id, value: OfferRecord { offer, deposit } },
            );
        }
        self.offers.push(Entry { key: offer.id, value: OfferRecord { offer, deposit } });
        self.set_reserve(payer, funds - deposit);
        Ok(())
    }

    /// Opens the token account `id`, empty and without a deposit, unless it
    /// exists.
    pub(crate) fn ensure_account(&mut self, id: &TokenAccountId)
        requires
            old(self).wf(),
        ensures
            final(self).wf(),
            final(self)@ == old(self)@.with_account(*id),
    {
        if self.find_account(id).is_none() {
            proof {
                old(self)@.lemma_with_account(*id);
                lemma_push(
                    self.accounts@,
                    Entry { key: *id, value: TokenAccount { amount: 0, deposit: 0 } },
                );
            }
            self.accounts.push(Entry { key: *id, value: TokenAccount { amount: 0, deposit: 0 } });
        }
    }

    /// Destroys the record of the live offer `id`: the identifier is retired,
    /// and the deposit of the record goes to the reserve of `recipient`.
    pub(crate) fn retire_offer(&mut self, id: u64, recipient: &Pubkey)
        requires
            old(self).wf(),
            old(self)@.offers.contains_key(id),
        ensures
            final(self).wf(),
            final(self)@ == old(self)@.retire(id, *recipient),
    {
        let row = match self.find_offer(id) {
            Some(i) => i,
            None => {
                return ;
            },
        };
        let deposit = self.offers[row].value.deposit;
        let before = self.reserve(recipient);
        proof {
            old(self)@.lemma_retire(id, *recipient);
            lemma_remove(self.offers@, row as int);
            self.retired@.lemma_push_to_set_commute(id);
        }
        self.offers.remove(row);
        self.retired.push(id);
        self.set_reserve(recipient, before + deposit);
    }

    /// A copy of the ledger.
    pub fn snapshot(&self) -> (copy: Ledger)
        ensures
            copy@ == self@,
            self.wf() ==> copy.wf(),
    {
        let copy = Ledger {
            program_id: self.program_id,
            accounts: copy_rows(&self.accounts),
            offers: copy_rows(&self.offers),
            reserves: copy_rows(&self.reserves),
            retired: copy_ids(&self.retired),
        };
        assert(copy.accounts@ =~= self.accounts@);
        assert(copy.offers@ =~= self.offers@);
        assert(copy.reserves@ =~= self.reserves@);
        assert(copy.retired@ =~= self.retired@);
        copy
    }
}

/// A copy of the rows of a table.
fn copy_rows<K: Copy, V: Copy>(rows: &Vec<Entry<K, V>>) -> (copy: Vec<Entry<K, V>>)
    ensures
        copy@ == rows@,
{
    let mut copy: Vec<Entry<K, V>> = Vec::new();
    let mut i: usize = 0;
    while i < rows.len()
        invariant
            i <= rows@.len(),
            copy@ == rows@.take(i as int),
        decreases rows@.len() - i,
    {
        copy.push(Entry { key: rows[i].key, value: rows[i].value });
        assert(rows@.take(i + 1) =~= rows@.take(i as int).push(rows@[i as int]));
        i += 1;
    }
    assert(rows@.take(i as int) =~= rows@);
    copy
}

/// A copy of a list of identifiers.
fn copy_ids(ids: &Vec<u64>) -> (copy: Vec<u64>)
    ensures
        copy@ == ids@,
{
    let mut copy: Vec<u64> = Vec::new();
    let mut i: usize = 0;
    while i < ids.len()
        invariant
            i <= ids@.len(),
            copy@ == ids@.take(i as int),
        decreases ids@.len() - i,
    {
        copy.push(ids[i]);
        assert(ids@.take(i + 1) =~= ids@.take(i as int).push(ids@[i as int]));
        i += 1;
    }
    assert(ids@.take(i as int) =~= ids@);
    copy
}

} // verus!

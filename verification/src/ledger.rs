//! A model of the ledger that the instruction handler acts on.
//!
//! The handler itself never touches balances: it hands a transfer request to
//! the runtime's privileged sub-program, which owns the account database.
//! This module models that database and the sub-program's transfer rule over
//! plain values — an address is carried as an integer, a balance as a count
//! of base units — so that the behaviour of a whole invocation (handler plus
//! sub-program) can be stated and proved.

use vstd::prelude::*;
use crate::REQUIRED_ACCOUNTS;
use crate::TRANSFER_AMOUNT;

verus! {

/// One ledger entry: an account's address paired with its balance in base
/// units. Addresses are opaque fixed-width identifiers to the handler; the
/// model carries them as integers.
#[derive(Clone, Copy, PartialEq, Eq, Structural, Debug)]
pub struct AccountRecord {
    pub address: u64,
    pub balance: u64,
}

/// The address that designates the runtime's privileged transfer sub-program
/// in the model ledger.
pub const SYSTEM_PROGRAM_ADDRESS: u64 = 0;

/// Why a model invocation failed. The privileged sub-program's own rejection
/// reasons are opaque to the handler, so the model folds them all into
/// `DelegatedCallFailed`.
#[derive(Clone, Copy, PartialEq, Eq, Structural, Debug)]
pub enum InvocationError {
    /// Fewer than the required three account references were supplied;
    /// detected before any delegation, so nothing was touched.
    MissingAccount,
    /// The privileged sub-program rejected the transfer request.
    DelegatedCallFailed,
}

/// An ephemeral, input-derived transfer request: built fresh on every
/// invocation, handed to the privileged sub-program, never persisted.
#[derive(Clone, Copy, PartialEq, Eq, Structural, Debug)]
pub struct TransferRequest {
    pub source: u64,
    pub destination: u64,
    pub amount: u64,
}

/// No two entries carry the same address.
pub open spec fn unique_addresses(s: Seq<AccountRecord>) -> bool {
    forall|i: int, j: int| 0 <= i < j < s.len() ==> s[i].address != s[j].address
}

/// Some entry carries `addr`.
pub open spec fn holds_address(s: Seq<AccountRecord>, addr: u64) -> bool {
    exists|i: int| 0 <= i < s.len() && s[i].address == addr
}

/// The index of the entry carrying `addr`; meaningful when
/// `holds_address(s, addr)` and the addresses are unique.
pub open spec fn index_of_address(s: Seq<AccountRecord>, addr: u64) -> int {
    choose|i: int| 0 <= i < s.len() && s[i].address == addr
}

/// The balance recorded for `addr`; meaningful when
/// `holds_address(s, addr)` and the addresses are unique.
pub open spec fn balance_of(s: Seq<AccountRecord>, addr: u64) -> u64 {
    s[index_of_address(s, addr)].balance
}

/// Under unique addresses, any entry carrying `addr` is the one that
/// `index_of_address` designates.
pub proof fn lemma_index_of_address(s: Seq<AccountRecord>, addr: u64, i: int)
    requires
        unique_addresses(s),
        0 <= i < s.len(),
        s[i].address == addr,
    ensures
        holds_address(s, addr),
        index_of_address(s, addr) == i,
{
    assert(holds_address(s, addr));
    let j = index_of_address(s, addr);
    assert(0 <= j < s.len() && s[j].address == addr);
    if i < j {
        assert(s[i].address != s[j].address);
    } else if j < i {
        assert(s[j].address != s[i].address);
    }
}

/// Whether the privileged sub-program accepts a transfer request: it must be
/// addressed through its own address, both parties must exist on the ledger,
/// the source must hold at least the requested amount, and crediting the
/// destination must not overflow its balance counter.
pub open spec fn delegation_accepts(
    s: Seq<AccountRecord>,
    req: TransferRequest,
    sub_program: u64,
) -> bool {
    &&& sub_program == SYSTEM_PROGRAM_ADDRESS
    &&& holds_address(s, req.source)
    &&& holds_address(s, req.destination)
    &&& balance_of(s, req.source) >= req.amount
    &&& (req.source == req.destination
        || balance_of(s, req.destination) + req.amount <= u64::MAX)
}

/// The ledger after an accepted transfer: the source is debited and the
/// destination credited by the requested amount, every other balance and all
/// addresses stay as they were. A transfer of an account to itself leaves
/// every balance unchanged.
pub open spec fn apply_transfer(s: Seq<AccountRecord>, req: TransferRequest) -> Seq<AccountRecord> {
    if req.source == req.destination {
        s
    } else {
        Seq::new(
            s.len(),
            |i: int|
                AccountRecord {
                    address: s[i].address,
                    balance: if s[i].address == req.source {
                        (s[i].balance - req.amount) as u64
                    } else if s[i].address == req.destination {
                        (s[i].balance + req.amount) as u64
                    } else {
                        s[i].balance
                    },
                },
        )
    }
}

/// The transfer request that an invocation with the given account references
/// builds: the first reference is the source, the second the destination,
/// and the amount is the fixed compiled-in quantity.
pub open spec fn transfer_request_of(accounts: Seq<u64>) -> TransferRequest {
    TransferRequest {
        source: accounts[0],
        destination: accounts[1],
        amount: TRANSFER_AMOUNT,
    }
}

/// The ledger after a whole invocation: untouched unless three account
/// references were supplied and the privileged sub-program accepted the
/// request built from the first two.
pub open spec fn spec_process_ledger(s: Seq<AccountRecord>, accounts: Seq<u64>) -> Seq<
    AccountRecord,
> {
    if accounts.len() < REQUIRED_ACCOUNTS {
        s
    } else if delegation_accepts(s, transfer_request_of(accounts), accounts[2]) {
        apply_transfer(s, transfer_request_of(accounts))
    } else {
        s
    }
}

/// The outcome of a whole invocation: `MissingAccount` where fewer than
/// three account references were supplied, else the sub-program's answer.
pub open spec fn spec_process_result(s: Seq<AccountRecord>, accounts: Seq<u64>) -> Result<
    (),
    InvocationError,
> {
    if accounts.len() < REQUIRED_ACCOUNTS {
        Err(InvocationError::MissingAccount)
    } else if delegation_accepts(s, transfer_request_of(accounts), accounts[2]) {
        Ok(())
    } else {
        Err(InvocationError::DelegatedCallFailed)
    }
}

/// An accepted transfer between two distinct parties keeps the length and
/// every address of the ledger, keeps the addresses unique, debits the
/// source and credits the destination by exactly the requested amount, and
/// leaves every other balance as it was.
pub proof fn lemma_apply_transfer_balances(s: Seq<AccountRecord>, req: TransferRequest)
    requires
        unique_addresses(s),
        req.source != req.destination,
        holds_address(s, req.source),
        holds_address(s, req.destination),
        balance_of(s, req.source) >= req.amount,
        balance_of(s, req.destination) + req.amount <= u64::MAX,
    ensures
        apply_transfer(s, req).len() == s.len(),
        unique_addresses(apply_transfer(s, req)),
        forall|a: u64| holds_address(apply_transfer(s, req), a) == holds_address(s, a),
        balance_of(apply_transfer(s, req), req.source) == balance_of(s, req.source)
            - req.amount,
        balance_of(apply_transfer(s, req), req.destination) == balance_of(s, req.destination)
            + req.amount,
        forall|a: u64|
            a != req.source && a != req.destination && holds_address(s, a) ==> balance_of(
                apply_transfer(s, req),
                a,
            ) == balance_of(s, a),
{
    let t = apply_transfer(s, req);
    assert(forall|i: int| 0 <= i < s.len() ==> t[i].address == s[i].address);
    assert forall|a: u64| holds_address(t, a) == holds_address(s, a) by {
        if holds_address(t, a) {
            let i = choose|i: int| 0 <= i < t.len() && t[i].address == a;
            assert(s[i].address == a);
        }
        if holds_address(s, a) {
            let i = choose|i: int| 0 <= i < s.len() && s[i].address == a;
            assert(t[i].address == a);
        }
    }
    assert forall|a: u64| holds_address(s, a) implies balance_of(t, a) == (if a == req.source {
        balance_of(s, a) - req.amount
    } else if a == req.destination {
        balance_of(s, a) + req.amount
    } else {
        balance_of(s, a) as int
    }) by {
        let i = index_of_address(s, a);
        assert(0 <= i < s.len() && s[i].address == a);
        lemma_index_of_address(t, a, i);
    }
}

/// For every invocation with at least three account references whose first
/// two are distinct accounts present on the ledger, whose source holds at
/// least the fixed amount, whose destination can be credited without
/// overflowing its balance counter, and whose third reference is the
/// privileged sub-program: the call succeeds, the source's balance falls by
/// exactly the fixed amount, the destination's rises by exactly the fixed
/// amount, and every other account keeps its balance.
pub proof fn lemma_funded_invocation_succeeds(s: Seq<AccountRecord>, accounts: Seq<u64>)
    requires
        unique_addresses(s),
        accounts.len() >= REQUIRED_ACCOUNTS,
        accounts[2] == SYSTEM_PROGRAM_ADDRESS,
        accounts[0] != accounts[1],
        holds_address(s, accounts[0]),
        holds_address(s, accounts[1]),
        balance_of(s, accounts[0]) >= TRANSFER_AMOUNT,
        balance_of(s, accounts[1]) + TRANSFER_AMOUNT <= u64::MAX,
    ensures
        spec_process_result(s, accounts) == Ok::<(), InvocationError>(()),
        balance_of(spec_process_ledger(s, accounts), accounts[0]) == balance_of(s, accounts[0])
            - TRANSFER_AMOUNT,
        balance_of(spec_process_ledger(s, accounts), accounts[1]) == balance_of(s, accounts[1])
            + TRANSFER_AMOUNT,
        forall|a: u64|
            a != accounts[0] && a != accounts[1] && holds_address(s, a) ==> balance_of(
                spec_process_ledger(s, accounts),
                a,
            ) == balance_of(s, a),
        forall|a: u64|
            holds_address(spec_process_ledger(s, accounts), a) == holds_address(s, a),
{
    lemma_apply_transfer_balances(s, transfer_request_of(accounts));
}

/// Every invocation with fewer than three account references fails with
/// `MissingAccount` and moves no balance.
pub proof fn lemma_short_list_rejected(s: Seq<AccountRecord>, accounts: Seq<u64>)
    requires
        accounts.len() < REQUIRED_ACCOUNTS,
    ensures
        spec_process_result(s, accounts) == Err::<(), InvocationError>(
            InvocationError::MissingAccount,
        ),
        spec_process_ledger(s, accounts) == s,
{
}

/// Every invocation whose source account holds less than the fixed amount
/// fails with `DelegatedCallFailed` and moves no balance.
pub proof fn lemma_underfunded_source_rejected(s: Seq<AccountRecord>, accounts: Seq<u64>)
    requires
        unique_addresses(s),
        accounts.len() >= REQUIRED_ACCOUNTS,
        holds_address(s, accounts[0]),
        balance_of(s, accounts[0]) < TRANSFER_AMOUNT,
    ensures
        spec_process_result(s, accounts) == Err::<(), InvocationError>(
            InvocationError::DelegatedCallFailed,
        ),
        spec_process_ledger(s, accounts) == s,
{
}

/// Every invocation whose third account reference is not the privileged
/// sub-program fails with `DelegatedCallFailed` and moves no balance.
pub proof fn lemma_wrong_sub_program_rejected(s: Seq<AccountRecord>, accounts: Seq<u64>)
    requires
        accounts.len() >= REQUIRED_ACCOUNTS,
        accounts[2] != SYSTEM_PROGRAM_ADDRESS,
    ensures
        spec_process_result(s, accounts) == Err::<(), InvocationError>(
            InvocationError::DelegatedCallFailed,
        ),
        spec_process_ledger(s, accounts) == s,
{
}

/// The ledger after `n` repetitions of one and the same invocation.
pub open spec fn iterate_process_ledger(
    s: Seq<AccountRecord>,
    accounts: Seq<u64>,
    n: nat,
) -> Seq<AccountRecord>
    decreases n,
{
    if n == 0 {
        s
    } else {
        spec_process_ledger(iterate_process_ledger(s, accounts, (n - 1) as nat), accounts)
    }
}

/// Repeating an invocation that fails with `MissingAccount` any number of
/// times produces the same error every time and never moves a balance.
pub proof fn lemma_missing_account_idempotent(s: Seq<AccountRecord>, accounts: Seq<u64>, n: nat)
    requires
        accounts.len() < REQUIRED_ACCOUNTS,
    ensures
        iterate_process_ledger(s, accounts, n) == s,
        spec_process_result(iterate_process_ledger(s, accounts, n), accounts) == Err::<
            (),
            InvocationError,
        >(InvocationError::MissingAccount),
    decreases n,
{
    if n > 0 {
        lemma_missing_account_idempotent(s, accounts, (n - 1) as nat);
    }
}

/// Source and destination are purely positional: swapping the first two
/// account references yields exactly the invocation whose transfer request
/// runs in the opposite direction, with the same amount and the same
/// sub-program reference.
pub proof fn lemma_swapped_references_reverse_direction(s: Seq<AccountRecord>, accounts: Seq<u64>)
    requires
        accounts.len() >= REQUIRED_ACCOUNTS,
    ensures
        ({
            let swapped = accounts.update(0, accounts[1]).update(1, accounts[0]);
            let forward = transfer_request_of(accounts);
            let reversed = TransferRequest {
                source: forward.destination,
                destination: forward.source,
                amount: forward.amount,
            };
            &&& transfer_request_of(swapped) == reversed
            &&& spec_process_ledger(s, swapped) == (if delegation_accepts(
                s,
                reversed,
                accounts[2],
            ) {
                apply_transfer(s, reversed)
            } else {
                s
            })
            &&& spec_process_result(s, swapped) == (if delegation_accepts(
                s,
                reversed,
                accounts[2],
            ) {
                Ok::<(), InvocationError>(())
            } else {
                Err::<(), InvocationError>(InvocationError::DelegatedCallFailed)
            })
        }),
{
}

/// The ledger: the external account database, modelled as a list of records
/// with pairwise distinct addresses.
pub struct Ledger {
    pub records: Vec<AccountRecord>,
}

impl View for Ledger {
    type V = Seq<AccountRecord>;

    open spec fn view(&self) -> Seq<AccountRecord> {
        self.records@
    }
}

impl Ledger {
    /// The ledger's invariant: addresses are pairwise distinct.
    pub open spec fn well_formed(&self) -> bool {
        unique_addresses(self@)
    }

    /// An empty ledger.
    pub fn new() -> (r: Ledger)
        ensures
            r@ == Seq::<AccountRecord>::empty(),
            r.well_formed(),
    {
        Ledger { records: Vec::new() }
    }

    /// The number of accounts on the ledger.
    pub fn len(&self) -> (r: usize)
        ensures
            r == self@.len(),
    {
        self.records.len()
    }

    /// The position of the account with the given address, if any.
    pub fn find_index(&self, address: u64) -> (r: Option<usize>)
        ensures
            match r {
                Some(i) => i < self@.len() && self@[i as int].address == address,
                None => !holds_address(self@, address),
            },
    {
        let n = self.records.len();
        let mut i: usize = 0;
        while i < n
            invariant
                i <= n,
                n == self@.len(),
                forall|j: int| 0 <= j < i ==> self@[j].address != address,
            decreases n - i,
        {
            if self.records[i].address == address {
                return Some(i);
            }
            i += 1;
        }
        None
    }

    /// The balance of the account with the given address, or `None` where no
    /// such account exists.
    pub fn balance(&self, address: u64) -> (r: Option<u64>)
        requires
            self.well_formed(),
        ensures
            match r {
                Some(b) => holds_address(self@, address) && b == balance_of(self@, address),
                None => !holds_address(self@, address),
            },
    {
        match self.find_index(address) {
            Some(i) => {
                proof {
                    lemma_index_of_address(self@, address, i as int);
                }
                Some(self.records[i].balance)
            }
            None => None,
        }
    }

    /// Opens an account with the given address and starting balance. Returns
    /// `false`, leaving the ledger unchanged, where the address is already
    /// taken.
    pub fn open_account(&mut self, address: u64, balance: u64) -> (r: bool)
        requires
            old(self).well_formed(),
        ensures
            final(self).well_formed(),
            r == !holds_address(old(self)@, address),
            r ==> final(self)@ == old(self)@.push(
                AccountRecord { address, balance },
            ),
            !r ==> final(self)@ == old(self)@,
    {
        match self.find_index(address) {
            Some(_) => false,
            None => {
                self.records.push(AccountRecord { address, balance });
                proof {
                    assert forall|i: int, j: int|
                        0 <= i < j < self@.len() implies self@[i].address != self@[j].address by {
                        if j < self@.len() - 1 {
                            assert(old(self)@[i].address != old(self)@[j].address);
                        }
                    }
                }
                true
            }
        }
    }

    /// The privileged transfer sub-program: checks the request in full, then
    /// either applies it atomically or rejects it leaving every balance as it
    /// was.
    pub fn execute_transfer(&mut self, req: &TransferRequest, sub_program: u64) -> (r: Result<
        (),
        InvocationError,
    >)
        requires
            old(self).well_formed(),
        ensures
            final(self).well_formed(),
            delegation_accepts(old(self)@, *req, sub_program) ==> r == Ok::<(), InvocationError>(
                (),
            ) && final(self)@ == apply_transfer(old(self)@, *req),
            !delegation_accepts(old(self)@, *req, sub_program) ==> r == Err::<
                (),
                InvocationError,
            >(InvocationError::DelegatedCallFailed) && final(self)@ == old(self)@,
    {
        if sub_program != SYSTEM_PROGRAM_ADDRESS {
            return Err(InvocationError::DelegatedCallFailed);
        }
        let source_index = match self.find_index(req.source) {
            Some(i) => i,
            None => {
                return Err(InvocationError::DelegatedCallFailed);
            },
        };
        let destination_index = match self.find_index(req.destination) {
            Some(i) => i,
            None => {
                return Err(InvocationError::DelegatedCallFailed);
            },
        };
        proof {
            lemma_index_of_address(self@, req.source, source_index as int);
            lemma_index_of_address(self@, req.destination, destination_index as int);
        }
        let source_record = self.records[source_index];
        if source_record.balance < req.amount {
            return Err(InvocationError::DelegatedCallFailed);
        }
        if req.source == req.destination {
            return Ok(());
        }
        let destination_record = self.records[destination_index];
        if destination_record.balance > u64::MAX - req.amount {
            return Err(InvocationError::DelegatedCallFailed);
        }
        self.records[source_index] = AccountRecord {
            address: source_record.address,
            balance: source_record.balance - req.amount,
        };
        self.records[destination_index] = AccountRecord {
            address: destination_record.address,
            balance: destination_record.balance + req.amount,
        };
        proof {
            assert(self@ =~= apply_transfer(old(self)@, *req));
        }
        Ok(())
    }

    /// The composed invocation: the instruction handler's positional
    /// extraction followed by the privileged sub-program's transfer, acting
    /// on this ledger. The caller's identity and the instruction payload are
    /// accepted for protocol conformance only and never consulted.
    pub fn process(
        &mut self,
        _caller_identity: u64,
        account_list: &Vec<u64>,
        _payload: &Vec<u8>,
    ) -> (r: Result<(), InvocationError>)
        requires
            old(self).well_formed(),
        ensures
            final(self).well_formed(),
            final(self)@ == spec_process_ledger(old(self)@, account_list@),
            r == spec_process_result(old(self)@, account_list@),
    {
        if account_list.len() < REQUIRED_ACCOUNTS {
            return Err(InvocationError::MissingAccount);
        }
        let source = account_list[0];
        let destination = account_list[1];
        let sub_program = account_list[2];
        let request = TransferRequest { source, destination, amount: TRANSFER_AMOUNT };
        self.execute_transfer(&request, sub_program)
    }
}

} // verus!

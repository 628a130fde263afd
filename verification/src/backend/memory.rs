//! A backend that keeps the whole state in memory.

use vstd::prelude::*;
use vstd::slice::slice_to_vec;
use std::sync::Arc;
use vstd::std_specs::cmp::PartialEqSpecImpl;
use crate::backend::{same_log, Apply, ApplyBackend, Backend, Basic, Log};
use crate::hash::{keccak256, keccak_word};
use crate::table::Table;
use crate::word::{be_value, Address, Word};

verus! {

/// The surroundings of an execution: transaction and block.
#[derive(PartialEq, Eq, Debug)]
pub struct MemoryVicinity {
    /// Gas price.
    pub gas_price: Word,
    /// Origin.
    pub origin: Address,
    /// Chain ID.
    pub chain_id: Word,
    /// The hashes of the blocks before the current one, the latest first.
    pub block_hashes: Vec<Word>,
    /// The number of the current block.
    pub block_number: Word,
    /// Coinbase of the current block.
    pub block_coinbase: Address,
    /// Timestamp of the current block.
    pub block_timestamp: Word,
    /// Difficulty of the current block.
    pub block_difficulty: Word,
    /// Gas limit of the current block.
    pub block_gas_limit: Word,
}

/// Whether the two surroundings say the same.
pub open spec fn same_vicinity(a: MemoryVicinity, b: MemoryVicinity) -> bool {
    &&& a.gas_price == b.gas_price
    &&& a.origin == b.origin
    &&& a.chain_id == b.chain_id
    &&& a.block_hashes@ == b.block_hashes@
    &&& a.block_number == b.block_number
    &&& a.block_coinbase == b.block_coinbase
    &&& a.block_timestamp == b.block_timestamp
    &&& a.block_difficulty == b.block_difficulty
    &&& a.block_gas_limit == b.block_gas_limit
}

impl Clone for MemoryVicinity {
    /// Surroundings that say the same.
    fn clone(&self) -> (r: MemoryVicinity)
        ensures
            same_vicinity(*self, r),
    {
        MemoryVicinity {
            gas_price: self.gas_price,
            origin: self.origin,
            chain_id: self.chain_id,
            block_hashes: slice_to_vec(self.block_hashes.as_slice()),
            block_number: self.block_number,
            block_coinbase: self.block_coinbase,
            block_timestamp: self.block_timestamp,
            block_difficulty: self.block_difficulty,
            block_gas_limit: self.block_gas_limit,
        }
    }
}

/// An account.
#[derive(Debug)]
pub struct MemoryAccount {
    /// Account nonce.
    pub nonce: Word,
    /// Account balance.
    pub balance: Word,
    /// The storage slots.
    pub storage: Table<Word, Word>,
    /// Account code.
    pub code: Vec<u8>,
}

/// What an account holds.
pub struct AccountView {
    pub nonce: Word,
    pub balance: Word,
    pub storage: Map<Word, Word>,
    pub code: Seq<u8>,
}

impl View for MemoryAccount {
    type V = AccountView;

    open spec fn view(&self) -> AccountView {
        AccountView {
            nonce: self.nonce,
            balance: self.balance,
            storage: self.storage@,
            code: self.code@,
        }
    }
}

impl Clone for MemoryAccount {
    /// An account that holds the same.
    fn clone(&self) -> (r: MemoryAccount)
        ensures
            r@ == self@,
    {
        let storage = self.storage.clone();
        let code = slice_to_vec(self.code.as_slice());
        assert(storage@ =~= self.storage@);
        MemoryAccount { nonce: self.nonce, balance: self.balance, storage, code }
    }
}

impl PartialEq for MemoryAccount {
    /// Whether the two accounts hold the same.
    fn eq(&self, other: &MemoryAccount) -> (r: bool) {
        let same_code = same_bytes(self.code.as_slice(), other.code.as_slice());
        let r = self.nonce == other.nonce && self.balance == other.balance && same_code
            && self.storage.same_as(&other.storage);
        r
    }
}

impl PartialEqSpecImpl for MemoryAccount {
    open spec fn obeys_eq_spec() -> bool {
        true
    }

    open spec fn eq_spec(&self, other: &MemoryAccount) -> bool {
        self@ == other@
    }
}

impl Eq for MemoryAccount {

}

/// Whether the two slices hold the same bytes.
fn same_bytes(a: &[u8], b: &[u8]) -> (r: bool)
    ensures
        r == (a@ == b@),
{
    let n: usize = a.len();
    if n != b.len() {
        return false;
    }
    let mut i: usize = 0;
    while i < n
        invariant
            i <= n,
            n == a@.len(),
            n == b@.len(),
            forall|j: int| 0 <= j < i ==> a@[j] == b@[j],
        decreases n - i,
    {
        if a[i] != b[i] {
            return false;
        }
        i = i + 1;
    }
    assert(a@ =~= b@);
    true
}

impl Default for MemoryAccount {
    fn default() -> (r: MemoryAccount)
        ensures
            r@ == blank_account(),
    {
        MemoryAccount {
            nonce: Word::zero(),
            balance: Word::zero(),
            storage: Table::new(),
            code: Vec::new(),
        }
    }
}

/// An account with nothing in it.
pub open spec fn blank_account() -> AccountView {
    AccountView {
        nonce: Word::of(0),
        balance: Word::of(0),
        storage: Map::empty(),
        code: Seq::empty(),
    }
}

/// Whether an account has no nonce, no balance and no code.
pub open spec fn is_blank(account: AccountView) -> bool {
    account.balance@ == 0 && account.nonce@ == 0 && account.code.len() == 0
}

/// The storage after the slots of `writes` are written in their order. Writing zero to a slot
/// takes the slot out.
pub open spec fn write_all(storage: Map<Word, Word>, writes: Seq<(Word, Word)>) -> Map<Word, Word>
    decreases writes.len(),
{
    if writes.len() == 0 {
        storage
    } else {
        let m = write_all(storage, writes.drop_last());
        if writes.last().1@ == 0 {
            m.remove(writes.last().0)
        } else {
            m.insert(writes.last().0, writes.last().1)
        }
    }
}

/// The account after a `Modify`: balance and nonce are replaced, the code is replaced where new
/// code is given, and the storage is emptied if asked, else cleared of zero slots, and then
/// written.
pub open spec fn modified(
    account: AccountView,
    basic: Basic,
    code: Option<Vec<u8>>,
    writes: Seq<(Word, Word)>,
    reset_storage: bool,
) -> AccountView {
    AccountView {
        nonce: basic.nonce,
        balance: basic.balance,
        storage: write_all(
            if reset_storage {
                Map::empty()
            } else {
                crate::table::nonzero_part(account.storage)
            },
            writes,
        ),
        code: match code {
            Some(c) => c@,
            None => account.code,
        },
    }
}

/// The state after one change. A `Modify` works on the account at the address, or on a blank
/// one where there is none, and with `delete_empty` a blank result is taken out of the state.
pub open spec fn apply_one(
    state: Map<Address, AccountView>,
    change: Apply,
    delete_empty: bool,
) -> Map<Address, AccountView> {
    match change {
        Apply::Modify { address, basic, code, storage, reset_storage } => {
            let account = modified(
                if state.contains_key(address) {
                    state[address]
                } else {
                    blank_account()
                },
                basic,
                code,
                storage@,
                reset_storage,
            );
            if delete_empty && is_blank(account) {
                state.remove(address)
            } else {
                state.insert(address, account)
            }
        },
        Apply::Delete { address } => state.remove(address),
    }
}

/// The state after the changes, applied in their order.
pub open spec fn apply_all(
    state: Map<Address, AccountView>,
    changes: Seq<Apply>,
    delete_empty: bool,
) -> Map<Address, AccountView>
    decreases changes.len(),
{
    if changes.len() == 0 {
        state
    } else {
        apply_one(apply_all(state, changes.drop_last(), delete_empty), changes.last(), delete_empty)
    }
}

/// The value of a storage slot: zero where the account or the slot is not there.
pub open spec fn storage_at(
    state: Map<Address, AccountView>,
    address: Address,
    index: Word,
) -> Word {
    if state.contains_key(address) && state[address].storage.contains_key(index) {
        state[address].storage[index]
    } else {
        Word::of(0)
    }
}

/// The hash of the block `number`, seen from the block `current`: that of one of the 256 blocks
/// before `current` whose hash is known, else zero.
pub open spec fn block_hash_at(hashes: Seq<Word>, current: Word, number: Word) -> Word {
    if number@ < current@ && current@ - number@ - 1 < 256 && current@ - number@ - 1 < hashes.len() {
        hashes[current@ - number@ - 1]
    } else {
        Word::of(0)
    }
}

/// After the slots are written, a slot holds the last value written to it, and a slot whose
/// last value is zero is not there.
pub proof fn lemma_written_slot(storage: Map<Word, Word>, writes: Seq<(Word, Word)>, i: int)
    requires
        0 <= i < writes.len(),
        forall|j: int| i < j < writes.len() ==> writes[j].0 != writes[i].0,
    ensures
        writes[i].1@ != 0 ==> write_all(storage, writes).contains_key(writes[i].0) && write_all(
            storage,
            writes,
        )[writes[i].0] == writes[i].1,
        writes[i].1@ == 0 ==> !write_all(storage, writes).contains_key(writes[i].0),
    decreases writes.len(),
{
    if i < writes.len() - 1 {
        let t = writes.drop_last();
        assert(t[i] == writes[i]);
        assert forall|j: int| i < j < t.len() implies t[j].0 != t[i].0 by {
            assert(t[j] == writes[j]);
        }
        lemma_written_slot(storage, t, i);
    }
}

/// After a `Modify` that leaves the account in the state, reading a slot that the change wrote
/// gives the last value written to it, and a slot whose last value is zero is not there.
pub proof fn lemma_apply_then_read(
    state: Map<Address, AccountView>,
    change: Apply,
    delete_empty: bool,
    i: int,
)
    requires
        change matches Apply::Modify { address, storage, .. } && 0 <= i < storage@.len() && (forall|
            j: int,
        |
            i < j < storage@.len() ==> storage@[j].0 != storage@[i].0) && apply_one(
            state,
            change,
            delete_empty,
        ).contains_key(address),
    ensures
        change matches Apply::Modify { address, storage, .. } && storage_at(
            apply_one(state, change, delete_empty),
            address,
            storage@[i].0,
        ) == storage@[i].1 && (storage@[i].1@ == 0 ==> !apply_one(
            state,
            change,
            delete_empty,
        )[address].storage.contains_key(storage@[i].0)),
{
    match change {
        Apply::Modify { address, basic, code, storage, reset_storage } => {
            let start = if reset_storage {
                Map::empty()
            } else {
                crate::table::nonzero_part(
                    (if state.contains_key(address) {
                        state[address]
                    } else {
                        blank_account()
                    }).storage,
                )
            };
            lemma_written_slot(start, storage@, i);
            storage@[i].1.lemma_of_view();
        },
        Apply::Delete { address } => {},
    }
}

/// The whole state, kept in memory.
#[derive(Debug)]
pub struct MemoryBackend {
    vicinity: Arc<MemoryVicinity>,
    state: Table<Address, MemoryAccount>,
    logs: Vec<Log>,
}

/// What the accounts of the table hold.
pub open spec fn state_view(state: Table<Address, MemoryAccount>) -> Map<Address, AccountView> {
    Map::new(|a: Address| state@.contains_key(a), |a: Address| state@[a]@)
}

impl MemoryBackend {
    /// The surroundings.
    pub closed spec fn spec_vicinity(&self) -> MemoryVicinity {
        *self.vicinity
    }

    /// The table of accounts.
    pub closed spec fn spec_state(&self) -> Table<Address, MemoryAccount> {
        self.state
    }

    /// What the accounts hold.
    pub open spec fn accounts(&self) -> Map<Address, AccountView> {
        state_view(self.spec_state())
    }

    /// The logs taken so far.
    pub closed spec fn spec_logs(&self) -> Seq<Log> {
        self.logs@
    }

    /// A backend over the given accounts, with no logs.
    pub fn new(vicinity: Arc<MemoryVicinity>, state: Table<Address, MemoryAccount>) -> (r: Self)
        ensures
            r.spec_vicinity() == *vicinity,
            r.spec_state() == state,
            r.spec_logs() == Seq::<Log>::empty(),
    {
        Self { vicinity, state, logs: Vec::new() }
    }

    /// The table of accounts.
    pub fn state(&self) -> (r: &Table<Address, MemoryAccount>)
        ensures
            *r == self.spec_state(),
    {
        &self.state
    }

    /// The logs taken so far.
    pub fn logs(&self) -> (r: &Vec<Log>)
        ensures
            r@ == self.spec_logs(),
    {
        &self.logs
    }

    /// Applies one change to the state.
    fn apply_change(&mut self, change: &Apply, delete_empty: bool)
        ensures
            final(self).spec_vicinity() == old(self).spec_vicinity(),
            final(self).spec_logs() == old(self).spec_logs(),
            final(self).accounts() == apply_one(old(self).accounts(), *change, delete_empty),
    {
        match change {
            Apply::Modify { address, basic, code, storage, reset_storage } => {
                let mut account = match self.state.remove(address) {
                    Some(a) => a,
                    None => MemoryAccount::default(),
                };
                let ghost base = account@;
                account.balance = basic.balance;
                account.nonce = basic.nonce;
                match code {
                    Some(c) => {
                        account.code = slice_to_vec(c.as_slice());
                    },
                    None => {},
                }
                if *reset_storage {
                    account.storage = Table::new();
                } else {
                    account.storage.remove_zeros();
                }
                let n: usize = storage.len();
                let mut j: usize = 0;
                let ghost start = account.storage@;
                assert(storage@.take(0) =~= Seq::<(Word, Word)>::empty());
                while j < n
                    invariant
                        j <= n,
                        n == storage@.len(),
                        account.storage@ == write_all(start, storage@.take(j as int)),
                        account.balance == basic.balance,
                        account.nonce == basic.nonce,
                        account.code@ == (match *code {
                            Some(c) => c@,
                            None => base.code,
                        }),
                    decreases n - j,
                {
                    let index: Word = storage[j].0;
                    let value: Word = storage[j].1;
                    proof {
                        let next = storage@.take(j + 1);
                        assert(next.drop_last() =~= storage@.take(j as int));
                        assert(next.last() == storage@[j as int]);
                    }
                    if value.is_zero() {
                        account.storage.remove(&index);
                    } else {
                        account.storage.insert(index, value);
                    }
                    j = j + 1;
                }
                assert(storage@.take(n as int) =~= storage@);
                proof {
                    account.balance.lemma_of_view();
                    account.nonce.lemma_of_view();
                }
                assert(account@ == modified(base, *basic, *code, storage@, *reset_storage));
                let is_empty = account.balance.is_zero() && account.nonce.is_zero()
                    && account.code.len() == 0;
                if !(is_empty && delete_empty) {
                    self.state.insert(*address, account);
                }
                assert(final(self).accounts() =~= apply_one(
                    old(self).accounts(),
                    *change,
                    delete_empty,
                ));
            },
            Apply::Delete { address } => {
                self.state.remove(address);
                assert(final(self).accounts() =~= apply_one(
                    old(self).accounts(),
                    *change,
                    delete_empty,
                ));
            },
        }
    }
}

impl Clone for MemoryBackend {
    /// A backend over the same surroundings, with accounts that hold the same and logs that say
    /// the same.
    fn clone(&self) -> (r: MemoryBackend)
        ensures
            same_vicinity(self.spec_vicinity(), r.spec_vicinity()),
            r.accounts() == self.accounts(),
            r.spec_logs().len() == self.spec_logs().len(),
            forall|i: int|
                0 <= i < self.spec_logs().len() ==> same_log(
                    self.spec_logs()[i],
                    #[trigger] r.spec_logs()[i],
                ),
    {
        let held: &MemoryVicinity = &self.vicinity;
        let vicinity = Arc::new(held.clone());
        let state = self.state.clone();
        let n: usize = self.logs.len();
        let mut logs: Vec<Log> = Vec::new();
        let mut i: usize = 0;
        while i < n
            invariant
                i <= n,
                n == self.logs@.len(),
                logs@.len() == i,
                forall|j: int| 0 <= j < i ==> same_log(self.logs@[j], #[trigger] logs@[j]),
            decreases n - i,
        {
            logs.push(self.logs[i].clone());
            i = i + 1;
        }
        let r = MemoryBackend { vicinity, state, logs };
        assert(r.accounts() =~= self.accounts());
        r
    }
}

impl Backend for MemoryBackend {
    fn gas_price(&self) -> (r: Word)
        ensures
            r == self.spec_vicinity().gas_price,
    {
        self.vicinity.gas_price
    }

    fn origin(&self) -> (r: Address)
        ensures
            r == self.spec_vicinity().origin,
    {
        self.vicinity.origin
    }

    fn block_hash(&self, number: Word) -> (r: Word)
        ensures
            r == block_hash_at(
                self.spec_vicinity().block_hashes@,
                self.spec_vicinity().block_number,
                number,
            ),
    {
        let current = self.vicinity.block_number;
        if !number.lt(current) {
            return Word::zero();
        }
        let back = current.wrapping_sub(number).wrapping_sub(Word::one());
        proof {
            let m = crate::word::word_modulus() as int;
            vstd::arithmetic::div_mod::lemma_small_mod((current@ - number@) as nat, m as nat);
            vstd::arithmetic::div_mod::lemma_small_mod((current@ - number@ - 1) as nat, m as nat);
        }
        match back.to_usize() {
            Some(index) => {
                if index < 256 && index < self.vicinity.block_hashes.len() {
                    self.vicinity.block_hashes[index]
                } else {
                    Word::zero()
                }
            },
            None => Word::zero(),
        }
    }

    fn block_number(&self) -> (r: Word)
        ensures
            r == self.spec_vicinity().block_number,
    {
        self.vicinity.block_number
    }

    fn block_coinbase(&self) -> (r: Address)
        ensures
            r == self.spec_vicinity().block_coinbase,
    {
        self.vicinity.block_coinbase
    }

    fn block_timestamp(&self) -> (r: Word)
        ensures
            r == self.spec_vicinity().block_timestamp,
    {
        self.vicinity.block_timestamp
    }

    fn block_difficulty(&self) -> (r: Word)
        ensures
            r == self.spec_vicinity().block_difficulty,
    {
        self.vicinity.block_difficulty
    }

    fn block_gas_limit(&self) -> (r: Word)
        ensures
            r == self.spec_vicinity().block_gas_limit,
    {
        self.vicinity.block_gas_limit
    }

    fn chain_id(&self) -> (r: Word)
        ensures
            r == self.spec_vicinity().chain_id,
    {
        self.vicinity.chain_id
    }

    fn account_exists(&self, address: Address) -> (r: bool)
        ensures
            r == self.accounts().contains_key(address),
    {
        self.state.contains_key(&address)
    }

    fn basic(&self, address: Address) -> (r: Basic)
        ensures
            r == if self.accounts().contains_key(address) {
                Basic {
                    balance: self.accounts()[address].balance,
                    nonce: self.accounts()[address].nonce,
                }
            } else {
                Basic { balance: Word::of(0), nonce: Word::of(0) }
            },
    {
        match self.state.get(&address) {
            Some(a) => Basic { balance: a.balance, nonce: a.nonce },
            None => Basic { balance: Word::zero(), nonce: Word::zero() },
        }
    }

    fn code_hash(&self, address: Address) -> (r: Word)
        ensures
            r == Word::of(
                be_value(
                    keccak256(
                        if self.accounts().contains_key(address) {
                            self.accounts()[address].code
                        } else {
                            Seq::empty()
                        },
                    ),
                ),
            ),
    {
        match self.state.get(&address) {
            Some(v) => keccak_word(v.code.as_slice()),
            None => {
                let empty: Vec<u8> = Vec::new();
                assert(empty@ =~= Seq::<u8>::empty());
                keccak_word(empty.as_slice())
            },
        }
    }

    fn code_size(&self, address: Address) -> (r: usize)
        ensures
            r == if self.accounts().contains_key(address) {
                self.accounts()[address].code.len()
            } else {
                0
            },
    {
        match self.state.get(&address) {
            Some(v) => v.code.len(),
            None => 0,
        }
    }

    fn code(&self, address: Address) -> (r: Vec<u8>)
        ensures
            r@ == if self.accounts().contains_key(address) {
                self.accounts()[address].code
            } else {
                Seq::empty()
            },
    {
        match self.state.get(&address) {
            Some(v) => slice_to_vec(v.code.as_slice()),
            None => Vec::new(),
        }
    }

    fn storage(&self, address: Address, index: Word) -> (r: Word)
        ensures
            r == storage_at(self.accounts(), address, index),
    {
        match self.state.get(&address) {
            Some(v) => match v.storage.get(&index) {
                Some(value) => *value,
                None => Word::zero(),
            },
            None => Word::zero(),
        }
    }
}

impl ApplyBackend for MemoryBackend {
    fn apply(&mut self, values: Vec<Apply>, logs: Vec<Log>, delete_empty: bool)
        ensures
            final(self).spec_vicinity() == old(self).spec_vicinity(),
            final(self).accounts() == apply_all(old(self).accounts(), values@, delete_empty),
            final(self).spec_logs() == old(self).spec_logs() + logs@,
    {
        let n: usize = values.len();
        let mut i: usize = 0;
        assert(values@.take(0) =~= Seq::<Apply>::empty());
        while i < n
            invariant
                i <= n,
                n == values@.len(),
                self.spec_vicinity() == old(self).spec_vicinity(),
                self.spec_logs() == old(self).spec_logs(),
                self.accounts() == apply_all(
                    old(self).accounts(),
                    values@.take(i as int),
                    delete_empty,
                ),
            decreases n - i,
        {
            proof {
                let next = values@.take(i + 1);
                assert(next.drop_last() =~= values@.take(i as int));
                assert(next.last() == values@[i as int]);
            }
            self.apply_change(&values[i], delete_empty);
            i = i + 1;
        }
        assert(values@.take(n as int) =~= values@);
        let mut logs = logs;
        self.logs.append(&mut logs);
    }
}

} // verus!

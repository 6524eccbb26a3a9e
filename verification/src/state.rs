//! The state backend: addresses to accounts, code and storage, plus the
//! per-transaction vicinity and the injected block context.
//!
//! Each map is held as an association list whose model is a sparse
//! `Map`; the first entry for a key wins, and removal drops every entry
//! for the key, so no uniqueness invariant is needed.

use vstd::prelude::*;

use crate::bytes::clone_bytes;
use crate::types::{zero_word, Account, AccountV, Address, Log, StateError, Vicinity, Word};
use crate::u256::U256;

verus! {

/// The mathematical state: three sparse maps.
#[verifier::ext_equal]
pub struct StateV {
    pub accounts: Map<Seq<u8>, AccountV>,
    pub codes: Map<Seq<u8>, Seq<u8>>,
    pub storage: Map<(Seq<u8>, Seq<u8>), Seq<u8>>,
}

/// An absent account reads as zero nonce and zero balance.
pub open spec fn account_or_default(s: StateV, addr: Seq<u8>) -> AccountV {
    if s.accounts.contains_key(addr) {
        s.accounts[addr]
    } else {
        AccountV { nonce: 0, balance: 0 }
    }
}

/// Absent code reads as the empty byte string.
pub open spec fn code_or_empty(s: StateV, addr: Seq<u8>) -> Seq<u8> {
    if s.codes.contains_key(addr) {
        s.codes[addr]
    } else {
        Seq::empty()
    }
}

/// An absent storage slot reads as the zero word.
pub open spec fn storage_or_zero(s: StateV, addr: Seq<u8>, key: Seq<u8>) -> Seq<u8> {
    if s.storage.contains_key((addr, key)) {
        s.storage[(addr, key)]
    } else {
        zero_word()
    }
}

/// Empty: zero nonce, zero balance, no code bytes.
pub open spec fn account_empty_spec(s: StateV, addr: Seq<u8>) -> bool {
    &&& account_or_default(s, addr).nonce == 0
    &&& account_or_default(s, addr).balance == 0
    &&& code_or_empty(s, addr).len() == 0
}

/// Remove an address from all three maps.
pub open spec fn remove_account_spec(s: StateV, addr: Seq<u8>) -> StateV {
    StateV {
        accounts: s.accounts.remove(addr),
        codes: s.codes.remove(addr),
        storage: s.storage.remove_keys(storage_prefix(addr)),
    }
}

/// One storage delta: the zero word deletes the slot, else it is set.
pub open spec fn apply_storage_item(s: StateV, addr: Seq<u8>, key: Seq<u8>, value: Seq<u8>)
    -> StateV {
    if value == zero_word() {
        StateV { storage: s.storage.remove((addr, key)), ..s }
    } else {
        StateV { storage: s.storage.insert((addr, key), value), ..s }
    }
}

/// Storage deltas applied in order.
pub open spec fn apply_storage_items(s: StateV, addr: Seq<u8>, items: Seq<(Word, Word)>) -> StateV
    decreases items.len(),
{
    if items.len() == 0 {
        s
    } else {
        apply_storage_items(
            apply_storage_item(s, addr, items.first().0@, items.first().1@),
            addr,
            items.drop_first(),
        )
    }
}

/// One changeset entry: modify (merge account, optional code, optional
/// storage reset, storage deltas, optional reclamation) or delete.
pub enum ApplyEntry {
    Modify {
        address: Address,
        basic: Account,
        code: Option<Vec<u8>>,
        storage: Vec<(Word, Word)>,
        reset_storage: bool,
    },
    Delete { address: Address },
}

pub open spec fn apply_entry_wf(e: ApplyEntry) -> bool {
    match e {
        ApplyEntry::Modify { address, basic, code, storage, reset_storage } => {
            &&& address.wf()
            &&& forall|i: int|
                0 <= i < storage@.len() ==> (#[trigger] storage@[i]).0.wf() && storage@[i].1.wf()
        },
        ApplyEntry::Delete { address } => address.wf(),
    }
}

pub open spec fn changes_wf(es: Seq<ApplyEntry>) -> bool {
    forall|i: int| 0 <= i < es.len() ==> apply_entry_wf(#[trigger] es[i])
}

/// The effect of one changeset entry.
pub open spec fn apply_entry_spec(s: StateV, e: ApplyEntry, delete_empty: bool) -> StateV {
    match e {
        ApplyEntry::Modify { address, basic, code, storage, reset_storage } => {
            let s1 = StateV { accounts: s.accounts.insert(address@, basic@), ..s };
            let s2 = match code {
                Some(c) => StateV { codes: s1.codes.insert(address@, c@), ..s1 },
                None => s1,
            };
            let s3 = if reset_storage {
                StateV { storage: s2.storage.remove_keys(storage_prefix(address@)), ..s2 }
            } else {
                s2
            };
            let s4 = apply_storage_items(s3, address@, storage@);
            if delete_empty && account_empty_spec(s4, address@) {
                remove_account_spec(s4, address@)
            } else {
                s4
            }
        },
        ApplyEntry::Delete { address } => remove_account_spec(s, address@),
    }
}

/// The effect of a whole changeset, entry by entry, in order.
pub open spec fn apply_entries_spec(s: StateV, es: Seq<ApplyEntry>, delete_empty: bool) -> StateV
    decreases es.len(),
{
    if es.len() == 0 {
        s
    } else {
        apply_entries_spec(apply_entry_spec(s, es.first(), delete_empty), es.drop_first(),
            delete_empty)
    }
}

pub open spec fn accounts_model(s: Seq<(Address, Account)>) -> Map<Seq<u8>, AccountV>
    decreases s.len(),
{
    if s.len() == 0 {
        Map::empty()
    } else {
        accounts_model(s.drop_first()).insert(s.first().0@, s.first().1@)
    }
}

pub open spec fn codes_model(s: Seq<(Address, Vec<u8>)>) -> Map<Seq<u8>, Seq<u8>>
    decreases s.len(),
{
    if s.len() == 0 {
        Map::empty()
    } else {
        codes_model(s.drop_first()).insert(s.first().0@, s.first().1@)
    }
}

pub open spec fn storage_model(s: Seq<(Address, Word, Word)>) -> Map<(Seq<u8>, Seq<u8>), Seq<u8>>
    decreases s.len(),
{
    if s.len() == 0 {
        Map::empty()
    } else {
        storage_model(s.drop_first()).insert((s.first().0@, s.first().1@), s.first().2@)
    }
}

pub open spec fn hashes_model(s: Seq<(u32, Word)>) -> Map<u32, Seq<u8>>
    decreases s.len(),
{
    if s.len() == 0 {
        Map::empty()
    } else {
        hashes_model(s.drop_first()).insert(s.first().0, s.first().1@)
    }
}

/// Two maps agree at one key: same presence and, if present, same value.
pub open spec fn agrees_at<K, V>(m1: Map<K, V>, m2: Map<K, V>, k: K) -> bool {
    &&& m1.contains_key(k) == m2.contains_key(k)
    &&& (m1.contains_key(k) ==> m1[k] == m2[k])
}

pub open spec fn accounts_wf(s: Seq<(Address, Account)>) -> bool {
    forall|i: int| 0 <= i < s.len() ==> (#[trigger] s[i]).0.wf()
}

pub open spec fn codes_wf(s: Seq<(Address, Vec<u8>)>) -> bool {
    forall|i: int| 0 <= i < s.len() ==> (#[trigger] s[i]).0.wf()
}

pub open spec fn storages_wf(s: Seq<(Address, Word, Word)>) -> bool {
    forall|i: int|
        0 <= i < s.len() ==> (#[trigger] s[i]).0.wf() && s[i].1.wf() && s[i].2.wf()
}

/// Look up an account entry; the first entry for the address wins.
fn accounts_get(entries: &Vec<(Address, Account)>, addr: &Address) -> (r: Option<Account>)
    ensures
        (match r {
            Some(a) => accounts_model(entries@).contains_key(addr@) && accounts_model(
                entries@,
            ).index(addr@) == a@,
            None => !accounts_model(entries@).contains_key(addr@),
        }),
{
    let ghost m = accounts_model(entries@);
    let mut i: usize = 0;
    proof {
        assert(entries@.skip(0) =~= entries@);
    }
    while i < entries.len()
        invariant
            i <= entries@.len(),
            m == accounts_model(entries@),
            agrees_at(m, accounts_model(entries@.skip(i as int)), addr@),
        decreases entries@.len() - i,
    {
        let e = &entries[i];
        proof {
            assert(entries@.skip(i as int).first() == entries@[i as int]);
            assert(entries@.skip(i as int).drop_first() =~= entries@.skip(i + 1));
        }
        if e.0.eq_addr(addr) {
            return Some(e.1);
        }
        i += 1;
    }
    proof {
        assert(entries@.skip(entries@.len() as int) =~= Seq::<(Address, Account)>::empty());
    }
    None
}

/// Look up a code entry.
fn codes_get(entries: &Vec<(Address, Vec<u8>)>, addr: &Address) -> (r: Option<Vec<u8>>)
    ensures
        (match r {
            Some(c) => codes_model(entries@).contains_key(addr@) && codes_model(entries@)[addr@]
                == c@,
            None => !codes_model(entries@).contains_key(addr@),
        }),
{
    let ghost m = codes_model(entries@);
    let mut i: usize = 0;
    proof {
        assert(entries@.skip(0) =~= entries@);
    }
    while i < entries.len()
        invariant
            i <= entries@.len(),
            m == codes_model(entries@),
            agrees_at(m, codes_model(entries@.skip(i as int)), addr@),
        decreases entries@.len() - i,
    {
        let e = &entries[i];
        proof {
            assert(entries@.skip(i as int).first() == entries@[i as int]);
            assert(entries@.skip(i as int).drop_first() =~= entries@.skip(i + 1));
        }
        if e.0.eq_addr(addr) {
            return Some(clone_bytes(&e.1));
        }
        i += 1;
    }
    proof {
        assert(entries@.skip(entries@.len() as int) =~= Seq::<(Address, Vec<u8>)>::empty());
    }
    None
}

/// Look up a storage entry by address and slot key.
fn storage_get_entry(entries: &Vec<(Address, Word, Word)>, addr: &Address, key: &Word) -> (r:
    Option<Word>)
    requires
        storages_wf(entries@),
    ensures
        (match r {
            Some(v) => storage_model(entries@).contains_key((addr@, key@)) && storage_model(
                entries@,
            )[(addr@, key@)] == v@ && v.wf(),
            None => !storage_model(entries@).contains_key((addr@, key@)),
        }),
{
    let ghost m = storage_model(entries@);
    let mut i: usize = 0;
    proof {
        assert(entries@.skip(0) =~= entries@);
    }
    while i < entries.len()
        invariant
            i <= entries@.len(),
            m == storage_model(entries@),
            storages_wf(entries@),
            agrees_at(m, storage_model(entries@.skip(i as int)), (addr@, key@)),
        decreases entries@.len() - i,
    {
        let e = &entries[i];
        proof {
            assert(entries@.skip(i as int).first() == entries@[i as int]);
            assert(entries@.skip(i as int).drop_first() =~= entries@.skip(i + 1));
        }
        if e.0.eq_addr(addr) && e.1.eq_word(key) {
            return Some(e.2.clone_word());
        }
        i += 1;
    }
    proof {
        assert(entries@.skip(entries@.len() as int) =~= Seq::<(Address, Word, Word)>::empty());
    }
    None
}

/// Look up a block hash by number.
fn hashes_get(entries: &Vec<(u32, Word)>, number: u32) -> (r: Option<Word>)
    requires
        forall|i: int| 0 <= i < entries@.len() ==> (#[trigger] entries@[i]).1.wf(),
    ensures
        (match r {
            Some(h) => hashes_model(entries@).contains_key(number) && hashes_model(
                entries@,
            ).index(number) == h@ && h.wf(),
            None => !hashes_model(entries@).contains_key(number),
        }),
{
    let ghost m = hashes_model(entries@);
    let mut i: usize = 0;
    proof {
        assert(entries@.skip(0) =~= entries@);
    }
    while i < entries.len()
        invariant
            i <= entries@.len(),
            m == hashes_model(entries@),
            forall|j: int| 0 <= j < entries@.len() ==> (#[trigger] entries@[j]).1.wf(),
            agrees_at(m, hashes_model(entries@.skip(i as int)), number),
        decreases entries@.len() - i,
    {
        let e = &entries[i];
        proof {
            assert(entries@.skip(i as int).first() == entries@[i as int]);
            assert(entries@.skip(i as int).drop_first() =~= entries@.skip(i + 1));
        }
        if e.0 == number {
            return Some(e.1.clone_word());
        }
        i += 1;
    }
    proof {
        assert(entries@.skip(entries@.len() as int) =~= Seq::<(u32, Word)>::empty());
    }
    None
}

/// Put an account entry in front; the model gains the binding.
fn accounts_upsert(entries: &mut Vec<(Address, Account)>, addr: Address, a: Account)
    requires
        accounts_wf(old(entries)@),
        addr.wf(),
    ensures
        accounts_model(final(entries)@) == accounts_model(old(entries)@).insert(addr@, a@),
        accounts_wf(final(entries)@),
{
    let ghost addr_v = addr@;
    entries.insert(0, (addr, a));
    proof {
        assert(entries@.drop_first() =~= old(entries)@);
        assert(entries@.first().0@ == addr_v);
    }
}

/// Put a code entry in front.
fn codes_upsert(entries: &mut Vec<(Address, Vec<u8>)>, addr: Address, c: Vec<u8>)
    requires
        codes_wf(old(entries)@),
        addr.wf(),
    ensures
        codes_model(final(entries)@) == codes_model(old(entries)@).insert(addr@, c@),
        codes_wf(final(entries)@),
{
    let ghost addr_v = addr@;
    let ghost c_v = c@;
    entries.insert(0, (addr, c));
    proof {
        assert(entries@.drop_first() =~= old(entries)@);
        assert(entries@.first().0@ == addr_v);
        assert(entries@.first().1@ == c_v);
    }
}

/// Put a storage entry in front.
fn storage_upsert(entries: &mut Vec<(Address, Word, Word)>, addr: Address, key: Word, value: Word)
    requires
        storages_wf(old(entries)@),
        addr.wf(),
        key.wf(),
        value.wf(),
    ensures
        storage_model(final(entries)@) == storage_model(old(entries)@).insert(
            (addr@, key@),
            value@,
        ),
        storages_wf(final(entries)@),
{
    let ghost addr_v = addr@;
    let ghost key_v = key@;
    entries.insert(0, (addr, key, value));
    proof {
        assert(entries@.drop_first() =~= old(entries)@);
        assert(entries@.first().0@ == addr_v);
        assert(entries@.first().1@ == key_v);
    }
}

/// Drop every account entry for an address; the model loses the key.
fn accounts_remove(entries: &mut Vec<(Address, Account)>, addr: &Address)
    requires
        accounts_wf(old(entries)@),
    ensures
        accounts_model(final(entries)@) == accounts_model(old(entries)@).remove(addr@),
        accounts_wf(final(entries)@),
{
    let ghost s = entries@;
    let mut kept: Vec<(Address, Account)> = Vec::new();
    let mut j: usize = entries.len();
    proof {
        assert(s.skip(s.len() as int) =~= Seq::<(Address, Account)>::empty());
        assert(accounts_model(kept@) =~= accounts_model(s.skip(s.len() as int)).remove(addr@));
    }
    while j > 0
        invariant
            j <= s.len(),
            entries@ == s,
            accounts_wf(s),
            accounts_wf(kept@),
            accounts_model(kept@) == accounts_model(s.skip(j as int)).remove(addr@),
        decreases j,
    {
        j -= 1;
        let e = &entries[j];
        proof {
            assert(s.skip(j as int).first() == s[j as int]);
            assert(s.skip(j as int).drop_first() =~= s.skip(j + 1));
        }
        if e.0.eq_addr(addr) {
            proof {
                assert(accounts_model(s.skip(j as int)).remove(addr@) =~= accounts_model(
                    s.skip(j + 1),
                ).remove(addr@));
            }
        } else {
            let ghost kept_before = kept@;
            kept.insert(0, (e.0.clone_addr(), e.1));
            proof {
                assert(kept@.drop_first() =~= kept_before);
                assert(accounts_model(kept@) =~= accounts_model(s.skip(j as int)).remove(addr@));
            }
        }
    }
    proof {
        assert(s.skip(0) =~= s);
    }
    *entries = kept;
}

/// Drop every code entry for an address.
fn codes_remove(entries: &mut Vec<(Address, Vec<u8>)>, addr: &Address)
    requires
        codes_wf(old(entries)@),
    ensures
        codes_model(final(entries)@) == codes_model(old(entries)@).remove(addr@),
        codes_wf(final(entries)@),
{
    let ghost s = entries@;
    let mut kept: Vec<(Address, Vec<u8>)> = Vec::new();
    let mut j: usize = entries.len();
    proof {
        assert(s.skip(s.len() as int) =~= Seq::<(Address, Vec<u8>)>::empty());
        assert(codes_model(kept@) =~= codes_model(s.skip(s.len() as int)).remove(addr@));
    }
    while j > 0
        invariant
            j <= s.len(),
            entries@ == s,
            codes_wf(s),
            codes_wf(kept@),
            codes_model(kept@) == codes_model(s.skip(j as int)).remove(addr@),
        decreases j,
    {
        j -= 1;
        let e = &entries[j];
        proof {
            assert(s.skip(j as int).first() == s[j as int]);
            assert(s.skip(j as int).drop_first() =~= s.skip(j + 1));
        }
        if e.0.eq_addr(addr) {
            proof {
                assert(codes_model(s.skip(j as int)).remove(addr@) =~= codes_model(
                    s.skip(j + 1),
                ).remove(addr@));
            }
        } else {
            let ghost kept_before = kept@;
            let ghost code_v = s[j as int].1@;
            kept.insert(0, (e.0.clone_addr(), clone_bytes(&e.1)));
            proof {
                assert(kept@.drop_first() =~= kept_before);
                assert(kept@.first().1@ == code_v);
                assert(codes_model(kept@) =~= codes_model(s.skip(j as int)).remove(addr@));
            }
        }
    }
    proof {
        assert(s.skip(0) =~= s);
    }
    *entries = kept;
}

/// The storage keys that belong to one address.
pub open spec fn storage_prefix(addr: Seq<u8>) -> Set<(Seq<u8>, Seq<u8>)> {
    Set::new(|p: (Seq<u8>, Seq<u8>)| p.0 == addr)
}

/// Drop one storage slot.
fn storage_remove(entries: &mut Vec<(Address, Word, Word)>, addr: &Address, key: &Word)
    requires
        storages_wf(old(entries)@),
    ensures
        storage_model(final(entries)@) == storage_model(old(entries)@).remove((addr@, key@)),
        storages_wf(final(entries)@),
{
    let ghost s = entries@;
    let mut kept: Vec<(Address, Word, Word)> = Vec::new();
    let mut j: usize = entries.len();
    proof {
        assert(s.skip(s.len() as int) =~= Seq::<(Address, Word, Word)>::empty());
        assert(storage_model(kept@) =~= storage_model(s.skip(s.len() as int)).remove(
            (addr@, key@),
        ));
    }
    while j > 0
        invariant
            j <= s.len(),
            entries@ == s,
            storages_wf(s),
            storages_wf(kept@),
            storage_model(kept@) == storage_model(s.skip(j as int)).remove((addr@, key@)),
        decreases j,
    {
        j -= 1;
        let e = &entries[j];
        proof {
            assert(s.skip(j as int).first() == s[j as int]);
            assert(s.skip(j as int).drop_first() =~= s.skip(j + 1));
        }
        if e.0.eq_addr(addr) && e.1.eq_word(key) {
            proof {
                assert(storage_model(s.skip(j as int)).remove((addr@, key@)) =~= storage_model(
                    s.skip(j + 1),
                ).remove((addr@, key@)));
            }
        } else {
            let ghost kept_before = kept@;
            kept.insert(0, (e.0.clone_addr(), e.1.clone_word(), e.2.clone_word()));
            proof {
                assert(kept@.drop_first() =~= kept_before);
                assert(storage_model(kept@) =~= storage_model(s.skip(j as int)).remove(
                    (addr@, key@),
                ));
            }
        }
    }
    proof {
        assert(s.skip(0) =~= s);
    }
    *entries = kept;
}

/// Drop every storage slot of one address.
fn storage_remove_prefix(entries: &mut Vec<(Address, Word, Word)>, addr: &Address)
    requires
        storages_wf(old(entries)@),
    ensures
        storage_model(final(entries)@) == storage_model(old(entries)@).remove_keys(
            storage_prefix(addr@),
        ),
        storages_wf(final(entries)@),
{
    let ghost s = entries@;
    let mut kept: Vec<(Address, Word, Word)> = Vec::new();
    let mut j: usize = entries.len();
    proof {
        assert(s.skip(s.len() as int) =~= Seq::<(Address, Word, Word)>::empty());
        assert(storage_model(kept@) =~= storage_model(s.skip(s.len() as int)).remove_keys(
            storage_prefix(addr@),
        ));
    }
    while j > 0
        invariant
            j <= s.len(),
            entries@ == s,
            storages_wf(s),
            storages_wf(kept@),
            storage_model(kept@) == storage_model(s.skip(j as int)).remove_keys(
                storage_prefix(addr@),
            ),
        decreases j,
    {
        j -= 1;
        let e = &entries[j];
        proof {
            assert(s.skip(j as int).first() == s[j as int]);
            assert(s.skip(j as int).drop_first() =~= s.skip(j + 1));
        }
        if e.0.eq_addr(addr) {
            proof {
                assert(storage_prefix(addr@).contains((s[j as int].0@, s[j as int].1@)));
                assert(storage_model(s.skip(j as int)).remove_keys(storage_prefix(addr@))
                    =~= storage_model(s.skip(j + 1)).remove_keys(storage_prefix(addr@)));
            }
        } else {
            let ghost kept_before = kept@;
            kept.insert(0, (e.0.clone_addr(), e.1.clone_word(), e.2.clone_word()));
            proof {
                assert(!storage_prefix(addr@).contains((s[j as int].0@, s[j as int].1@)));
                assert(kept@.drop_first() =~= kept_before);
                assert(storage_model(kept@) =~= storage_model(s.skip(j as int)).remove_keys(
                    storage_prefix(addr@),
                ));
            }
        }
    }
    proof {
        assert(s.skip(0) =~= s);
    }
    *entries = kept;
}

/// The exact execution fee `gas_price * gas_limit`; a product outside
/// the 256-bit range is the `FeeOverflow` state error.
pub fn checked_fee(gas_price: &U256, gas_limit: &U256) -> (r: Result<U256, StateError>)
    ensures
        gas_price@ * gas_limit@ < crate::u256::u256_bound() ==> (r matches Ok(f) && f@
            == gas_price@ * gas_limit@),
        gas_price@ * gas_limit@ >= crate::u256::u256_bound() ==> r == Err::<U256, StateError>(
            StateError::FeeOverflow,
        ),
{
    match gas_price.checked_mul(gas_limit) {
        Some(f) => Ok(f),
        None => Err(StateError::FeeOverflow),
    }
}

/// Fixed per-block inputs injected by the surrounding runtime: chain
/// identifier, block number, timestamp, and the recent block hashes.
pub struct BlockContext {
    pub chain_id: u64,
    pub block_number: u128,
    pub timestamp: u128,
    pub block_hashes: Vec<(u32, Word)>,
}

impl BlockContext {
    pub open spec fn wf(&self) -> bool {
        forall|i: int| 0 <= i < self.block_hashes@.len() ==> (#[trigger] self.block_hashes@[i]).1.wf()
    }

    pub fn new(chain_id: u64, block_number: u128, timestamp: u128) -> (r: BlockContext)
        ensures
            r.chain_id == chain_id,
            r.block_number == block_number,
            r.timestamp == timestamp,
            hashes_model(r.block_hashes@) == Map::<u32, Seq<u8>>::empty(),
            r.wf(),
    {
        BlockContext { chain_id, block_number, timestamp, block_hashes: Vec::new() }
    }

    /// Record the hash of a recent block for `block_hash` queries.
    pub fn put_block_hash(&mut self, number: u32, hash: Word)
        requires
            old(self).wf(),
            hash.wf(),
        ensures
            hashes_model(final(self).block_hashes@) == hashes_model(
                old(self).block_hashes@,
            ).insert(number, hash@),
            final(self).wf(),
            final(self).chain_id == old(self).chain_id,
            final(self).block_number == old(self).block_number,
            final(self).timestamp == old(self).timestamp,
    {
        let ghost h_v = hash@;
        self.block_hashes.insert(0, (number, hash));
        proof {
            assert(self.block_hashes@.drop_first() =~= old(self).block_hashes@);
            assert(self.block_hashes@.first().1@ == h_v);
        }
    }
}

/// The state backend: account, code and storage maps, the vicinity of
/// the running transaction, the block context, and the emitted events.
pub struct Backend {
    pub vicinity: Vicinity,
    pub ctx: BlockContext,
    pub accounts: Vec<(Address, Account)>,
    pub codes: Vec<(Address, Vec<u8>)>,
    pub storages: Vec<(Address, Word, Word)>,
    pub events: Vec<Log>,
}

/// Module-level identity of the engine within its host runtime.
pub struct Module;

impl Module {
    /// The identifier of the engine's own module account: the 8-byte
    /// module tag, zero-padded to a 32-byte account identifier.
    pub fn account_id() -> (r: Vec<u8>)
        ensures
            r@.len() == 32,
            r@.subrange(0, 8) == seq![115u8, 115u8, 118u8, 109u8, 109u8, 111u8, 105u8, 100u8],
            forall|i: int| 8 <= i < 32 ==> r@[i] == 0u8,
    {
        let tag: [u8; 8] = [115, 115, 118, 109, 109, 111, 105, 100];
        let mut out: Vec<u8> = Vec::new();
        let mut i: usize = 0;
        while i < 8
            invariant
                i <= 8,
                out@.len() == i,
                forall|j: int| 0 <= j < i ==> out@[j] == tag@[j],
            decreases 8 - i,
        {
            out.push(tag[i]);
            i += 1;
        }
        while i < 32
            invariant
                8 <= i <= 32,
                out@.len() == i,
                forall|j: int| 0 <= j < 8 ==> out@[j] == tag@[j],
                forall|j: int| 8 <= j < i ==> out@[j] == 0u8,
            decreases 32 - i,
        {
            out.push(0u8);
            i += 1;
        }
        proof {
            assert(out@.subrange(0, 8) =~= seq![
                115u8,
                115u8,
                118u8,
                109u8,
                109u8,
                111u8,
                105u8,
                100u8,
            ]);
        }
        out
    }
}

impl Backend {
    /// The sparse-map model of the held state.
    pub open spec fn state(&self) -> StateV {
        StateV {
            accounts: accounts_model(self.accounts@),
            codes: codes_model(self.codes@),
            storage: storage_model(self.storages@),
        }
    }

    /// The events emitted so far, in order.
    pub open spec fn events_view(&self) -> Seq<crate::types::LogV> {
        crate::bloom::logs_view(self.events@)
    }

    pub open spec fn wf(&self) -> bool {
        &&& accounts_wf(self.accounts@)
        &&& codes_wf(self.codes@)
        &&& storages_wf(self.storages@)
        &&& self.vicinity.origin.wf()
        &&& self.ctx.wf()
    }

    /// A fresh backend over empty maps, with the given vicinity.
    pub fn new(vicinity: Vicinity, ctx: BlockContext) -> (r: Backend)
        requires
            vicinity.origin.wf(),
            ctx.wf(),
        ensures
            r.wf(),
            r.state().accounts == Map::<Seq<u8>, AccountV>::empty(),
            r.state().codes == Map::<Seq<u8>, Seq<u8>>::empty(),
            r.state().storage == Map::<(Seq<u8>, Seq<u8>), Seq<u8>>::empty(),
            r.events_view() == Seq::<crate::types::LogV>::empty(),
            r.vicinity == vicinity,
            r.ctx == ctx,
    {
        let r = Backend {
            vicinity,
            ctx,
            accounts: Vec::new(),
            codes: Vec::new(),
            storages: Vec::new(),
            events: Vec::new(),
        };
        proof {
            assert(r.events_view() =~= Seq::<crate::types::LogV>::empty());
        }
        r
    }


    pub fn gas_price(&self) -> (r: U256)
        ensures
            r@ == self.vicinity.gas_price@,
    {
        self.vicinity.gas_price
    }

    pub fn origin(&self) -> (r: Address)
        ensures
            r@ == self.vicinity.origin@,
    {
        self.vicinity.origin.clone_addr()
    }

    pub fn block_number(&self) -> (r: U256)
        ensures
            r@ == self.ctx.block_number,
    {
        U256::from_u128(self.ctx.block_number)
    }

    pub fn block_coinbase(&self) -> (r: Address)
        ensures
            r@ == crate::types::zero_address(),
            r.wf(),
    {
        Address::zero()
    }

    pub fn block_timestamp(&self) -> (r: U256)
        ensures
            r@ == self.ctx.timestamp,
    {
        U256::from_u128(self.ctx.timestamp)
    }

    pub fn block_difficulty(&self) -> (r: U256)
        ensures
            r@ == 0,
    {
        U256::zero()
    }

    pub fn block_gas_limit(&self) -> (r: U256)
        ensures
            r@ == 0,
    {
        U256::zero()
    }

    pub fn chain_id(&self) -> (r: U256)
        ensures
            r@ == self.ctx.chain_id,
    {
        U256::from_u64(self.ctx.chain_id)
    }

    /// Account existence is answered affirmatively for every address.
    pub fn address_exists(&self, _address: &Address) -> (r: bool)
        ensures
            r == true,
    {
        true
    }

    /// The nonce and balance of an address.
    pub fn basic(&self, address: &Address) -> (r: Account)
        ensures
            r@ == account_or_default(self.state(), address@),
    {
        match accounts_get(&self.accounts, address) {
            Some(a) => a,
            None => Account::empty(),
        }
    }

    /// The code of an address.
    pub fn code(&self, address: &Address) -> (r: Vec<u8>)
        ensures
            r@ == code_or_empty(self.state(), address@),
    {
        match codes_get(&self.codes, address) {
            Some(c) => c,
            None => Vec::new(),
        }
    }

    /// The code length of an address.
    pub fn code_size(&self, address: &Address) -> (r: usize)
        ensures
            r == code_or_empty(self.state(), address@).len(),
    {
        let c = self.code(address);
        c.len()
    }

    /// The digest of an address's code.
    pub fn code_hash(&self, address: &Address) -> (r: Word)
        ensures
            r@ == crate::hashing::keccak256_of(code_or_empty(self.state(), address@)),
            r.wf(),
    {
        let c = self.code(address);
        Word::new(crate::hashing::keccak256(&c))
    }

    /// The value of a storage slot, the zero word when absent.
    pub fn storage(&self, address: &Address, key: &Word) -> (r: Word)
        requires
            self.wf(),
        ensures
            r@ == storage_or_zero(self.state(), address@, key@),
            r.wf(),
    {
        match storage_get_entry(&self.storages, address, key) {
            Some(v) => v,
            None => Word::zero(),
        }
    }

    /// The hash of a recent block: the zero word outside the recorded
    /// range or above the 32-bit block-number bound.
    pub fn block_hash(&self, number: &U256) -> (r: Word)
        requires
            self.wf(),
        ensures
            number@ > u32::MAX ==> r@ == zero_word(),
            number@ <= u32::MAX ==> r@ == (if hashes_model(self.ctx.block_hashes@).contains_key(
                (number@ as u32),
            ) {
                hashes_model(self.ctx.block_hashes@)[(number@ as u32)]
            } else {
                zero_word()
            }),
            r.wf(),
    {
        if number.hi != 0 || number.lo > (u32::MAX as u128) {
            proof {
                crate::u256::lemma_view_bound(*number);
                assert(number@ > u32::MAX) by (nonlinear_arith)
                    requires
                        number.hi != 0 || number.lo > u32::MAX,
                        number@ == number.hi * crate::u256::limb_base() + number.lo,
                ;
            }
            Word::zero()
        } else {
            let n32 = number.lo as u32;
            proof {
                assert(number@ == number.lo);
                assert(n32 == number@ as u32);
            }
            match hashes_get(&self.ctx.block_hashes, n32) {
                Some(h) => h,
                None => Word::zero(),
            }
        }
    }

    /// Everything but the account map is left alone.
    pub open spec fn same_but_accounts(&self, other: &Backend) -> bool {
        &&& self.state().codes == other.state().codes
        &&& self.state().storage == other.state().storage
        &&& self.events_view() == other.events_view()
        &&& self.vicinity == other.vicinity
        &&& self.ctx == other.ctx
    }

    /// Record an account outright, as genesis loading does.
    pub fn put_account(&mut self, address: Address, account: Account)
        requires
            old(self).wf(),
            address.wf(),
        ensures
            final(self).wf(),
            final(self).state().accounts == old(self).state().accounts.insert(
                address@,
                account@,
            ),
            final(self).same_but_accounts(&*old(self)),
    {
        accounts_upsert(&mut self.accounts, address, account);
    }

    /// Record code for an address, as a successful creation does.
    pub fn insert_code(&mut self, address: Address, code: Vec<u8>)
        requires
            old(self).wf(),
            address.wf(),
        ensures
            final(self).wf(),
            final(self).state().codes == old(self).state().codes.insert(address@, code@),
            final(self).state().accounts == old(self).state().accounts,
            final(self).state().storage == old(self).state().storage,
            final(self).events_view() == old(self).events_view(),
            final(self).vicinity == old(self).vicinity,
            final(self).ctx == old(self).ctx,
    {
        codes_upsert(&mut self.codes, address, code);
    }

    /// Credit an account; fails only when the balance would leave the
    /// 256-bit range.
    pub fn deposit(&mut self, address: &Address, value: &U256) -> (r: Result<(), StateError>)
        requires
            old(self).wf(),
            address.wf(),
        ensures
            final(self).wf(),
            final(self).same_but_accounts(&*old(self)),
            ({
                let a = account_or_default(old(self).state(), address@);
                if a.balance + value@ < crate::u256::u256_bound() {
                    r is Ok && final(self).state().accounts == old(self).state().accounts.insert(
                        address@,
                        (AccountV { nonce: a.nonce, balance: (a.balance + value@) as nat }),
                    )
                } else {
                    r == Err::<(), StateError>(StateError::PaymentOverflow) && final(self).state().accounts == old(self).state().accounts
                }
            }),
    {
        let a = self.basic(address);
        match a.balance.checked_add(value) {
            Some(nb) => {
                accounts_upsert(
                    &mut self.accounts,
                    address.clone_addr(),
                    Account { nonce: a.nonce, balance: nb },
                );
                Ok(())
            },
            None => Err(StateError::PaymentOverflow),
        }
    }

    /// Debit an account; fails when the balance does not suffice.
    pub fn withdraw(&mut self, address: &Address, value: &U256) -> (r: Result<(), StateError>)
        requires
            old(self).wf(),
            address.wf(),
        ensures
            final(self).wf(),
            final(self).same_but_accounts(&*old(self)),
            ({
                let a = account_or_default(old(self).state(), address@);
                if a.balance >= value@ {
                    r is Ok && final(self).state().accounts == old(self).state().accounts.insert(
                        address@,
                        (AccountV { nonce: a.nonce, balance: (a.balance - value@) as nat }),
                    )
                } else {
                    r == Err::<(), StateError>(StateError::BalanceLow) && final(self).state().accounts == old(self).state().accounts
                }
            }),
    {
        let a = self.basic(address);
        match a.balance.checked_sub(value) {
            Some(nb) => {
                accounts_upsert(
                    &mut self.accounts,
                    address.clone_addr(),
                    Account { nonce: a.nonce, balance: nb },
                );
                Ok(())
            },
            None => Err(StateError::BalanceLow),
        }
    }

    /// Move value between two accounts.  Fails with `BalanceLow` when
    /// the source cannot pay and with `PaymentOverflow` when the
    /// destination balance would leave the 256-bit range; a transfer to
    /// the source itself only checks the balance.
    pub fn transfer(&mut self, from: &Address, to: &Address, value: &U256) -> (r: Result<
        (),
        StateError,
    >)
        requires
            old(self).wf(),
            from.wf(),
            to.wf(),
        ensures
            final(self).wf(),
            final(self).same_but_accounts(&*old(self)),
            ({
                let fa = account_or_default(old(self).state(), from@);
                let ta = account_or_default(old(self).state(), to@);
                if fa.balance < value@ {
                    r == Err::<(), StateError>(StateError::BalanceLow) && final(self).state().accounts == old(self).state().accounts
                } else if from@ == to@ {
                    r is Ok && final(self).state().accounts == old(self).state().accounts
                } else if ta.balance + value@ >= crate::u256::u256_bound() {
                    r == Err::<(), StateError>(StateError::PaymentOverflow) && final(self).state().accounts == old(self).state().accounts
                } else {
                    r is Ok && final(self).state().accounts == old(self).state().accounts.insert(
                        from@,
                        (AccountV { nonce: fa.nonce, balance: (fa.balance - value@) as nat }),
                    ).insert(
                        to@,
                        (AccountV { nonce: ta.nonce, balance: (ta.balance + value@) as nat }),
                    )
                }
            }),
    {
        let fa = self.basic(from);
        if fa.balance.lt(value) {
            return Err(StateError::BalanceLow);
        }
        if from.eq_addr(to) {
            return Ok(());
        }
        let ta = self.basic(to);
        match ta.balance.checked_add(value) {
            None => Err(StateError::PaymentOverflow),
            Some(nb) => {
                let nf = match fa.balance.checked_sub(value) {
                    Some(nf) => nf,
                    None => {
                        proof {
                            assert(false);
                        }
                        U256::zero()
                    },
                };
                accounts_upsert(
                    &mut self.accounts,
                    from.clone_addr(),
                    Account { nonce: fa.nonce, balance: nf },
                );
                accounts_upsert(
                    &mut self.accounts,
                    to.clone_addr(),
                    Account { nonce: ta.nonce, balance: nb },
                );
                Ok(())
            },
        }
    }

    /// Step an account's nonce.
    pub fn inc_nonce(&mut self, address: &Address)
        requires
            old(self).wf(),
            address.wf(),
            account_or_default(old(self).state(), address@).nonce + 1 < crate::u256::u256_bound(),
        ensures
            final(self).wf(),
            final(self).same_but_accounts(&*old(self)),
            ({
                let a = account_or_default(old(self).state(), address@);
                final(self).state().accounts == old(self).state().accounts.insert(
                    address@,
                    (AccountV { nonce: (a.nonce + 1) as nat, balance: a.balance }),
                )
            }),
    {
        let a = self.basic(address);
        let one = U256::one();
        let nn = match a.nonce.checked_add(&one) {
            Some(nn) => nn,
            None => {
                proof {
                    assert(false);
                }
                U256::zero()
            },
        };
        accounts_upsert(
            &mut self.accounts,
            address.clone_addr(),
            Account { nonce: nn, balance: a.balance },
        );
    }

    /// Step an account's nonce only when it matches the expected one;
    /// a mismatch is the `InvalidNonce` state error.
    pub fn inc_nonce_checked(&mut self, address: &Address, expected: &U256) -> (r: Result<
        (),
        StateError,
    >)
        requires
            old(self).wf(),
            address.wf(),
            expected@ + 1 < crate::u256::u256_bound(),
        ensures
            final(self).wf(),
            final(self).same_but_accounts(&*old(self)),
            ({
                let a = account_or_default(old(self).state(), address@);
                if a.nonce == expected@ {
                    r is Ok && final(self).state().accounts == old(self).state().accounts.insert(
                        address@,
                        (AccountV { nonce: (a.nonce + 1) as nat, balance: a.balance }),
                    )
                } else {
                    r == Err::<(), StateError>(StateError::InvalidNonce) && final(self).state().accounts == old(self).state().accounts
                }
            }),
    {
        let a = self.basic(address);
        if !a.nonce.eq_val(expected) {
            return Err(StateError::InvalidNonce);
        }
        self.inc_nonce(address);
        Ok(())
    }

    /// Whether an account reads as empty: zero nonce, zero balance, no
    /// code bytes.
    pub fn is_account_empty(&self, address: &Address) -> (r: bool)
        ensures
            r == account_empty_spec(self.state(), address@),
    {
        let a = self.basic(address);
        let code_len = self.code_size(address);
        a.nonce.is_zero() && a.balance.is_zero() && code_len == 0
    }

    /// Remove an account from all three maps.
    pub fn remove_account(&mut self, address: &Address)
        requires
            old(self).wf(),
        ensures
            final(self).wf(),
            final(self).state() == remove_account_spec(old(self).state(), address@),
            final(self).events_view() == old(self).events_view(),
            final(self).vicinity == old(self).vicinity,
            final(self).ctx == old(self).ctx,
    {
        accounts_remove(&mut self.accounts, address);
        codes_remove(&mut self.codes, address);
        storage_remove_prefix(&mut self.storages, address);
        proof {
            assert(self.state() =~= remove_account_spec(old(self).state(), address@));
        }
    }

    /// Remove an account when it reads as empty.
    pub fn remove_account_if_empty(&mut self, address: &Address)
        requires
            old(self).wf(),
        ensures
            final(self).wf(),
            final(self).state() == (if account_empty_spec(old(self).state(), address@) {
                remove_account_spec(old(self).state(), address@)
            } else {
                old(self).state()
            }),
            final(self).events_view() == old(self).events_view(),
            final(self).vicinity == old(self).vicinity,
            final(self).ctx == old(self).ctx,
    {
        if self.is_account_empty(address) {
            self.remove_account(address);
        }
    }

    /// Write one storage slot with sparse-zero semantics: the zero word
    /// deletes the entry.
    pub fn set_storage(&mut self, address: Address, key: Word, value: Word)
        requires
            old(self).wf(),
            address.wf(),
            key.wf(),
            value.wf(),
        ensures
            final(self).wf(),
            final(self).state() == apply_storage_item(old(self).state(), address@, key@, value@),
            final(self).events_view() == old(self).events_view(),
            final(self).vicinity == old(self).vicinity,
            final(self).ctx == old(self).ctx,
    {
        if value.is_zero() {
            storage_remove(&mut self.storages, &address, &key);
        } else {
            storage_upsert(&mut self.storages, address, key, value);
        }
        proof {
            assert(self.state() =~= apply_storage_item(
                old(self).state(),
                address@,
                key@,
                value@,
            ));
        }
    }

    /// Emit one log event.
    pub fn deposit_event(&mut self, log: Log)
        requires
            old(self).wf(),
        ensures
            final(self).wf(),
            final(self).state() == old(self).state(),
            final(self).events_view() == old(self).events_view().push(log@),
            final(self).vicinity == old(self).vicinity,
            final(self).ctx == old(self).ctx,
    {
        let ghost l_v = log@;
        self.events.push(log);
        proof {
            assert(self.events_view() =~= old(self).events_view().push(l_v));
        }
    }

    /// Apply one changeset entry.
    fn apply_entry(&mut self, e: ApplyEntry, delete_empty: bool)
        requires
            old(self).wf(),
            apply_entry_wf(e),
        ensures
            final(self).wf(),
            final(self).state() == apply_entry_spec(old(self).state(), e, delete_empty),
            final(self).events_view() == old(self).events_view(),
            final(self).vicinity == old(self).vicinity,
            final(self).ctx == old(self).ctx,
    {
        let ghost e0 = e;
        match e {
            ApplyEntry::Modify { address, basic, code, storage: slots, reset_storage } => {
                let ghost addr_v = address@;
                accounts_upsert(&mut self.accounts, address.clone_addr(), basic);
                match code {
                    Some(c) => {
                        codes_upsert(&mut self.codes, address.clone_addr(), c);
                    },
                    None => {},
                }
                if reset_storage {
                    storage_remove_prefix(&mut self.storages, &address);
                }
                let ghost s3 = self.state();
                let ghost slots0 = slots@;
                let mut slots = slots;
                proof {
                    assert(slots@.skip(0) =~= slots@);
                }
                while slots.len() > 0
                    invariant
                        self.wf(),
                        addr_v == address@,
                        address.wf(),
                        forall|i: int|
                            0 <= i < slots@.len() ==> (#[trigger] slots@[i]).0.wf()
                                && slots@[i].1.wf(),
                        apply_storage_items(s3, addr_v, slots0) == apply_storage_items(
                            self.state(),
                            addr_v,
                            slots@,
                        ),
                        self.events_view() == old(self).events_view(),
                        self.vicinity == old(self).vicinity,
                        self.ctx == old(self).ctx,
                    decreases slots@.len(),
                {
                    let ghost pre = slots@;
                    let (k, v) = slots.remove(0);
                    proof {
                        assert(pre.first() == (k, v));
                        assert(pre.drop_first() =~= slots@);
                    }
                    self.set_storage(address.clone_addr(), k, v);
                }
                if delete_empty {
                    self.remove_account_if_empty(&address);
                }
                proof {
                    assert(final(self).state() =~= apply_entry_spec(
                        old(self).state(),
                        e0,
                        delete_empty,
                    ));
                }
            },
            ApplyEntry::Delete { address } => {
                self.remove_account(&address);
            },
        }
    }

    /// Apply a whole changeset, entry by entry, then emit one event per
    /// log in input order.  There is no partial-failure mode: callers
    /// must not pass a changeset from a reverted execution.
    pub fn apply(&mut self, changes: Vec<ApplyEntry>, logs: Vec<Log>, delete_empty: bool)
        requires
            old(self).wf(),
            changes_wf(changes@),
        ensures
            final(self).wf(),
            final(self).state() == apply_entries_spec(old(self).state(), changes@, delete_empty),
            final(self).events_view() == old(self).events_view() + crate::bloom::logs_view(logs@),
            final(self).vicinity == old(self).vicinity,
            final(self).ctx == old(self).ctx,
    {
        let ghost s0 = self.state();
        let ghost cs0 = changes@;
        let mut changes = changes;
        while changes.len() > 0
            invariant
                self.wf(),
                changes_wf(changes@),
                apply_entries_spec(s0, cs0, delete_empty) == apply_entries_spec(
                    self.state(),
                    changes@,
                    delete_empty,
                ),
                self.events_view() == old(self).events_view(),
                self.vicinity == old(self).vicinity,
                self.ctx == old(self).ctx,
            decreases changes@.len(),
        {
            let ghost pre = changes@;
            let e = changes.remove(0);
            proof {
                assert(pre.first() == e);
                assert(pre.drop_first() =~= changes@);
                assert(apply_entry_wf(pre[0]));
            }
            self.apply_entry(e, delete_empty);
        }
        let ghost ev0 = self.events_view();
        let ghost lv0 = crate::bloom::logs_view(logs@);
        let mut logs = logs;
        proof {
            assert(ev0 + crate::bloom::logs_view(logs@) =~= ev0 + lv0);
        }
        while logs.len() > 0
            invariant
                self.wf(),
                self.state() == apply_entries_spec(s0, cs0, delete_empty),
                self.events_view() + crate::bloom::logs_view(logs@) == ev0 + lv0,
                self.vicinity == old(self).vicinity,
                self.ctx == old(self).ctx,
            decreases logs@.len(),
        {
            let ghost pre = logs@;
            let l = logs.remove(0);
            proof {
                assert(pre.first() == l);
                assert(pre.drop_first() =~= logs@);
                assert(crate::bloom::logs_view(pre).first() == l@);
            }
            let ghost ev_now = self.events_view();
            self.events.push(l);
            proof {
                assert(self.events_view() =~= ev_now.push(l@));
                assert(self.events_view() + crate::bloom::logs_view(logs@) =~= ev_now
                    + crate::bloom::logs_view(pre));
            }
        }
        proof {
            assert(crate::bloom::logs_view(logs@) =~= Seq::<crate::types::LogV>::empty());
            assert(self.events_view() =~= self.events_view() + crate::bloom::logs_view(logs@));
            assert(ev0 == old(self).events_view());
        }
    }
}

} // verus!

use vstd::prelude::*;
use crate::error::BlogError;
use crate::key::Pubkey;
use crate::layout::{
    account_discriminator, byte_len, text_len, decode, discriminator, encode, required_capacity, valid_record,
    BlogEntryState, RecordView, ANCHOR_DISCRIMINATOR_SIZE, DESCRIPTION_MAX_LEN, TITLE_MAX_LEN,
};

verus! {

/// One occupied slot: its address, the bump its address was derived with,
/// the stored bytes and the deposit held for them.
#[derive(Debug)]
pub struct Slot {
    address: Pubkey,
    bump: u8,
    data: Vec<u8>,
    deposit: u64,
}

/// What an occupied slot holds, as mathematical values.
pub struct SlotView {
    pub record: RecordView,
    pub bump: u8,
    pub data: Seq<u8>,
    pub deposit: nat,
}

/// The slot that storing `record` creates: exactly its bytes, with a deposit
/// of one unit per byte.
pub open spec fn stored_slot(record: RecordView, bump: u8) -> SlotView {
    SlotView { record, bump, data: encode(record), deposit: encode(record).len() }
}

/// A slot as the store keeps it: a valid record, its exact bytes, and a
/// deposit equal to the storage it occupies.
pub open spec fn valid_slot(s: SlotView) -> bool {
    &&& valid_record(s.record)
    &&& s.data == encode(s.record)
    &&& s.deposit == s.data.len()
    &&& s.data.len() == required_capacity(s.record)
}

/// The store, as a map from slot address to slot.
pub type LedgerMap = Map<Seq<u8>, SlotView>;

/// Outcome of creating a record at `address`: the new store, or the error.
pub open spec fn create_result(
    m: LedgerMap,
    address: Seq<u8>,
    bump: u8,
    owner: Seq<u8>,
    title: Seq<char>,
    description: Seq<char>,
) -> Result<LedgerMap, BlogError> {
    if m.contains_key(address) {
        Err(BlogError::AlreadyExists)
    } else if byte_len(title) > TITLE_MAX_LEN || byte_len(description) > DESCRIPTION_MAX_LEN {
        Err(BlogError::ValidationError)
    } else {
        Ok(
            m.insert(
                address,
                stored_slot(RecordView { owner, title, description }, bump),
            ),
        )
    }
}

/// Whether a derivation outcome gives exactly `address`.
pub open spec fn derives(derived: Option<Seq<u8>>, address: Seq<u8>) -> bool {
    derived == Some(address)
}

/// Outcome of replacing the description of the record at `address` on
/// behalf of `caller`, where `derived` is the address that the caller's
/// key and title derive.
pub open spec fn update_result(
    m: LedgerMap,
    address: Seq<u8>,
    caller: Seq<u8>,
    derived: Option<Seq<u8>>,
    description: Seq<char>,
) -> Result<LedgerMap, BlogError> {
    if !m.contains_key(address) {
        Err(BlogError::NotFound)
    } else if m[address].record.owner != caller {
        Err(BlogError::Unauthorized)
    } else if !derives(derived, address) {
        Err(BlogError::NotFound)
    } else if byte_len(description) > DESCRIPTION_MAX_LEN {
        Err(BlogError::ValidationError)
    } else {
        Ok(
            m.insert(
                address,
                stored_slot(
                    RecordView { description, ..m[address].record },
                    m[address].bump,
                ),
            ),
        )
    }
}

/// Outcome of deleting the record at `address` on behalf of `caller`: the
/// new store and the deposit handed back, or the error.
pub open spec fn delete_result(
    m: LedgerMap,
    address: Seq<u8>,
    caller: Seq<u8>,
    derived: Option<Seq<u8>>,
) -> Result<(LedgerMap, nat), BlogError> {
    if !m.contains_key(address) {
        Err(BlogError::NotFound)
    } else if m[address].record.owner != caller {
        Err(BlogError::Unauthorized)
    } else if !derives(derived, address) {
        Err(BlogError::NotFound)
    } else {
        Ok((m.remove(address), m[address].deposit))
    }
}

spec fn slot_view(s: Slot) -> SlotView {
    SlotView {
        record: decode(s.data@)->Some_0,
        bump: s.bump,
        data: s.data@,
        deposit: s.deposit as nat,
    }
}

spec fn slot_ok(s: Slot) -> bool {
    decode(s.data@) is Some && valid_slot(slot_view(s))
}

spec fn unique_addresses(s: Seq<Slot>) -> bool {
    forall|i: int, j: int|
        0 <= i < s.len() && 0 <= j < s.len() && i != j ==> s[i].address@ != s[j].address@
}

spec fn map_of(s: Seq<Slot>) -> LedgerMap {
    Map::new(
        |a: Seq<u8>| exists|i: int| 0 <= i < s.len() && s[i].address@ == a,
        |a: Seq<u8>| slot_view(s[choose|i: int| 0 <= i < s.len() && s[i].address@ == a]),
    )
}

proof fn lemma_map_of_index(s: Seq<Slot>, i: int)
    requires
        unique_addresses(s),
        0 <= i < s.len(),
    ensures
        map_of(s).contains_key(s[i].address@),
        map_of(s)[s[i].address@] == slot_view(s[i]),
{
    let a = s[i].address@;
    assert(exists|j: int| 0 <= j < s.len() && s[j].address@ == a);
    let j = choose|j: int| 0 <= j < s.len() && s[j].address@ == a;
    assert(j == i);
}

proof fn lemma_map_of_push(s: Seq<Slot>, x: Slot)
    requires
        unique_addresses(s),
        !map_of(s).contains_key(x.address@),
    ensures
        unique_addresses(s.push(x)),
        map_of(s.push(x)) =~= map_of(s).insert(x.address@, slot_view(x)),
{
    let t = s.push(x);
    assert forall|i: int| 0 <= i < s.len() implies s[i].address@ != x.address@ by {
        lemma_map_of_index(s, i);
    }
    assert(unique_addresses(t));
    assert forall|a: Seq<u8>| #[trigger] map_of(t).contains_key(a) == map_of(s).insert(
        x.address@,
        slot_view(x),
    ).contains_key(a) by {
        if map_of(t).contains_key(a) {
            let i = choose|i: int| 0 <= i < t.len() && t[i].address@ == a;
            if i < s.len() {
                assert(t[i] == s[i]);
                lemma_map_of_index(s, i);
            }
        }
        if map_of(s).contains_key(a) {
            let i = choose|i: int| 0 <= i < s.len() && s[i].address@ == a;
            assert(t[i] == s[i]);
            lemma_map_of_index(t, i);
        }
        if a == x.address@ {
            lemma_map_of_index(t, s.len() as int);
        }
    }
    assert forall|a: Seq<u8>| #[trigger] map_of(t).contains_key(a) implies map_of(t)[a]
        == map_of(s).insert(x.address@, slot_view(x))[a] by {
        let i = choose|i: int| 0 <= i < t.len() && t[i].address@ == a;
        lemma_map_of_index(t, i);
        if i < s.len() {
            assert(t[i] == s[i]);
            lemma_map_of_index(s, i);
        }
    }
}

proof fn lemma_map_of_update(s: Seq<Slot>, k: int, x: Slot)
    requires
        unique_addresses(s),
        0 <= k < s.len(),
        x.address@ == s[k].address@,
    ensures
        unique_addresses(s.update(k, x)),
        map_of(s.update(k, x)) =~= map_of(s).insert(x.address@, slot_view(x)),
{
    let t = s.update(k, x);
    assert(unique_addresses(t));
    lemma_map_of_index(s, k);
    lemma_map_of_index(t, k);
    assert forall|a: Seq<u8>| #[trigger] map_of(t).contains_key(a) == map_of(s).contains_key(a) by {
        if map_of(t).contains_key(a) {
            let i = choose|i: int| 0 <= i < t.len() && t[i].address@ == a;
            lemma_map_of_index(s, i);
        }
        if map_of(s).contains_key(a) {
            let i = choose|i: int| 0 <= i < s.len() && s[i].address@ == a;
            lemma_map_of_index(t, i);
        }
    }
    assert forall|a: Seq<u8>| #[trigger] map_of(t).contains_key(a) implies map_of(t)[a]
        == map_of(s).insert(x.address@, slot_view(x))[a] by {
        let i = choose|i: int| 0 <= i < t.len() && t[i].address@ == a;
        lemma_map_of_index(t, i);
        lemma_map_of_index(s, i);
    }
}

proof fn lemma_map_of_remove(s: Seq<Slot>, k: int)
    requires
        unique_addresses(s),
        0 <= k < s.len(),
    ensures
        unique_addresses(s.remove(k)),
        map_of(s.remove(k)) =~= map_of(s).remove(s[k].address@),
{
    let t = s.remove(k);
    let gone = s[k].address@;
    assert forall|i: int| 0 <= i < t.len() implies #[trigger] t[i] == s[if i < k { i } else { i + 1 }] by {}
    assert(unique_addresses(t)) by {
        assert forall|i: int, j: int|
            0 <= i < t.len() && 0 <= j < t.len() && i != j implies t[i].address@ != t[j].address@ by {
            assert(t[i] == s[if i < k { i } else { i + 1 }]);
            assert(t[j] == s[if j < k { j } else { j + 1 }]);
        }
    }
    assert forall|a: Seq<u8>| #[trigger] map_of(t).contains_key(a) == map_of(s).remove(gone).contains_key(a) by {
        if map_of(t).contains_key(a) {
            let i = choose|i: int| 0 <= i < t.len() && t[i].address@ == a;
            let si = if i < k { i } else { i + 1 };
            assert(t[i] == s[si]);
            lemma_map_of_index(s, si);
        }
        if map_of(s).contains_key(a) && a != gone {
            let si = choose|i: int| 0 <= i < s.len() && s[i].address@ == a;
            let i = if si < k { si } else { si - 1 };
            assert(t[i] == s[si]);
            lemma_map_of_index(t, i);
        }
    }
    assert forall|a: Seq<u8>| #[trigger] map_of(t).contains_key(a) implies map_of(t)[a]
        == map_of(s).remove(gone)[a] by {
        let i = choose|i: int| 0 <= i < t.len() && t[i].address@ == a;
        let si = if i < k { i } else { i + 1 };
        assert(t[i] == s[si]);
        lemma_map_of_index(t, i);
        lemma_map_of_index(s, si);
    }
}

/// The store of blog slots that one program owns, keyed by slot address.
pub struct Ledger {
    program_id: Pubkey,
    slots: Vec<Slot>,
}

impl View for Ledger {
    type V = LedgerMap;

    closed spec fn view(&self) -> LedgerMap {
        map_of(self.slots@)
    }
}

impl Ledger {
    /// The key of the program that owns the store.
    pub closed spec fn program(&self) -> Seq<u8> {
        self.program_id@
    }

    /// The store's invariant: one slot per address, each well formed.
    pub closed spec fn wf(&self) -> bool {
        &&& unique_addresses(self.slots@)
        &&& forall|i: int| 0 <= i < self.slots@.len() ==> slot_ok(#[trigger] self.slots@[i])
        &&& discriminator().len() == ANCHOR_DISCRIMINATOR_SIZE
    }

    /// Every slot of a well-formed store holds a valid record in its exact bytes.
    pub proof fn lemma_slots_valid(&self)
        requires
            self.wf(),
        ensures
            forall|a: Seq<u8>| #[trigger] self@.contains_key(a) ==> valid_slot(self@[a]),
            discriminator().len() == ANCHOR_DISCRIMINATOR_SIZE,
    {
        assert forall|a: Seq<u8>| #[trigger] self@.contains_key(a) implies valid_slot(self@[a]) by {
            let i = choose|i: int| 0 <= i < self.slots@.len() && self.slots@[i].address@ == a;
            lemma_map_of_index(self.slots@, i);
        }
    }

    /// An empty store owned by `program_id`.
    pub fn new(program_id: Pubkey) -> (r: Ledger)
        ensures
            r.wf(),
            r@ == LedgerMap::empty(),
            r.program() == program_id@,
    {
        let _ = account_discriminator();
        let r = Ledger { program_id, slots: Vec::new() };
        assert(r@ =~= LedgerMap::empty());
        r
    }

    /// The key of the program that owns the store.
    pub fn program_id(&self) -> (r: Pubkey)
        ensures
            r@ == self.program(),
    {
        self.program_id
    }

    fn find(&self, address: &Pubkey) -> (r: Option<usize>)
        requires
            unique_addresses(self.slots@),
        ensures
            r matches Some(i) ==> i < self.slots@.len() && self.slots@[i as int].address@
                == address@,
            r is None ==> !self@.contains_key(address@),
    {
        let mut i: usize = 0;
        while i < self.slots.len()
            invariant
                i <= self.slots@.len(),
                forall|j: int| 0 <= j < i ==> self.slots@[j].address@ != address@,
            decreases self.slots@.len() - i,
        {
            if self.slots[i].address.same_as(address) {
                return Some(i);
            }
            i = i + 1;
        }
        None
    }

    /// Whether a record occupies `address`.
    pub fn contains(&self, address: &Pubkey) -> (r: bool)
        requires
            self.wf(),
        ensures
            r == self@.contains_key(address@),
    {
        match self.find(address) {
            Some(i) => {
                proof {
                    lemma_map_of_index(self.slots@, i as int);
                }
                true
            },
            None => false,
        }
    }

    fn record_at(&self, i: usize) -> (r: BlogEntryState)
        requires
            self.wf(),
            i < self.slots@.len(),
        ensures
            r@ == self@[self.slots@[i as int].address@].record,
    {
        proof {
            lemma_map_of_index(self.slots@, i as int);
        }
        match BlogEntryState::try_deserialize(self.slots[i].data.as_slice()) {
            Ok(e) => e,
            Err(_) => {
                proof {
                    assert(slot_ok(self.slots@[i as int]));
                }
                unreached()
            },
        }
    }

    /// The record at `address`; `NotFound` where the slot is absent.
    pub fn read(&self, address: &Pubkey) -> (r: Result<BlogEntryState, BlogError>)
        requires
            self.wf(),
        ensures
            self@.contains_key(address@) ==> (r matches Ok(e) && e@ == self@[address@].record),
            !self@.contains_key(address@) ==> r == Err::<BlogEntryState, BlogError>(
                BlogError::NotFound,
            ),
    {
        match self.find(address) {
            Some(i) => Ok(self.record_at(i)),
            None => Err(BlogError::NotFound),
        }
    }

    /// The storage that the slot at `address` occupies, if present.
    pub fn capacity(&self, address: &Pubkey) -> (r: Option<usize>)
        requires
            self.wf(),
        ensures
            self@.contains_key(address@) ==> r == Some(self@[address@].data.len() as usize),
            !self@.contains_key(address@) ==> r is None,
    {
        match self.find(address) {
            Some(i) => {
                proof {
                    lemma_map_of_index(self.slots@, i as int);
                }
                Some(self.slots[i].data.len())
            },
            None => None,
        }
    }

    /// The deposit held for the slot at `address`, if present.
    pub fn deposit(&self, address: &Pubkey) -> (r: Option<u64>)
        requires
            self.wf(),
        ensures
            self@.contains_key(address@) ==> r == Some(self@[address@].deposit as u64),
            !self@.contains_key(address@) ==> r is None,
    {
        match self.find(address) {
            Some(i) => {
                proof {
                    lemma_map_of_index(self.slots@, i as int);
                }
                Some(self.slots[i].deposit)
            },
            None => None,
        }
    }

    /// Creates the record `(owner, title, description)` at `address`, in a
    /// slot of exactly its size, holding a deposit of that size.
    pub fn create_at(
        &mut self,
        address: Pubkey,
        bump: u8,
        owner: Pubkey,
        title: String,
        description: String,
    ) -> (r: Result<(), BlogError>)
        requires
            old(self).wf(),
        ensures
            final(self).wf(),
            final(self).program() == old(self).program(),
            match create_result(old(self)@, address@, bump, owner@, title@, description@) {
                Err(e) => r == Err::<(), BlogError>(e) && final(self)@ == old(self)@,
                Ok(m) => r is Ok && final(self)@ == m,
            },
    {
        if self.find(&address).is_some() {
            return Err(BlogError::AlreadyExists);
        }
        if text_len(&title) > TITLE_MAX_LEN || text_len(&description) > DESCRIPTION_MAX_LEN {
            return Err(BlogError::ValidationError);
        }
        let entry = BlogEntryState { owner, title, description };
        let data = entry.serialize();
        let deposit = data.len() as u64;
        let slot = Slot { address, bump, data, deposit };
        proof {
            assert(slot_view(slot).record == entry@);
            assert(slot_ok(slot));
            lemma_map_of_push(self.slots@, slot);
        }
        self.slots.push(slot);
        proof {
            assert(forall|i: int|
                0 <= i < old(self).slots@.len() ==> self.slots@[i] == old(self).slots@[i]);
            assert(self.slots@[old(self).slots@.len() as int] == slot);
        }
        Ok(())
    }

    /// Replaces the description of the record at `address` on behalf of
    /// `caller`; `derived` is the address that the caller's key and title
    /// derive. The slot is resized to the new record, and the deposit follows.
    pub fn update_at(
        &mut self,
        address: &Pubkey,
        caller: &Pubkey,
        derived: Option<Pubkey>,
        new_description: String,
    ) -> (r: Result<(), BlogError>)
        requires
            old(self).wf(),
        ensures
            final(self).wf(),
            final(self).program() == old(self).program(),
            match update_result(old(self)@, address@, caller@, key_opt(derived), new_description@) {
                Err(e) => r == Err::<(), BlogError>(e) && final(self)@ == old(self)@,
                Ok(m) => r is Ok && final(self)@ == m,
            },
    {
        let i = match self.find(address) {
            Some(i) => i,
            None => return Err(BlogError::NotFound),
        };
        let e = self.record_at(i);
        proof {
            lemma_map_of_index(self.slots@, i as int);
        }
        if !e.owner.same_as(caller) {
            return Err(BlogError::Unauthorized);
        }
        match derived {
            Some(d) => {
                if !d.same_as(address) {
                    return Err(BlogError::NotFound);
                }
            },
            None => return Err(BlogError::NotFound),
        }
        if text_len(&new_description) > DESCRIPTION_MAX_LEN {
            return Err(BlogError::ValidationError);
        }
        let entry = BlogEntryState { owner: e.owner, title: e.title, description: new_description };
        assert(slot_ok(self.slots@[i as int]));
        let data = entry.serialize();
        let deposit = data.len() as u64;
        let slot = Slot { address: self.slots[i].address, bump: self.slots[i].bump, data, deposit };
        proof {
            assert(entry@ == RecordView { description: new_description@, ..old(self)@[address@].record });
            assert(slot_view(slot).record == entry@);
            assert(slot_ok(slot));
            lemma_map_of_update(self.slots@, i as int, slot);
        }
        self.slots.set(i, slot);
        proof {
            assert(self.slots@[i as int] == slot);
        }
        Ok(())
    }

    /// Deletes the record at `address` on behalf of `caller`, freeing the
    /// address, and hands back the slot's whole deposit.
    pub fn delete_at(&mut self, address: &Pubkey, caller: &Pubkey, derived: Option<Pubkey>) -> (r:
        Result<u64, BlogError>)
        requires
            old(self).wf(),
        ensures
            final(self).wf(),
            final(self).program() == old(self).program(),
            match delete_result(old(self)@, address@, caller@, key_opt(derived)) {
                Err(e) => r == Err::<u64, BlogError>(e) && final(self)@ == old(self)@,
                Ok((m, refund)) => r == Ok::<u64, BlogError>(refund as u64) && final(self)@ == m,
            },
    {
        let i = match self.find(address) {
            Some(i) => i,
            None => return Err(BlogError::NotFound),
        };
        let e = self.record_at(i);
        proof {
            lemma_map_of_index(self.slots@, i as int);
        }
        if !e.owner.same_as(caller) {
            return Err(BlogError::Unauthorized);
        }
        match derived {
            Some(d) => {
                if !d.same_as(address) {
                    return Err(BlogError::NotFound);
                }
            },
            None => return Err(BlogError::NotFound),
        }
        proof {
            lemma_map_of_remove(self.slots@, i as int);
        }
        let slot = self.slots.remove(i);
        proof {
            assert forall|j: int| 0 <= j < self.slots@.len() implies slot_ok(#[trigger] self.slots@[j]) by {
                assert(self.slots@[j] == old(self).slots@[if j < i { j } else { j + 1 }]);
            }
        }
        Ok(slot.deposit)
    }
}

/// The view of an optional key.
pub open spec fn key_opt(k: Option<Pubkey>) -> Option<Seq<u8>> {
    match k {
        Some(p) => Some(p@),
        None => None,
    }
}

} // verus!

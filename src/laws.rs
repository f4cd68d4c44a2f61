use vstd::prelude::*;
use crate::error::BlogError;
use crate::layout::{
    byte_len, decode, discriminator, lemma_decode_encode, required_capacity, RecordView,
    ANCHOR_DISCRIMINATOR_SIZE, DESCRIPTION_MAX_LEN, OWNER_SIZE, TITLE_MAX_LEN,
};
use crate::ledger::{create_result, delete_result, stored_slot, update_result, LedgerMap};

verus! {

/// Creating a record within the caps at a free address stores exactly that
/// record, owned by its creator, so that reading the address returns it.
pub proof fn lemma_create_then_read(
    m: LedgerMap,
    address: Seq<u8>,
    bump: u8,
    owner: Seq<u8>,
    title: Seq<char>,
    description: Seq<char>,
)
    requires
        !m.contains_key(address),
        owner.len() == OWNER_SIZE,
        byte_len(title) <= TITLE_MAX_LEN,
        byte_len(description) <= DESCRIPTION_MAX_LEN,
    ensures
        create_result(m, address, bump, owner, title, description) matches Ok(m2) && m2.contains_key(
            address,
        ) && m2[address].record == (RecordView { owner, title, description }),
{
}

/// Creating at an occupied address always fails with `AlreadyExists`, and
/// the store is then left as it was.
pub proof fn lemma_create_occupied(
    m: LedgerMap,
    address: Seq<u8>,
    bump: u8,
    owner: Seq<u8>,
    title: Seq<char>,
    description: Seq<char>,
)
    requires
        m.contains_key(address),
    ensures
        create_result(m, address, bump, owner, title, description) == Err::<LedgerMap, BlogError>(
            BlogError::AlreadyExists,
        ),
{
}

/// Updating or deleting a present record on behalf of anyone but its owner
/// always fails with `Unauthorized`.
pub proof fn lemma_stranger_unauthorized(
    m: LedgerMap,
    address: Seq<u8>,
    caller: Seq<u8>,
    derived: Option<Seq<u8>>,
    description: Seq<char>,
)
    requires
        m.contains_key(address),
        m[address].record.owner != caller,
    ensures
        update_result(m, address, caller, derived, description) == Err::<LedgerMap, BlogError>(
            BlogError::Unauthorized,
        ),
        delete_result(m, address, caller, derived) == Err::<(LedgerMap, nat), BlogError>(
            BlogError::Unauthorized,
        ),
{
}

/// After an update, the record holds the new description, keeps its owner
/// and title, and its slot occupies exactly the capacity the new record needs.
pub proof fn lemma_update_then_read(
    m: LedgerMap,
    address: Seq<u8>,
    caller: Seq<u8>,
    derived: Option<Seq<u8>>,
    description: Seq<char>,
)
    requires
        update_result(m, address, caller, derived, description) is Ok,
        m[address].record.owner.len() == OWNER_SIZE,
        byte_len(m[address].record.title) <= TITLE_MAX_LEN,
        discriminator().len() == ANCHOR_DISCRIMINATOR_SIZE,
    ensures
        update_result(m, address, caller, derived, description) matches Ok(m2) && m2.contains_key(
            address,
        ) && m2[address].record.description == description && m2[address].record.title
            == m[address].record.title && m2[address].record.owner == m[address].record.owner
            && m2[address].data.len() == required_capacity(m2[address].record)
            && m2[address].deposit == required_capacity(m2[address].record),
{
    let r = RecordView { description, ..m[address].record };
    lemma_decode_encode(r);
}

/// Deleting a record and creating one again with the same owner at the same
/// address succeeds, and the new slot holds exactly the new record's bytes:
/// nothing of the deleted record can be read through it.
pub proof fn lemma_delete_then_create(
    m: LedgerMap,
    address: Seq<u8>,
    owner: Seq<u8>,
    derived: Option<Seq<u8>>,
    bump: u8,
    title: Seq<char>,
    description: Seq<char>,
)
    requires
        m.contains_key(address),
        m[address].record.owner == owner,
        derived == Some(address),
        owner.len() == OWNER_SIZE,
        byte_len(title) <= TITLE_MAX_LEN,
        byte_len(description) <= DESCRIPTION_MAX_LEN,
        discriminator().len() == ANCHOR_DISCRIMINATOR_SIZE,
    ensures
        delete_result(m, address, owner, derived) matches Ok((m1, _)) && create_result(
            m1,
            address,
            bump,
            owner,
            title,
            description,
        ) matches Ok(m2) && m2[address] == stored_slot(RecordView { owner, title, description }, bump)
            && m2[address].data.len() == required_capacity(RecordView { owner, title, description })
            && decode(m2[address].data) == Some(RecordView { owner, title, description }),
{
    lemma_decode_encode(RecordView { owner, title, description });
}

} // verus!

use vstd::prelude::*;
use vstd::utf8::encode_utf8;
use crate::address::{blog_seeds, find_blog_address, program_address_of};
use crate::error::BlogError;
use crate::key::Pubkey;
use crate::layout::{byte_len, text_len, TITLE_MAX_LEN};
use crate::ledger::{create_result, delete_result, key_opt, update_result, Ledger};

pub mod address;
pub mod error;
pub mod key;
pub mod laws;
pub mod layout;
pub mod ledger;

verus! {

/// The signer that creates a blog entry.
#[derive(Clone, Copy, Debug)]
pub struct CreateBlog {
    pub owner: Pubkey,
}

/// The slot to update and the signer asking for it.
#[derive(Clone, Copy, Debug)]
pub struct UpdateBlog {
    pub blog_entry: Pubkey,
    pub owner: Pubkey,
}

/// The slot to delete and the signer asking for it.
#[derive(Clone, Copy, Debug)]
pub struct DeleteBlog {
    pub blog_entry: Pubkey,
    pub owner: Pubkey,
}

/// The slot address that `owner` and `title` derive under `program`, if any.
pub open spec fn derived_address(owner: Seq<u8>, title: Seq<char>, program: Seq<u8>) -> Option<Seq<u8>> {
    match program_address_of(blog_seeds(owner, encode_utf8(title)), program) {
        Some((a, _)) => Some(a),
        None => None,
    }
}

fn derive_address(owner: &Pubkey, title: &String, program_id: &Pubkey) -> (r: Option<Pubkey>)
    ensures
        key_opt(r) == derived_address(owner@, title@, program_id@),
{
    match find_blog_address(owner, title.as_str(), program_id) {
        Some((a, _)) => Some(a),
        None => None,
    }
}

/// Creates a blog entry owned by the signer, at the address derived from
/// the signer's key and the title, and returns that address.
pub fn create_blog(ledger: &mut Ledger, ctx: &CreateBlog, title: String, description: String) -> (r:
    Result<Pubkey, BlogError>)
    requires
        old(ledger).wf(),
    ensures
        final(ledger).wf(),
        final(ledger).program() == old(ledger).program(),
        byte_len(title@) > TITLE_MAX_LEN ==> r == Err::<Pubkey, BlogError>(BlogError::ValidationError)
            && final(ledger)@ == old(ledger)@,
        byte_len(title@) <= TITLE_MAX_LEN ==> match program_address_of(
            blog_seeds(ctx.owner@, encode_utf8(title@)),
            old(ledger).program(),
        ) {
            None => r == Err::<Pubkey, BlogError>(BlogError::InvalidSeeds) && final(ledger)@ == old(
                ledger,
            )@,
            Some((a, bump)) => match create_result(
                old(ledger)@,
                a,
                bump,
                ctx.owner@,
                title@,
                description@,
            ) {
                Err(e) => r == Err::<Pubkey, BlogError>(e) && final(ledger)@ == old(ledger)@,
                Ok(m) => (r matches Ok(k) && k@ == a) && final(ledger)@ == m,
            },
        },
{
    if text_len(&title) > TITLE_MAX_LEN {
        return Err(BlogError::ValidationError);
    }
    let program_id = ledger.program_id();
    match find_blog_address(&ctx.owner, title.as_str(), &program_id) {
        None => Err(BlogError::InvalidSeeds),
        Some((address, bump)) => match ledger.create_at(address, bump, ctx.owner, title, description) {
            Ok(()) => Ok(address),
            Err(e) => Err(e),
        },
    }
}

/// Replaces the description of the entry at `ctx.blog_entry`, which must be
/// present, owned by the signer, and derived from the signer's key and `title`.
pub fn update_blog(ledger: &mut Ledger, ctx: &UpdateBlog, title: String, new_description: String) -> (r:
    Result<(), BlogError>)
    requires
        old(ledger).wf(),
    ensures
        final(ledger).wf(),
        final(ledger).program() == old(ledger).program(),
        match update_result(
            old(ledger)@,
            ctx.blog_entry@,
            ctx.owner@,
            derived_address(ctx.owner@, title@, old(ledger).program()),
            new_description@,
        ) {
            Err(e) => r == Err::<(), BlogError>(e) && final(ledger)@ == old(ledger)@,
            Ok(m) => r is Ok && final(ledger)@ == m,
        },
{
    let program_id = ledger.program_id();
    let derived = derive_address(&ctx.owner, &title, &program_id);
    ledger.update_at(&ctx.blog_entry, &ctx.owner, derived, new_description)
}

/// Deletes the entry at `ctx.blog_entry`, which must be present, owned by the
/// signer, and derived from the signer's key and `title`; returns the deposit
/// handed back to the owner.
pub fn delete_blog(ledger: &mut Ledger, ctx: &DeleteBlog, title: String) -> (r: Result<u64, BlogError>)
    requires
        old(ledger).wf(),
    ensures
        final(ledger).wf(),
        final(ledger).program() == old(ledger).program(),
        match delete_result(
            old(ledger)@,
            ctx.blog_entry@,
            ctx.owner@,
            derived_address(ctx.owner@, title@, old(ledger).program()),
        ) {
            Err(e) => r == Err::<u64, BlogError>(e) && final(ledger)@ == old(ledger)@,
            Ok((m, refund)) => r == Ok::<u64, BlogError>(refund as u64) && final(ledger)@ == m,
        },
{
    let program_id = ledger.program_id();
    let derived = derive_address(&ctx.owner, &title, &program_id);
    ledger.delete_at(&ctx.blog_entry, &ctx.owner, derived)
}

} // verus!

use vstd::prelude::*;
use vstd::bytes::*;
use vstd::utf8::*;
use vstd::string::StringSliceAdditionalSpecFns;
use crate::address::{sha256, sha256_of};
use crate::error::BlogError;
use crate::key::Pubkey;

verus! {

broadcast use {encode_utf8_valid_utf8, encode_utf8_decode_utf8};

/// Bytes of the type tag that opens every stored record.
pub const ANCHOR_DISCRIMINATOR_SIZE: usize = 8;

/// Bytes of the owner identity in a stored record.
pub const OWNER_SIZE: usize = 32;

/// Bytes of the length prefix in front of each text field.
pub const LEN_PREFIX_SIZE: usize = 4;

/// Longest title, in bytes.
pub const TITLE_MAX_LEN: usize = 100;

/// Longest description, in bytes.
pub const DESCRIPTION_MAX_LEN: usize = 500;

/// One blog entry: its owner and its two text fields.
#[derive(Clone, Debug)]
pub struct BlogEntryState {
    pub owner: Pubkey,
    pub title: String,
    pub description: String,
}

/// What a blog entry holds, as mathematical values.
pub struct RecordView {
    pub owner: Seq<u8>,
    pub title: Seq<char>,
    pub description: Seq<char>,
}

impl View for BlogEntryState {
    type V = RecordView;

    open spec fn view(&self) -> RecordView {
        RecordView { owner: self.owner@, title: self.title@, description: self.description@ }
    }
}

/// Length of a text in bytes, once UTF-8 encoded.
pub open spec fn byte_len(s: Seq<char>) -> nat {
    encode_utf8(s).len()
}

/// A record that may be stored: a 32-byte owner and text fields within their caps.
pub open spec fn valid_record(r: RecordView) -> bool {
    &&& r.owner.len() == OWNER_SIZE
    &&& byte_len(r.title) <= TITLE_MAX_LEN
    &&& byte_len(r.description) <= DESCRIPTION_MAX_LEN
}

/// The text whose digest gives the record's type tag.
pub open spec fn discriminator_preimage() -> Seq<u8> {
    "account:BlogEntryState".spec_bytes()
}

/// The type tag: the first eight bytes of the digest of the preimage.
pub open spec fn discriminator() -> Seq<u8> {
    sha256_of(discriminator_preimage()).take(ANCHOR_DISCRIMINATOR_SIZE as int)
}

/// A text field on storage: its byte length, little-endian, then its bytes.
pub open spec fn text_field(s: Seq<char>) -> Seq<u8> {
    spec_u32_to_le_bytes(byte_len(s) as u32) + encode_utf8(s)
}

/// The stored bytes of a record.
pub open spec fn encode(r: RecordView) -> Seq<u8> {
    discriminator() + r.owner + text_field(r.title) + text_field(r.description)
}

/// The storage a record occupies.
pub open spec fn required_capacity(r: RecordView) -> nat {
    (ANCHOR_DISCRIMINATOR_SIZE + OWNER_SIZE + LEN_PREFIX_SIZE + byte_len(r.title) + LEN_PREFIX_SIZE
        + byte_len(r.description)) as nat
}

/// Reads a length-prefixed UTF-8 text at `at`: the text and the offset after it.
pub open spec fn read_text(b: Seq<u8>, at: int) -> Option<(Seq<char>, int)> {
    if at + LEN_PREFIX_SIZE > b.len() {
        None
    } else {
        let n = spec_u32_from_le_bytes(b.subrange(at, at + 4)) as int;
        let end = at + 4 + n;
        if end > b.len() {
            None
        } else if !valid_utf8(b.subrange(at + 4, end)) {
            None
        } else {
            Some((decode_utf8(b.subrange(at + 4, end)), end))
        }
    }
}

/// The record that stored bytes hold, or `None` where the type tag differs or
/// a field runs past the end. Bytes after the last field are not read.
pub open spec fn decode(b: Seq<u8>) -> Option<RecordView> {
    if b.len() < ANCHOR_DISCRIMINATOR_SIZE + OWNER_SIZE || b.take(8) != discriminator() {
        None
    } else {
        match read_text(b, 40) {
            None => None,
            Some((t, next)) => match read_text(b, next) {
                None => None,
                Some((d, _)) => Some(
                    RecordView { owner: b.subrange(8, 40), title: t, description: d },
                ),
            },
        }
    }
}

/// Reading the bytes of a valid record gives back that record.
pub proof fn lemma_decode_encode(r: RecordView)
    requires
        valid_record(r),
        discriminator().len() == ANCHOR_DISCRIMINATOR_SIZE,
    ensures
        decode(encode(r)) == Some(r),
        encode(r).len() == required_capacity(r),
{
    lemma_auto_spec_u32_to_from_le_bytes();
    let b = encode(r);
    let tb = encode_utf8(r.title);
    let db = encode_utf8(r.description);
    let tl = tb.len() as int;
    let dl = db.len() as int;
    assert(spec_u32_to_le_bytes(tl as u32).len() == 4);
    assert(spec_u32_to_le_bytes(dl as u32).len() == 4);
    assert(b.take(8) =~= discriminator());
    assert(b.subrange(8, 40) =~= r.owner);
    assert(b.subrange(40, 44) =~= spec_u32_to_le_bytes(tl as u32));
    assert(b.subrange(44, 44 + tl) =~= tb);
    assert(b.subrange(44 + tl, 48 + tl) =~= spec_u32_to_le_bytes(dl as u32));
    assert(b.subrange(48 + tl, 48 + tl + dl) =~= db);
    assert(read_text(b, 40) == Some((r.title, 44 + tl)));
    assert(read_text(b, 44 + tl) == Some((r.description, 48 + tl + dl)));
}

/// Relies on String::from_utf8: a string exactly when the bytes are UTF-8,
/// whose encoding is those bytes.
#[verifier::external_body]
fn string_from_utf8(v: Vec<u8>) -> (r: Option<String>)
    ensures
        r is Some <==> valid_utf8(v@),
        r matches Some(s) ==> encode_utf8(s@) == v@,
{
    String::from_utf8(v).ok()
}

/// The record type tag, computed from its preimage.
pub fn account_discriminator() -> (r: [u8; 8])
    ensures
        r@ == discriminator(),
        discriminator().len() == ANCHOR_DISCRIMINATOR_SIZE,
{
    let h = sha256("account:BlogEntryState".as_bytes());
    let r: [u8; 8] = [h[0], h[1], h[2], h[3], h[4], h[5], h[6], h[7]];
    assert(r@ =~= h@.take(8));
    r
}

/// Length of a text in bytes.
pub fn text_len(s: &String) -> (r: usize)
    ensures
        r == byte_len(s@),
{
    s.as_str().as_bytes().len()
}

fn push_text(out: &mut Vec<u8>, s: &String)
    requires
        byte_len(s@) <= u32::MAX,
    ensures
        final(out)@ == old(out)@ + text_field(s@),
{
    let b = s.as_str().as_bytes();
    let mut len = u32_to_le_bytes(b.len() as u32);
    out.append(&mut len);
    let mut bytes = vstd::slice::slice_to_vec(b);
    out.append(&mut bytes);
    assert(final(out)@ =~= old(out)@ + text_field(s@));
}

fn read_text_at(b: &[u8], at: usize) -> (r: Option<(String, usize)>)
    requires
        at <= b@.len(),
    ensures
        match read_text(b@, at as int) {
            None => r is None,
            Some((t, next)) => r matches Some((s, n)) && s@ == t && n == next,
        },
{
    if b.len() - at < LEN_PREFIX_SIZE {
        return None;
    }
    let n = u32_from_le_bytes(vstd::slice::slice_subrange(b, at, at + 4)) as usize;
    if b.len() - at - 4 < n {
        return None;
    }
    let end = at + 4 + n;
    let bytes = vstd::slice::slice_to_vec(vstd::slice::slice_subrange(b, at + 4, end));
    match string_from_utf8(bytes) {
        None => None,
        Some(s) => Some((s, end)),
    }
}

impl BlogEntryState {
    /// The bytes that store this record.
    pub fn serialize(&self) -> (r: Vec<u8>)
        requires
            valid_record(self@),
        ensures
            r@ == encode(self@),
            r@.len() == required_capacity(self@),
            decode(r@) == Some(self@),
    {
        let d = account_discriminator();
        let mut out: Vec<u8> = vstd::slice::slice_to_vec(vstd::array::array_as_slice(&d));
        let mut owner = self.owner.to_vec();
        out.append(&mut owner);
        push_text(&mut out, &self.title);
        push_text(&mut out, &self.description);
        proof {
            lemma_decode_encode(self@);
        }
        out
    }

    /// The record that stored bytes hold; `CorruptRecord` exactly when they
    /// hold none.
    pub fn try_deserialize(data: &[u8]) -> (r: Result<BlogEntryState, BlogError>)
        ensures
            match decode(data@) {
                None => r == Err::<BlogEntryState, BlogError>(BlogError::CorruptRecord),
                Some(v) => r matches Ok(e) && e@ == v,
            },
    {
        if data.len() < ANCHOR_DISCRIMINATOR_SIZE + OWNER_SIZE {
            return Err(BlogError::CorruptRecord);
        }
        let d = account_discriminator();
        let mut i: usize = 0;
        while i < ANCHOR_DISCRIMINATOR_SIZE
            invariant
                i <= 8,
                data@.len() >= 40,
                d@ == discriminator(),
                d@.len() == 8,
                forall|j: int| 0 <= j < i ==> data@[j] == d@[j],
            decreases 8 - i,
        {
            if data[i] != d[i] {
                assert(data@.take(8)[i as int] != discriminator()[i as int]);
                return Err(BlogError::CorruptRecord);
            }
            i = i + 1;
        }
        assert(data@.take(8) =~= discriminator());
        let mut owner: [u8; 32] = [0u8; 32];
        let mut k: usize = 0;
        while k < OWNER_SIZE
            invariant
                k <= 32,
                data@.len() >= 40,
                forall|j: int| 0 <= j < k ==> owner@[j] == data@[8 + j],
            decreases 32 - k,
        {
            owner[k] = data[8 + k];
            k = k + 1;
        }
        assert(owner@ =~= data@.subrange(8, 40));
        match read_text_at(data, 40) {
            None => Err(BlogError::CorruptRecord),
            Some((title, next)) => match read_text_at(data, next) {
                None => Err(BlogError::CorruptRecord),
                Some((description, _)) => Ok(
                    BlogEntryState { owner: Pubkey { bytes: owner }, title, description },
                ),
            },
        }
    }
}

} // verus!

//! Twelve-byte identifiers, as a storage backend issues them, and their
//! text form: URL-safe base64 without padding.

use crate::id::{decodable_len, encoded_len, IdError};
use vstd::prelude::*;
use vstd::string::StrSliceExecFns;

verus! {

/// The number of bytes of an object identifier.
pub const OBJECT_ID_LEN: usize = 12;

/// A twelve-byte identifier.
#[derive(Debug, Clone, Copy, PartialEq, Eq)]
pub struct ObjectId {
    bytes: [u8; 12],
}

impl View for ObjectId {
    type V = Seq<u8>;

    closed spec fn view(&self) -> Seq<u8> {
        self.bytes@
    }
}

impl ObjectId {
    /// The identifier with these bytes.
    pub fn with_bytes(bytes: [u8; 12]) -> (id: Self)
        ensures
            id@ == bytes@,
    {
        ObjectId { bytes }
    }

    /// The bytes of the identifier.
    pub fn bytes(&self) -> (bytes: [u8; 12])
        ensures
            bytes@ == self@,
    {
        self.bytes
    }
}

/// The text that `data_encoding::BASE64URL_NOPAD.encode` returns for `bytes`.
pub uninterp spec fn base64url_nopad_text(bytes: Seq<u8>) -> Seq<char>;

/// The bytes that `data_encoding::BASE64URL_NOPAD.decode` returns for the
/// bytes of `text`, and `None` where it returns an error.
pub uninterp spec fn base64url_nopad_bytes(text: Seq<char>) -> Option<Seq<u8>>;

#[verifier::external_type_specification]
#[verifier::external_body]
pub struct ExDataEncodingDecodeError(data_encoding::DecodeError);

/// `data_encoding::BASE64URL_NOPAD.encode`. Trusted: the result is the
/// crate's encoding of `bytes`, it has the length of unpadded base64, and the
/// crate's decoder turns it back into `bytes`, which the crate documents of
/// all its encodings. The input is kept within the length up to which the
/// crate documents that it does not panic.
#[verifier::external_body]
fn base64url_encode(bytes: &[u8]) -> (text: String)
    requires
        bytes@.len() <= usize::MAX / 512,
    ensures
        text@ == base64url_nopad_text(bytes@),
        text@.len() == encoded_len(bytes@.len()),
        base64url_nopad_bytes(text@) == Some(bytes@),
{
    data_encoding::BASE64URL_NOPAD.encode(bytes)
}

/// `data_encoding::BASE64URL_NOPAD.decode` on the bytes of `text`. Trusted:
/// it returns the crate's decoding of `text`, and an error exactly where
/// there is none.
#[verifier::external_body]
fn base64url_decode(text: &str) -> (r: Result<Vec<u8>, data_encoding::DecodeError>)
    requires
        decodable_len(text@),
    ensures
        match r {
            Ok(bytes) => base64url_nopad_bytes(text@) == Some(bytes@),
            Err(_) => base64url_nopad_bytes(text@) is None,
        },
{
    data_encoding::BASE64URL_NOPAD.decode(text.as_bytes())
}

/// The bytes of the object identifier that a text stands for: its decoded
/// bytes, where there are exactly twelve of them.
pub open spec fn object_id_bytes(text: Seq<char>) -> Result<Seq<u8>, IdError> {
    if !decodable_len(text) {
        Err(IdError::Malformed)
    } else {
        match base64url_nopad_bytes(text) {
            None => Err(IdError::Malformed),
            Some(bytes) => if bytes.len() != 12 {
                Err(IdError::WrongLength(bytes.len() as usize))
            } else {
                Ok(bytes)
            },
        }
    }
}

/// A text that decodes to a byte string of another length than twelve is
/// refused with that length: nothing is cut off or filled up.
pub proof fn lemma_wrong_length_is_refused(text: Seq<char>, bytes: Seq<u8>)
    requires
        decodable_len(text),
        base64url_nopad_bytes(text) == Some(bytes),
        bytes.len() != 12,
    ensures
        object_id_bytes(text) == Err::<Seq<u8>, IdError>(
            IdError::WrongLength(bytes.len() as usize),
        ),
{
}

/// A text that decodes to twelve bytes stands for the identifier of those
/// bytes.
pub proof fn lemma_twelve_bytes_are_accepted(text: Seq<char>, bytes: Seq<u8>)
    requires
        decodable_len(text),
        base64url_nopad_bytes(text) == Some(bytes),
        bytes.len() == 12,
    ensures
        object_id_bytes(text) == Ok::<Seq<u8>, IdError>(bytes),
{
}

/// Decodes a string into an object identifier. A text that is no base64 is
/// `Malformed`; one that decodes to another number of bytes than twelve has
/// the `WrongLength`.
pub fn id_from_string(src: &str) -> (r: Result<ObjectId, IdError>)
    ensures
        match r {
            Ok(id) => object_id_bytes(src@) == Ok::<Seq<u8>, IdError>(id@),
            Err(e) => object_id_bytes(src@) == Err::<Seq<u8>, IdError>(e),
        },
{
    if src.unicode_len() > usize::MAX / 32 {
        return Err(IdError::Malformed);
    }
    match base64url_decode(src) {
        Err(_) => Err(IdError::Malformed),
        Ok(dyn_bytes) => {
            if dyn_bytes.len() != 12 {
                return Err(IdError::WrongLength(dyn_bytes.len()));
            }
            let mut bytes = [0u8; 12];
            let mut i: usize = 0;
            while i < 12
                invariant
                    i <= 12,
                    dyn_bytes@.len() == 12,
                    forall|j: int| 0 <= j < i ==> bytes@[j] == dyn_bytes@[j],
                decreases 12 - i,
            {
                bytes[i] = dyn_bytes[i];
                i = i + 1;
            }
            assert(bytes@ =~= dyn_bytes@);
            Ok(ObjectId::with_bytes(bytes))
        },
    }
}

/// Converts an object identifier into a string: the base64 text of its
/// twelve bytes. Decoding that text gives the identifier back.
pub fn id_to_string(id: ObjectId) -> (text: String)
    ensures
        text@ == base64url_nopad_text(id@),
        object_id_bytes(text@) == Ok::<Seq<u8>, IdError>(id@),
{
    let bytes = id.bytes();
    base64url_encode(bytes.as_slice())
}

} // verus!

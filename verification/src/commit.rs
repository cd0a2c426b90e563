//! Identifiers of commits.
//!
//! An identifier is read from its hexadecimal form by `git2::Oid::from_str`.
//! Verus does not look into that crate: this module names what the call makes
//! of a text, and believes that the call returns it.

use vstd::prelude::*;

use crate::error::Error;

verus! {

/// The bytes of the object id that a text in hexadecimal form stands for, or
/// nothing for a text that stands for none.
pub uninterp spec fn parsed_object_id(hex: Seq<char>) -> Option<Seq<u8>>;

/// Whether a character is a hexadecimal digit, in upper or lower case.
pub open spec fn is_hex_digit(c: char) -> bool {
    ('0' <= c && c <= '9') || ('a' <= c && c <= 'f') || ('A' <= c && c <= 'F')
}

/// Whether a text is the hexadecimal form of an object id, whole or only its
/// beginning: one to forty characters, each a hexadecimal digit.
pub open spec fn is_object_id_text(hex: Seq<char>) -> bool {
    &&& 0 < hex.len() <= 40
    &&& forall|i: int| 0 <= i < hex.len() ==> is_hex_digit(#[trigger] hex[i])
}

/// `git2::Oid::from_str` and `Oid::as_bytes`: the twenty bytes of the object
/// id that the text stands for, or the text of the error for a text that
/// stands for none. A text stands for an object id exactly if it is not
/// empty, not longer than forty characters, and made of hexadecimal digits.
#[verifier::external_body]
fn object_id_from_str(hex: &str) -> (res: Result<Vec<u8>, String>)
    ensures
        res is Ok <==> is_object_id_text(hex@),
        match res {
            Ok(bytes) => parsed_object_id(hex@) == Some(bytes@) && bytes@.len() == 20,
            Err(_) => parsed_object_id(hex@) is None,
        },
{
    match git2::Oid::from_str(hex) {
        Ok(oid) => Ok(oid.as_bytes().to_vec()),
        Err(error) => Err(error.to_string()),
    }
}

/// The identifier of a commit: the twenty bytes of its object id.
#[derive(Debug)]
pub struct CommitId {
    bytes: Vec<u8>,
}

impl View for CommitId {
    type V = Seq<u8>;

    closed spec fn view(&self) -> Seq<u8> {
        self.bytes@
    }
}

impl CommitId {
    #[verifier::type_invariant]
    spec fn well_formed(&self) -> bool {
        self.bytes@.len() == 20
    }

    /// The identifier with the bytes given, if they are twenty.
    pub fn from_bytes(bytes: Vec<u8>) -> (res: Option<CommitId>)
        ensures
            match res {
                Some(id) => bytes@.len() == 20 && id@ == bytes@,
                None => bytes@.len() != 20,
            },
    {
        if bytes.len() == 20 {
            Some(CommitId { bytes })
        } else {
            None
        }
    }

    /// The twenty bytes of the identifier.
    pub fn as_bytes(&self) -> (res: &Vec<u8>)
        ensures
            res@ == self@,
            res@.len() == 20,
    {
        proof {
            use_type_invariant(self);
        }
        &self.bytes
    }

    /// Read an identifier from its hexadecimal form: one to forty
    /// hexadecimal digits. Any other text gives a git error.
    pub fn parse(hex: &str) -> (res: Result<CommitId, Error>)
        ensures
            res is Ok <==> is_object_id_text(hex@),
            match res {
                Ok(id) => parsed_object_id(hex@) == Some(id@) && id@.len() == 20,
                Err(error) => parsed_object_id(hex@) is None && error is GitError,
            },
    {
        match object_id_from_str(hex) {
            Ok(bytes) => Ok(CommitId { bytes }),
            Err(text) => Err(Error::GitError(text)),
        }
    }

    /// Whether two identifiers are the same.
    pub fn same(&self, other: &CommitId) -> (res: bool)
        ensures
            res == (self@ == other@),
    {
        if self.bytes.len() != other.bytes.len() {
            return false;
        }
        let len = self.bytes.len();
        for index in 0..len
            invariant
                len == self.bytes@.len(),
                len == other.bytes@.len(),
                forall|i: int| 0 <= i < index ==> self.bytes@[i] == other.bytes@[i],
        {
            if self.bytes[index] != other.bytes[index] {
                return false;
            }
        }
        proof {
            assert(self.bytes@ =~= other.bytes@);
        }
        true
    }
}

impl Clone for CommitId {
    fn clone(&self) -> (res: CommitId)
        ensures
            res@ == self@,
    {
        proof {
            use_type_invariant(self);
        }
        CommitId { bytes: self.bytes.clone() }
    }
}

} // verus!

//! NUL-terminated strings.

use vstd::prelude::*;
use vstd::string::StringSliceAdditionalSpecFns;
use vstd::utf8::valid_utf8;

use crate::bytes::append;
use crate::error::Error;

verus! {

/// The error of [`core::str::from_utf8`], carried through unread.
#[verifier::external_type_specification]
#[verifier::external_body]
pub struct ExUtf8Error(core::str::Utf8Error);

/// [`core::str::from_utf8`] turns bytes into a string slice of those same bytes. It
/// succeeds exactly on valid UTF-8.
pub assume_specification<'a>[ core::str::from_utf8 ](v: &'a [u8]) -> (r: Result<
    &'a str,
    core::str::Utf8Error,
>)
    ensures
        r is Ok <==> valid_utf8(v@),
        r is Ok ==> r->Ok_0.spec_bytes() == v@,
;

/// An owned string without NUL bytes, stored with a terminating NUL.
pub struct CString {
    /// The bytes of the string, and the NUL that ends them.
    pub buf: Vec<u8>,
}

impl CString {
    /// The buffer ends in its only NUL byte.
    pub open spec fn inv(&self) -> bool {
        &&& self.buf@.len() > 0
        &&& self.buf@.last() == 0
        &&& !self.buf@.drop_last().contains(0)
    }

    /// Creates a string that holds the bytes of `s`. A NUL byte in `s` is an error.
    pub fn try_from_str(s: &str) -> (r: Result<CString, Error>)
        ensures
            r is Ok <==> !s.spec_bytes().contains(0),
            r is Ok ==> r->Ok_0.inv() && r->Ok_0.buf@ == s.spec_bytes().push(0),
            r is Err ==> r->Err_0 == Error::EINVAL,
    {
        let bytes = s.as_bytes();
        if nul_position(bytes).is_some() {
            return Err(Error::EINVAL);
        }
        let mut buf: Vec<u8> = Vec::new();
        append(&mut buf, bytes);
        buf.push(0);
        assert(buf@ =~= s.spec_bytes().push(0));
        assert(buf@.drop_last() =~= s.spec_bytes());
        Ok(CString { buf })
    }

    /// Returns the bytes of the string, without the terminating NUL.
    pub fn to_bytes(&self) -> (r: &[u8])
        requires
            self.inv(),
        ensures
            r@ == self.buf@.drop_last(),
    {
        self.buf.as_slice().split_at(self.buf.len() - 1).0
    }
}

/// Returns the index of the first NUL byte.
pub fn nul_position(bytes: &[u8]) -> (r: Option<usize>)
    ensures
        r is Some <==> bytes@.contains(0),
        r is Some ==> {
            &&& r->0 < bytes@.len()
            &&& bytes@[r->0 as int] == 0
            &&& !bytes@.take(r->0 as int).contains(0)
        },
{
    let mut i: usize = 0;
    while i < bytes.len()
        invariant
            i <= bytes@.len(),
            forall|j: int| 0 <= j < i ==> bytes@[j] != 0,
        decreases bytes@.len() - i,
    {
        if bytes[i] == 0 {
            return Some(i);
        }
        i = i + 1;
    }
    None
}

/// Turns the bytes of a message into a string: [`Error::EINVAL`] where they are not
/// valid UTF-8, [`Error::ENOMEM`] where they hold a NUL.
pub fn string_from_bytes(bytes: &[u8]) -> (r: Result<CString, Error>)
    ensures
        r is Ok <==> valid_utf8(bytes@) && !bytes@.contains(0),
        r is Ok ==> r->Ok_0.inv() && r->Ok_0.buf@ == bytes@.push(0),
        r is Err ==> r->Err_0 == (if valid_utf8(bytes@) {
            Error::ENOMEM
        } else {
            Error::EINVAL
        }),
{
    match core::str::from_utf8(bytes) {
        Err(_) => Err(Error::EINVAL),
        Ok(s) => match CString::try_from_str(s) {
            Err(_) => Err(Error::ENOMEM),
            Ok(c) => Ok(c),
        },
    }
}

} // verus!

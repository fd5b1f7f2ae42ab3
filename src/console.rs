//! The block pointer of the console service.
use crate::decimal::{parse_u64, parse_u64_spec};
use crate::result::Error;
use vstd::prelude::*;

verus! {

/// A block pointer and the file that keeps it.
#[derive(Clone, Debug, PartialEq, Eq)]
pub struct Ptr {
    pub value: u64,
    pub path: String,
}

impl Ptr {
    /// The pointer kept at `path`, whose file holds `contents` if it could
    /// be read: its decimal value, or zero when there is no file.
    pub fn new(path: String, contents: Option<String>) -> (r: Result<Ptr, Error>)
        ensures
            contents is None ==> (r matches Ok(p) && p.value == 0 && p.path == path),
            contents matches Some(c) ==> match parse_u64_spec(c@) {
                Some(v) => r matches Ok(p) && p.value == v && p.path == path,
                None => r == Err::<Ptr, Error>(Error::ParseInt),
            },
    {
        let value = match contents {
            Some(c) => match parse_u64(c.as_str()) {
                Some(v) => v,
                None => return Err(Error::ParseInt),
            },
            None => 0,
        };
        Ok(Ptr { value, path })
    }

    /// The pointer's value, to change in place.
    pub fn get_mut(&mut self) -> (r: &mut u64)
        ensures
            *r == old(self).value,
            final(self).value == *final(r),
            final(self).path == old(self).path,
    {
        &mut self.value
    }
}

} // verus!

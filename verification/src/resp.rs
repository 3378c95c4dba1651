//! Uniform response envelope of the plugin router's HTTP surface: a
//! numeric code (zero for success), a message, and an optional payload.

use vstd::prelude::*;
use vstd::string::*;

verus! {

pub struct Resp<T> {
    pub code: u16,
    pub msg: String,
    pub data: Option<T>,
}

impl Resp<String> {
    /// A failure envelope with the given code and message and no payload.
    pub fn error(code: u16, msg: &str) -> (r: Self)
        ensures
            r.code == code,
            r.msg@ == msg@,
            r.data is None,
    {
        Resp { code, msg: msg.to_owned(), data: None }
    }

    /// A failure envelope with the generic system-error code.
    pub fn syserr(msg: &str) -> (r: Self)
        ensures
            r.code == 1,
            r.msg@ == msg@,
            r.data is None,
    {
        Self::error(1, msg)
    }
}

impl<T> Resp<T> {
    /// A success envelope around the payload.
    pub fn success(data: T) -> (r: Self)
        ensures
            r.code == 0,
            r.msg@ == "success"@,
            match r.data {
                Some(d) => d == data,
                None => false,
            },
    {
        Resp { code: 0, msg: "success".to_owned(), data: Some(data) }
    }

    /// An envelope reports success exactly when its code is zero.
    pub fn is_ok(&self) -> (r: bool)
        ensures
            r == (self.code == 0),
    {
        self.code == 0
    }

    /// An envelope reports failure exactly when its code is not zero.
    pub fn is_err(&self) -> (r: bool)
        ensures
            r == (self.code != 0),
    {
        !self.is_ok()
    }
}

} // verus!

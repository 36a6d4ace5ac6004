//! The uniform response envelope returned to request callers: code 0 with
//! data on success, a nonzero code with a message on failure.

use vstd::prelude::*;

verus! {

/// A response envelope.
pub struct Resp<T> {
    /// 0 on success, nonzero on failure.
    pub code: u8,
    /// The failure message, absent on success.
    pub msg: Option<String>,
    /// The payload, absent on failure.
    pub data: Option<T>,
}

impl<T> Resp<T> {
    /// A successful envelope carrying `data`.
    pub fn success(data: T) -> (r: Self)
        ensures
            r.code == 0,
            r.msg is None,
            r.data == Some(data),
    {
        Resp { code: 0, msg: None, data: Some(data) }
    }

    /// A failure envelope carrying `code` and `msg`.
    pub fn error(code: u8, msg: String) -> (r: Self)
        ensures
            r.code == code,
            r.msg == Some(msg),
            r.data is None,
    {
        Resp { code, msg: Some(msg), data: None }
    }
}

} // verus!

use vstd::prelude::*;

verus! {

pub const BAD_REQUEST: u16 = 400;
pub const NOT_FOUND: u16 = 404;
pub const INTERNAL_SERVER_ERROR: u16 = 500;

/// An error answered to an HTTP request: its status code and its text.
pub struct WebError {
    pub code: u16,
    pub reason: String,
}

impl WebError {
    pub fn new(code: u16, reason: String) -> (e: WebError)
        ensures
            e.code == code,
            e.reason@ == reason@,
    {
        WebError { code, reason }
    }
}

/// A status code that HTTP accepts (three digits).
pub open spec fn is_status_code(c: u16) -> bool {
    100 <= c < 1000
}

/// The status for an RPC error of Telegram with the given code: the code cut to 16 bits
/// where that is a status code, 500 otherwise.
pub open spec fn rpc_status_spec(code: i32) -> u16 {
    if is_status_code(code as u16) {
        code as u16
    } else {
        INTERNAL_SERVER_ERROR
    }
}

/// The status for an RPC error of Telegram with the given code.
pub fn rpc_status(code: i32) -> (s: u16)
    ensures
        s == rpc_status_spec(code),
{
    let c = code as u16;
    if 100 <= c && c < 1000 {
        c
    } else {
        INTERNAL_SERVER_ERROR
    }
}

} // verus!

//! HTTP status codes.
use vstd::prelude::*;

verus! {

/// `http::StatusCode::from_u16` accepts exactly the codes from 100 to 999,
/// and `as_u16` hands the accepted code back.
#[verifier::external_body]
fn accepted_code(code: u16) -> (r: Option<u16>)
    ensures
        r == (if 100 <= code <= 999 {
            Some(code)
        } else {
            None
        }),
{
    ::http::StatusCode::from_u16(code).ok().map(|s| s.as_u16())
}

/// The status of the classifier as it is passed on: the code itself from 200
/// to 599, else 503.
pub open spec fn mirrored_status(code: u16) -> u16 {
    if 200 <= code <= 599 {
        code
    } else {
        503
    }
}

/// An HTTP status code: a number from 100 to 999.
#[derive(Clone, Copy, Debug, PartialEq, Eq)]
pub struct StatusCode {
    code: u16,
}

impl View for StatusCode {
    type V = u16;

    closed spec fn view(&self) -> u16 {
        self.code
    }
}

impl StatusCode {
    #[verifier::type_invariant]
    spec fn in_range(self) -> bool {
        100 <= self.code <= 999
    }

    /// The status with this code, if the code is one: from 100 to 999.
    pub fn from_u16(code: u16) -> (r: Option<StatusCode>)
        ensures
            r is Some <==> 100 <= code <= 999,
            r is Some ==> r->0@ == code,
    {
        match accepted_code(code) {
            Some(c) => Some(StatusCode { code: c }),
            None => None,
        }
    }

    /// The status with this code, or 503 where the code is none.
    pub fn from_u16_or_unavailable(code: u16) -> (r: StatusCode)
        ensures
            r@ == (if 100 <= code <= 999 {
                code
            } else {
                503
            }),
    {
        match accepted_code(code) {
            Some(c) => StatusCode { code: c },
            None => StatusCode { code: 503 },
        }
    }

    /// The status that passes on a code of the classifier: the code itself
    /// from 200 to 599, else 503.
    pub fn mirrored(code: u16) -> (r: StatusCode)
        ensures
            r@ == mirrored_status(code),
    {
        if 200 <= code && code <= 599 {
            StatusCode { code }
        } else {
            StatusCode { code: 503 }
        }
    }

    /// The code of the status.
    pub fn as_u16(&self) -> (r: u16)
        ensures
            r == self@,
            100 <= r <= 999,
    {
        proof {
            use_type_invariant(self);
        }
        self.code
    }

    /// The status is from 200 to 299.
    pub fn is_success(&self) -> (r: bool)
        ensures
            r == (200 <= self@ <= 299),
    {
        200 <= self.code && self.code <= 299
    }

    /// 200.
    pub fn ok() -> (r: StatusCode)
        ensures
            r@ == 200,
    {
        StatusCode { code: 200 }
    }

    /// 400.
    pub fn bad_request() -> (r: StatusCode)
        ensures
            r@ == 400,
    {
        StatusCode { code: 400 }
    }

    /// 402.
    pub fn payment_required() -> (r: StatusCode)
        ensures
            r@ == 402,
    {
        StatusCode { code: 402 }
    }

    /// 404.
    pub fn not_found() -> (r: StatusCode)
        ensures
            r@ == 404,
    {
        StatusCode { code: 404 }
    }

    /// 500.
    pub fn internal_server_error() -> (r: StatusCode)
        ensures
            r@ == 500,
    {
        StatusCode { code: 500 }
    }

    /// 503.
    pub fn service_unavailable() -> (r: StatusCode)
        ensures
            r@ == 503,
    {
        StatusCode { code: 503 }
    }
}

} // verus!

use vstd::prelude::*;

verus! {

pub const ISSUER: &'static str = "iss";

pub const SUBJECT: &'static str = "sub";

pub const AUDIENCE: &'static str = "aud";

pub const EXPIRATION: &'static str = "exp";

pub const NOT_BEFORE: &'static str = "nbf";

pub const ISSUED_AT: &'static str = "iat";

pub const TOKEN_IDENTIFIER: &'static str = "jti";

} // verus!

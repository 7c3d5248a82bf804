use vstd::prelude::*;

use crate::claims::{reserved, ClaimEntry, Claims};
use crate::engine::{
    engine_new_builder, engine_parse, engine_set_audience, engine_set_custom,
    engine_set_expiration, engine_set_issued_at, engine_set_issuer, engine_set_not_before,
    engine_set_subject, engine_set_token_identifier, engine_sign, generate_keypair_bytes,
    is_reserved_name, iso8601_valid, keypair_public, kp_public,
};
use crate::errors::{ClaimError, MakerError, TokenError};
use crate::order::str_eq;
use crate::value::ClaimData;

verus! {

/// Whether one claim passes issuance validation: the reserved string claims
/// must carry strings, the reserved time claims must carry valid date
/// strings, and a custom claim always passes.
pub open spec fn claim_ok(k: Seq<char>, v: ClaimData) -> bool {
    if k == "iss"@ || k == "aud"@ || k == "sub"@ || k == "jti"@ {
        v is Str
    } else if k == "iat"@ || k == "nbf"@ || k == "exp"@ {
        v is Str && iso8601_valid(v->Str_0)
    } else {
        true
    }
}

/// Whether every claim of a set passes issuance validation.
pub open spec fn claims_ok(s: Seq<ClaimEntry>) -> bool {
    forall|i: int| 0 <= i < s.len() ==> claim_ok((#[trigger] s[i]).0, s[i].1)
}

/// The position of the first claim that fails issuance validation.
pub open spec fn first_bad_index(s: Seq<ClaimEntry>) -> int
    decreases s.len(),
{
    if s.len() == 0 {
        0
    } else if !claim_ok(s[0].0, s[0].1) {
        0
    } else {
        1 + first_bad_index(s.drop_first())
    }
}

/// The error issuance reports for a claim that fails validation: a named
/// shape error for a reserved claim that is not a string, and a claim error
/// for a time claim whose string is not a valid date.
pub open spec fn issue_error_ok(k: Seq<char>, v: ClaimData, e: TokenError) -> bool {
    if !(v is Str) {
        if k == "iss"@ {
            e matches TokenError::InvalidClaim(m) && m@ == "Invalid issuer claim"@
        } else if k == "aud"@ {
            e matches TokenError::InvalidClaim(m) && m@ == "Invalid audience claim"@
        } else if k == "sub"@ {
            e matches TokenError::InvalidClaim(m) && m@ == "Invalid subject claim"@
        } else if k == "jti"@ {
            e matches TokenError::InvalidClaim(m) && m@ == "Invalid token identifier claim"@
        } else if k == "iat"@ {
            e matches TokenError::InvalidClaim(m) && m@ == "Invalid issued at claim"@
        } else if k == "nbf"@ {
            e matches TokenError::InvalidClaim(m) && m@ == "Invalid not before claim"@
        } else {
            e matches TokenError::InvalidClaim(m) && m@ == "Invalid expiration claim"@
        }
    } else {
        e matches TokenError::ClaimError(ce) && ce is InvalidClaim
    }
}

/// Issuance-validity law: storing a claim that passes validation keeps a
/// fully valid set fully valid. A set built from an empty one by reserved
/// setters with syntactically valid values therefore passes issuance
/// validation entirely, and signing it fails only if the engine does.
pub proof fn lemma_valid_insert_keeps_ok(s: Seq<ClaimEntry>, k: Seq<char>, v: ClaimData)
    requires
        claims_ok(s),
        claim_ok(k, v),
    ensures
        claims_ok(crate::claims::sorted_insert(s, k, v)),
{
    crate::claims::lemma_insert_entries(s, k, v);
    let r = crate::claims::sorted_insert(s, k, v);
    assert forall|i: int| 0 <= i < r.len() implies claim_ok((#[trigger] r[i]).0, r[i].1) by {
        if r[i] != (k, v) {
            let m = choose|m: int| 0 <= m < s.len() && r[i] == s[m];
            assert(claim_ok(s[m].0, s[m].1));
        }
    }
}

proof fn lemma_first_bad(s: Seq<ClaimEntry>, i: int)
    requires
        0 <= i < s.len(),
        forall|j: int| 0 <= j < i ==> claim_ok((#[trigger] s[j]).0, s[j].1),
        !claim_ok(s[i].0, s[i].1),
    ensures
        first_bad_index(s) == i,
    decreases i,
{
    if i == 0 {
    } else {
        assert(claim_ok(s[0].0, s[0].1));
        assert forall|j: int| 0 <= j < i - 1 implies claim_ok(
            (#[trigger] s.drop_first()[j]).0,
            s.drop_first()[j].1,
        ) by {
            assert(s.drop_first()[j] == s[j + 1]);
        }
        assert(s.drop_first()[i - 1] == s[i]);
        lemma_first_bad(s.drop_first(), i - 1);
    }
}

/// A token authority: it owns an asymmetric signing keypair and turns claim
/// sets into signed token strings and presented token strings back into
/// verified claim sets. It never changes after construction.
#[derive(Debug)]
pub struct Maker {
    private_key: [u8; 64],
    public_key: [u8; 32],
    version: String,
    purpose: String,
}

impl Maker {
    /// The keypair bytes the authority signs with.
    pub closed spec fn spec_private_key(&self) -> Seq<u8> {
        self.private_key@
    }

    /// The verification-key bytes the authority hands to verifiers.
    pub closed spec fn spec_public_key(&self) -> Seq<u8> {
        self.public_key@
    }

    /// The format tags fixed at construction.
    pub closed spec fn spec_version(&self) -> Seq<char> {
        self.version@
    }

    pub closed spec fn spec_purpose(&self) -> Seq<char> {
        self.purpose@
    }

    /// The keypair halves belong together.
    pub open spec fn wf(&self) -> bool {
        kp_public(self.spec_private_key()) == Some(self.spec_public_key())
    }

    /// An authority over the given keypair bytes: accepted exactly when the
    /// bytes form a valid keypair, whose verifying key it then caches.
    pub fn new(private_key: &[u8; 64]) -> (r: Result<Maker, MakerError>)
        ensures
            r is Ok <==> kp_public(private_key@) is Some,
            r is Ok ==> {
                let m = r.unwrap();
                &&& m.wf()
                &&& m.spec_private_key() == private_key@
                &&& m.spec_public_key() == kp_public(private_key@).unwrap()
                &&& m.spec_version() == "v4"@
                &&& m.spec_purpose() == "public"@
            },
            r is Err ==> r.unwrap_err() is InvalidKey,
    {
        match keypair_public(private_key) {
            Ok(pk) => Ok(
                Maker {
                    private_key: *private_key,
                    public_key: pk,
                    version: crate::version::V4::NAME.to_owned(),
                    purpose: crate::purpose::Public::NAME.to_owned(),
                },
            ),
            Err(e) => Err(MakerError::InvalidKey(e)),
        }
    }

    /// A fresh random keypair: 64 private bytes and the 32 matching
    /// verifying-key bytes.
    pub fn new_keypair() -> (r: ([u8; 64], [u8; 32]))
        ensures
            kp_public(r.0@) == Some(r.1@),
    {
        generate_keypair_bytes()
    }

    /// The verifying key, for out-of-band distribution to verifiers.
    pub fn public_key_as_bytes(&self) -> (r: &[u8; 32])
        ensures
            r@ == self.spec_public_key(),
    {
        &self.public_key
    }

    /// Key round-trip law: an authority built over the private half of a
    /// generated keypair reports exactly the generated public half.
    pub proof fn lemma_key_round_trip(m: &Maker, priv_bytes: Seq<u8>, pub_bytes: Seq<u8>)
        requires
            kp_public(priv_bytes) == Some(pub_bytes),
            m.wf(),
            m.spec_private_key() == priv_bytes,
        ensures
            m.spec_public_key() == pub_bytes,
    {
    }

    /// Signs a claim set into a token string, which always carries the fixed
    /// version-and-purpose header. Claims are validated one by one in name
    /// order and the first invalid claim decides the error; when all pass,
    /// the engine signs the payload and only an engine failure is left.
    pub fn create_token(&self, claims: &Claims) -> (r: Result<String, TokenError>)
        requires
            claims.wf(),
        ensures
            r is Ok ==> claims_ok(claims@),
            r is Ok ==> r.unwrap()@.len() >= "v4.public."@.len() && r.unwrap()@.take(
                "v4.public."@.len() as int,
            ) == "v4.public."@,
            claims_ok(claims@) ==> r is Ok || r.unwrap_err() is TokenCreationFailed,
            !claims_ok(claims@) ==> r is Err && issue_error_ok(
                claims@[first_bad_index(claims@)].0,
                claims@[first_bad_index(claims@)].1,
                r.unwrap_err(),
            ),
    {
        let mut builder = engine_new_builder();
        let entries = claims.iter();
        let mut i: usize = 0;
        while i < entries.len()
            invariant
                entries@.len() == claims@.len(),
                forall|m: int|
                    0 <= m < claims@.len() ==> ((#[trigger] entries@[m]).0@, entries@[m].1@)
                        == claims@[m],
                0 <= i <= claims@.len(),
                forall|j: int| 0 <= j < i ==> claim_ok((#[trigger] claims@[j]).0, claims@[j].1),
            decreases entries@.len() - i,
        {
            let key: &str = entries[i].0.as_str();
            let value = &entries[i].1;
            proof {
                assert(((entries@[i as int]).0@, entries@[i as int].1@) == claims@[i as int]);
            }
            if str_eq(key, reserved::ISSUER) {
                match value.as_str() {
                    Some(s) => engine_set_issuer(&mut builder, s),
                    None => {
                        proof {
                            lemma_first_bad(claims@, i as int);
                        }
                        return Err(TokenError::InvalidClaim("Invalid issuer claim".to_owned()));
                    },
                }
            } else if str_eq(key, reserved::AUDIENCE) {
                match value.as_str() {
                    Some(s) => engine_set_audience(&mut builder, s),
                    None => {
                        proof {
                            lemma_first_bad(claims@, i as int);
                        }
                        return Err(TokenError::InvalidClaim("Invalid audience claim".to_owned()));
                    },
                }
            } else if str_eq(key, reserved::SUBJECT) {
                match value.as_str() {
                    Some(s) => engine_set_subject(&mut builder, s),
                    None => {
                        proof {
                            lemma_first_bad(claims@, i as int);
                        }
                        return Err(TokenError::InvalidClaim("Invalid subject claim".to_owned()));
                    },
                }
            } else if str_eq(key, reserved::TOKEN_IDENTIFIER) {
                match value.as_str() {
                    Some(s) => engine_set_token_identifier(&mut builder, s),
                    None => {
                        proof {
                            lemma_first_bad(claims@, i as int);
                        }
                        return Err(
                            TokenError::InvalidClaim("Invalid token identifier claim".to_owned()),
                        );
                    },
                }
            } else if str_eq(key, reserved::ISSUED_AT) {
                match value.as_str() {
                    Some(s) => match engine_set_issued_at(&mut builder, s) {
                        Ok(u) => u,
                        Err(e) => {
                            proof {
                                lemma_first_bad(claims@, i as int);
                            }
                            return Err(TokenError::ClaimError(ClaimError::InvalidClaim(e)));
                        },
                    },
                    None => {
                        proof {
                            lemma_first_bad(claims@, i as int);
                        }
                        return Err(TokenError::InvalidClaim("Invalid issued at claim".to_owned()));
                    },
                }
            } else if str_eq(key, reserved::NOT_BEFORE) {
                match value.as_str() {
                    Some(s) => match engine_set_not_before(&mut builder, s) {
                        Ok(u) => u,
                        Err(e) => {
                            proof {
                                lemma_first_bad(claims@, i as int);
                            }
                            return Err(TokenError::ClaimError(ClaimError::InvalidClaim(e)));
                        },
                    },
                    None => {
                        proof {
                            lemma_first_bad(claims@, i as int);
                        }
                        return Err(TokenError::InvalidClaim("Invalid not before claim".to_owned()));
                    },
                }
            } else if str_eq(key, reserved::EXPIRATION) {
                match value.as_str() {
                    Some(s) => match engine_set_expiration(&mut builder, s) {
                        Ok(u) => u,
                        Err(e) => {
                            proof {
                                lemma_first_bad(claims@, i as int);
                            }
                            return Err(TokenError::ClaimError(ClaimError::InvalidClaim(e)));
                        },
                    },
                    None => {
                        proof {
                            lemma_first_bad(claims@, i as int);
                        }
                        return Err(TokenError::InvalidClaim("Invalid expiration claim".to_owned()));
                    },
                }
            } else {
                match engine_set_custom(&mut builder, key, value) {
                    Ok(u) => u,
                    Err(e) => {
                        proof {
                            assert(!is_reserved_name(key@));
                            assert(false);
                        }
                        return Err(TokenError::InvalidClaim(e));
                    },
                }
            }
            i = i + 1;
        }
        match engine_sign(&mut builder, &self.private_key) {
            Ok(token) => Ok(token),
            Err(e) => Err(TokenError::TokenCreationFailed(e)),
        }
    }

    /// Verifies a presented token string. The engine checks the signature
    /// against the cached verifying key and the time-bound claims against the
    /// clock; an accepted payload becomes a well-formed claim set, a rejected
    /// one a verification failure carrying the engine's reason. What claim
    /// set a given payload yields is fixed by `Claims::from_payload`, which
    /// performs the conversion.
    pub fn verify_token(&self, token: &str) -> (r: Result<Claims, TokenError>)
        ensures
            r is Ok ==> r.unwrap().wf(),
            r is Err ==> r.unwrap_err() is TokenCreationFailed,
    {
        match engine_parse(token, &self.public_key) {
            Ok(payload) => Ok(Claims::from_payload(&payload)),
            Err(e) => Err(TokenError::TokenCreationFailed(e)),
        }
    }
}

} // verus!

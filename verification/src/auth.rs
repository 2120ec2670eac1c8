use vstd::prelude::*;

use crate::strutil::chars_of;
use crate::strutil::seq_starts_with;
use crate::strutil::spec_replace_all;
use crate::strutil::starts_with;
use crate::strutil::string_of;
use crate::strutil::string_replace;
use crate::strutil::vec_chars_eq;

verus! {

/// Guards the editing API: requests below `/api/` must carry exactly one
/// authorization header of the form `Token <token>` with the configured
/// token.
pub struct AuthMiddleware {}

/// What the middleware decides for one request.
#[derive(Debug, Clone, Copy, PartialEq, Eq, Structural)]
pub enum AuthDecision {
    /// The path is outside the guarded API: let the request through.
    PassThrough,
    /// The token matches: let the request through.
    Authorized,
    /// No authorization header was sent.
    NoHeader,
    /// The authorization header carries no value.
    EmptyHeader,
    /// More than one authorization header value was sent.
    MultipleHeaders,
    /// The header value does not start with the expected token scheme.
    InvalidTokenType,
    /// The presented token is not the configured one.
    InvalidToken,
}

/// The authorization rule: guarded paths need one header value whose scheme
/// prefix is stripped and whose remainder must equal the token.
pub open spec fn spec_auth_decision(
    path: Seq<char>,
    header: Option<Seq<Seq<char>>>,
    token: Seq<char>,
) -> AuthDecision {
    if !starts_with(path, "/api/"@) {
        AuthDecision::PassThrough
    } else {
        match header {
            None => AuthDecision::NoHeader,
            Some(values) => {
                if values.len() == 0 {
                    AuthDecision::EmptyHeader
                } else if values.len() > 1 {
                    AuthDecision::MultipleHeaders
                } else if !starts_with(values[0], "Token "@) {
                    AuthDecision::InvalidTokenType
                } else if spec_replace_all(values[0], "Token "@, Seq::empty()) != token {
                    AuthDecision::InvalidToken
                } else {
                    AuthDecision::Authorized
                }
            },
        }
    }
}

impl AuthMiddleware {
    /// Decides one request from its path, its authorization header values,
    /// and the configured token.
    pub fn decide(path: &String, header: Option<&Vec<String>>, token: &String) -> (r: AuthDecision)
        ensures
            r == spec_auth_decision(
                path@,
                match header {
                    Some(h) => Some(crate::post::strings_view(h@)),
                    None => None,
                },
                token@,
            ),
    {
        let pv = chars_of(path.as_str());
        let api = chars_of("/api/");
        if !seq_starts_with(&pv, &api) {
            return AuthDecision::PassThrough;
        }
        match header {
            None => AuthDecision::NoHeader,
            Some(values) => {
                if values.len() == 0 {
                    AuthDecision::EmptyHeader
                } else if values.len() > 1 {
                    AuthDecision::MultipleHeaders
                } else {
                    proof {
                        assert(crate::post::strings_view(values@)[0] == values@[0]@);
                    }
                    let value = &values[0];
                    let vv = chars_of(value.as_str());
                    let scheme = chars_of("Token ");
                    if !seq_starts_with(&vv, &scheme) {
                        return AuthDecision::InvalidTokenType;
                    }
                    proof {
                        reveal_strlit("");
                        assert(""@ =~= Seq::<char>::empty());
                    }
                    let stripped = string_replace(value.as_str(), "Token ", "");
                    let sv = chars_of(stripped.as_str());
                    let tv = chars_of(token.as_str());
                    if !vec_chars_eq(&sv, &tv) {
                        AuthDecision::InvalidToken
                    } else {
                        AuthDecision::Authorized
                    }
                }
            },
        }
    }
}

} // verus!

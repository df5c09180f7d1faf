//! Shared-secret bearer-token authentication of the gateway.
use vstd::prelude::*;

use crate::rpc;
use crate::rpc::{Code, Status};
use crate::text;

verus! {

/// The check of the bearer token of every call.
#[derive(Clone)]
pub struct AuthConfig {
    token: Option<String>,
}

/// Why a call is refused, from the expected token and its authorization header.
pub open spec fn auth_refusal(expected: Option<Seq<char>>, header: Option<Seq<u8>>) -> Option<
    Seq<char>,
> {
    match (expected, header) {
        (None, _) => None,
        (Some(_), None) => Some("missing authorization header"@),
        (Some(token), Some(bytes)) => if !rpc::visible(bytes) {
            Some("authorization header is not valid UTF-8"@)
        } else if !"Bearer "@.is_prefix_of(rpc::ascii_text(bytes)) {
            Some("authorization header must use the Bearer scheme"@)
        } else if rpc::ascii_text(bytes) != "Bearer "@ + token {
            Some("invalid bearer token"@)
        } else {
            None
        },
    }
}

impl AuthConfig {
    /// The expected token, where one is required.
    pub closed spec fn expected(self) -> Option<Seq<char>> {
        text::opt_view(self.token)
    }

    /// Require this token of every call.
    pub fn required(token: String) -> (r: AuthConfig)
        ensures
            r.expected() == Some(token@),
    {
        AuthConfig { token: Some(token) }
    }

    /// Accept every call.
    pub fn disabled() -> (r: AuthConfig)
        ensures
            r.expected() is None,
    {
        AuthConfig { token: None }
    }

    /// Whether every call is accepted.
    pub fn is_disabled(&self) -> (r: bool)
        ensures
            r == (self.expected() is None),
    {
        self.token.is_none()
    }

    /// Check the authorization header of a call.
    pub fn check(&self, authorization: Option<&[u8]>) -> (r: Result<(), Status>)
        ensures
            ({
                let refusal = auth_refusal(
                    self.expected(),
                    match authorization {
                        Some(h) => Some(h@),
                        None => None,
                    },
                );
                match r {
                    Ok(()) => refusal is None,
                    Err(s) => refusal is Some && s.is_plain(Code::Unauthenticated, refusal->0),
                }
            }),
    {
        let expected: &String = match &self.token {
            None => {
                return Ok(());
            },
            Some(token) => token,
        };
        let bytes: &[u8] = match authorization {
            None => {
                return Err(Status::new(Code::Unauthenticated, "missing authorization header"));
            },
            Some(bytes) => bytes,
        };
        let value: String = match rpc::metadata_text(bytes) {
            None => {
                return Err(
                    Status::new(Code::Unauthenticated, "authorization header is not valid UTF-8"),
                );
            },
            Some(value) => value,
        };
        if !text::starts_with(value.as_str(), "Bearer ") {
            return Err(
                Status::new(
                    Code::Unauthenticated,
                    "authorization header must use the Bearer scheme",
                ),
            );
        }
        proof {
            reveal_strlit("Bearer ");
        }
        let chars: Vec<char> = text::chars_of(value.as_str());
        let n: usize = chars.len();
        let provided: String = text::string_of(&chars, 7, n);
        proof {
            assert(value@ == "Bearer "@ + provided@) by {
                assert(value@.subrange(0, 7) == "Bearer "@);
                assert(value@ =~= value@.subrange(0, 7) + value@.subrange(7, n as int));
            }
            assert(("Bearer "@ + provided@).skip(7) == provided@);
            assert(("Bearer "@ + expected@).skip(7) == expected@);
        }
        if rpc::constant_time_eq(provided.as_str().as_bytes(), expected.as_str().as_bytes()) {
            proof {
                rpc::lemma_bytes_determine_text(provided@, expected@);
            }
            Ok(())
        } else {
            Err(Status::new(Code::Unauthenticated, "invalid bearer token"))
        }
    }
}

/// Where a token is required, a call passes exactly if its header is the bearer
/// scheme with that token, in visible ASCII.
pub proof fn law_only_the_token_passes(token: Seq<char>, header: Option<Seq<u8>>)
    ensures
        auth_refusal(Some(token), header) is None <==> (header matches Some(bytes) && rpc::visible(
            bytes,
        ) && rpc::ascii_text(bytes) == "Bearer "@ + token),
{
    reveal_strlit("Bearer ");
    assert(("Bearer "@ + token).subrange(0, 7) == "Bearer "@);
}

/// Without a token every call passes.
pub proof fn law_open_gateway_accepts_every_call(header: Option<Seq<u8>>)
    ensures
        auth_refusal(None, header) is None,
{
}

/// A call is told why it is refused: it has no header, one that is no text, one of
/// another scheme, or another token.
pub proof fn law_refused_call_is_told_why(token: Seq<char>, header: Seq<u8>, other: Seq<char>)
    ensures
        auth_refusal(Some(token), None) == Some("missing authorization header"@),
        !rpc::visible(header) ==> auth_refusal(Some(token), Some(header)) == Some(
            "authorization header is not valid UTF-8"@,
        ),
        rpc::visible(header) && !"Bearer "@.is_prefix_of(rpc::ascii_text(header)) ==> auth_refusal(
            Some(token),
            Some(header),
        ) == Some("authorization header must use the Bearer scheme"@),
        rpc::visible(header) && rpc::ascii_text(header) == "Bearer "@ + other && other != token
            ==> auth_refusal(Some(token), Some(header)) == Some("invalid bearer token"@),
{
    if rpc::ascii_text(header) == "Bearer "@ + other {
        assert("Bearer "@.is_prefix_of("Bearer "@ + other));
        if "Bearer "@ + other == "Bearer "@ + token {
            assert(("Bearer "@ + other).skip("Bearer "@.len() as int) =~= other);
            assert(("Bearer "@ + token).skip("Bearer "@.len() as int) =~= token);
        }
    }
}

} // verus!

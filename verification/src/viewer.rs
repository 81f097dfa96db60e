//! Who makes a request: the claims of a session token, and the viewer that they stand for.
use crate::error::{failure_status, joined, refusal, Error, Failure, StatusCode};
use crate::model::TenantRow;
use crate::tenant::ADMIN_TENANT;
use crate::text::same_text;
use vstd::prelude::*;

verus! {

/// The cookie that holds the session token.
pub const COOKIE_NAME: &'static str = "isuports_session";

/// What a viewer may do.
#[derive(Debug, Clone, Copy, PartialEq, Eq, Structural)]
pub enum Role {
    /// Runs the service.
    Admin,
    /// Runs the competitions of one tenant.
    Organizer,
    /// Takes part in the competitions of one tenant.
    Player,
}

/// The name of a role in a token.
pub open spec fn role_name(role: Role) -> Seq<char> {
    match role {
        Role::Admin => "admin"@,
        Role::Organizer => "organizer"@,
        Role::Player => "player"@,
    }
}

/// The role that a name stands for.
pub open spec fn role_named(name: Seq<char>) -> Option<Role> {
    if name == "admin"@ {
        Some(Role::Admin)
    } else if name == "organizer"@ {
        Some(Role::Organizer)
    } else if name == "player"@ {
        Some(Role::Player)
    } else {
        None
    }
}

impl Role {
    /// The name of this role in a token.
    pub fn name(self) -> (r: &'static str)
        ensures
            r@ == role_name(self),
    {
        match self {
            Role::Admin => "admin",
            Role::Organizer => "organizer",
            Role::Player => "player",
        }
    }

    /// The role that a name stands for.
    pub fn named(name: &str) -> (r: Option<Role>)
        ensures
            r == role_named(name@),
    {
        if same_text(name, "admin") {
            Some(Role::Admin)
        } else if same_text(name, "organizer") {
            Some(Role::Organizer)
        } else if same_text(name, "player") {
            Some(Role::Player)
        } else {
            None
        }
    }
}

/// The name of a role stands for that role.
pub proof fn role_names_are_read_back(role: Role)
    ensures
        role_named(role_name(role)) == Some(role),
{
    reveal_strlit("admin");
    reveal_strlit("organizer");
    reveal_strlit("player");
    assert("admin"@[0] == 'a');
    assert("organizer"@[0] == 'o');
    assert("player"@[0] == 'p');
}

/// The claims of a verified session token.
#[derive(Debug)]
pub struct Claims {
    pub sub: Option<String>,
    pub aud: Vec<String>,
    pub role: Option<String>,
}

/// What the claims of a token say: a subject, a role and the one tenant that it is for.
#[derive(Debug)]
pub struct Identity {
    pub sub: String,
    pub role: Role,
    pub tenant_name: String,
}

/// A viewer of one tenant.
#[derive(Debug)]
pub struct Viewer {
    pub role: Role,
    pub player_id: String,
    pub tenant_name: String,
    pub tenant_id: i64,
}

/// A refusal of a token.
pub open spec fn unauthorized(message: Seq<char>) -> Failure {
    Failure::Custom(StatusCode::Unauthorized, message)
}

/// Why a token with these claims is refused: it names no subject, no role, none of the three roles,
/// or not exactly one tenant.
pub open spec fn token_flaw(token: Seq<char>, claims: Claims) -> Option<Failure> {
    if claims.sub is None {
        Some(unauthorized("invalid token: subject is not found in token: "@ + token))
    } else if claims.role is None {
        Some(unauthorized("invalid token: role is not found: "@ + token))
    } else if role_named(claims.role->0@) is None {
        Some(unauthorized("invalid token: invalid role: "@ + token))
    } else if claims.aud.len() != 1 {
        Some(unauthorized("invalid token: aud filed is few or too much: "@ + token))
    } else {
        None
    }
}

/// What claims without a flaw say.
pub open spec fn identity_of(claims: Claims) -> Identity {
    Identity {
        sub: claims.sub->0,
        role: role_named(claims.role->0@)->0,
        tenant_name: claims.aud@[0],
    }
}

/// Takes the claims of `token` apart.
pub fn identify(token: &str, claims: Claims) -> (r: Result<Identity, Error>)
    ensures
        match token_flaw(token@, claims) {
            Some(f) => r matches Err(e) && e@ == f,
            None => r == Ok::<Identity, Error>(identity_of(claims)),
        },
{
    let sub = match claims.sub {
        Some(sub) => sub,
        None => {
            return Err(
                Error::Custom(
                    StatusCode::Unauthorized,
                    joined("invalid token: subject is not found in token: ", token),
                ),
            );
        },
    };
    let name = match claims.role {
        Some(name) => name,
        None => {
            return Err(
                Error::Custom(
                    StatusCode::Unauthorized,
                    joined("invalid token: role is not found: ", token),
                ),
            );
        },
    };
    let role = match Role::named(name.as_str()) {
        Some(role) => role,
        None => {
            return Err(
                Error::Custom(
                    StatusCode::Unauthorized,
                    joined("invalid token: invalid role: ", token),
                ),
            );
        },
    };
    if claims.aud.len() != 1 {
        return Err(
            Error::Custom(
                StatusCode::Unauthorized,
                joined("invalid token: aud filed is few or too much: ", token),
            ),
        );
    }
    Ok(Identity { sub, role, tenant_name: claims.aud[0].clone() })
}

/// Why an identity is refused at the host of `tenant`: there is no such tenant, it is the
/// administration and the token not an administrator's, or the token is for another tenant.
pub open spec fn viewer_flaw(
    token: Seq<char>,
    identity: Identity,
    tenant: Option<TenantRow>,
) -> Option<Failure> {
    match tenant {
        None => Some(unauthorized("tenant not found"@)),
        Some(t) => if t.name@ == "admin"@ && identity.role != Role::Admin {
            Some(unauthorized("tenant not found"@))
        } else if t.name@ != identity.tenant_name@ {
            Some(unauthorized("invalid token: tenant name is not match: "@ + token))
        } else {
            None
        },
    }
}

/// The viewer that an identity without a flaw stands for.
pub open spec fn viewer_of(identity: Identity, tenant: TenantRow) -> Viewer {
    Viewer {
        role: identity.role,
        player_id: identity.sub,
        tenant_name: tenant.name,
        tenant_id: tenant.id,
    }
}

/// The viewer that an identity stands for at the host of `tenant`.
pub fn recognize(token: &str, identity: Identity, tenant: Option<TenantRow>) -> (r: Result<
    Viewer,
    Error,
>)
    ensures
        match viewer_flaw(token@, identity, tenant) {
            Some(f) => r matches Err(e) && e@ == f,
            None => r == Ok::<Viewer, Error>(viewer_of(identity, tenant->0)),
        },
{
    match tenant {
        None => Err(refusal(StatusCode::Unauthorized, "tenant not found")),
        Some(t) => {
            if same_text(t.name.as_str(), ADMIN_TENANT) && identity.role != Role::Admin {
                Err(refusal(StatusCode::Unauthorized, "tenant not found"))
            } else if !same_text(t.name.as_str(), identity.tenant_name.as_str()) {
                Err(
                    Error::Custom(
                        StatusCode::Unauthorized,
                        joined("invalid token: tenant name is not match: ", token),
                    ),
                )
            } else {
                Ok(
                    Viewer {
                        role: identity.role,
                        player_id: identity.sub,
                        tenant_name: t.name,
                        tenant_id: t.id,
                    },
                )
            }
        },
    }
}

/// A viewer belongs to the one tenant that their token is for and whose host they reached, has the
/// role and the subject that the token names, and is an administrator wherever that tenant is the
/// administration.
pub proof fn viewers_belong_to_their_tenant(
    token: Seq<char>,
    claims: Claims,
    tenant: Option<TenantRow>,
    viewer: Viewer,
)
    requires
        token_flaw(token, claims) is None,
        viewer_flaw(token, identity_of(claims), tenant) is None,
        viewer == viewer_of(identity_of(claims), tenant->0),
    ensures
        claims.aud@.len() == 1,
        claims.aud@[0]@ == viewer.tenant_name@,
        claims.sub == Some(viewer.player_id),
        claims.role matches Some(name) && role_named(name@) == Some(viewer.role),
        tenant matches Some(t) && t.name == viewer.tenant_name && t.id == viewer.tenant_id,
        viewer.tenant_name@ == "admin"@ ==> viewer.role == Role::Admin,
{
}

/// A token that is refused for its claims, or for the host that it was sent to, is answered as
/// unauthorized.
pub proof fn refused_tokens_are_unauthorized(
    token: Seq<char>,
    claims: Claims,
    identity: Identity,
    tenant: Option<TenantRow>,
)
    ensures
        token_flaw(token, claims) matches Some(f) ==> failure_status(f)
            == StatusCode::Unauthorized,
        viewer_flaw(token, identity, tenant) matches Some(f) ==> failure_status(f)
            == StatusCode::Unauthorized,
{
}

/// The key that `jsonwebtoken::DecodingKey::from_rsa_pem` makes of a PEM text, or its words where
/// it makes none.
pub uninterp spec fn rsa_key_of(pem: Seq<u8>) -> Result<jsonwebtoken::DecodingKey, Seq<char>>;

/// The key that session tokens are verified with (`jsonwebtoken::DecodingKey`).
#[verifier::external_type_specification]
#[verifier::external_body]
pub struct ExDecodingKey(jsonwebtoken::DecodingKey);

/// Reads a public RSA key (`jsonwebtoken::DecodingKey::from_rsa_pem`). The key, or the words of the
/// failure, depend on the PEM text alone.
#[verifier::external_body]
fn rsa_key(pem: &[u8]) -> (r: Result<jsonwebtoken::DecodingKey, String>)
    ensures
        match r {
            Ok(key) => rsa_key_of(pem@) == Ok::<jsonwebtoken::DecodingKey, Seq<char>>(key),
            Err(cause) => rsa_key_of(pem@) == Err::<jsonwebtoken::DecodingKey, Seq<char>>(cause@),
        },
{
    match jsonwebtoken::DecodingKey::from_rsa_pem(pem) {
        Ok(key) => Ok(key),
        Err(e) => Err(e.to_string()),
    }
}

/// The key that session tokens are verified with, from the contents of the key file.
pub fn decoding_key(pem: &[u8]) -> (r: Result<jsonwebtoken::DecodingKey, Error>)
    ensures
        match rsa_key_of(pem@) {
            Ok(key) => r == Ok::<jsonwebtoken::DecodingKey, Error>(key),
            Err(cause) => r matches Err(e) && e@ == Failure::Internal(
                "error jsonwebtoken::DecodingKey::from_rsa_pem: "@ + cause,
            ),
        },
{
    match rsa_key(pem) {
        Ok(key) => Ok(key),
        Err(cause) => Err(
            Error::Internal(
                joined("error jsonwebtoken::DecodingKey::from_rsa_pem: ", cause.as_str()),
            ),
        ),
    }
}

} // verus!

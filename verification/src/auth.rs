//! Where an application expects its JWT, and the security schemes that
//! follow from it.

use crate::document::{
    ApiKeyLocation, NamedSchemeView, SecurityScheme, SecuritySchemeView, SpecDocument,
    SpecDocumentView,
};
use crate::once::{spec_write, WriteOnce};
use crate::table::{entry_of, lemma_entry_after_put, lemma_put_distinct, put};
use vstd::prelude::*;

verus! {

/// Where a request carries its JWT.
#[derive(Debug, PartialEq, Eq)]
pub enum JWTLocation {
    /// In the `Authorization` header, as a bearer token.
    Bearer,
    /// In the query parameter of the given name.
    Query(String),
    /// In the cookie of the given name.
    Cookie(String),
}

pub enum JWTLocationView {
    Bearer,
    Query(Seq<char>),
    Cookie(Seq<char>),
}

impl View for JWTLocation {
    type V = JWTLocationView;

    open spec fn view(&self) -> JWTLocationView {
        match self {
            JWTLocation::Bearer => JWTLocationView::Bearer,
            JWTLocation::Query(name) => JWTLocationView::Query(name@),
            JWTLocation::Cookie(name) => JWTLocationView::Cookie(name@),
        }
    }
}

impl Default for JWTLocation {
    /// A bearer token.
    fn default() -> (location: Self)
        ensures
            location == JWTLocation::Bearer,
    {
        JWTLocation::Bearer
    }
}

impl Clone for JWTLocation {
    fn clone(&self) -> (copy: Self)
        ensures
            copy@ == self@,
    {
        match self {
            JWTLocation::Bearer => JWTLocation::Bearer,
            JWTLocation::Query(name) => JWTLocation::Query(name.clone()),
            JWTLocation::Cookie(name) => JWTLocation::Cookie(name.clone()),
        }
    }
}

impl JWTLocation {
    /// The location that an application's settings ask for: the one they
    /// name, or a bearer token where they name none.
    pub fn from_setting(setting: Option<&JWTLocation>) -> (location: Self)
        ensures
            location@ == match setting {
                Some(named) => named@,
                None => JWTLocationView::Bearer,
            },
    {
        match setting {
            Some(named) => named.clone(),
            None => JWTLocation::Bearer,
        }
    }

    /// The location that an application's settings ask for when they may
    /// list several: the first that they list, or a bearer token where they
    /// list none. The document describes one location.
    pub fn from_settings(settings: &Vec<JWTLocation>) -> (location: Self)
        ensures
            location@ == if settings@.len() > 0 {
                settings@[0]@
            } else {
                JWTLocationView::Bearer
            },
    {
        if settings.len() > 0 {
            JWTLocation::from_setting(Some(&settings[0]))
        } else {
            JWTLocation::from_setting(None)
        }
    }

    /// The security scheme that describes a JWT in this location.
    pub fn scheme(&self) -> (scheme: SecurityScheme)
        ensures
            scheme@ == jwt_scheme(self@),
    {
        match self {
            JWTLocation::Bearer => SecurityScheme::HttpBearer { bearer_format: "JWT".to_owned() },
            JWTLocation::Query(name) => SecurityScheme::ApiKey {
                location: ApiKeyLocation::Query,
                name: name.clone(),
            },
            JWTLocation::Cookie(name) => SecurityScheme::ApiKey {
                location: ApiKeyLocation::Cookie,
                name: name.clone(),
            },
        }
    }
}

/// The security scheme that describes a JWT in `location`: HTTP bearer
/// authentication with the format `JWT`, or an API key in the named query
/// parameter or cookie.
pub open spec fn jwt_scheme(location: JWTLocationView) -> SecuritySchemeView {
    match location {
        JWTLocationView::Bearer => SecuritySchemeView::HttpBearer { bearer_format: "JWT"@ },
        JWTLocationView::Query(name) => SecuritySchemeView::ApiKey {
            location: ApiKeyLocation::Query,
            name,
        },
        JWTLocationView::Cookie(name) => SecuritySchemeView::ApiKey {
            location: ApiKeyLocation::Cookie,
            name,
        },
    }
}

/// The scheme that every document gets beside the JWT's: an API key in the
/// header `apikey`.
pub open spec fn api_key_scheme() -> SecuritySchemeView {
    SecuritySchemeView::ApiKey { location: ApiKeyLocation::Header, name: "apikey"@ }
}

/// The location that the document describes when `recorded` is what was
/// recorded: that location, or a bearer token where none was recorded.
pub open spec fn described(recorded: Option<JWTLocationView>) -> JWTLocationView {
    match recorded {
        Some(location) => location,
        None => JWTLocationView::Bearer,
    }
}

/// `document` with the two security schemes that follow from `location`:
/// the JWT's under the name `jwt_token`, then the API key's under the name
/// `api_key`. The second comes beside the first whatever the location is.
pub open spec fn with_security(
    document: SpecDocumentView,
    location: JWTLocationView,
) -> SpecDocumentView {
    document.with_security_scheme(
        NamedSchemeView { name: "jwt_token"@, scheme: jwt_scheme(location) },
    ).with_security_scheme(NamedSchemeView { name: "api_key"@, scheme: api_key_scheme() })
}

/// After the security schemes were put, the document has both of them
/// under their names, and every scheme of another name that it had.
pub proof fn lemma_with_security_has_both(document: SpecDocumentView, location: JWTLocationView)
    ensures
        entry_of(with_security(document, location).security_schemes, "jwt_token"@) == Some(
            NamedSchemeView { name: "jwt_token"@, scheme: jwt_scheme(location) },
        ),
        entry_of(with_security(document, location).security_schemes, "api_key"@) == Some(
            NamedSchemeView { name: "api_key"@, scheme: api_key_scheme() },
        ),
        forall|name: Seq<char>|
            name != "jwt_token"@ && name != "api_key"@ ==> #[trigger] entry_of(
                with_security(document, location).security_schemes,
                name,
            ) == entry_of(document.security_schemes, name),
        with_security(document, location).info == document.info,
        with_security(document, location).operations == document.operations,
        with_security(document, location).schemas == document.schemas,
        document.keyed_once() ==> with_security(document, location).keyed_once(),
{
    reveal_strlit("jwt_token");
    reveal_strlit("api_key");
    assert("jwt_token"@.len() != "api_key"@.len());
    let jwt = NamedSchemeView { name: "jwt_token"@, scheme: jwt_scheme(location) };
    let api = NamedSchemeView { name: "api_key"@, scheme: api_key_scheme() };
    let first = put(document.security_schemes, jwt);
    lemma_entry_after_put(document.security_schemes, jwt);
    lemma_entry_after_put(first, api);
    if document.keyed_once() {
        lemma_put_distinct(document.security_schemes, jwt);
        lemma_put_distinct(first, api);
    }
}

/// Records where the application expects its JWT. The first location that
/// is recorded stays; a later one is dropped. Hands back what the slot holds
/// after the call.
pub fn set_jwt_location(
    slot: &mut WriteOnce<JWTLocation>,
    jwt_location: JWTLocation,
) -> (held: &JWTLocation)
    ensures
        final(slot)@ == spec_write(old(slot)@, jwt_location),
        final(slot)@ == Some(*held),
{
    slot.get_or_init(jwt_location)
}

/// The location that was recorded, if one was.
pub fn get_jwt_location(slot: &WriteOnce<JWTLocation>) -> (held: Option<&JWTLocation>)
    ensures
        match held {
            Some(location) => slot@ == Some(*location),
            None => slot@ is None,
        },
{
    slot.get()
}

/// Adds the security schemes to a document.
#[derive(Debug, Clone, Copy, PartialEq, Eq, Default)]
pub struct SecurityAddon;

impl SecurityAddon {
    /// Puts into `openapi` the two security schemes: under `jwt_token` the
    /// scheme of `jwt_location`, or of a bearer token where no location was
    /// recorded, and under `api_key` the API key in a header. Each replaces
    /// the scheme that had its name.
    pub fn modify(&self, jwt_location: Option<&JWTLocation>, openapi: &mut SpecDocument)
        ensures
            final(openapi)@ == with_security(
                old(openapi)@,
                described(
                    match jwt_location {
                        Some(location) => Some(location@),
                        None => None,
                    },
                ),
            ),
            old(openapi)@.keyed_once() ==> final(openapi)@.keyed_once(),
    {
        let location = JWTLocation::from_setting(jwt_location);
        openapi.add_security_scheme("jwt_token", location.scheme());
        openapi.add_security_scheme(
            "api_key",
            SecurityScheme::ApiKey { location: ApiKeyLocation::Header, name: "apikey".to_owned() },
        );
    }
}

} // verus!

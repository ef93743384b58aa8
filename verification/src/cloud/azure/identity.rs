//! Validates Entra ID access tokens presented to the REST API: that a token
//! is signed with one of our tenant's keys, has not expired, and was issued by
//! our tenant for this API. Tokens are validated locally
//! against the tenant's published keys; fetching those is left to the caller.
//!
//! A verification goes: `key_id` reads which key signed the token, the caller
//! provides the key set, unless it holds one that `keys_are_fresh`, and
//! `verify_with` does the rest.

use crate::cloud::{claim_views, CallerIdentity, CallerIdentityView};
use crate::keyed::is_listing;
use crate::text::{opt_text, quoted, quoted_text, same, texts};
use vstd::prelude::*;

verus! {

/// How long a fetched key set is used, in nanoseconds.
pub const JWKS_TTL_NANOS: u64 = 3_600_000_000_000;

/// The algorithm with which the tenant signs its tokens.
pub const SIGNING_ALGORITHM: &'static str = "RS256";

#[verifier::external_type_specification]
#[verifier::external_body]
pub struct ExJwkSet(jsonwebtoken::jwk::JwkSet);

#[verifier::external_type_specification]
#[verifier::external_body]
pub struct ExJwk(jsonwebtoken::jwk::Jwk);

#[verifier::external_type_specification]
#[verifier::external_body]
pub struct ExDecodingKey(jsonwebtoken::DecodingKey);

#[verifier::external_type_specification]
#[verifier::external_body]
pub struct ExError(jsonwebtoken::errors::Error);

// ─── What the outside crates give ─────────────────────────────────────────────

/// The text of a JSON string; nothing for any other value.
pub uninterp spec fn value_text(v: serde_json::Value) -> Option<Seq<char>>;

/// The items of a JSON array; nothing for any other value.
pub uninterp spec fn value_items(v: serde_json::Value) -> Option<Seq<serde_json::Value>>;

/// `serde_json::Value::as_str`. Trusted: it gives the text that the value
/// holds, if it holds one.
pub assume_specification[ serde_json::Value::as_str ](v: &serde_json::Value) -> (r: Option<&str>)
    ensures
        match r {
            Some(s) => value_text(*v) == Some(s@),
            None => value_text(*v) is None,
        },
;

/// `serde_json::Value::as_array`. Trusted: it gives the items that the value
/// holds, if it holds an array.
pub assume_specification[ serde_json::Value::as_array ](v: &serde_json::Value) -> (r: Option<
    &Vec<serde_json::Value>,
>)
    ensures
        match r {
            Some(items) => value_items(*v) == Some(items@),
            None => value_items(*v) is None,
        },
;

/// The keys of a key set, in order.
pub uninterp spec fn keys_of(set: jsonwebtoken::jwk::JwkSet) -> Seq<jsonwebtoken::jwk::Jwk>;

/// The identifier of a key, if it has one.
pub uninterp spec fn id_of(key: jsonwebtoken::jwk::Jwk) -> Option<Seq<char>>;

/// The first key with the given identifier stands at `i`.
pub open spec fn first_key(set: jsonwebtoken::jwk::JwkSet, kid: Seq<char>, i: int) -> bool {
    &&& 0 <= i < keys_of(set).len()
    &&& id_of(keys_of(set)[i]) == Some(kid)
    &&& forall|j: int| 0 <= j < i ==> id_of(#[trigger] keys_of(set)[j]) != Some(kid)
}

/// `jsonwebtoken::jwk::JwkSet::find`. Trusted: it gives the first key with the
/// given identifier, if there is one.
pub assume_specification<'a, 'b>[ jsonwebtoken::jwk::JwkSet::find ](
    set: &'a jsonwebtoken::jwk::JwkSet,
    kid: &'b str,
) -> (r: Option<&'a jsonwebtoken::jwk::Jwk>)
    ensures
        match r {
            Some(key) => exists|i: int| #[trigger] first_key(*set, kid@, i) && *key == keys_of(*set)[i],
            None => forall|i: int| 0 <= i < keys_of(*set).len() ==> id_of(#[trigger] keys_of(*set)[i]) != Some(kid@),
        },
;

/// What a token error prints.
pub uninterp spec fn token_error_text(e: jsonwebtoken::errors::Error) -> Seq<char>;

/// Calls `to_string` on a `jsonwebtoken::errors::Error`. Trusted: the text is
/// determined by the error alone.
#[verifier::external_body]
fn print_token_error(e: &jsonwebtoken::errors::Error) -> (r: String)
    ensures
        r@ == token_error_text(*e),
{
    e.to_string()
}

/// The key that verifies signatures made with the given key, or the text of
/// the error if it is not well formed.
pub uninterp spec fn verification_key(key: jsonwebtoken::jwk::Jwk) -> Result<jsonwebtoken::DecodingKey, Seq<char>>;

/// `jsonwebtoken::DecodingKey::from_jwk`. Trusted: what it gives, and what its
/// error prints, is determined by the key alone.
pub assume_specification[ jsonwebtoken::DecodingKey::from_jwk ](key: &jsonwebtoken::jwk::Jwk) -> (r: Result<
    jsonwebtoken::DecodingKey,
    jsonwebtoken::errors::Error,
>)
    ensures
        match r {
            Ok(k) => verification_key(*key) == Ok::<jsonwebtoken::DecodingKey, Seq<char>>(k),
            Err(e) => verification_key(*key) == Err::<jsonwebtoken::DecodingKey, Seq<char>>(token_error_text(e)),
        },
;

/// What the header of a token says of the key that signed it: the key's
/// identifier, if it is there, or the text of the error if the header cannot
/// be read.
pub uninterp spec fn header_key_id(token: Seq<char>) -> Result<Option<Seq<char>>, Seq<char>>;

/// Calls `jsonwebtoken::decode_header`, and keeps the key identifier of the
/// header. Trusted: what the header says, and what the error prints, is
/// determined by the token alone.
#[verifier::external_body]
fn read_header(token: &str) -> (r: Result<Option<String>, jsonwebtoken::errors::Error>)
    ensures
        match r {
            Ok(kid) => header_key_id(token@) == Ok::<Option<Seq<char>>, Seq<char>>(opt_text(kid)),
            Err(e) => header_key_id(token@) == Err::<Option<Seq<char>>, Seq<char>>(token_error_text(e)),
        },
{
    jsonwebtoken::decode_header(token).map(|header| header.kid)
}

/// The claims of a token that is signed by the given key with the given
/// algorithm, carries the required claims, and names no other issuer and no
/// other audience than the given ones; nothing for any other token. Whether
/// the token has expired is not looked at.
pub uninterp spec fn signed_claims(
    token: Seq<char>,
    key: jsonwebtoken::DecodingKey,
    algorithm: Seq<char>,
    required: Seq<Seq<char>>,
    audience: Seq<char>,
    issuer: Seq<char>,
) -> Option<Map<Seq<char>, serde_json::Value>>;

/// There is a claim of that name, and it says what is expected: it is that
/// text, or a list that holds it.
pub open spec fn claim_names(claims: Map<Seq<char>, serde_json::Value>, name: Seq<char>, expected: Seq<char>) -> bool {
    &&& claims.contains_key(name)
    &&& {
        ||| value_text(claims[name]) == Some(expected)
        ||| value_items(claims[name]) matches Some(items) && exists|i: int|
            0 <= i < items.len() && value_text(#[trigger] items[i]) == Some(expected)
    }
}

/// What a token error prints when the token has expired.
pub open spec fn expired_text() -> Seq<char> {
    "ExpiredSignature"@
}

/// Calls `jsonwebtoken::decode` with a validation for the algorithm, which
/// `jsonwebtoken::Algorithm::from_str` finds by its name, the audience and the
/// issuer, in which the given claims are required. Trusted: it succeeds only
/// on tokens that `signed_claims` accepts, and returns each of their claims
/// once; where an expiry time, an issuer or an audience is required, it is
/// among them, and the latter two name the expected ones. A token that
/// `signed_claims` accepts is refused for one reason only, that it has
/// expired. When that is, is left unsaid: the clock says so. On a clock set
/// before 1970 the call panics, and in the first minute of 1970 its
/// subtraction of the leeway underflows.
#[verifier::external_body]
fn decode_claims(
    token: &str,
    key: &jsonwebtoken::DecodingKey,
    algorithm: &str,
    required: &Vec<String>,
    audience: &str,
    issuer: &str,
) -> (r: Result<Vec<(String, serde_json::Value)>, jsonwebtoken::errors::Error>)
    ensures
        r matches Ok(claims) ==> {
            let names = texts(required@);
            let accepted = signed_claims(token@, *key, algorithm@, names, audience@, issuer@);
            &&& accepted is Some
            &&& is_listing(claim_views(claims@), accepted->0)
            &&& names.contains("exp"@) ==> accepted->0.contains_key("exp"@)
            &&& names.contains("iss"@) ==> claim_names(accepted->0, "iss"@, issuer@)
            &&& names.contains("aud"@) ==> claim_names(accepted->0, "aud"@, audience@)
        },
        r matches Err(e) ==> {
            let accepted = signed_claims(token@, *key, algorithm@, texts(required@), audience@, issuer@);
            accepted is Some ==> token_error_text(e) == expired_text()
        },
{
    let mut validation = jsonwebtoken::Validation::new(algorithm.parse::<jsonwebtoken::Algorithm>()?);
    validation.set_audience(&[audience]);
    validation.set_issuer(&[issuer]);
    validation.set_required_spec_claims(required);
    let data = jsonwebtoken::decode::<std::collections::HashMap<String, serde_json::Value>>(token, key, &validation)?;
    Ok(data.claims.into_iter().collect())
}

// ─── Reading claims ───────────────────────────────────────────────────────────

/// A claim, as far as it is looked at.
#[derive(Debug)]
pub enum Claim {
    Text(String),
    /// A list, with the text of each item that is one.
    List(Vec<Option<String>>),
    Other,
}

pub enum ClaimView {
    Text(Seq<char>),
    List(Seq<Option<Seq<char>>>),
    Other,
}

/// The views of a list of optional texts.
pub open spec fn opt_texts(v: Seq<Option<String>>) -> Seq<Option<Seq<char>>> {
    v.map_values(|o: Option<String>| opt_text(o))
}

impl View for Claim {
    type V = ClaimView;

    open spec fn view(&self) -> ClaimView {
        match self {
            Claim::Text(t) => ClaimView::Text(t@),
            Claim::List(v) => ClaimView::List(opt_texts(v@)),
            Claim::Other => ClaimView::Other,
        }
    }
}

/// What a JSON value says as a claim.
pub open spec fn claim_of(v: serde_json::Value) -> ClaimView {
    match value_text(v) {
        Some(t) => ClaimView::Text(t),
        None => match value_items(v) {
            Some(items) => ClaimView::List(items.map_values(|i: serde_json::Value| value_text(i))),
            None => ClaimView::Other,
        },
    }
}

/// Reads a JSON value as a claim.
pub fn read_claim(v: &serde_json::Value) -> (r: Claim)
    ensures
        r@ == claim_of(*v),
{
    match v.as_str() {
        Some(t) => Claim::Text(t.to_owned()),
        None => match v.as_array() {
            Some(items) => {
                let mut out: Vec<Option<String>> = Vec::new();
                let mut i: usize = 0;
                while i < items.len()
                    invariant
                        i <= items@.len(),
                        out@.len() == i,
                        forall|j: int| 0 <= j < i ==> opt_text(#[trigger] out@[j]) == value_text(items@[j]),
                    decreases items@.len() - i,
                {
                    let item = match items[i].as_str() {
                        Some(t) => Some(t.to_owned()),
                        None => None,
                    };
                    out.push(item);
                    i = i + 1;
                }
                assert(opt_texts(out@) =~= items@.map_values(|i: serde_json::Value| value_text(i)));
                Claim::List(out)
            },
            None => Claim::Other,
        },
    }
}

/// The claim of the given name: the first, if several share it.
pub open spec fn named_claim(claims: Seq<(Seq<char>, ClaimView)>, name: Seq<char>) -> Option<ClaimView>
    decreases claims.len(),
{
    if claims.len() == 0 {
        None
    } else if claims[0].0 == name {
        Some(claims[0].1)
    } else {
        named_claim(claims.drop_first(), name)
    }
}

/// Whom a token was issued to: its object identifier, or its subject if it has
/// none. One that is not a text names nobody.
pub open spec fn subject_of(claims: Seq<(Seq<char>, ClaimView)>) -> Seq<char> {
    let claim = match named_claim(claims, "oid"@) {
        Some(c) => Some(c),
        None => named_claim(claims, "sub"@),
    };
    match claim {
        Some(ClaimView::Text(t)) => t,
        _ => "unknown"@,
    }
}

/// The texts of a list, in order, without its other items.
pub open spec fn texts_among(items: Seq<Option<Seq<char>>>) -> Seq<Seq<char>>
    decreases items.len(),
{
    if items.len() == 0 {
        Seq::empty()
    } else {
        let front = texts_among(items.drop_last());
        match items.last() {
            Some(t) => front.push(t),
            None => front,
        }
    }
}

/// The roles a token grants.
pub open spec fn roles_of(claims: Seq<(Seq<char>, ClaimView)>) -> Seq<Seq<char>> {
    match named_claim(claims, "roles"@) {
        Some(ClaimView::List(items)) => texts_among(items),
        _ => Seq::empty(),
    }
}

/// Named claims as they are read.
pub open spec fn readings(claims: Seq<(String, Claim)>) -> Seq<(Seq<char>, ClaimView)> {
    claims.map_values(|c: (String, Claim)| (c.0@, c.1@))
}

fn find_claim<'a>(claims: &'a Vec<(String, Claim)>, name: &str) -> (r: Option<&'a Claim>)
    ensures
        match r {
            Some(c) => named_claim(readings(claims@), name@) == Some(c@),
            None => named_claim(readings(claims@), name@) is None,
        },
{
    let ghost all = readings(claims@);
    let mut i: usize = 0;
    assert(all.skip(0) =~= all);
    while i < claims.len()
        invariant
            i <= claims@.len(),
            all == readings(claims@),
            named_claim(all, name@) == named_claim(all.skip(i as int), name@),
        decreases claims@.len() - i,
    {
        assert(all.skip(i as int).drop_first() =~= all.skip(i + 1));
        if same(claims[i].0.as_str(), name) {
            return Some(&claims[i].1);
        }
        i = i + 1;
    }
    None
}

/// Reads whom a token was issued to from its claims.
pub fn subject_from_claims(claims: &Vec<(String, Claim)>) -> (r: String)
    ensures
        r@ == subject_of(readings(claims@)),
{
    let claim = match find_claim(claims, "oid") {
        Some(c) => Some(c),
        None => find_claim(claims, "sub"),
    };
    match claim {
        Some(Claim::Text(t)) => t.clone(),
        _ => "unknown".to_owned(),
    }
}

/// Reads the roles a token grants from its claims.
pub fn roles_from_claims(claims: &Vec<(String, Claim)>) -> (r: Vec<String>)
    ensures
        texts(r@) == roles_of(readings(claims@)),
{
    let mut out: Vec<String> = Vec::new();
    match find_claim(claims, "roles") {
        Some(Claim::List(items)) => {
            let ghost all = opt_texts(items@);
            let mut i: usize = 0;
            assert(texts(out@) =~= texts_among(all.take(0)));
            while i < items.len()
                invariant
                    i <= items@.len(),
                    all == opt_texts(items@),
                    texts(out@) == texts_among(all.take(i as int)),
                decreases items@.len() - i,
            {
                let ghost before = out@;
                proof {
                    assert(all.take(i + 1).drop_last() =~= all.take(i as int));
                    assert(all.take(i + 1).last() == opt_text(items@[i as int]));
                }
                match &items[i] {
                    Some(t) => {
                        out.push(t.clone());
                        assert(texts(out@) =~= texts(before).push(t@));
                    },
                    None => {},
                }
                i = i + 1;
            }
            assert(all.take(items@.len() as int) =~= all);
        },
        _ => {
            assert(texts(out@) =~= Seq::<Seq<char>>::empty());
        },
    }
    out
}

/// The claims of the outside world as they are read.
pub open spec fn claims_read(claims: Seq<(Seq<char>, serde_json::Value)>) -> Seq<(Seq<char>, ClaimView)> {
    claims.map_values(|c: (Seq<char>, serde_json::Value)| (c.0, claim_of(c.1)))
}

/// The caller that a token's claims describe.
pub open spec fn caller_of(claims: Seq<(Seq<char>, serde_json::Value)>) -> CallerIdentityView {
    CallerIdentityView { subject: subject_of(claims_read(claims)), roles: roles_of(claims_read(claims)), claims }
}

/// Reads the caller from a token's claims.
pub fn identity_from_claims(claims: Vec<(String, serde_json::Value)>) -> (r: CallerIdentity)
    ensures
        r@ == caller_of(claim_views(claims@)),
{
    let mut plain: Vec<(String, Claim)> = Vec::new();
    let mut i: usize = 0;
    while i < claims.len()
        invariant
            i <= claims@.len(),
            plain@.len() == i,
            forall|j: int|
                0 <= j < i ==> (#[trigger] plain@[j]).0@ == claims@[j].0@ && plain@[j].1@ == claim_of(claims@[j].1),
        decreases claims@.len() - i,
    {
        plain.push((claims[i].0.clone(), read_claim(&claims[i].1)));
        i = i + 1;
    }
    assert(readings(plain@) =~= claims_read(claim_views(claims@)));
    CallerIdentity { subject: subject_from_claims(&plain), roles: roles_from_claims(&plain), claims }
}

// ─── Verifying tokens ─────────────────────────────────────────────────────────

/// Why a token was refused.
#[derive(Debug)]
pub enum IdentityError {
    /// The token is malformed, badly signed, expired, or not meant for us.
    Token(jsonwebtoken::errors::Error),
    /// The token does not say which key signed it.
    MissingKeyId,
    /// The tenant publishes no key of this identifier.
    UnknownKey(String),
}

pub enum IdentityErrorView {
    Token(jsonwebtoken::errors::Error),
    MissingKeyId,
    UnknownKey(Seq<char>),
}

impl IdentityErrorView {
    pub open spec fn message(self) -> Seq<char> {
        match self {
            IdentityErrorView::Token(e) => token_error_text(e),
            IdentityErrorView::MissingKeyId => "token header missing 'kid'"@,
            IdentityErrorView::UnknownKey(kid) => "no matching signing key for kid "@ + quoted_text(kid),
        }
    }
}

impl View for IdentityError {
    type V = IdentityErrorView;

    open spec fn view(&self) -> IdentityErrorView {
        match self {
            IdentityError::Token(e) => IdentityErrorView::Token(*e),
            IdentityError::MissingKeyId => IdentityErrorView::MissingKeyId,
            IdentityError::UnknownKey(kid) => IdentityErrorView::UnknownKey(kid@),
        }
    }
}

impl IdentityError {
    /// The error as it is printed.
    pub fn message(&self) -> (r: String)
        ensures
            r@ == self@.message(),
    {
        match self {
            IdentityError::Token(e) => print_token_error(e),
            IdentityError::MissingKeyId => "token header missing 'kid'".to_owned(),
            IdentityError::UnknownKey(kid) => "no matching signing key for kid ".to_owned().concat(
                quoted(kid.as_str()).as_str(),
            ),
        }
    }
}

/// The claims without which a token is refused.
pub open spec fn required_claims() -> Seq<Seq<char>> {
    seq!["exp"@, "iss"@, "aud"@]
}

/// Lists the claims without which a token is refused.
fn list_required_claims() -> (r: Vec<String>)
    ensures
        texts(r@) == required_claims(),
{
    let r = vec!["exp".to_owned(), "iss".to_owned(), "aud".to_owned()];
    assert(texts(r@) =~= required_claims());
    r
}

/// Validates the tokens of one tenant for one audience.
#[derive(Debug)]
pub struct EntraIdVerifier {
    tenant_id: String,
    audience: String,
}

pub struct EntraIdVerifierView {
    pub tenant_id: Seq<char>,
    pub audience: Seq<char>,
}

impl View for EntraIdVerifier {
    type V = EntraIdVerifierView;

    closed spec fn view(&self) -> EntraIdVerifierView {
        EntraIdVerifierView { tenant_id: self.tenant_id@, audience: self.audience@ }
    }
}

impl EntraIdVerifierView {
    /// Where the tenant publishes its keys.
    pub open spec fn jwks_uri(self) -> Seq<char> {
        "https://login.microsoftonline.com/"@ + self.tenant_id + "/discovery/v2.0/keys"@
    }

    /// The issuer of the tenant's tokens.
    pub open spec fn issuer(self) -> Seq<char> {
        "https://login.microsoftonline.com/"@ + self.tenant_id + "/v2.0"@
    }

    /// The claims of a token that is signed by the given key, issued by the
    /// tenant, and meant for the audience; nothing for any other token.
    pub open spec fn genuine(self, token: Seq<char>, key: jsonwebtoken::DecodingKey) -> Option<
        Map<Seq<char>, serde_json::Value>,
    > {
        signed_claims(token, key, SIGNING_ALGORITHM@, required_claims(), self.audience, self.issuer())
    }

    /// The claims of a token that is signed with the key `kid` of `set`,
    /// issued by the tenant, and meant for the audience; nothing for any other
    /// token.
    pub open spec fn accepted(
        self,
        token: Seq<char>,
        kid: Seq<char>,
        set: jsonwebtoken::jwk::JwkSet,
    ) -> Option<Map<Seq<char>, serde_json::Value>> {
        match published_key(set, kid) {
            Some(Ok(key)) => self.genuine(token, key),
            _ => None,
        }
    }
}

/// What `verification_key` makes of the first key of `set` with the identifier
/// `kid`; nothing if there is none.
pub open spec fn published_key(set: jsonwebtoken::jwk::JwkSet, kid: Seq<char>) -> Option<
    Result<jsonwebtoken::DecodingKey, Seq<char>>,
> {
    if exists|i: int| first_key(set, kid, i) {
        let i = choose|i: int| first_key(set, kid, i);
        Some(verification_key(keys_of(set)[i]))
    } else {
        None
    }
}

impl EntraIdVerifier {
    pub fn new(tenant_id: &str, audience: &str) -> (r: Self)
        ensures
            r@ == (EntraIdVerifierView { tenant_id: tenant_id@, audience: audience@ }),
    {
        EntraIdVerifier { tenant_id: tenant_id.to_owned(), audience: audience.to_owned() }
    }

    /// Where the tenant publishes its keys.
    pub fn jwks_uri(&self) -> (r: String)
        ensures
            r@ == self@.jwks_uri(),
    {
        "https://login.microsoftonline.com/".to_owned().concat(self.tenant_id.as_str()).concat(
            "/discovery/v2.0/keys",
        )
    }

    /// The issuer of the tenant's tokens.
    pub fn issuer(&self) -> (r: String)
        ensures
            r@ == self@.issuer(),
    {
        "https://login.microsoftonline.com/".to_owned().concat(self.tenant_id.as_str()).concat("/v2.0")
    }

    /// The identifier of the key that signed a token.
    pub fn key_id(&self, bearer_token: &str) -> (r: Result<String, IdentityError>)
        ensures
            match r {
                Ok(kid) => header_key_id(bearer_token@) == Ok::<Option<Seq<char>>, Seq<char>>(Some(kid@)),
                Err(IdentityError::MissingKeyId) => header_key_id(bearer_token@) == Ok::<
                    Option<Seq<char>>,
                    Seq<char>,
                >(None),
                Err(IdentityError::Token(e)) => header_key_id(bearer_token@) == Err::<Option<Seq<char>>, Seq<char>>(
                    token_error_text(e),
                ),
                Err(IdentityError::UnknownKey(_)) => false,
            },
    {
        match read_header(bearer_token) {
            Ok(Some(kid)) => Ok(kid),
            Ok(None) => Err(IdentityError::MissingKeyId),
            Err(e) => Err(IdentityError::Token(e)),
        }
    }

    /// Verifies a token that says it was signed with the key `kid`, given the
    /// tenant's keys. A genuine token is refused only when it has expired.
    pub fn verify_with(&self, bearer_token: &str, kid: &str, jwks: &jsonwebtoken::jwk::JwkSet) -> (r: Result<
        CallerIdentity,
        IdentityError,
    >)
        ensures
            match r {
                Ok(caller) => {
                    let accepted = self@.accepted(bearer_token@, kid@, *jwks);
                    &&& accepted is Some
                    &&& is_listing(caller@.claims, accepted->0)
                    &&& caller@ == caller_of(caller@.claims)
                    &&& accepted->0.contains_key("exp"@)
                    &&& claim_names(accepted->0, "iss"@, self@.issuer())
                    &&& claim_names(accepted->0, "aud"@, self@.audience)
                },
                Err(IdentityError::UnknownKey(k)) => k@ == kid@ && published_key(*jwks, kid@) is None,
                Err(IdentityError::Token(e)) => match published_key(*jwks, kid@) {
                    None => false,
                    Some(Err(text)) => token_error_text(e) == text,
                    Some(Ok(key)) => self@.genuine(bearer_token@, key) is Some ==> token_error_text(e)
                        == expired_text(),
                },
                Err(IdentityError::MissingKeyId) => false,
            },
    {
        match jwks.find(kid) {
            None => Err(IdentityError::UnknownKey(kid.to_owned())),
            Some(jwk) => {
                proof {
                    let i = choose|i: int| #[trigger] first_key(*jwks, kid@, i) && *jwk == keys_of(*jwks)[i];
                    let k = choose|k: int| first_key(*jwks, kid@, k);
                    lemma_first_key_unique(*jwks, kid@, i, k);
                }
                match jsonwebtoken::DecodingKey::from_jwk(jwk) {
                    Err(e) => Err(IdentityError::Token(e)),
                    Ok(key) => {
                        let issuer = self.issuer();
                        let required = list_required_claims();
                        proof {
                            let names = required_claims();
                            assert(names[0] == "exp"@ && names[1] == "iss"@ && names[2] == "aud"@);
                        }
                        match decode_claims(
                            bearer_token,
                            &key,
                            SIGNING_ALGORITHM,
                            &required,
                            self.audience.as_str(),
                            issuer.as_str(),
                        ) {
                            Err(e) => Err(IdentityError::Token(e)),
                            Ok(claims) => Ok(identity_from_claims(claims)),
                        }
                    },
                }
            },
        }
    }
}

proof fn lemma_first_key_unique(set: jsonwebtoken::jwk::JwkSet, kid: Seq<char>, i: int, k: int)
    requires
        first_key(set, kid, i),
        first_key(set, kid, k),
    ensures
        i == k,
{
    if i < k {
        assert(id_of(keys_of(set)[i]) != Some(kid));
    } else if k < i {
        assert(id_of(keys_of(set)[k]) != Some(kid));
    }
}

/// A key set that was fetched at one uptime may still be used at another.
pub open spec fn within_lifetime(fetched_at: u64, uptime: u64) -> bool {
    uptime < fetched_at + JWKS_TTL_NANOS
}

/// Whether a key set that was fetched at `fetched_at` may still be used. Both
/// times count from the start of the program, in nanoseconds.
pub fn keys_are_fresh(fetched_at: u64, uptime: u64) -> (r: bool)
    ensures
        r == (uptime < fetched_at + JWKS_TTL_NANOS),
        r == within_lifetime(fetched_at, uptime),
{
    uptime < fetched_at || uptime - fetched_at < JWKS_TTL_NANOS
}

/// A token is not accepted when the tenant publishes no key of the identifier
/// it names.
pub proof fn law_unpublished_keys_admit_nobody(
    v: EntraIdVerifierView,
    token: Seq<char>,
    kid: Seq<char>,
    set: jsonwebtoken::jwk::JwkSet,
)
    requires
        forall|i: int| 0 <= i < keys_of(set).len() ==> id_of(#[trigger] keys_of(set)[i]) != Some(kid),
    ensures
        v.accepted(token, kid, set) is None,
{
}

/// A claim is found by its name, the first one if several share it; a name
/// that no claim has is not found.
pub proof fn law_claims_are_found_by_name(
    before: Seq<(Seq<char>, ClaimView)>,
    name: Seq<char>,
    claim: ClaimView,
    rest: Seq<(Seq<char>, ClaimView)>,
)
    requires
        forall|i: int| 0 <= i < before.len() ==> (#[trigger] before[i]).0 != name,
    ensures
        named_claim(before + seq![(name, claim)] + rest, name) == Some(claim),
        named_claim(before, name) is None,
    decreases before.len(),
{
    let all = before + seq![(name, claim)] + rest;
    if before.len() == 0 {
        assert(all[0] == (name, claim));
    } else {
        let shorter = before.drop_first();
        assert forall|i: int| 0 <= i < shorter.len() implies (#[trigger] shorter[i]).0 != name by {
            assert(shorter[i] == before[i + 1]);
        }
        law_claims_are_found_by_name(shorter, name, claim, rest);
        assert(before[0].0 != name);
        assert(all[0] == before[0]);
        assert(all.drop_first() =~= shorter + seq![(name, claim)] + rest);
    }
}

/// A token's holder goes by the object identifier, else by the subject, and
/// is unknown where that claim is missing or not a text.
pub proof fn law_object_id_goes_before_subject(claims: Seq<(Seq<char>, ClaimView)>)
    ensures
        ({
            let oid = named_claim(claims, "oid"@);
            let sub = named_claim(claims, "sub"@);
            &&& (oid matches Some(ClaimView::Text(t)) ==> subject_of(claims) == t)
            &&& oid is Some && !(oid->0 is Text) ==> subject_of(claims) == "unknown"@
            &&& oid is None && sub is Some && sub->0 is Text ==> subject_of(claims) == sub->0->Text_0
            &&& oid is None && sub is Some && !(sub->0 is Text) ==> subject_of(claims) == "unknown"@
            &&& oid is None && sub is None ==> subject_of(claims) == "unknown"@
        }),
{
}

/// A token grants the texts that its `roles` list, in order, and no others;
/// without such a list it grants nothing.
pub proof fn law_roles_are_the_listed_texts(
    claims: Seq<(Seq<char>, ClaimView)>,
    items: Seq<Option<Seq<char>>>,
    role: Seq<char>,
)
    ensures
        named_claim(claims, "roles"@) == Some(ClaimView::List(items)) ==> roles_of(claims) == texts_among(items),
        !(named_claim(claims, "roles"@) matches Some(ClaimView::List(_))) ==> roles_of(claims).len() == 0,
        texts_among(Seq::empty()).len() == 0,
        texts_among(items.push(Some(role))) == texts_among(items).push(role),
        texts_among(items.push(None)) == texts_among(items),
{
    assert(items.push(Some(role)).drop_last() =~= items);
    assert(items.push(None).drop_last() =~= items);
}

/// A value is read as the text it holds, or as a list with the text of each
/// item that is one.
pub proof fn law_values_are_read_as_claims(v: serde_json::Value, i: int)
    ensures
        value_text(v) matches Some(t) ==> claim_of(v) == ClaimView::Text(t),
        value_text(v) is None && value_items(v) is None ==> claim_of(v) == ClaimView::Other,
        value_text(v) is None && value_items(v) is Some ==> {
            let items = value_items(v)->0;
            &&& claim_of(v) is List
            &&& claim_of(v)->List_0.len() == items.len()
            &&& 0 <= i < items.len() ==> claim_of(v)->List_0[i] == value_text(items[i])
        },
{
}

/// A caller is whom the claims name, with the roles that they list, and keeps
/// all of them, each read under its own name.
pub proof fn law_caller_is_whom_the_claims_name(claims: Seq<(Seq<char>, serde_json::Value)>, i: int)
    ensures
        caller_of(claims).claims == claims,
        caller_of(claims).subject == subject_of(claims_read(claims)),
        caller_of(claims).roles == roles_of(claims_read(claims)),
        claims_read(claims).len() == claims.len(),
        0 <= i < claims.len() ==> claims_read(claims)[i] == (claims[i].0, claim_of(claims[i].1)),
{
}

/// Keys and issuer are those of the tenant at Entra ID, and a genuine token
/// is signed with RS256, carries an expiry time, an issuer and an audience,
/// and names that issuer and the configured audience.
pub proof fn law_tokens_are_those_of_the_tenant(v: EntraIdVerifierView, token: Seq<char>, key: jsonwebtoken::DecodingKey)
    ensures
        v.jwks_uri() == "https://login.microsoftonline.com/"@ + v.tenant_id + "/discovery/v2.0/keys"@,
        v.issuer() == "https://login.microsoftonline.com/"@ + v.tenant_id + "/v2.0"@,
        required_claims().contains("exp"@),
        required_claims().contains("iss"@),
        required_claims().contains("aud"@),
        required_claims().len() == 3,
        v.genuine(token, key) == signed_claims(
            token,
            key,
            "RS256"@,
            required_claims(),
            v.audience,
            "https://login.microsoftonline.com/"@ + v.tenant_id + "/v2.0"@,
        ),
{
    assert(required_claims()[0] == "exp"@);
    assert(required_claims()[1] == "iss"@);
    assert(required_claims()[2] == "aud"@);
}

/// A token is checked against the first published key of the identifier that
/// it names.
pub proof fn law_first_published_key_counts(set: jsonwebtoken::jwk::JwkSet, kid: Seq<char>, i: int)
    requires
        0 <= i < keys_of(set).len(),
        id_of(keys_of(set)[i]) == Some(kid),
        forall|j: int| 0 <= j < i ==> id_of(#[trigger] keys_of(set)[j]) != Some(kid),
    ensures
        published_key(set, kid) == Some(verification_key(keys_of(set)[i])),
{
    assert(first_key(set, kid, i));
    let k = choose|k: int| first_key(set, kid, k);
    lemma_first_key_unique(set, kid, i, k);
}

/// A refused token is told why.
pub proof fn law_identity_errors_say_why(kid: Seq<char>, e: jsonwebtoken::errors::Error)
    ensures
        IdentityErrorView::MissingKeyId.message() == "token header missing 'kid'"@,
        IdentityErrorView::UnknownKey(kid).message() == "no matching signing key for kid "@ + quoted_text(kid),
        IdentityErrorView::Token(e).message() == token_error_text(e),
{
}

/// A key set is used for an hour after it was fetched, and not a nanosecond
/// longer; one that seems to come from the future is used.
pub proof fn law_keys_are_used_for_an_hour(fetched_at: u64, uptime: u64)
    ensures
        uptime < fetched_at + 3_600_000_000_000 ==> within_lifetime(fetched_at, uptime),
        uptime >= fetched_at + 3_600_000_000_000 ==> !within_lifetime(fetched_at, uptime),
{
}

/// Claims are read one by one, in order, each under its own name.
pub proof fn law_claims_are_read_in_order(
    claims: Seq<(String, Claim)>,
    outside: Seq<(String, serde_json::Value)>,
    i: int,
)
    ensures
        readings(claims).len() == claims.len(),
        0 <= i < claims.len() ==> readings(claims)[i] == (claims[i].0@, claims[i].1@),
        claim_views(outside).len() == outside.len(),
        0 <= i < outside.len() ==> claim_views(outside)[i] == (outside[i].0@, outside[i].1),
{
}

} // verus!

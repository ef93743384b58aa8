//! Cloud provider interfaces. The control plane depends on these alone, never
//! on a provider's own types: secrets it needs itself, the identity of those
//! who call its REST API, and a sink for business events.
//!
//! Each method comes with the relation that its calls keep.

pub mod azure;
pub mod mock;

use crate::text::texts;
use vstd::prelude::*;

verus! {

/// A JSON value of the outside world.
#[verifier::external_type_specification]
#[verifier::external_body]
pub struct ExValue(serde_json::Value);

/// What came back of a request for a text.
pub open spec fn text_reply(r: Result<String, String>) -> Result<Seq<char>, Seq<char>> {
    match r {
        Ok(t) => Ok(t@),
        Err(e) => Err(e@),
    }
}

/// Resolves secrets the control plane itself needs at run time. An error is
/// the text that explains it.
pub trait SecretsProvider: Sized {
    spec fn secret_given(self, name: Seq<char>, reply: Result<Seq<char>, Seq<char>>) -> bool;

    fn get_secret(&self, name: &str) -> (r: Result<String, String>)
        ensures
            self.secret_given(name@, text_reply(r)),
    ;
}

/// Who calls the REST API.
#[derive(Clone, Debug)]
pub struct CallerIdentity {
    /// Whom the token was issued to.
    pub subject: String,
    /// The roles granted to the caller.
    pub roles: Vec<String>,
    /// Everything the token claims, by name.
    pub claims: Vec<(String, serde_json::Value)>,
}

pub struct CallerIdentityView {
    pub subject: Seq<char>,
    pub roles: Seq<Seq<char>>,
    pub claims: Seq<(Seq<char>, serde_json::Value)>,
}

/// Named claims with their names as characters.
pub open spec fn claim_views(v: Seq<(String, serde_json::Value)>) -> Seq<(Seq<char>, serde_json::Value)> {
    v.map_values(|c: (String, serde_json::Value)| (c.0@, c.1))
}

impl View for CallerIdentity {
    type V = CallerIdentityView;

    open spec fn view(&self) -> CallerIdentityView {
        CallerIdentityView {
            subject: self.subject@,
            roles: texts(self.roles@),
            claims: claim_views(self.claims@),
        }
    }
}

impl Default for CallerIdentity {
    fn default() -> (r: Self)
        ensures
            r@ == (CallerIdentityView { subject: Seq::empty(), roles: Seq::empty(), claims: Seq::empty() }),
    {
        let r = CallerIdentity { subject: String::new(), roles: Vec::new(), claims: Vec::new() };
        assert(r@.roles =~= Seq::empty());
        assert(r@.claims =~= Seq::empty());
        r
    }
}

/// What came back of a verification.
pub open spec fn identity_reply(r: Result<CallerIdentity, String>) -> Result<CallerIdentityView, Seq<char>> {
    match r {
        Ok(c) => Ok(c@),
        Err(e) => Err(e@),
    }
}

/// Verifies a bearer token presented to the REST API. An error is the text
/// that explains it.
pub trait IdentityVerifier: Sized {
    spec fn verified(self, bearer_token: Seq<char>, reply: Result<CallerIdentityView, Seq<char>>) -> bool;

    fn verify(&self, bearer_token: &str) -> (r: Result<CallerIdentity, String>)
        ensures
            self.verified(bearer_token@, identity_reply(r)),
    ;
}

/// Named properties with their texts as characters.
pub open spec fn property_views(v: Seq<(String, String)>) -> Seq<(Seq<char>, Seq<char>)> {
    v.map_values(|p: (String, String)| (p.0@, p.1@))
}

/// Emits a named business event with properties.
pub trait TelemetrySink: Sized {
    spec fn emitted(self, event_name: Seq<char>, properties: Seq<(Seq<char>, Seq<char>)>, post: Self) -> bool;

    fn emit(&mut self, event_name: &str, properties: Vec<(String, String)>)
        ensures
            old(self).emitted(event_name@, property_views(properties@), *final(self)),
    ;
}

/// What a contract says of a caller and of named properties is what their own
/// fields hold, in order.
pub proof fn law_callers_and_properties_are_read_in_order(
    caller: CallerIdentity,
    properties: Seq<(String, String)>,
    i: int,
)
    ensures
        caller@.subject == caller.subject@,
        caller@.roles.len() == caller.roles@.len(),
        0 <= i < caller.roles@.len() ==> caller@.roles[i] == caller.roles@[i]@,
        caller@.claims.len() == caller.claims@.len(),
        0 <= i < caller.claims@.len() ==> caller@.claims[i] == (caller.claims@[i].0@, caller.claims@[i].1),
        property_views(properties).len() == properties.len(),
        0 <= i < properties.len() ==> property_views(properties)[i] == (properties[i].0@, properties[i].1@),
{
}

/// What came back of a call is read as it is.
pub proof fn law_outside_replies_are_read_as_they_are(
    text: Result<String, String>,
    caller: Result<CallerIdentity, String>,
)
    ensures
        text matches Ok(t) ==> text_reply(text) == Ok::<Seq<char>, Seq<char>>(t@),
        text matches Err(e) ==> text_reply(text) == Err::<Seq<char>, Seq<char>>(e@),
        caller matches Ok(c) ==> identity_reply(caller) == Ok::<CallerIdentityView, Seq<char>>(c@),
        caller matches Err(e) ==> identity_reply(caller) == Err::<CallerIdentityView, Seq<char>>(e@),
{
}

} // verus!

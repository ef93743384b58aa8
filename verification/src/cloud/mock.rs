//! Adapters that need no cloud: everybody is let in, secrets are held in
//! memory, and events are dropped.

use super::{CallerIdentity, CallerIdentityView, IdentityVerifier, SecretsProvider, TelemetrySink};
use crate::keyed::KeyedList;
use crate::text::{quoted, quoted_text};
use vstd::prelude::*;

verus! {

/// Accepts every request unauthenticated.
#[derive(Clone, Copy, Debug)]
pub struct NoopIdentityVerifier {}

/// The caller of whom nothing is known, and who may do everything.
pub open spec fn anonymous() -> CallerIdentityView {
    CallerIdentityView {
        subject: "anonymous"@,
        roles: seq!["Tenant.Write"@, "Tenant.Read"@],
        claims: Seq::empty(),
    }
}

impl Default for NoopIdentityVerifier {
    fn default() -> (r: Self)
        ensures
            r == (NoopIdentityVerifier {  }),
    {
        NoopIdentityVerifier {  }
    }
}

impl IdentityVerifier for NoopIdentityVerifier {
    open spec fn verified(self, bearer_token: Seq<char>, reply: Result<CallerIdentityView, Seq<char>>) -> bool {
        reply == Ok::<CallerIdentityView, Seq<char>>(anonymous())
    }

    fn verify(&self, bearer_token: &str) -> (r: Result<CallerIdentity, String>) {
        let c = CallerIdentity {
            subject: "anonymous".to_owned(),
            roles: vec!["Tenant.Write".to_owned(), "Tenant.Read".to_owned()],
            claims: Vec::new(),
        };
        assert(c@.roles =~= anonymous().roles);
        assert(c@.claims =~= anonymous().claims);
        Ok(c)
    }
}

/// Secrets held in memory, seeded at construction.
pub struct InMemorySecretsProvider {
    secrets: KeyedList<String, String>,
}

impl View for InMemorySecretsProvider {
    type V = Map<Seq<char>, Seq<char>>;

    closed spec fn view(&self) -> Map<Seq<char>, Seq<char>> {
        self.secrets@.map_values(|s: String| s@)
    }
}

/// What an in-memory provider says of a secret it does not hold.
pub open spec fn not_found_text(name: Seq<char>) -> Seq<char> {
    "secret "@ + quoted_text(name) + " not found (in-memory provider)"@
}

/// What an in-memory provider answers.
pub open spec fn secret_reply(secrets: Map<Seq<char>, Seq<char>>, name: Seq<char>) -> Result<Seq<char>, Seq<char>> {
    if secrets.contains_key(name) {
        Ok(secrets[name])
    } else {
        Err(not_found_text(name))
    }
}

impl InMemorySecretsProvider {
    pub fn new() -> (r: Self)
        ensures
            r@ == Map::<Seq<char>, Seq<char>>::empty(),
    {
        let r = InMemorySecretsProvider { secrets: KeyedList::new() };
        assert(r@ =~= Map::<Seq<char>, Seq<char>>::empty());
        r
    }

    /// Adds a secret, or replaces the one of that name.
    pub fn with_secret(self, name: &str, value: &str) -> (r: Self)
        ensures
            r@ == self@.insert(name@, value@),
    {
        let mut secrets = self.secrets;
        secrets.insert(name.to_owned(), value.to_owned());
        let r = InMemorySecretsProvider { secrets };
        assert(r@ =~= self@.insert(name@, value@));
        r
    }
}

impl Default for InMemorySecretsProvider {
    fn default() -> (r: Self)
        ensures
            r@ == Map::<Seq<char>, Seq<char>>::empty(),
    {
        InMemorySecretsProvider::new()
    }
}

impl SecretsProvider for InMemorySecretsProvider {
    open spec fn secret_given(self, name: Seq<char>, reply: Result<Seq<char>, Seq<char>>) -> bool {
        reply == secret_reply(self@, name)
    }

    fn get_secret(&self, name: &str) -> (r: Result<String, String>) {
        match self.secrets.get(&name.to_owned()) {
            Some(value) => Ok(value.clone()),
            None => Err("secret ".to_owned().concat(quoted(name).as_str()).concat(" not found (in-memory provider)")),
        }
    }
}

/// Drops events on the floor.
#[derive(Clone, Copy, Debug)]
pub struct NoopTelemetrySink {}

impl Default for NoopTelemetrySink {
    fn default() -> (r: Self)
        ensures
            r == (NoopTelemetrySink {  }),
    {
        NoopTelemetrySink {  }
    }
}

impl TelemetrySink for NoopTelemetrySink {
    open spec fn emitted(self, event_name: Seq<char>, properties: Seq<(Seq<char>, Seq<char>)>, post: Self) -> bool {
        post == self
    }

    fn emit(&mut self, event_name: &str, properties: Vec<(String, String)>) {
    }
}

/// A secret is read back as it was added, whatever else was added before, and
/// adding it changes no other secret.
pub proof fn law_secrets_round_trip(
    secrets: Map<Seq<char>, Seq<char>>,
    name: Seq<char>,
    value: Seq<char>,
    other: Seq<char>,
)
    requires
        other != name,
    ensures
        secret_reply(secrets.insert(name, value), name) == Ok::<Seq<char>, Seq<char>>(value),
        secret_reply(secrets.insert(name, value), other) == secret_reply(secrets, other),
        secret_reply(Map::empty(), name) == Err::<Seq<char>, Seq<char>>(not_found_text(name)),
{
}

/// The anonymous caller goes by that name, may write and read, and claims
/// nothing.
pub proof fn law_anonymous_may_write_and_read()
    ensures
        anonymous().subject == "anonymous"@,
        anonymous().roles.len() == 2,
        anonymous().roles[0] == "Tenant.Write"@,
        anonymous().roles[1] == "Tenant.Read"@,
        anonymous().claims.len() == 0,
{
}

/// A secret that is held is given as it is, and one that is not is named in
/// the error.
pub proof fn law_secret_is_given_or_named(secrets: Map<Seq<char>, Seq<char>>, name: Seq<char>)
    ensures
        secrets.contains_key(name) ==> secret_reply(secrets, name) == Ok::<Seq<char>, Seq<char>>(secrets[name]),
        !secrets.contains_key(name) ==> secret_reply(secrets, name) == Err::<Seq<char>, Seq<char>>(
            "secret "@ + quoted_text(name) + " not found (in-memory provider)"@,
        ),
{
}

} // verus!

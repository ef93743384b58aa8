//! What the program decides at its start, from its arguments and settings.

use crate::cloud::azure::identity::{EntraIdVerifier, EntraIdVerifierView};
use crate::cloud::text_reply;
use crate::text::{after, begins_with, same, strip_prefix, texts};
use vstd::prelude::*;

verus! {

/// The path given with `--kubeconfig`: the first such flag counts, and a flag
/// without a path gives none.
pub open spec fn kubeconfig_in(args: Seq<Seq<char>>) -> Option<Seq<char>>
    decreases args.len(),
{
    if args.len() == 0 {
        None
    } else if args[0] == "--kubeconfig"@ {
        if args.len() > 1 {
            Some(args[1])
        } else {
            None
        }
    } else if begins_with(args[0], "--kubeconfig="@) {
        Some(after(args[0], "--kubeconfig="@.len() as int))
    } else {
        kubeconfig_in(args.drop_first())
    }
}

/// Finds the path given as `--kubeconfig <path>` or `--kubeconfig=<path>`.
pub fn parse_kubeconfig_flag(args: &Vec<String>) -> (r: Option<String>)
    ensures
        match r {
            Some(path) => kubeconfig_in(texts(args@)) == Some(path@),
            None => kubeconfig_in(texts(args@)) is None,
        },
{
    let ghost all = texts(args@);
    let mut i: usize = 0;
    assert(all.skip(0) =~= all);
    while i < args.len()
        invariant
            i <= args@.len(),
            all == texts(args@),
            kubeconfig_in(all) == kubeconfig_in(all.skip(i as int)),
        decreases args@.len() - i,
    {
        assert(all.skip(i as int).drop_first() =~= all.skip(i + 1));
        let arg = args[i].as_str();
        if same(arg, "--kubeconfig") {
            return if i + 1 < args.len() {
                Some(args[i + 1].clone())
            } else {
                None
            };
        }
        match strip_prefix(arg, "--kubeconfig=") {
            Some(path) => return Some(path),
            None => {},
        }
        i = i + 1;
    }
    None
}

/// The address a server binds to: one that names only a port is served on
/// every interface.
pub open spec fn bound_address(addr: Seq<char>) -> Seq<char> {
    if begins_with(addr, ":"@) {
        "0.0.0.0:"@ + after(addr, ":"@.len() as int)
    } else {
        addr
    }
}

/// Completes the address a server binds to.
pub fn bind_addr(addr: &str) -> (r: String)
    ensures
        r@ == bound_address(addr@),
{
    match strip_prefix(addr, ":") {
        Some(port) => "0.0.0.0:".to_owned().concat(port.as_str()),
        None => addr.to_owned(),
    }
}

/// How callers of the REST API are identified.
#[derive(Debug)]
pub enum IdentityChoice {
    /// Everybody is let in.
    Anonymous,
    /// Callers present Entra ID tokens.
    Entra(EntraIdVerifier),
    /// Tokens were asked for, but the settings to verify them are missing: the
    /// program must not start unauthenticated.
    Refuse,
}

pub enum IdentityChoiceView {
    Anonymous,
    Entra(EntraIdVerifierView),
    Refuse,
}

impl View for IdentityChoice {
    type V = IdentityChoiceView;

    open spec fn view(&self) -> IdentityChoiceView {
        match self {
            IdentityChoice::Anonymous => IdentityChoiceView::Anonymous,
            IdentityChoice::Entra(v) => IdentityChoiceView::Entra(v@),
            IdentityChoice::Refuse => IdentityChoiceView::Refuse,
        }
    }
}

/// How callers are identified under the given settings.
pub open spec fn identity_choice(
    mode: Option<&str>,
    tenant_id: Option<&str>,
    audience: Option<&str>,
) -> IdentityChoiceView {
    if mode is Some && mode->0@ == "entra"@ {
        if tenant_id is Some && audience is Some {
            IdentityChoiceView::Entra(
                EntraIdVerifierView { tenant_id: tenant_id->0@, audience: audience->0@ },
            )
        } else {
            IdentityChoiceView::Refuse
        }
    } else {
        IdentityChoiceView::Anonymous
    }
}

/// Chooses how callers are identified.
pub fn choose_identity(mode: Option<&str>, tenant_id: Option<&str>, audience: Option<&str>) -> (r: IdentityChoice)
    ensures
        r@ == identity_choice(mode, tenant_id, audience),
{
    let entra = match mode {
        Some(m) => same(m, "entra"),
        None => false,
    };
    if !entra {
        return IdentityChoice::Anonymous;
    }
    match (tenant_id, audience) {
        (Some(t), Some(a)) => IdentityChoice::Entra(EntraIdVerifier::new(t, a)),
        _ => IdentityChoice::Refuse,
    }
}

/// What the log says of the first look into the key vault.
pub open spec fn key_vault_report(reply: Result<Seq<char>, Seq<char>>) -> Seq<char> {
    match reply {
        Ok(_) => "[boot] Key Vault    → reachable, bootstrap secret resolved"@,
        Err(e) => "[boot] Key Vault    → WARNING: "@ + e
            + " (continuing; only the API auth/tracing paths are hard startup requirements)"@,
    }
}

/// Reports on the first look into the key vault. A secret that cannot be read
/// does not stop the program.
pub fn key_vault_line(reply: &Result<String, String>) -> (r: String)
    ensures
        r@ == key_vault_report(text_reply(*reply)),
{
    match reply {
        Ok(_) => "[boot] Key Vault    → reachable, bootstrap secret resolved".to_owned(),
        Err(e) => "[boot] Key Vault    → WARNING: ".to_owned().concat(e.as_str()).concat(
            " (continuing; only the API auth/tracing paths are hard startup requirements)",
        ),
    }
}

/// With tokens asked for, callers are never let in unauthenticated.
pub proof fn law_entra_mode_never_falls_back(mode: Option<&str>, tenant_id: Option<&str>, audience: Option<&str>)
    ensures
        identity_choice(mode, tenant_id, audience) is Anonymous <==> !(mode is Some && mode->0@ == "entra"@),
{
}

/// An argument that has nothing to do with the path.
pub open spec fn is_other_argument(arg: Seq<char>) -> bool {
    arg != "--kubeconfig"@ && (arg.len() < 13 || arg.subrange(0, 13) != "--kubeconfig="@)
}

/// The path is what follows the first `--kubeconfig`, as the next argument or
/// behind an equals sign, whatever stands before and behind it. Without the
/// flag, or with nothing behind it, there is none.
pub proof fn law_first_kubeconfig_flag_counts(before: Seq<Seq<char>>, path: Seq<char>, rest: Seq<Seq<char>>)
    requires
        forall|i: int| 0 <= i < before.len() ==> is_other_argument(#[trigger] before[i]),
    ensures
        kubeconfig_in(before) is None,
        kubeconfig_in(before + seq!["--kubeconfig"@]) is None,
        kubeconfig_in(before + seq!["--kubeconfig"@, path] + rest) == Some(path),
        kubeconfig_in(before + seq!["--kubeconfig="@ + path] + rest) == Some(path),
    decreases before.len(),
{
    reveal_strlit("--kubeconfig");
    reveal_strlit("--kubeconfig=");
    assert("--kubeconfig"@.len() == 12 && "--kubeconfig="@.len() == 13);
    let bare = before + seq!["--kubeconfig"@];
    let spaced = before + seq!["--kubeconfig"@, path] + rest;
    let joined = before + seq!["--kubeconfig="@ + path] + rest;
    let word = "--kubeconfig="@ + path;
    if before.len() == 0 {
        assert(bare[0] == "--kubeconfig"@ && bare.len() == 1);
        assert(spaced[0] == "--kubeconfig"@ && spaced[1] == path);
        assert(joined[0] == word);
        assert(word.len() >= 13);
        assert(word.subrange(0, 13) =~= "--kubeconfig="@);
        assert(word.skip(13) =~= path);
        assert(word.subrange(13, word.len() as int) =~= path);
    } else {
        assert(is_other_argument(before[0]));
        assert(bare[0] == before[0] && spaced[0] == before[0] && joined[0] == before[0]);
        let shorter = before.drop_first();
        assert forall|i: int| 0 <= i < shorter.len() implies is_other_argument(#[trigger] shorter[i]) by {
            assert(shorter[i] == before[i + 1]);
        }
        law_first_kubeconfig_flag_counts(shorter, path, rest);
        assert(bare.drop_first() =~= shorter + seq!["--kubeconfig"@]);
        assert(spaced.drop_first() =~= shorter + seq!["--kubeconfig"@, path] + rest);
        assert(joined.drop_first() =~= shorter + seq!["--kubeconfig="@ + path] + rest);
    }
}

/// An address that begins with its colon is served on every interface, and any
/// other as it is.
pub proof fn law_bare_port_is_served_everywhere(port: Seq<char>, addr: Seq<char>)
    ensures
        bound_address(":"@ + port) == "0.0.0.0:"@ + port,
        addr.len() == 0 || addr[0] != ':' ==> bound_address(addr) == addr,
{
    reveal_strlit(":");
    assert(":"@.len() == 1 && ":"@[0] == ':');
    let full = ":"@ + port;
    assert(full.subrange(0, 1) =~= ":"@);
    assert(full.subrange(1, full.len() as int) =~= port);
    assert(full.skip(1) =~= port);
    if begins_with(addr, ":"@) {
        assert(addr.subrange(0, 1)[0] == ':');
    }
}

/// Entra ID tokens are verified for the tenant and the audience that the
/// settings name, and the program refuses to start where either is missing.
pub proof fn law_entra_settings_are_taken_over(mode: &str, tenant_id: Option<&str>, audience: Option<&str>)
    requires
        mode@ == "entra"@,
    ensures
        ({
            let choice = identity_choice(Some(mode), tenant_id, audience);
            &&& choice is Refuse <==> tenant_id is None || audience is None
            &&& choice is Entra <==> tenant_id is Some && audience is Some
            &&& choice is Entra ==> choice->Entra_0.tenant_id == tenant_id->0@
            &&& choice is Entra ==> choice->Entra_0.audience == audience->0@
        }),
{
}

/// The report on the key vault says that it was reached, or why not.
pub proof fn law_key_vault_report_says_why(secret: Seq<char>, why: Seq<char>)
    ensures
        key_vault_report(Ok(secret)) == "[boot] Key Vault    → reachable, bootstrap secret resolved"@,
        key_vault_report(Err(why)) == "[boot] Key Vault    → WARNING: "@ + why
            + " (continuing; only the API auth/tracing paths are hard startup requirements)"@,
{
}

} // verus!

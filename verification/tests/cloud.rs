use jsonwebtoken::jwk::JwkSet;
use jsonwebtoken::{encode, Algorithm, EncodingKey, Header};
use vanguard::boot::{bind_addr, choose_identity, key_vault_line, parse_kubeconfig_flag, IdentityChoice};
use vanguard::cloud::azure::identity::{
    identity_from_claims, keys_are_fresh, read_claim, roles_from_claims, subject_from_claims, Claim, EntraIdVerifier,
    IdentityError, JWKS_TTL_NANOS,
};
use vanguard::cloud::azure::monitor::AzureMonitorTelemetrySink;
use vanguard::cloud::mock::{InMemorySecretsProvider, NoopIdentityVerifier, NoopTelemetrySink};
use vanguard::cloud::{CallerIdentity, IdentityVerifier, SecretsProvider, TelemetrySink};

/// A key pair that exists for these tests alone.
const SIGNING_KEY_DER: &str = "308204a20201000282010100c232cd6e25636838a76cc30becf54373ac4deab1a63ddf8eb27c82a4a228b63cb94880c9 \
    5718232ac9d8610ea9b793e316c1b7c16baea565e5cdf80dabc457cfeddbc8e3c4b174f8689ded83f6a63fe9194fe7ce \
    8b0e3df89f75e02df0621b7784a016e2d08c32537a637bfb8c3ff3cbc83b358bbb597528d319574575e7a75cca37b653 \
    fc4888ac460f673ed472a6c6dd3ac13d87dbefae2ca55da95c8ccd421c6fb910df79dda447e919ab64ddcedd4af13908 \
    8d94a65cb3abb32d06a0d58594eb28082820aebde79715ec93953d700d68aea45115278ac7071159eb875cf393a5feb7 \
    7310d1293531f1bee356332cdc237af2168178177d9d0f69722bae930203010001028201002536f51529870e3ee51ebb \
    95fa77d9d03df1c48afcaf98bad0cb7981b12d9a16b2ef08f70c80aca4937faac1d3964179e02f8956409b7c48b5ac2d \
    dff8cdac824533bc20a1dddbeb8aa8d10e5be2ea16726a54a2c915169d2179c657275cb5a4c6bea3041e30efa7fda938 \
    e630af44ba058a0b2dd6de42cc6affcd309b72a428973c55647b559d334082f248ba282547b1804b94c0667985e55d7a \
    77576b5f0122ae2e3180a80375a0bcf773bf00cafd3203796fb5fc2864240bc38e335fffcb7938932ce1020c030f1311 \
    7d07461ac6065c97b805a4a35fcad22ec6e18507d81f58900b8522d97a9031a9432dfcebbed380d2ab0a6b3839977d07 \
    74308da81102818100f2279a9a0cb844dddd14ef309f1907ac45a5fc55ae2165299e21f35c56ae679426f2b7f550890d \
    c491a9ec67d4f84e9eee8404f46bd86e1e810ddf094bbd1ca74d8fb8c680ebe56e01f675f38f12375f051f3910edc0de \
    89cd2219fa72d5671cc0cdc7d174b466db262b7565fb9af15e4775d1048c82de77b66b0b01dab92e8b02818100cd4d44 \
    6a86afde85a01ccca7a608c53ec71dc98d5e03cd4ed3ca4b092ae974fa389b0d7778d051611fe2437cf41cd29d5eacef \
    32b2e947d499cd1b5742fceef50c0f4b067473bb29e123f23826ac1dcf9e37aed776651f3019782a7412cc6402aa4ec2 \
    3314d6375b7f8f45a3f405565175c368e8089d0280a86c7035c601c91902818067a94a867dc178419dbdb37315f86a0f \
    76354b23068ae73a7ca63dfe9e60c498685fe91e0bdecfd5012243c0632bf4c41688cf722ea494e75c09ab1bd89f591f \
    c99527dd5a1d21b709020f9636fdee542fe620d0bd669e1d518232aac2f3d5d33a3a1d3aee01b8324251c24ce8fb782e \
    0adb45a1f3e0a6098b3ea194a6a4356702818045598674dd8e67028875720467a7aac96c0579e2111203b64f00949c42 \
    2c9e612fe1e088acfce1a0875ead21766c8e10aebc88087e3b231283e9af04a9123bbdf716eb6700cb5f3be45b7a24d1 \
    9b6e6e85a9959c1ed845d2bfa7c1df77c2273e673d37887dcf66dfb7953417100505857adc4981a7f731b33831792e10 \
    f6e57102818031ee161b0bfb877863444a27eacc83820619f6cc962ea05fd10b7b142f603e88e987961e4c96143215b5 \
    44362e9c570f7f471c4e3a729268d16ec85d5ce014e44dd6db83d234fb3e3319869ea3bbf78449c8893ef86c3b6ed207 \
    e455520a99d72ed31eff6840b4a996c23f93e0e5001c392269453682cde0a2a9789538b28ff8";

const MODULUS: &str = "wjLNbiVjaDinbMML7PVDc6xN6rGmPd-OsnyCpKIotjy5SIDJVxgjKsnYYQ6pt5PjFsG3wWuupWXlzfgNq8RXz-3byOPEsXT4 \
    aJ3tg_amP-kZT-fOiw49-J914C3wYht3hKAW4tCMMlN6Y3v7jD_zy8g7NYu7WXUo0xlXRXXnp1zKN7ZT_EiIrEYPZz7UcqbG \
    3TrBPYfb764spV2pXIzNQhxvuRDfed2kR-kZq2Tdzt1K8TkIjZSmXLOrsy0GoNWFlOsoCCggrr3nlxXsk5U9cA1orqRRFSeK \
    xwcRWeuHXPOTpf63cxDRKTUx8b7jVjMs3CN68haBeBd9nQ9pciuukw";

fn signing_key() -> EncodingKey {
    let digits: Vec<u32> = SIGNING_KEY_DER.chars().filter_map(|c| c.to_digit(16)).collect();
    let der: Vec<u8> = digits.chunks(2).map(|d| (d[0] * 16 + d[1]) as u8).collect();
    EncodingKey::from_rsa_der(&der)
}

fn key_set() -> JwkSet {
    let modulus: String = MODULUS.chars().filter(|c| !c.is_whitespace()).collect();
    serde_json::from_str(&format!(
        "{{\"keys\":[{{\"kty\":\"RSA\",\"kid\":\"other\",\"n\":\"AQAB\",\"e\":\"AQAB\"}},\
         {{\"kty\":\"RSA\",\"kid\":\"k1\",\"n\":\"{modulus}\",\"e\":\"AQAB\"}},\
         {{\"kty\":\"RSA\",\"kid\":\"broken\",\"n\":\"!\",\"e\":\"AQAB\"}}]}}"
    ))
    .unwrap()
}

fn token(claims: &str, kid: Option<&str>) -> String {
    token_signed_with(Algorithm::RS256, claims, kid)
}

fn token_signed_with(algorithm: Algorithm, claims: &str, kid: Option<&str>) -> String {
    let mut header = Header::new(algorithm);
    header.kid = kid.map(|k| k.to_string());
    let claims: serde_json::Value = serde_json::from_str(claims).unwrap();
    encode(&header, &claims, &signing_key()).unwrap()
}

fn contoso() -> EntraIdVerifier {
    EntraIdVerifier::new("contoso", "api://vanguard")
}

const GOOD: &str = r#"{"exp":4102444800,"iss":"https://login.microsoftonline.com/contoso/v2.0",
    "aud":"api://vanguard","oid":"o-1","sub":"s-1","roles":["Tenant.Write",7,"Tenant.Read"]}"#;

#[test]
fn noop_identity_verifier_accepts_anything() {
    let v = NoopIdentityVerifier::default();
    let id = v.verify("garbage-token").unwrap();
    assert_eq!(id.subject, "anonymous");
    assert_eq!(id.roles, vec!["Tenant.Write".to_string(), "Tenant.Read".to_string()]);
    assert!(id.claims.is_empty());
}

#[test]
fn in_memory_secrets_provider_roundtrips() {
    let p = InMemorySecretsProvider::new().with_secret("admin-token", "s3cr3t");
    assert_eq!(p.get_secret("admin-token").unwrap(), "s3cr3t");
    assert!(p.get_secret("missing").is_err());
    assert_eq!(
        p.get_secret("missing").unwrap_err(),
        "secret \"missing\" not found (in-memory provider)"
    );
    let p = p.with_secret("admin-token", "other").with_secret("b", "c");
    assert_eq!(p.get_secret("admin-token").unwrap(), "other");
}

#[test]
fn noop_telemetry_takes_every_event() {
    let mut sink = NoopTelemetrySink::default();
    sink.emit("Anything", vec![("a".to_string(), "b".to_string())]);
}

#[test]
fn telemetry_properties_are_a_json_object() {
    let sink = AzureMonitorTelemetrySink::default();
    let text = sink.properties_field(vec![
        ("tenantId".to_string(), "a\"b".to_string()),
        ("callerSubject".to_string(), "eve".to_string()),
    ]);
    assert_eq!(text, "{\"callerSubject\":\"eve\",\"tenantId\":\"a\\\"b\"}");
    assert_eq!(sink.properties_field(Vec::new()), "{}");
    let twice = vec![("a".to_string(), "first".to_string()), ("a".to_string(), "last".to_string())];
    assert_eq!(sink.properties_field(twice), "{\"a\":\"last\"}");
    let many = ["b", "ab", "é", "a", "", "b", "aa"];
    let mixed = many.iter().enumerate().map(|(i, k)| (k.to_string(), i.to_string())).collect();
    assert_eq!(
        sink.properties_field(mixed),
        "{\"\":\"4\",\"a\":\"3\",\"aa\":\"6\",\"ab\":\"1\",\"b\":\"5\",\"é\":\"2\"}"
    );
}

#[test]
fn verifier_knows_its_tenant() {
    let v = contoso();
    assert_eq!(v.jwks_uri(), "https://login.microsoftonline.com/contoso/discovery/v2.0/keys");
    assert_eq!(v.issuer(), "https://login.microsoftonline.com/contoso/v2.0");
}

#[test]
fn key_id_is_read_from_the_header() {
    let v = contoso();
    assert_eq!(v.key_id(&token(GOOD, Some("k1"))).unwrap(), "k1");
    let e = v.key_id(&token(GOOD, None)).unwrap_err();
    assert!(matches!(e, IdentityError::MissingKeyId));
    assert_eq!(e.message(), "token header missing 'kid'");
    let e = v.key_id("garbage").unwrap_err();
    assert!(matches!(e, IdentityError::Token(_)));
    assert_eq!(e.message(), "InvalidToken");
}

#[test]
fn signed_tokens_name_their_caller() {
    let caller = contoso().verify_with(&token(GOOD, Some("k1")), "k1", &key_set()).unwrap();
    assert_eq!(caller.subject, "o-1");
    assert_eq!(caller.roles, vec!["Tenant.Write".to_string(), "Tenant.Read".to_string()]);
    assert_eq!(caller.claims.len(), 6);
    assert!(caller.claims.iter().any(|(k, v)| k == "sub" && v.as_str() == Some("s-1")));
}

#[test]
fn unknown_and_broken_keys_are_refused() {
    let v = contoso();
    let t = token(GOOD, Some("k1"));
    let e = v.verify_with(&t, "k\"2", &key_set()).unwrap_err();
    assert!(matches!(&e, IdentityError::UnknownKey(k) if k == "k\"2"));
    assert_eq!(e.message(), "no matching signing key for kid \"k\\\"2\"");
    let e = v.verify_with(&t, "broken", &key_set()).unwrap_err();
    assert!(matches!(&e, IdentityError::Token(_)));
    assert!(e.message().starts_with("Base64 error: "), "{}", e.message());
    let e = v.verify_with(&t, "other", &key_set()).unwrap_err();
    assert_eq!(e.message(), "InvalidSignature");
}

fn refusal(claims: &str) -> String {
    contoso().verify_with(&token(claims, Some("k1")), "k1", &key_set()).unwrap_err().message()
}

#[test]
fn foreign_expired_and_timeless_tokens_are_refused() {
    assert_eq!(refusal(r#"{"exp":4102444800,"iss":"https://evil","aud":"api://vanguard"}"#), "InvalidIssuer");
    assert_eq!(refusal(&ours(r#""exp":4102444800,"aud":"api://other""#)), "InvalidAudience");
    assert_eq!(refusal(&ours(r#""exp":1000,"aud":"api://vanguard""#)), "ExpiredSignature");
    assert_eq!(refusal(&ours(r#""aud":"api://vanguard""#)), "Missing required claim: exp");
}

/// Claims with our tenant as the issuer.
fn ours(claims: &str) -> String {
    format!("{{\"iss\":\"https://login.microsoftonline.com/contoso/v2.0\",{claims}}}")
}

#[test]
fn tokens_without_issuer_or_audience_are_refused() {
    assert_eq!(refusal(r#"{"exp":4102444800,"aud":"api://vanguard"}"#), "Missing required claim: iss");
    assert_eq!(refusal(&ours(r#""exp":4102444800"#)), "Missing required claim: aud");
    assert_eq!(refusal(&ours(r#""exp":4102444800,"aud":null"#)), "Missing required claim: aud");
    assert_eq!(refusal(&ours(r#""exp":4102444800,"aud":7"#)), "Missing required claim: aud");
}

#[test]
fn listed_audiences_have_to_hold_ours() {
    let accepted = ours(r#""exp":4102444800,"aud":["api://other","api://vanguard"],"sub":"s-1""#);
    let caller = contoso().verify_with(&token(&accepted, Some("k1")), "k1", &key_set()).unwrap();
    assert_eq!(caller.subject, "s-1");
    assert_eq!(refusal(&ours(r#""exp":4102444800,"aud":["api://other"]"#)), "InvalidAudience");
    assert_eq!(refusal(&ours(r#""exp":4102444800,"aud":[]"#)), "InvalidAudience");
}

#[test]
fn listed_issuers_have_to_hold_ours() {
    let issuers = |list: &str| format!("{{\"exp\":4102444800,\"aud\":\"api://vanguard\",\"sub\":\"s-1\",\"iss\":{list}}}");
    let accepted = issuers(r#"["https://login.microsoftonline.com/contoso/v2.0"]"#);
    let caller = contoso().verify_with(&token(&accepted, Some("k1")), "k1", &key_set()).unwrap();
    assert_eq!(caller.subject, "s-1");
    assert_eq!(refusal(&issuers(r#"["https://evil"]"#)), "InvalidIssuer");
}

#[test]
fn subjects_and_roles_are_read_from_plain_claims() {
    let claims = |list: Vec<(&str, Claim)>| -> Vec<(String, Claim)> {
        list.into_iter().map(|(k, c)| (k.to_string(), c)).collect()
    };
    let text = |s: &str| Claim::Text(s.to_string());
    assert_eq!(subject_from_claims(&claims(vec![("sub", text("s")), ("oid", text("o"))])), "o");
    assert_eq!(subject_from_claims(&claims(vec![("sub", text("s"))])), "s");
    assert_eq!(subject_from_claims(&claims(vec![("sub", text("s")), ("oid", Claim::Other)])), "unknown");
    assert_eq!(subject_from_claims(&claims(vec![])), "unknown");
    let list = Claim::List(vec![Some("a".to_string()), None, Some("b".to_string())]);
    assert_eq!(roles_from_claims(&claims(vec![("roles", list)])), vec!["a".to_string(), "b".to_string()]);
    assert!(roles_from_claims(&claims(vec![("roles", text("a"))])).is_empty());
    assert!(roles_from_claims(&claims(vec![])).is_empty());
}

#[test]
fn json_values_are_read_as_claims() {
    let value = |s: &str| -> serde_json::Value { serde_json::from_str(s).unwrap() };
    assert!(matches!(read_claim(&value("\"x\"")), Claim::Text(t) if t == "x"));
    assert!(matches!(read_claim(&value("[\"x\",1]")), Claim::List(v) if v == vec![Some("x".to_string()), None]));
    assert!(matches!(read_claim(&value("7")), Claim::Other));
    let id = identity_from_claims(vec![
        ("roles".to_string(), value("[[\"no\"],\"yes\"]")),
        ("oid".to_string(), value("null")),
    ]);
    assert_eq!(id.subject, "unknown");
    assert_eq!(id.roles, vec!["yes".to_string()]);
    assert_eq!(id.claims.len(), 2);
}

#[test]
fn key_sets_are_kept_for_an_hour() {
    assert!(keys_are_fresh(5, 5));
    assert!(keys_are_fresh(5, 4 + JWKS_TTL_NANOS));
    assert!(!keys_are_fresh(5, 5 + JWKS_TTL_NANOS));
    assert!(keys_are_fresh(u64::MAX, 0));
}

// ─── Start-up decisions ───────────────────────────────────────────────────────

fn flag(args: &[&str]) -> Option<String> {
    parse_kubeconfig_flag(&args.iter().map(|a| a.to_string()).collect())
}

#[test]
fn kubeconfig_flag_is_found_in_both_forms() {
    assert_eq!(flag(&["vanguard"]), None);
    assert_eq!(flag(&["vanguard", "--kubeconfig", "/a"]), Some("/a".to_string()));
    assert_eq!(flag(&["vanguard", "--kubeconfig=/b", "--kubeconfig", "/a"]), Some("/b".to_string()));
    assert_eq!(flag(&["vanguard", "--kubeconfig"]), None);
    assert_eq!(flag(&["vanguard", "--kubeconfig="]), Some(String::new()));
    assert_eq!(flag(&["--kubeconfig", "--kubeconfig=/c"]), Some("--kubeconfig=/c".to_string()));
}

#[test]
fn a_bare_port_is_served_everywhere() {
    assert_eq!(bind_addr(":8081"), "0.0.0.0:8081");
    assert_eq!(bind_addr("127.0.0.1:80"), "127.0.0.1:80");
    assert_eq!(bind_addr(""), "");
}

#[test]
fn tokens_are_required_when_asked_for() {
    assert!(matches!(choose_identity(None, Some("t"), Some("a")), IdentityChoice::Anonymous));
    assert!(matches!(choose_identity(Some("none"), None, None), IdentityChoice::Anonymous));
    assert!(matches!(choose_identity(Some("entra"), Some("t"), None), IdentityChoice::Refuse));
    assert!(matches!(choose_identity(Some("entra"), None, Some("a")), IdentityChoice::Refuse));
    match choose_identity(Some("entra"), Some("t"), Some("a")) {
        IdentityChoice::Entra(v) => assert_eq!(v.issuer(), "https://login.microsoftonline.com/t/v2.0"),
        _ => panic!("must verify tokens"),
    }
}

#[test]
fn the_key_vault_probe_is_reported() {
    assert_eq!(
        key_vault_line(&Ok("x".to_string())),
        "[boot] Key Vault    → reachable, bootstrap secret resolved"
    );
    assert_eq!(
        key_vault_line(&Err("denied".to_string())),
        "[boot] Key Vault    → WARNING: denied (continuing; only the API auth/tracing paths are hard startup \
         requirements)"
    );
}

#[test]
fn a_copied_caller_is_the_same_caller() {
    let caller = contoso().verify_with(&token(GOOD, Some("k1")), "k1", &key_set()).unwrap();
    let copy: CallerIdentity = caller.clone();
    assert_eq!(copy.subject, caller.subject);
    assert_eq!(copy.roles, caller.roles);
    assert_eq!(copy.claims, caller.claims);
}

#[test]
fn only_the_tenants_own_algorithm_is_accepted() {
    for algorithm in [Algorithm::RS384, Algorithm::RS512, Algorithm::PS256] {
        let t = token_signed_with(algorithm, GOOD, Some("k1"));
        let e = contoso().verify_with(&t, "k1", &key_set()).unwrap_err();
        assert_eq!(e.message(), "InvalidAlgorithm");
    }
}

#[test]
fn a_genuine_token_is_refused_only_when_it_has_expired() {
    let claims = |exp: &str| ours(&format!("\"exp\":{exp},\"aud\":\"api://vanguard\",\"nbf\":4102444800"));
    assert_eq!(refusal(&claims("1000")), "ExpiredSignature");
    let t = token(&claims("4102444800"), Some("k1"));
    assert_eq!(contoso().verify_with(&t, "k1", &key_set()).unwrap().subject, "unknown");
}

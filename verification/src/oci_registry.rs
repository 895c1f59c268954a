//! The registry digest-resolution protocol: building manifest URLs,
//! computing authorization headers, parsing WWW-Authenticate challenges,
//! and the three-tier fetch strategy, modelled as a state machine over
//! plain response data. A driver performs each requested HTTP GET and
//! hands the response facts back to the machine.

use vstd::prelude::*;
use vstd::string::StrSliceExecFns;
use vstd::string::StringExecFns;
use crate::config::{RegistrySecret, RegistrySecretView};
use crate::image_reference::ImageReference;
use crate::text::{
    find_first, lemma_find_first_props, seq_contains_char, str_eq, str_find_first,
};

verus! {

/// Why a digest fetch failed.
#[derive(Debug, PartialEq, Eq, Structural, Clone, Copy)]
pub enum FetchError {
    /// A success response carried no `Docker-Content-Digest` header.
    MissingDigestHeader,
    /// The registry answered with an unexpected HTTP status.
    RegistryError(u16),
    /// The `WWW-Authenticate` challenge was missing a required field.
    MalformedChallenge,
    /// The token endpoint answered with a non-success status.
    TokenExchangeFailed(u16),
    /// The token endpoint's success response held no `token` field.
    MalformedTokenResponse,
    /// The repository path has no second segment to build the
    /// repository-path fallback URL from.
    MalformedRepository,
}

/// The accept header sent with every manifest request, naming the OCI
/// manifest and image-index media types.
pub fn oci_accept_header() -> (r: &'static str)
    ensures
        r@ == "application/vnd.oci.image.manifest.v1+json, application/vnd.oci.image.index.v1+json"@,
{
    "application/vnd.oci.image.manifest.v1+json, application/vnd.oci.image.index.v1+json"
}

/// `docker.io` answers the v2 API on `registry-1.docker.io`; every other
/// hostname is kept as it is.
pub open spec fn spec_rewrite_registry(s: Seq<char>) -> Seq<char> {
    if s == "docker.io"@ {
        "registry-1.docker.io"@
    } else {
        s
    }
}

/// Rewrites `docker.io` to `registry-1.docker.io`, mimicking the container
/// runtime's wire behaviour.
pub fn rewrite_docker_io_registry_target(registry: &str) -> (r: String)
    ensures
        r@ == spec_rewrite_registry(registry@),
{
    if str_eq(registry, "docker.io") {
        String::from_str("registry-1.docker.io")
    } else {
        registry.to_owned()
    }
}

/// The manifest endpoint for a tag: `https://{registry}/v2/{repository}/manifests/{tag}`.
pub open spec fn spec_manifest_url(registry: Seq<char>, repository: Seq<char>, tag: Seq<char>) -> Seq<
    char,
> {
    "https://"@ + registry + "/v2/"@ + repository + "/manifests/"@ + tag
}

/// Builds the manifest URL for a tag.
pub fn manifest_url(registry: &str, repository: &str, tag: &str) -> (r: String)
    ensures
        r@ == spec_manifest_url(registry@, repository@, tag@),
{
    String::from_str("https://").concat(registry).concat("/v2/").concat(repository).concat(
        "/manifests/",
    ).concat(tag)
}

/// The repository-path fallback URL: the first repository segment selects
/// the artifact repository, and the full repository path follows `/v2/`.
pub open spec fn spec_fallback_url(registry: Seq<char>, repository: Seq<char>, tag: Seq<char>) -> Seq<
    char,
> {
    "https://"@ + registry + "/artifactory/api/docker/"@ + repository.subrange(
        0,
        find_first(repository, '/'),
    ) + "/v2/"@ + repository + "/manifests/"@ + tag
}

/// Builds the repository-path fallback URL for an image whose registry is
/// an artifact repository. Fails when the repository has no second path
/// segment.
pub fn get_artifactory_fallback_url(image: &ImageReference, registry: &str) -> (r: Result<
    String,
    FetchError,
>)
    ensures
        seq_contains_char(image.repository@, '/') ==> (r matches Ok(url) && url@
            == spec_fallback_url(registry@, image.repository@, image.tag@)),
        !seq_contains_char(image.repository@, '/') ==> r == Err::<String, FetchError>(
            FetchError::MalformedRepository,
        ),
{
    fallback_url_for(registry, image.repository.as_str(), image.tag.as_str())
}

/// Whether a sequence of header names holds `x`.
pub open spec fn seq_contains_seq(names: Seq<Seq<char>>, x: Seq<char>) -> bool {
    exists|i: int| 0 <= i < names.len() && names[i] == x
}

/// Whether the response headers carry an Artifactory signature.
pub open spec fn spec_artifactory_signal(names: Seq<Seq<char>>) -> bool {
    seq_contains_seq(names, "x-jfrog-version"@) || seq_contains_seq(names, "x-artifactory-id"@)
        || seq_contains_seq(names, "x-artifactory-node-id"@)
}

/// Whether the lower-cased response header names carry any Artifactory
/// signature header.
pub fn is_artifactory_response(header_names: &Vec<String>) -> (r: bool)
    ensures
        r == spec_artifactory_signal(header_names@.map_values(|s: String| s@)),
{
    let n = header_names.len();
    let ghost names = header_names@.map_values(|s: String| s@);
    let mut i: usize = 0;
    while i < n
        invariant
            0 <= i <= n,
            n == header_names@.len(),
            names == header_names@.map_values(|s: String| s@),
            forall|j: int|
                0 <= j < i ==> #[trigger] names[j] != "x-jfrog-version"@ && names[j]
                    != "x-artifactory-id"@ && names[j] != "x-artifactory-node-id"@,
        decreases n - i,
    {
        let name = header_names[i].as_str();
        if str_eq(name, "x-jfrog-version") || str_eq(name, "x-artifactory-id") || str_eq(
            name,
            "x-artifactory-node-id",
        ) {
            proof {
                assert(names[i as int] == name@);
            }
            return true;
        }
        i = i + 1;
    }
    false
}

/// The authorization header a credential yields: `Bearer` for a static
/// token, `Basic` with the first stored auth entry for a pull secret, and
/// the empty string for no credential.
pub open spec fn spec_authorization_header(s: RegistrySecretView) -> Seq<char> {
    match s {
        RegistrySecretView::Opaque { token, .. } => "Bearer "@ + token,
        RegistrySecretView::ImagePullSecret { docker_config, .. } => "Basic "@ + (if docker_config.auths.len()
            > 0 {
            docker_config.auths[0].auth.auth
        } else {
            Seq::empty()
        }),
        RegistrySecretView::NoAuth => Seq::empty(),
    }
}

/// Computes the authorization header for a credential. A pull secret must
/// hold at least one auth entry; the first one is used.
pub fn get_authorization_header(registry_secret: &RegistrySecret) -> (r: String)
    requires
        registry_secret@ matches RegistrySecretView::ImagePullSecret {
            docker_config,
            ..
        } ==> docker_config.auths.len() > 0,
    ensures
        r@ == spec_authorization_header(registry_secret@),
{
    match registry_secret {
        RegistrySecret::Opaque { token, .. } => {
            String::from_str("Bearer ").concat(token.expose_secret())
        },
        RegistrySecret::ImagePullSecret { docker_config, .. } => {
            String::from_str("Basic ").concat(docker_config.auths[0].auth.auth.expose_secret())
        },
        RegistrySecret::NoAuth => String::new(),
    }
}

/// Whether `c` counts as surrounding whitespace in a challenge field.
pub open spec fn is_ws(c: char) -> bool {
    c == ' ' || c == '\t' || c == '\n' || c == '\r'
}

fn is_ws_exec(c: char) -> (r: bool)
    ensures
        r == is_ws(c),
{
    c == ' ' || c == '\t' || c == '\n' || c == '\r'
}

/// `s` without leading whitespace.
pub open spec fn trim_start_ws(s: Seq<char>) -> Seq<char>
    decreases s.len(),
{
    if s.len() > 0 && is_ws(s[0]) {
        trim_start_ws(s.drop_first())
    } else {
        s
    }
}

/// `s` without trailing whitespace.
pub open spec fn trim_end_ws(s: Seq<char>) -> Seq<char>
    decreases s.len(),
{
    if s.len() > 0 && is_ws(s.last()) {
        trim_end_ws(s.drop_last())
    } else {
        s
    }
}

/// `s` without leading double quotes.
pub open spec fn trim_start_quotes(s: Seq<char>) -> Seq<char>
    decreases s.len(),
{
    if s.len() > 0 && s[0] == '"' {
        trim_start_quotes(s.drop_first())
    } else {
        s
    }
}

/// `s` without trailing double quotes.
pub open spec fn trim_end_quotes(s: Seq<char>) -> Seq<char>
    decreases s.len(),
{
    if s.len() > 0 && s.last() == '"' {
        trim_end_quotes(s.drop_last())
    } else {
        s
    }
}

/// A challenge field cleaned for use: surrounding whitespace is stripped
/// first, then surrounding double quotes.
pub open spec fn spec_clean(s: Seq<char>) -> Seq<char> {
    trim_end_quotes(trim_start_quotes(trim_end_ws(trim_start_ws(s))))
}

proof fn lemma_trim_start_ws_is(s: Seq<char>, k: int)
    requires
        0 <= k <= s.len(),
        forall|j: int| 0 <= j < k ==> is_ws(s[j]),
        k < s.len() ==> !is_ws(s[k]),
    ensures
        trim_start_ws(s) == s.subrange(k, s.len() as int),
    decreases k,
{
    if k == 0 {
        assert(s.subrange(0, s.len() as int) =~= s);
    } else {
        let t = s.drop_first();
        lemma_trim_start_ws_is(t, k - 1);
        assert(t.subrange(k - 1, t.len() as int) =~= s.subrange(k, s.len() as int));
    }
}

proof fn lemma_trim_end_ws_is(s: Seq<char>, k: int)
    requires
        0 <= k <= s.len(),
        forall|j: int| k <= j < s.len() ==> is_ws(s[j]),
        k > 0 ==> !is_ws(s[k - 1]),
    ensures
        trim_end_ws(s) == s.subrange(0, k),
    decreases s.len() - k,
{
    if k == s.len() {
        assert(s.subrange(0, k) =~= s);
    } else {
        let t = s.drop_last();
        lemma_trim_end_ws_is(t, k);
        assert(t.subrange(0, k) =~= s.subrange(0, k));
    }
}

proof fn lemma_trim_start_quotes_is(s: Seq<char>, k: int)
    requires
        0 <= k <= s.len(),
        forall|j: int| 0 <= j < k ==> s[j] == '"',
        k < s.len() ==> s[k] != '"',
    ensures
        trim_start_quotes(s) == s.subrange(k, s.len() as int),
    decreases k,
{
    if k == 0 {
        assert(s.subrange(0, s.len() as int) =~= s);
    } else {
        let t = s.drop_first();
        lemma_trim_start_quotes_is(t, k - 1);
        assert(t.subrange(k - 1, t.len() as int) =~= s.subrange(k, s.len() as int));
    }
}

proof fn lemma_trim_end_quotes_is(s: Seq<char>, k: int)
    requires
        0 <= k <= s.len(),
        forall|j: int| k <= j < s.len() ==> s[j] == '"',
        k > 0 ==> s[k - 1] != '"',
    ensures
        trim_end_quotes(s) == s.subrange(0, k),
    decreases s.len() - k,
{
    if k == s.len() {
        assert(s.subrange(0, k) =~= s);
    } else {
        let t = s.drop_last();
        lemma_trim_end_quotes_is(t, k);
        assert(t.subrange(0, k) =~= s.subrange(0, k));
    }
}

/// Strips surrounding whitespace.
fn trim_ws(s: &str) -> (r: &str)
    ensures
        r@ == trim_end_ws(trim_start_ws(s@)),
{
    let n = s.unicode_len();
    let mut a: usize = 0;
    while a < n && is_ws_exec(s.get_char(a))
        invariant
            0 <= a <= n,
            n == s@.len(),
            forall|j: int| 0 <= j < a ==> is_ws(s@[j]),
        decreases n - a,
    {
        a = a + 1;
    }
    let mut b: usize = n;
    while b > a && is_ws_exec(s.get_char(b - 1))
        invariant
            a <= b <= n,
            n == s@.len(),
            forall|j: int| b <= j < n ==> is_ws(s@[j]),
        decreases b,
    {
        b = b - 1;
    }
    let r = s.substring_char(a, b);
    proof {
        lemma_trim_start_ws_is(s@, a as int);
        let t = s@.subrange(a as int, n as int);
        lemma_trim_end_ws_is(t, b - a);
        assert(t.subrange(0, b - a) =~= s@.subrange(a as int, b as int));
    }
    r
}

/// Strips surrounding double quotes.
fn trim_quotes(s: &str) -> (r: &str)
    ensures
        r@ == trim_end_quotes(trim_start_quotes(s@)),
{
    let n = s.unicode_len();
    let mut a: usize = 0;
    while a < n && s.get_char(a) == '"'
        invariant
            0 <= a <= n,
            n == s@.len(),
            forall|j: int| 0 <= j < a ==> s@[j] == '"',
        decreases n - a,
    {
        a = a + 1;
    }
    let mut b: usize = n;
    while b > a && s.get_char(b - 1) == '"'
        invariant
            a <= b <= n,
            n == s@.len(),
            forall|j: int| b <= j < n ==> s@[j] == '"',
        decreases b,
    {
        b = b - 1;
    }
    let r = s.substring_char(a, b);
    proof {
        lemma_trim_start_quotes_is(s@, a as int);
        let t = s@.subrange(a as int, n as int);
        lemma_trim_end_quotes_is(t, b - a);
        assert(t.subrange(0, b - a) =~= s@.subrange(a as int, b as int));
    }
    r
}

fn clean_field(s: &str) -> (r: &str)
    ensures
        r@ == spec_clean(s@),
{
    trim_quotes(trim_ws(s))
}

/// The pieces of `s` between occurrences of `c`, in order; a string
/// without `c` yields itself as the single piece.
pub open spec fn split_char(s: Seq<char>, c: char) -> Seq<Seq<char>>
    decreases s.len(),
{
    let i = find_first(s, c);
    if !(0 <= i < s.len()) {
        seq![s]
    } else {
        seq![s.subrange(0, i)] + split_char(s.subrange(i + 1, s.len() as int), c)
    }
}

/// Splits `s` on every occurrence of `c`.
pub fn split_on_char(s: &str, c: char) -> (r: Vec<String>)
    ensures
        r@.map_values(|x: String| x@) == split_char(s@, c),
    decreases s@.len(),
{
    let n = s.unicode_len();
    match str_find_first(s, c) {
        None => {
            let mut out: Vec<String> = Vec::new();
            out.push(s.to_owned());
            proof {
                assert(out@.map_values(|x: String| x@) =~= split_char(s@, c));
            }
            out
        },
        Some(i) => {
            proof {
                lemma_find_first_props(s@, c);
            }
            let head = s.substring_char(0, i).to_owned();
            let mut rest = split_on_char(s.substring_char(i + 1, n), c);
            let mut out: Vec<String> = Vec::new();
            out.push(head);
            let ghost rest0 = rest@;
            out.append(&mut rest);
            proof {
                assert(out@.map_values(|x: String| x@) =~= split_char(s@, c));
            }
            out
        },
    }
}

/// The key and value of one challenge field: the part before the first
/// `=` and the part after it, each cleaned; a field without `=` yields
/// nothing.
pub open spec fn spec_field_kv(f: Seq<char>) -> Option<(Seq<char>, Seq<char>)> {
    let e = find_first(f, '=');
    if 0 <= e < f.len() {
        Some((spec_clean(f.subrange(0, e)), spec_clean(f.subrange(e + 1, f.len() as int))))
    } else {
        None
    }
}

/// Whether this field binds `key`.
pub open spec fn field_matches(f: Seq<char>, key: Seq<char>) -> bool {
    match spec_field_kv(f) {
        Some(kv) => kv.0 == key,
        None => false,
    }
}

/// The value bound to `key` by the fields, the last binding winning when
/// a key occurs twice.
pub open spec fn lookup_challenge_param(fields: Seq<Seq<char>>, key: Seq<char>) -> Option<
    Seq<char>,
>
    decreases fields.len(),
{
    if fields.len() == 0 {
        None
    } else if field_matches(fields.last(), key) {
        match spec_field_kv(fields.last()) {
            Some(kv) => Some(kv.1),
            None => None,
        }
    } else {
        lookup_challenge_param(fields.drop_last(), key)
    }
}

proof fn lemma_lookup_param_skip(fields: Seq<Seq<char>>, key: Seq<char>, i: int)
    requires
        0 <= i <= fields.len(),
        forall|j: int| i <= j < fields.len() ==> !field_matches(#[trigger] fields[j], key),
    ensures
        lookup_challenge_param(fields, key) == lookup_challenge_param(
            fields.subrange(0, i),
            key,
        ),
    decreases fields.len() - i,
{
    if i == fields.len() {
        assert(fields.subrange(0, i) =~= fields);
    } else {
        let t = fields.drop_last();
        assert(fields.last() == fields[fields.len() - 1]);
        assert(!field_matches(fields.last(), key));
        lemma_lookup_param_skip(t, key, i);
        assert(t.subrange(0, i) =~= fields.subrange(0, i));
    }
}

fn lookup_challenge_param_exec(fields: &Vec<String>, key: &str) -> (r: Option<String>)
    ensures
        ({
            let fv = fields@.map_values(|x: String| x@);
            match r {
                Some(v) => lookup_challenge_param(fv, key@) == Some(v@),
                None => lookup_challenge_param(fv, key@) == None::<Seq<char>>,
            }
        }),
{
    let ghost fv = fields@.map_values(|x: String| x@);
    let n = fields.len();
    let mut i: usize = n;
    while i > 0
        invariant
            0 <= i <= n,
            n == fields@.len(),
            fv == fields@.map_values(|x: String| x@),
            forall|j: int| i <= j < n ==> !field_matches(#[trigger] fv[j], key@),
        decreases i,
    {
        i = i - 1;
        let field = fields[i].as_str();
        let fn_ = field.unicode_len();
        match str_find_first(field, '=') {
            Some(e) => {
                proof {
                    lemma_find_first_props(field@, '=');
                }
                let key_part = clean_field(field.substring_char(0, e));
                if str_eq(key_part, key) {
                    let value_part = clean_field(field.substring_char(e + 1, fn_));
                    proof {
                        assert(spec_field_kv(fv[i as int]) == Some((key_part@, value_part@)));
                        assert(field_matches(fv[i as int], key@));
                        lemma_lookup_param_skip(fv, key@, i + 1);
                        let sub = fv.subrange(0, i + 1);
                        assert(sub.last() == fv[i as int]);
                        assert(sub.drop_last() =~= fv.subrange(0, i as int));
                    }
                    return Some(value_part.to_owned());
                } else {
                    proof {
                        assert(!field_matches(fv[i as int], key@));
                    }
                }
            },
            None => {
                proof {
                    lemma_find_first_props(field@, '=');
                    assert(spec_field_kv(fv[i as int]) is None);
                    assert(!field_matches(fv[i as int], key@));
                }
            },
        }
    }
    proof {
        lemma_lookup_param_skip(fv, key@, 0);
        assert(fv.subrange(0, 0) =~= Seq::<Seq<char>>::empty());
    }
    None
}

/// The three parameters of a parsed Bearer challenge.
#[derive(Debug)]
pub struct AuthChallenge {
    pub realm: String,
    pub service: String,
    pub scope: String,
}

/// The model of an [`AuthChallenge`].
pub struct AuthChallengeView {
    pub realm: Seq<char>,
    pub service: Seq<char>,
    pub scope: Seq<char>,
}

impl View for AuthChallenge {
    type V = AuthChallengeView;

    open spec fn view(&self) -> AuthChallengeView {
        AuthChallengeView { realm: self.realm@, service: self.service@, scope: self.scope@ }
    }
}

/// What parsing a `WWW-Authenticate` value yields: the scheme token
/// (seven characters) is dropped, the remainder splits on commas into
/// fields, and `realm`, `service` and `scope` must all be bound.
pub open spec fn spec_parse_challenge(h: Seq<char>) -> Option<AuthChallengeView> {
    if h.len() < 7 {
        None
    } else {
        let fields = split_char(h.subrange(7, h.len() as int), ',');
        match (
            lookup_challenge_param(fields, "realm"@),
            lookup_challenge_param(fields, "service"@),
            lookup_challenge_param(fields, "scope"@),
        ) {
            (Some(realm), Some(service), Some(scope)) => Some(
                AuthChallengeView { realm, service, scope },
            ),
            _ => None,
        }
    }
}

/// Parses a `WWW-Authenticate` Bearer challenge into its `realm`,
/// `service` and `scope` parameters; each must be present.
pub fn parse_authentication_challenge(header: &str) -> (r: Result<AuthChallenge, FetchError>)
    ensures
        match r {
            Ok(c) => spec_parse_challenge(header@) == Some(c@),
            Err(e) => spec_parse_challenge(header@) is None && e
                == FetchError::MalformedChallenge,
        },
{
    let n = header.unicode_len();
    if n < 7 {
        return Err(FetchError::MalformedChallenge);
    }
    let rest = header.substring_char(7, n);
    let fields = split_on_char(rest, ',');
    let realm = match lookup_challenge_param_exec(&fields, "realm") {
        Some(v) => v,
        None => {
            return Err(FetchError::MalformedChallenge);
        },
    };
    let service = match lookup_challenge_param_exec(&fields, "service") {
        Some(v) => v,
        None => {
            return Err(FetchError::MalformedChallenge);
        },
    };
    let scope = match lookup_challenge_param_exec(&fields, "scope") {
        Some(v) => v,
        None => {
            return Err(FetchError::MalformedChallenge);
        },
    };
    Ok(AuthChallenge { realm, service, scope })
}

/// The token endpoint request: the realm with the service and scope as
/// query parameters.
pub open spec fn spec_token_url(c: AuthChallengeView) -> Seq<char> {
    c.realm + "?service="@ + c.service + "&scope="@ + c.scope
}

/// Builds the token endpoint URL for a parsed challenge.
pub fn token_request_url(c: &AuthChallenge) -> (r: String)
    ensures
        r@ == spec_token_url(c@),
{
    String::from_str(c.realm.as_str()).concat("?service=").concat(c.service.as_str()).concat(
        "&scope=",
    ).concat(c.scope.as_str())
}

/// The `token` field of the JSON document `body`, when `body` is a JSON
/// object carrying a string under that key.
pub uninterp spec fn token_field_of(body: Seq<char>) -> Option<Seq<char>>;

/// Relies on `serde_json::from_str`: parsing is a deterministic function
/// of the input text, and `Value::get` reads the named object field.
#[verifier::external_body]
fn extract_token_field(body: &str) -> (r: Option<String>)
    ensures
        r is Some <==> token_field_of(body@) is Some,
        r matches Some(t) ==> token_field_of(body@) == Some(t@),
{
    let v: serde_json::Value = match serde_json::from_str(body) {
        Ok(v) => v,
        Err(_) => return None,
    };
    match v.get("token") {
        Some(serde_json::Value::String(s)) => Some(s.clone()),
        _ => None,
    }
}

/// Where the fetch stands: the direct manifest request, the token
/// endpoint exchange, the single retry with the exchanged token, or the
/// repository-path fallback request.
#[derive(Debug, Clone, Copy, PartialEq, Eq, Structural)]
pub enum FetchPhase {
    Direct,
    TokenExchange,
    Retry,
    Fallback,
}

/// The fetch state between two requests: what was asked for, the
/// credential's authorization header, and the phase the next response
/// will be interpreted in.
pub struct FetchMachine {
    pub phase: FetchPhase,
    pub registry: String,
    pub repository: String,
    pub tag: String,
    pub auth_header: String,
    pub manifest_url: String,
    pub fallback_enabled: bool,
}

/// The model of a [`FetchMachine`].
pub struct FetchMachineView {
    pub phase: FetchPhase,
    pub registry: Seq<char>,
    pub repository: Seq<char>,
    pub tag: Seq<char>,
    pub auth_header: Seq<char>,
    pub manifest_url: Seq<char>,
    pub fallback_enabled: bool,
}

impl View for FetchMachine {
    type V = FetchMachineView;

    open spec fn view(&self) -> FetchMachineView {
        FetchMachineView {
            phase: self.phase,
            registry: self.registry@,
            repository: self.repository@,
            tag: self.tag@,
            auth_header: self.auth_header@,
            manifest_url: self.manifest_url@,
            fallback_enabled: self.fallback_enabled,
        }
    }
}

/// The plain facts of one HTTP response that the fetch strategy reads:
/// the status, the digest and challenge headers, the lower-cased header
/// names, and the body text.
pub struct ResponseFacts {
    pub status: u16,
    pub docker_content_digest: Option<String>,
    pub www_authenticate: Option<String>,
    pub header_names: Vec<String>,
    pub body: String,
}

/// The model of a [`ResponseFacts`].
pub struct ResponseFactsView {
    pub status: u16,
    pub docker_content_digest: Option<Seq<char>>,
    pub www_authenticate: Option<Seq<char>>,
    pub header_names: Seq<Seq<char>>,
    pub body: Seq<char>,
}

impl View for ResponseFacts {
    type V = ResponseFactsView;

    open spec fn view(&self) -> ResponseFactsView {
        ResponseFactsView {
            status: self.status,
            docker_content_digest: match self.docker_content_digest {
                Some(d) => Some(d@),
                None => None,
            },
            www_authenticate: match self.www_authenticate {
                Some(h) => Some(h@),
                None => None,
            },
            header_names: self.header_names@.map_values(|s: String| s@),
            body: self.body@,
        }
    }
}

/// What the fetch does next: issue another request, finish with the
/// digest, or fail.
pub enum FetchStep {
    Request { url: String, authorization: String, state: FetchMachine },
    Done { digest: String },
    Fail { error: FetchError },
}

/// The model of a [`FetchStep`].
pub enum FetchStepView {
    Request { url: Seq<char>, authorization: Seq<char>, state: FetchMachineView },
    Done { digest: Seq<char> },
    Fail { error: FetchError },
}

impl View for FetchStep {
    type V = FetchStepView;

    open spec fn view(&self) -> FetchStepView {
        match self {
            FetchStep::Request { url, authorization, state } => FetchStepView::Request {
                url: url@,
                authorization: authorization@,
                state: state@,
            },
            FetchStep::Done { digest } => FetchStepView::Done { digest: digest@ },
            FetchStep::Fail { error } => FetchStepView::Fail { error: *error },
        }
    }
}

/// The first step of a fetch: a GET of the manifest URL (with the
/// registry hostname rewritten) carrying the credential's authorization
/// header, to be interpreted in the direct phase.
pub open spec fn spec_start(
    image: crate::image_reference::ImageRefView,
    secret: RegistrySecretView,
    fallback_enabled: bool,
) -> FetchStepView {
    let registry = spec_rewrite_registry(image.registry);
    let url = spec_manifest_url(registry, image.repository, image.tag);
    let auth = spec_authorization_header(secret);
    FetchStepView::Request {
        url: url,
        authorization: auth,
        state: FetchMachineView {
            phase: FetchPhase::Direct,
            registry: registry,
            repository: image.repository,
            tag: image.tag,
            auth_header: auth,
            manifest_url: url,
            fallback_enabled: fallback_enabled,
        },
    }
}

/// How the fetch state advances on one response.
///
/// Direct phase: 200 yields the digest header or fails without it; 401
/// with a parseable challenge moves to the token exchange; 404 with the
/// fallback enabled and an Artifactory signature moves to the fallback
/// request; every other outcome fails with the status. Token exchange:
/// a 200 whose body carries a token retries the manifest request once
/// with that bearer token; any other status fails the exchange. Retry
/// and fallback: 200 yields the digest header; anything else fails with
/// the status.
pub open spec fn spec_step(m: FetchMachineView, resp: ResponseFactsView) -> FetchStepView {
    match m.phase {
        FetchPhase::Direct => {
            if resp.status == 200 {
                match resp.docker_content_digest {
                    Some(d) => FetchStepView::Done { digest: d },
                    None => FetchStepView::Fail { error: FetchError::MissingDigestHeader },
                }
            } else if resp.status == 401 && resp.www_authenticate is Some {
                match spec_parse_challenge(resp.www_authenticate.unwrap()) {
                    Some(c) => FetchStepView::Request {
                        url: spec_token_url(c),
                        authorization: m.auth_header,
                        state: FetchMachineView { phase: FetchPhase::TokenExchange, ..m },
                    },
                    None => FetchStepView::Fail { error: FetchError::MalformedChallenge },
                }
            } else if resp.status == 404 && m.fallback_enabled && spec_artifactory_signal(
                resp.header_names,
            ) {
                if seq_contains_char(m.repository, '/') {
                    FetchStepView::Request {
                        url: spec_fallback_url(m.registry, m.repository, m.tag),
                        authorization: m.auth_header,
                        state: FetchMachineView { phase: FetchPhase::Fallback, ..m },
                    }
                } else {
                    FetchStepView::Fail { error: FetchError::MalformedRepository }
                }
            } else {
                FetchStepView::Fail { error: FetchError::RegistryError(resp.status) }
            }
        },
        FetchPhase::TokenExchange => {
            if resp.status == 200 {
                match token_field_of(resp.body) {
                    Some(t) => FetchStepView::Request {
                        url: m.manifest_url,
                        authorization: "Bearer "@ + t,
                        state: FetchMachineView { phase: FetchPhase::Retry, ..m },
                    },
                    None => FetchStepView::Fail { error: FetchError::MalformedTokenResponse },
                }
            } else {
                FetchStepView::Fail { error: FetchError::TokenExchangeFailed(resp.status) }
            }
        },
        FetchPhase::Retry | FetchPhase::Fallback => {
            if resp.status == 200 {
                match resp.docker_content_digest {
                    Some(d) => FetchStepView::Done { digest: d },
                    None => FetchStepView::Fail { error: FetchError::MissingDigestHeader },
                }
            } else {
                FetchStepView::Fail { error: FetchError::RegistryError(resp.status) }
            }
        },
    }
}

fn fallback_url_for(registry: &str, repository: &str, tag: &str) -> (r: Result<String, FetchError>)
    ensures
        seq_contains_char(repository@, '/') ==> (r matches Ok(url) && url@ == spec_fallback_url(
            registry@,
            repository@,
            tag@,
        )),
        !seq_contains_char(repository@, '/') ==> r == Err::<String, FetchError>(
            FetchError::MalformedRepository,
        ),
{
    match str_find_first(repository, '/') {
        Some(i) => {
            proof {
                lemma_find_first_props(repository@, '/');
            }
            let repo_key = repository.substring_char(0, i);
            Ok(
                String::from_str("https://").concat(registry).concat(
                    "/artifactory/api/docker/",
                ).concat(repo_key).concat("/v2/").concat(repository).concat("/manifests/").concat(
                    tag,
                ),
            )
        },
        None => {
            proof {
                lemma_find_first_props(repository@, '/');
            }
            Err(FetchError::MalformedRepository)
        },
    }
}

/// Begins a digest fetch for an image with a resolved credential. A pull
/// secret credential must hold at least one auth entry.
pub fn start_fetch(image: &ImageReference, registry_secret: &RegistrySecret, fallback_enabled: bool) -> (r:
    FetchStep)
    requires
        registry_secret@ matches RegistrySecretView::ImagePullSecret {
            docker_config,
            ..
        } ==> docker_config.auths.len() > 0,
    ensures
        r@ == spec_start(image@, registry_secret@, fallback_enabled),
{
    let registry = rewrite_docker_io_registry_target(image.registry.as_str());
    let url = manifest_url(registry.as_str(), image.repository.as_str(), image.tag.as_str());
    let auth = get_authorization_header(registry_secret);
    FetchStep::Request {
        url: url.clone(),
        authorization: auth.clone(),
        state: FetchMachine {
            phase: FetchPhase::Direct,
            registry: registry,
            repository: image.repository.clone(),
            tag: image.tag.clone(),
            auth_header: auth,
            manifest_url: url,
            fallback_enabled: fallback_enabled,
        },
    }
}

impl FetchMachine {
    /// Advances the fetch on the response to the previously requested
    /// GET, per [`spec_step`].
    pub fn on_response(self, resp: &ResponseFacts) -> (r: FetchStep)
        ensures
            r@ == spec_step(self@, resp@),
    {
        match self.phase {
            FetchPhase::Direct => {
                if resp.status == 200 {
                    match &resp.docker_content_digest {
                        Some(d) => FetchStep::Done { digest: d.clone() },
                        None => FetchStep::Fail { error: FetchError::MissingDigestHeader },
                    }
                } else if resp.status == 401 && resp.www_authenticate.is_some() {
                    match &resp.www_authenticate {
                        Some(h) => match parse_authentication_challenge(h.as_str()) {
                            Ok(c) => {
                                let url = token_request_url(&c);
                                FetchStep::Request {
                                    url: url,
                                    authorization: self.auth_header.clone(),
                                    state: FetchMachine {
                                        phase: FetchPhase::TokenExchange,
                                        ..self
                                    },
                                }
                            },
                            Err(e) => FetchStep::Fail { error: e },
                        },
                        None => FetchStep::Fail { error: FetchError::RegistryError(resp.status) },
                    }
                } else if resp.status == 404 && self.fallback_enabled && is_artifactory_response(
                    &resp.header_names,
                ) {
                    match fallback_url_for(
                        self.registry.as_str(),
                        self.repository.as_str(),
                        self.tag.as_str(),
                    ) {
                        Ok(url) => FetchStep::Request {
                            url: url,
                            authorization: self.auth_header.clone(),
                            state: FetchMachine { phase: FetchPhase::Fallback, ..self },
                        },
                        Err(e) => FetchStep::Fail { error: e },
                    }
                } else {
                    FetchStep::Fail { error: FetchError::RegistryError(resp.status) }
                }
            },
            FetchPhase::TokenExchange => {
                if resp.status == 200 {
                    match extract_token_field(resp.body.as_str()) {
                        Some(t) => FetchStep::Request {
                            url: self.manifest_url.clone(),
                            authorization: String::from_str("Bearer ").concat(t.as_str()),
                            state: FetchMachine { phase: FetchPhase::Retry, ..self },
                        },
                        None => FetchStep::Fail { error: FetchError::MalformedTokenResponse },
                    }
                } else {
                    FetchStep::Fail { error: FetchError::TokenExchangeFailed(resp.status) }
                }
            },
            FetchPhase::Retry | FetchPhase::Fallback => {
                if resp.status == 200 {
                    match &resp.docker_content_digest {
                        Some(d) => FetchStep::Done { digest: d.clone() },
                        None => FetchStep::Fail { error: FetchError::MissingDigestHeader },
                    }
                } else {
                    FetchStep::Fail { error: FetchError::RegistryError(resp.status) }
                }
            },
        }
    }
}

/// A 404 answer without any Artifactory signature header never turns
/// into the repository-path fallback, whatever the feature flag says.
pub proof fn lemma_no_signal_no_fallback(m: FetchMachineView, resp: ResponseFactsView)
    requires
        m.phase == FetchPhase::Direct,
        resp.status == 404,
        !spec_artifactory_signal(resp.header_names),
    ensures
        spec_step(m, resp) == (FetchStepView::Fail { error: FetchError::RegistryError(404) }),
{
}

/// A 404 answer with an Artifactory signature and the fallback enabled
/// requests exactly the repository-path fallback URL, with the original
/// credential's authorization header.
pub proof fn lemma_signal_fallback_request(m: FetchMachineView, resp: ResponseFactsView)
    requires
        m.phase == FetchPhase::Direct,
        resp.status == 404,
        m.fallback_enabled,
        spec_artifactory_signal(resp.header_names),
        seq_contains_char(m.repository, '/'),
    ensures
        spec_step(m, resp) == (FetchStepView::Request {
            url: spec_fallback_url(m.registry, m.repository, m.tag),
            authorization: m.auth_header,
            state: FetchMachineView { phase: FetchPhase::Fallback, ..m },
        }),
{
}

/// The whole repository-path fallback, stated end to end: with the
/// fallback enabled, a direct 404 carrying an Artifactory signature is
/// answered by exactly one further request, to
/// `https://{registry}/artifactory/api/docker/{repoKey}/v2/{repository}/manifests/{tag}`
/// with the original credential's authorization header; a 200 there with
/// a `Docker-Content-Digest` header yields that digest, and any other
/// outcome of that one request is fatal. Stated for repositories with a
/// second path segment; on a single-segment repository the fetch fails
/// with [`FetchError::MalformedRepository`] instead (see
/// [`spec_step`]).
pub proof fn lemma_artifactory_fallback_walk(
    m: FetchMachineView,
    first: ResponseFactsView,
    second: ResponseFactsView,
)
    requires
        m.phase == FetchPhase::Direct,
        m.fallback_enabled,
        first.status == 404,
        spec_artifactory_signal(first.header_names),
        seq_contains_char(m.repository, '/'),
    ensures
        spec_step(m, first) matches FetchStepView::Request { url, authorization, state } && url
            == spec_fallback_url(m.registry, m.repository, m.tag) && authorization
            == m.auth_header && state.phase == FetchPhase::Fallback && (second.status == 200
            ==> (match second.docker_content_digest {
            Some(d) => spec_step(state, second) == (FetchStepView::Done { digest: d }),
            None => spec_step(state, second) == (FetchStepView::Fail {
                error: FetchError::MissingDigestHeader,
            }),
        })) && (second.status != 200 ==> spec_step(state, second) == (FetchStepView::Fail {
            error: FetchError::RegistryError(second.status),
        })),
{
}

/// How far along the three-tier strategy a phase stands; each response
/// can only move the fetch forward.
pub open spec fn phase_rank(p: FetchPhase) -> int {
    match p {
        FetchPhase::Direct => 0,
        FetchPhase::TokenExchange => 1,
        FetchPhase::Retry => 2,
        FetchPhase::Fallback => 3,
    }
}

/// The fetch terminates: every request the machine asks for carries a
/// strictly later phase, so the token-exchange retry and the fallback
/// each happen at most once.
pub proof fn lemma_fetch_progress(m: FetchMachineView, resp: ResponseFactsView)
    ensures
        spec_step(m, resp) matches FetchStepView::Request { state, .. } ==> phase_rank(state.phase)
            > phase_rank(m.phase),
{
}

/// A parsed challenge is answered by a token request that carries the
/// challenge's realm, service and scope, with the original credential's
/// authorization header.
pub proof fn lemma_challenge_token_request(m: FetchMachineView, resp: ResponseFactsView)
    requires
        m.phase == FetchPhase::Direct,
        resp.status == 401,
        resp.www_authenticate is Some,
        spec_parse_challenge(resp.www_authenticate.unwrap()) is Some,
    ensures
        spec_step(m, resp) == (FetchStepView::Request {
            url: spec_token_url(spec_parse_challenge(resp.www_authenticate.unwrap()).unwrap()),
            authorization: m.auth_header,
            state: FetchMachineView { phase: FetchPhase::TokenExchange, ..m },
        }),
{
}

} // verus!

//! The settings a server is launched with, apart from the engine
//! configuration: the deployment profile and what it implies for listeners
//! and TLS, the request limits, and authentication (the full-access token,
//! whether metrics are protected, and the per-token permissions).

use vstd::prelude::*;
use crate::server::{AuthPermission, ServerLimits, TokenPolicy};
use crate::settings::{
    normalized_setting, parse_usize, spec_normalized, spec_opt_view,
    spec_text_result, spec_unsigned_setting,
};
use crate::text::{
    ascii_lowercase, is_blank, spec_ascii_lowercase, spec_is_blank, spec_split, spec_trim,
    split_text, text_eq, trim,
};

verus! {

/// How the server is deployed: plain local listeners, a Unix socket only,
/// or a TLS service with optional or required client certificates.
#[derive(Debug, Clone, Copy, PartialEq, Eq, Structural)]
pub enum DeploymentProfile {
    Default,
    UdsLocal,
    TlsService,
    MtlsService,
}

/// The deployment profile a normalized name stands for.
pub open spec fn spec_deployment_profile_named(t: Seq<char>) -> Option<DeploymentProfile> {
    if t == "default"@ {
        Some(DeploymentProfile::Default)
    } else if t == "uds-local"@ || t == "uds_local"@ {
        Some(DeploymentProfile::UdsLocal)
    } else if t == "tls-service"@ || t == "tls_service"@ {
        Some(DeploymentProfile::TlsService)
    } else if t == "mtls-service"@ || t == "mtls_service"@ {
        Some(DeploymentProfile::MtlsService)
    } else {
        None
    }
}

/// The deployment profile setting: the default profile when unset or blank,
/// the profile its trimmed, lower-cased text names, and otherwise an error.
pub open spec fn spec_deployment_profile_setting(raw: Option<Seq<char>>) -> Result<DeploymentProfile, Seq<char>> {
    match spec_normalized(raw) {
        None => Ok(DeploymentProfile::Default),
        Some(t) => match spec_deployment_profile_named(t) {
            Some(p) => Ok(p),
            None => Err("invalid MNEMARA_DEPLOYMENT_PROFILE '"@ + t
                + "': expected default, uds-local, tls-service, or mtls-service"@),
        },
    }
}

/// Reads the deployment profile setting.
pub fn parse_deployment_profile(raw: Option<String>) -> (r: Result<DeploymentProfile, String>)
    ensures
        spec_text_result(r) == spec_deployment_profile_setting(spec_opt_view(raw)),
{
    let value = match normalized_setting(raw) {
        None => {
            return Ok(DeploymentProfile::Default);
        },
        Some(v) => v,
    };
    let t = value.as_str();
    if text_eq(t, "default") {
        Ok(DeploymentProfile::Default)
    } else if text_eq(t, "uds-local") || text_eq(t, "uds_local") {
        Ok(DeploymentProfile::UdsLocal)
    } else if text_eq(t, "tls-service") || text_eq(t, "tls_service") {
        Ok(DeploymentProfile::TlsService)
    } else if text_eq(t, "mtls-service") || text_eq(t, "mtls_service") {
        Ok(DeploymentProfile::MtlsService)
    } else {
        let mut message = String::from_str("invalid MNEMARA_DEPLOYMENT_PROFILE '");
        message.append(t);
        message.append("': expected default, uds-local, tls-service, or mtls-service");
        Err(message)
    }
}

/// The address the HTTP listener binds, as text: the setting, or for the
/// default profile the local default; trimmed, and none when blank.
pub open spec fn spec_http_listen_setting(profile: DeploymentProfile, raw: Option<Seq<char>>) -> Option<Seq<char>> {
    let value = match raw {
        Some(v) => Some(v),
        None => if profile == DeploymentProfile::Default {
            Some("127.0.0.1:50052"@)
        } else {
            None
        },
    };
    match value {
        Some(v) => if spec_trim(v).len() == 0 {
            None
        } else {
            Some(spec_trim(v))
        },
        None => None,
    }
}

pub fn http_listen_setting(profile: DeploymentProfile, raw: Option<String>) -> (r: Option<String>)
    ensures
        spec_opt_view(r) == spec_http_listen_setting(profile, spec_opt_view(raw)),
{
    let value = match raw {
        Some(v) => v,
        None => {
            if profile == DeploymentProfile::Default {
                String::from_str("127.0.0.1:50052")
            } else {
                return None;
            }
        },
    };
    let t = trim(value.as_str());
    if t.unicode_len() == 0 {
        None
    } else {
        Some(t)
    }
}

/// The Unix socket the gRPC service listens on: the setting when it is not
/// blank, the local default for the Unix-socket profile, and none otherwise.
pub open spec fn spec_grpc_uds_path_setting(profile: DeploymentProfile, raw: Option<Seq<char>>) -> Option<Seq<char>> {
    match raw {
        Some(v) if !spec_is_blank(v) => Some(v),
        _ => if profile == DeploymentProfile::UdsLocal {
            Some("/tmp/mnemara-grpc.sock"@)
        } else {
            None
        },
    }
}

pub fn grpc_uds_path_setting(profile: DeploymentProfile, raw: Option<String>) -> (r: Option<String>)
    ensures
        spec_opt_view(r) == spec_grpc_uds_path_setting(profile, spec_opt_view(raw)),
{
    match raw {
        Some(v) => {
            if !is_blank(v.as_str()) {
                return Some(v);
            }
        },
        None => {},
    }
    if profile == DeploymentProfile::UdsLocal {
        Some(String::from_str("/tmp/mnemara-grpc.sock"))
    } else {
        None
    }
}

/// Whether a TLS service takes client certificates.
#[derive(Debug, Clone, Copy, PartialEq, Eq, Structural)]
pub enum ClientCaRequirement {
    /// A client CA is read when its setting is given.
    Optional,
    /// A client CA must be given.
    Required,
}

/// The TLS files a deployment profile needs: none for the plain and
/// Unix-socket profiles; a certificate and key, and an optional or a
/// required client CA, for the TLS and mutual-TLS services.
pub fn tls_requirement(profile: DeploymentProfile) -> (r: Option<ClientCaRequirement>)
    ensures
        r == match profile {
            DeploymentProfile::Default | DeploymentProfile::UdsLocal => None,
            DeploymentProfile::TlsService => Some(ClientCaRequirement::Optional),
            DeploymentProfile::MtlsService => Some(ClientCaRequirement::Required),
        },
{
    match profile {
        DeploymentProfile::Default | DeploymentProfile::UdsLocal => None,
        DeploymentProfile::TlsService => Some(ClientCaRequirement::Optional),
        DeploymentProfile::MtlsService => Some(ClientCaRequirement::Required),
    }
}

// ----- authentication settings -----

/// The full-access token setting: kept unless it is blank.
pub open spec fn spec_bearer_token_setting(raw: Option<Seq<char>>) -> Option<Seq<char>> {
    match raw {
        Some(v) if !spec_is_blank(v) => Some(v),
        _ => None,
    }
}

pub fn bearer_token_setting(raw: Option<String>) -> (r: Option<String>)
    ensures
        spec_opt_view(r) == spec_bearer_token_setting(spec_opt_view(raw)),
{
    match raw {
        Some(v) => if is_blank(v.as_str()) {
            None
        } else {
            Some(v)
        },
        None => None,
    }
}

/// Whether the metrics need a token: the setting, lower-cased, is "1",
/// "true" or "yes".
pub open spec fn spec_protect_metrics_setting(raw: Option<Seq<char>>) -> bool {
    match raw {
        Some(v) => {
            let t = spec_ascii_lowercase(v);
            t == "1"@ || t == "true"@ || t == "yes"@
        },
        None => false,
    }
}

pub fn protect_metrics_setting(raw: Option<String>) -> (r: bool)
    ensures
        r == spec_protect_metrics_setting(spec_opt_view(raw)),
{
    match raw {
        Some(v) => {
            let t = ascii_lowercase(v.as_str());
            text_eq(t.as_str(), "1") || text_eq(t.as_str(), "true") || text_eq(t.as_str(), "yes")
        },
        None => false,
    }
}

/// The permission a name stands for, trimmed and lower-cased.
pub open spec fn spec_auth_permission(value: Seq<char>) -> Result<AuthPermission, Seq<char>> {
    let t = spec_ascii_lowercase(spec_trim(value));
    if t == "read"@ {
        Ok(AuthPermission::Read)
    } else if t == "write"@ {
        Ok(AuthPermission::Write)
    } else if t == "admin"@ {
        Ok(AuthPermission::Admin)
    } else if t == "metrics"@ {
        Ok(AuthPermission::Metrics)
    } else {
        Err("unknown auth permission '"@ + t + "'"@)
    }
}

pub fn parse_auth_permission(value: &str) -> (r: Result<AuthPermission, String>)
    ensures
        spec_text_result(r) == spec_auth_permission(value@),
{
    let trimmed = trim(value);
    let t = ascii_lowercase(trimmed.as_str());
    if text_eq(t.as_str(), "read") {
        Ok(AuthPermission::Read)
    } else if text_eq(t.as_str(), "write") {
        Ok(AuthPermission::Write)
    } else if text_eq(t.as_str(), "admin") {
        Ok(AuthPermission::Admin)
    } else if text_eq(t.as_str(), "metrics") {
        Ok(AuthPermission::Metrics)
    } else {
        let mut message = String::from_str("unknown auth permission '");
        message.append(t.as_str());
        message.append("'");
        Err(message)
    }
}


/// `i` is the first position of `c` in `s`.
pub open spec fn spec_first_sep(s: Seq<char>, c: char, i: int) -> bool {
    &&& 0 <= i < s.len()
    &&& s[i] == c
    &&& forall|j: int| 0 <= j < i ==> s[j] != c
}

/// `s` split at the first `c`: the text before it and the text after it.
pub open spec fn spec_split_once(s: Seq<char>, c: char) -> Option<(Seq<char>, Seq<char>)> {
    if exists|i: int| spec_first_sep(s, c, i) {
        let i = choose|i: int| spec_first_sep(s, c, i);
        Some((s.subrange(0, i), s.subrange(i + 1, s.len() as int)))
    } else {
        None
    }
}

fn split_once_text(s: &str, c: char) -> (r: Option<(String, String)>)
    ensures
        match spec_split_once(s@, c) {
            Some((a, b)) => r matches Some((x, y)) && x@ == a && y@ == b,
            None => r is None,
        },
{
    let n = s.unicode_len();
    let mut i: usize = 0;
    while i < n
        invariant
            n == s@.len(),
            i <= n,
            forall|j: int| 0 <= j < i ==> s@[j] != c,
        decreases n - i,
    {
        if s.get_char(i) == c {
            proof {
                assert(spec_first_sep(s@, c, i as int));
                let k = choose|k: int| spec_first_sep(s@, c, k);
                assert(k == i) by {
                    if k < i {
                        assert(s@[k] != c);
                    }
                    if k > i {
                        assert(s@[i as int] != c);
                    }
                }
            }
            let before = String::from_str(s.substring_char(0, i));
            let after = String::from_str(s.substring_char(i + 1, n));
            return Some((before, after));
        }
        i += 1;
    }
    None
}

/// The pieces that are not blank.
pub open spec fn spec_nonblank(pieces: Seq<Seq<char>>) -> Seq<Seq<char>> {
    pieces.filter(|p: Seq<char>| !spec_is_blank(p))
}

fn nonblank_pieces(pieces: &Vec<String>) -> (r: Vec<String>)
    ensures
        r@.map_values(|p: String| p@) == spec_nonblank(pieces@.map_values(|p: String| p@)),
{
    let ghost views = pieces@.map_values(|p: String| p@);
    let n = pieces.len();
    let mut out: Vec<String> = Vec::new();
    let mut i: usize = 0;
    while i < n
        invariant
            n == pieces@.len(),
            views == pieces@.map_values(|p: String| p@),
            i <= n,
            out@.map_values(|p: String| p@) == spec_nonblank(views.subrange(0, i as int)),
        decreases n - i,
    {
        let ghost before = out@.map_values(|p: String| p@);
        proof {
            assert(views.subrange(0, i + 1) =~= views.subrange(0, i as int).push(views[i as int]));
            views.subrange(0, i as int).lemma_filter_push(
                views[i as int],
                |p: Seq<char>| !spec_is_blank(p),
            );
        }
        if !is_blank(pieces[i].as_str()) {
            out.push(pieces[i].clone());
            proof {
                assert(out@.map_values(|p: String| p@) =~= before.push(pieces@[i as int]@));
            }
        } else {
            proof {
                assert(out@.map_values(|p: String| p@) =~= before);
            }
        }
        i += 1;
    }
    proof {
        assert(views.subrange(0, n as int) =~= views);
    }
    out
}

/// The permissions the pieces name, or the error of the first piece that
/// names none.
pub open spec fn spec_permissions(pieces: Seq<Seq<char>>) -> Result<Seq<AuthPermission>, Seq<char>>
    decreases pieces.len(),
{
    if pieces.len() == 0 {
        Ok(Seq::empty())
    } else {
        match spec_permissions(pieces.drop_last()) {
            Err(e) => Err(e),
            Ok(v) => match spec_auth_permission(pieces.last()) {
                Err(e) => Err(e),
                Ok(p) => Ok(v.push(p)),
            },
        }
    }
}

proof fn lemma_permissions_error_stays(s: Seq<Seq<char>>, k: int)
    requires
        0 <= k <= s.len(),
        spec_permissions(s.subrange(0, k)) is Err,
    ensures
        spec_permissions(s) == spec_permissions(s.subrange(0, k)),
    decreases s.len(),
{
    if k == s.len() {
        assert(s.subrange(0, k) =~= s);
    } else {
        assert(s.drop_last().subrange(0, k) =~= s.subrange(0, k));
        lemma_permissions_error_stays(s.drop_last(), k);
    }
}

fn parse_permissions(pieces: &Vec<String>) -> (r: Result<Vec<AuthPermission>, String>)
    ensures
        match spec_permissions(pieces@.map_values(|p: String| p@)) {
            Ok(v) => r matches Ok(x) && x@ == v,
            Err(e) => r matches Err(x) && x@ == e,
        },
{
    let ghost views = pieces@.map_values(|p: String| p@);
    let n = pieces.len();
    let mut out: Vec<AuthPermission> = Vec::new();
    let mut i: usize = 0;
    while i < n
        invariant
            n == pieces@.len(),
            views == pieces@.map_values(|p: String| p@),
            i <= n,
            spec_permissions(views.subrange(0, i as int)) == Ok::<Seq<AuthPermission>, Seq<char>>(out@),
        decreases n - i,
    {
        proof {
            let pre = views.subrange(0, i + 1);
            assert(pre.drop_last() =~= views.subrange(0, i as int));
            assert(pre.last() == pieces@[i as int]@);
        }
        match parse_auth_permission(pieces[i].as_str()) {
            Ok(p) => {
                out.push(p);
            },
            Err(e) => {
                proof {
                    lemma_permissions_error_stays(views, i + 1);
                }
                return Err(e);
            },
        }
        i += 1;
    }
    proof {
        assert(views.subrange(0, n as int) =~= views);
    }
    Ok(out)
}

/// The error about an entry of the token setting.
pub open spec fn spec_entry_error(entry: Seq<char>, reason: Seq<char>) -> Seq<char> {
    "invalid MNEMARA_AUTH_TOKENS entry '"@ + entry + "': "@ + reason
}

/// An entry `token=perm1,perm2` of the token setting: the trimmed token and
/// the permissions of its non-blank comma-separated pieces; an error when
/// the entry has no `=`, the token is blank, a piece names no permission, or
/// no permission is given.
pub open spec fn spec_token_policy(entry: Seq<char>) -> Result<(Seq<char>, Seq<AuthPermission>), Seq<char>> {
    match spec_split_once(entry, '=') {
        None => Err(spec_entry_error(entry, "expected token=perm1,perm2"@)),
        Some((tok, perms)) => {
            let token = spec_trim(tok);
            if token.len() == 0 {
                Err(spec_entry_error(entry, "token is required"@))
            } else {
                match spec_permissions(spec_nonblank(spec_split(perms, ','))) {
                    Err(e) => Err(e),
                    Ok(ps) => if ps.len() == 0 {
                        Err(spec_entry_error(entry, "at least one permission is required"@))
                    } else {
                        Ok((token, ps))
                    },
                }
            }
        },
    }
}

pub open spec fn spec_policy_view(p: TokenPolicy) -> (Seq<char>, Seq<AuthPermission>) {
    (p.token@, p.permissions@)
}

fn entry_error(entry: &str, reason: &str) -> (r: String)
    ensures
        r@ == spec_entry_error(entry@, reason@),
{
    let mut message = String::from_str("invalid MNEMARA_AUTH_TOKENS entry '");
    message.append(entry);
    message.append("': ");
    message.append(reason);
    message
}

/// Reads one entry of the token setting.
pub fn parse_token_policy(entry: &str) -> (r: Result<TokenPolicy, String>)
    ensures
        match spec_token_policy(entry@) {
            Ok(v) => r matches Ok(p) && spec_policy_view(p) == v,
            Err(e) => r matches Err(x) && x@ == e,
        },
{
    let (tok, perms) = match split_once_text(entry, '=') {
        Some(parts) => parts,
        None => {
            return Err(entry_error(entry, "expected token=perm1,perm2"));
        },
    };
    let token = trim(tok.as_str());
    if token.unicode_len() == 0 {
        return Err(entry_error(entry, "token is required"));
    }
    let pieces = split_text(perms.as_str(), ',');
    let kept = nonblank_pieces(&pieces);
    let permissions = match parse_permissions(&kept) {
        Ok(ps) => ps,
        Err(e) => {
            return Err(e);
        },
    };
    if permissions.len() == 0 {
        return Err(entry_error(entry, "at least one permission is required"));
    }
    Ok(TokenPolicy { token, permissions })
}

/// The policies of the entries, or the error of the first entry that
/// cannot be read.
pub open spec fn spec_token_policies_of(entries: Seq<Seq<char>>) -> Result<Seq<(Seq<char>, Seq<AuthPermission>)>, Seq<char>>
    decreases entries.len(),
{
    if entries.len() == 0 {
        Ok(Seq::empty())
    } else {
        match spec_token_policies_of(entries.drop_last()) {
            Err(e) => Err(e),
            Ok(v) => match spec_token_policy(entries.last()) {
                Err(e) => Err(e),
                Ok(p) => Ok(v.push(p)),
            },
        }
    }
}

proof fn lemma_policies_error_stays(s: Seq<Seq<char>>, k: int)
    requires
        0 <= k <= s.len(),
        spec_token_policies_of(s.subrange(0, k)) is Err,
    ensures
        spec_token_policies_of(s) == spec_token_policies_of(s.subrange(0, k)),
    decreases s.len(),
{
    if k == s.len() {
        assert(s.subrange(0, k) =~= s);
    } else {
        assert(s.drop_last().subrange(0, k) =~= s.subrange(0, k));
        lemma_policies_error_stays(s.drop_last(), k);
    }
}

/// The token setting: no policies when unset or blank; otherwise its
/// trimmed text split at `;`, each non-blank entry read as a policy.
pub open spec fn spec_token_policies_setting(raw: Option<Seq<char>>) -> Result<Seq<(Seq<char>, Seq<AuthPermission>)>, Seq<char>> {
    match raw {
        None => Ok(Seq::empty()),
        Some(v) => {
            let t = spec_trim(v);
            if t.len() == 0 {
                Ok(Seq::empty())
            } else {
                spec_token_policies_of(spec_nonblank(spec_split(t, ';')))
            }
        },
    }
}

/// Reads the per-token permissions setting.
pub fn token_policies_from_setting(raw: Option<String>) -> (r: Result<Vec<TokenPolicy>, String>)
    ensures
        match spec_token_policies_setting(spec_opt_view(raw)) {
            Ok(v) => r matches Ok(ps) && ps@.map_values(|p: TokenPolicy| spec_policy_view(p)) == v,
            Err(e) => r matches Err(x) && x@ == e,
        },
{
    let ghost setting = spec_token_policies_setting(spec_opt_view(raw));
    let value = match raw {
        None => {
            let out: Vec<TokenPolicy> = Vec::new();
            proof {
                assert(out@.map_values(|p: TokenPolicy| spec_policy_view(p)) =~= Seq::<(Seq<char>, Seq<AuthPermission>)>::empty());
            }
            return Ok(out);
        },
        Some(v) => trim(v.as_str()),
    };
    if value.unicode_len() == 0 {
        let out: Vec<TokenPolicy> = Vec::new();
        proof {
            assert(out@.map_values(|p: TokenPolicy| spec_policy_view(p)) =~= Seq::<(Seq<char>, Seq<AuthPermission>)>::empty());
        }
        return Ok(out);
    }
    let pieces = split_text(value.as_str(), ';');
    let entries = nonblank_pieces(&pieces);
    let ghost views = entries@.map_values(|p: String| p@);
    let n = entries.len();
    let mut out: Vec<TokenPolicy> = Vec::new();
    let mut i: usize = 0;
    proof {
        assert(views.subrange(0, 0) =~= Seq::<Seq<char>>::empty());
        assert(out@.map_values(|p: TokenPolicy| spec_policy_view(p)) =~= Seq::<(Seq<char>, Seq<AuthPermission>)>::empty());
    }
    assert(setting == spec_token_policies_of(views));
    while i < n
        invariant
            n == entries@.len(),
            views == entries@.map_values(|p: String| p@),
            setting == spec_token_policies_of(views),
            setting == spec_token_policies_setting(spec_opt_view(raw)),
            i <= n,
            spec_token_policies_of(views.subrange(0, i as int)) == Ok::<Seq<(Seq<char>, Seq<AuthPermission>)>, Seq<char>>(
                out@.map_values(|p: TokenPolicy| spec_policy_view(p)),
            ),
        decreases n - i,
    {
        proof {
            let pre = views.subrange(0, i + 1);
            assert(pre.drop_last() =~= views.subrange(0, i as int));
            assert(pre.last() == entries@[i as int]@);
        }
        match parse_token_policy(entries[i].as_str()) {
            Ok(p) => {
                let ghost before = out@.map_values(|p: TokenPolicy| spec_policy_view(p));
                out.push(p);
                proof {
                    assert(out@.map_values(|p: TokenPolicy| spec_policy_view(p)) =~= before.push(spec_policy_view(p)));
                }
            },
            Err(e) => {
                proof {
                    assert(spec_token_policy(views[i as int]) is Err);
                    assert(spec_token_policies_of(views.subrange(0, i + 1)) == Err::<
                        Seq<(Seq<char>, Seq<AuthPermission>)>,
                        Seq<char>,
                    >(e@));
                    lemma_policies_error_stays(views, i + 1);
                    assert(spec_token_policies_of(views) == Err::<
                        Seq<(Seq<char>, Seq<AuthPermission>)>,
                        Seq<char>,
                    >(e@));
                }
                return Err(e);
            },
        }
        i += 1;
    }
    proof {
        assert(views.subrange(0, n as int) =~= views);
    }
    Ok(out)
}


// ----- request limits -----

/// The raw texts of the limit settings, by field.
#[derive(Debug, Clone, PartialEq, Eq)]
pub struct LimitSettings {
    pub max_http_body_bytes: Option<String>,
    pub max_batch_upsert_requests: Option<String>,
    pub max_recall_items: Option<String>,
    pub max_query_text_bytes: Option<String>,
    pub max_record_content_bytes: Option<String>,
    pub max_labels_per_scope: Option<String>,
    pub max_inflight_reads: Option<String>,
    pub max_inflight_writes: Option<String>,
    pub max_inflight_admin: Option<String>,
    pub max_queued_requests: Option<String>,
    pub max_tenant_inflight: Option<String>,
    pub queue_wait_timeout_ms: Option<String>,
    pub trace_retention: Option<String>,
}

pub open spec fn spec_limit_setting(raw: Option<String>, name: Seq<char>, default: nat) -> Result<nat, Seq<char>> {
    spec_unsigned_setting(spec_opt_view(raw), name, default, usize::MAX as nat)
}

/// The limits the settings ask for, read in a fixed order: each unset
/// setting keeps its default, and the first setting that cannot be read
/// makes the error.
pub open spec fn spec_server_limits(s: LimitSettings) -> Result<ServerLimits, Seq<char>> {
    let max_http_body_bytes = spec_limit_setting(s.max_http_body_bytes, "MNEMARA_MAX_HTTP_BODY_BYTES"@, 65536);
    let max_batch_upsert_requests = spec_limit_setting(s.max_batch_upsert_requests, "MNEMARA_MAX_BATCH_UPSERT_REQUESTS"@, 128);
    let max_recall_items = spec_limit_setting(s.max_recall_items, "MNEMARA_MAX_RECALL_ITEMS"@, 64);
    let max_query_text_bytes = spec_limit_setting(s.max_query_text_bytes, "MNEMARA_MAX_QUERY_TEXT_BYTES"@, 4096);
    let max_record_content_bytes = spec_limit_setting(s.max_record_content_bytes, "MNEMARA_MAX_RECORD_CONTENT_BYTES"@, 32768);
    let max_labels_per_scope = spec_limit_setting(s.max_labels_per_scope, "MNEMARA_MAX_LABELS_PER_SCOPE"@, 32);
    let max_inflight_reads = spec_limit_setting(s.max_inflight_reads, "MNEMARA_MAX_INFLIGHT_READS"@, 64);
    let max_inflight_writes = spec_limit_setting(s.max_inflight_writes, "MNEMARA_MAX_INFLIGHT_WRITES"@, 32);
    let max_inflight_admin = spec_limit_setting(s.max_inflight_admin, "MNEMARA_MAX_INFLIGHT_ADMIN"@, 8);
    let max_queued_requests = spec_limit_setting(s.max_queued_requests, "MNEMARA_MAX_QUEUED_REQUESTS"@, 256);
    let max_tenant_inflight = spec_limit_setting(s.max_tenant_inflight, "MNEMARA_MAX_TENANT_INFLIGHT"@, 16);
    let queue_wait_timeout_ms = spec_limit_setting(s.queue_wait_timeout_ms, "MNEMARA_QUEUE_WAIT_TIMEOUT_MS"@, 2000);
    let trace_retention = spec_limit_setting(s.trace_retention, "MNEMARA_TRACE_RETENTION"@, 256);
    if max_http_body_bytes is Err {
        Err(crate::settings::spec_error_of(max_http_body_bytes))
    } else if max_batch_upsert_requests is Err {
        Err(crate::settings::spec_error_of(max_batch_upsert_requests))
    } else if max_recall_items is Err {
        Err(crate::settings::spec_error_of(max_recall_items))
    } else if max_query_text_bytes is Err {
        Err(crate::settings::spec_error_of(max_query_text_bytes))
    } else if max_record_content_bytes is Err {
        Err(crate::settings::spec_error_of(max_record_content_bytes))
    } else if max_labels_per_scope is Err {
        Err(crate::settings::spec_error_of(max_labels_per_scope))
    } else if max_inflight_reads is Err {
        Err(crate::settings::spec_error_of(max_inflight_reads))
    } else if max_inflight_writes is Err {
        Err(crate::settings::spec_error_of(max_inflight_writes))
    } else if max_inflight_admin is Err {
        Err(crate::settings::spec_error_of(max_inflight_admin))
    } else if max_queued_requests is Err {
        Err(crate::settings::spec_error_of(max_queued_requests))
    } else if max_tenant_inflight is Err {
        Err(crate::settings::spec_error_of(max_tenant_inflight))
    } else if queue_wait_timeout_ms is Err {
        Err(crate::settings::spec_error_of(queue_wait_timeout_ms))
    } else if trace_retention is Err {
        Err(crate::settings::spec_error_of(trace_retention))
    } else {
        Ok(ServerLimits {
            max_http_body_bytes: max_http_body_bytes->Ok_0 as usize,
            max_batch_upsert_requests: max_batch_upsert_requests->Ok_0 as usize,
            max_recall_items: max_recall_items->Ok_0 as usize,
            max_query_text_bytes: max_query_text_bytes->Ok_0 as usize,
            max_record_content_bytes: max_record_content_bytes->Ok_0 as usize,
            max_labels_per_scope: max_labels_per_scope->Ok_0 as usize,
            max_inflight_reads: max_inflight_reads->Ok_0 as usize,
            max_inflight_writes: max_inflight_writes->Ok_0 as usize,
            max_inflight_admin: max_inflight_admin->Ok_0 as usize,
            max_queued_requests: max_queued_requests->Ok_0 as usize,
            max_tenant_inflight: max_tenant_inflight->Ok_0 as usize,
            queue_wait_timeout_ms: queue_wait_timeout_ms->Ok_0 as u64,
            trace_retention: trace_retention->Ok_0 as usize,
        })
    }
}

/// Reads the request limits from their settings.
pub fn server_limits_from_settings(settings: LimitSettings) -> (r: Result<ServerLimits, String>)
    ensures
        match spec_server_limits(settings) {
            Ok(l) => r == Ok::<ServerLimits, String>(l),
            Err(m) => r matches Err(e) && e@ == m,
        },
{
    let max_http_body_bytes = match parse_usize(settings.max_http_body_bytes, "MNEMARA_MAX_HTTP_BODY_BYTES", 65536) {
        Ok(value) => value,
        Err(e) => {
            return Err(e);
        },
    };
    let max_batch_upsert_requests = match parse_usize(settings.max_batch_upsert_requests, "MNEMARA_MAX_BATCH_UPSERT_REQUESTS", 128) {
        Ok(value) => value,
        Err(e) => {
            return Err(e);
        },
    };
    let max_recall_items = match parse_usize(settings.max_recall_items, "MNEMARA_MAX_RECALL_ITEMS", 64) {
        Ok(value) => value,
        Err(e) => {
            return Err(e);
        },
    };
    let max_query_text_bytes = match parse_usize(settings.max_query_text_bytes, "MNEMARA_MAX_QUERY_TEXT_BYTES", 4096) {
        Ok(value) => value,
        Err(e) => {
            return Err(e);
        },
    };
    let max_record_content_bytes = match parse_usize(settings.max_record_content_bytes, "MNEMARA_MAX_RECORD_CONTENT_BYTES", 32768) {
        Ok(value) => value,
        Err(e) => {
            return Err(e);
        },
    };
    let max_labels_per_scope = match parse_usize(settings.max_labels_per_scope, "MNEMARA_MAX_LABELS_PER_SCOPE", 32) {
        Ok(value) => value,
        Err(e) => {
            return Err(e);
        },
    };
    let max_inflight_reads = match parse_usize(settings.max_inflight_reads, "MNEMARA_MAX_INFLIGHT_READS", 64) {
        Ok(value) => value,
        Err(e) => {
            return Err(e);
        },
    };
    let max_inflight_writes = match parse_usize(settings.max_inflight_writes, "MNEMARA_MAX_INFLIGHT_WRITES", 32) {
        Ok(value) => value,
        Err(e) => {
            return Err(e);
        },
    };
    let max_inflight_admin = match parse_usize(settings.max_inflight_admin, "MNEMARA_MAX_INFLIGHT_ADMIN", 8) {
        Ok(value) => value,
        Err(e) => {
            return Err(e);
        },
    };
    let max_queued_requests = match parse_usize(settings.max_queued_requests, "MNEMARA_MAX_QUEUED_REQUESTS", 256) {
        Ok(value) => value,
        Err(e) => {
            return Err(e);
        },
    };
    let max_tenant_inflight = match parse_usize(settings.max_tenant_inflight, "MNEMARA_MAX_TENANT_INFLIGHT", 16) {
        Ok(value) => value,
        Err(e) => {
            return Err(e);
        },
    };
    let queue_wait_timeout_ms = match parse_usize(settings.queue_wait_timeout_ms, "MNEMARA_QUEUE_WAIT_TIMEOUT_MS", 2000) {
        Ok(value) => value,
        Err(e) => {
            return Err(e);
        },
    };
    let trace_retention = match parse_usize(settings.trace_retention, "MNEMARA_TRACE_RETENTION", 256) {
        Ok(value) => value,
        Err(e) => {
            return Err(e);
        },
    };
    Ok(ServerLimits {
        max_http_body_bytes,
        max_batch_upsert_requests,
        max_recall_items,
        max_query_text_bytes,
        max_record_content_bytes,
        max_labels_per_scope,
        max_inflight_reads,
        max_inflight_writes,
        max_inflight_admin,
        max_queued_requests,
        max_tenant_inflight,
        queue_wait_timeout_ms: queue_wait_timeout_ms as u64,
        trace_retention,
    })
}

/// Whether `settings` holds what `get` may answer for each limit's name.
pub open spec fn spec_limits_looked_up<F: Fn(&str) -> Option<String>>(get: F, settings: LimitSettings) -> bool {
    &&& get.ensures(("MNEMARA_MAX_HTTP_BODY_BYTES",), settings.max_http_body_bytes)
    &&& get.ensures(("MNEMARA_MAX_BATCH_UPSERT_REQUESTS",), settings.max_batch_upsert_requests)
    &&& get.ensures(("MNEMARA_MAX_RECALL_ITEMS",), settings.max_recall_items)
    &&& get.ensures(("MNEMARA_MAX_QUERY_TEXT_BYTES",), settings.max_query_text_bytes)
    &&& get.ensures(("MNEMARA_MAX_RECORD_CONTENT_BYTES",), settings.max_record_content_bytes)
    &&& get.ensures(("MNEMARA_MAX_LABELS_PER_SCOPE",), settings.max_labels_per_scope)
    &&& get.ensures(("MNEMARA_MAX_INFLIGHT_READS",), settings.max_inflight_reads)
    &&& get.ensures(("MNEMARA_MAX_INFLIGHT_WRITES",), settings.max_inflight_writes)
    &&& get.ensures(("MNEMARA_MAX_INFLIGHT_ADMIN",), settings.max_inflight_admin)
    &&& get.ensures(("MNEMARA_MAX_QUEUED_REQUESTS",), settings.max_queued_requests)
    &&& get.ensures(("MNEMARA_MAX_TENANT_INFLIGHT",), settings.max_tenant_inflight)
    &&& get.ensures(("MNEMARA_QUEUE_WAIT_TIMEOUT_MS",), settings.queue_wait_timeout_ms)
    &&& get.ensures(("MNEMARA_TRACE_RETENTION",), settings.trace_retention)
}

impl LimitSettings {
    /// Asks `get` for the text of each limit setting, by its name.
    pub fn from_lookup<F: Fn(&str) -> Option<String>>(get: F) -> (r: LimitSettings)
        requires
            forall|name: &str| get.requires((name,)),
        ensures
            spec_limits_looked_up(get, r),
    {
        LimitSettings {
            max_http_body_bytes: get("MNEMARA_MAX_HTTP_BODY_BYTES"),
            max_batch_upsert_requests: get("MNEMARA_MAX_BATCH_UPSERT_REQUESTS"),
            max_recall_items: get("MNEMARA_MAX_RECALL_ITEMS"),
            max_query_text_bytes: get("MNEMARA_MAX_QUERY_TEXT_BYTES"),
            max_record_content_bytes: get("MNEMARA_MAX_RECORD_CONTENT_BYTES"),
            max_labels_per_scope: get("MNEMARA_MAX_LABELS_PER_SCOPE"),
            max_inflight_reads: get("MNEMARA_MAX_INFLIGHT_READS"),
            max_inflight_writes: get("MNEMARA_MAX_INFLIGHT_WRITES"),
            max_inflight_admin: get("MNEMARA_MAX_INFLIGHT_ADMIN"),
            max_queued_requests: get("MNEMARA_MAX_QUEUED_REQUESTS"),
            max_tenant_inflight: get("MNEMARA_MAX_TENANT_INFLIGHT"),
            queue_wait_timeout_ms: get("MNEMARA_QUEUE_WAIT_TIMEOUT_MS"),
            trace_retention: get("MNEMARA_TRACE_RETENTION"),
        }
    }
}

/// Reads the request limits from the settings `get` answers for each name
/// (the process environment, in the server).
pub fn server_limits_from<F: Fn(&str) -> Option<String>>(get: F) -> (r: Result<ServerLimits, String>)
    requires
        forall|name: &str| get.requires((name,)),
    ensures
        exists|s: LimitSettings|
            spec_limits_looked_up(get, s) && match spec_server_limits(s) {
                Ok(l) => r == Ok::<ServerLimits, String>(l),
                Err(m) => r matches Err(e) && e@ == m,
            },
{
    let settings = LimitSettings::from_lookup(get);
    let ghost s = settings;
    let r = server_limits_from_settings(settings);
    assert(spec_limits_looked_up(get, s));
    r
}


/// The authentication of a server from its three settings: the full-access
/// token, whether metrics are protected, and the per-token permissions
/// (whose error, if any, is the error).
pub fn auth_config_from_settings(
    bearer_token: Option<String>,
    protect_metrics: Option<String>,
    token_policies: Option<String>,
) -> (r: Result<crate::server::AuthConfig, String>)
    ensures
        match spec_token_policies_setting(spec_opt_view(token_policies)) {
            Ok(v) => r matches Ok(c) && spec_opt_view(c.bearer_token) == spec_bearer_token_setting(
                spec_opt_view(bearer_token),
            ) && c.protect_metrics == spec_protect_metrics_setting(spec_opt_view(protect_metrics))
                && c.token_policies@.map_values(|p: TokenPolicy| spec_policy_view(p)) == v,
            Err(m) => r matches Err(e) && e@ == m,
        },
{
    let policies = match token_policies_from_setting(token_policies) {
        Ok(ps) => ps,
        Err(e) => {
            return Err(e);
        },
    };
    Ok(crate::server::AuthConfig {
        bearer_token: bearer_token_setting(bearer_token),
        protect_metrics: protect_metrics_setting(protect_metrics),
        token_policies: policies,
    })
}

} // verus!

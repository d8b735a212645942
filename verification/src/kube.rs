//! The kubeconfig document model and the rewrite applied to every fetched
//! document: provenance metadata, API-server address, and the renaming of the
//! first cluster, context and user to one unique name.

use vstd::prelude::*;

use crate::codec::{
    base64_decode, base64_decode_of, cert_not_after, cert_not_after_of, parse_rfc3339,
    parse_rfc3339_of, rfc3339_of, rfc3339_utc, sha256_hex, sha256_hex_of,
};
use crate::find::{first_where, lemma_first_where_is, lemma_first_where_none};
use crate::kvlist::{kv_get, kv_index, kv_model, kv_set, kv_upsert, kv_value};
use crate::text::str_eq;
use vstd::string::{StrSliceExecFns, StringExecFns};

verus! {

// ─── Document types ──────────────────────────────────────────────────────────

/// Connection details of one cluster.
pub struct Cluster {
    /// URL of the Kubernetes API server.
    pub server: String,
    /// Base64-encoded certificate-authority data.
    pub certificate_authority: String,
}

/// A named cluster entry.
pub struct ClusterInfo {
    pub name: String,
    pub cluster: Cluster,
}

/// A context body: the pairing of one cluster and one user.
pub struct Context {
    pub user: String,
    pub cluster: String,
}

/// A named context entry.
pub struct ContextInfo {
    pub name: String,
    pub context: Context,
}

/// Authentication material of one user.
pub struct User {
    /// Base64-encoded client certificate data.
    pub certificate_data: String,
    /// Base64-encoded client key data.
    pub key_data: String,
}

/// A named user entry.
pub struct UserInfo {
    pub name: String,
    pub user: User,
}

/// A kubeconfig document.
pub struct KubeConfig {
    pub api_version: String,
    pub kind: String,
    pub current_context: String,
    pub clusters: Vec<ClusterInfo>,
    pub contexts: Vec<ContextInfo>,
    pub users: Vec<UserInfo>,
    /// Insertion-ordered key/value preferences.
    pub preferences: Vec<(String, String)>,
}

// ─── Mathematical models ─────────────────────────────────────────────────────

#[verifier::ext_equal]
pub struct ClusterModel {
    pub name: Seq<char>,
    pub server: Seq<char>,
    pub certificate_authority: Seq<char>,
}

#[verifier::ext_equal]
pub struct ContextModel {
    pub name: Seq<char>,
    pub cluster: Seq<char>,
    pub user: Seq<char>,
}

#[verifier::ext_equal]
pub struct UserModel {
    pub name: Seq<char>,
    pub certificate_data: Seq<char>,
    pub key_data: Seq<char>,
}

#[verifier::ext_equal]
pub struct KubeModel {
    pub api_version: Seq<char>,
    pub kind: Seq<char>,
    pub current_context: Seq<char>,
    pub clusters: Seq<ClusterModel>,
    pub contexts: Seq<ContextModel>,
    pub users: Seq<UserModel>,
    pub preferences: Seq<(Seq<char>, Seq<char>)>,
}

impl View for ClusterInfo {
    type V = ClusterModel;

    open spec fn view(&self) -> ClusterModel {
        ClusterModel {
            name: self.name@,
            server: self.cluster.server@,
            certificate_authority: self.cluster.certificate_authority@,
        }
    }
}

impl View for ContextInfo {
    type V = ContextModel;

    open spec fn view(&self) -> ContextModel {
        ContextModel { name: self.name@, cluster: self.context.cluster@, user: self.context.user@ }
    }
}

impl View for UserInfo {
    type V = UserModel;

    open spec fn view(&self) -> UserModel {
        UserModel {
            name: self.name@,
            certificate_data: self.user.certificate_data@,
            key_data: self.user.key_data@,
        }
    }
}

/// The model of a vector of named entries.
pub open spec fn entries_model<T: View>(v: Seq<T>) -> Seq<T::V> {
    v.map_values(|e: T| e@)
}

/// The model of the preference list.
pub open spec fn prefs_model(v: Seq<(String, String)>) -> Seq<(Seq<char>, Seq<char>)> {
    kv_model(v)
}

impl View for KubeConfig {
    type V = KubeModel;

    open spec fn view(&self) -> KubeModel {
        KubeModel {
            api_version: self.api_version@,
            kind: self.kind@,
            current_context: self.current_context@,
            clusters: entries_model(self.clusters@),
            contexts: entries_model(self.contexts@),
            users: entries_model(self.users@),
            preferences: prefs_model(self.preferences@),
        }
    }
}

impl ClusterInfo {
    /// A structural copy with equal contents.
    pub fn duplicate(&self) -> (r: ClusterInfo)
        ensures
            r@ == self@,
    {
        ClusterInfo {
            name: self.name.clone(),
            cluster: Cluster {
                server: self.cluster.server.clone(),
                certificate_authority: self.cluster.certificate_authority.clone(),
            },
        }
    }
}

impl ContextInfo {
    /// A structural copy with equal contents.
    pub fn duplicate(&self) -> (r: ContextInfo)
        ensures
            r@ == self@,
    {
        ContextInfo {
            name: self.name.clone(),
            context: Context {
                user: self.context.user.clone(),
                cluster: self.context.cluster.clone(),
            },
        }
    }
}

impl UserInfo {
    /// A structural copy with equal contents.
    pub fn duplicate(&self) -> (r: UserInfo)
        ensures
            r@ == self@,
    {
        UserInfo {
            name: self.name.clone(),
            user: User {
                certificate_data: self.user.certificate_data.clone(),
                key_data: self.user.key_data.clone(),
            },
        }
    }
}

// ─── Preferences: ordered upsert-by-key map ──────────────────────────────────

/// Index of the first entry with the given key, or -1.
pub open spec fn pref_index(prefs: Seq<(Seq<char>, Seq<char>)>, key: Seq<char>) -> int {
    kv_index(prefs, key)
}

/// The value recorded under `key`, if any.
pub open spec fn pref_value(prefs: Seq<(Seq<char>, Seq<char>)>, key: Seq<char>) -> Option<
    Seq<char>,
> {
    kv_value(prefs, key)
}

/// The preference list after recording `val` under `key`: the first entry with
/// that key is replaced in place, or a new entry is appended.
pub open spec fn pref_upsert(
    prefs: Seq<(Seq<char>, Seq<char>)>,
    key: Seq<char>,
    val: Seq<char>,
) -> Seq<(Seq<char>, Seq<char>)> {
    kv_upsert(prefs, key, val)
}

/// Record `val` under `key` in the preference list.
pub fn pref_set(prefs: &mut Vec<(String, String)>, key: &str, val: String)
    ensures
        prefs_model(final(prefs)@) == pref_upsert(prefs_model(old(prefs)@), key@, val@),
{
    kv_set(prefs, key, val);
}

/// Look up the value recorded under `key`.
pub fn pref_get<'a>(prefs: &'a Vec<(String, String)>, key: &str) -> (r: Option<&'a String>)
    ensures
        match r {
            Some(v) => pref_value(prefs_model(prefs@), key@) == Some(v@),
            None => pref_value(prefs_model(prefs@), key@) is None,
        },
{
    kv_get(prefs, key)
}

// ─── Certificate expiry ──────────────────────────────────────────────────────

/// What a cached document says about the active certificate: still valid
/// until an instant, expired at an instant, or nothing usable.
#[derive(Clone, Copy, PartialEq, Eq, Structural, Debug)]
pub enum CertStatus {
    Valid(i64),
    Expired(i64),
    Unknown,
}

/// Index of the first context with the given name, or -1.
pub open spec fn context_index(s: Seq<ContextModel>, name: Seq<char>) -> int {
    first_where(s, |c: ContextModel| c.name == name)
}

/// Index of the first user with the given name, or -1.
pub open spec fn user_index(s: Seq<UserModel>, name: Seq<char>) -> int {
    first_where(s, |u: UserModel| u.name == name)
}

/// The `notAfter` instant of the active context's user certificate: resolve
/// the current context, then its user, then decode and parse the certificate.
pub open spec fn active_cert_expiry(m: KubeModel) -> Option<i64> {
    let ci = context_index(m.contexts, m.current_context);
    if ci < 0 {
        None
    } else {
        let ui = user_index(m.users, m.contexts[ci].user);
        if ui < 0 {
            None
        } else {
            match base64_decode_of(m.users[ui].certificate_data) {
                Some(pem) => cert_not_after_of(pem),
                None => None,
            }
        }
    }
}

/// Index of the first context entry named `name`.
fn find_context(contexts: &Vec<ContextInfo>, name: &str) -> (r: Option<usize>)
    ensures
        match r {
            Some(i) => i < contexts@.len() && context_index(entries_model(contexts@), name@)
                == i as int,
            None => context_index(entries_model(contexts@), name@) == -1,
        },
{
    let ghost m = entries_model(contexts@);
    let ghost p = |c: ContextModel| c.name == name@;
    let mut i: usize = 0;
    while i < contexts.len()
        invariant
            m == entries_model(contexts@),
            p == (|c: ContextModel| c.name == name@),
            i <= contexts@.len(),
            forall|k: int| 0 <= k < i ==> !p(#[trigger] m[k]),
        decreases contexts@.len() - i,
    {
        if str_eq(contexts[i].name.as_str(), name) {
            proof {
                assert(m[i as int] == contexts@[i as int]@);
                assert(p(m[i as int]));
                lemma_first_where_is(m, p, i as int);
            }
            return Some(i);
        }
        proof {
            assert(m[i as int] == contexts@[i as int]@);
            assert(!p(m[i as int]));
        }
        i = i + 1;
    }
    proof {
        lemma_first_where_none(m, p);
    }
    None
}

/// Index of the first user entry named `name`.
fn find_user(users: &Vec<UserInfo>, name: &str) -> (r: Option<usize>)
    ensures
        match r {
            Some(i) => i < users@.len() && user_index(entries_model(users@), name@) == i as int,
            None => user_index(entries_model(users@), name@) == -1,
        },
{
    let ghost m = entries_model(users@);
    let ghost p = |u: UserModel| u.name == name@;
    let mut i: usize = 0;
    while i < users.len()
        invariant
            m == entries_model(users@),
            p == (|u: UserModel| u.name == name@),
            i <= users@.len(),
            forall|k: int| 0 <= k < i ==> !p(#[trigger] m[k]),
        decreases users@.len() - i,
    {
        if str_eq(users[i].name.as_str(), name) {
            proof {
                assert(m[i as int] == users@[i as int]@);
                assert(p(m[i as int]));
                lemma_first_where_is(m, p, i as int);
            }
            return Some(i);
        }
        proof {
            assert(m[i as int] == users@[i as int]@);
            assert(!p(m[i as int]));
        }
        i = i + 1;
    }
    proof {
        lemma_first_where_none(m, p);
    }
    None
}

/// The expiry instant of the active context's user certificate, best effort.
pub fn active_user_cert_expiry(doc: &KubeConfig) -> (r: Option<i64>)
    ensures
        r == active_cert_expiry(doc@),
{
    let ci = match find_context(&doc.contexts, doc.current_context.as_str()) {
        Some(i) => i,
        None => {
            return None;
        },
    };
    proof {
        assert(doc@.contexts[ci as int] == doc.contexts@[ci as int]@);
    }
    let ui = match find_user(&doc.users, doc.contexts[ci].context.user.as_str()) {
        Some(i) => i,
        None => {
            return None;
        },
    };
    proof {
        assert(doc@.users[ui as int] == doc.users@[ui as int]@);
    }
    match base64_decode(doc.users[ui].user.certificate_data.as_str()) {
        Some(pem) => cert_not_after(pem.as_slice()),
        None => None,
    }
}

/// What a cached local document (if one parsed at all) says about certificate
/// expiry at instant `now`. A missing or unusable document, or a missing or
/// unparsable expiry record, is `Unknown` — never a reason to skip.
pub open spec fn spec_cert_status(doc: Option<KubeModel>, now: i64) -> CertStatus {
    match doc {
        None => CertStatus::Unknown,
        Some(m) => match pref_value(m.preferences, "certificate-expires-at"@) {
            Some(v) => match parse_rfc3339_of(v) {
                Some(t) => if t > now {
                    CertStatus::Valid(t)
                } else {
                    CertStatus::Expired(t)
                },
                None => CertStatus::Unknown,
            },
            None => CertStatus::Unknown,
        },
    }
}

/// The model of an optional document.
pub open spec fn opt_doc_model(doc: Option<&KubeConfig>) -> Option<KubeModel> {
    match doc {
        Some(d) => Some(d@),
        None => None,
    }
}

/// Read the recorded certificate expiry of a cached local document against
/// the instant `now`.
pub fn check_local_cert_expiry(doc: Option<&KubeConfig>, now: i64) -> (r: CertStatus)
    ensures
        r == spec_cert_status(opt_doc_model(doc), now),
{
    let d = match doc {
        Some(d) => d,
        None => {
            return CertStatus::Unknown;
        },
    };
    let recorded = match pref_get(&d.preferences, "certificate-expires-at") {
        Some(v) => v,
        None => {
            return CertStatus::Unknown;
        },
    };
    match parse_rfc3339(recorded.as_str()) {
        Some(t) => {
            if t > now {
                CertStatus::Valid(t)
            } else {
                CertStatus::Expired(t)
            }
        },
        None => CertStatus::Unknown,
    }
}

// ─── The rewrite ─────────────────────────────────────────────────────────────

/// A document too malformed to rewrite: the error names what is missing.
#[derive(Clone, Copy, PartialEq, Eq, Structural, Debug)]
pub enum TransformError {
    NoClusters,
    NoContexts,
    NoUsers,
}

impl TransformError {
    /// Human-readable description.
    pub fn message(&self) -> (r: &'static str)
        ensures
            r@ == match self {
                TransformError::NoClusters => "no clusters found in the kubeconfig file"@,
                TransformError::NoContexts => "no contexts found in the kubeconfig file"@,
                TransformError::NoUsers => "no users found in the kubeconfig file"@,
            },
    {
        match self {
            TransformError::NoClusters => "no clusters found in the kubeconfig file",
            TransformError::NoContexts => "no contexts found in the kubeconfig file",
            TransformError::NoUsers => "no users found in the kubeconfig file",
        }
    }
}

/// The one name every renamed entry receives: the explicit context name when
/// one is configured, else the server's own name.
pub open spec fn unique_name_spec(explicit: Option<Seq<char>>, server: Seq<char>) -> Seq<char> {
    match explicit {
        Some(x) => x,
        None => server,
    }
}

/// The model of an optional owned string.
pub open spec fn opt_str_model(o: Option<String>) -> Option<Seq<char>> {
    match o {
        Some(s) => Some(s@),
        None => None,
    }
}

/// The API-server URL written for a target address.
pub open spec fn url_of(ip: Seq<char>) -> Seq<char> {
    "https://"@ + ip + ":6443"@
}

/// The rewritten document: provenance preferences recorded, the first
/// cluster's server URL pointed at `ip`, and the first cluster, context and
/// user renamed to `uname`, with the context repointed and `current_context`
/// set to `uname`.
pub open spec fn spec_transform(
    m: KubeModel,
    ip: Seq<char>,
    hash: Seq<char>,
    uname: Seq<char>,
    now: i64,
) -> KubeModel
    recommends
        m.clusters.len() > 0,
        m.contexts.len() > 0,
        m.users.len() > 0,
{
    let prefs1 = pref_upsert(m.preferences, "source-file-sha256"@, hash);
    let prefs2 = pref_upsert(prefs1, "script-last-updated"@, rfc3339_of(now));
    let prefs3 = match active_cert_expiry(m) {
        Some(t) => pref_upsert(prefs2, "certificate-expires-at"@, rfc3339_of(t)),
        None => prefs2,
    };
    KubeModel {
        api_version: m.api_version,
        kind: m.kind,
        current_context: uname,
        clusters: m.clusters.update(
            0,
            ClusterModel {
                name: uname,
                server: url_of(ip),
                certificate_authority: m.clusters[0].certificate_authority,
            },
        ),
        contexts: m.contexts.update(0, ContextModel { name: uname, cluster: uname, user: uname }),
        users: m.users.update(
            0,
            UserModel {
                name: uname,
                certificate_data: m.users[0].certificate_data,
                key_data: m.users[0].key_data,
            },
        ),
        preferences: prefs3,
    }
}

/// The API-server URL for a target address.
fn cluster_url(ip: &str) -> (r: String)
    ensures
        r@ == url_of(ip@),
{
    let mut s = String::from_str("https://");
    s.append(ip);
    s.append(":6443");
    s
}

/// Rewrite a fetched document in place.
///
/// On success the document equals `spec_transform` of the old one. The
/// rewrite is refused — and the document left untouched — exactly when the
/// document lacks clusters, contexts or users, with the error naming the
/// first missing section in that order.
pub fn transform_kubeconfig(
    doc: &mut KubeConfig,
    target_ip: &str,
    source_hash: &str,
    explicit_context: &Option<String>,
    server_name: &str,
    now: i64,
) -> (r: Result<(), TransformError>)
    ensures
        ({
            let m = old(doc)@;
            let uname = unique_name_spec(opt_str_model(*explicit_context), server_name@);
            match r {
                Ok(()) => m.clusters.len() > 0 && m.contexts.len() > 0 && m.users.len() > 0
                    && final(doc)@ == spec_transform(m, target_ip@, source_hash@, uname, now),
                Err(TransformError::NoClusters) => m.clusters.len() == 0 && *final(doc) == *old(doc),
                Err(TransformError::NoContexts) => m.clusters.len() > 0 && m.contexts.len() == 0
                    && *final(doc) == *old(doc),
                Err(TransformError::NoUsers) => m.clusters.len() > 0 && m.contexts.len() > 0
                    && m.users.len() == 0 && *final(doc) == *old(doc),
            }
        }),
{
    if doc.clusters.len() == 0 {
        return Err(TransformError::NoClusters);
    }
    if doc.contexts.len() == 0 {
        return Err(TransformError::NoContexts);
    }
    if doc.users.len() == 0 {
        return Err(TransformError::NoUsers);
    }
    let ghost m = doc@;

    // Provenance metadata, computed from the document as fetched.
    let expiry = active_user_cert_expiry(doc);
    pref_set(&mut doc.preferences, "source-file-sha256", source_hash.to_owned());
    pref_set(&mut doc.preferences, "script-last-updated", rfc3339_utc(now));
    if let Some(t) = expiry {
        pref_set(&mut doc.preferences, "certificate-expires-at", rfc3339_utc(t));
    }

    let uname: &str = match explicit_context {
        Some(x) => x.as_str(),
        None => server_name,
    };

    // Point the first cluster at the target address and rename it.
    let mut c0 = doc.clusters.remove(0);
    c0.name = uname.to_owned();
    c0.cluster.server = cluster_url(target_ip);
    doc.clusters.insert(0, c0);

    // Rename the first context and repoint it at the renamed entries.
    let mut x0 = doc.contexts.remove(0);
    x0.name = uname.to_owned();
    x0.context.cluster = uname.to_owned();
    x0.context.user = uname.to_owned();
    doc.contexts.insert(0, x0);

    // Rename the first user.
    let mut u0 = doc.users.remove(0);
    u0.name = uname.to_owned();
    doc.users.insert(0, u0);

    doc.current_context = uname.to_owned();

    proof {
        let uname_s = unique_name_spec(opt_str_model(*explicit_context), server_name@);
        let t = spec_transform(m, target_ip@, source_hash@, uname_s, now);
        assert(entries_model(doc.clusters@) =~= t.clusters);
        assert(entries_model(doc.contexts@) =~= t.contexts);
        assert(entries_model(doc.users@) =~= t.users);
        assert(doc@ =~= t);
    }
    Ok(())
}

/// Law: the rewrite leaves `current_context` and the renamed first cluster,
/// context and user all carrying the one unique name — the explicit context
/// name when one is configured, else the server's own name — with the first
/// cluster pointed at the target address and no entry added or dropped.
pub proof fn lemma_transform_names(
    m: KubeModel,
    ip: Seq<char>,
    hash: Seq<char>,
    explicit: Option<Seq<char>>,
    server: Seq<char>,
    now: i64,
)
    requires
        m.clusters.len() > 0,
        m.contexts.len() > 0,
        m.users.len() > 0,
    ensures
        ({
            let uname = unique_name_spec(explicit, server);
            let t = spec_transform(m, ip, hash, uname, now);
            &&& t.current_context == uname
            &&& t.clusters[0].name == uname
            &&& t.contexts[0].name == uname
            &&& t.contexts[0].cluster == uname
            &&& t.contexts[0].user == uname
            &&& t.users[0].name == uname
            &&& t.clusters[0].server == url_of(ip)
            &&& t.clusters.len() == m.clusters.len()
            &&& t.contexts.len() == m.contexts.len()
            &&& t.users.len() == m.users.len()
            &&& (explicit is None ==> uname == server)
            &&& (explicit matches Some(x) ==> uname == x)
        }),
{
}

/// Process one fetched document end to end, as far as computation reaches:
/// hash the raw fetched bytes, compare that hash against the cached
/// document's recorded one (drift), and rewrite the document. Returns the
/// hash and the drift flag; the rewrite is refused exactly as
/// [`transform_kubeconfig`] refuses it, leaving the document untouched.
pub fn process_fetched_document(
    doc: &mut KubeConfig,
    cached: Option<&KubeConfig>,
    raw: &[u8],
    target_ip: &str,
    explicit_context: &Option<String>,
    server_name: &str,
    now: i64,
) -> (r: Result<(String, bool), TransformError>)
    ensures
        ({
            let m = old(doc)@;
            let uname = unique_name_spec(opt_str_model(*explicit_context), server_name@);
            let hash = sha256_hex_of(raw@);
            match r {
                Ok((h, drift)) => h@ == hash && drift == spec_drift(opt_doc_model(cached), hash)
                    && m.clusters.len() > 0 && m.contexts.len() > 0 && m.users.len() > 0
                    && final(doc)@ == spec_transform(m, target_ip@, hash, uname, now),
                Err(TransformError::NoClusters) => m.clusters.len() == 0 && *final(doc) == *old(
                    doc,
                ),
                Err(TransformError::NoContexts) => m.clusters.len() > 0 && m.contexts.len() == 0
                    && *final(doc) == *old(doc),
                Err(TransformError::NoUsers) => m.clusters.len() > 0 && m.contexts.len() > 0
                    && m.users.len() == 0 && *final(doc) == *old(doc),
            }
        }),
{
    let hash = sha256_hex(raw);
    let drift = detect_drift(cached, hash.as_str());
    match transform_kubeconfig(doc, target_ip, hash.as_str(), explicit_context, server_name, now) {
        Ok(()) => Ok((hash, drift)),
        Err(e) => Err(e),
    }
}

/// Law: the rewrite records the fetched bytes' hash under
/// `source-file-sha256` and the rewrite instant under `script-last-updated`,
/// whatever the document held under those keys before.
pub proof fn lemma_transform_records_provenance(
    m: KubeModel,
    ip: Seq<char>,
    hash: Seq<char>,
    uname: Seq<char>,
    now: i64,
)
    ensures
        ({
            let t = spec_transform(m, ip, hash, uname, now);
            &&& pref_value(t.preferences, "source-file-sha256"@) == Some(hash)
            &&& pref_value(t.preferences, "script-last-updated"@) == Some(rfc3339_of(now))
        }),
{
    let k_hash = "source-file-sha256"@;
    let k_time = "script-last-updated"@;
    let k_cert = "certificate-expires-at"@;
    reveal_strlit("source-file-sha256");
    reveal_strlit("script-last-updated");
    reveal_strlit("certificate-expires-at");
    // The three keys differ (already by their lengths).
    assert(k_hash.len() == 18);
    assert(k_time.len() == 19);
    assert(k_cert.len() == 22);

    let p1 = pref_upsert(m.preferences, k_hash, hash);
    let p2 = pref_upsert(p1, k_time, rfc3339_of(now));
    crate::kvlist::lemma_kv_upsert_reads_back(m.preferences, k_hash, hash);
    crate::kvlist::lemma_kv_upsert_reads_back(p1, k_time, rfc3339_of(now));
    crate::kvlist::lemma_kv_upsert_preserves_others(p1, k_time, rfc3339_of(now), k_hash);
    match active_cert_expiry(m) {
        Some(t0) => {
            crate::kvlist::lemma_kv_upsert_preserves_others(p2, k_cert, rfc3339_of(t0), k_hash);
            crate::kvlist::lemma_kv_upsert_preserves_others(p2, k_cert, rfc3339_of(t0), k_time);
        },
        None => {},
    }
}

// ─── Drift detection ─────────────────────────────────────────────────────────

/// The remote content changed since the last run: the cached document records
/// a source hash different from the newly computed one. A missing cache or a
/// cache without a recorded hash is no drift.
pub open spec fn spec_drift(old_doc: Option<KubeModel>, new_hash: Seq<char>) -> bool {
    match old_doc {
        Some(m) => match pref_value(m.preferences, "source-file-sha256"@) {
            Some(h) => h != new_hash,
            None => false,
        },
        None => false,
    }
}

/// Whether the cached document's recorded source hash differs from the newly
/// computed one — a signal worth a warning, never an error.
pub fn detect_drift(old_doc: Option<&KubeConfig>, source_hash: &str) -> (b: bool)
    ensures
        b == spec_drift(opt_doc_model(old_doc), source_hash@),
{
    let d = match old_doc {
        Some(d) => d,
        None => {
            return false;
        },
    };
    match pref_get(&d.preferences, "source-file-sha256") {
        Some(h) => !str_eq(h.as_str(), source_hash),
        None => false,
    }
}

} // verus!

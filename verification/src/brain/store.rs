//! The brain store's decisions: which brain a reference names, which brain
//! is active, how brains are listed and named, how API keys map to brains,
//! and what creating or importing a brain writes.
use vstd::prelude::*;

use crate::brain::crypto::{
    base64_decoded, decrypt_spec, derive_key, nonce_fits, signature_check_spec, try_decrypt_bytes,
    verify_manifest_signature, argon2_key,
};
use crate::brain::jtext::{json_object, json_object_text, json_quote};
use crate::brain::slug::{slugify, slugify_spec};
use crate::brain::state::{audit_view, quoted, BrainError, BrainErrorView, Stamp, StampView};
use crate::brain::types::{
    ApiKeyMapping, ApiKeyMappingView, AppConfig, AuditEntry, AuditEntryView, BrainManifest,
    BrainManifestView, BrainState, BrainStateView, BrainSummary, BrainSummaryView, BranchState,
    BranchStateView, CreateBrainRequest, EncryptedBlob,
};
use crate::hash::{sha256_hex, sha256_hex_spec};
use crate::smap::StrMap;
use crate::sort::{sort_by_key, sort_stable, SortKey};
use crate::text::{chars_of, owned, push_char, str_eq, trim, trim_str};
use vstd::utf8::encode_utf8;

verus! {

/// The store of brains under a home directory.
pub struct BrainStore {
    home_dir: String,
}

/// Whether a summary answers to a reference: its id or its name.
pub open spec fn answers_to(b: BrainSummaryView, r: Seq<char>) -> bool {
    b.brain_id == r || b.name == r
}

/// The first listed brain that answers to a reference.
pub open spec fn resolve_spec(all: Seq<BrainSummaryView>, r: Seq<char>) -> Option<BrainSummaryView>
    decreases all.len(),
{
    if all.len() == 0 {
        None
    } else if answers_to(all[0], r) {
        Some(all[0])
    } else {
        resolve_spec(all.drop_first(), r)
    }
}

/// The hex SHA-256 of an API key's UTF-8 text.
pub open spec fn key_hash_spec(api_key: Seq<char>) -> Seq<char> {
    sha256_hex_spec(encode_utf8(api_key))
}

/// The mappings without those of a key hash.
pub open spec fn without_hash(m: Seq<ApiKeyMappingView>, h: Seq<char>) -> Seq<ApiKeyMappingView>
    decreases m.len(),
{
    if m.len() == 0 {
        m
    } else if m.last().key_hash == h {
        without_hash(m.drop_last(), h)
    } else {
        without_hash(m.drop_last(), h).push(m.last())
    }
}

/// The first mapping of a key hash.
pub open spec fn find_hash(m: Seq<ApiKeyMappingView>, h: Seq<char>) -> Option<ApiKeyMappingView>
    decreases m.len(),
{
    if m.len() == 0 {
        None
    } else if m[0].key_hash == h {
        Some(m[0])
    } else {
        find_hash(m.drop_first(), h)
    }
}

/// The summary of a manifest.
pub open spec fn summary_spec(m: BrainManifestView) -> BrainSummaryView {
    BrainSummaryView {
        brain_id: m.brain_id,
        name: m.name,
        tenant_id: m.tenant_id,
        updated_at: m.updated_at,
        active_branch: m.active_branch,
    }
}

impl SortKey for BrainSummary {
    open spec fn key_of(v: BrainSummaryView) -> Seq<char> {
        v.name
    }

    fn sort_key(&self) -> (k: &String) {
        &self.name
    }
}

fn clone_summary(b: &BrainSummary) -> (c: BrainSummary)
    ensures
        c@ == b@,
{
    b.clone()
}

/// The summary of a manifest.
pub fn summary_of(m: &BrainManifest) -> (s: BrainSummary)
    ensures
        s@ == summary_spec(m@),
{
    BrainSummary {
        brain_id: m.brain_id.clone(),
        name: m.name.clone(),
        tenant_id: m.tenant_id.clone(),
        updated_at: m.updated_at.clone(),
        active_branch: m.active_branch.clone(),
    }
}

/// The hex SHA-256 of an API key's UTF-8 text.
pub fn key_hash(api_key: &str) -> (h: String)
    ensures
        h@ == key_hash_spec(api_key@),
{
    sha256_hex(api_key.as_bytes())
}

impl BrainStore {
    /// The store under `home_dir`.
    pub fn at(home_dir: &str) -> (s: BrainStore)
        ensures
            s.home_dir_spec() == home_dir@,
    {
        BrainStore { home_dir: owned(home_dir) }
    }

    /// The directory the store lives in.
    pub closed spec fn home_dir_spec(&self) -> Seq<char> {
        self.home_dir@
    }

    /// The directory the store lives in.
    pub fn home_dir(&self) -> (d: &str)
        ensures
            d@ == self.home_dir_spec(),
    {
        self.home_dir.as_str()
    }

    /// The brains found, listed by name (a stable sort, so brains of one
    /// name keep the order they were found in).
    pub fn list_brains(&self, found: Vec<BrainSummary>) -> (out: Vec<BrainSummary>)
        ensures
            out@.map_values(|b: BrainSummary| b@) == sort_stable(
                found@.map_values(|b: BrainSummary| b@),
                |v: BrainSummaryView| v.name,
            ),
    {
        let out = sort_by_key(found);
        assert((|m: BrainSummaryView| <BrainSummary as SortKey>::key_of(m)) =~= (|v: BrainSummaryView|
            v.name));
        out
    }

    /// The first listed brain whose id or name is `brain_ref`.
    pub fn resolve_brain(&self, all: &Vec<BrainSummary>, brain_ref: &str) -> (r: Result<BrainSummary, BrainError>)
        ensures
            match resolve_spec(all@.map_values(|b: BrainSummary| b@), brain_ref@) {
                Some(b) => r matches Ok(x) && x@ == b,
                None => r matches Err(e) && e@ == BrainErrorView::BrainNotFound(brain_ref@),
            },
    {
        let ghost v = all@.map_values(|b: BrainSummary| b@);
        let mut i: usize = 0;
        assert(v.skip(0) =~= v);
        while i < all.len()
            invariant
                i <= all.len(),
                v == all@.map_values(|b: BrainSummary| b@),
                resolve_spec(v, brain_ref@) == resolve_spec(v.skip(i as int), brain_ref@),
            decreases all.len() - i,
        {
            assert(v.skip(i as int)[0] == v[i as int]);
            assert(v.skip(i as int).drop_first() =~= v.skip(i + 1));
            if str_eq(all[i].brain_id.as_str(), brain_ref) || str_eq(all[i].name.as_str(), brain_ref) {
                return Ok(clone_summary(&all[i]));
            }
            i += 1;
        }
        assert(v.skip(i as int).len() == 0);
        Err(BrainError::BrainNotFound(owned(brain_ref)))
    }

    /// Makes the brain `brain_ref` names the active one: its summary and
    /// the configuration to write.
    pub fn set_active_brain(&self, all: &Vec<BrainSummary>, brain_ref: &str) -> (r: Result<
        (BrainSummary, AppConfig),
        BrainError,
    >)
        ensures
            match resolve_spec(all@.map_values(|b: BrainSummary| b@), brain_ref@) {
                Some(b) => r matches Ok(x) && x.0@ == b && (x.1.active_brain matches Some(id) && id@
                    == b.brain_id),
                None => r matches Err(e) && e@ == BrainErrorView::BrainNotFound(brain_ref@),
            },
    {
        match self.resolve_brain(all, brain_ref) {
            Ok(b) => {
                let cfg = AppConfig { active_brain: Some(b.brain_id.clone()) };
                Ok((b, cfg))
            },
            Err(e) => Err(e),
        }
    }

    /// The active brain's id, if one is set.
    pub fn active_brain_id(&self, cfg: &AppConfig) -> (r: Option<String>)
        ensures
            match cfg.active_brain {
                Some(id) => r matches Some(x) && x@ == id@,
                None => r is None,
            },
    {
        match &cfg.active_brain {
            Some(id) => Some(id.clone()),
            None => None,
        }
    }

    /// The brain a command works on: the one named, else the one the
    /// environment names (trimmed), else the active one.
    pub fn resolve_brain_or_active(
        &self,
        all: &Vec<BrainSummary>,
        brain_ref: Option<&str>,
        env_brain: Option<&str>,
        cfg: &AppConfig,
    ) -> (r: Result<BrainSummary, BrainError>)
        ensures
            ({
                let v = all@.map_values(|b: BrainSummary| b@);
                let target: Option<Seq<char>> = match brain_ref {
                    Some(x) => Some(x@),
                    None => match env_brain {
                        Some(e) => Some(trim(e@)),
                        None => match cfg.active_brain {
                            Some(a) => Some(a@),
                            None => None,
                        },
                    },
                };
                match target {
                    None => r matches Err(e) && e@ == BrainErrorView::NoActiveBrain,
                    Some(t) => match resolve_spec(v, t) {
                        Some(b) => r matches Ok(x) && x@ == b,
                        None => r matches Err(e) && e@ == BrainErrorView::BrainNotFound(t),
                    },
                }
            }),
    {
        match brain_ref {
            Some(x) => self.resolve_brain(all, x),
            None => match env_brain {
                Some(e) => {
                    let t = trim_str(e);
                    self.resolve_brain(all, t.as_str())
                },
                None => match &cfg.active_brain {
                    Some(a) => self.resolve_brain(all, a.as_str()),
                    None => Err(BrainError::NoActiveBrain),
                },
            },
        }
    }

    /// The mappings after mapping `api_key_plain` to a tenant, brain and
    /// subject: any mapping of the same key goes, the new one goes last.
    pub fn map_api_key(
        &self,
        current: Vec<ApiKeyMapping>,
        api_key_plain: &str,
        tenant_id: &str,
        brain_id: &str,
        subject: &str,
    ) -> (out: Vec<ApiKeyMapping>)
        ensures
            out@.map_values(|m: ApiKeyMapping| m@) == without_hash(
                current@.map_values(|m: ApiKeyMapping| m@),
                key_hash_spec(api_key_plain@),
            ).push(
                ApiKeyMappingView {
                    key_hash: key_hash_spec(api_key_plain@),
                    tenant_id: tenant_id@,
                    brain_id: brain_id@,
                    subject: subject@,
                },
            ),
    {
        let hash = key_hash(api_key_plain);
        let ghost c = current@.map_values(|m: ApiKeyMapping| m@);
        let mut out: Vec<ApiKeyMapping> = Vec::new();
        let mut i: usize = 0;
        while i < current.len()
            invariant
                i <= current.len(),
                c == current@.map_values(|m: ApiKeyMapping| m@),
                out@.map_values(|m: ApiKeyMapping| m@) == without_hash(c.take(i as int), hash@),
            decreases current.len() - i,
        {
            proof {
                let t = c.take(i + 1);
                assert(t.drop_last() =~= c.take(i as int));
                assert(t.last() == current@[i as int]@);
            }
            if !str_eq(current[i].key_hash.as_str(), hash.as_str()) {
                let ghost before = out@;
                let m = current[i].clone();
                out.push(m);
                proof {
                    assert(out@.map_values(|m: ApiKeyMapping| m@) =~= before.map_values(
                        |m: ApiKeyMapping| m@,
                    ).push(current@[i as int]@));
                }
            }
            i += 1;
        }
        assert(c.take(i as int) =~= c);
        let ghost before = out@;
        let m = ApiKeyMapping {
            key_hash: hash,
            tenant_id: owned(tenant_id),
            brain_id: owned(brain_id),
            subject: owned(subject),
        };
        let ghost mv = m@;
        out.push(m);
        proof {
            assert(out@.map_values(|m: ApiKeyMapping| m@) =~= before.map_values(|m: ApiKeyMapping| m@).push(
                mv,
            ));
        }
        out
    }

    /// The first mapping of `api_key_plain`, if any.
    pub fn resolve_api_key(&self, mappings: &Vec<ApiKeyMapping>, api_key_plain: &str) -> (r: Option<
        ApiKeyMapping,
    >)
        ensures
            match find_hash(mappings@.map_values(|m: ApiKeyMapping| m@), key_hash_spec(api_key_plain@)) {
                Some(m) => r matches Some(x) && x@ == m,
                None => r is None,
            },
    {
        let hash = key_hash(api_key_plain);
        let ghost v = mappings@.map_values(|m: ApiKeyMapping| m@);
        let mut i: usize = 0;
        assert(v.skip(0) =~= v);
        while i < mappings.len()
            invariant
                i <= mappings.len(),
                v == mappings@.map_values(|m: ApiKeyMapping| m@),
                hash@ == key_hash_spec(api_key_plain@),
                find_hash(v, hash@) == find_hash(v.skip(i as int), hash@),
            decreases mappings.len() - i,
        {
            assert(v.skip(i as int)[0] == v[i as int]);
            assert(v.skip(i as int).drop_first() =~= v.skip(i + 1));
            if str_eq(mappings[i].key_hash.as_str(), hash.as_str()) {
                let c = mappings[i].clone();
                return Some(c);
            }
            i += 1;
        }
        assert(v.skip(i as int).len() == 0);
        None
    }
}

/// Mapping a key and then resolving it gives the mapping just written.
pub proof fn lemma_map_then_resolve(
    current: Seq<ApiKeyMappingView>,
    api_key: Seq<char>,
    tenant_id: Seq<char>,
    brain_id: Seq<char>,
    subject: Seq<char>,
)
    ensures
        ({
            let m = ApiKeyMappingView { key_hash: key_hash_spec(api_key), tenant_id, brain_id, subject };
            find_hash(without_hash(current, key_hash_spec(api_key)).push(m), key_hash_spec(api_key))
                == Some(m)
        }),
{
    let h = key_hash_spec(api_key);
    let m = ApiKeyMappingView { key_hash: h, tenant_id, brain_id, subject };
    lemma_without_has_none(current, h);
    lemma_find_after_without(without_hash(current, h), h, m);
}

proof fn lemma_without_has_none(m: Seq<ApiKeyMappingView>, h: Seq<char>)
    ensures
        forall|i: int| 0 <= i < without_hash(m, h).len() ==> (#[trigger] without_hash(m, h)[i]).key_hash != h,
    decreases m.len(),
{
    if m.len() > 0 {
        lemma_without_has_none(m.drop_last(), h);
        let r = without_hash(m, h);
        let rp = without_hash(m.drop_last(), h);
        assert forall|i: int| 0 <= i < r.len() implies (#[trigger] r[i]).key_hash != h by {
            if i < rp.len() {
                assert(r[i] == rp[i]);
            }
        };
    }
}

proof fn lemma_find_after_without(s: Seq<ApiKeyMappingView>, h: Seq<char>, m: ApiKeyMappingView)
    requires
        forall|i: int| 0 <= i < s.len() ==> (#[trigger] s[i]).key_hash != h,
        m.key_hash == h,
    ensures
        find_hash(s.push(m), h) == Some(m),
    decreases s.len(),
{
    if s.len() > 0 {
        assert(s.push(m).drop_first() =~= s.drop_first().push(m));
        assert(s[0].key_hash != h);
        lemma_find_after_without(s.drop_first(), h, m);
    } else {
        assert(s.push(m)[0] == m);
    }
}

/// The brain's owner must be the tenant a key is mapped for.
pub fn check_tenant(brain: &BrainSummary, tenant: &str) -> (r: Result<(), BrainError>)
    ensures
        brain.tenant_id@ == tenant@ ==> r is Ok,
        brain.tenant_id@ != tenant@ ==> (r matches Err(e) && e@ == BrainErrorView::TenantMismatch(
            brain.tenant_id@,
            tenant@,
        )),
{
    if str_eq(brain.tenant_id.as_str(), tenant) {
        Ok(())
    } else {
        Err(BrainError::TenantMismatch(brain.tenant_id.clone(), owned(tenant)))
    }
}

/// The id of a new brain: its name's slug, a dash, and the first eight
/// characters of a fresh UUID.
pub open spec fn brain_id_spec(name: Seq<char>, uuid: Seq<char>) -> Seq<char> {
    slugify_spec(name) + seq!['-'] + uuid.take(8)
}

/// The id of a new brain (see [`brain_id_spec`]); `uuid` is the text of a
/// fresh UUID, whose first eight characters are ASCII.
pub fn brain_id_for(name: &str, uuid: &str) -> (id: String)
    requires
        uuid@.len() >= 8,
        forall|i: int| 0 <= i < 8 ==> (#[trigger] uuid@[i] as u32) < 0x80,
    ensures
        id@ == brain_id_spec(name@, uuid@),
{
    let mut id = slugify(name);
    push_char(&mut id, '-');
    let cs = chars_of(uuid);
    let mut i: usize = 0;
    let ghost base = id@;
    while i < 8
        invariant
            i <= 8,
            cs@ == uuid@,
            cs@.len() >= 8,
            id@ == base + cs@.take(i as int),
        decreases 8 - i,
    {
        push_char(&mut id, cs[i]);
        assert(cs@.take(i + 1) =~= cs@.take(i as int).push(cs@[i as int]));
        i += 1;
    }
    id
}

/// The environment variable a new brain's secret is read from: the one
/// requested, else `CORTEX_BRAIN_SECRET`.
pub fn secret_env_of(req: &CreateBrainRequest) -> (v: String)
    ensures
        match req.passphrase_env {
            Some(e) => v@ == e@,
            None => v@ == "CORTEX_BRAIN_SECRET"@,
        },
{
    match &req.passphrase_env {
        Some(e) => e.clone(),
        None => owned("CORTEX_BRAIN_SECRET"),
    }
}

/// The state of a new brain: an empty `main` branch, no attachment, and
/// the creation in the audit trail.
pub open spec fn initial_state_spec(brain_id: Seq<char>, tenant_id: Seq<char>, stamp: StampView) -> BrainStateView {
    BrainStateView {
        branches: seq![
            (
                "main"@,
                BranchStateView {
                    name: "main"@,
                    memory_objects: Seq::empty(),
                    rules: Seq::empty(),
                    ledger: Seq::empty(),
                    suppressions: Seq::empty(),
                },
            ),
        ],
        attachments: Seq::empty(),
        audit: seq![
            audit_view(
                stamp,
                "system"@,
                "brain.create"@,
                json_object(seq![("brain_id"@, json_quote(brain_id)), ("tenant_id"@, json_quote(tenant_id))]),
            ),
        ],
    }
}

/// The state of a new brain (see [`initial_state_spec`]).
pub fn initial_state(brain_id: &str, tenant_id: &str, stamp: &Stamp) -> (s: BrainState)
    ensures
        s@ == initial_state_spec(brain_id@, tenant_id@, stamp@),
{
    let mut branches: StrMap<BranchState> = StrMap::new();
    let main = BranchState {
        name: owned("main"),
        memory_objects: StrMap::new(),
        rules: Vec::new(),
        ledger: Vec::new(),
        suppressions: Vec::new(),
    };
    branches.insert(owned("main"), main);
    let mut entries: Vec<(String, String)> = Vec::new();
    entries.push((owned("brain_id"), quoted(brain_id)));
    entries.push((owned("tenant_id"), quoted(tenant_id)));
    proof {
        assert(entries@.map_values(|e: (String, String)| (e.0@, e.1@)) =~= seq![
            ("brain_id"@, json_quote(brain_id@)),
            ("tenant_id"@, json_quote(tenant_id@)),
        ]);
    }
    let details = json_object_text(&entries);
    let mut audit: Vec<AuditEntry> = Vec::new();
    audit.push(
        AuditEntry {
            id: stamp.id.clone(),
            ts: stamp.ts.clone(),
            actor: owned("system"),
            action: owned("brain.create"),
            details,
        },
    );
    let s = BrainState { branches, attachments: Vec::new(), audit };
    proof {
        assert(s@.branches[0].1.memory_objects =~= Seq::<(Seq<char>, crate::brain::types::MemoryObjectView)>::empty());
        assert(s@.branches[0].1 =~= initial_state_spec(brain_id@, tenant_id@, stamp@).branches[0].1);
        assert(s@ =~= initial_state_spec(brain_id@, tenant_id@, stamp@));
    }
    s
}

/// The manifest of a new brain before it is signed: format `brain/v1`,
/// protocol `cortex_rmvm_v3_1`, the initial schema migration, branch
/// `main`, created and updated now, and an empty signature.
pub open spec fn fresh_manifest_spec(
    brain_id: Seq<char>,
    name: Seq<char>,
    tenant_id: Seq<char>,
    now: Seq<char>,
    kdf_salt_b64: Seq<char>,
    signing_public_key_b64: Seq<char>,
    state_sha256: Seq<char>,
    secret_env_var: Seq<char>,
) -> BrainManifestView {
    BrainManifestView {
        format_version: "brain/v1"@,
        brain_id,
        name,
        tenant_id,
        created_at: now,
        updated_at: now,
        rmvm_proto_version: "cortex_rmvm_v3_1"@,
        schema_migrations: seq!["brain/v1:init"@],
        active_branch: "main"@,
        kdf_salt_b64,
        signing_public_key_b64,
        state_sha256,
        secret_env_var,
        signature_b64: Seq::empty(),
    }
}

/// The manifest of a new brain before it is signed (see
/// [`fresh_manifest_spec`]).
pub fn fresh_manifest(
    brain_id: &str,
    name: &str,
    tenant_id: &str,
    now: &str,
    kdf_salt_b64: &str,
    signing_public_key_b64: &str,
    state_sha256: &str,
    secret_env_var: &str,
) -> (m: BrainManifest)
    ensures
        m@ == fresh_manifest_spec(
            brain_id@,
            name@,
            tenant_id@,
            now@,
            kdf_salt_b64@,
            signing_public_key_b64@,
            state_sha256@,
            secret_env_var@,
        ),
{
    let mut migrations: Vec<String> = Vec::new();
    migrations.push(owned("brain/v1:init"));
    let m = BrainManifest {
        format_version: owned("brain/v1"),
        brain_id: owned(brain_id),
        name: owned(name),
        tenant_id: owned(tenant_id),
        created_at: owned(now),
        updated_at: owned(now),
        rmvm_proto_version: owned("cortex_rmvm_v3_1"),
        schema_migrations: migrations,
        active_branch: owned("main"),
        kdf_salt_b64: owned(kdf_salt_b64),
        signing_public_key_b64: owned(signing_public_key_b64),
        state_sha256: owned(state_sha256),
        secret_env_var: owned(secret_env_var),
        signature_b64: String::new(),
    };
    proof {
        assert(m@.schema_migrations =~= seq!["brain/v1:init"@]);
        assert(m@ =~= fresh_manifest_spec(
            brain_id@,
            name@,
            tenant_id@,
            now@,
            kdf_salt_b64@,
            signing_public_key_b64@,
            state_sha256@,
            secret_env_var@,
        ));
    }
    m
}

/// What importing a package stores: nothing when the manifest's signature
/// over its signing payload does not check or the state's digest does not
/// match the manifest's (errors), or when only verifying; otherwise
/// the manifest, renamed (and updated now) when a name is given, under its
/// id with a dash and the first six characters of a fresh UUID appended
/// when that id is taken.
pub open spec fn import_spec(
    m: BrainManifestView,
    payload: Seq<u8>,
    state_hash: Seq<char>,
    verify_only: bool,
    name: Option<Seq<char>>,
    now: Seq<char>,
    id_taken: bool,
    uuid: Seq<char>,
) -> Result<Option<BrainManifestView>, BrainErrorView> {
    if signature_check_spec(m.signing_public_key_b64, m.signature_b64, payload) is Err {
        Err(signature_check_spec(m.signing_public_key_b64, m.signature_b64, payload)->Err_0)
    } else if state_hash != m.state_sha256 {
        Err(BrainErrorView::StateChecksumMismatch)
    } else if verify_only {
        Ok(None)
    } else {
        let named = match name {
            Some(n) => BrainManifestView { name: n, updated_at: now, ..m },
            None => m,
        };
        Ok(
            Some(
                if id_taken {
                    BrainManifestView { brain_id: m.brain_id + seq!['-'] + uuid.take(6), ..named }
                } else {
                    named
                },
            ),
        )
    }
}

/// What importing a package stores (see [`import_spec`]); `uuid` is the
/// text of a fresh UUID, whose first six characters are ASCII.
pub fn import_manifest(
    m: BrainManifest,
    payload: &[u8],
    state_hash: &str,
    verify_only: bool,
    name: Option<String>,
    now: &str,
    id_taken: bool,
    uuid: &str,
) -> (r: Result<Option<BrainManifest>, BrainError>)
    requires
        uuid@.len() >= 6,
        forall|i: int| 0 <= i < 6 ==> (#[trigger] uuid@[i] as u32) < 0x80,
    ensures
        match import_spec(
            m@,
            payload@,
            state_hash@,
            verify_only,
            match name {
                Some(n) => Some(n@),
                None => None,
            },
            now@,
            id_taken,
            uuid@,
        ) {
            Ok(Some(x)) => r matches Ok(Some(y)) && y@ == x,
            Ok(None) => r matches Ok(None),
            Err(e) => r matches Err(x) && x@ == e,
        },
{
    match verify_manifest_signature(&m, payload) {
        Ok(()) => {},
        Err(e) => {
            return Err(e);
        },
    }
    if !str_eq(state_hash, m.state_sha256.as_str()) {
        return Err(BrainError::StateChecksumMismatch);
    }
    if verify_only {
        return Ok(None);
    }
    let ghost m0 = m@;
    let ghost nv = if name is Some {
        Some(name->Some_0@)
    } else {
        None::<Seq<char>>
    };
    let mut m = m;
    match name {
        Some(n) => {
            m.name = n;
            m.updated_at = owned(now);
        },
        None => {},
    }
    if id_taken {
        let cs = chars_of(uuid);
        let mut id = m.brain_id.clone();
        push_char(&mut id, '-');
        let ghost base = id@;
        let mut i: usize = 0;
        while i < 6
            invariant
                i <= 6,
                cs@ == uuid@,
                cs@.len() >= 6,
                id@ == base + cs@.take(i as int),
            decreases 6 - i,
        {
            push_char(&mut id, cs[i]);
            assert(cs@.take(i + 1) =~= cs@.take(i as int).push(cs@[i as int]));
            i += 1;
        }
        m.brain_id = id;
    }
    proof {
        let want = import_spec(m0, payload@, state_hash@, verify_only, nv, now@, id_taken, uuid@)->Ok_0->Some_0;
        assert(m@ =~= want);
    }
    Ok(Some(m))
}

/// Whether `needle` occurs in `hay`.
pub open spec fn occurs_in(needle: Seq<char>, hay: Seq<char>) -> bool {
    exists|i: int| 0 <= i <= hay.len() - needle.len() && #[trigger] hay.subrange(i, i + needle.len()) == needle
}

/// Whether `needle` occurs in `hay` (`str::contains`).
pub fn text_contains(hay: &str, needle: &str) -> (r: bool)
    ensures
        r == occurs_in(needle@, hay@),
{
    let h = chars_of(hay);
    let n = chars_of(needle);
    if n.len() > h.len() {
        return false;
    }
    let mut i: usize = 0;
    while i <= h.len() - n.len()
        invariant
            h@ == hay@,
            n@ == needle@,
            n.len() <= h.len(),
            i <= h.len() - n.len() + 1,
            forall|k: int| 0 <= k < i ==> #[trigger] h@.subrange(k, k + n.len()) != n@,
        decreases h.len() - n.len() + 1 - i,
    {
        let mut j: usize = 0;
        while j < n.len() && h[i + j] == n[j]
            invariant
                i + n.len() <= h.len(),
                j <= n.len(),
                forall|q: int| 0 <= q < j ==> h@[i + q] == n@[q],
            decreases n.len() - j,
        {
            j += 1;
        }
        if j == n.len() {
            assert(h@.subrange(i as int, i + n.len()) =~= n@);
            return true;
        }
        assert(h@.subrange(i as int, i + n.len())[j as int] != n@[j as int]);
        i += 1;
    }
    proof {
        assert forall|k: int| 0 <= k <= hay@.len() - needle@.len() implies #[trigger] hay@.subrange(
            k,
            k + needle@.len(),
        ) != needle@ by {
            assert(k < i);
        };
    }
    false
}

/// The audit rows whose details mention `subject`, in order.
pub open spec fn rows_mentioning(rows: Seq<AuditEntryView>, subject: Seq<char>) -> Seq<AuditEntryView>
    decreases rows.len(),
{
    if rows.len() == 0 {
        rows
    } else if occurs_in(subject, rows.last().details) {
        rows_mentioning(rows.drop_last(), subject).push(rows.last())
    } else {
        rows_mentioning(rows.drop_last(), subject)
    }
}

/// The audit rows whose details (compact JSON text) mention `subject`.
pub fn audit_rows_mentioning(rows: &Vec<AuditEntry>, subject: &str) -> (out: Vec<AuditEntry>)
    ensures
        out@.map_values(|e: AuditEntry| e@) == rows_mentioning(rows@.map_values(|e: AuditEntry| e@), subject@),
{
    let ghost v = rows@.map_values(|e: AuditEntry| e@);
    let mut out: Vec<AuditEntry> = Vec::new();
    let mut i: usize = 0;
    while i < rows.len()
        invariant
            i <= rows.len(),
            v == rows@.map_values(|e: AuditEntry| e@),
            out@.map_values(|e: AuditEntry| e@) == rows_mentioning(v.take(i as int), subject@),
        decreases rows.len() - i,
    {
        proof {
            let t = v.take(i + 1);
            assert(t.drop_last() =~= v.take(i as int));
            assert(t.last() == rows@[i as int]@);
        }
        if text_contains(rows[i].details.as_str(), subject) {
            let ghost before = out@;
            let e = rows[i].clone();
            out.push(e);
            proof {
                assert(out@.map_values(|e: AuditEntry| e@) =~= before.map_values(|e: AuditEntry| e@).push(
                    rows@[i as int]@,
                ));
            }
        }
        i += 1;
    }
    assert(v.take(i as int) =~= v);
    out
}

/// An exported brain: its manifest and its sealed state and signing key.
pub struct BrainPackage {
    pub package_version: String,
    pub manifest: BrainManifest,
    pub state: EncryptedBlob,
    pub signing_key: EncryptedBlob,
}

impl BrainStore {
    /// The package exporting a brain writes (format `brain/v1`), once the
    /// manifest's signature over `payload`, its signing payload, checks.
    pub fn export_brain(
        &self,
        manifest: BrainManifest,
        payload: &[u8],
        state: EncryptedBlob,
        signing_key: EncryptedBlob,
    ) -> (r: Result<BrainPackage, BrainError>)
        ensures
            match signature_check_spec(manifest.signing_public_key_b64@, manifest.signature_b64@, payload@) {
                Ok(()) => r matches Ok(p) && p.package_version@ == "brain/v1"@ && p.manifest@ == manifest@
                    && p.state == state && p.signing_key == signing_key,
                Err(e) => r matches Err(x) && x@ == e,
            },
    {
        match verify_manifest_signature(&manifest, payload) {
            Ok(()) => Ok(BrainPackage { package_version: owned("brain/v1"), manifest, state, signing_key }),
            Err(e) => Err(e),
        }
    }
}

/// Export then import: a manifest that exports (its signature over its
/// signing payload checks), imported with the digest of the state it was
/// exported with, passes a verify-only import, which stores nothing; and a
/// named import of it, when its id is taken, stores it under the new name
/// and a fresh id (its id, a dash and six characters of the UUID), with
/// everything else kept.
pub proof fn lemma_export_then_import(
    m: BrainManifestView,
    payload: Seq<u8>,
    name: Option<Seq<char>>,
    new_name: Seq<char>,
    now: Seq<char>,
    id_taken: bool,
    uuid: Seq<char>,
)
    requires
        signature_check_spec(m.signing_public_key_b64, m.signature_b64, payload) is Ok,
        uuid.len() >= 6,
    ensures
        import_spec(m, payload, m.state_sha256, true, name, now, id_taken, uuid) == Ok::<
            Option<BrainManifestView>,
            BrainErrorView,
        >(None),
        import_spec(m, payload, m.state_sha256, false, Some(new_name), now, true, uuid) == Ok::<
            Option<BrainManifestView>,
            BrainErrorView,
        >(
            Some(
                BrainManifestView {
                    brain_id: m.brain_id + seq!['-'] + uuid.take(6),
                    name: new_name,
                    updated_at: now,
                    ..m
                },
            ),
        ),
        m.brain_id + seq!['-'] + uuid.take(6) != m.brain_id,
{
    assert((m.brain_id + seq!['-'] + uuid.take(6)).len() > m.brain_id.len());
}

/// What opening a stored brain gives: the manifest's signature must check,
/// the key is derived from the secret and the base64 salt, the stored state
/// blob's digest must be the manifest's, and then the state and the
/// signing key (which must be 32 bytes) are opened with the brain id as
/// associated data.
pub open spec fn open_spec(
    m: BrainManifestView,
    payload: Seq<u8>,
    secret: Seq<u8>,
    state_blob_json: Seq<u8>,
    state: (Seq<char>, Seq<char>),
    signing_key: (Seq<char>, Seq<char>),
) -> Result<(Seq<u8>, Seq<u8>), BrainErrorView> {
    if signature_check_spec(m.signing_public_key_b64, m.signature_b64, payload) is Err {
        Err(signature_check_spec(m.signing_public_key_b64, m.signature_b64, payload)->Err_0)
    } else {
        match base64_decoded(m.kdf_salt_b64) {
            None => Err(BrainErrorView::InvalidBase64),
            Some(salt) => if !(8 <= salt.len() <= 0xFFFF_FFFF && secret.len() <= 0xFFFF_FFFF) {
                Err(BrainErrorView::KeyDerivationFailed)
            } else if sha256_hex_spec(state_blob_json) != m.state_sha256 {
                Err(BrainErrorView::StateChecksumMismatch)
            } else {
                let key = argon2_key(secret, salt);
                let aad = encode_utf8(m.brain_id);
                match decrypt_spec(key, aad, state.0, state.1) {
                    Err(e) => Err(e),
                    Ok(st) => match decrypt_spec(key, aad, signing_key.0, signing_key.1) {
                        Err(e) => Err(e),
                        Ok(sk) => if sk.len() != 32 {
                            Err(BrainErrorView::InvalidSigningKey)
                        } else {
                            Ok((st, sk))
                        },
                    },
                }
            },
        }
    }
}

/// Opens a stored brain (see [`open_spec`]): the state's JSON bytes and the
/// signing key. `payload` is the manifest's signing payload and
/// `state_blob_json` the JSON of the stored state blob; `None` where a
/// blob's nonce decodes to other than 24 bytes (the nonce conversion
/// panics there).
pub fn open_brain(
    manifest: &BrainManifest,
    payload: &[u8],
    secret: &[u8],
    state_blob_json: &[u8],
    state: &EncryptedBlob,
    signing_key: &EncryptedBlob,
) -> (r: Option<Result<(Vec<u8>, Vec<u8>), BrainError>>)
    ensures
        r matches Some(res) ==> match open_spec(
            manifest@,
            payload@,
            secret@,
            state_blob_json@,
            (state.nonce_b64@, state.ciphertext_b64@),
            (signing_key.nonce_b64@, signing_key.ciphertext_b64@),
        ) {
            Ok(v) => res matches Ok(x) && x.0@ == v.0 && x.1@ == v.1,
            Err(e) => res matches Err(x) && x@ == e,
        },
        r is None ==> !nonce_fits(state.nonce_b64@) || !nonce_fits(signing_key.nonce_b64@),
{
    match verify_manifest_signature(manifest, payload) {
        Ok(()) => {},
        Err(e) => {
            return Some(Err(e));
        },
    }
    let salt = match crate::brain::crypto::decode_b64(manifest.kdf_salt_b64.as_str()) {
        Some(s) => s,
        None => {
            return Some(Err(BrainError::InvalidBase64));
        },
    };
    let key = match derive_key(secret, salt.as_slice()) {
        Ok(k) => k,
        Err(e) => {
            return Some(Err(e));
        },
    };
    if !str_eq(sha256_hex(state_blob_json).as_str(), manifest.state_sha256.as_str()) {
        return Some(Err(BrainError::StateChecksumMismatch));
    }
    let aad = manifest.brain_id.as_str().as_bytes();
    let st = match try_decrypt_bytes(key.as_slice(), aad, state) {
        None => {
            return None;
        },
        Some(Err(e)) => {
            return Some(Err(e));
        },
        Some(Ok(x)) => x,
    };
    let sk = match try_decrypt_bytes(key.as_slice(), aad, signing_key) {
        None => {
            return None;
        },
        Some(Err(e)) => {
            return Some(Err(e));
        },
        Some(Ok(x)) => x,
    };
    if sk.len() != 32 {
        return Some(Err(BrainError::InvalidSigningKey));
    }
    Some(Ok((st, sk)))
}

} // verus!

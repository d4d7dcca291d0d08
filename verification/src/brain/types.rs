//! The brain store's records: manifests, branches, memory objects,
//! attachments, audit entries and API key mappings, with their models.
use vstd::prelude::*;

use crate::proto::{clone_strings, clone_vec};
use crate::smap::StrMap;

verus! {

/// The signed description of a brain: its identity, versions, active branch, key material in base64 and the digest of its encrypted state.
pub struct BrainManifest {
    pub format_version: String,
    pub brain_id: String,
    pub name: String,
    pub tenant_id: String,
    pub created_at: String,
    pub updated_at: String,
    pub rmvm_proto_version: String,
    pub schema_migrations: Vec<String>,
    pub active_branch: String,
    pub kdf_salt_b64: String,
    pub signing_public_key_b64: String,
    pub state_sha256: String,
    pub secret_env_var: String,
    pub signature_b64: String,
}

/// The mathematical model of [`BrainManifest`].
#[verifier::ext_equal]
pub struct BrainManifestView {
    pub format_version: Seq<char>,
    pub brain_id: Seq<char>,
    pub name: Seq<char>,
    pub tenant_id: Seq<char>,
    pub created_at: Seq<char>,
    pub updated_at: Seq<char>,
    pub rmvm_proto_version: Seq<char>,
    pub schema_migrations: Seq<Seq<char>>,
    pub active_branch: Seq<char>,
    pub kdf_salt_b64: Seq<char>,
    pub signing_public_key_b64: Seq<char>,
    pub state_sha256: Seq<char>,
    pub secret_env_var: Seq<char>,
    pub signature_b64: Seq<char>,
}

impl View for BrainManifest {
    type V = BrainManifestView;

    open spec fn view(&self) -> BrainManifestView {
        BrainManifestView {
            format_version: self.format_version@,
            brain_id: self.brain_id@,
            name: self.name@,
            tenant_id: self.tenant_id@,
            created_at: self.created_at@,
            updated_at: self.updated_at@,
            rmvm_proto_version: self.rmvm_proto_version@,
            schema_migrations: self.schema_migrations@.map_values(|x: String| x@),
            active_branch: self.active_branch@,
            kdf_salt_b64: self.kdf_salt_b64@,
            signing_public_key_b64: self.signing_public_key_b64@,
            state_sha256: self.state_sha256@,
            secret_env_var: self.secret_env_var@,
            signature_b64: self.signature_b64@,
        }
    }
}

impl Clone for BrainManifest {
    fn clone(&self) -> (res: Self)
        ensures
            res@ == self@,
    {
        let res = BrainManifest {
            format_version: self.format_version.clone(),
            brain_id: self.brain_id.clone(),
            name: self.name.clone(),
            tenant_id: self.tenant_id.clone(),
            created_at: self.created_at.clone(),
            updated_at: self.updated_at.clone(),
            rmvm_proto_version: self.rmvm_proto_version.clone(),
            schema_migrations: clone_strings(&self.schema_migrations),
            active_branch: self.active_branch.clone(),
            kdf_salt_b64: self.kdf_salt_b64.clone(),
            signing_public_key_b64: self.signing_public_key_b64.clone(),
            state_sha256: self.state_sha256.clone(),
            secret_env_var: self.secret_env_var.clone(),
            signature_b64: self.signature_b64.clone(),
        };
        proof {
            assert(res@ =~= self@);
        }
        res
    }
}

/// What a listing shows of a brain.
pub struct BrainSummary {
    pub brain_id: String,
    pub name: String,
    pub tenant_id: String,
    pub updated_at: String,
    pub active_branch: String,
}

/// The mathematical model of [`BrainSummary`].
#[verifier::ext_equal]
pub struct BrainSummaryView {
    pub brain_id: Seq<char>,
    pub name: Seq<char>,
    pub tenant_id: Seq<char>,
    pub updated_at: Seq<char>,
    pub active_branch: Seq<char>,
}

impl View for BrainSummary {
    type V = BrainSummaryView;

    open spec fn view(&self) -> BrainSummaryView {
        BrainSummaryView {
            brain_id: self.brain_id@,
            name: self.name@,
            tenant_id: self.tenant_id@,
            updated_at: self.updated_at@,
            active_branch: self.active_branch@,
        }
    }
}

impl Clone for BrainSummary {
    fn clone(&self) -> (res: Self)
        ensures
            res@ == self@,
    {
        let res = BrainSummary {
            brain_id: self.brain_id.clone(),
            name: self.name.clone(),
            tenant_id: self.tenant_id.clone(),
            updated_at: self.updated_at.clone(),
            active_branch: self.active_branch.clone(),
        };
        proof {
            assert(res@ =~= self@);
        }
        res
    }
}

/// A remembered fact; `value` is its JSON value as compact JSON text.
pub struct MemoryObject {
    pub id: String,
    pub subject: String,
    pub predicate: String,
    pub value: String,
    pub memory_type: String,
    pub suppressed: bool,
}

/// The mathematical model of [`MemoryObject`].
#[verifier::ext_equal]
pub struct MemoryObjectView {
    pub id: Seq<char>,
    pub subject: Seq<char>,
    pub predicate: Seq<char>,
    pub value: Seq<char>,
    pub memory_type: Seq<char>,
    pub suppressed: bool,
}

impl View for MemoryObject {
    type V = MemoryObjectView;

    open spec fn view(&self) -> MemoryObjectView {
        MemoryObjectView {
            id: self.id@,
            subject: self.subject@,
            predicate: self.predicate@,
            value: self.value@,
            memory_type: self.memory_type@,
            suppressed: self.suppressed,
        }
    }
}

impl Clone for MemoryObject {
    fn clone(&self) -> (res: Self)
        ensures
            res@ == self@,
    {
        let res = MemoryObject {
            id: self.id.clone(),
            subject: self.subject.clone(),
            predicate: self.predicate.clone(),
            value: self.value.clone(),
            memory_type: self.memory_type.clone(),
            suppressed: self.suppressed,
        };
        proof {
            assert(res@ =~= self@);
        }
        res
    }
}

/// A rule of a branch and the sinks it allows.
pub struct RuleEntry {
    pub id: String,
    pub description: String,
    pub allowed_sinks: Vec<String>,
}

/// The mathematical model of [`RuleEntry`].
#[verifier::ext_equal]
pub struct RuleEntryView {
    pub id: Seq<char>,
    pub description: Seq<char>,
    pub allowed_sinks: Seq<Seq<char>>,
}

impl View for RuleEntry {
    type V = RuleEntryView;

    open spec fn view(&self) -> RuleEntryView {
        RuleEntryView {
            id: self.id@,
            description: self.description@,
            allowed_sinks: self.allowed_sinks@.map_values(|x: String| x@),
        }
    }
}

impl Clone for RuleEntry {
    fn clone(&self) -> (res: Self)
        ensures
            res@ == self@,
    {
        let res = RuleEntry {
            id: self.id.clone(),
            description: self.description.clone(),
            allowed_sinks: clone_strings(&self.allowed_sinks),
        };
        proof {
            assert(res@ =~= self@);
        }
        res
    }
}

/// An event of a branch's ledger; `payload` is compact JSON text.
pub struct LedgerEvent {
    pub id: String,
    pub ts: String,
    pub operation: String,
    pub payload: String,
}

/// The mathematical model of [`LedgerEvent`].
#[verifier::ext_equal]
pub struct LedgerEventView {
    pub id: Seq<char>,
    pub ts: Seq<char>,
    pub operation: Seq<char>,
    pub payload: Seq<char>,
}

impl View for LedgerEvent {
    type V = LedgerEventView;

    open spec fn view(&self) -> LedgerEventView {
        LedgerEventView {
            id: self.id@,
            ts: self.ts@,
            operation: self.operation@,
            payload: self.payload@,
        }
    }
}

impl Clone for LedgerEvent {
    fn clone(&self) -> (res: Self)
        ensures
            res@ == self@,
    {
        let res = LedgerEvent {
            id: self.id.clone(),
            ts: self.ts.clone(),
            operation: self.operation.clone(),
            payload: self.payload.clone(),
        };
        proof {
            assert(res@ =~= self@);
        }
        res
    }
}

/// The record a forget request leaves on a branch.
pub struct SuppressionRecord {
    pub id: String,
    pub ts: String,
    pub subject: String,
    pub predicate: String,
    pub scope: String,
    pub reason: String,
    pub suppressed_count: usize,
}

/// The mathematical model of [`SuppressionRecord`].
#[verifier::ext_equal]
pub struct SuppressionRecordView {
    pub id: Seq<char>,
    pub ts: Seq<char>,
    pub subject: Seq<char>,
    pub predicate: Seq<char>,
    pub scope: Seq<char>,
    pub reason: Seq<char>,
    pub suppressed_count: usize,
}

impl View for SuppressionRecord {
    type V = SuppressionRecordView;

    open spec fn view(&self) -> SuppressionRecordView {
        SuppressionRecordView {
            id: self.id@,
            ts: self.ts@,
            subject: self.subject@,
            predicate: self.predicate@,
            scope: self.scope@,
            reason: self.reason@,
            suppressed_count: self.suppressed_count,
        }
    }
}

impl Clone for SuppressionRecord {
    fn clone(&self) -> (res: Self)
        ensures
            res@ == self@,
    {
        let res = SuppressionRecord {
            id: self.id.clone(),
            ts: self.ts.clone(),
            subject: self.subject.clone(),
            predicate: self.predicate.clone(),
            scope: self.scope.clone(),
            reason: self.reason.clone(),
            suppressed_count: self.suppressed_count,
        };
        proof {
            assert(res@ =~= self@);
        }
        res
    }
}

/// What an agent and model may read, write and send to.
pub struct AttachmentGrant {
    pub agent_id: String,
    pub model_id: String,
    pub read_classes: Vec<String>,
    pub write_classes: Vec<String>,
    pub sinks: Vec<String>,
    pub expires_at: Option<String>,
}

/// The mathematical model of [`AttachmentGrant`].
#[verifier::ext_equal]
pub struct AttachmentGrantView {
    pub agent_id: Seq<char>,
    pub model_id: Seq<char>,
    pub read_classes: Seq<Seq<char>>,
    pub write_classes: Seq<Seq<char>>,
    pub sinks: Seq<Seq<char>>,
    pub expires_at: Option<Seq<char>>,
}

impl View for AttachmentGrant {
    type V = AttachmentGrantView;

    open spec fn view(&self) -> AttachmentGrantView {
        AttachmentGrantView {
            agent_id: self.agent_id@,
            model_id: self.model_id@,
            read_classes: self.read_classes@.map_values(|x: String| x@),
            write_classes: self.write_classes@.map_values(|x: String| x@),
            sinks: self.sinks@.map_values(|x: String| x@),
            expires_at: match self.expires_at { Some(x) => Some(x@), None => None },
        }
    }
}

impl Clone for AttachmentGrant {
    fn clone(&self) -> (res: Self)
        ensures
            res@ == self@,
    {
        let res = AttachmentGrant {
            agent_id: self.agent_id.clone(),
            model_id: self.model_id.clone(),
            read_classes: clone_strings(&self.read_classes),
            write_classes: clone_strings(&self.write_classes),
            sinks: clone_strings(&self.sinks),
            expires_at: match &self.expires_at { Some(x) => Some(x.clone()), None => None },
        };
        proof {
            assert(res@ =~= self@);
        }
        res
    }
}

/// An entry of the audit trail; `details` is compact JSON text.
pub struct AuditEntry {
    pub id: String,
    pub ts: String,
    pub actor: String,
    pub action: String,
    pub details: String,
}

/// The mathematical model of [`AuditEntry`].
#[verifier::ext_equal]
pub struct AuditEntryView {
    pub id: Seq<char>,
    pub ts: Seq<char>,
    pub actor: Seq<char>,
    pub action: Seq<char>,
    pub details: Seq<char>,
}

impl View for AuditEntry {
    type V = AuditEntryView;

    open spec fn view(&self) -> AuditEntryView {
        AuditEntryView {
            id: self.id@,
            ts: self.ts@,
            actor: self.actor@,
            action: self.action@,
            details: self.details@,
        }
    }
}

impl Clone for AuditEntry {
    fn clone(&self) -> (res: Self)
        ensures
            res@ == self@,
    {
        let res = AuditEntry {
            id: self.id.clone(),
            ts: self.ts.clone(),
            actor: self.actor.clone(),
            action: self.action.clone(),
            details: self.details.clone(),
        };
        proof {
            assert(res@ =~= self@);
        }
        res
    }
}

/// A branch: its memory objects by id, rules, ledger and suppressions.
pub struct BranchState {
    pub name: String,
    pub memory_objects: StrMap<MemoryObject>,
    pub rules: Vec<RuleEntry>,
    pub ledger: Vec<LedgerEvent>,
    pub suppressions: Vec<SuppressionRecord>,
}

/// The mathematical model of [`BranchState`].
#[verifier::ext_equal]
pub struct BranchStateView {
    pub name: Seq<char>,
    pub memory_objects: Seq<(Seq<char>, MemoryObjectView)>,
    pub rules: Seq<RuleEntryView>,
    pub ledger: Seq<LedgerEventView>,
    pub suppressions: Seq<SuppressionRecordView>,
}

impl View for BranchState {
    type V = BranchStateView;

    open spec fn view(&self) -> BranchStateView {
        BranchStateView {
            name: self.name@,
            memory_objects: self.memory_objects@,
            rules: self.rules@.map_values(|x: RuleEntry| x@),
            ledger: self.ledger@.map_values(|x: LedgerEvent| x@),
            suppressions: self.suppressions@.map_values(|x: SuppressionRecord| x@),
        }
    }
}

impl Clone for BranchState {
    fn clone(&self) -> (res: Self)
        ensures
            res@ == self@,
    {
        let res = BranchState {
            name: self.name.clone(),
            memory_objects: self.memory_objects.clone_map(),
            rules: clone_vec(&self.rules),
            ledger: clone_vec(&self.ledger),
            suppressions: clone_vec(&self.suppressions),
        };
        proof {
            assert(res@ =~= self@);
        }
        res
    }
}

/// The decrypted state of a brain: branches by name, attachments and the audit trail.
pub struct BrainState {
    pub branches: StrMap<BranchState>,
    pub attachments: Vec<AttachmentGrant>,
    pub audit: Vec<AuditEntry>,
}

/// The mathematical model of [`BrainState`].
#[verifier::ext_equal]
pub struct BrainStateView {
    pub branches: Seq<(Seq<char>, BranchStateView)>,
    pub attachments: Seq<AttachmentGrantView>,
    pub audit: Seq<AuditEntryView>,
}

impl View for BrainState {
    type V = BrainStateView;

    open spec fn view(&self) -> BrainStateView {
        BrainStateView {
            branches: self.branches@,
            attachments: self.attachments@.map_values(|x: AttachmentGrant| x@),
            audit: self.audit@.map_values(|x: AuditEntry| x@),
        }
    }
}

impl Clone for BrainState {
    fn clone(&self) -> (res: Self)
        ensures
            res@ == self@,
    {
        let res = BrainState {
            branches: self.branches.clone_map(),
            attachments: clone_vec(&self.attachments),
            audit: clone_vec(&self.audit),
        };
        proof {
            assert(res@ =~= self@);
        }
        res
    }
}

/// An API key, by the hex SHA-256 of its text, mapped to a tenant, brain and subject.
pub struct ApiKeyMapping {
    pub key_hash: String,
    pub tenant_id: String,
    pub brain_id: String,
    pub subject: String,
}

/// The mathematical model of [`ApiKeyMapping`].
#[verifier::ext_equal]
pub struct ApiKeyMappingView {
    pub key_hash: Seq<char>,
    pub tenant_id: Seq<char>,
    pub brain_id: Seq<char>,
    pub subject: Seq<char>,
}

impl View for ApiKeyMapping {
    type V = ApiKeyMappingView;

    open spec fn view(&self) -> ApiKeyMappingView {
        ApiKeyMappingView {
            key_hash: self.key_hash@,
            tenant_id: self.tenant_id@,
            brain_id: self.brain_id@,
            subject: self.subject@,
        }
    }
}

impl Clone for ApiKeyMapping {
    fn clone(&self) -> (res: Self)
        ensures
            res@ == self@,
    {
        let res = ApiKeyMapping {
            key_hash: self.key_hash.clone(),
            tenant_id: self.tenant_id.clone(),
            brain_id: self.brain_id.clone(),
            subject: self.subject.clone(),
        };
        proof {
            assert(res@ =~= self@);
        }
        res
    }
}

/// How many objects a merge took over and which ids conflicted.
pub struct MergeReport {
    pub merged: usize,
    pub conflicts: Vec<String>,
}

/// The mathematical model of [`MergeReport`].
#[verifier::ext_equal]
pub struct MergeReportView {
    pub merged: usize,
    pub conflicts: Seq<Seq<char>>,
}

impl View for MergeReport {
    type V = MergeReportView;

    open spec fn view(&self) -> MergeReportView {
        MergeReportView {
            merged: self.merged,
            conflicts: self.conflicts@.map_values(|x: String| x@),
        }
    }
}

impl Clone for MergeReport {
    fn clone(&self) -> (res: Self)
        ensures
            res@ == self@,
    {
        let res = MergeReport {
            merged: self.merged,
            conflicts: clone_strings(&self.conflicts),
        };
        proof {
            assert(res@ =~= self@);
        }
        res
    }
}


/// A request to create a brain; `passphrase_env` names the environment
/// variable holding its secret.
pub struct CreateBrainRequest {
    pub name: String,
    pub tenant_id: String,
    pub passphrase_env: Option<String>,
}

/// The store's configuration: the brain in use.
pub struct AppConfig {
    pub active_brain: Option<String>,
}

/// An encrypted blob: nonce and ciphertext in base64.
pub struct EncryptedBlob {
    pub nonce_b64: String,
    pub ciphertext_b64: String,
}

} // verus!

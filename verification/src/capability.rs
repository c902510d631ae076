//! Capability records: permissions, resource handles, typed requests, and
//! the registry that issues, revokes, checks and delegates capabilities.
//!
//! A capability binds a set of permissions to one protected resource and is
//! optionally time-bounded. Once issued it is never mutated in place: the
//! registry only marks it revoked or issues a narrower one by delegation, so
//! every grant of authority leaves an auditable record.

use vstd::prelude::*;
use vstd::string::StrSliceExecFns;
use vstd::string::StringExecFns;
use crate::FIRST_IDENTIFIER;

verus! {

/// Unique capability identifier, handed out monotonically and never reused
/// within a system's lifetime.
#[derive(Debug, Clone, Copy, PartialEq, Eq, Hash, Structural)]
pub struct CapabilityId(pub u64);

/// Individual permission types. `Grant` and `Delegate` cover their own
/// meta-operations only; they never stand in for any other permission.
#[derive(Debug, PartialEq, Eq)]
pub enum Permission {
    Read,
    Write,
    Execute,
    Delete,
    Grant,
    Delegate,
    Custom(String),
}

/// Spec-level equality on permissions: named permissions compare by variant,
/// custom permissions by the characters of their name.
pub open spec fn permission_eq_spec(a: Permission, b: Permission) -> bool {
    match (a, b) {
        (Permission::Read, Permission::Read) => true,
        (Permission::Write, Permission::Write) => true,
        (Permission::Execute, Permission::Execute) => true,
        (Permission::Delete, Permission::Delete) => true,
        (Permission::Grant, Permission::Grant) => true,
        (Permission::Delegate, Permission::Delegate) => true,
        (Permission::Custom(x), Permission::Custom(y)) => x@ == y@,
        _ => false,
    }
}

/// A sequence of permissions contains `p` when some element equals it.
pub open spec fn perms_contain(s: Seq<Permission>, p: Permission) -> bool {
    exists|i: int| 0 <= i < s.len() && permission_eq_spec(s[i], p)
}

/// Every permission of `sub` is contained in `sup`.
pub open spec fn perms_subset(sub: Seq<Permission>, sup: Seq<Permission>) -> bool {
    forall|i: int| 0 <= i < sub.len() ==> perms_contain(sup, #[trigger] sub[i])
}

impl Clone for Permission {
    fn clone(&self) -> (r: Self)
        ensures
            r == *self,
    {
        match self {
            Permission::Read => Permission::Read,
            Permission::Write => Permission::Write,
            Permission::Execute => Permission::Execute,
            Permission::Delete => Permission::Delete,
            Permission::Grant => Permission::Grant,
            Permission::Delegate => Permission::Delegate,
            Permission::Custom(name) => Permission::Custom(name.clone()),
        }
    }
}

impl Permission {
    /// Decides spec-level equality: same variant, and for custom permissions
    /// the same name.
    pub fn same_as(&self, other: &Permission) -> (r: bool)
        ensures
            r == permission_eq_spec(*self, *other),
    {
        match (self, other) {
            (Permission::Read, Permission::Read) => true,
            (Permission::Write, Permission::Write) => true,
            (Permission::Execute, Permission::Execute) => true,
            (Permission::Delete, Permission::Delete) => true,
            (Permission::Grant, Permission::Grant) => true,
            (Permission::Delegate, Permission::Delegate) => true,
            (Permission::Custom(x), Permission::Custom(y)) => x.eq(y),
            _ => false,
        }
    }
}

/// Permission set for capabilities. Membership is decided by permission
/// equality, so duplicates carry no extra authority and order is irrelevant.
#[derive(Debug, PartialEq, Eq)]
pub struct PermissionSet {
    pub permissions: Vec<Permission>,
}

impl Clone for PermissionSet {
    fn clone(&self) -> (r: Self)
        ensures
            r.permissions@ == self.permissions@,
    {
        let mut out: Vec<Permission> = Vec::new();
        let mut i: usize = 0;
        while i < self.permissions.len()
            invariant
                i <= self.permissions.len(),
                out@ == self.permissions@.subrange(0, i as int),
            decreases self.permissions.len() - i,
        {
            out.push(self.permissions[i].clone());
            assert(out@ =~= self.permissions@.subrange(0, i + 1 as int));
            i += 1;
        }
        assert(out@ =~= self.permissions@);
        PermissionSet { permissions: out }
    }
}

impl PermissionSet {
    /// True exactly when the set holds a permission equal to `p`.
    pub fn contains(&self, p: &Permission) -> (r: bool)
        ensures
            r == perms_contain(self.permissions@, *p),
    {
        let mut i: usize = 0;
        while i < self.permissions.len()
            invariant
                i <= self.permissions.len(),
                forall|j: int| 0 <= j < i ==> !permission_eq_spec(self.permissions@[j], *p),
            decreases self.permissions.len() - i,
        {
            if self.permissions[i].same_as(p) {
                return true;
            }
            i += 1;
        }
        false
    }

    /// True exactly when every permission of `self` is contained in `other`.
    pub fn is_subset_of(&self, other: &PermissionSet) -> (r: bool)
        ensures
            r == perms_subset(self.permissions@, other.permissions@),
    {
        let mut i: usize = 0;
        while i < self.permissions.len()
            invariant
                i <= self.permissions.len(),
                forall|j: int|
                    0 <= j < i ==> perms_contain(other.permissions@, #[trigger] self.permissions@[j]),
            decreases self.permissions.len() - i,
        {
            if !other.contains(&self.permissions[i]) {
                return false;
            }
            i += 1;
        }
        true
    }
}

/// `p` is an initial segment of `s`.
pub open spec fn seq_is_prefix(p: Seq<char>, s: Seq<char>) -> bool {
    p.len() <= s.len() && s.subrange(0, p.len() as int) == p
}

/// Decides whether `prefix` is an initial segment of `s`, character by
/// character.
pub fn str_is_prefix(prefix: &str, s: &str) -> (r: bool)
    ensures
        r == seq_is_prefix(prefix@, s@),
{
    let plen = prefix.unicode_len();
    let slen = s.unicode_len();
    if plen > slen {
        return false;
    }
    let mut i: usize = 0;
    while i < plen
        invariant
            i <= plen,
            plen == prefix@.len(),
            slen == s@.len(),
            plen <= slen,
            forall|j: int| 0 <= j < i ==> s@[j] == prefix@[j],
        decreases plen - i,
    {
        if s.get_char(i) != prefix.get_char(i) {
            proof {
                assert(s@.subrange(0, plen as int)[i as int] != prefix@[i as int]);
            }
            return false;
        }
        i += 1;
    }
    proof {
        assert(s@.subrange(0, plen as int) =~= prefix@);
    }
    true
}

/// Resource handle naming the protected object.
#[derive(Debug, PartialEq, Eq)]
pub enum ResourceHandle {
    File(String),
    Network(String),
    Memory(usize),
    Process(u32),
    Device(String),
}

impl Clone for ResourceHandle {
    fn clone(&self) -> (r: Self)
        ensures
            r == *self,
    {
        match self {
            ResourceHandle::File(path) => ResourceHandle::File(path.clone()),
            ResourceHandle::Network(addr) => ResourceHandle::Network(addr.clone()),
            ResourceHandle::Memory(addr) => ResourceHandle::Memory(*addr),
            ResourceHandle::Process(pid) => ResourceHandle::Process(*pid),
            ResourceHandle::Device(name) => ResourceHandle::Device(name.clone()),
        }
    }
}

/// Spec-level equality on resource handles, comparing names by characters.
pub open spec fn resource_eq_spec(a: ResourceHandle, b: ResourceHandle) -> bool {
    match (a, b) {
        (ResourceHandle::File(x), ResourceHandle::File(y)) => x@ == y@,
        (ResourceHandle::Network(x), ResourceHandle::Network(y)) => x@ == y@,
        (ResourceHandle::Memory(x), ResourceHandle::Memory(y)) => x == y,
        (ResourceHandle::Process(x), ResourceHandle::Process(y)) => x == y,
        (ResourceHandle::Device(x), ResourceHandle::Device(y)) => x@ == y@,
        _ => false,
    }
}

/// Containment of one resource in another: exact equality for network,
/// memory, process and device handles; exact-or-prefix containment for
/// filesystem paths, so a capability for a directory covers everything below
/// it.
pub open spec fn resource_covers_spec(parent: ResourceHandle, sub: ResourceHandle) -> bool {
    match (parent, sub) {
        (ResourceHandle::File(p), ResourceHandle::File(q)) => seq_is_prefix(p@, q@),
        (ResourceHandle::Network(x), ResourceHandle::Network(y)) => x@ == y@,
        (ResourceHandle::Memory(x), ResourceHandle::Memory(y)) => x == y,
        (ResourceHandle::Process(x), ResourceHandle::Process(y)) => x == y,
        (ResourceHandle::Device(x), ResourceHandle::Device(y)) => x@ == y@,
        _ => false,
    }
}

impl ResourceHandle {
    /// Decides spec-level equality of two handles.
    pub fn same_as(&self, other: &ResourceHandle) -> (r: bool)
        ensures
            r == resource_eq_spec(*self, *other),
    {
        match (self, other) {
            (ResourceHandle::File(x), ResourceHandle::File(y)) => x.eq(y),
            (ResourceHandle::Network(x), ResourceHandle::Network(y)) => x.eq(y),
            (ResourceHandle::Memory(x), ResourceHandle::Memory(y)) => x == y,
            (ResourceHandle::Process(x), ResourceHandle::Process(y)) => x == y,
            (ResourceHandle::Device(x), ResourceHandle::Device(y)) => x.eq(y),
            _ => false,
        }
    }

    /// Decides containment as `resource_covers_spec` states it.
    pub fn covers(&self, sub: &ResourceHandle) -> (r: bool)
        ensures
            r == resource_covers_spec(*self, *sub),
    {
        match (self, sub) {
            (ResourceHandle::File(p), ResourceHandle::File(q)) => {
                str_is_prefix(p.as_str(), q.as_str())
            },
            (ResourceHandle::Network(x), ResourceHandle::Network(y)) => x.eq(y),
            (ResourceHandle::Memory(x), ResourceHandle::Memory(y)) => x == y,
            (ResourceHandle::Process(x), ResourceHandle::Process(y)) => x == y,
            (ResourceHandle::Device(x), ResourceHandle::Device(y)) => x.eq(y),
            _ => false,
        }
    }
}

/// A capability expires once `now` reaches its expiry timestamp; a
/// capability without one never expires passively.
pub open spec fn cap_expired(expires_at: Option<u64>, now: u64) -> bool {
    match expires_at {
        Some(t) => now >= t,
        None => false,
    }
}

/// The earlier of two optional expiry timestamps, where absence means no
/// bound.
pub open spec fn min_expiry_spec(parent: Option<u64>, requested: Option<u64>) -> Option<u64> {
    match (parent, requested) {
        (None, None) => None,
        (Some(p), None) => Some(p),
        (None, Some(r)) => Some(r),
        (Some(p), Some(r)) => Some(if p <= r { p } else { r }),
    }
}

/// `child` is no later than `parent`, where absence means no bound.
pub open spec fn expiry_within(child: Option<u64>, parent: Option<u64>) -> bool {
    match parent {
        None => true,
        Some(p) => match child {
            Some(c) => c <= p,
            None => false,
        },
    }
}

/// Computes the earlier of two optional expiry timestamps.
pub fn min_expiry(parent: Option<u64>, requested: Option<u64>) -> (r: Option<u64>)
    ensures
        r == min_expiry_spec(parent, requested),
        expiry_within(r, parent),
{
    match (parent, requested) {
        (None, None) => None,
        (Some(p), None) => Some(p),
        (None, Some(t)) => Some(t),
        (Some(p), Some(t)) => if p <= t {
            Some(p)
        } else {
            Some(t)
        },
    }
}

/// Capability structure: an unforgeable token binding a permission set to a
/// resource, optionally time-bounded. Immutable once issued; permission
/// changes require issuing a new capability.
#[derive(Debug, PartialEq, Eq)]
pub struct Capability {
    /// Unique capability identifier.
    pub id: CapabilityId,
    /// What operations are allowed.
    pub permissions: PermissionSet,
    /// Resource being protected.
    pub resource: ResourceHandle,
    /// Expiration timestamp (optional).
    pub expires_at: Option<u64>,
}

impl Clone for Capability {
    fn clone(&self) -> (r: Self)
        ensures
            r.id == self.id,
            r.permissions.permissions@ == self.permissions.permissions@,
            r.resource == self.resource,
            r.expires_at == self.expires_at,
    {
        Capability {
            id: self.id,
            permissions: self.permissions.clone(),
            resource: self.resource.clone(),
            expires_at: self.expires_at,
        }
    }
}

impl Capability {
    /// True exactly when the capability's expiry has passed at `now`.
    pub fn is_expired(&self, now: u64) -> (r: bool)
        ensures
            r == cap_expired(self.expires_at, now),
    {
        match self.expires_at {
            Some(t) => now >= t,
            None => false,
        }
    }

    /// The permission-evaluator decision: this capability authorizes the
    /// requested (resource, operation) pair exactly when it has not expired,
    /// the requested permission is present, and its resource contains the
    /// requested one. Revocation is the registry's to decide, not the
    /// token's.
    pub fn authorizes(&self, resource: &ResourceHandle, permission: &Permission, now: u64) -> (r:
        bool)
        ensures
            r == (!cap_expired(self.expires_at, now) && perms_contain(
                self.permissions.permissions@,
                *permission,
            ) && resource_covers_spec(self.resource, *resource)),
    {
        if self.is_expired(now) {
            return false;
        }
        self.permissions.contains(permission) && self.resource.covers(resource)
    }
}

/// Capability system errors.
#[derive(Debug, PartialEq, Eq)]
pub enum CapabilityError {
    PermissionDenied,
    ResourceNotFound,
    InvalidRequest,
    SystemError(String),
    Expired,
}

impl Clone for CapabilityError {
    fn clone(&self) -> (r: Self)
        ensures
            r == *self,
    {
        match self {
            CapabilityError::PermissionDenied => CapabilityError::PermissionDenied,
            CapabilityError::ResourceNotFound => CapabilityError::ResourceNotFound,
            CapabilityError::InvalidRequest => CapabilityError::InvalidRequest,
            CapabilityError::SystemError(msg) => CapabilityError::SystemError(msg.clone()),
            CapabilityError::Expired => CapabilityError::Expired,
        }
    }
}

impl CapabilityError {
    /// A human-readable description of the error.
    pub fn message(&self) -> (r: String)
        ensures
            match self {
                CapabilityError::PermissionDenied => r@ == "Permission denied"@,
                CapabilityError::ResourceNotFound => r@ == "Resource not found"@,
                CapabilityError::InvalidRequest => r@ == "Invalid capability request"@,
                CapabilityError::SystemError(msg) => r@ == "System error: "@ + msg@,
                CapabilityError::Expired => r@ == "Capability expired"@,
            },
    {
        match self {
            CapabilityError::PermissionDenied => String::from_str("Permission denied"),
            CapabilityError::ResourceNotFound => String::from_str("Resource not found"),
            CapabilityError::InvalidRequest => String::from_str("Invalid capability request"),
            CapabilityError::SystemError(msg) => String::from_str("System error: ").concat(
                msg.as_str(),
            ),
            CapabilityError::Expired => String::from_str("Capability expired"),
        }
    }
}

/// File open modes.
#[derive(Debug, Clone, Copy, PartialEq, Eq, Structural)]
pub enum OpenMode {
    Read,
    Write,
    ReadWrite,
    Append,
}

/// File system capability requests.
#[derive(Debug, Clone)]
pub enum FileSystemRequest {
    Open { path: String, mode: OpenMode },
    Create { path: String, permissions: u32 },
    Delete { path: String },
    List { path: String },
}

/// Network capability requests.
#[derive(Debug, Clone)]
pub enum NetworkRequest {
    Connect { address: String, port: u16 },
    Listen { port: u16 },
    Send { data: Vec<u8> },
    Receive { buffer_size: usize },
}

/// Memory capability requests.
#[derive(Debug, Clone)]
pub enum MemoryRequest {
    Allocate { size: usize },
    Deallocate { address: usize, size: usize },
    MapRegion { address: usize, size: usize, permissions: u32 },
}

/// Process capability requests.
#[derive(Debug, Clone)]
pub enum ProcessRequest {
    Spawn { program: String, args: Vec<String> },
    Kill { pid: u32 },
    Signal { pid: u32, signal: u32 },
}

/// Capability request: the typed payload a thread submits on its channel in
/// place of a traditional syscall.
#[derive(Debug, Clone)]
pub enum CapabilityRequest {
    FileSystem(FileSystemRequest),
    Network(NetworkRequest),
    Memory(MemoryRequest),
    Process(ProcessRequest),
}

/// Capability response: exactly one of a newly derived capability, raw data
/// for read-style results, or an error.
#[derive(Debug)]
pub enum CapabilityResponse {
    Success(Capability),
    Error(CapabilityError),
    Data(Vec<u8>),
}

/// One registry entry: the issued capability together with its revocation
/// mark. Revocation is logical; the record itself is never removed, so the
/// registry stays an audit log of every grant.
#[derive(Debug)]
pub struct CapabilityRecord {
    pub capability: Capability,
    pub revoked: bool,
}

/// Capability system manager: owns every live capability record, allocates
/// identifiers, and owns the service halves of the request channels.
pub struct CapabilitySystem {
    pub records: Vec<CapabilityRecord>,
    pub channels: Vec<crate::channel::CapabilityChannelService>,
    pub next_capability_id: u64,
}

impl CapabilitySystem {
    /// Some record carries identifier `id`.
    pub open spec fn spec_issued(self, id: u64) -> bool {
        exists|i: int| 0 <= i < self.records@.len() && self.records@[i].capability.id.0 == id
    }

    /// Index of the record carrying `id`; well-defined under `wf` since
    /// identifiers are unique.
    pub open spec fn spec_record_idx(self, id: u64) -> int {
        choose|i: int| 0 <= i < self.records@.len() && self.records@[i].capability.id.0 == id
    }

    /// The record carrying `id`.
    pub open spec fn spec_record(self, id: u64) -> CapabilityRecord {
        self.records@[self.spec_record_idx(id)]
    }

    /// `id` was issued and has not been revoked.
    pub open spec fn spec_live(self, id: u64) -> bool {
        self.spec_issued(id) && !self.spec_record(id).revoked
    }

    /// What `check` decides, evaluated against the stored record: the
    /// capability is live, unexpired at `now`, holds the requested
    /// permission, and its resource contains the requested one.
    pub open spec fn spec_check(
        self,
        id: u64,
        resource: ResourceHandle,
        permission: Permission,
        now: u64,
    ) -> bool {
        &&& self.spec_live(id)
        &&& !cap_expired(self.spec_record(id).capability.expires_at, now)
        &&& perms_contain(self.spec_record(id).capability.permissions.permissions@, permission)
        &&& resource_covers_spec(self.spec_record(id).capability.resource, resource)
    }

    /// What `delegate` demands of the parent, evaluated against the stored
    /// record: the parent is live, currently holds `Delegate`, the requested
    /// permissions are a subset of the parent's, and the requested resource
    /// is contained in the parent's.
    pub open spec fn spec_delegate_ok(
        self,
        parent_id: u64,
        subset: Seq<Permission>,
        sub_resource: ResourceHandle,
    ) -> bool {
        &&& self.spec_live(parent_id)
        &&& perms_contain(
            self.spec_record(parent_id).capability.permissions.permissions@,
            Permission::Delegate,
        )
        &&& perms_subset(subset, self.spec_record(parent_id).capability.permissions.permissions@)
        &&& resource_covers_spec(
            self.spec_record(parent_id).capability.resource,
            sub_resource,
        )
    }

    /// Registry well-formedness: identifiers are unique, below the counter,
    /// and the counter never started below the first identifier.
    pub open spec fn wf(self) -> bool {
        &&& crate::FIRST_IDENTIFIER <= self.next_capability_id
        &&& forall|i: int|
            0 <= i < self.records@.len()
                ==> #[trigger] self.records@[i].capability.id.0 < self.next_capability_id
        &&& forall|i: int, j: int|
            0 <= i < self.records@.len() && 0 <= j < self.records@.len() && i != j
                ==> #[trigger] self.records@[i].capability.id.0
                    != #[trigger] self.records@[j].capability.id.0
    }

    /// Create a new capability system with no records and no channels.
    pub fn new() -> (r: Self)
        ensures
            r.wf(),
            r.records@.len() == 0,
            r.channels@.len() == 0,
            r.next_capability_id == crate::FIRST_IDENTIFIER,
    {
        CapabilitySystem {
            records: Vec::new(),
            channels: Vec::new(),
            next_capability_id: FIRST_IDENTIFIER,
        }
    }

    /// Generate a fresh capability identifier and advance the counter.
    pub fn next_capability_id(&mut self) -> (r: CapabilityId)
        requires
            old(self).wf(),
            old(self).next_capability_id < u64::MAX,
        ensures
            final(self).wf(),
            r.0 == old(self).next_capability_id,
            final(self).next_capability_id == old(self).next_capability_id + 1,
            final(self).records@ == old(self).records@,
            final(self).channels@ == old(self).channels@,
    {
        let id = CapabilityId(self.next_capability_id);
        self.next_capability_id = self.next_capability_id + 1;
        id
    }

    /// Look up the record carrying `id`, if any.
    pub fn find_record(&self, id: u64) -> (r: Option<&CapabilityRecord>)
        requires
            self.wf(),
        ensures
            match r {
                Some(rec) => self.spec_issued(id) && *rec == self.spec_record(id)
                    && rec.capability.id.0 == id,
                None => !self.spec_issued(id),
            },
    {
        let mut i: usize = 0;
        while i < self.records.len()
            invariant
                self.wf(),
                i <= self.records.len(),
                forall|j: int| 0 <= j < i ==> self.records@[j].capability.id.0 != id,
            decreases self.records.len() - i,
        {
            if self.records[i].capability.id.0 == id {
                proof {
                    assert(self.spec_record_idx(id) == i as int);
                }
                return Some(&self.records[i]);
            }
            i += 1;
        }
        None
    }

    /// Issue a fresh capability over `resource` with `permissions`, expiring
    /// at `expires_at` if given. The record is stored and an equal token is
    /// returned to the grantor.
    pub fn issue(
        &mut self,
        resource: ResourceHandle,
        permissions: PermissionSet,
        expires_at: Option<u64>,
    ) -> (r: Capability)
        requires
            old(self).wf(),
            old(self).next_capability_id < u64::MAX,
        ensures
            final(self).wf(),
            r.id.0 == old(self).next_capability_id,
            r.permissions.permissions@ == permissions.permissions@,
            r.resource == resource,
            r.expires_at == expires_at,
            final(self).next_capability_id == old(self).next_capability_id + 1,
            final(self).channels@ == old(self).channels@,
            final(self).records@.len() == old(self).records@.len() + 1,
            forall|i: int|
                0 <= i < old(self).records@.len()
                    ==> #[trigger] final(self).records@[i] == old(self).records@[i],
            final(self).records@.last().capability.id == r.id,
            final(self).records@.last().capability.permissions.permissions@
                == permissions.permissions@,
            final(self).records@.last().capability.resource == resource,
            final(self).records@.last().capability.expires_at == expires_at,
            !final(self).records@.last().revoked,
            final(self).spec_live(r.id.0),
            final(self).spec_record(r.id.0) == final(self).records@.last(),
    {
        let id = CapabilityId(self.next_capability_id);
        self.next_capability_id = self.next_capability_id + 1;
        let stored = Capability {
            id,
            permissions: permissions.clone(),
            resource: resource.clone(),
            expires_at,
        };
        let token = Capability { id, permissions, resource, expires_at };
        self.records.push(CapabilityRecord { capability: stored, revoked: false });
        proof {
            let n = self.records@.len() - 1;
            assert(self.records@[n].capability.id.0 == token.id.0);
            assert(self.spec_record_idx(token.id.0) == n);
        }
        token
    }

    /// Mark the capability carrying `id` dead. Idempotent: revoking an
    /// already-dead or unknown capability is a no-op, not an error.
    pub fn revoke(&mut self, id: CapabilityId)
        requires
            old(self).wf(),
        ensures
            final(self).wf(),
            final(self).records@.len() == old(self).records@.len(),
            final(self).channels@ == old(self).channels@,
            final(self).next_capability_id == old(self).next_capability_id,
            forall|i: int|
                0 <= i < old(self).records@.len() && old(self).records@[i].capability.id.0 != id.0
                    ==> #[trigger] final(self).records@[i] == old(self).records@[i],
            forall|i: int|
                0 <= i < old(self).records@.len() && old(self).records@[i].capability.id.0 == id.0
                    ==> #[trigger] final(self).records@[i].capability
                        == old(self).records@[i].capability && final(self).records@[i].revoked,
            !final(self).spec_live(id.0),
    {
        let mut i: usize = 0;
        while i < self.records.len()
            invariant
                self.wf(),
                i <= self.records.len(),
                self.records@.len() == old(self).records@.len(),
                self.channels@ == old(self).channels@,
                self.next_capability_id == old(self).next_capability_id,
                forall|j: int|
                    0 <= j < old(self).records@.len() && old(self).records@[j].capability.id.0
                        != id.0 ==> #[trigger] self.records@[j] == old(self).records@[j],
                forall|j: int|
                    i <= j < old(self).records@.len()
                        ==> #[trigger] self.records@[j] == old(self).records@[j],
                forall|j: int|
                    0 <= j < i && old(self).records@[j].capability.id.0 == id.0
                        ==> #[trigger] self.records@[j].capability
                            == old(self).records@[j].capability && self.records@[j].revoked,
            decreases self.records.len() - i,
        {
            if self.records[i].capability.id.0 == id.0 {
                self.records[i].revoked = true;
            }
            i += 1;
        }
        proof {
            if self.spec_issued(id.0) {
                let k = self.spec_record_idx(id.0);
                assert(old(self).records@[k].capability.id.0 == id.0);
            }
        }
    }

    /// Check a presented capability against the registry: true exactly when
    /// the stored record with the token's identifier is live, unexpired at
    /// `now`, holds `permission`, and its resource contains `resource`.
    ///
    /// The verdict is never cached: an expired or revoked capability is
    /// rejected by every subsequent check.
    pub fn check(
        &self,
        capability: &Capability,
        resource: &ResourceHandle,
        permission: &Permission,
        now: u64,
    ) -> (r: bool)
        requires
            self.wf(),
        ensures
            r == self.spec_check(capability.id.0, *resource, *permission, now),
            self.spec_issued(capability.id.0) && cap_expired(
                self.spec_record(capability.id.0).capability.expires_at,
                now,
            ) ==> !r,
    {
        match self.find_record(capability.id.0) {
            None => false,
            Some(rec) => {
                if rec.revoked {
                    false
                } else {
                    rec.capability.authorizes(resource, permission, now)
                }
            },
        }
    }

    /// Delegate: derive a narrower capability from a live parent. Valid only
    /// if the stored parent currently holds `Delegate`, `subset_permissions`
    /// is a subset of the parent's permissions, and `sub_resource` is
    /// contained in the parent's resource; any violation fails with
    /// `PermissionDenied` and leaves the registry untouched. The child's
    /// expiry is the earlier of the parent's and the requested one, so a
    /// delegated capability never outlives its parent.
    pub fn delegate(
        &mut self,
        parent: &Capability,
        subset_permissions: PermissionSet,
        sub_resource: ResourceHandle,
        expires_at: Option<u64>,
    ) -> (r: Result<Capability, CapabilityError>)
        requires
            old(self).wf(),
            old(self).next_capability_id < u64::MAX,
        ensures
            final(self).wf(),
            r is Ok <==> old(self).spec_delegate_ok(
                parent.id.0,
                subset_permissions.permissions@,
                sub_resource,
            ),
            r is Err ==> r == Err::<Capability, CapabilityError>(
                CapabilityError::PermissionDenied,
            ) && final(self).records@ == old(self).records@ && final(self).channels@ == old(self).channels@ && final(self).next_capability_id == old(self).next_capability_id,
            r matches Ok(child) ==> {
                &&& child.id.0 == old(self).next_capability_id
                &&& child.permissions.permissions@ == subset_permissions.permissions@
                &&& child.resource == sub_resource
                &&& child.expires_at == min_expiry_spec(
                    old(self).spec_record(parent.id.0).capability.expires_at,
                    expires_at,
                )
                &&& perms_subset(
                    child.permissions.permissions@,
                    old(self).spec_record(parent.id.0).capability.permissions.permissions@,
                )
                &&& expiry_within(
                    child.expires_at,
                    old(self).spec_record(parent.id.0).capability.expires_at,
                )
                &&& final(self).next_capability_id == old(self).next_capability_id + 1
                &&& final(self).records@.len() == old(self).records@.len() + 1
                &&& forall|i: int|
                    0 <= i < old(self).records@.len()
                        ==> #[trigger] final(self).records@[i] == old(self).records@[i]
                &&& final(self).spec_live(child.id.0)
            },
    {
        let parent_expiry: Option<u64>;
        match self.find_record(parent.id.0) {
            None => {
                return Err(CapabilityError::PermissionDenied);
            },
            Some(rec) => {
                if rec.revoked {
                    return Err(CapabilityError::PermissionDenied);
                }
                if !rec.capability.permissions.contains(&Permission::Delegate) {
                    return Err(CapabilityError::PermissionDenied);
                }
                if !subset_permissions.is_subset_of(&rec.capability.permissions) {
                    return Err(CapabilityError::PermissionDenied);
                }
                if !rec.capability.resource.covers(&sub_resource) {
                    return Err(CapabilityError::PermissionDenied);
                }
                parent_expiry = rec.capability.expires_at;
            },
        }
        let child_expiry = min_expiry(parent_expiry, expires_at);
        let child = self.issue(sub_resource, subset_permissions, child_expiry);
        Ok(child)
    }

    /// Create a new capability channel: the service half stays with the
    /// system, the client half is handed to the requesting context.
    pub fn create_channel(&mut self) -> (r: crate::channel::CapabilityChannel)
        requires
            old(self).wf(),
        ensures
            final(self).wf(),
            final(self).records@ == old(self).records@,
            final(self).next_capability_id == old(self).next_capability_id,
            final(self).channels@.len() == old(self).channels@.len() + 1,
            r.pending@.len() == 0,
            r.responses@.len() == 0,
    {
        let (channel, service) = crate::channel::CapabilityChannel::new();
        self.channels.push(service);
        channel
    }
}

} // verus!

//! Capability channels and the kernel-side service that drives them.
//!
//! One channel pair exists per requesting context. The client half queues
//! typed requests; the service half takes them strictly in order, one in
//! flight at a time, validates their shape, checks them against the
//! capability registry, and decides which external collaborator the request
//! is forwarded to. Shape validation precedes permission validation, and a
//! request that fails either is answered with an error before any
//! collaborator is touched.

use vstd::prelude::*;
use std::collections::VecDeque;
use crate::capability::Capability;
use crate::capability::CapabilityError;
use crate::capability::CapabilityRequest;
use crate::capability::CapabilityResponse;
use crate::capability::CapabilitySystem;
use crate::capability::FileSystemRequest;
use crate::capability::MemoryRequest;
use crate::capability::NetworkRequest;
use crate::capability::OpenMode;
use crate::capability::Permission;
use crate::capability::ProcessRequest;
use crate::capability::ResourceHandle;
use crate::capability::cap_expired;
use crate::capability::perms_contain;
use crate::capability::resource_covers_spec;

verus! {

/// The external collaborator a validated request is routed to.
#[derive(Debug, Clone, Copy, PartialEq, Eq, Structural)]
pub enum Collaborator {
    FileSystem,
    Network,
    Memory,
    Process,
}

/// What a collaborator reports back for a forwarded request, reduced to
/// plain values the dispatcher can wrap into a response.
#[derive(Debug)]
pub enum CollaboratorOutcome {
    /// The operation yielded a new or derived capability.
    Granted(Capability),
    /// A read-style result.
    Data(Vec<u8>),
    /// The named object does not exist.
    NotFound,
    /// The collaborator itself failed.
    Fault(String),
}

/// Shape of a well-formed request: every named object is non-empty and every
/// size or buffer is positive. A malformed request is rejected with
/// `InvalidRequest` before any capability is consulted.
pub open spec fn request_well_formed(req: CapabilityRequest) -> bool {
    match req {
        CapabilityRequest::FileSystem(f) => match f {
            FileSystemRequest::Open { path, .. } => path@.len() > 0,
            FileSystemRequest::Create { path, .. } => path@.len() > 0,
            FileSystemRequest::Delete { path } => path@.len() > 0,
            FileSystemRequest::List { path } => path@.len() > 0,
        },
        CapabilityRequest::Network(n) => match n {
            NetworkRequest::Connect { address, .. } => address@.len() > 0,
            NetworkRequest::Listen { .. } => true,
            NetworkRequest::Send { .. } => true,
            NetworkRequest::Receive { buffer_size } => buffer_size > 0,
        },
        CapabilityRequest::Memory(m) => match m {
            MemoryRequest::Allocate { size } => size > 0,
            MemoryRequest::Deallocate { size, .. } => size > 0,
            MemoryRequest::MapRegion { size, .. } => size > 0,
        },
        CapabilityRequest::Process(p) => match p {
            ProcessRequest::Spawn { program, .. } => program@.len() > 0,
            ProcessRequest::Kill { .. } => true,
            ProcessRequest::Signal { .. } => true,
        },
    }
}

/// The permission a request demands of the capability that backs it.
pub open spec fn required_permission(req: CapabilityRequest) -> Permission {
    match req {
        CapabilityRequest::FileSystem(f) => match f {
            FileSystemRequest::Open { mode, .. } => if mode == OpenMode::Read {
                Permission::Read
            } else {
                Permission::Write
            },
            FileSystemRequest::Create { .. } => Permission::Write,
            FileSystemRequest::Delete { .. } => Permission::Delete,
            FileSystemRequest::List { .. } => Permission::Read,
        },
        CapabilityRequest::Network(n) => match n {
            NetworkRequest::Connect { .. } => Permission::Write,
            NetworkRequest::Listen { .. } => Permission::Read,
            NetworkRequest::Send { .. } => Permission::Write,
            NetworkRequest::Receive { .. } => Permission::Read,
        },
        CapabilityRequest::Memory(m) => match m {
            MemoryRequest::Allocate { .. } => Permission::Write,
            MemoryRequest::Deallocate { .. } => Permission::Delete,
            MemoryRequest::MapRegion { .. } => Permission::Write,
        },
        CapabilityRequest::Process(p) => match p {
            ProcessRequest::Spawn { .. } => Permission::Execute,
            ProcessRequest::Kill { .. } => Permission::Delete,
            ProcessRequest::Signal { .. } => Permission::Write,
        },
    }
}

/// Whether the held resource authorizes the request's target. Requests that
/// name their object (a path, a peer address, a memory address, a process
/// id) demand that the held resource contain it; requests without an
/// intrinsic target demand a held resource of the right kind.
pub open spec fn resource_authorized(held: ResourceHandle, req: CapabilityRequest) -> bool {
    match req {
        CapabilityRequest::FileSystem(f) => match f {
            FileSystemRequest::Open { path, .. } => resource_covers_spec(
                held,
                ResourceHandle::File(path),
            ),
            FileSystemRequest::Create { path, .. } => resource_covers_spec(
                held,
                ResourceHandle::File(path),
            ),
            FileSystemRequest::Delete { path } => resource_covers_spec(
                held,
                ResourceHandle::File(path),
            ),
            FileSystemRequest::List { path } => resource_covers_spec(
                held,
                ResourceHandle::File(path),
            ),
        },
        CapabilityRequest::Network(n) => match n {
            NetworkRequest::Connect { address, .. } => resource_covers_spec(
                held,
                ResourceHandle::Network(address),
            ),
            NetworkRequest::Listen { .. } => held is Network,
            NetworkRequest::Send { .. } => held is Network,
            NetworkRequest::Receive { .. } => held is Network,
        },
        CapabilityRequest::Memory(m) => match m {
            MemoryRequest::Allocate { .. } => held is Memory,
            MemoryRequest::Deallocate { address, .. } => resource_covers_spec(
                held,
                ResourceHandle::Memory(address),
            ),
            MemoryRequest::MapRegion { address, .. } => resource_covers_spec(
                held,
                ResourceHandle::Memory(address),
            ),
        },
        CapabilityRequest::Process(p) => match p {
            ProcessRequest::Spawn { .. } => held is Process,
            ProcessRequest::Kill { pid } => resource_covers_spec(
                held,
                ResourceHandle::Process(pid),
            ),
            ProcessRequest::Signal { pid, .. } => resource_covers_spec(
                held,
                ResourceHandle::Process(pid),
            ),
        },
    }
}

/// The collaborator that serves each request kind.
pub open spec fn collaborator_of(req: CapabilityRequest) -> Collaborator {
    match req {
        CapabilityRequest::FileSystem(_) => Collaborator::FileSystem,
        CapabilityRequest::Network(_) => Collaborator::Network,
        CapabilityRequest::Memory(_) => Collaborator::Memory,
        CapabilityRequest::Process(_) => Collaborator::Process,
    }
}

/// The full dispatch decision for one request presented with the capability
/// whose identifier is `cap_id`, evaluated at time `now` against the stored
/// registry record: shape errors first, then revocation, then expiry, then
/// permission and resource containment; only a request that passes them all
/// is forwarded to its collaborator.
pub open spec fn spec_decision(
    system: CapabilitySystem,
    cap_id: u64,
    req: CapabilityRequest,
    now: u64,
) -> Result<Collaborator, CapabilityError> {
    if !request_well_formed(req) {
        Err(CapabilityError::InvalidRequest)
    } else if !system.spec_live(cap_id) {
        Err(CapabilityError::PermissionDenied)
    } else if cap_expired(system.spec_record(cap_id).capability.expires_at, now) {
        Err(CapabilityError::Expired)
    } else if !(perms_contain(
        system.spec_record(cap_id).capability.permissions.permissions@,
        required_permission(req),
    ) && resource_authorized(system.spec_record(cap_id).capability.resource, req)) {
        Err(CapabilityError::PermissionDenied)
    } else {
        Ok(collaborator_of(req))
    }
}

/// Validate a request's shape alone. A malformed request fails with
/// `InvalidRequest` before any capability is consulted or any collaborator
/// is touched.
pub fn validate_request(request: &CapabilityRequest) -> (r: Result<(), CapabilityError>)
    ensures
        r is Ok <==> request_well_formed(*request),
        r is Err ==> r == Err::<(), CapabilityError>(CapabilityError::InvalidRequest),
{
    let ok = match request {
        CapabilityRequest::FileSystem(f) => match f {
            FileSystemRequest::Open { path, .. } => !path.as_str().is_empty(),
            FileSystemRequest::Create { path, .. } => !path.as_str().is_empty(),
            FileSystemRequest::Delete { path } => !path.as_str().is_empty(),
            FileSystemRequest::List { path } => !path.as_str().is_empty(),
        },
        CapabilityRequest::Network(n) => match n {
            NetworkRequest::Connect { address, .. } => !address.as_str().is_empty(),
            NetworkRequest::Listen { .. } => true,
            NetworkRequest::Send { .. } => true,
            NetworkRequest::Receive { buffer_size } => *buffer_size > 0,
        },
        CapabilityRequest::Memory(m) => match m {
            MemoryRequest::Allocate { size } => *size > 0,
            MemoryRequest::Deallocate { size, .. } => *size > 0,
            MemoryRequest::MapRegion { size, .. } => *size > 0,
        },
        CapabilityRequest::Process(p) => match p {
            ProcessRequest::Spawn { program, .. } => !program.as_str().is_empty(),
            ProcessRequest::Kill { .. } => true,
            ProcessRequest::Signal { .. } => true,
        },
    };
    if ok {
        Ok(())
    } else {
        Err(CapabilityError::InvalidRequest)
    }
}

/// The permission a request demands, as an owned value.
fn required_permission_of(request: &CapabilityRequest) -> (r: Permission)
    ensures
        r == required_permission(*request),
{
    match request {
        CapabilityRequest::FileSystem(f) => match f {
            FileSystemRequest::Open { mode, .. } => match mode {
                OpenMode::Read => Permission::Read,
                _ => Permission::Write,
            },
            FileSystemRequest::Create { .. } => Permission::Write,
            FileSystemRequest::Delete { .. } => Permission::Delete,
            FileSystemRequest::List { .. } => Permission::Read,
        },
        CapabilityRequest::Network(n) => match n {
            NetworkRequest::Connect { .. } => Permission::Write,
            NetworkRequest::Listen { .. } => Permission::Read,
            NetworkRequest::Send { .. } => Permission::Write,
            NetworkRequest::Receive { .. } => Permission::Read,
        },
        CapabilityRequest::Memory(m) => match m {
            MemoryRequest::Allocate { .. } => Permission::Write,
            MemoryRequest::Deallocate { .. } => Permission::Delete,
            MemoryRequest::MapRegion { .. } => Permission::Write,
        },
        CapabilityRequest::Process(p) => match p {
            ProcessRequest::Spawn { .. } => Permission::Execute,
            ProcessRequest::Kill { .. } => Permission::Delete,
            ProcessRequest::Signal { .. } => Permission::Write,
        },
    }
}

/// Decides whether the held resource authorizes the request's target.
fn resource_authorizes(held: &ResourceHandle, request: &CapabilityRequest) -> (r: bool)
    ensures
        r == resource_authorized(*held, *request),
{
    match request {
        CapabilityRequest::FileSystem(f) => {
            let target = match f {
                FileSystemRequest::Open { path, .. } => ResourceHandle::File(path.clone()),
                FileSystemRequest::Create { path, .. } => ResourceHandle::File(path.clone()),
                FileSystemRequest::Delete { path } => ResourceHandle::File(path.clone()),
                FileSystemRequest::List { path } => ResourceHandle::File(path.clone()),
            };
            held.covers(&target)
        },
        CapabilityRequest::Network(n) => match n {
            NetworkRequest::Connect { address, .. } => held.covers(
                &ResourceHandle::Network(address.clone()),
            ),
            NetworkRequest::Listen { .. } => matches!(held, ResourceHandle::Network(_)),
            NetworkRequest::Send { .. } => matches!(held, ResourceHandle::Network(_)),
            NetworkRequest::Receive { .. } => matches!(held, ResourceHandle::Network(_)),
        },
        CapabilityRequest::Memory(m) => match m {
            MemoryRequest::Allocate { .. } => matches!(held, ResourceHandle::Memory(_)),
            MemoryRequest::Deallocate { address, .. } => held.covers(
                &ResourceHandle::Memory(*address),
            ),
            MemoryRequest::MapRegion { address, .. } => held.covers(
                &ResourceHandle::Memory(*address),
            ),
        },
        CapabilityRequest::Process(p) => match p {
            ProcessRequest::Spawn { .. } => matches!(held, ResourceHandle::Process(_)),
            ProcessRequest::Kill { pid } => held.covers(&ResourceHandle::Process(*pid)),
            ProcessRequest::Signal { pid, .. } => held.covers(&ResourceHandle::Process(*pid)),
        },
    }
}

/// Capability channel, client half: a FIFO of submitted requests and a FIFO
/// of delivered responses. Exactly one request per channel is serviced at a
/// time; later submissions queue behind the in-flight one.
pub struct CapabilityChannel {
    pub pending: VecDeque<CapabilityRequest>,
    pub responses: VecDeque<CapabilityResponse>,
}

/// Capability channel service, kernel half: stateless; every decision it
/// makes is a function of the registry, the presented capability, the
/// request and the time of evaluation.
pub struct CapabilityChannelService {}

impl CapabilityChannel {
    /// Create a new channel pair: the client half and the kernel half.
    pub fn new() -> (r: (CapabilityChannel, CapabilityChannelService))
        ensures
            r.0.pending@.len() == 0,
            r.0.responses@.len() == 0,
    {
        let channel = CapabilityChannel { pending: VecDeque::new(), responses: VecDeque::new() };
        let service = CapabilityChannelService {};
        (channel, service)
    }

    /// Submit a request. It queues behind every earlier one and will be
    /// serviced strictly in order.
    pub fn submit(&mut self, request: CapabilityRequest)
        ensures
            final(self).pending@ == old(self).pending@.push(request),
            final(self).responses@ == old(self).responses@,
    {
        self.pending.push_back(request);
    }

    /// Collect the oldest delivered response, if any has arrived.
    pub fn take_response(&mut self) -> (r: Option<CapabilityResponse>)
        ensures
            final(self).pending@ == old(self).pending@,
            old(self).responses@.len() == 0 ==> r is None
                && final(self).responses@ == old(self).responses@,
            old(self).responses@.len() > 0 ==> r == Some(old(self).responses@[0])
                && final(self).responses@
                    == old(self).responses@.subrange(1, old(self).responses@.len() as int),
    {
        self.responses.pop_front()
    }
}

impl CapabilityChannelService {
    /// Handle a single capability request: shape validation, then the
    /// registry check against the stored record, then routing. Returns the
    /// collaborator the request is forwarded to, or the error that answers
    /// it without any collaborator being touched.
    pub fn handle_request(
        &self,
        system: &CapabilitySystem,
        capability: &Capability,
        request: &CapabilityRequest,
        now: u64,
    ) -> (r: Result<Collaborator, CapabilityError>)
        requires
            system.wf(),
        ensures
            r == spec_decision(*system, capability.id.0, *request, now),
    {
        if let Err(e) = validate_request(request) {
            return Err(e);
        }
        match system.find_record(capability.id.0) {
            None => Err(CapabilityError::PermissionDenied),
            Some(rec) => {
                if rec.revoked {
                    return Err(CapabilityError::PermissionDenied);
                }
                if rec.capability.is_expired(now) {
                    return Err(CapabilityError::Expired);
                }
                let needed = required_permission_of(request);
                if !rec.capability.permissions.contains(&needed) {
                    return Err(CapabilityError::PermissionDenied);
                }
                if !resource_authorizes(&rec.capability.resource, request) {
                    return Err(CapabilityError::PermissionDenied);
                }
                match request {
                    CapabilityRequest::FileSystem(_) => Ok(Collaborator::FileSystem),
                    CapabilityRequest::Network(_) => Ok(Collaborator::Network),
                    CapabilityRequest::Memory(_) => Ok(Collaborator::Memory),
                    CapabilityRequest::Process(_) => Ok(Collaborator::Process),
                }
            },
        }
    }

    /// Take the next queued request off the channel and decide it. A request
    /// that is rejected is answered on the channel at once; an accepted one
    /// is handed back with its collaborator so the caller can forward it and
    /// later deliver the wrapped outcome.
    pub fn service_step(
        &self,
        channel: &mut CapabilityChannel,
        system: &CapabilitySystem,
        capability: &Capability,
        now: u64,
    ) -> (r: Option<(CapabilityRequest, Result<Collaborator, CapabilityError>)>)
        requires
            system.wf(),
        ensures
            old(channel).pending@.len() == 0 ==> r is None
                && final(channel).pending@ == old(channel).pending@
                && final(channel).responses@ == old(channel).responses@,
            old(channel).pending@.len() > 0 ==> {
                &&& final(channel).pending@
                    == old(channel).pending@.subrange(1, old(channel).pending@.len() as int)
                &&& r matches Some((req, decision)) && req == old(channel).pending@[0]
                    && decision
                        == spec_decision(*system, capability.id.0, old(channel).pending@[0], now)
                &&& (spec_decision(*system, capability.id.0, old(channel).pending@[0], now)
                    matches Err(e) ==> final(channel).responses@
                        == old(channel).responses@.push(CapabilityResponse::Error(e)))
                &&& (spec_decision(*system, capability.id.0, old(channel).pending@[0], now) is Ok
                    ==> final(channel).responses@ == old(channel).responses@)
            },
    {
        let request = match channel.pending.pop_front() {
            None => {
                return None;
            },
            Some(req) => req,
        };
        match self.handle_request(system, capability, &request, now) {
            Ok(c) => Some((request, Ok(c))),
            Err(e) => {
                channel.responses.push_back(CapabilityResponse::Error(e.clone()));
                Some((request, Err(e)))
            },
        }
    }

    /// Wrap a collaborator's outcome into the response delivered to the
    /// requester: a lookup miss becomes `ResourceNotFound`, a collaborator
    /// fault is wrapped as `SystemError` rather than crashing the kernel.
    pub fn complete_request(&self, outcome: CollaboratorOutcome) -> (r: CapabilityResponse)
        ensures
            match outcome {
                CollaboratorOutcome::Granted(c) => r matches CapabilityResponse::Success(rc)
                    && rc.id == c.id && rc.permissions.permissions@ == c.permissions.permissions@
                    && rc.resource == c.resource && rc.expires_at == c.expires_at,
                CollaboratorOutcome::Data(d) => r == CapabilityResponse::Data(d),
                CollaboratorOutcome::NotFound => r == CapabilityResponse::Error(
                    CapabilityError::ResourceNotFound,
                ),
                CollaboratorOutcome::Fault(msg) => r == CapabilityResponse::Error(
                    CapabilityError::SystemError(msg),
                ),
            },
    {
        match outcome {
            CollaboratorOutcome::Granted(c) => CapabilityResponse::Success(c),
            CollaboratorOutcome::Data(d) => CapabilityResponse::Data(d),
            CollaboratorOutcome::NotFound => CapabilityResponse::Error(
                CapabilityError::ResourceNotFound,
            ),
            CollaboratorOutcome::Fault(msg) => CapabilityResponse::Error(
                CapabilityError::SystemError(msg),
            ),
        }
    }

    /// Deliver a response on the originating channel. This is the sole
    /// synchronization point with the scheduler: the caller wakes the
    /// requesting thread after the response is queued, and if that thread
    /// was terminated meanwhile the response is simply discarded with it.
    pub fn deliver_response(&self, channel: &mut CapabilityChannel, response: CapabilityResponse)
        ensures
            final(channel).pending@ == old(channel).pending@,
            final(channel).responses@ == old(channel).responses@.push(response),
    {
        channel.responses.push_back(response);
    }
}

} // verus!

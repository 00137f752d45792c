use vstd::prelude::*;
use crate::catalog::{
    get_descriptor_permission_state,
    name_from_text,
    spec_allowed_in_nonsecure_contexts,
    spec_name_from_text,
    spec_permission_state,
    PermissionName,
    PermissionState,
};
use crate::promise::{Engine, Promise, PromiseState};

verus! {

/// The diagnostic carried by a descriptor that cannot be converted.
pub const ROOT_DESC_CONVERSION_ERROR: &'static str = "Can't convert to an IDL value of type PermissionDescriptor";

/// Why a permission operation rejects.
#[derive(Clone, Copy, Debug, PartialEq, Eq, Structural)]
pub enum Error {
    /// The request does not name a capability of the catalog.
    DescriptorConversion,
}

impl Error {
    /// The fixed diagnostic message of the error.
    pub fn message(&self) -> (r: &'static str)
        ensures
            r@ == ROOT_DESC_CONVERSION_ERROR@,
    {
        ROOT_DESC_CONVERSION_ERROR
    }
}

/// A request as script hands it over: the text of its `name` member, if it
/// has one.
#[derive(Clone, Debug, PartialEq, Eq)]
pub struct RawDescriptor {
    pub name: Option<String>,
}

impl View for RawDescriptor {
    type V = Option<Seq<char>>;

    open spec fn view(&self) -> Option<Seq<char>> {
        match self.name {
            Some(s) => Some(s@),
            None => None,
        }
    }
}

/// A validated request for one capability.
#[derive(Clone, Copy, Debug, PartialEq, Eq, Structural)]
pub struct PermissionDescriptor {
    pub name: PermissionName,
}

/// The snapshot handed back by a permission operation: the descriptor it
/// was computed for and the state found.
#[derive(Clone, Copy, Debug, PartialEq, Eq, Structural)]
pub struct PermissionStatus {
    pub descriptor: PermissionDescriptor,
    pub state: PermissionState,
}

/// The descriptor that a raw request converts to, or the conversion error.
pub open spec fn spec_create_descriptor(raw: Option<Seq<char>>) -> Result<PermissionDescriptor, Error> {
    match raw {
        Some(s) => match spec_name_from_text(s) {
            Some(name) => Ok(PermissionDescriptor { name }),
            None => Err(Error::DescriptorConversion),
        },
        None => Err(Error::DescriptorConversion),
    }
}

/// A status freshly made for a descriptor, before any algorithm has run.
pub open spec fn spec_new_status(d: PermissionDescriptor) -> PermissionStatus {
    PermissionStatus { descriptor: d, state: PermissionState::Denied }
}

/// The status after the query algorithm has run on it.
pub open spec fn spec_query_status(s: PermissionStatus) -> PermissionStatus {
    PermissionStatus { descriptor: s.descriptor, state: spec_permission_state(s.descriptor.name) }
}

/// The status after the request algorithm has run on it: a query, and a
/// second one after asking the user when the first one gave `Prompt`.
pub open spec fn spec_request_status(s: PermissionStatus) -> PermissionStatus {
    let q = spec_query_status(s);
    if q.state == PermissionState::Prompt {
        spec_query_status(q)
    } else {
        q
    }
}

/// How the promise returned by `Query` settles.
pub open spec fn query_outcome(raw: Option<Seq<char>>) -> PromiseState<PermissionStatus, Error> {
    match spec_create_descriptor(raw) {
        Ok(d) => PromiseState::Fulfilled(spec_query_status(spec_new_status(d))),
        Err(e) => PromiseState::Rejected(e),
    }
}

/// How the promise returned by `Request` settles.
pub open spec fn request_outcome(raw: Option<Seq<char>>) -> PromiseState<PermissionStatus, Error> {
    match spec_create_descriptor(raw) {
        Ok(d) => PromiseState::Fulfilled(spec_request_status(spec_new_status(d))),
        Err(e) => PromiseState::Rejected(e),
    }
}

/// How the promise returned by `Revoke` settles: after a valid descriptor
/// is revoked, the answer is a fresh query of the same request.
pub open spec fn revoke_outcome(raw: Option<Seq<char>>) -> PromiseState<PermissionStatus, Error> {
    match spec_create_descriptor(raw) {
        Ok(_) => query_outcome(raw),
        Err(e) => PromiseState::Rejected(e),
    }
}

/// Revoking a request answers exactly as querying it right afterwards: the
/// promise of `Revoke` settles in the same state, with the same status, as
/// that of `Query` on the same request.
pub proof fn lemma_revoke_answers_as_query(raw: RawDescriptor)
    ensures
        revoke_outcome(raw@) == query_outcome(raw@),
{
}

/// The steps of the permission operations, over a descriptor and the
/// status that they fill in.
pub trait PermissionAlgorithm {
    /// Converts a raw request into a descriptor.
    fn create_descriptor(permission_descriptor_obj: &RawDescriptor) -> (r: Result<
        PermissionDescriptor,
        Error,
    >)
        ensures
            r == spec_create_descriptor(permission_descriptor_obj@),
    ;

    /// Writes into `status` the state that the policy gives its descriptor.
    fn permission_query(descriptor: &PermissionDescriptor, status: &mut PermissionStatus)
        ensures
            *final(status) == spec_query_status(*old(status)),
    ;

    /// Queries, and where the answer is `Prompt`, asks the user and queries
    /// again.
    fn permission_request(descriptor: &PermissionDescriptor, status: &mut PermissionStatus)
        ensures
            *final(status) == spec_request_status(*old(status)),
    ;

    /// Forgets what was stored for the descriptor. No consent store exists
    /// yet, so there is nothing to forget.
    fn permission_revoke(descriptor: &PermissionDescriptor, status: &PermissionStatus);
}

/// The script-facing permissions object.
pub struct Permissions {}

impl Permissions {
    /// The bare object.
    pub fn new_inherited() -> Permissions {
        Permissions {}
    }

    /// A permissions object ready to be handed to script.
    pub fn new() -> Permissions {
        Permissions::new_inherited()
    }

    /// Validates the request and answers with a promise of its status under
    /// the query algorithm; an invalid request gives a rejected promise and
    /// no status.
    #[allow(non_snake_case)]
    pub fn Query(
        &self,
        engine: &mut Engine<PermissionStatus, Error>,
        permission_desc: &RawDescriptor,
    ) -> (p: Promise)
        requires
            old(engine).wf(),
        ensures
            final(engine).wf(),
            p@ == old(engine).states().len(),
            final(engine).states() == old(engine).states().push(query_outcome(permission_desc@)),
            final(engine).reactions() == old(engine).reactions().push(Seq::empty()),
            final(engine).jobs() == old(engine).jobs(),
            spec_create_descriptor(permission_desc@) matches Ok(d) ==> final(engine).state_of(p)
                == PromiseState::<PermissionStatus, Error>::Fulfilled(
                (PermissionStatus {
                    descriptor: d,
                    state: if spec_allowed_in_nonsecure_contexts(d.name) {
                        PermissionState::Granted
                    } else {
                        PermissionState::Denied
                    },
                }),
            ),
            permission_desc@ is None ==> final(engine).state_of(p) == PromiseState::<
                PermissionStatus,
                Error,
            >::Rejected(Error::DescriptorConversion),
    {
        let root_desc = match Permissions::create_descriptor(permission_desc) {
            Ok(descriptor) => descriptor,
            Err(error) => {
                return Promise::Reject(engine, error);
            },
        };
        let mut status = PermissionStatus { descriptor: root_desc, state: PermissionState::Denied };
        Permissions::permission_query(&root_desc, &mut status);
        Promise::Resolve(engine, status)
    }

    /// Validates the request and answers with a promise of its status under
    /// the request algorithm; an invalid request gives a rejected promise.
    /// A valid one is never rejected.
    #[allow(non_snake_case)]
    pub fn Request(
        &self,
        engine: &mut Engine<PermissionStatus, Error>,
        permission_desc: &RawDescriptor,
    ) -> (p: Promise)
        requires
            old(engine).wf(),
        ensures
            final(engine).wf(),
            p@ == old(engine).states().len(),
            final(engine).states() == old(engine).states().push(request_outcome(permission_desc@)),
            final(engine).reactions() == old(engine).reactions().push(Seq::empty()),
            final(engine).jobs() == old(engine).jobs(),
    {
        let root_desc = match Permissions::create_descriptor(permission_desc) {
            Ok(descriptor) => descriptor,
            Err(error) => {
                return Promise::Reject(engine, error);
            },
        };
        let mut status = PermissionStatus { descriptor: root_desc, state: PermissionState::Denied };
        Permissions::permission_request(&root_desc, &mut status);
        Promise::Resolve(engine, status)
    }

    /// Validates the request, revokes what was stored for it, and answers
    /// with a fresh query of the same request.
    #[allow(non_snake_case)]
    pub fn Revoke(
        &self,
        engine: &mut Engine<PermissionStatus, Error>,
        permission_desc: &RawDescriptor,
    ) -> (p: Promise)
        requires
            old(engine).wf(),
        ensures
            final(engine).wf(),
            p@ == old(engine).states().len(),
            final(engine).states() == old(engine).states().push(revoke_outcome(permission_desc@)),
            final(engine).reactions() == old(engine).reactions().push(Seq::empty()),
            final(engine).jobs() == old(engine).jobs(),
    {
        let root_desc = match Permissions::create_descriptor(permission_desc) {
            Ok(descriptor) => descriptor,
            Err(error) => {
                return Promise::Reject(engine, error);
            },
        };
        let status = PermissionStatus { descriptor: root_desc, state: PermissionState::Denied };
        Permissions::permission_revoke(&root_desc, &status);
        self.Query(engine, permission_desc)
    }
}

impl PermissionAlgorithm for Permissions {
    fn create_descriptor(permission_descriptor_obj: &RawDescriptor) -> (r: Result<
        PermissionDescriptor,
        Error,
    >) {
        match &permission_descriptor_obj.name {
            Some(text) => match name_from_text(text.as_str()) {
                Some(name) => Ok(PermissionDescriptor { name }),
                None => Err(Error::DescriptorConversion),
            },
            None => Err(Error::DescriptorConversion),
        }
    }

    fn permission_query(_descriptor: &PermissionDescriptor, status: &mut PermissionStatus) {
        status.state = get_descriptor_permission_state(status.descriptor.name);
    }

    fn permission_request(descriptor: &PermissionDescriptor, status: &mut PermissionStatus) {
        Permissions::permission_query(descriptor, status);
        match status.state {
            PermissionState::Prompt => {
                // No consent interface exists yet: the user is not asked
                // before the state is read again.
                Permissions::permission_query(descriptor, status);
            },
            _ => {},
        }
    }

    fn permission_revoke(_descriptor: &PermissionDescriptor, _status: &PermissionStatus) {
    }
}

} // verus!

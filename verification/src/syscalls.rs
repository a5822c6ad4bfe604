//! System calls that a hosted program makes, and what the host decides for each.
//!
//! The program hands the host a request: a size, the uuid of the call, and a
//! payload. The host answers with a response that echoes the call's uuid. The
//! decisions (which resource to register or look up, what to answer) are made
//! here on the registry; the host performs what needs the outside world
//! (printing, opening a window, running a method's code) as the returned
//! action says.
use vstd::prelude::*;
use crate::uuid::Uuid;
use crate::typed_value::TypedValue;
use crate::resource_local_registry::{Resource, ResourceRegistry, answers_method, has_method};
use crate::resources::{
    DESKTOP_RESOURCE_UUID, RESOURCE_BYTE_STREAM_ID, RESOURCE_BYTE_STREAM_TAG_STDIN,
    RESOURCE_BYTE_STREAM_TAG_STDOUT, RESOURCE_DESKTOP_ID, RESOURCE_WINDOW_ID, STDIN_RESOURCE_UUID,
    STDOUT_RESOURCE_UUID, WINDOW_RESOURCE_UUID, is_stdin_resource, is_stdout_resource,
    is_window_resource, path_lookup, process_uuid, process_uuid_value, stdin_resource,
    stdout_resource, window_resource,
};

verus! {

/// Uuid of the call that prints text.
pub const PRINT_V1: u128 = 0x7b16bee9_d0b8_4bd5_86d7_8225840ce006;
/// Uuid of the call that runs a method of a resource.
pub const CALL_RESOURCE_METHOD_V1: u128 = 0xbce7baa2_c3e2_4f7f_9d42_42c94065f5f0;

/// A request from the program: its size, the uuid of the call, and the payload.
pub struct SyscallRequest<T> {
    pub size: usize,
    pub uuid: Uuid,
    pub payload: T,
}

/// An answer to the program: its size, the uuid of the call it answers, and the payload.
pub struct SyscallResponse<T> {
    pub size: usize,
    pub request_uuid: Uuid,
    pub payload: T,
}

/// Payload of the call that prints text.
pub struct PrintV1 {
    pub text: String,
}

/// Payload of the call that runs a method of a resource.
pub struct CallResourceMethodV1 {
    pub resource: Uuid,
    pub method: String,
    pub args: TypedValue,
}

/// Answer to the call that runs a method: what the method returned.
pub struct CallResourceMethodV1Response {
    pub value: TypedValue,
}

/// Payload of the call that creates a resource of a type with tags.
pub struct CreateResourceV1 {
    pub resource_type: Uuid,
    pub tags: Vec<Uuid>,
}

/// Answer to the call that creates a resource: its uuid.
pub struct CreateResourceV1Response {
    pub uuid: Uuid,
}

/// Payload of the call that asks for the resource of a type.
pub struct RequestResourceV1 {
    pub resource_type: Uuid,
}

/// Answer to the call that asks for a resource: its uuid.
pub struct RequestResourceV1Response {
    pub uuid: Uuid,
}

/// Payload of the call that asks who the running process is.
pub struct CurrentProcessInfoV1Request {}

/// Answer to the call that asks who the running process is.
pub struct CurrentProcessInfoV1Response {
    pub uuid: Uuid,
    pub name: String,
}

/// Payload of the call that describes a resource.
pub struct GetResourceInfoV1Request {
    pub uuid: Uuid,
}

/// Answer to the call that describes a resource.
pub struct GetResourceInfoV1Response {
    pub uuid: Uuid,
    pub name: String,
    pub resource_type: Uuid,
    pub tags: Vec<Uuid>,
    pub methods: Vec<String>,
    pub connected_resources: Vec<Uuid>,
}

/// Payload of the call that finds a resource by path.
pub struct GetResourceByPathV1Request {
    pub path: String,
}

/// Answer to the call that finds a resource by path: its uuid, or the nil uuid.
pub struct GetResourceByPathV1Response {
    pub uuid: Uuid,
}

impl PrintV1 {
    /// The request that prints `text`.
    pub fn create(text: String) -> (r: SyscallRequest<PrintV1>)
        ensures
            r.size as nat == vstd::layout::size_of::<PrintV1>(),
            r.uuid@ == PRINT_V1,
            r.payload.text == text,
    {
        SyscallRequest {
            size: core::mem::size_of::<PrintV1>(),
            uuid: Uuid::from_u128(PRINT_V1),
            payload: PrintV1 { text },
        }
    }
}

impl CallResourceMethodV1 {
    /// The request that runs `method` of `resource` on `args`.
    pub fn create(resource: Uuid, method: String, args: TypedValue) -> (r: Box<
        SyscallRequest<CallResourceMethodV1>,
    >)
        ensures
            r.size as nat == vstd::layout::size_of::<CallResourceMethodV1>(),
            r.uuid@ == CALL_RESOURCE_METHOD_V1,
            r.payload.resource == resource,
            r.payload.method == method,
            r.payload.args == args,
    {
        Box::new(
            SyscallRequest {
                size: core::mem::size_of::<CallResourceMethodV1>(),
                uuid: Uuid::from_u128(CALL_RESOURCE_METHOD_V1),
                payload: CallResourceMethodV1 { resource, method, args },
            },
        )
    }
}

/// A request, by kind, as the host reads it from the program.
pub enum Syscall {
    Print(PrintV1),
    CreateResource(CreateResourceV1),
    RequestResource(RequestResourceV1),
    CallResourceMethod(CallResourceMethodV1),
    CurrentProcessInfo(CurrentProcessInfoV1Request),
    GetResourceInfo(GetResourceInfoV1Request),
    GetResourceByPath(GetResourceByPathV1Request),
    /// A call the host does not know.
    Unknown { size: usize, uuid: Uuid },
}

/// What the host is to do for a request.
pub enum SyscallAction {
    /// Print `text`; no answer.
    Print { text: String },
    /// Report a call the host does not know; no answer.
    ReportUnknown { size: usize, uuid: Uuid },
    /// A byte stream was registered; answer with its uuid.
    CreatedResource(CreateResourceV1Response),
    /// The window was registered; open it, then answer with its uuid.
    OpenWindow(CreateResourceV1Response),
    /// Answer with the uuid of the requested resource.
    RequestedResource(RequestResourceV1Response),
    /// Run the method's code on `args` and answer with what it returns.
    Invoke { resource: Uuid, method: String, args: TypedValue },
    /// Answer with `uuid` and the name of the running program's image.
    CurrentProcessInfo { uuid: Uuid },
    /// Answer with the description of a resource.
    ResourceInfo(GetResourceInfoV1Response),
    /// Answer with the uuid of the resource found by path.
    ResourceByPath(GetResourceByPathV1Response),
    /// Nothing to do and no answer.
    NoResponse,
}

/// A request the host cannot serve; the host stops.
#[derive(Clone, Copy, PartialEq, Eq, Structural, Debug)]
pub enum SyscallFault {
    /// A byte stream was asked for that is neither standard input nor output.
    UnknownByteStream,
    /// The desktop was asked for before it was registered.
    MissingDesktop,
}

/// Some tag in `tags` is `tag`.
pub open spec fn has_tag(tags: Seq<Uuid>, tag: u128) -> bool {
    exists|i: int| 0 <= i < tags.len() && (#[trigger] tags[i])@ == tag
}

/// What creating a resource does to the registry (`old` to `new`) and answers.
pub open spec fn create_outcome(
    old: Map<u128, Resource>,
    new: Map<u128, Resource>,
    c: CreateResourceV1,
    r: Result<SyscallAction, SyscallFault>,
) -> bool {
    if c.resource_type@ == RESOURCE_BYTE_STREAM_ID {
        if has_tag(c.tags@, RESOURCE_BYTE_STREAM_TAG_STDOUT) {
            &&& new == old.insert(STDOUT_RESOURCE_UUID, new[STDOUT_RESOURCE_UUID])
            &&& is_stdout_resource(new[STDOUT_RESOURCE_UUID])
            &&& r matches Ok(SyscallAction::CreatedResource(resp))
            &&& resp.uuid@ == STDOUT_RESOURCE_UUID
        } else if has_tag(c.tags@, RESOURCE_BYTE_STREAM_TAG_STDIN) {
            &&& new == old.insert(STDIN_RESOURCE_UUID, new[STDIN_RESOURCE_UUID])
            &&& is_stdin_resource(new[STDIN_RESOURCE_UUID])
            &&& r matches Ok(SyscallAction::CreatedResource(resp))
            &&& resp.uuid@ == STDIN_RESOURCE_UUID
        } else {
            &&& new == old
            &&& r == Err::<SyscallAction, SyscallFault>(SyscallFault::UnknownByteStream)
        }
    } else if c.resource_type@ == RESOURCE_WINDOW_ID {
        &&& new == old.insert(WINDOW_RESOURCE_UUID, new[WINDOW_RESOURCE_UUID])
        &&& is_window_resource(new[WINDOW_RESOURCE_UUID])
        &&& r matches Ok(SyscallAction::OpenWindow(resp))
        &&& resp.uuid@ == WINDOW_RESOURCE_UUID
    } else {
        &&& new == old
        &&& r matches Ok(SyscallAction::NoResponse)
    }
}

/// What asking for a resource of a type answers.
pub open spec fn request_outcome(
    m: Map<u128, Resource>,
    q: RequestResourceV1,
    r: Result<SyscallAction, SyscallFault>,
) -> bool {
    if q.resource_type@ == RESOURCE_DESKTOP_ID {
        if m.contains_key(DESKTOP_RESOURCE_UUID) {
            &&& r matches Ok(SyscallAction::RequestedResource(resp))
            &&& resp.uuid == m[DESKTOP_RESOURCE_UUID].uuid
        } else {
            r == Err::<SyscallAction, SyscallFault>(SyscallFault::MissingDesktop)
        }
    } else {
        r matches Ok(SyscallAction::NoResponse)
    }
}

/// What running a method answers: the method is run only where the resource is
/// registered and answers a method of that name.
pub open spec fn call_outcome(
    m: Map<u128, Resource>,
    c: CallResourceMethodV1,
    r: Result<SyscallAction, SyscallFault>,
) -> bool {
    if m.contains_key(c.resource@) && has_method(m[c.resource@], c.method@) {
        r == Ok::<SyscallAction, SyscallFault>(
            SyscallAction::Invoke { resource: c.resource, method: c.method, args: c.args },
        )
    } else {
        r matches Ok(SyscallAction::NoResponse)
    }
}

/// `resp` describes `res`.
pub open spec fn describes(resp: GetResourceInfoV1Response, res: Resource) -> bool {
    &&& resp.uuid == res.uuid
    &&& resp.name@ == res.name@
    &&& resp.resource_type == res.resource_type
    &&& resp.tags@ == res.tags@
    &&& resp.methods@.len() == res.methods@.len()
    &&& forall|i: int| 0 <= i < res.methods@.len() ==> (#[trigger] resp.methods@[i])@ == res.methods@[i]@
    &&& resp.connected_resources@ == res.connected_resources@
}

/// `resp` is the description of a resource that is not registered.
pub open spec fn describes_nothing(resp: GetResourceInfoV1Response) -> bool {
    &&& resp.uuid@ == 0
    &&& resp.name@.len() == 0
    &&& resp.resource_type@ == 0
    &&& resp.tags@.len() == 0
    &&& resp.methods@.len() == 0
    &&& resp.connected_resources@.len() == 0
}

/// What describing a resource answers.
pub open spec fn info_outcome(
    m: Map<u128, Resource>,
    q: GetResourceInfoV1Request,
    r: Result<SyscallAction, SyscallFault>,
) -> bool {
    &&& r matches Ok(SyscallAction::ResourceInfo(resp))
    &&& if m.contains_key(q.uuid@) {
        describes(resp, m[q.uuid@])
    } else {
        describes_nothing(resp)
    }
}

/// What finding a resource by path answers.
pub open spec fn path_outcome(
    m: Map<u128, Resource>,
    q: GetResourceByPathV1Request,
    process_id: u32,
    r: Result<SyscallAction, SyscallFault>,
) -> bool {
    &&& r matches Ok(SyscallAction::ResourceByPath(resp))
    &&& resp.uuid@ == match path_lookup(m, q.path@, process_id) {
        Some(res) => res.uuid@,
        None => 0,
    }
}

/// What the host decides for `call`, with `old` the registry before and `new`
/// after, for a host running the process with operating-system id `process_id`.
pub open spec fn syscall_outcome(
    old: Map<u128, Resource>,
    new: Map<u128, Resource>,
    call: Syscall,
    process_id: u32,
    r: Result<SyscallAction, SyscallFault>,
) -> bool {
    match call {
        Syscall::Print(p) => new == old && r == Ok::<SyscallAction, SyscallFault>(
            SyscallAction::Print { text: p.text },
        ),
        Syscall::CreateResource(c) => create_outcome(old, new, c, r),
        Syscall::RequestResource(q) => new == old && request_outcome(old, q, r),
        Syscall::CallResourceMethod(c) => new == old && call_outcome(old, c, r),
        Syscall::CurrentProcessInfo(_) => {
            &&& new == old
            &&& r matches Ok(SyscallAction::CurrentProcessInfo { uuid })
            &&& uuid@ == process_uuid_value(process_id)
        },
        Syscall::GetResourceInfo(q) => new == old && info_outcome(old, q, r),
        Syscall::GetResourceByPath(q) => new == old && path_outcome(old, q, process_id, r),
        Syscall::Unknown { size, uuid } => new == old && r == Ok::<SyscallAction, SyscallFault>(
            SyscallAction::ReportUnknown { size, uuid },
        ),
    }
}

/// Whether some tag in `tags` is `tag`.
fn find_tag(tags: &Vec<Uuid>, tag: u128) -> (b: bool)
    ensures
        b == has_tag(tags@, tag),
{
    let n = tags.len();
    let mut i: usize = 0;
    while i < n
        invariant
            n == tags@.len(),
            i <= n,
            forall|j: int| 0 <= j < i ==> (#[trigger] tags@[j])@ != tag,
        decreases n - i,
    {
        if tags[i].as_u128() == tag {
            return true;
        }
        i = i + 1;
    }
    false
}

/// A copy of a list of uuids.
fn copy_uuids(v: &Vec<Uuid>) -> (r: Vec<Uuid>)
    ensures
        r@ == v@,
{
    let mut r: Vec<Uuid> = Vec::new();
    let mut i: usize = 0;
    while i < v.len()
        invariant
            i <= v@.len(),
            r@ == v@.take(i as int),
        decreases v@.len() - i,
    {
        r.push(v[i]);
        i = i + 1;
        assert(r@ =~= v@.take(i as int));
    }
    assert(r@ =~= v@);
    r
}

/// A copy of a list of strings.
fn copy_strings(v: &Vec<String>) -> (r: Vec<String>)
    ensures
        r@.len() == v@.len(),
        forall|i: int| 0 <= i < v@.len() ==> (#[trigger] r@[i])@ == v@[i]@,
{
    let mut r: Vec<String> = Vec::new();
    let mut i: usize = 0;
    while i < v.len()
        invariant
            i <= v@.len(),
            r@.len() == i,
            forall|j: int| 0 <= j < i ==> (#[trigger] r@[j])@ == v@[j]@,
        decreases v@.len() - i,
    {
        r.push(v[i].clone());
        i = i + 1;
    }
    r
}

impl ResourceRegistry {
    /// Decides what to do for `call`, for a host running the process with
    /// operating-system id `process_id`:
    /// - printing prints the text;
    /// - creating a byte stream registers the standard-output stream if the
    ///   request is tagged so, else the standard-input stream if tagged so, and
    ///   fails otherwise; creating a window registers the window, which the host
    ///   then opens; creating any other type does nothing;
    /// - asking for the desktop answers its uuid, and fails if it is not
    ///   registered; asking for any other type does nothing;
    /// - running a method is done only if the resource answers it;
    /// - asking who the process is answers its uuid;
    /// - describing a resource answers its fields, or nil ones;
    /// - finding by path answers the resource's uuid, or the nil uuid;
    /// - an unknown call is reported.
    /// Only creating a resource changes the registry.
    pub fn handle_syscall(&mut self, call: Syscall, process_id: u32) -> (r: Result<
        SyscallAction,
        SyscallFault,
    >)
        ensures
            syscall_outcome(old(self)@, final(self)@, call, process_id, r),
            !(call is CreateResource) ==> final(self)@ == old(self)@,
    {
        match call {
            Syscall::Print(p) => Ok(SyscallAction::Print { text: p.text }),
            Syscall::CreateResource(c) => {
                if c.resource_type.as_u128() == RESOURCE_BYTE_STREAM_ID {
                    if find_tag(&c.tags, RESOURCE_BYTE_STREAM_TAG_STDOUT) {
                        self.insert(stdout_resource());
                        Ok(
                            SyscallAction::CreatedResource(
                                CreateResourceV1Response {
                                    uuid: Uuid::from_u128(STDOUT_RESOURCE_UUID),
                                },
                            ),
                        )
                    } else if find_tag(&c.tags, RESOURCE_BYTE_STREAM_TAG_STDIN) {
                        self.insert(stdin_resource());
                        Ok(
                            SyscallAction::CreatedResource(
                                CreateResourceV1Response {
                                    uuid: Uuid::from_u128(STDIN_RESOURCE_UUID),
                                },
                            ),
                        )
                    } else {
                        Err(SyscallFault::UnknownByteStream)
                    }
                } else if c.resource_type.as_u128() == RESOURCE_WINDOW_ID {
                    self.insert(window_resource());
                    Ok(
                        SyscallAction::OpenWindow(
                            CreateResourceV1Response { uuid: Uuid::from_u128(WINDOW_RESOURCE_UUID) },
                        ),
                    )
                } else {
                    Ok(SyscallAction::NoResponse)
                }
            },
            Syscall::RequestResource(q) => {
                if q.resource_type.as_u128() == RESOURCE_DESKTOP_ID {
                    match self.get(Uuid::from_u128(DESKTOP_RESOURCE_UUID)) {
                        Some(res) => Ok(
                            SyscallAction::RequestedResource(
                                RequestResourceV1Response { uuid: res.uuid },
                            ),
                        ),
                        None => Err(SyscallFault::MissingDesktop),
                    }
                } else {
                    Ok(SyscallAction::NoResponse)
                }
            },
            Syscall::CallResourceMethod(c) => {
                let known = match self.get(c.resource) {
                    Some(res) => answers_method(res, &c.method),
                    None => false,
                };
                if known {
                    Ok(
                        SyscallAction::Invoke {
                            resource: c.resource,
                            method: c.method,
                            args: c.args,
                        },
                    )
                } else {
                    Ok(SyscallAction::NoResponse)
                }
            },
            Syscall::CurrentProcessInfo(_) => Ok(
                SyscallAction::CurrentProcessInfo { uuid: process_uuid(process_id) },
            ),
            Syscall::GetResourceInfo(q) => {
                let resp = match self.get(q.uuid) {
                    Some(res) => GetResourceInfoV1Response {
                        uuid: res.uuid,
                        name: res.name.clone(),
                        resource_type: res.resource_type,
                        tags: copy_uuids(&res.tags),
                        methods: copy_strings(&res.methods),
                        connected_resources: copy_uuids(&res.connected_resources),
                    },
                    None => GetResourceInfoV1Response {
                        uuid: Uuid::from_u128(0),
                        name: String::new(),
                        resource_type: Uuid::from_u128(0),
                        tags: Vec::new(),
                        methods: Vec::new(),
                        connected_resources: Vec::new(),
                    },
                };
                Ok(SyscallAction::ResourceInfo(resp))
            },
            Syscall::GetResourceByPath(q) => {
                let uuid = match self.get_resource_by_path(q.path.as_str(), process_id) {
                    Some(res) => res.uuid,
                    None => Uuid::from_u128(0),
                };
                Ok(SyscallAction::ResourceByPath(GetResourceByPathV1Response { uuid }))
            },
            Syscall::Unknown { size, uuid } => Ok(SyscallAction::ReportUnknown { size, uuid }),
        }
    }
}

/// A resource that the host has just created is then described under the uuid
/// that the creation answered, and the description carries that uuid.
pub proof fn lemma_created_resource_is_described(
    m0: Map<u128, Resource>,
    m1: Map<u128, Resource>,
    m2: Map<u128, Resource>,
    create: CreateResourceV1,
    created: Result<SyscallAction, SyscallFault>,
    query: GetResourceInfoV1Request,
    described: Result<SyscallAction, SyscallFault>,
    process_id: u32,
)
    requires
        syscall_outcome(m0, m1, Syscall::CreateResource(create), process_id, created),
        created matches Ok(SyscallAction::CreatedResource(resp)) ==> query.uuid == resp.uuid,
        created matches Ok(SyscallAction::OpenWindow(resp)) ==> query.uuid == resp.uuid,
        created is Ok && (created->Ok_0 is CreatedResource || created->Ok_0 is OpenWindow),
        syscall_outcome(m1, m2, Syscall::GetResourceInfo(query), process_id, described),
    ensures
        m2 == m1,
        m1.contains_key(query.uuid@),
        described matches Ok(SyscallAction::ResourceInfo(info)) && info.uuid@ == query.uuid@
            && describes(info, m1[query.uuid@]),
{
}

/// A request other than creating a resource leaves the registry as it was.
pub proof fn lemma_only_creation_changes_registry(
    old: Map<u128, Resource>,
    new: Map<u128, Resource>,
    call: Syscall,
    process_id: u32,
    r: Result<SyscallAction, SyscallFault>,
)
    requires
        syscall_outcome(old, new, call, process_id, r),
        !(call is CreateResource),
    ensures
        new == old,
{
}

/// A byte-stream request tagged as standard output, at any position among its
/// tags, registers the standard-output stream and answers its uuid.
pub proof fn lemma_stdout_tag_anywhere(
    old: Map<u128, Resource>,
    new: Map<u128, Resource>,
    c: CreateResourceV1,
    process_id: u32,
    r: Result<SyscallAction, SyscallFault>,
    j: int,
)
    requires
        syscall_outcome(old, new, Syscall::CreateResource(c), process_id, r),
        c.resource_type@ == RESOURCE_BYTE_STREAM_ID,
        0 <= j < c.tags@.len(),
        c.tags@[j]@ == RESOURCE_BYTE_STREAM_TAG_STDOUT,
    ensures
        r matches Ok(SyscallAction::CreatedResource(resp)) && resp.uuid@ == STDOUT_RESOURCE_UUID,
        new == old.insert(STDOUT_RESOURCE_UUID, new[STDOUT_RESOURCE_UUID]),
        is_stdout_resource(new[STDOUT_RESOURCE_UUID]),
{
    assert(has_tag(c.tags@, RESOURCE_BYTE_STREAM_TAG_STDOUT));
}

/// A byte-stream request tagged as standard input, at any position, and not as
/// standard output, registers the standard-input stream and answers its uuid.
pub proof fn lemma_stdin_tag_anywhere(
    old: Map<u128, Resource>,
    new: Map<u128, Resource>,
    c: CreateResourceV1,
    process_id: u32,
    r: Result<SyscallAction, SyscallFault>,
    j: int,
)
    requires
        syscall_outcome(old, new, Syscall::CreateResource(c), process_id, r),
        c.resource_type@ == RESOURCE_BYTE_STREAM_ID,
        0 <= j < c.tags@.len(),
        c.tags@[j]@ == RESOURCE_BYTE_STREAM_TAG_STDIN,
        forall|k: int| 0 <= k < c.tags@.len() ==> (#[trigger] c.tags@[k])@ != RESOURCE_BYTE_STREAM_TAG_STDOUT,
    ensures
        r matches Ok(SyscallAction::CreatedResource(resp)) && resp.uuid@ == STDIN_RESOURCE_UUID,
        new == old.insert(STDIN_RESOURCE_UUID, new[STDIN_RESOURCE_UUID]),
        is_stdin_resource(new[STDIN_RESOURCE_UUID]),
{
    assert(has_tag(c.tags@, RESOURCE_BYTE_STREAM_TAG_STDIN));
}

/// A byte-stream request with neither standard tag is a fault and registers nothing.
pub proof fn lemma_untagged_byte_stream_fails(
    old: Map<u128, Resource>,
    new: Map<u128, Resource>,
    c: CreateResourceV1,
    process_id: u32,
    r: Result<SyscallAction, SyscallFault>,
)
    requires
        syscall_outcome(old, new, Syscall::CreateResource(c), process_id, r),
        c.resource_type@ == RESOURCE_BYTE_STREAM_ID,
        forall|k: int|
            0 <= k < c.tags@.len() ==> (#[trigger] c.tags@[k])@ != RESOURCE_BYTE_STREAM_TAG_STDOUT
                && c.tags@[k]@ != RESOURCE_BYTE_STREAM_TAG_STDIN,
    ensures
        r == Err::<SyscallAction, SyscallFault>(SyscallFault::UnknownByteStream),
        new == old,
{
}

} // verus!

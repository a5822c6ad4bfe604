//! The well-known resources, their identifiers, and resource paths.
use vstd::prelude::*;
use crate::uuid::{Uuid, spec_parse_uuid};
use crate::resource_local_registry::{Resource, ResourceRegistry};

verus! {

/// Type of byte-stream resources.
pub const RESOURCE_BYTE_STREAM_ID: u128 = 0x964cb3b0_a12c_4a0b_ba85_c10cbdd2d416;
/// Tag of the byte stream that reads standard input.
pub const RESOURCE_BYTE_STREAM_TAG_STDIN: u128 = 0xe312761d_5b12_4da3_a338_282374d2d642;
/// Tag of the byte stream that writes standard output.
pub const RESOURCE_BYTE_STREAM_TAG_STDOUT: u128 = 0x6c582e01_48c5_45ce_a12d_f6bb16faf3c0;
/// Tag of the byte stream that writes standard error.
pub const RESOURCE_BYTE_STREAM_TAG_STDERR: u128 = 0xafc00e60_6611_45a2_836e_a6d142517dfc;
/// Type of window resources.
pub const RESOURCE_WINDOW_ID: u128 = 0xf15e18c_bcbc_48da_95ed_f41c093bc849;
/// Type of desktop resources.
pub const RESOURCE_DESKTOP_ID: u128 = 0xe2e95ac2_c619_4767_8194_90e817fb3646;
/// Type of file-system items.
pub const RESOURCE_FILESYSTEM_ITEM_ID: u128 = 0x3e1f8c5a_9b6d_4c2e_8f7a_7567eb785687;
/// Tag of the root directory.
pub const RESOURCE_FILESYSTEM_ITEM_ROOT_TAG: u128 = 0x3e1f8c5a_9b6d_4c2e_8f7a_1bff44d518e8;
/// Tag of the current directory.
pub const RESOURCE_FILESYSTEM_ITEM_CURRENT_DIR_TAG: u128 = 0x03071a33_9b6d_4c2e_8f7a_aea9b057a344;
/// Type of process resources.
pub const RESOURCE_PROCESS_ID: u128 = 0x541302e1_a401_40b8_8792_16a1fc4a54c5;
/// Type of host-machine resources.
pub const RESOURCE_HOST_MACHINE_ID: u128 = 0x7fd422a9_36c6_45c9_b319_704d0c3d6001;

/// Uuid of a process is this value plus the operating system's process id.
pub const SYNTHETIC_PROCESS_ID: u128 = 0x30312746_893c_4654_a9b5_000000000000;
/// Uuid of the host-machine resource.
pub const HOST_MACHINE_RESOURCE_UUID: u128 = 0x5ee8f260_9a6e_4efc_b3be_eaef242c4cf0;
/// Uuid of the desktop resource.
pub const DESKTOP_RESOURCE_UUID: u128 = 0x70000000007;
/// Uuid of the root-directory resource.
pub const ROOT_DIRECTORY_RESOURCE_UUID: u128 = 0x200000001;
/// Uuid of the current-directory resource.
pub const CURRENT_DIRECTORY_RESOURCE_UUID: u128 = 0x200000002;
/// Uuid of the standard-output resource.
pub const STDOUT_RESOURCE_UUID: u128 = 1;
/// Uuid of the standard-input resource.
pub const STDIN_RESOURCE_UUID: u128 = 2;
/// Uuid of the window resource.
pub const WINDOW_RESOURCE_UUID: u128 = 0x303;

/// What a resource path designates.
#[derive(Clone, Copy, PartialEq, Eq, Structural, Debug)]
pub enum ResourcePath {
    /// `matios:currentProcess`: the process being run.
    CurrentProcess,
    /// A uuid in one of its textual forms.
    Id(u128),
    /// Anything else.
    Unknown,
}

/// The uuid of the process with operating-system id `process_id`.
pub open spec fn process_uuid_value(process_id: u32) -> u128 {
    (SYNTHETIC_PROCESS_ID + process_id) as u128
}

/// The uuid of the process with operating-system id `process_id`.
pub fn process_uuid(process_id: u32) -> (u: Uuid)
    ensures
        u@ == process_uuid_value(process_id),
{
    Uuid::from_u128(SYNTHETIC_PROCESS_ID + process_id as u128)
}

/// Position of the first `:` in `s`.
pub open spec fn colon_index(s: Seq<char>) -> Option<int>
    decreases s.len(),
{
    if s.len() == 0 {
        None
    } else if s[0] == ':' {
        Some(0)
    } else {
        match colon_index(s.drop_first()) {
            Some(k) => Some(k + 1),
            None => None,
        }
    }
}

/// The protocol of the host's own paths.
pub open spec fn matios_protocol() -> Seq<char> {
    seq!['m', 'a', 't', 'i', 'o', 's']
}

/// The path, after the protocol, of the process being run.
pub open spec fn current_process_path() -> Seq<char> {
    seq!['c', 'u', 'r', 'r', 'e', 'n', 't', 'P', 'r', 'o', 'c', 'e', 's', 's']
}

/// What the path `s` designates: with a `:`, the text before the first `:` is the
/// protocol and the text after it the path within it; without one, `s` is a uuid.
pub open spec fn spec_resource_path(s: Seq<char>) -> ResourcePath {
    match colon_index(s) {
        Some(k) => if s.take(k) == matios_protocol() && s.subrange(k + 1, s.len() as int)
            == current_process_path() {
            ResourcePath::CurrentProcess
        } else {
            ResourcePath::Unknown
        },
        None => match spec_parse_uuid(s) {
            Some(v) => ResourcePath::Id(v),
            None => ResourcePath::Unknown,
        },
    }
}

proof fn lemma_colon_index(s: Seq<char>, j: int)
    requires
        0 <= j <= s.len(),
        forall|k: int| 0 <= k < j ==> s[k] != ':',
        j == s.len() || s[j] == ':',
    ensures
        colon_index(s) == (if j == s.len() {
            None
        } else {
            Some(j)
        }),
    decreases j,
{
    if j > 0 {
        lemma_colon_index(s.drop_first(), j - 1);
    }
}

/// Whether `s[from..from + expected.len()]` is `expected`, with `s` long enough.
fn segment_is(s: &Vec<char>, from: usize, expected: &[char]) -> (b: bool)
    requires
        from <= s@.len(),
    ensures
        b == (from + expected@.len() == s@.len() && s@.subrange(from as int, s@.len() as int)
            == expected@),
{
    let n = s.len();
    let m = expected.len();
    if n - from != m {
        return false;
    }
    let mut k: usize = 0;
    while k < m
        invariant
            n == s@.len(),
            m == expected@.len(),
            from + m == n,
            k <= m,
            forall|j: int| 0 <= j < k ==> s@[from + j] == expected@[j],
        decreases m - k,
    {
        if s[from + k] != expected[k] {
            assert(s@.subrange(from as int, n as int)[k as int] != expected@[k as int]);
            return false;
        }
        k = k + 1;
    }
    assert(s@.subrange(from as int, n as int) =~= expected@);
    true
}

/// Tells what the path `path` designates.
pub fn resolve_resource_path(path: &str) -> (r: ResourcePath)
    ensures
        r == spec_resource_path(path@),
{
    let n = path.unicode_len();
    let mut chars: Vec<char> = Vec::new();
    let mut i: usize = 0;
    let mut colon: Option<usize> = None;
    while i < n
        invariant
            n == path@.len(),
            i <= n,
            chars@ == path@.take(i as int),
            match colon {
                Some(k) => k < i && path@[k as int] == ':' && forall|j: int|
                    0 <= j < k ==> path@[j] != ':',
                None => forall|j: int| 0 <= j < i ==> path@[j] != ':',
            },
        decreases n - i,
    {
        let c = path.get_char(i);
        if c == ':' && colon.is_none() {
            colon = Some(i);
        }
        chars.push(c);
        i = i + 1;
        assert(chars@ =~= path@.take(i as int));
    }
    assert(chars@ =~= path@);
    match colon {
        Some(k) => {
            proof {
                lemma_colon_index(path@, k as int);
            }
            let protocol = ['m', 'a', 't', 'i', 'o', 's'];
            let rest = [
                'c', 'u', 'r', 'r', 'e', 'n', 't', 'P', 'r', 'o', 'c', 'e', 's', 's',
            ];
            assert(protocol@ == matios_protocol());
            assert(rest@ == current_process_path());
            if k != 6 {
                return ResourcePath::Unknown;
            }
            let mut j: usize = 0;
            while j < 6
                invariant
                    k == 6,
                    colon_index(path@) == Some(k as int),
                    chars@ == path@,
                    k < chars@.len(),
                    protocol@ == matios_protocol(),
                    j <= 6,
                    forall|t: int| 0 <= t < j ==> chars@[t] == protocol@[t],
                decreases 6 - j,
            {
                if chars[j] != protocol[j] {
                    assert(path@.take(k as int)[j as int] != matios_protocol()[j as int]);
                    return ResourcePath::Unknown;
                }
                j = j + 1;
            }
            assert(path@.take(k as int) =~= matios_protocol());
            if segment_is(&chars, k + 1, rest.as_slice()) {
                ResourcePath::CurrentProcess
            } else {
                ResourcePath::Unknown
            }
        },
        None => {
            proof {
                lemma_colon_index(path@, n as int);
            }
            match Uuid::parse_str(path) {
                Ok(u) => ResourcePath::Id(u.as_u128()),
                Err(_) => ResourcePath::Unknown,
            }
        },
    }
}

/// The method names that a file-system item answers; the path it stands for is
/// where the host lists the children.
pub fn generateMethods(localPath: String) -> (methods: Vec<String>)
    ensures
        methods@.len() == 1,
        methods@[0]@ == "getChildren"@,
{
    let mut methods: Vec<String> = Vec::new();
    methods.push("getChildren".to_owned());
    methods
}

/// A resource as `build_resource` makes it, with no connections.
pub open spec fn is_resource(
    r: Resource,
    uuid: u128,
    resource_type: u128,
    name: Seq<char>,
    methods: Seq<Seq<char>>,
    tags: Seq<u128>,
) -> bool {
    &&& r.uuid@ == uuid
    &&& r.resource_type@ == resource_type
    &&& r.name@ == name
    &&& r.methods@.len() == methods.len()
    &&& forall|i: int| 0 <= i < methods.len() ==> (#[trigger] r.methods@[i])@ == methods[i]
    &&& r.tags@.len() == tags.len()
    &&& forall|i: int| 0 <= i < tags.len() ==> (#[trigger] r.tags@[i])@ == tags[i]
    &&& r.connected_resources@.len() == 0
}

/// The resource of the process with operating-system id `process_id`.
pub open spec fn is_process_resource(r: Resource, process_id: u32) -> bool {
    is_resource(r, process_uuid_value(process_id), RESOURCE_PROCESS_ID, "Process"@, seq![], seq![])
}

/// The resource of the host machine.
pub open spec fn is_host_machine_resource(r: Resource) -> bool {
    is_resource(
        r,
        HOST_MACHINE_RESOURCE_UUID,
        RESOURCE_HOST_MACHINE_ID,
        "Host machine"@,
        seq!["getOsVersion"@, "getCpuArchitecture"@],
        seq![],
    )
}

/// The resource of the desktop.
pub open spec fn is_desktop_resource(r: Resource) -> bool {
    is_resource(
        r,
        DESKTOP_RESOURCE_UUID,
        RESOURCE_DESKTOP_ID,
        "Desktop"@,
        seq!["getWindows"@],
        seq![],
    )
}

/// The resource of the current directory.
pub open spec fn is_current_directory_resource(r: Resource) -> bool {
    is_resource(
        r,
        CURRENT_DIRECTORY_RESOURCE_UUID,
        RESOURCE_FILESYSTEM_ITEM_ID,
        "Current directory"@,
        seq!["getChildren"@],
        seq![RESOURCE_FILESYSTEM_ITEM_CURRENT_DIR_TAG],
    )
}

/// The resource of standard output.
pub open spec fn is_stdout_resource(r: Resource) -> bool {
    is_resource(r, STDOUT_RESOURCE_UUID, RESOURCE_BYTE_STREAM_ID, "StdOut"@, seq!["write"@], seq![])
}

/// The resource of standard input.
pub open spec fn is_stdin_resource(r: Resource) -> bool {
    is_resource(r, STDIN_RESOURCE_UUID, RESOURCE_BYTE_STREAM_ID, "StdIn"@, seq!["read"@], seq![])
}

/// The resource of the window.
pub open spec fn is_window_resource(r: Resource) -> bool {
    is_resource(
        r,
        WINDOW_RESOURCE_UUID,
        RESOURCE_WINDOW_ID,
        "Window"@,
        seq!["getSize"@, "writeBitmapBuffer"@],
        seq![],
    )
}

/// A resource with no connections.
fn build_resource(
    uuid: u128,
    resource_type: u128,
    name: String,
    methods: Vec<String>,
    tags: Vec<u128>,
) -> (r: Resource)
    ensures
        r.uuid@ == uuid,
        r.resource_type@ == resource_type,
        r.name == name,
        r.methods == methods,
        r.tags@.len() == tags@.len(),
        forall|i: int| 0 <= i < tags@.len() ==> (#[trigger] r.tags@[i])@ == tags@[i],
        r.connected_resources@.len() == 0,
{
    let mut tag_ids: Vec<Uuid> = Vec::new();
    let mut i: usize = 0;
    while i < tags.len()
        invariant
            i <= tags@.len(),
            tag_ids@.len() == i,
            forall|j: int| 0 <= j < i ==> (#[trigger] tag_ids@[j])@ == tags@[j],
        decreases tags@.len() - i,
    {
        tag_ids.push(Uuid::from_u128(tags[i]));
        i = i + 1;
    }
    Resource {
        uuid: Uuid::from_u128(uuid),
        resource_type: Uuid::from_u128(resource_type),
        name,
        methods,
        tags: tag_ids,
        connected_resources: Vec::new(),
    }
}

/// The resource of the process with operating-system id `process_id`.
pub fn process_resource(process_id: u32) -> (r: Resource)
    ensures
        is_process_resource(r, process_id),
{
    build_resource(
        SYNTHETIC_PROCESS_ID + process_id as u128,
        RESOURCE_PROCESS_ID,
        "Process".to_owned(),
        Vec::new(),
        Vec::new(),
    )
}

/// The resource of the host machine.
pub fn host_machine_resource() -> (r: Resource)
    ensures
        is_host_machine_resource(r),
{
    let mut methods: Vec<String> = Vec::new();
    methods.push("getOsVersion".to_owned());
    methods.push("getCpuArchitecture".to_owned());
    build_resource(
        HOST_MACHINE_RESOURCE_UUID,
        RESOURCE_HOST_MACHINE_ID,
        "Host machine".to_owned(),
        methods,
        Vec::new(),
    )
}

/// The resource of the desktop.
pub fn desktop_resource() -> (r: Resource)
    ensures
        is_desktop_resource(r),
{
    let mut methods: Vec<String> = Vec::new();
    methods.push("getWindows".to_owned());
    build_resource(DESKTOP_RESOURCE_UUID, RESOURCE_DESKTOP_ID, "Desktop".to_owned(), methods, Vec::new())
}

/// The resource of the current directory.
pub fn current_directory_resource() -> (r: Resource)
    ensures
        is_current_directory_resource(r),
{
    let methods = generateMethods(".".to_owned());
    let mut tags: Vec<u128> = Vec::new();
    tags.push(RESOURCE_FILESYSTEM_ITEM_CURRENT_DIR_TAG);
    build_resource(
        CURRENT_DIRECTORY_RESOURCE_UUID,
        RESOURCE_FILESYSTEM_ITEM_ID,
        "Current directory".to_owned(),
        methods,
        tags,
    )
}

/// The resource of standard output.
pub fn stdout_resource() -> (r: Resource)
    ensures
        is_stdout_resource(r),
{
    let mut methods: Vec<String> = Vec::new();
    methods.push("write".to_owned());
    build_resource(STDOUT_RESOURCE_UUID, RESOURCE_BYTE_STREAM_ID, "StdOut".to_owned(), methods, Vec::new())
}

/// The resource of standard input.
pub fn stdin_resource() -> (r: Resource)
    ensures
        is_stdin_resource(r),
{
    let mut methods: Vec<String> = Vec::new();
    methods.push("read".to_owned());
    build_resource(STDIN_RESOURCE_UUID, RESOURCE_BYTE_STREAM_ID, "StdIn".to_owned(), methods, Vec::new())
}

/// The resource of the window.
pub fn window_resource() -> (r: Resource)
    ensures
        is_window_resource(r),
{
    let mut methods: Vec<String> = Vec::new();
    methods.push("getSize".to_owned());
    methods.push("writeBitmapBuffer".to_owned());
    build_resource(WINDOW_RESOURCE_UUID, RESOURCE_WINDOW_ID, "Window".to_owned(), methods, Vec::new())
}

/// The resource `after` is `before` with `connected` added at the end of its
/// connections.
pub open spec fn connected_to(before: Resource, after: Resource, connected: u128) -> bool {
    &&& after.uuid == before.uuid
    &&& after.resource_type == before.resource_type
    &&& after.name == before.name
    &&& after.methods == before.methods
    &&& after.tags == before.tags
    &&& after.connected_resources@.len() == before.connected_resources@.len() + 1
    &&& after.connected_resources@.drop_last() == before.connected_resources@
    &&& after.connected_resources@.last()@ == connected
}

/// The resource registered under `key`, if any.
pub open spec fn lookup(m: Map<u128, Resource>, key: u128) -> Option<Resource> {
    if m.contains_key(key) {
        Some(m[key])
    } else {
        None
    }
}

/// The resource that `path` designates in `m`, for a host running the process
/// with operating-system id `process_id`.
pub open spec fn path_lookup(m: Map<u128, Resource>, path: Seq<char>, process_id: u32) -> Option<
    Resource,
> {
    match spec_resource_path(path) {
        ResourcePath::CurrentProcess => lookup(m, process_uuid_value(process_id)),
        ResourcePath::Id(v) => lookup(m, v),
        ResourcePath::Unknown => None,
    }
}

impl ResourceRegistry {
    /// Registers the resource of the process with operating-system id
    /// `process_id`, and returns its uuid.
    pub fn prepare_process_resource(&mut self, process_id: u32) -> (u: Uuid)
        ensures
            u@ == process_uuid_value(process_id),
            final(self)@ == old(self)@.insert(u@, final(self)@[u@]),
            is_process_resource(final(self)@[u@], process_id),
    {
        let r = process_resource(process_id);
        let u = r.uuid;
        self.insert(r);
        u
    }

    /// Registers the resource of the host machine, and returns its uuid.
    pub fn prepare_host_machine_resource(&mut self) -> (u: Uuid)
        ensures
            u@ == HOST_MACHINE_RESOURCE_UUID,
            final(self)@ == old(self)@.insert(u@, final(self)@[u@]),
            is_host_machine_resource(final(self)@[u@]),
    {
        let r = host_machine_resource();
        let u = r.uuid;
        self.insert(r);
        u
    }

    /// Registers the resource of the desktop.
    pub fn prepare_current_desktop(&mut self)
        ensures
            final(self)@ == old(self)@.insert(
                DESKTOP_RESOURCE_UUID,
                final(self)@[DESKTOP_RESOURCE_UUID],
            ),
            is_desktop_resource(final(self)@[DESKTOP_RESOURCE_UUID]),
    {
        self.insert(desktop_resource());
    }

    /// Registers the resource of the current directory and connects the
    /// resource of the process with operating-system id `process_id` to it.
    /// Returns `false` where that process has no resource; the directory is then
    /// registered all the same.
    pub fn prepare_filesystem(&mut self, process_id: u32) -> (ok: bool)
        ensures
            ok == old(self)@.contains_key(process_uuid_value(process_id)),
            is_current_directory_resource(final(self)@[CURRENT_DIRECTORY_RESOURCE_UUID]),
            ok ==> final(self)@ == old(self)@.insert(
                CURRENT_DIRECTORY_RESOURCE_UUID,
                final(self)@[CURRENT_DIRECTORY_RESOURCE_UUID],
            ).insert(
                process_uuid_value(process_id),
                final(self)@[process_uuid_value(process_id)],
            ),
            ok ==> connected_to(
                old(self)@[process_uuid_value(process_id)],
                final(self)@[process_uuid_value(process_id)],
                CURRENT_DIRECTORY_RESOURCE_UUID,
            ),
            !ok ==> final(self)@ == old(self)@.insert(
                CURRENT_DIRECTORY_RESOURCE_UUID,
                final(self)@[CURRENT_DIRECTORY_RESOURCE_UUID],
            ),
    {
        let dir = current_directory_resource();
        let dir_uuid = dir.uuid;
        self.insert(dir);
        let ghost mid = self@;
        let ok = self.connect(process_uuid(process_id), dir_uuid);
        proof {
            if ok {
                assert(final(self)@[process_uuid_value(process_id)].connected_resources@.drop_last()
                    =~= mid[process_uuid_value(process_id)].connected_resources@);
            }
        }
        ok
    }

    /// The resource that `path` designates (see `spec_resource_path`), for a host
    /// running the process with operating-system id `process_id`.
    pub fn get_resource_by_path(&self, path: &str, process_id: u32) -> (r: Option<&Resource>)
        ensures
            match r {
                Some(res) => path_lookup(self@, path@, process_id) == Some(*res),
                None => path_lookup(self@, path@, process_id) is None,
            },
    {
        match resolve_resource_path(path) {
            ResourcePath::CurrentProcess => self.get(process_uuid(process_id)),
            ResourcePath::Id(v) => self.get(Uuid::from_u128(v)),
            ResourcePath::Unknown => None,
        }
    }
}

} // verus!

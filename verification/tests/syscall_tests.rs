use matios_host::resource_local_registry::ResourceRegistry;
use matios_host::resources::{
    RESOURCE_BYTE_STREAM_ID, RESOURCE_BYTE_STREAM_TAG_STDERR, RESOURCE_BYTE_STREAM_TAG_STDIN,
    RESOURCE_BYTE_STREAM_TAG_STDOUT, RESOURCE_DESKTOP_ID, RESOURCE_WINDOW_ID,
};
use matios_host::syscalls::{
    CallResourceMethodV1, CreateResourceV1, CurrentProcessInfoV1Request,
    GetResourceByPathV1Request, GetResourceInfoV1Request, PrintV1, RequestResourceV1, Syscall,
    SyscallAction, SyscallFault, CALL_RESOURCE_METHOD_V1, PRINT_V1,
};
use matios_host::typed_value::TypedValue;
use matios_host::uuid::Uuid;

const PID: u32 = 7;

fn create(reg: &mut ResourceRegistry, ty: u128, tags: &[u128]) -> Result<SyscallAction, SyscallFault> {
    let call = Syscall::CreateResource(CreateResourceV1 {
        resource_type: Uuid::from_u128(ty),
        tags: tags.iter().map(|t| Uuid::from_u128(*t)).collect(),
    });
    reg.handle_syscall(call, PID)
}

fn info(reg: &mut ResourceRegistry, id: u128) -> SyscallAction {
    reg.handle_syscall(
        Syscall::GetResourceInfo(GetResourceInfoV1Request { uuid: Uuid::from_u128(id) }),
        PID,
    )
    .unwrap()
}

#[test]
fn print_request_is_built_for_the_print_call() {
    let r = PrintV1::create("hello".to_string());
    assert_eq!(r.uuid, Uuid::parse_str("7b16bee9-d0b8-4bd5-86d7-8225840ce006").unwrap());
    assert_eq!(r.uuid.as_u128(), PRINT_V1);
    assert_eq!(r.size, std::mem::size_of::<PrintV1>());
    assert_eq!(r.payload.text, "hello");
}

#[test]
fn method_call_request_is_built_for_the_method_call() {
    let r = CallResourceMethodV1::create(Uuid::from_u128(1), "write".to_string(), TypedValue::u8(3));
    assert_eq!(r.uuid.as_u128(), CALL_RESOURCE_METHOD_V1);
    assert_eq!(r.uuid.as_u128(), 0xbce7baa2_c3e2_4f7f_9d42_42c94065f5f0);
    assert_eq!(r.size, std::mem::size_of::<CallResourceMethodV1>());
    assert_eq!(r.payload.resource.as_u128(), 1);
    assert_eq!(r.payload.method, "write");
    assert_eq!(r.payload.args, TypedValue::u8(3));
}

#[test]
fn printing_prints() {
    let mut reg = ResourceRegistry::new();
    let r = reg.handle_syscall(Syscall::Print(PrintV1 { text: "hi".to_string() }), PID);
    match r {
        Ok(SyscallAction::Print { text }) => assert_eq!(text, "hi"),
        _ => panic!("expected a print"),
    }
}

#[test]
fn creating_stdout_registers_it() {
    let mut reg = ResourceRegistry::new();
    match create(&mut reg, RESOURCE_BYTE_STREAM_ID, &[RESOURCE_BYTE_STREAM_TAG_STDOUT]) {
        Ok(SyscallAction::CreatedResource(resp)) => assert_eq!(resp.uuid.as_u128(), 1),
        _ => panic!("expected a created resource"),
    }
    match info(&mut reg, 1) {
        SyscallAction::ResourceInfo(i) => {
            assert_eq!(i.uuid.as_u128(), 1);
            assert_eq!(i.name, "StdOut");
            assert_eq!(i.resource_type.as_u128(), RESOURCE_BYTE_STREAM_ID);
            assert_eq!(i.methods, vec!["write".to_string()]);
            assert!(i.tags.is_empty());
            assert!(i.connected_resources.is_empty());
        }
        _ => panic!("expected a description"),
    }
}

#[test]
fn creating_stdin_registers_it() {
    let mut reg = ResourceRegistry::new();
    match create(&mut reg, RESOURCE_BYTE_STREAM_ID, &[RESOURCE_BYTE_STREAM_TAG_STDIN]) {
        Ok(SyscallAction::CreatedResource(resp)) => assert_eq!(resp.uuid.as_u128(), 2),
        _ => panic!("expected a created resource"),
    }
    assert!(reg.contains(Uuid::from_u128(2)));
    assert_eq!(reg.get(Uuid::from_u128(2)).unwrap().methods, vec!["read".to_string()]);
}

#[test]
fn stdout_tag_wins_over_stdin_tag() {
    let mut reg = ResourceRegistry::new();
    let r = create(
        &mut reg,
        RESOURCE_BYTE_STREAM_ID,
        &[RESOURCE_BYTE_STREAM_TAG_STDIN, RESOURCE_BYTE_STREAM_TAG_STDOUT],
    );
    assert!(matches!(r, Ok(SyscallAction::CreatedResource(ref resp)) if resp.uuid.as_u128() == 1));
    assert!(!reg.contains(Uuid::from_u128(2)));
}

#[test]
fn other_byte_streams_are_a_fault() {
    let mut reg = ResourceRegistry::new();
    let r = create(&mut reg, RESOURCE_BYTE_STREAM_ID, &[RESOURCE_BYTE_STREAM_TAG_STDERR]);
    assert!(matches!(r, Err(SyscallFault::UnknownByteStream)));
    let r = create(&mut reg, RESOURCE_BYTE_STREAM_ID, &[]);
    assert!(matches!(r, Err(SyscallFault::UnknownByteStream)));
    assert!(!reg.contains(Uuid::from_u128(1)));
}

#[test]
fn creating_a_window_registers_it_and_opens_it() {
    let mut reg = ResourceRegistry::new();
    match create(&mut reg, RESOURCE_WINDOW_ID, &[]) {
        Ok(SyscallAction::OpenWindow(resp)) => assert_eq!(resp.uuid.as_u128(), 0x303),
        _ => panic!("expected a window"),
    }
    let w = reg.get(Uuid::from_u128(0x303)).unwrap();
    assert_eq!(w.name, "Window");
    assert_eq!(w.methods, vec!["getSize".to_string(), "writeBitmapBuffer".to_string()]);
}

#[test]
fn creating_another_type_does_nothing() {
    let mut reg = ResourceRegistry::new();
    assert!(matches!(create(&mut reg, 12345, &[]), Ok(SyscallAction::NoResponse)));
}

#[test]
fn requesting_the_desktop() {
    let mut reg = ResourceRegistry::new();
    let q = || Syscall::RequestResource(RequestResourceV1 { resource_type: Uuid::from_u128(RESOURCE_DESKTOP_ID) });
    assert!(matches!(reg.handle_syscall(q(), PID), Err(SyscallFault::MissingDesktop)));
    reg.prepare_current_desktop();
    match reg.handle_syscall(q(), PID) {
        Ok(SyscallAction::RequestedResource(resp)) => assert_eq!(resp.uuid.as_u128(), 0x70000000007),
        _ => panic!("expected the desktop"),
    }
    let other = Syscall::RequestResource(RequestResourceV1 { resource_type: Uuid::from_u128(RESOURCE_WINDOW_ID) });
    assert!(matches!(reg.handle_syscall(other, PID), Ok(SyscallAction::NoResponse)));
}

#[test]
fn methods_run_only_where_answered() {
    let mut reg = ResourceRegistry::new();
    create(&mut reg, RESOURCE_BYTE_STREAM_ID, &[RESOURCE_BYTE_STREAM_TAG_STDOUT]).unwrap();
    let call = |m: &str| {
        Syscall::CallResourceMethod(CallResourceMethodV1 {
            resource: Uuid::from_u128(1),
            method: m.to_string(),
            args: TypedValue::u32(9),
        })
    };
    match reg.handle_syscall(call("write"), PID) {
        Ok(SyscallAction::Invoke { resource, method, args }) => {
            assert_eq!(resource.as_u128(), 1);
            assert_eq!(method, "write");
            assert_eq!(args, TypedValue::u32(9));
        }
        _ => panic!("expected a method run"),
    }
    assert!(matches!(reg.handle_syscall(call("read"), PID), Ok(SyscallAction::NoResponse)));
    let absent = Syscall::CallResourceMethod(CallResourceMethodV1 {
        resource: Uuid::from_u128(99),
        method: "write".to_string(),
        args: TypedValue::null(),
    });
    assert!(matches!(reg.handle_syscall(absent, PID), Ok(SyscallAction::NoResponse)));
}

#[test]
fn current_process_info_names_the_process() {
    let mut reg = ResourceRegistry::new();
    match reg.handle_syscall(Syscall::CurrentProcessInfo(CurrentProcessInfoV1Request {}), PID) {
        Ok(SyscallAction::CurrentProcessInfo { uuid }) => {
            assert_eq!(uuid.as_u128(), 0x30312746_893c_4654_a9b5_000000000007)
        }
        _ => panic!("expected process info"),
    }
}

#[test]
fn describing_an_unknown_resource_gives_nil_fields() {
    let mut reg = ResourceRegistry::new();
    match info(&mut reg, 5) {
        SyscallAction::ResourceInfo(i) => {
            assert_eq!(i.uuid.as_u128(), 0);
            assert!(i.name.is_empty());
            assert_eq!(i.resource_type.as_u128(), 0);
            assert!(i.tags.is_empty() && i.methods.is_empty() && i.connected_resources.is_empty());
        }
        _ => panic!("expected a description"),
    }
}

#[test]
fn describing_the_process_lists_its_connections() {
    let mut reg = ResourceRegistry::new();
    let p = reg.prepare_process_resource(PID);
    reg.prepare_filesystem(PID);
    match info(&mut reg, p.as_u128()) {
        SyscallAction::ResourceInfo(i) => {
            assert_eq!(i.name, "Process");
            assert_eq!(i.connected_resources, vec![Uuid::from_u128(0x200000002)]);
        }
        _ => panic!("expected a description"),
    }
}

#[test]
fn finding_by_path_answers_uuid_or_nil() {
    let mut reg = ResourceRegistry::new();
    reg.prepare_process_resource(PID);
    let find = |reg: &mut ResourceRegistry, p: &str| match reg.handle_syscall(
        Syscall::GetResourceByPath(GetResourceByPathV1Request { path: p.to_string() }),
        PID,
    ) {
        Ok(SyscallAction::ResourceByPath(resp)) => resp.uuid.as_u128(),
        _ => panic!("expected a path answer"),
    };
    assert_eq!(find(&mut reg, "matios:currentProcess"), 0x30312746_893c_4654_a9b5_000000000007);
    assert_eq!(find(&mut reg, "matios:somethingElse"), 0);
    assert_eq!(find(&mut reg, "30312746-893c-4654-a9b5-000000000007"), 0x30312746_893c_4654_a9b5_000000000007);
    assert_eq!(find(&mut reg, "30312746-893c-4654-a9b5-000000000008"), 0);
}

#[test]
fn unknown_calls_are_reported() {
    let mut reg = ResourceRegistry::new();
    let u = Uuid::from_u128(0xabc);
    match reg.handle_syscall(Syscall::Unknown { size: 24, uuid: u }, PID) {
        Ok(SyscallAction::ReportUnknown { size, uuid }) => {
            assert_eq!(size, 24);
            assert_eq!(uuid, u);
        }
        _ => panic!("expected a report"),
    }
}

#[test]
fn only_creating_changes_the_registry() {
    let mut reg = ResourceRegistry::new();
    reg.prepare_process_resource(PID);
    let _ = reg.handle_syscall(Syscall::Print(PrintV1 { text: "x".to_string() }), PID);
    let _ = info(&mut reg, 1);
    let _ = reg.handle_syscall(Syscall::Unknown { size: 0, uuid: Uuid::from_u128(3) }, PID);
    let _ = reg.handle_syscall(
        Syscall::GetResourceByPath(GetResourceByPathV1Request { path: "matios:currentProcess".to_string() }),
        PID,
    );
    assert!(!reg.contains(Uuid::from_u128(1)));
    assert!(!reg.contains(Uuid::from_u128(3)));
    assert!(reg.contains(Uuid::from_u128(0x30312746_893c_4654_a9b5_000000000007)));
    assert!(reg.get(Uuid::from_u128(0x30312746_893c_4654_a9b5_000000000007)).unwrap().connected_resources.is_empty());
}

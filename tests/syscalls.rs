use memtrace::syscalls::{
    decode, gen_syscalls_table, register_of, Register, RegisterFrame, Syscall, SyscallArgument,
    SyscallReturn, SyscallTable,
};

fn arg(name: &str, ty: &str, reg: &str) -> SyscallArgument {
    SyscallArgument { name: name.to_string(), arg_type: ty.to_string(), register: reg.to_string() }
}

fn def(name: &str, number: u64, arguments: Vec<SyscallArgument>) -> Syscall {
    Syscall {
        name: name.to_string(),
        number,
        arguments,
        return_type: SyscallReturn { name: "ret".to_string(), ret_type: "ssize_t".to_string() },
        captured_regs: None,
        is_memory_syscall: false,
    }
}

fn write_def() -> Syscall {
    def("write", 1, vec![arg("fd", "int", "rdi"), arg("buf", "char*", "rsi"), arg("count", "size_t", "rdx")])
}

fn memory_defs() -> Vec<Syscall> {
    vec![
        def("mmap", 9, vec![arg("addr", "void*", "rdi"), arg("length", "size_t", "rsi")]),
        def("brk", 12, vec![arg("addr", "void*", "rdi")]),
    ]
}

fn io_defs() -> Vec<Syscall> {
    vec![write_def(), def("close", 3, vec![arg("fd", "int", "rdi")])]
}

fn frame(orig_rax: u64) -> RegisterFrame {
    RegisterFrame { orig_rax, rax: 0, rbx: 0, rdi: 0, rsi: 0, rdx: 0, r10: 0, r8: 0, r9: 0, rip: 0 }
}

#[test]
fn decodes_write_exactly() {
    let table = SyscallTable::build(&memory_defs(), &io_defs());
    let mut f = frame(1);
    f.rdi = 1;
    f.rsi = 0x7fff0000;
    f.rdx = 13;
    f.rax = 13;
    assert_eq!(
        decode(f, &table).unwrap(),
        "write(fd(int) = 1, buf(char*) = 7fff0000, count(size_t) = 13) = 13"
    );
}

#[test]
fn unknown_number_decodes_to_nothing() {
    let table = SyscallTable::build(&memory_defs(), &io_defs());
    assert!(decode(frame(999), &table).is_none());
    assert!(table.lookup(frame(2)).is_none());
    let empty = SyscallTable::build(&vec![], &vec![]);
    assert_eq!(empty.len(), 0);
    assert!(decode(frame(1), &empty).is_none());
}

#[test]
fn lookup_uses_number_kept_from_entry() {
    let table = SyscallTable::build(&memory_defs(), &io_defs());
    let mut f = frame(12);
    f.rax = 3;
    let s = table.lookup(f).unwrap();
    assert_eq!(s.name, "brk");
    assert_eq!(s.number, 12);
    assert!(s.is_memory_syscall);
    assert_eq!(s.captured_regs, Some(f));
    let w = table.lookup(frame(1)).unwrap();
    assert!(!w.is_memory_syscall);
    assert_eq!(w.arguments.len(), 3);
    assert_eq!(w.arguments[1].arg_type, "char*");
}

#[test]
fn later_definition_replaces_earlier() {
    let io = vec![def("brk2", 12, vec![])];
    let table = SyscallTable::build(&memory_defs(), &io);
    assert_eq!(table.len(), 2);
    let s = table.lookup(frame(12)).unwrap();
    assert_eq!(s.name, "brk2");
    assert!(!s.is_memory_syscall);
}

#[test]
fn building_twice_gives_same_catalog() {
    let a = gen_syscalls_table(&memory_defs(), &io_defs());
    let b = gen_syscalls_table(&memory_defs(), &io_defs());
    assert_eq!(a.len(), 4);
    assert_eq!(a.len(), b.len());
    for n in 0..20u64 {
        let mut f = frame(n);
        f.rdi = 0xdeadbeef;
        f.rsi = 255;
        f.rax = 7;
        assert_eq!(decode(f, &a), decode(f, &b));
    }
}

#[test]
fn pointer_in_hex_integer_in_decimal() {
    let table = SyscallTable::build(&memory_defs(), &io_defs());
    let mut f = frame(9);
    f.rdi = 0xdeadbeef;
    f.rsi = 4096;
    f.rax = 0;
    assert_eq!(decode(f, &table).unwrap(), "mmap(addr(void*) = deadbeef, length(size_t) = 4096) = 0");
    let mut g = frame(9);
    g.rax = u64::MAX;
    assert_eq!(
        decode(g, &table).unwrap(),
        "mmap(addr(void*) = 0, length(size_t) = 0) = 18446744073709551615"
    );
}

#[test]
fn register_names_resolve() {
    assert_eq!(register_of("rax"), Some(Register::OrigRax));
    assert_eq!(register_of("r10"), Some(Register::R10));
    assert_eq!(register_of("r9"), Some(Register::R9));
    assert_eq!(register_of("rip"), None);
    let mut f = frame(60);
    f.rax = 5;
    f.rbx = 6;
    f.r8 = 8;
    f.r10 = 10;
    assert_eq!(f.value_of("rax"), 60);
    assert_eq!(f.value_of("rbx"), 6);
    assert_eq!(f.value_of("r8"), 8);
    assert_eq!(f.value_of("r10"), 10);
    assert_eq!(f.value_of("xmm0"), 0);
}

#[test]
fn unknown_register_renders_zero() {
    let memory = vec![def("exit", 60, vec![arg("code", "int", "xmm0"), arg("nr", "long", "rax")])];
    let table = SyscallTable::build(&memory, &vec![]);
    let mut f = frame(60);
    f.rax = 42;
    assert_eq!(decode(f, &table).unwrap(), "exit(code(int) = 0, nr(long) = 60) = 42");
}

#[test]
fn no_arguments_render() {
    let table = SyscallTable::build(&vec![], &vec![def("getpid", 39, vec![])]);
    let mut f = frame(39);
    f.rax = 1234;
    assert_eq!(decode(f, &table).unwrap(), "getpid() = 1234");
    assert_eq!(table.lookup(f).unwrap().render(), "getpid() = 1234");
}

use merlin_macros::{
    entry_symbol, merlin_syscall, name_token, ArgsError, SysCallArgs, SyscallError,
    SyscallExpansion,
};

fn expand_ok(attr: &str, item: &str) -> SyscallExpansion {
    match merlin_syscall(attr, item) {
        Ok(e) => e,
        Err(e) => panic!("expansion refused: {:?}", e),
    }
}

fn expand_err(attr: &str, item: &str) -> SyscallError {
    match merlin_syscall(attr, item) {
        Ok(e) => panic!("expansion accepted: {}", e.descriptor.handler),
        Err(e) => e,
    }
}

fn padded(name: &[u8]) -> [u8; 32] {
    let mut out = [0u8; 32];
    out[..name.len()].copy_from_slice(name);
    out
}

#[test]
fn open_file_descriptor() {
    let e = expand_ok("id = 42", "fn open_file() {}");
    assert_eq!(e.descriptor.id, 42);
    assert_eq!(&e.descriptor.name[..9], b"open_file");
    assert_eq!(&e.descriptor.name[9..], &[0u8; 23][..]);
    assert_eq!(e.descriptor.handler, "open_file");
    assert_eq!(e.entry_symbol, "MERLIN_SYSCALL_ENTRY_open_file");
    assert_eq!(e.item.sig.ident.to_string(), "open_file");
}

#[test]
fn long_name_is_truncated() {
    let name = "a_function_name_that_is_forty_chars_long";
    assert_eq!(name.len(), 40);
    let item = format!("fn {}(x: u32) -> u32 {{ x }}", name);
    let e = expand_ok("id = 7", &item);
    assert_eq!(e.descriptor.id, 7);
    assert_eq!(&e.descriptor.name[..], &name.as_bytes()[..32]);
    assert_eq!(e.descriptor.handler, name);
}

#[test]
fn missing_argument_is_refused() {
    let e = expand_err("", "fn f() {}");
    match e {
        SyscallError::Args(a) => {
            assert_eq!(a, ArgsError::Missing);
            assert_eq!(a.message(), "expected syntax: id = <int>");
        }
        other => panic!("unexpected error {:?}", other),
    }
    assert_eq!(SysCallArgs::parse("   "), Err(ArgsError::Missing));
}

#[test]
fn negative_id_is_refused() {
    assert_eq!(SysCallArgs::parse("id = -1"), Err(ArgsError::InvalidValue));
    assert!(matches!(
        expand_err("id = -1", "fn f() {}"),
        SyscallError::Args(ArgsError::InvalidValue)
    ));
}

#[test]
fn id_over_32_bits_is_refused() {
    assert_eq!(SysCallArgs::parse("id = 4294967296"), Err(ArgsError::InvalidValue));
    assert_eq!(
        SysCallArgs::parse("id = 4294967295"),
        Ok(SysCallArgs { id: 4294967295 })
    );
}

#[test]
fn shared_id_is_not_detected() {
    let a = expand_ok("id = 1", "fn first() {}");
    let b = expand_ok("id = 1", "fn second() {}");
    assert_eq!(a.descriptor.id, 1);
    assert_eq!(b.descriptor.id, 1);
    assert_ne!(a.entry_symbol, b.entry_symbol);
}

#[test]
fn wrong_name_is_refused() {
    assert_eq!(SysCallArgs::parse("num = 3"), Err(ArgsError::WrongName));
    assert_eq!(SysCallArgs::parse("ident = 3"), Err(ArgsError::WrongName));
    assert_eq!(SysCallArgs::parse("= 3"), Err(ArgsError::WrongName));
    assert_eq!(ArgsError::WrongName.message(), "expected syntax: id = <int>");
}

#[test]
fn missing_equals_is_refused() {
    assert_eq!(SysCallArgs::parse("id 3"), Err(ArgsError::MissingEquals));
    assert_eq!(SysCallArgs::parse("id"), Err(ArgsError::MissingEquals));
}

#[test]
fn non_integer_value_is_refused() {
    assert_eq!(SysCallArgs::parse("id = x"), Err(ArgsError::InvalidValue));
    assert_eq!(SysCallArgs::parse("id = \"3\""), Err(ArgsError::InvalidValue));
    assert_eq!(SysCallArgs::parse("id = 1.5"), Err(ArgsError::InvalidValue));
    assert_eq!(SysCallArgs::parse("id ="), Err(ArgsError::InvalidValue));
    assert_eq!(SysCallArgs::parse("id = 1, name = 2"), Err(ArgsError::InvalidValue));
}

#[test]
fn literal_forms_read_by_syn() {
    assert_eq!(SysCallArgs::parse("id=7"), Ok(SysCallArgs { id: 7 }));
    assert_eq!(SysCallArgs::parse("  id =  9  "), Ok(SysCallArgs { id: 9 }));
    assert_eq!(SysCallArgs::parse("id = 0x2A"), Ok(SysCallArgs { id: 42 }));
    assert_eq!(SysCallArgs::parse("id = 1_000"), Ok(SysCallArgs { id: 1000 }));
    assert_eq!(SysCallArgs::parse("id = 5u32"), Ok(SysCallArgs { id: 5 }));
    assert_eq!(SysCallArgs::parse("id = 0"), Ok(SysCallArgs { id: 0 }));
}

#[test]
fn bad_declaration_is_refused() {
    assert!(matches!(expand_err("id = 3", "struct S;"), SyscallError::Declaration(_)));
    assert!(matches!(expand_err("id = 3", "fn f() {"), SyscallError::Declaration(_)));
    // the argument is read first
    assert!(matches!(
        expand_err("id = x", "struct S;"),
        SyscallError::Args(ArgsError::InvalidValue)
    ));
}

#[test]
fn attributes_and_arguments_are_kept() {
    let e = expand_ok("id = 3", "/// doc\n#[inline] fn read(fd: u32, len: usize) -> isize { 0 }");
    assert_eq!(e.item.attrs.len(), 2);
    assert_eq!(e.item.sig.inputs.len(), 2);
    assert_eq!(e.descriptor.handler, "read");
}

#[test]
fn expansion_is_deterministic() {
    let a = expand_ok("id = 11", "fn tick() {}");
    let b = expand_ok("id = 11", "fn tick() {}");
    assert_eq!(a.descriptor.id, b.descriptor.id);
    assert_eq!(a.descriptor.name, b.descriptor.name);
    assert_eq!(a.descriptor.handler, b.descriptor.handler);
    assert_eq!(a.entry_symbol, b.entry_symbol);
}

#[test]
fn expansions_are_independent() {
    let alone = expand_ok("id = 5", "fn b() {}");
    let _ = expand_ok("id = 6", "fn a() {}");
    let after = expand_ok("id = 5", "fn b() {}");
    assert_eq!(alone.descriptor.name, after.descriptor.name);
    assert_eq!(alone.descriptor.id, after.descriptor.id);
}

#[test]
fn name_token_pads_with_zeros() {
    assert_eq!(name_token("open_file"), padded(b"open_file"));
    assert_eq!(name_token(""), [0u8; 32]);
    let exact = "abcdefghijklmnopqrstuvwxyz012345";
    assert_eq!(name_token(exact), padded(exact.as_bytes()));
}

#[test]
fn name_token_uses_utf8_bytes() {
    assert_eq!(name_token("caf\u{e9}"), padded(&[b'c', b'a', b'f', 0xC3, 0xA9]));
}

#[test]
fn raw_identifier_symbol() {
    let e = expand_ok("id = 2", "fn r#match() {}");
    assert_eq!(e.descriptor.handler, "r#match");
    assert_eq!(e.entry_symbol, "MERLIN_SYSCALL_ENTRY_match");
    assert_eq!(entry_symbol("exit"), "MERLIN_SYSCALL_ENTRY_exit");
}

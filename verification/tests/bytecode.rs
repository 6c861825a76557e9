use native_mod::bytecode::{Code, Insn};
use native_mod::descriptor::{JavaType, MethodDesc};
use native_mod::javacode::{
    ensure_loaded_code, init_code, on_run_code, print_via_native_code, resource_path_code,
};

fn names_of(insns: &[Insn]) -> Vec<String> {
    insns
        .iter()
        .map(|i| match i {
            Insn::Aload(s) => format!("aload {s}"),
            Insn::Astore(s) => format!("astore {s}"),
            Insn::Iload(s) => format!("iload {s}"),
            Insn::Lload(s) => format!("lload {s}"),
            Insn::Fload(s) => format!("fload {s}"),
            Insn::Dload(s) => format!("dload {s}"),
            Insn::Iconst0 => "iconst_0".to_string(),
            Insn::Iconst1 => "iconst_1".to_string(),
            Insn::Dup => "dup".to_string(),
            Insn::Pop => "pop".to_string(),
            Insn::Pop2 => "pop2".to_string(),
            Insn::LdcString(s) => format!("ldc \"{s}\""),
            Insn::LdcClass(s) => format!("ldc class {s}"),
            Insn::New(s) => format!("new {s}"),
            Insn::Anewarray(s) => format!("anewarray {s}"),
            Insn::Aastore => "aastore".to_string(),
            Insn::Athrow => "athrow".to_string(),
            Insn::GetStatic(f) => format!("getstatic {}.{}:{}", f.owner, f.name, f.ty.descriptor()),
            Insn::PutStatic(f) => format!("putstatic {}.{}:{}", f.owner, f.name, f.ty.descriptor()),
            Insn::InvokeStatic(m) => format!("invokestatic {}.{}{}", m.owner, m.name, m.desc.descriptor()),
            Insn::InvokeVirtual(m) => format!("invokevirtual {}.{}{}", m.owner, m.name, m.desc.descriptor()),
            Insn::InvokeSpecial(m) => format!("invokespecial {}.{}{}", m.owner, m.name, m.desc.descriptor()),
            Insn::Ifeq(l) => format!("ifeq L{l}"),
            Insn::Ifnonnull(l) => format!("ifnonnull L{l}"),
            Insn::Goto(l) => format!("goto L{l}"),
            Insn::Place(l) => format!("L{l}:"),
            Insn::ReturnVoid => "return".to_string(),
            Insn::Areturn => "areturn".to_string(),
        })
        .collect()
}

#[test]
fn constructor_body() {
    let b = init_code();
    assert_eq!(b.max_stack, 1);
    assert_eq!(
        names_of(&b.insns),
        vec!["aload 0", "invokespecial java/lang/Object.<init>()V", "return"]
    );
}

#[test]
fn on_run_body() {
    let b = on_run_code("hello");
    assert_eq!(b.max_stack, 2);
    assert_eq!(
        names_of(&b.insns),
        vec![
            "invokestatic com/example/runtime/NativeLoader.ensure_native_payloads()V",
            "invokestatic com/example/runtime/NativePayloads.hello()Ljava/lang/String;",
            "astore 2",
            "getstatic java/lang/System.out:Ljava/io/PrintStream;",
            "aload 2",
            "invokevirtual java/io/PrintStream.println(Ljava/lang/String;)V",
            "return",
        ]
    );
}

#[test]
fn print_via_native_body() {
    let b = print_via_native_code("minecraft_server", "goodbye");
    let n = names_of(&b.insns);
    assert_eq!(n[0], "invokestatic com/example/runtime/NativeLoader.ensure_minecraft_server()V");
    assert_eq!(
        n[1],
        "invokestatic com/example/runtime/NativePayloads.goodbye()Ljava/lang/String;"
    );
    assert_eq!(n.len(), 7);
}

#[test]
fn resource_path_body() {
    let b = resource_path_code();
    assert_eq!(b.max_stack, 3);
    let n = names_of(&b.insns);
    assert_eq!(n[0], "ldc \"os.name\"");
    assert_eq!(
        n[1],
        "invokestatic java/lang/System.getProperty(Ljava/lang/String;)Ljava/lang/String;"
    );
    assert!(n.contains(&"ldc \"amd64\"".to_string()));
    assert!(n.contains(&"ldc \"x86_64\"".to_string()));
    assert!(n.contains(&"ldc \"arm64\"".to_string()));
    assert!(n.contains(&"ldc \"aarch64\"".to_string()));
    assert!(n.contains(&"ldc \"macos\"".to_string()));
    assert!(n.contains(&"ldc \"linux\"".to_string()));
    assert_eq!(n[6], "astore 2");
    assert_eq!(n[7], "ldc \"amd64\"");
    assert_eq!(n[8], "aload 2");
    assert_eq!(
        n[9],
        "invokevirtual java/lang/String.equals(Ljava/lang/Object;)Z"
    );
    assert_eq!(n[41], "aload 0");
    assert_eq!(n.len(), 61);
    assert_eq!(n.last().unwrap(), "areturn");
    assert_eq!(n.iter().filter(|s| s.starts_with("goto")).count(), 3);
    assert_eq!(n.iter().filter(|s| s.ends_with(':')).count(), 5);
}

#[test]
fn ensure_loaded_body() {
    let b = ensure_loaded_code("minecraft_server");
    assert_eq!(b.max_stack, 8);
    let n = names_of(&b.insns);
    assert_eq!(n[0], "getstatic com/example/runtime/NativeLoader.loaded_minecraft_server:Z");
    assert_eq!(n[1], "ifeq L0");
    assert_eq!(n[2], "return");
    assert_eq!(n[3], "L0:");
    assert!(n.contains(&"athrow".to_string()));
    assert!(n.contains(&"invokestatic java/nio/file/Files.copy(Ljava/io/InputStream;Ljava/nio/file/Path;[Ljava/nio/file/CopyOption;)J".to_string()));
    assert!(n.contains(&"invokestatic java/lang/System.load(Ljava/lang/String;)V".to_string()));
    assert_eq!(n[n.len() - 3], "iconst_1");
    assert_eq!(n[n.len() - 2], "putstatic com/example/runtime/NativeLoader.loaded_minecraft_server:Z");
    assert_eq!(n[n.len() - 1], "return");
}

#[test]
fn builder_labels_and_branches() {
    let mut c = Code::new(2);
    let l = c.label();
    assert_eq!(l, 0);
    c.iconst_0();
    c.ifeq(l);
    c.iconst_1();
    c.pop();
    c.place(l);
    c.return_void();
    let b = c.finish();
    assert_eq!(names_of(&b.insns), vec!["iconst_0", "ifeq L0", "iconst_1", "pop", "L0:", "return"]);
}

#[test]
fn builder_invocations() {
    let mut c = Code::new(4);
    c.lload(0);
    c.dload(2);
    c.invokestatic(
        "Owner",
        "f",
        MethodDesc::new2(JavaType::Long, JavaType::Double, Some(JavaType::Int)),
    );
    c.putstatic("Owner", "x", JavaType::Int);
    c.return_void();
    let b = c.finish();
    assert_eq!(
        names_of(&b.insns),
        vec!["lload 0", "dload 2", "invokestatic Owner.f(JD)I", "putstatic Owner.x:I", "return"]
    );
}

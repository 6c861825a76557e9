use native_mod::bytecode::{CodeBody, Insn};
use native_mod::javacode::{ensure_loaded_code, resource_path_code};
use native_mod::native_libs::{native_lib_entry, platform_key};

/// A value of the small interpreter below.
#[derive(Clone, Debug, PartialEq)]
enum V {
    Int(i64),
    Str(String),
    Null,
    /// Object `n` of the heap.
    Ref(usize),
    /// A value returned by a call, named by the call.
    Ext(String),
}

#[derive(Clone, Debug, PartialEq)]
enum Obj {
    Uninit(String),
    Builder(String),
    Made(String, Vec<V>),
    Array(Vec<V>),
}

/// What a JVM answers, for the calls these two methods make.
struct World {
    os_name: String,
    /// `None` for a JVM without `os.arch`.
    os_arch: Option<String>,
    lib_file: String,
    loaded: bool,
    resource_found: bool,
}

#[derive(Debug, PartialEq)]
enum End {
    Returned(Option<V>),
    Threw(Obj),
}

struct Run {
    end: End,
    calls: Vec<String>,
    loaded_written: Option<V>,
}

fn label_index(code: &[Insn], l: usize) -> usize {
    code.iter().position(|i| matches!(i, Insn::Place(m) if *m == l)).unwrap()
}

fn run(body: &CodeBody, w: &World, args: Vec<V>) -> Run {
    let code = &body.insns;
    let mut pc = 0usize;
    let mut stack: Vec<V> = Vec::new();
    let mut locals: Vec<V> = vec![V::Null; 6];
    for (i, a) in args.into_iter().enumerate() {
        locals[i] = a;
    }
    let mut heap: Vec<Obj> = Vec::new();
    let mut calls: Vec<String> = Vec::new();
    let mut loaded_written = None;
    loop {
        let insn = &code[pc];
        pc += 1;
        match insn {
            Insn::Place(_) => {}
            Insn::Aload(n) => stack.push(locals[*n as usize].clone()),
            Insn::Astore(n) => locals[*n as usize] = stack.pop().unwrap(),
            Insn::Iconst0 => stack.push(V::Int(0)),
            Insn::Iconst1 => stack.push(V::Int(1)),
            Insn::Dup => {
                let v = stack.last().unwrap().clone();
                stack.push(v);
            }
            Insn::Pop => {
                stack.pop();
            }
            Insn::Pop2 => {
                stack.pop();
                stack.pop();
            }
            Insn::LdcString(s) => stack.push(V::Str(s.clone())),
            Insn::LdcClass(s) => stack.push(V::Ext(format!("class {s}"))),
            Insn::New(c) => {
                heap.push(Obj::Uninit(c.clone()));
                stack.push(V::Ref(heap.len() - 1));
            }
            Insn::Anewarray(_) => {
                let n = match stack.pop().unwrap() {
                    V::Int(n) => n as usize,
                    v => panic!("array size {v:?}"),
                };
                heap.push(Obj::Array(vec![V::Null; n]));
                stack.push(V::Ref(heap.len() - 1));
            }
            Insn::Aastore => {
                let v = stack.pop().unwrap();
                let i = stack.pop().unwrap();
                let a = stack.pop().unwrap();
                match (a, i) {
                    (V::Ref(r), V::Int(i)) => match &mut heap[r] {
                        Obj::Array(es) => es[i as usize] = v,
                        o => panic!("aastore into {o:?}"),
                    },
                    _ => panic!("aastore operands"),
                }
            }
            Insn::Athrow => {
                return match stack.pop().unwrap() {
                    V::Ref(r) => Run { end: End::Threw(heap[r].clone()), calls, loaded_written },
                    v => panic!("throw {v:?}"),
                };
            }
            Insn::GetStatic(f) => match f.name.as_str() {
                "loaded_native_payloads" => stack.push(V::Int(if w.loaded { 1 } else { 0 })),
                n => stack.push(V::Ext(n.to_string())),
            },
            Insn::PutStatic(f) => {
                assert_eq!(f.name, "loaded_native_payloads");
                loaded_written = stack.pop();
            }
            Insn::InvokeStatic(m) | Insn::InvokeVirtual(m) | Insn::InvokeSpecial(m) => {
                let receiver = !matches!(insn, Insn::InvokeStatic(_));
                let n = m.desc.args.len() + if receiver { 1 } else { 0 };
                let args: Vec<V> = stack.split_off(stack.len() - n);
                let key = format!("{}.{}", m.owner, m.name);
                match key.as_str() {
                    "java/lang/String.equals" => {
                        stack.push(V::Int(if args[0] == args[1] { 1 } else { 0 }))
                    }
                    "java/lang/String.startsWith" => match (&args[0], &args[1]) {
                        (V::Str(a), V::Str(p)) => {
                            stack.push(V::Int(if a.starts_with(p.as_str()) { 1 } else { 0 }))
                        }
                        _ => panic!("startsWith operands"),
                    },
                    "java/lang/StringBuilder.<init>" => match args[0] {
                        V::Ref(r) => heap[r] = Obj::Builder(String::new()),
                        _ => panic!("init receiver"),
                    },
                    "java/lang/StringBuilder.append" => {
                        let text = match &args[1] {
                            V::Str(s) => s.clone(),
                            V::Null => "null".to_string(),
                            v => panic!("append of {v:?}"),
                        };
                        match &args[0] {
                            V::Ref(r) => {
                                match &mut heap[*r] {
                                    Obj::Builder(b) => b.push_str(&text),
                                    o => panic!("append to {o:?}"),
                                }
                                stack.push(V::Ref(*r));
                            }
                            _ => panic!("append receiver"),
                        }
                    }
                    "java/lang/StringBuilder.toString" => match args[0] {
                        V::Ref(r) => match &heap[r] {
                            Obj::Builder(b) => stack.push(V::Str(b.clone())),
                            o => panic!("toString of {o:?}"),
                        },
                        _ => panic!("toString receiver"),
                    },
                    _ => {
                        calls.push(key.clone());
                        if m.name == "<init>" {
                            match args[0] {
                                V::Ref(r) => heap[r] = Obj::Made(m.owner.clone(), args[1..].to_vec()),
                                _ => panic!("constructor receiver"),
                            }
                        } else {
                            let v = match (key.as_str(), args.first()) {
                                ("java/lang/System.getProperty", Some(V::Str(p))) if p == "os.name" => {
                                    V::Str(w.os_name.clone())
                                }
                                ("java/lang/System.getProperty", Some(V::Str(p))) if p == "os.arch" => {
                                    match &w.os_arch {
                                        Some(a) => V::Str(a.clone()),
                                        None => V::Null,
                                    }
                                }
                                ("java/lang/String.toLowerCase", Some(V::Str(s))) => V::Str(s.to_lowercase()),
                                ("java/lang/System.mapLibraryName", Some(V::Str(b))) => {
                                    V::Str(w.lib_file.replace("native_payloads", b))
                                }
                                ("com/example/runtime/NativeLoader.resourcePath", Some(V::Str(b)))
                                    if b == "native_payloads" =>
                                {
                                    V::Str("/native/linux-x86_64/libnative_payloads.so".to_string())
                                }
                                ("java/lang/Class.getResourceAsStream", _) => {
                                    if w.resource_found { V::Ext("stream".to_string()) } else { V::Null }
                                }
                                _ => V::Ext(key.clone()),
                            };
                            match &m.desc.ret {
                                None => {}
                                Some(t) => {
                                    stack.push(v);
                                    if t.slot_size() == 2 {
                                        stack.push(V::Null);
                                    }
                                }
                            }
                        }
                    }
                }
            }
            Insn::Ifeq(l) => {
                if stack.pop().unwrap() == V::Int(0) {
                    pc = label_index(code, *l);
                }
            }
            Insn::Ifnonnull(l) => {
                if stack.pop().unwrap() != V::Null {
                    pc = label_index(code, *l);
                }
            }
            Insn::Goto(l) => pc = label_index(code, *l),
            Insn::ReturnVoid => return Run { end: End::Returned(None), calls, loaded_written },
            Insn::Areturn => {
                let v = stack.pop();
                return Run { end: End::Returned(v), calls, loaded_written };
            }
            _ => panic!("an instruction these methods do not use"),
        }
    }
}

fn world(os_name: &str, os_arch: &str, lib_file: &str) -> World {
    World {
        os_name: os_name.to_string(),
        os_arch: Some(os_arch.to_string()),
        lib_file: lib_file.to_string(),
        loaded: false,
        resource_found: true,
    }
}

fn resource_path_on(os_name: &str, os_arch: &str, lib_file: &str) -> String {
    match run(&resource_path_code(), &world(os_name, os_arch, lib_file), vec![V::Str("native_payloads".to_string())]).end {
        End::Returned(Some(V::Str(s))) => s,
        e => panic!("resourcePath ended with {e:?}"),
    }
}

/// `/` and the jar entry the builder stores the library under.
fn builder_path(os: &str, arch: &str, lib_file: &str) -> String {
    format!("/{}", native_lib_entry(&platform_key(os, arch), lib_file))
}

#[test]
fn resource_path_on_linux_amd64() {
    let p = resource_path_on("Linux", "amd64", "libnative_payloads.so");
    assert_eq!(p, "/native/linux-x86_64/libnative_payloads.so");
    assert_eq!(p, builder_path("linux", "x86_64", "libnative_payloads.so"));
}

#[test]
fn resource_path_on_windows_and_mac() {
    assert_eq!(
        resource_path_on("Windows 11", "amd64", "native_payloads.dll"),
        builder_path("windows", "x86_64", "native_payloads.dll")
    );
    assert_eq!(
        resource_path_on("Mac OS X", "aarch64", "libnative_payloads.dylib"),
        builder_path("macos", "aarch64", "libnative_payloads.dylib")
    );
    assert_eq!(
        resource_path_on("Linux", "arm64", "libnative_payloads.so"),
        "/native/linux-aarch64/libnative_payloads.so"
    );
}

#[test]
fn resource_path_keeps_other_names() {
    assert_eq!(
        resource_path_on("FreeBSD", "riscv64", "libnative_payloads.so"),
        "/native/linux-riscv64/libnative_payloads.so"
    );
}

#[test]
fn resource_path_calls() {
    let r = run(&resource_path_code(), &world("Linux", "amd64", "x"), vec![V::Str("native_payloads".to_string())]);
    assert_eq!(
        r.calls,
        vec![
            "java/lang/System.getProperty",
            "java/lang/String.toLowerCase",
            "java/lang/System.getProperty",
            "java/lang/System.mapLibraryName",
        ]
    );
    assert_eq!(r.loaded_written, None);
}

#[test]
fn ensure_loaded_when_loaded_does_nothing() {
    let mut w = world("Linux", "amd64", "libnative_payloads.so");
    w.loaded = true;
    let r = run(&ensure_loaded_code("native_payloads"), &w, vec![]);
    assert_eq!(r.end, End::Returned(None));
    assert!(r.calls.is_empty());
    assert_eq!(r.loaded_written, None);
}

#[test]
fn ensure_loaded_loads_once() {
    let mut w = world("Linux", "amd64", "libnative_payloads.so");
    let r = run(&ensure_loaded_code("native_payloads"), &w, vec![]);
    assert_eq!(r.end, End::Returned(None));
    assert_eq!(
        r.calls,
        vec![
            "com/example/runtime/NativeLoader.resourcePath",
            "java/lang/System.mapLibraryName",
            "java/io/File.createTempFile",
            "java/io/File.deleteOnExit",
            "java/lang/Class.getResourceAsStream",
            "java/io/File.toPath",
            "java/nio/file/Files.copy",
            "java/io/InputStream.close",
            "java/io/File.getAbsolutePath",
            "java/lang/System.load",
        ]
    );
    assert_eq!(r.loaded_written, Some(V::Int(1)));
    w.loaded = true;
    let again = run(&ensure_loaded_code("native_payloads"), &w, vec![]);
    assert!(again.calls.is_empty());
}

#[test]
fn ensure_loaded_without_resource_throws() {
    let mut w = world("Linux", "amd64", "libnative_payloads.so");
    w.resource_found = false;
    let r = run(&ensure_loaded_code("native_payloads"), &w, vec![]);
    assert_eq!(
        r.end,
        End::Threw(Obj::Made(
            "java/io/IOException".to_string(),
            vec![V::Str("native lib not found: /native/linux-x86_64/libnative_payloads.so".to_string())],
        ))
    );
    assert_eq!(r.calls.last().unwrap(), "java/io/IOException.<init>");
    assert_eq!(r.loaded_written, None);
}

#[test]
fn resource_path_names_the_given_library() {
    let r = run(
        &resource_path_code(),
        &world("Linux", "amd64", "libnative_payloads.so"),
        vec![V::Str("minecraft_server".to_string())],
    );
    assert_eq!(
        r.end,
        End::Returned(Some(V::Str("/native/linux-x86_64/libminecraft_server.so".to_string())))
    );
}

#[test]
fn resource_path_with_unset_arch() {
    let mut w = world("Linux", "amd64", "libnative_payloads.so");
    w.os_arch = None;
    let r = run(&resource_path_code(), &w, vec![V::Str("native_payloads".to_string())]);
    assert_eq!(
        r.end,
        End::Returned(Some(V::Str("/native/linux-null/libnative_payloads.so".to_string())))
    );
}

use native_mod::bytecode::Insn;
use native_mod::classes::{
    class_internal_for, mixin_class_for, mixin_class_from, native_holder_class,
    native_loader_class, native_payloads_class, simple_class_name, AccessFlags, ElementValue,
};
use native_mod::mixins::{MinecraftServerMixin, MixinClass, NativeMethod};
use native_mod::record::InjectMeta;

fn meta(fn_name: &str, class: &str) -> InjectMeta {
    InjectMeta {
        fn_name: fn_name.to_string(),
        target: "Lnet/minecraft/server/MinecraftServer;".to_string(),
        method: "runServer".to_string(),
        at: "HEAD".to_string(),
        class: class.to_string(),
    }
}

#[test]
fn mixin_class_names() {
    let m = meta("hello", "hello_Mixin");
    assert_eq!(class_internal_for(&m), "com/example/mixin/hello_Mixin");
    assert_eq!(simple_class_name("com/example/mixin/hello_Mixin"), "hello_Mixin");
    assert_eq!(simple_class_name("NoPackage"), "NoPackage");
    assert_eq!(simple_class_name("a/b/"), "");
}

#[test]
fn access_flag_words() {
    let f = AccessFlags {
        is_public: true,
        is_private: false,
        is_static: true,
        is_synchronized: false,
        is_native: true,
    };
    assert_eq!(f.bits(), 0x0109);
    let g = AccessFlags {
        is_public: true,
        is_private: false,
        is_static: true,
        is_synchronized: true,
        is_native: false,
    };
    assert_eq!(g.bits(), 0x0029);
}

#[test]
fn mixin_class_contents() {
    let (name, c) = mixin_class_for(&meta("hello", "hello_Mixin"));
    assert_eq!(name, "com/example/mixin/hello_Mixin");
    assert_eq!(c.name, name);
    assert_eq!(c.version, Some((52, 0)));
    assert_eq!(c.annotations.len(), 1);
    assert_eq!(c.annotations[0].type_desc, "Lorg/spongepowered/asm/mixin/Mixin;");
    assert!(!c.annotations[0].visible);
    match &c.annotations[0].elements[0].1 {
        ElementValue::Array(v) => match &v[0] {
            ElementValue::Class(t) => assert_eq!(t, "Lnet/minecraft/server/MinecraftServer;"),
            _ => panic!("class value expected"),
        },
        _ => panic!("array expected"),
    }
    assert_eq!(c.methods.len(), 2);
    assert_eq!(c.methods[0].name, "<init>");
    assert_eq!(c.methods[0].descriptor, "()V");
    assert_eq!(c.methods[0].access.bits(), 0x0001);
    assert_eq!(c.methods[0].code.as_ref().unwrap().insns.len(), 3);
    let h = &c.methods[1];
    assert_eq!(h.name, "onRun");
    assert_eq!(
        h.descriptor,
        "(Lorg/spongepowered/asm/mixin/injection/callback/CallbackInfo;)V"
    );
    assert_eq!(h.access.bits(), 0x0002);
    assert_eq!(h.exceptions, vec!["java/io/IOException".to_string()]);
    let inject = &h.annotations[0];
    assert_eq!(inject.type_desc, "Lorg/spongepowered/asm/mixin/injection/Inject;");
    assert_eq!(inject.elements[0].0, "method");
    match &inject.elements[1].1 {
        ElementValue::Array(v) => match &v[0] {
            ElementValue::Nested(at) => {
                assert_eq!(at.type_desc, "Lorg/spongepowered/asm/mixin/injection/At;");
                match &at.elements[0].1 {
                    ElementValue::Str(s) => assert_eq!(s, "HEAD"),
                    _ => panic!("string expected"),
                }
            }
            _ => panic!("nested annotation expected"),
        },
        _ => panic!("array expected"),
    }
    assert_eq!(h.code.as_ref().unwrap().insns.len(), 7);
}

#[test]
fn payloads_holder_contents() {
    let c = native_payloads_class(&vec![meta("hello", "a"), meta("goodbye", "b")]);
    assert_eq!(c.name, "com/example/runtime/NativePayloads");
    assert_eq!(c.version, None);
    assert_eq!(c.methods.len(), 3);
    assert_eq!(c.methods[0].access.bits(), 0x0002);
    for (m, n) in c.methods[1..].iter().zip(["hello", "goodbye"]) {
        assert_eq!(m.name, n);
        assert_eq!(m.descriptor, "()Ljava/lang/String;");
        assert_eq!(m.access.bits(), 0x0109);
        assert!(m.code.is_none());
    }
}

#[test]
fn loader_contents() {
    let c = native_loader_class(&vec!["minecraft_server".to_string(), "other".to_string()]);
    assert_eq!(c.name, "com/example/runtime/NativeLoader");
    assert_eq!(c.version, None);
    let fields: Vec<&str> = c.fields.iter().map(|f| f.name.as_str()).collect();
    assert_eq!(fields, vec!["loaded_minecraft_server", "loaded_other"]);
    for f in &c.fields {
        assert_eq!(f.descriptor, "Z");
        assert_eq!(f.access.bits(), 0x000A);
    }
    let names: Vec<&str> = c.methods.iter().map(|m| m.name.as_str()).collect();
    assert_eq!(
        names,
        vec!["<init>", "resourcePath", "ensure_minecraft_server", "ensure_other"]
    );
    assert_eq!(c.methods[0].descriptor, "()V");
    assert_eq!(c.methods[1].descriptor, "(Ljava/lang/String;)Ljava/lang/String;");
    assert_eq!(c.methods[1].access.bits(), 0x0009);
    for m in &c.methods[2..] {
        assert_eq!(m.descriptor, "()V");
        assert_eq!(m.access.bits(), 0x0029);
        assert_eq!(m.exceptions, vec!["java/io/IOException".to_string()]);
    }
}

#[test]
fn mixin_class_from_minecraft_server_mixin() {
    let (name, c) = mixin_class_from(&MinecraftServerMixin);
    assert_eq!(name, "com/example/mixin/MinecraftServerMixin");
    assert_eq!(c.name, name);
    assert_eq!(c.version, Some((52, 0)));
    match &c.annotations[0].elements[0].1 {
        ElementValue::Array(v) => match &v[0] {
            ElementValue::Class(t) => assert_eq!(t, "Lnet/minecraft/server/MinecraftServer;"),
            _ => panic!("class value expected"),
        },
        _ => panic!("array expected"),
    }
    let names: Vec<&str> = c.methods.iter().map(|m| m.name.as_str()).collect();
    assert_eq!(names, vec!["<init>", "onRun", "onRunReturn"]);
    let ats: Vec<String> = c.methods[1..]
        .iter()
        .map(|m| match &m.annotations[0].elements[1].1 {
            ElementValue::Array(v) => match &v[0] {
                ElementValue::Nested(at) => match &at.elements[0].1 {
                    ElementValue::Str(s) => s.clone(),
                    _ => panic!("string expected"),
                },
                _ => panic!("nested expected"),
            },
            _ => panic!("array expected"),
        })
        .collect();
    assert_eq!(ats, vec!["HEAD".to_string(), "RETURN".to_string()]);
    for (m, native) in c.methods[1..].iter().zip(["hello", "goodbye"]) {
        assert_eq!(m.access.bits(), 0x0002);
        let code = &m.code.as_ref().unwrap().insns;
        match (&code[0], &code[1]) {
            (Insn::InvokeStatic(a), Insn::InvokeStatic(b)) => {
                assert_eq!(a.name, "ensure_minecraft_server");
                assert_eq!(b.name, native);
            }
            _ => panic!("invokestatic expected"),
        }
    }
}

#[test]
fn holder_of_mixin_natives() {
    let natives: Vec<NativeMethod> = MinecraftServerMixin.native_methods();
    let c = native_holder_class(&natives);
    assert_eq!(c.name, "com/example/runtime/NativePayloads");
    assert_eq!(c.methods[0].descriptor, "()V");
    assert_eq!(c.methods[0].access.bits(), 0x0002);
    let ms: Vec<(&str, &str, u16)> = c.methods[1..]
        .iter()
        .map(|m| (m.name.as_str(), m.descriptor.as_str(), m.access.bits()))
        .collect();
    assert_eq!(
        ms,
        vec![
            ("hello", "()Ljava/lang/String;", 0x0109),
            ("goodbye", "()Ljava/lang/String;", 0x0109)
        ]
    );
}

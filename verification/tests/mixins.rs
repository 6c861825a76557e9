use native_mod::bytecode::{Code, Insn};
use native_mod::descriptor::JavaType;
use native_mod::mixins::{
    dedupe_native_methods, HandlerBody, MinecraftServerMixin, MixinAt, MixinClass, MixinMethod,
};

fn handler(name: &str, native: &str, args: Vec<JavaType>) -> MixinMethod {
    MixinMethod {
        name: name.to_string(),
        target_method: "tick".to_string(),
        target_args: args,
        at: MixinAt::Head,
        cancellable: false,
        exceptions: vec![],
        native_name: native.to_string(),
        code: HandlerBody::PrintNativeResult,
    }
}

#[test]
fn handler_descriptor_appends_callback_info() {
    let m = handler(
        "onTick",
        "tick_demo",
        vec![JavaType::Object("java/util/function/BooleanSupplier"), JavaType::Long],
    );
    assert_eq!(
        m.descriptor(),
        "(Ljava/util/function/BooleanSupplier;JLorg/spongepowered/asm/mixin/injection/callback/CallbackInfo;)V"
    );
    assert_eq!(
        handler("h", "n", vec![]).descriptor(),
        "(Lorg/spongepowered/asm/mixin/injection/callback/CallbackInfo;)V"
    );
}

#[test]
fn native_methods_are_deduplicated_in_first_use_order() {
    let ms = vec![
        handler("a", "cancel_demo", vec![]),
        handler("b", "other", vec![]),
        handler("c", "cancel_demo", vec![]),
        handler("d", "cancel_demo", vec![JavaType::Int]),
    ];
    let ns = dedupe_native_methods(&ms);
    let got: Vec<(String, String)> =
        ns.into_iter().map(|n| (n.name, n.descriptor)).collect();
    let cb = "Lorg/spongepowered/asm/mixin/injection/callback/CallbackInfo;";
    assert_eq!(
        got,
        vec![
            ("cancel_demo".to_string(), format!("({cb})V")),
            ("other".to_string(), format!("({cb})V")),
            ("cancel_demo".to_string(), format!("(I{cb})V")),
        ]
    );
}

#[test]
fn mixin_at_names() {
    assert_eq!(MixinAt::Head.to_string(), "HEAD");
    assert_eq!(MixinAt::Return.to_string(), "RETURN");
}

#[test]
fn minecraft_server_mixin() {
    let m = MinecraftServerMixin;
    assert_eq!(m.target_class(), "net/minecraft/server/MinecraftServer");
    assert_eq!(m.target_class_descriptor(), "Lnet/minecraft/server/MinecraftServer;");
    assert_eq!(m.mixin_class_simple_name(), "MinecraftServerMixin");
    assert_eq!(m.native_lib_name(), "minecraft_server");
    let hs = m.methods();
    assert_eq!(hs.len(), 2);
    assert_eq!(hs[0].name, "onRun");
    assert_eq!(hs[0].native_name, "hello");
    assert!(matches!(hs[0].at, MixinAt::Head));
    assert_eq!(hs[1].name, "onRunReturn");
    assert_eq!(hs[1].native_name, "goodbye");
    assert!(matches!(hs[1].at, MixinAt::Return));
    let ns: Vec<(String, String)> = m
        .native_methods()
        .into_iter()
        .map(|n| (n.name, n.descriptor))
        .collect();
    assert_eq!(
        ns,
        vec![
            ("hello".to_string(), "()Ljava/lang/String;".to_string()),
            ("goodbye".to_string(), "()Ljava/lang/String;".to_string())
        ]
    );
    let code = hs[0].handler_code(&m.native_lib_name());
    match &code.insns[0] {
        Insn::InvokeStatic(r) => assert_eq!(r.name, "ensure_minecraft_server"),
        _ => panic!("invokestatic expected"),
    }
    match &code.insns[1] {
        Insn::InvokeStatic(r) => assert_eq!(r.name, "hello"),
        _ => panic!("invokestatic expected"),
    }
}

#[test]
fn load_instruction_per_type() {
    let mut c = Code::new(20);
    let types = [
        JavaType::Int,
        JavaType::Long,
        JavaType::Float,
        JavaType::Double,
        JavaType::Boolean,
        JavaType::Byte,
        JavaType::Short,
        JavaType::Char,
        JavaType::Object("x/Y"),
        JavaType::Array("I"),
    ];
    for (i, t) in types.iter().enumerate() {
        t.emit_load(&mut c, i as u16);
    }
    c.return_void();
    let b = c.finish();
    let kinds: Vec<&str> = b
        .insns
        .iter()
        .map(|i| match i {
            Insn::Iload(_) => "i",
            Insn::Lload(_) => "l",
            Insn::Fload(_) => "f",
            Insn::Dload(_) => "d",
            Insn::Aload(_) => "a",
            Insn::ReturnVoid => "r",
            _ => "?",
        })
        .collect();
    assert_eq!(kinds, vec!["i", "l", "f", "d", "i", "i", "i", "i", "a", "a", "r"]);
}

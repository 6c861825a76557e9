use native_mod::descriptor::{slots_total, JavaType, MethodDesc};

#[test]
fn slot_sizes() {
    assert_eq!(JavaType::Long.slot_size(), 2);
    assert_eq!(JavaType::Double.slot_size(), 2);
    assert_eq!(JavaType::Int.slot_size(), 1);
    assert_eq!(JavaType::Object("java/lang/String").slot_size(), 1);
    assert_eq!(JavaType::Array("J").slot_size(), 1);
    assert_eq!(
        slots_total(&vec![JavaType::Long, JavaType::Int, JavaType::Double]),
        5
    );
}

#[test]
fn field_descriptors() {
    let all = [
        (JavaType::Int, "I"),
        (JavaType::Long, "J"),
        (JavaType::Float, "F"),
        (JavaType::Double, "D"),
        (JavaType::Boolean, "Z"),
        (JavaType::Byte, "B"),
        (JavaType::Short, "S"),
        (JavaType::Char, "C"),
        (JavaType::Object("java/util/function/BooleanSupplier"), "Ljava/util/function/BooleanSupplier;"),
        (JavaType::Array("I"), "[I"),
        (JavaType::Array("Ljava/lang/String;"), "[Ljava/lang/String;"),
        (JavaType::Array("[I"), "[[I"),
    ];
    for (t, d) in all {
        assert_eq!(t.descriptor(), d);
    }
}

#[test]
fn method_descriptors() {
    assert_eq!(MethodDesc::new0(None).descriptor(), "()V");
    assert_eq!(
        MethodDesc::new1(JavaType::Object("java/lang/String"), Some(JavaType::Boolean)).descriptor(),
        "(Ljava/lang/String;)Z"
    );
    assert_eq!(
        MethodDesc::new3(JavaType::Int, JavaType::Array("J"), JavaType::Char, Some(JavaType::Long))
            .descriptor(),
        "(I[JC)J"
    );
}

use native_mod::modjson::{fabric_mod_descriptor, jar_file_name, mixin_config, mixins_json_name};

#[test]
fn fabric_mod_json_contents() {
    let m = fabric_mod_descriptor();
    assert_eq!(m.schema_version, 1);
    assert_eq!(m.id, "hello-native-mod");
    assert_eq!(m.version, "0.1.0");
    assert_eq!(m.name, "Hello Native Mod");
    assert_eq!(m.environment, "*");
    assert_eq!(m.license, "MIT");
    assert_eq!(m.mixins, vec!["hello-native-mod.mixins.json".to_string()]);
    assert_eq!(
        m.depends,
        vec![
            ("fabricloader".to_string(), ">=0.15.0".to_string()),
            ("minecraft".to_string(), ">=1.20".to_string())
        ]
    );
}

#[test]
fn mixin_config_contents() {
    let c = mixin_config(&vec!["hello_Mixin".to_string(), "bye_Mixin".to_string()]);
    assert!(c.required);
    assert_eq!(c.package, "com.example.mixin");
    assert_eq!(c.compatibility_level, "JAVA_8");
    assert_eq!(c.mixins, vec!["hello_Mixin".to_string(), "bye_Mixin".to_string()]);
    assert_eq!(c.injectors.default_require, 1);
}

#[test]
fn file_names() {
    assert_eq!(mixins_json_name(), "hello-native-mod.mixins.json");
    assert_eq!(jar_file_name(), "hello-native-mod.jar");
}

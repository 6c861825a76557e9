use native_mod::native_libs::{
    cdylib_file_names, class_entry, looks_like_native_lib, native_lib_entry, native_lib_filename,
    parse_native_lib_dirs, pick_native_libs, platform_key, LibDirEntry, NativeLibsError,
};

#[test]
fn native_lib_extensions() {
    assert!(looks_like_native_lib("libminecraft_server.so"));
    assert!(looks_like_native_lib("minecraft_server.dll"));
    assert!(looks_like_native_lib("libx.dylib"));
    assert!(!looks_like_native_lib("libx.so.1"));
    assert!(!looks_like_native_lib("readme.txt"));
    assert!(!looks_like_native_lib("so"));
    assert!(looks_like_native_lib(".so"));
}

#[test]
fn cdylib_file_name() {
    assert_eq!(
        native_lib_filename("lib", "native-payloads", ".so"),
        "libnative_payloads.so"
    );
    assert_eq!(native_lib_filename("", "a-b-c", ".dll"), "a_b_c.dll");
}

#[test]
fn jar_entries() {
    assert_eq!(platform_key("linux", "x86_64"), "linux-x86_64");
    assert_eq!(
        native_lib_entry("linux-x86_64", "libnative_payloads.so"),
        "native/linux-x86_64/libnative_payloads.so"
    );
    assert_eq!(
        class_entry("com/example/runtime/NativeLoader"),
        "com/example/runtime/NativeLoader.class"
    );
}

fn dir(e: &LibDirEntry) -> (String, String) {
    match e {
        LibDirEntry::Dir { platform, dir } => (platform.clone(), dir.clone()),
        LibDirEntry::Malformed(m) => panic!("malformed {m}"),
    }
}

#[test]
fn lib_dirs_are_parsed_and_trimmed() {
    let v = parse_native_lib_dirs(
        " linux-x86_64 = staging/linux ,, windows-x86_64=staging/win=dows ,",
    )
    .unwrap();
    assert_eq!(v.len(), 2);
    assert_eq!(dir(&v[0]), ("linux-x86_64".to_string(), "staging/linux".to_string()));
    assert_eq!(
        dir(&v[1]),
        ("windows-x86_64".to_string(), "staging/win=dows".to_string())
    );
}

#[test]
fn malformed_lib_dir_entry_is_kept_in_place() {
    let v = parse_native_lib_dirs("a=b, oops ,c=d").unwrap();
    assert_eq!(v.len(), 3);
    match &v[1] {
        LibDirEntry::Malformed(e) => assert_eq!(e, "oops"),
        _ => panic!("expected malformed"),
    }
}

#[test]
fn no_lib_dir_entries() {
    assert!(matches!(parse_native_lib_dirs(""), Err(NativeLibsError::NoEntries)));
    assert!(matches!(parse_native_lib_dirs(" , ,\t"), Err(NativeLibsError::NoEntries)));
}

#[test]
fn picking_libraries_in_a_directory() {
    let names = vec![
        "a.txt".to_string(),
        "liba.so".to_string(),
        "b.dll".to_string(),
        "c".to_string(),
    ];
    assert_eq!(pick_native_libs(&names).unwrap(), vec![1, 2]);
    assert!(matches!(
        pick_native_libs(&vec!["x".to_string()]),
        Err(NativeLibsError::NoNativeLib)
    ));
}

fn pkg(name: &str, targets: &[(&str, bool)]) -> (String, Vec<(String, bool)>) {
    (name.to_string(), targets.iter().map(|(t, c)| (t.to_string(), *c)).collect())
}

#[test]
fn cdylib_file_names_of_the_payload_package() {
    let packages = vec![
        pkg("builder", &[("builder", false)]),
        pkg("native-payloads", &[("native-payloads", false), ("minecraft-server", true), ("other", true)]),
    ];
    let names = cdylib_file_names(&packages, "lib", ".so").unwrap();
    assert_eq!(names, vec!["libminecraft_server.so", "libother.so"]);
    let names = cdylib_file_names(&packages, "", ".dll").unwrap();
    assert_eq!(names, vec!["minecraft_server.dll", "other.dll"]);
}

#[test]
fn cdylib_file_names_errors() {
    let none = vec![pkg("builder", &[("builder", false)])];
    assert!(matches!(
        cdylib_file_names(&none, "lib", ".so"),
        Err(NativeLibsError::PackageNotFound)
    ));
    let no_cdylib = vec![pkg("native-payloads", &[("native-payloads", false)])];
    assert!(matches!(
        cdylib_file_names(&no_cdylib, "lib", ".so"),
        Err(NativeLibsError::NoCdylibTarget)
    ));
}

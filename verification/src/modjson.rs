//! The two JSON files of the mod jar, as data: `fabric.mod.json` and the
//! Mixin configuration `<mod id>.mixins.json`.

use vstd::prelude::*;
use crate::names::{MIXIN_PACKAGE, MOD_ID};

verus! {

/// Contents of `fabric.mod.json` (serialised with camelCase keys).
pub struct FabricMod {
    pub schema_version: u32,
    pub id: String,
    pub version: String,
    pub name: String,
    pub description: String,
    pub environment: String,
    pub license: String,
    pub mixins: Vec<String>,
    /// Mod id and version range of each dependency, ordered by mod id.
    pub depends: Vec<(String, String)>,
}

/// Contents of the Mixin configuration file.
pub struct MixinConfig {
    pub required: bool,
    pub package: String,
    pub compatibility_level: String,
    pub mixins: Vec<String>,
    pub injectors: MixinInjectors,
}

pub struct MixinInjectors {
    pub default_require: u32,
}

/// `<mod id>.mixins.json`
pub open spec fn mixins_json_spec() -> Seq<char> {
    MOD_ID@ + ".mixins.json"@
}

/// Name of the Mixin configuration file in the jar.
pub fn mixins_json_name() -> (r: String)
    ensures
        r@ == mixins_json_spec(),
{
    let mut s = MOD_ID.to_owned();
    s.append(".mixins.json");
    s
}

/// Name of the jar written to `out/`.
pub fn jar_file_name() -> (r: String)
    ensures
        r@ == MOD_ID@ + ".jar"@,
{
    let mut s = MOD_ID.to_owned();
    s.append(".jar");
    s
}

/// `fabric.mod.json`: schema 1, id `hello-native-mod`, version `0.1.0`,
/// name `Hello Native Mod`, environment `*`, license `MIT`, the one Mixin
/// configuration, and dependencies `fabricloader >=0.15.0` and
/// `minecraft >=1.20`.
pub fn fabric_mod_descriptor() -> (r: FabricMod)
    ensures
        r.schema_version == 1,
        r.id@ == MOD_ID@,
        r.version@ == "0.1.0"@,
        r.name@ == "Hello Native Mod"@,
        r.description@ == "Calls native payloads via JNI to print strings at server start."@,
        r.environment@ == "*"@,
        r.license@ == "MIT"@,
        r.mixins@.len() == 1,
        r.mixins@[0]@ == mixins_json_spec(),
        r.depends@.len() == 2,
        r.depends@[0].0@ == "fabricloader"@,
        r.depends@[0].1@ == ">=0.15.0"@,
        r.depends@[1].0@ == "minecraft"@,
        r.depends@[1].1@ == ">=1.20"@,
{
    let mut mixins: Vec<String> = Vec::new();
    mixins.push(mixins_json_name());
    let mut depends: Vec<(String, String)> = Vec::new();
    depends.push(("fabricloader".to_owned(), ">=0.15.0".to_owned()));
    depends.push(("minecraft".to_owned(), ">=1.20".to_owned()));
    FabricMod {
        schema_version: 1,
        id: MOD_ID.to_owned(),
        version: "0.1.0".to_owned(),
        name: "Hello Native Mod".to_owned(),
        description: "Calls native payloads via JNI to print strings at server start.".to_owned(),
        environment: "*".to_owned(),
        license: "MIT".to_owned(),
        mixins,
        depends,
    }
}

/// The Mixin configuration listing the simple names of the Mixin classes:
/// required, package `com.example.mixin`, `JAVA_8`, one required injection
/// per injector by default.
pub fn mixin_config(class_simples: &Vec<String>) -> (r: MixinConfig)
    ensures
        r.required,
        r.package@ == MIXIN_PACKAGE@,
        r.compatibility_level@ == "JAVA_8"@,
        r.mixins@.len() == class_simples@.len(),
        forall|i: int| 0 <= i < class_simples@.len() ==> #[trigger] r.mixins@[i]@ == class_simples@[i]@,
        r.injectors.default_require == 1,
{
    let mut mixins: Vec<String> = Vec::new();
    let mut i: usize = 0;
    while i < class_simples.len()
        invariant
            i <= class_simples@.len(),
            mixins@.len() == i,
            forall|k: int| 0 <= k < i ==> #[trigger] mixins@[k]@ == class_simples@[k]@,
        decreases class_simples@.len() - i,
    {
        mixins.push(crate::inject::clone_str(class_simples[i].as_str()));
        i = i + 1;
    }
    MixinConfig {
        required: true,
        package: MIXIN_PACKAGE.to_owned(),
        compatibility_level: "JAVA_8".to_owned(),
        mixins,
        injectors: MixinInjectors { default_require: 1 },
    }
}

} // verus!

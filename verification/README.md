# native_mod

The verified core of a toolchain that builds a Fabric Minecraft mod from
Rust: server hooks are Rust functions marked `#[inject]`, compiled into
cdylibs and called over JNI from Mixin classes generated from `MixinClass`
impls.

`src/` (Verus):

- `jni` – JNI short-name escaping and the facts that tie the exported
  symbols to the Java holder class.
- `record` – the `#[inject]` metadata record format; reading the
  concatenated records back gives the records written.
- `objfile` – reading those records out of a cdylib (`object` crate).
- `inject` – the attribute's arguments (none, or the keyed form that also
  embeds a record) and what the macro emits.
- `descriptor`, `bytecode` – Java types, method descriptors, a model of the
  emitted JVM instructions and a builder that keeps every method body
  within its declared operand-stack size.
- `javacode`, `classes` – the generated method bodies and classes
  (Mixin classes, `NativePayloads`, `NativeLoader` with a `loaded_<lib>`
  flag and a synchronized `ensure_<lib>()` per cdylib).
- `jvm` – a small-step semantics of those instructions; `loader_run` and
  `ensure_run` prove on it what `NativeLoader.resourcePath(lib)` returns
  (the jar entry the library is stored under, and that it matches the
  builder's platform key for the usual `os.name`/`os.arch` values) and what
  `ensure_<lib>()` does (extract to a temporary file, load, set the flag;
  once, and nothing when the flag is set; a call that throws leaves the
  flag unset).
- `mixins` – handler methods, `MixinClass`, `MinecraftServerMixin`.
- `native_libs`, `modjson`, `names`, `payloads`, `text` – file names, the
  `NATIVE_LIB_DIRS` format, the two JSON descriptors, shared names, the
  payload strings and string helpers.

`app/` is the program around it: cargo and file I/O, class-file and jar
writing, JSON serialisation, the proc-macro token plumbing and the JNI
runtime glue.

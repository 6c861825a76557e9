//! The `#[inject]` attribute: the JNI symbol it exports and, when it is
//! given `target = "...", method = "...", at = "...", class = "..."`, those
//! arguments and the metadata record it then leaves in the cdylib.

use vstd::prelude::*;
use crate::jni::{escape_chars, jni_escape};
use crate::names::JNI_NATIVE_OWNER;
use crate::record::{InjectMetaView, encode_inject_record, record_bytes};

verus! {

/// One `key = value` argument as written in the attribute: `key` is `None`
/// when it is not a plain identifier, `value` when it is not a string literal.
pub struct ArgPair {
    pub key: Option<String>,
    pub value: Option<String>,
}

/// The parsed attribute arguments.
#[derive(Debug)]
pub struct InjectArgs {
    pub target: String,
    pub method: String,
    pub at: String,
    pub class: String,
}

/// Why the attribute arguments were refused; indices count the arguments from 0.
#[derive(Debug)]
pub enum InjectArgsError {
    /// The key of this argument is not an identifier.
    ExpectedIdentifier(usize),
    /// The value of this argument is not a string literal.
    ExpectedStringLiteral(usize),
    /// This argument's key is none of `target`, `method`, `at`, `class`.
    UnknownArgument(usize),
    MissingTarget,
    MissingMethod,
    MissingClass,
}

/// The values given so far for each key (a later one replaces an earlier one).
pub struct ArgSlots {
    pub target: Option<Seq<char>>,
    pub method: Option<Seq<char>>,
    pub at: Option<Seq<char>>,
    pub class: Option<Seq<char>>,
}

pub open spec fn opt_view(o: Option<String>) -> Option<Seq<char>> {
    match o {
        Some(s) => Some(s@),
        None => None,
    }
}

/// Reads the arguments left to right; the first bad one decides the error.
pub open spec fn scan_args(pairs: Seq<ArgPair>) -> Result<ArgSlots, InjectArgsError>
    decreases pairs.len(),
{
    if pairs.len() == 0 {
        Ok(ArgSlots { target: None, method: None, at: None, class: None })
    } else {
        let i = (pairs.len() - 1) as usize;
        match scan_args(pairs.drop_last()) {
            Err(e) => Err(e),
            Ok(st) => {
                let p = pairs.last();
                match opt_view(p.key) {
                    None => Err(InjectArgsError::ExpectedIdentifier(i)),
                    Some(k) => match opt_view(p.value) {
                        None => Err(InjectArgsError::ExpectedStringLiteral(i)),
                        Some(v) => if k == "target"@ {
                            Ok(ArgSlots { target: Some(v), ..st })
                        } else if k == "method"@ {
                            Ok(ArgSlots { method: Some(v), ..st })
                        } else if k == "at"@ {
                            Ok(ArgSlots { at: Some(v), ..st })
                        } else if k == "class"@ {
                            Ok(ArgSlots { class: Some(v), ..st })
                        } else {
                            Err(InjectArgsError::UnknownArgument(i))
                        },
                    },
                }
            },
        }
    }
}

/// The arguments' values: `target`, `method` and `class` are required, in that
/// order of checking; `at` defaults to `HEAD`.
pub open spec fn resolve_args(pairs: Seq<ArgPair>) -> Result<
    (Seq<char>, Seq<char>, Seq<char>, Seq<char>),
    InjectArgsError,
> {
    match scan_args(pairs) {
        Err(e) => Err(e),
        Ok(st) => if st.target is None {
            Err(InjectArgsError::MissingTarget)
        } else if st.method is None {
            Err(InjectArgsError::MissingMethod)
        } else if st.class is None {
            Err(InjectArgsError::MissingClass)
        } else {
            Ok(
                (
                    st.target->0,
                    st.method->0,
                    match st.at {
                        Some(a) => a,
                        None => "HEAD"@,
                    },
                    st.class->0,
                ),
            )
        },
    }
}

/// Argument `p` has the key `k`.
pub open spec fn key_is(p: ArgPair, k: Seq<char>) -> bool {
    opt_view(p.key) == Some(k)
}

/// Some argument has the key `k`.
pub open spec fn has_key(pairs: Seq<ArgPair>, k: Seq<char>) -> bool {
    exists|i: int| 0 <= i < pairs.len() && #[trigger] key_is(pairs[i], k)
}

/// The last argument with key `k` has the value `v`.
pub open spec fn last_value_is(pairs: Seq<ArgPair>, k: Seq<char>, v: Seq<char>) -> bool {
    exists|i: int|
        0 <= i < pairs.len() && #[trigger] key_is(pairs[i], k) && opt_view(pairs[i].value) == Some(v)
            && forall|j: int| i < j < pairs.len() ==> !key_is(pairs[j], k)
}

/// An argument the attribute accepts: an identifier key among `target`,
/// `method`, `at`, `class`, with a string-literal value.
pub open spec fn pair_ok(p: ArgPair) -> bool {
    &&& p.value is Some
    &&& (key_is(p, "target"@) || key_is(p, "method"@) || key_is(p, "at"@) || key_is(p, "class"@))
}

/// Every argument is accepted.
pub open spec fn all_ok(pairs: Seq<ArgPair>) -> bool {
    forall|i: int| 0 <= i < pairs.len() ==> #[trigger] pair_ok(pairs[i])
}

/// Argument `i` is the first one refused.
pub open spec fn first_refused(pairs: Seq<ArgPair>, i: int) -> bool {
    &&& 0 <= i < pairs.len()
    &&& !pair_ok(pairs[i])
    &&& forall|j: int| 0 <= j < i ==> #[trigger] pair_ok(pairs[j])
}

/// Why argument `p`, at index `i`, is refused: no identifier key, else no
/// string value, else an unknown key.
pub open spec fn refusal(p: ArgPair, i: int) -> InjectArgsError {
    if p.key is None {
        InjectArgsError::ExpectedIdentifier(i as usize)
    } else if p.value is None {
        InjectArgsError::ExpectedStringLiteral(i as usize)
    } else {
        InjectArgsError::UnknownArgument(i as usize)
    }
}

/// What a slot holds after reading `pairs`: nothing when no argument has key
/// `k`, else the value of the last one that has.
pub open spec fn slot_meaning(pairs: Seq<ArgPair>, k: Seq<char>, o: Option<Seq<char>>) -> bool {
    match o {
        None => !has_key(pairs, k),
        Some(v) => last_value_is(pairs, k, v),
    }
}

proof fn lemma_keys_distinct()
    ensures
        "target"@ != "method"@,
        "target"@ != "at"@,
        "target"@ != "class"@,
        "method"@ != "at"@,
        "method"@ != "class"@,
        "at"@ != "class"@,
{
    reveal_strlit("target");
    reveal_strlit("method");
    reveal_strlit("at");
    reveal_strlit("class");
    assert("target"@[0] != "method"@[0]);
    assert("target"@.len() != "at"@.len());
    assert("target"@.len() != "class"@.len());
    assert("method"@.len() != "at"@.len());
    assert("method"@.len() != "class"@.len());
    assert("at"@.len() != "class"@.len());
}

/// A slot keeps its meaning when an argument with another key is added.
proof fn lemma_slot_other(pairs: Seq<ArgPair>, k: Seq<char>, o: Option<Seq<char>>)
    requires
        pairs.len() > 0,
        slot_meaning(pairs.drop_last(), k, o),
        !key_is(pairs.last(), k),
    ensures
        slot_meaning(pairs, k, o),
{
    let init = pairs.drop_last();
    match o {
        None => {
            assert forall|i: int| 0 <= i < pairs.len() implies !#[trigger] key_is(pairs[i], k) by {
                if i < init.len() {
                    assert(init[i] == pairs[i]);
                }
            }
        },
        Some(v) => {
            let i = choose|i: int|
                0 <= i < init.len() && #[trigger] key_is(init[i], k) && opt_view(init[i].value)
                    == Some(v) && forall|j: int| i < j < init.len() ==> !key_is(init[j], k);
            assert(pairs[i] == init[i]);
            assert forall|j: int| i < j < pairs.len() implies !key_is(pairs[j], k) by {
                if j < init.len() {
                    assert(init[j] == pairs[j]);
                }
            }
        },
    }
}

/// A slot holds the last argument's value when that argument has its key.
proof fn lemma_slot_last(pairs: Seq<ArgPair>, k: Seq<char>, v: Seq<char>)
    requires
        pairs.len() > 0,
        key_is(pairs.last(), k),
        opt_view(pairs.last().value) == Some(v),
    ensures
        slot_meaning(pairs, k, Some(v)),
{
    assert(key_is(pairs[pairs.len() - 1], k));
}

/// Reading the arguments left to right: when all are accepted each slot
/// holds the value of the last argument with its key; otherwise the first
/// refused argument decides the error.
pub proof fn lemma_scan_meaning(pairs: Seq<ArgPair>)
    ensures
        all_ok(pairs) ==> (scan_args(pairs) matches Ok(st) && slot_meaning(pairs, "target"@, st.target)
            && slot_meaning(pairs, "method"@, st.method) && slot_meaning(pairs, "at"@, st.at)
            && slot_meaning(pairs, "class"@, st.class)),
        !all_ok(pairs) ==> scan_args(pairs) is Err,
        forall|i: int| #[trigger] first_refused(pairs, i) ==> scan_args(pairs) == Err::<ArgSlots, InjectArgsError>(refusal(pairs[i], i)),
    decreases pairs.len(),
{
    lemma_keys_distinct();
    if pairs.len() == 0 {
        return;
    }
    let init = pairs.drop_last();
    let p = pairs.last();
    let n = pairs.len() - 1;
    lemma_scan_meaning(init);
    assert(p == pairs[n]);
    if !all_ok(pairs) {
        if all_ok(init) {
            assert forall|i: int| 0 <= i < n implies #[trigger] pair_ok(pairs[i]) by {
                assert(init[i] == pairs[i]);
            }
            assert(!pair_ok(pairs[n]));
        } else {
            let i = choose|i: int| 0 <= i < init.len() && !#[trigger] pair_ok(init[i]);
            assert(init[i] == pairs[i]);
        }
    }
    if all_ok(pairs) {
        assert forall|i: int| 0 <= i < init.len() implies #[trigger] pair_ok(init[i]) by {
            assert(init[i] == pairs[i]);
        }
        assert(pair_ok(pairs[n]));
        let st0 = scan_args(init)->Ok_0;
        let v = opt_view(p.value)->0;
        let st = scan_args(pairs)->Ok_0;
        if key_is(p, "target"@) {
            lemma_slot_last(pairs, "target"@, v);
            lemma_slot_other(pairs, "method"@, st0.method);
            lemma_slot_other(pairs, "at"@, st0.at);
            lemma_slot_other(pairs, "class"@, st0.class);
        } else if key_is(p, "method"@) {
            lemma_slot_other(pairs, "target"@, st0.target);
            lemma_slot_last(pairs, "method"@, v);
            lemma_slot_other(pairs, "at"@, st0.at);
            lemma_slot_other(pairs, "class"@, st0.class);
        } else if key_is(p, "at"@) {
            lemma_slot_other(pairs, "target"@, st0.target);
            lemma_slot_other(pairs, "method"@, st0.method);
            lemma_slot_last(pairs, "at"@, v);
            lemma_slot_other(pairs, "class"@, st0.class);
        } else {
            lemma_slot_other(pairs, "target"@, st0.target);
            lemma_slot_other(pairs, "method"@, st0.method);
            lemma_slot_other(pairs, "at"@, st0.at);
            lemma_slot_last(pairs, "class"@, v);
        }
    }
    assert forall|i: int| #[trigger] first_refused(pairs, i) implies scan_args(pairs) == Err::<
        ArgSlots,
        InjectArgsError,
    >(refusal(pairs[i], i)) by {
        if i < n {
            assert(init[i] == pairs[i]);
            assert forall|j: int| 0 <= j < i implies #[trigger] pair_ok(init[j]) by {
                assert(init[j] == pairs[j]);
                assert(pair_ok(pairs[j]));
            }
            assert(first_refused(init, i));
        } else {
            assert forall|j: int| 0 <= j < init.len() implies #[trigger] pair_ok(init[j]) by {
                assert(init[j] == pairs[j]);
                assert(pair_ok(pairs[j]));
            }
            assert(all_ok(init));
        }
    }
}

/// What the attribute's arguments mean. The first refused argument decides
/// the error. When all are accepted: without a `target` the error is
/// `MissingTarget`, then without a `method` `MissingMethod`, then without a
/// `class` `MissingClass`; otherwise the result holds, for each of `target`,
/// `method` and `class`, the value of the last argument with that key, and
/// for `at` the last such value or `HEAD` when none is given.
pub proof fn lemma_resolve_meaning(pairs: Seq<ArgPair>)
    ensures
        forall|i: int| #[trigger] first_refused(pairs, i) ==> resolve_args(pairs) == Err::<
            (Seq<char>, Seq<char>, Seq<char>, Seq<char>),
            InjectArgsError,
        >(refusal(pairs[i], i)),
        resolve_args(pairs) is Ok ==> all_ok(pairs),
        all_ok(pairs) && !has_key(pairs, "target"@) ==> resolve_args(pairs) == Err::<
            (Seq<char>, Seq<char>, Seq<char>, Seq<char>),
            InjectArgsError,
        >(InjectArgsError::MissingTarget),
        all_ok(pairs) && has_key(pairs, "target"@) && !has_key(pairs, "method"@) ==> resolve_args(pairs)
            == Err::<(Seq<char>, Seq<char>, Seq<char>, Seq<char>), InjectArgsError>(
            InjectArgsError::MissingMethod,
        ),
        all_ok(pairs) && has_key(pairs, "target"@) && has_key(pairs, "method"@) && !has_key(
            pairs,
            "class"@,
        ) ==> resolve_args(pairs) == Err::<(Seq<char>, Seq<char>, Seq<char>, Seq<char>), InjectArgsError>(
            InjectArgsError::MissingClass,
        ),
        all_ok(pairs) && has_key(pairs, "target"@) && has_key(pairs, "method"@) && has_key(pairs, "class"@)
            ==> (resolve_args(pairs) matches Ok(r) && last_value_is(pairs, "target"@, r.0)
            && last_value_is(pairs, "method"@, r.1) && last_value_is(pairs, "class"@, r.3) && (if has_key(
            pairs,
            "at"@,
        ) {
            last_value_is(pairs, "at"@, r.2)
        } else {
            r.2 == "HEAD"@
        })),
{
    lemma_scan_meaning(pairs);
}

/// Character-wise equality of two strings.
pub fn str_eq(a: &str, b: &str) -> (r: bool)
    ensures
        r == (a@ == b@),
{
    let n = a.unicode_len();
    if n != b.unicode_len() {
        return false;
    }
    let mut i: usize = 0;
    while i < n
        invariant
            n == a@.len() == b@.len(),
            i <= n,
            a@.subrange(0, i as int) == b@.subrange(0, i as int),
        decreases n - i,
    {
        if a.get_char(i) != b.get_char(i) {
            assert(a@[i as int] != b@[i as int]);
            return false;
        }
        assert(a@.subrange(0, i + 1) =~= a@.subrange(0, i as int).push(a@[i as int]));
        assert(b@.subrange(0, i + 1) =~= b@.subrange(0, i as int).push(b@[i as int]));
        i = i + 1;
    }
    assert(a@ =~= a@.subrange(0, n as int));
    assert(b@ =~= b@.subrange(0, n as int));
    true
}

fn clone_string(s: &String) -> (r: String)
    ensures
        r@ == s@,
{
    s.clone()
}

/// An owned copy of `s`.
pub(crate) fn clone_str(s: &str) -> (r: String)
    ensures
        r@ == s@,
{
    s.to_owned()
}

impl InjectArgs {
    /// The attribute's arguments, read as `#[inject]` reads them. The bare
    /// attribute, with no arguments, is accepted and gives `None`: the
    /// function is then only exported as a JNI shim, its Mixin being
    /// described by a `MixinClass` impl in the builder. Given arguments
    /// name the injection point, which the shim then records.
    pub fn from_pairs(pairs: &Vec<ArgPair>) -> (r: Result<Option<InjectArgs>, InjectArgsError>)
        ensures
            pairs@.len() == 0 ==> r matches Ok(None),
            forall|i: int| #[trigger] first_refused(pairs@, i) ==> (r matches Err(e) && e == refusal(
                pairs@[i],
                i,
            )),
            pairs@.len() > 0 && all_ok(pairs@) && !has_key(pairs@, "target"@) ==> r matches Err(
                InjectArgsError::MissingTarget,
            ),
            pairs@.len() > 0 && all_ok(pairs@) && has_key(pairs@, "target"@) && !has_key(
                pairs@,
                "method"@,
            ) ==> r matches Err(InjectArgsError::MissingMethod),
            pairs@.len() > 0 && all_ok(pairs@) && has_key(pairs@, "target"@) && has_key(
                pairs@,
                "method"@,
            ) && !has_key(pairs@, "class"@) ==> r matches Err(InjectArgsError::MissingClass),
            r matches Ok(Some(a)) ==> all_ok(pairs@) && last_value_is(pairs@, "target"@, a.target@)
                && last_value_is(pairs@, "method"@, a.method@) && last_value_is(
                pairs@,
                "class"@,
                a.class@,
            ) && (if has_key(pairs@, "at"@) {
                last_value_is(pairs@, "at"@, a.at@)
            } else {
                a.at@ == "HEAD"@
            }),
            pairs@.len() > 0 && all_ok(pairs@) && has_key(pairs@, "target"@) && has_key(
                pairs@,
                "method"@,
            ) && has_key(pairs@, "class"@) ==> r matches Ok(Some(_)),
            pairs@.len() > 0 ==> match r {
                Ok(Some(a)) => resolve_args(pairs@) == Ok::<
                    (Seq<char>, Seq<char>, Seq<char>, Seq<char>),
                    InjectArgsError,
                >((a.target@, a.method@, a.at@, a.class@)),
                Ok(None) => false,
                Err(e) => resolve_args(pairs@) == Err::<
                    (Seq<char>, Seq<char>, Seq<char>, Seq<char>),
                    InjectArgsError,
                >(e),
            },
    {
        proof {
            lemma_resolve_meaning(pairs@);
        }
        if pairs.len() == 0 {
            return Ok(None);
        }
        let mut target: Option<String> = None;
        let mut method: Option<String> = None;
        let mut at: Option<String> = None;
        let mut class: Option<String> = None;
        let mut i: usize = 0;
        while i < pairs.len()
            invariant
                i <= pairs.len(),
                scan_args(pairs@.subrange(0, i as int)) == Ok::<ArgSlots, InjectArgsError>(
                    ArgSlots {
                        target: opt_view(target),
                        method: opt_view(method),
                        at: opt_view(at),
                        class: opt_view(class),
                    },
                ),
            decreases pairs.len() - i,
        {
            proof {
                assert(pairs@.subrange(0, i + 1).drop_last() =~= pairs@.subrange(0, i as int));
                assert(pairs@.subrange(0, i + 1).last() == pairs@[i as int]);
            }
            let p = &pairs[i];
            let key = match &p.key {
                Some(k) => k,
                None => {
                    proof {
                        lemma_scan_err_prefix(pairs@, i as int + 1);
                        lemma_resolve_meaning(pairs@);
                    }
                    return Err(InjectArgsError::ExpectedIdentifier(i));
                },
            };
            let value = match &p.value {
                Some(v) => clone_string(v),
                None => {
                    proof {
                        lemma_scan_err_prefix(pairs@, i as int + 1);
                        lemma_resolve_meaning(pairs@);
                    }
                    return Err(InjectArgsError::ExpectedStringLiteral(i));
                },
            };
            if str_eq(key.as_str(), "target") {
                target = Some(value);
            } else if str_eq(key.as_str(), "method") {
                method = Some(value);
            } else if str_eq(key.as_str(), "at") {
                at = Some(value);
            } else if str_eq(key.as_str(), "class") {
                class = Some(value);
            } else {
                proof {
                    lemma_scan_err_prefix(pairs@, i as int + 1);
                    lemma_resolve_meaning(pairs@);
                }
                return Err(InjectArgsError::UnknownArgument(i));
            }
            i = i + 1;
        }
        assert(pairs@.subrange(0, pairs@.len() as int) =~= pairs@);
        proof {
            lemma_resolve_meaning(pairs@);
        }
        let target = match target {
            Some(t) => t,
            None => {
                return Err(InjectArgsError::MissingTarget);
            },
        };
        let method = match method {
            Some(m) => m,
            None => {
                return Err(InjectArgsError::MissingMethod);
            },
        };
        let at = match at {
            Some(a) => a,
            None => "HEAD".to_owned(),
        };
        let class = match class {
            Some(c) => c,
            None => {
                return Err(InjectArgsError::MissingClass);
            },
        };
        Ok(Some(InjectArgs { target, method, at, class }))
    }
}

/// An error on a prefix of the arguments is the error on all of them.
proof fn lemma_scan_err_prefix(pairs: Seq<ArgPair>, n: int)
    requires
        0 <= n <= pairs.len(),
        scan_args(pairs.subrange(0, n)) is Err,
    ensures
        scan_args(pairs) == scan_args(pairs.subrange(0, n)),
    decreases pairs.len() - n,
{
    if n == pairs.len() {
        assert(pairs.subrange(0, n) =~= pairs);
    } else {
        assert(pairs.subrange(0, n + 1).drop_last() =~= pairs.subrange(0, n));
        lemma_scan_err_prefix(pairs, n + 1);
    }
}

/// The exported symbol the JVM binds `NativePayloads.<fn_name>` to:
/// `Java_com_example_runtime_NativePayloads_` followed by the JNI escape of `fn_name`.
pub fn jni_symbol_name(fn_name: &str) -> (r: String)
    ensures
        r@ == "Java_"@ + JNI_NATIVE_OWNER@ + seq!['_'] + escape_chars(fn_name@),
{
    let mut s = "Java_".to_owned();
    s.append(JNI_NATIVE_OWNER);
    crate::text::push_char(&mut s, '_');
    let e = jni_escape(fn_name);
    s.append(e.as_str());
    s
}

/// The metadata record `#[inject]` emits for function `fn_name`.
pub fn inject_record(fn_name: &str, args: &InjectArgs) -> (r: Vec<u8>)
    ensures
        r@ == record_bytes(
            InjectMetaView {
                fn_name: fn_name@,
                target: args.target@,
                method: args.method@,
                at: args.at@,
                class: args.class@,
            },
        ),
{
    encode_inject_record(
        fn_name,
        args.target.as_str(),
        args.method.as_str(),
        args.at.as_str(),
        args.class.as_str(),
    )
}

/// The symbol the JVM looks up for `native` method `method` of class
/// `class_internal` (JNI short name): `Java_`, the escaped class name, `_`,
/// the escaped method name.
pub open spec fn jvm_native_symbol(class_internal: Seq<char>, method: Seq<char>) -> Seq<char> {
    "Java_"@ + escape_chars(class_internal) + seq!['_'] + escape_chars(method)
}

/// What `#[inject]` exports for `fn_name` is what the JVM looks up for
/// `NativePayloads.<fn_name>()`, so the declaration binds to the Rust shim.
pub proof fn lemma_exported_symbol_binds(fn_name: Seq<char>)
    ensures
        "Java_"@ + JNI_NATIVE_OWNER@ + seq!['_'] + escape_chars(fn_name) == jvm_native_symbol(
            crate::names::NATIVE_PAYLOADS_OWNER@,
            fn_name,
        ),
{
    crate::jni::lemma_jni_owner_in_step();
}

} // verus!

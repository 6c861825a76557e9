//! JNI "short name" mangling of Java identifiers (JNI specification §2.2 /
//! §13.2) and the exported symbol names of native methods.

use vstd::prelude::*;
use crate::text::{chars_of, push_char};

verus! {

/// ASCII letters and digits: the characters that pass through unescaped.
pub open spec fn is_ascii_alnum(c: char) -> bool {
    ('a' <= c && c <= 'z') || ('A' <= c && c <= 'Z') || ('0' <= c && c <= '9')
}

/// The UTF-16 code units of a Unicode scalar value.
pub open spec fn utf16_units(c: char) -> Seq<u16> {
    let v = c as u32;
    if v < 0x10000 {
        seq![v as u16]
    } else {
        let w = (v - 0x10000) as u32;
        seq![(0xD800 + w / 0x400) as u16, (0xDC00 + w % 0x400) as u16]
    }
}

/// Lower-case hexadecimal digit of a value below 16.
pub open spec fn hex_digit(n: u16) -> char {
    if n < 10 { ((n + 48) as u8) as char } else { ((n - 10 + 97) as u8) as char }
}

/// `_0` followed by the four lower-case hex digits of a UTF-16 unit.
pub open spec fn escape_unit(u: u16) -> Seq<char> {
    seq![
        '_',
        '0',
        hex_digit(u / 0x1000),
        hex_digit((u / 0x100) % 16),
        hex_digit((u / 0x10) % 16),
        hex_digit(u % 16),
    ]
}

/// Escapes of a sequence of UTF-16 units, concatenated.
pub open spec fn escape_units(us: Seq<u16>) -> Seq<char>
    decreases us.len(),
{
    if us.len() == 0 {
        Seq::empty()
    } else {
        escape_units(us.drop_last()) + escape_unit(us.last())
    }
}

/// The JNI escape of one character.
pub open spec fn escape_char(c: char) -> Seq<char> {
    if c == '_' {
        seq!['_', '1']
    } else if c == ';' {
        seq!['_', '2']
    } else if c == '[' {
        seq!['_', '3']
    } else if c == '/' || c == '.' {
        seq!['_']
    } else if is_ascii_alnum(c) {
        seq![c]
    } else {
        escape_units(utf16_units(c))
    }
}

/// The JNI escape of a character sequence: the escapes of its characters, in order.
pub open spec fn escape_chars(s: Seq<char>) -> Seq<char>
    decreases s.len(),
{
    if s.len() == 0 {
        Seq::empty()
    } else {
        escape_chars(s.drop_last()) + escape_char(s.last())
    }
}

fn hex_digit_exec(n: u16) -> (c: char)
    requires
        n < 16,
    ensures
        c == hex_digit(n),
{
    if n < 10 {
        ((n + 48) as u8) as char
    } else {
        ((n - 10 + 97) as u8) as char
    }
}

fn push_unit_escape(out: &mut String, u: u16)
    ensures
        final(out)@ == old(out)@ + escape_unit(u),
{
    push_char(out, '_');
    push_char(out, '0');
    push_char(out, hex_digit_exec(u / 0x1000));
    push_char(out, hex_digit_exec((u / 0x100) % 16));
    push_char(out, hex_digit_exec((u / 0x10) % 16));
    push_char(out, hex_digit_exec(u % 16));
}

/// UTF-16 units of a character, as `char::encode_utf16` yields them.
pub fn encode_utf16(c: char) -> (us: Vec<u16>)
    ensures
        us@ == utf16_units(c),
{
    let v = c as u32;
    let mut us: Vec<u16> = Vec::new();
    if v < 0x10000 {
        us.push(v as u16);
    } else {
        let w = v - 0x10000;
        assert(w < 0x100000) by {
            vstd::utf8::char_is_scalar(c);
        }
        us.push((0xD800 + w / 0x400) as u16);
        us.push((0xDC00 + w % 0x400) as u16);
    }
    us
}

fn push_char_escape(out: &mut String, c: char)
    ensures
        final(out)@ == old(out)@ + escape_char(c),
{
    if c == '_' {
        push_char(out, '_');
        push_char(out, '1');
    } else if c == ';' {
        push_char(out, '_');
        push_char(out, '2');
    } else if c == '[' {
        push_char(out, '_');
        push_char(out, '3');
    } else if c == '/' || c == '.' {
        push_char(out, '_');
    } else if ('a' <= c && c <= 'z') || ('A' <= c && c <= 'Z') || ('0' <= c && c <= '9') {
        push_char(out, c);
    } else {
        let us = encode_utf16(c);
        let ghost start = out@;
        let mut i: usize = 0;
        while i < us.len()
            invariant
                i <= us.len(),
                out@ == start + escape_units(us@.subrange(0, i as int)),
            decreases us.len() - i,
        {
            let ghost prev = out@;
            push_unit_escape(out, us[i]);
            proof {
                let t = us@.subrange(0, i + 1);
                assert(t.drop_last() =~= us@.subrange(0, i as int));
                assert(out@ =~= start + escape_units(t));
            }
            i = i + 1;
        }
        assert(us@.subrange(0, us@.len() as int) =~= us@);
    }
}

/// JNI short-name escape of `s`: `_` → `_1`, `;` → `_2`, `[` → `_3`,
/// `/` and `.` → `_`, ASCII letters and digits unchanged, and every other
/// character as `_0xxxx` per UTF-16 unit (four lower-case hex digits).
pub fn jni_escape(s: &str) -> (r: String)
    ensures
        r@ == escape_chars(s@),
{
    let cs = chars_of(s);
    let mut out = String::new();
    let mut i: usize = 0;
    while i < cs.len()
        invariant
            i <= cs.len(),
            cs@ == s@,
            out@ == escape_chars(cs@.subrange(0, i as int)),
        decreases cs.len() - i,
    {
        push_char_escape(&mut out, cs[i]);
        proof {
            let t = cs@.subrange(0, i + 1);
            assert(t.drop_last() =~= cs@.subrange(0, i as int));
        }
        i = i + 1;
    }
    assert(cs@.subrange(0, cs@.len() as int) =~= cs@);
    out
}

/// Every character is an ASCII letter or digit, or `/`: a JVM internal name
/// of a class in the default character set.
pub open spec fn is_plain_internal_name(s: Seq<char>) -> bool {
    forall|i: int| 0 <= i < s.len() ==> is_ascii_alnum(#[trigger] s[i]) || s[i] == '/'
}

/// `s` with every `/` replaced by `_`.
pub open spec fn slashes_to_underscores(s: Seq<char>) -> Seq<char> {
    Seq::new(s.len(), |i: int| if s[i] == '/' { '_' } else { s[i] })
}

/// For a plain internal class name the JNI escape only turns `/` into `_`.
pub proof fn lemma_escape_plain_internal_name(s: Seq<char>)
    requires
        is_plain_internal_name(s),
    ensures
        escape_chars(s) == slashes_to_underscores(s),
    decreases s.len(),
{
    if s.len() > 0 {
        let init = s.drop_last();
        assert(is_plain_internal_name(init)) by {
            assert forall|i: int| 0 <= i < init.len() implies is_ascii_alnum(#[trigger] init[i])
                || init[i] == '/' by {
                assert(init[i] == s[i]);
            }
        }
        lemma_escape_plain_internal_name(init);
        assert(is_ascii_alnum(s[s.len() - 1]) || s[s.len() - 1] == '/');
        assert(slashes_to_underscores(init).push(
            if s.last() == '/' { '_' } else { s.last() },
        ) =~= slashes_to_underscores(s));
    } else {
        assert(slashes_to_underscores(s) =~= Seq::<char>::empty());
    }
}

/// The holder class name and the symbol prefix are kept in step: the JNI
/// escape of `com/example/runtime/NativePayloads` is
/// `com_example_runtime_NativePayloads`.
pub proof fn lemma_jni_owner_in_step()
    ensures
        escape_chars(crate::names::NATIVE_PAYLOADS_OWNER@) == crate::names::JNI_NATIVE_OWNER@,
{
    reveal_strlit("com/example/runtime/NativePayloads");
    reveal_strlit("com_example_runtime_NativePayloads");
    let s = crate::names::NATIVE_PAYLOADS_OWNER@;
    assert(is_plain_internal_name(s));
    lemma_escape_plain_internal_name(s);
    assert(slashes_to_underscores(s) =~= crate::names::JNI_NATIVE_OWNER@);
}

/// A character that may follow `Java_` in a C symbol: ASCII letter, digit or `_`.
pub open spec fn is_symbol_char(c: char) -> bool {
    is_ascii_alnum(c) || c == '_'
}

proof fn lemma_hex_digit_alnum(n: u16)
    requires
        n < 16,
    ensures
        is_ascii_alnum(hex_digit(n)),
{
    let b: u8 = if n < 10 { (n + 48) as u8 } else { (n - 10 + 97) as u8 };
    assert(hex_digit(n) == b as char);
    assert(b as char as u32 == b as u32);
}

proof fn lemma_escape_units_symbol_chars(us: Seq<u16>)
    ensures
        forall|i: int| 0 <= i < escape_units(us).len() ==> is_symbol_char(#[trigger] escape_units(us)[i]),
    decreases us.len(),
{
    if us.len() > 0 {
        lemma_escape_units_symbol_chars(us.drop_last());
        let u = us.last();
        lemma_hex_digit_alnum(u / 0x1000);
        lemma_hex_digit_alnum((u / 0x100) % 16);
        lemma_hex_digit_alnum((u / 0x10) % 16);
        lemma_hex_digit_alnum(u % 16);
        let a = escape_units(us.drop_last());
        let b = escape_unit(u);
        assert forall|i: int| 0 <= i < (a + b).len() implies is_symbol_char(#[trigger] (a + b)[i]) by {
            if i < a.len() {
                assert((a + b)[i] == a[i]);
            } else {
                assert((a + b)[i] == b[i - a.len()]);
            }
        }
    }
}

/// The JNI escape of any string is made of ASCII letters, digits and `_`
/// only, so `Java_<owner>_<escape>` is always a valid C identifier.
pub proof fn lemma_escape_symbol_chars(s: Seq<char>)
    ensures
        forall|i: int| 0 <= i < escape_chars(s).len() ==> is_symbol_char(#[trigger] escape_chars(s)[i]),
    decreases s.len(),
{
    if s.len() > 0 {
        lemma_escape_symbol_chars(s.drop_last());
        let c = s.last();
        lemma_escape_units_symbol_chars(utf16_units(c));
        let a = escape_chars(s.drop_last());
        let b = escape_char(c);
        assert forall|i: int| 0 <= i < (a + b).len() implies is_symbol_char(#[trigger] (a + b)[i]) by {
            if i < a.len() {
                assert((a + b)[i] == a[i]);
            } else {
                assert((a + b)[i] == b[i - a.len()]);
            }
        }
    }
}

} // verus!

//! Where the payload cdylibs come from and where they go in the jar.

use vstd::prelude::*;
use crate::record::{split, split_prefix};
use crate::text::{
    chars_of, ends_with, str_ends_with, string_from_chars, trim, trim_chars, push_char,
};

verus! {

/// A file name with a shared-library extension: `.so`, `.dll` or `.dylib`.
pub open spec fn is_native_lib_name(name: Seq<char>) -> bool {
    ends_with(name, ".so"@) || ends_with(name, ".dll"@) || ends_with(name, ".dylib"@)
}

/// Whether `name` is a shared-library file name.
pub fn looks_like_native_lib(name: &str) -> (r: bool)
    ensures
        r == is_native_lib_name(name@),
{
    str_ends_with(name, ".so") || str_ends_with(name, ".dll") || str_ends_with(name, ".dylib")
}

/// `s` with every `-` replaced by `_`.
pub open spec fn dashes_to_underscores(s: Seq<char>) -> Seq<char> {
    Seq::new(s.len(), |i: int| if s[i] == '-' { '_' } else { s[i] })
}

/// File name cargo gives the cdylib of target `target_name`: the platform's
/// prefix and suffix around the target name with `-` replaced by `_`.
pub fn native_lib_filename(prefix: &str, target_name: &str, suffix: &str) -> (r: String)
    ensures
        r@ == prefix@ + dashes_to_underscores(target_name@) + suffix@,
{
    let cs = chars_of(target_name);
    let mut out = prefix.to_owned();
    let ghost start = out@;
    let mut i: usize = 0;
    while i < cs.len()
        invariant
            i <= cs@.len(),
            cs@ == target_name@,
            out@ == start + dashes_to_underscores(cs@.subrange(0, i as int)),
        decreases cs@.len() - i,
    {
        let c = if cs[i] == '-' { '_' } else { cs[i] };
        push_char(&mut out, c);
        assert(dashes_to_underscores(cs@.subrange(0, i + 1)) =~= dashes_to_underscores(
            cs@.subrange(0, i as int),
        ).push(c));
        i = i + 1;
    }
    assert(cs@.subrange(0, cs@.len() as int) =~= cs@);
    out.append(suffix);
    out
}

/// `<os>-<arch>`.
pub open spec fn platform_key_of(os: Seq<char>, arch: Seq<char>) -> Seq<char> {
    os + seq!['-'] + arch
}

/// `native/<platform>/<file name>`.
pub open spec fn lib_entry_of(platform: Seq<char>, lib_filename: Seq<char>) -> Seq<char> {
    "native/"@ + platform + seq!['/'] + lib_filename
}

/// `<os>-<arch>`, the platform key of a native library in the jar.
pub fn platform_key(os: &str, arch: &str) -> (r: String)
    ensures
        r@ == platform_key_of(os@, arch@),
{
    let mut s = os.to_owned();
    push_char(&mut s, '-');
    s.append(arch);
    s
}

/// Jar entry of a native library: `native/<platform>/<file name>`.
pub fn native_lib_entry(platform: &str, lib_filename: &str) -> (r: String)
    ensures
        r@ == lib_entry_of(platform@, lib_filename@),
{
    let mut s = "native/".to_owned();
    s.append(platform);
    push_char(&mut s, '/');
    s.append(lib_filename);
    s
}

/// Jar entry of a class: `<internal name>.class`.
pub fn class_entry(internal: &str) -> (r: String)
    ensures
        r@ == internal@ + ".class"@,
{
    let mut s = internal.to_owned();
    s.append(".class");
    s
}

/// One `platform=dir` entry of `NATIVE_LIB_DIRS`.
pub enum LibDirEntry {
    Dir { platform: String, dir: String },
    /// An entry without `=`, as written (trimmed).
    Malformed(String),
}

/// What an entry holds, as characters.
pub enum LibDirEntryView {
    Dir { platform: Seq<char>, dir: Seq<char> },
    Malformed(Seq<char>),
}

impl LibDirEntry {
    pub open spec fn view(&self) -> LibDirEntryView {
        match self {
            LibDirEntry::Dir { platform, dir } => LibDirEntryView::Dir {
                platform: platform@,
                dir: dir@,
            },
            LibDirEntry::Malformed(e) => LibDirEntryView::Malformed(e@),
        }
    }
}

#[derive(Debug)]
pub enum NativeLibsError {
    /// `NATIVE_LIB_DIRS` holds no entry at all.
    NoEntries,
    /// A directory holds no `.so` / `.dll` / `.dylib` file.
    NoNativeLib,
    /// The workspace has no package named `native-payloads`.
    PackageNotFound,
    /// That package has no example target built as a cdylib.
    NoCdylibTarget,
}

/// Index of the first `c` in `s`.
pub open spec fn find_first(s: Seq<char>, c: char) -> Option<int>
    decreases s.len(),
{
    if s.len() == 0 {
        None
    } else {
        match find_first(s.drop_last(), c) {
            Some(i) => Some(i),
            None => if s.last() == c {
                Some(s.len() - 1)
            } else {
                None
            },
        }
    }
}

/// A trimmed entry: split at its first `=` into trimmed platform and directory.
pub open spec fn parse_entry(e: Seq<char>) -> LibDirEntryView {
    match find_first(e, '=') {
        Some(k) => LibDirEntryView::Dir {
            platform: trim(e.subrange(0, k)),
            dir: trim(e.subrange(k + 1, e.len() as int)),
        },
        None => LibDirEntryView::Malformed(e),
    }
}

/// The non-empty trimmed pieces between commas, parsed, in order.
pub open spec fn parse_entries(pieces: Seq<Seq<char>>) -> Seq<LibDirEntryView>
    decreases pieces.len(),
{
    if pieces.len() == 0 {
        Seq::empty()
    } else {
        let e = trim(pieces.last());
        if e.len() == 0 {
            parse_entries(pieces.drop_last())
        } else {
            parse_entries(pieces.drop_last()).push(parse_entry(e))
        }
    }
}

/// The entries of a `NATIVE_LIB_DIRS` value such as
/// `linux-x86_64=path1,windows-x86_64=path2`.
pub open spec fn lib_dir_entries(value: Seq<char>) -> Seq<LibDirEntryView> {
    parse_entries(split(value, ','))
}

pub open spec fn char_views(v: Seq<Vec<char>>) -> Seq<Seq<char>> {
    Seq::new(v.len(), |i: int| v[i]@)
}

fn split_chars(v: &Vec<char>, sep: char) -> (r: Vec<Vec<char>>)
    ensures
        char_views(r@) == split(v@, sep),
{
    let mut done: Vec<Vec<char>> = Vec::new();
    let mut cur: Vec<char> = Vec::new();
    let mut i: usize = 0;
    while i < v.len()
        invariant
            i <= v.len(),
            (char_views(done@), cur@) == split_prefix(v@.subrange(0, i as int), sep),
        decreases v.len() - i,
    {
        let ghost prev = char_views(done@);
        proof {
            assert(v@.subrange(0, i + 1).drop_last() =~= v@.subrange(0, i as int));
        }
        if v[i] == sep {
            let piece = cur;
            cur = Vec::new();
            done.push(piece);
            assert(char_views(done@) =~= prev.push(piece@));
        } else {
            cur.push(v[i]);
            assert(char_views(done@) =~= prev);
        }
        i = i + 1;
    }
    let ghost prev = char_views(done@);
    let last = cur;
    done.push(last);
    assert(char_views(done@) =~= prev.push(last@));
    assert(v@.subrange(0, v@.len() as int) =~= v@);
    done
}

fn find_first_exec(v: &Vec<char>, c: char) -> (r: Option<usize>)
    ensures
        match r {
            Some(k) => find_first(v@, c) == Some(k as int) && k < v@.len(),
            None => find_first(v@, c) is None,
        },
{
    let mut i: usize = 0;
    while i < v.len()
        invariant
            i <= v.len(),
            find_first(v@.subrange(0, i as int), c) is None,
        decreases v.len() - i,
    {
        assert(v@.subrange(0, i + 1).drop_last() =~= v@.subrange(0, i as int));
        if v[i] == c {
            proof {
                lemma_find_first_prefix(v@, i as int + 1, c);
            }
            return Some(i);
        }
        i = i + 1;
    }
    assert(v@.subrange(0, v@.len() as int) =~= v@);
    None
}

proof fn lemma_find_first_prefix(s: Seq<char>, n: int, c: char)
    requires
        0 <= n <= s.len(),
        find_first(s.subrange(0, n), c) is Some,
    ensures
        find_first(s, c) == find_first(s.subrange(0, n), c),
    decreases s.len() - n,
{
    if n == s.len() {
        assert(s.subrange(0, n) =~= s);
    } else {
        assert(s.subrange(0, n + 1).drop_last() =~= s.subrange(0, n));
        lemma_find_first_prefix(s, n + 1, c);
    }
}

fn parse_entry_exec(e: &Vec<char>) -> (r: LibDirEntry)
    ensures
        r.view() == parse_entry(e@),
{
    match find_first_exec(e, '=') {
        Some(k) => {
            let n = e.len();
            let platform = trim_chars(e, 0, k);
            let dir = trim_chars(e, k + 1, n);
            LibDirEntry::Dir {
                platform: string_from_chars(&platform),
                dir: string_from_chars(&dir),
            }
        },
        None => LibDirEntry::Malformed(string_from_chars(e)),
    }
}

/// The entries of `NATIVE_LIB_DIRS=<value>`: comma-separated, each trimmed,
/// empty ones skipped, each split at its first `=` into a trimmed platform
/// key and a trimmed directory, or kept as malformed when it has no `=`.
/// `NoEntries` when there is none at all.
pub fn parse_native_lib_dirs(value: &str) -> (r: Result<Vec<LibDirEntry>, NativeLibsError>)
    ensures
        lib_dir_entries(value@).len() == 0 <==> r is Err,
        r matches Ok(v) ==> v@.len() == lib_dir_entries(value@).len() && forall|i: int|
            0 <= i < v@.len() ==> #[trigger] v@[i].view() == lib_dir_entries(value@)[i],
{
    let cs = chars_of(value);
    let pieces = split_chars(&cs, ',');
    let ghost ps = split(value@, ',');
    let mut out: Vec<LibDirEntry> = Vec::new();
    let mut i: usize = 0;
    assert(ps.subrange(0, 0) =~= Seq::<Seq<char>>::empty());
    while i < pieces.len()
        invariant
            i <= pieces.len(),
            char_views(pieces@) == ps,
            out@.len() == parse_entries(ps.subrange(0, i as int)).len(),
            forall|k: int|
                0 <= k < out@.len() ==> #[trigger] out@[k].view() == parse_entries(
                    ps.subrange(0, i as int),
                )[k],
        decreases pieces.len() - i,
    {
        proof {
            assert(ps.subrange(0, i + 1).drop_last() =~= ps.subrange(0, i as int));
            assert(ps.subrange(0, i + 1).last() == pieces@[i as int]@);
            assert(pieces@[i as int]@.subrange(0, pieces@[i as int]@.len() as int)
                =~= pieces@[i as int]@);
        }
        let e = trim_chars(&pieces[i], 0, pieces[i].len());
        if e.len() > 0 {
            let entry = parse_entry_exec(&e);
            out.push(entry);
        }
        i = i + 1;
    }
    assert(ps.subrange(0, pieces@.len() as int) =~= ps);
    if out.len() == 0 {
        return Err(NativeLibsError::NoEntries);
    }
    Ok(out)
}

/// Indices of the shared-library files among the file names of one
/// directory, in order; `NoNativeLib` when there is none.
pub fn pick_native_libs(names: &Vec<String>) -> (r: Result<Vec<usize>, NativeLibsError>)
    ensures
        r matches Ok(v) ==> v@.len() > 0 && (forall|k: int|
            0 <= k < v@.len() ==> v@[k] < names@.len() && is_native_lib_name(
                names@[v@[k] as int]@,
            )) && (forall|j: int|
            0 <= j < names@.len() && is_native_lib_name(#[trigger] names@[j]@) ==> v@.contains(
                j as usize,
            )) && (forall|a: int, b: int| 0 <= a < b < v@.len() ==> v@[a] < v@[b]),
        r is Err ==> forall|j: int| 0 <= j < names@.len() ==> !is_native_lib_name(#[trigger] names@[j]@),
{
    let mut v: Vec<usize> = Vec::new();
    let mut i: usize = 0;
    while i < names.len()
        invariant
            i <= names@.len(),
            forall|k: int|
                0 <= k < v@.len() ==> v@[k] < i && is_native_lib_name(names@[v@[k] as int]@),
            forall|j: int|
                0 <= j < i && is_native_lib_name(#[trigger] names@[j]@) ==> v@.contains(j as usize),
            forall|a: int, b: int| 0 <= a < b < v@.len() ==> v@[a] < v@[b],
        decreases names@.len() - i,
    {
        if looks_like_native_lib(names[i].as_str()) {
            let ghost prev = v@;
            v.push(i);
            proof {
                assert forall|j: int|
                    0 <= j <= i && is_native_lib_name(#[trigger] names@[j]@) implies v@.contains(
                    j as usize,
                ) by {
                    if j < i {
                        let k = choose|k: int| 0 <= k < prev.len() && prev[k] == j as usize;
                        assert(v@[k] == j as usize);
                    } else {
                        assert(v@[prev.len() as int] == i);
                    }
                }
            }
        }
        i = i + 1;
    }
    if v.len() == 0 {
        proof {
            assert forall|j: int| 0 <= j < names@.len() implies !is_native_lib_name(
                #[trigger] names@[j]@,
            ) by {
                if is_native_lib_name(names@[j]@) {
                    assert(v@.contains(j as usize));
                }
            }
        }
        return Err(NativeLibsError::NoNativeLib);
    }
    Ok(v)
}

/// The loader's library base name is the cdylib stem cargo derives from the
/// payload package: `native-payloads` with `-` replaced by `_`.
pub proof fn lemma_lib_basename_in_step()
    ensures
        dashes_to_underscores(crate::names::NATIVES_PACKAGE@)
            == crate::names::NATIVE_LIB_BASENAME@,
{
    reveal_strlit("native-payloads");
    reveal_strlit("native_payloads");
    assert(dashes_to_underscores(crate::names::NATIVES_PACKAGE@)
        =~= crate::names::NATIVE_LIB_BASENAME@);
}

/// `s` has no leading and no trailing whitespace.
pub open spec fn is_trimmed(s: Seq<char>) -> bool {
    s.len() == 0 || (!crate::text::is_whitespace(s[0]) && !crate::text::is_whitespace(s.last()))
}

proof fn lemma_trim_start_shape(s: Seq<char>)
    ensures
        exists|i: int| 0 <= i <= s.len() && crate::text::trim_start(s) == s.subrange(i, s.len() as int),
        crate::text::trim_start(s).len() == 0 || !crate::text::is_whitespace(crate::text::trim_start(s)[0]),
    decreases s.len(),
{
    if s.len() > 0 && crate::text::is_whitespace(s[0]) {
        let t = s.drop_first();
        lemma_trim_start_shape(t);
        let i = choose|i: int| 0 <= i <= t.len() && crate::text::trim_start(t) == t.subrange(i, t.len() as int);
        assert(t.subrange(i, t.len() as int) =~= s.subrange(i + 1, s.len() as int));
    } else {
        assert(s.subrange(0, s.len() as int) =~= s);
    }
}

proof fn lemma_trim_end_shape(s: Seq<char>)
    ensures
        exists|j: int| 0 <= j <= s.len() && crate::text::trim_end(s) == s.subrange(0, j),
        crate::text::trim_end(s).len() == 0 || !crate::text::is_whitespace(crate::text::trim_end(s).last()),
    decreases s.len(),
{
    if s.len() > 0 && crate::text::is_whitespace(s.last()) {
        let t = s.drop_last();
        lemma_trim_end_shape(t);
        let j = choose|j: int| 0 <= j <= t.len() && crate::text::trim_end(t) == t.subrange(0, j);
        assert(t.subrange(0, j) =~= s.subrange(0, j));
    } else {
        assert(s.subrange(0, s.len() as int) =~= s);
    }
}

/// `trim` gives a trimmed piece of its input.
proof fn lemma_trim_shape(s: Seq<char>)
    ensures
        is_trimmed(crate::text::trim(s)),
        forall|c: char| #[trigger] crate::text::trim(s).contains(c) ==> s.contains(c),
{
    lemma_trim_start_shape(s);
    let t = crate::text::trim_start(s);
    lemma_trim_end_shape(t);
    let i = choose|i: int| 0 <= i <= s.len() && t == s.subrange(i, s.len() as int);
    let j = choose|j: int| 0 <= j <= t.len() && crate::text::trim_end(t) == t.subrange(0, j);
    let r = crate::text::trim(s);
    if r.len() > 0 {
        assert(r[0] == t[0]);
    }
    assert forall|c: char| #[trigger] r.contains(c) implies s.contains(c) by {
        let k = choose|k: int| 0 <= k < r.len() && r[k] == c;
        assert(s[i + k] == c);
    }
}

/// The pieces `split` gives hold no separator.
proof fn lemma_split_prefix_free(s: Seq<char>, sep: char)
    ensures
        forall|k: int| 0 <= k < split_prefix(s, sep).0.len() ==> !(#[trigger] split_prefix(s, sep).0[k]).contains(sep),
        !split_prefix(s, sep).1.contains(sep),
    decreases s.len(),
{
    if s.len() > 0 {
        lemma_split_prefix_free(s.drop_last(), sep);
        let (done, cur) = split_prefix(s.drop_last(), sep);
        if s.last() == sep {
            assert forall|k: int| 0 <= k < done.push(cur).len() implies !(#[trigger] done.push(cur)[k]).contains(sep) by {
                if k < done.len() {
                    assert(done.push(cur)[k] == done[k]);
                }
            }
            assert(!Seq::<char>::empty().contains(sep));
        } else {
            assert forall|i: int| 0 <= i < cur.push(s.last()).len() implies cur.push(s.last())[i] != sep by {
                if i < cur.len() {
                    assert(cur.push(s.last())[i] == cur[i]);
                }
            }
        }
    }
}

proof fn lemma_find_first_meaning(s: Seq<char>, c: char)
    ensures
        find_first(s, c) matches Some(k) ==> 0 <= k < s.len() && s[k] == c && !s.subrange(0, k).contains(c),
        find_first(s, c) is None ==> !s.contains(c),
    decreases s.len(),
{
    if s.len() > 0 {
        let init = s.drop_last();
        lemma_find_first_meaning(init, c);
        match find_first(init, c) {
            Some(k) => {
                assert(s.subrange(0, k) =~= init.subrange(0, k));
                assert(s[k] == init[k]);
            },
            None => {
                if s.last() == c {
                    assert(s.subrange(0, s.len() - 1) =~= init);
                } else {
                    assert forall|i: int| 0 <= i < s.len() implies s[i] != c by {
                        if i < init.len() {
                            assert(init[i] == s[i]);
                        }
                    }
                }
            },
        }
    }
}

/// What an entry of `NATIVE_LIB_DIRS` holds: no entry holds a `,`; a
/// `platform=dir` entry's platform holds no `=` (the entry is split at its
/// first one), and platform and directory are trimmed; an entry without `=`
/// is kept non-empty and trimmed.
pub open spec fn entry_shape(e: LibDirEntryView) -> bool {
    match e {
        LibDirEntryView::Dir { platform, dir } => !platform.contains('=') && !platform.contains(',')
            && !dir.contains(',') && is_trimmed(platform) && is_trimmed(dir),
        LibDirEntryView::Malformed(m) => m.len() > 0 && !m.contains('=') && !m.contains(',')
            && is_trimmed(m),
    }
}

proof fn lemma_parse_entry_shape(e: Seq<char>)
    requires
        e.len() > 0,
        is_trimmed(e),
        !e.contains(','),
    ensures
        entry_shape(parse_entry(e)),
{
    lemma_find_first_meaning(e, '=');
    match find_first(e, '=') {
        Some(k) => {
            let a = e.subrange(0, k);
            let b = e.subrange(k + 1, e.len() as int);
            lemma_trim_shape(a);
            lemma_trim_shape(b);
            assert forall|c: char| a.contains(c) implies e.contains(c) by {
                let i = choose|i: int| 0 <= i < a.len() && a[i] == c;
                assert(e[i] == c);
            }
            assert forall|c: char| b.contains(c) implies e.contains(c) by {
                let i = choose|i: int| 0 <= i < b.len() && b[i] == c;
                assert(e[k + 1 + i] == c);
            }
        },
        None => {},
    }
}

proof fn lemma_parse_entries_shape(pieces: Seq<Seq<char>>)
    requires
        forall|k: int| 0 <= k < pieces.len() ==> !(#[trigger] pieces[k]).contains(','),
    ensures
        forall|i: int| 0 <= i < parse_entries(pieces).len() ==> entry_shape(#[trigger] parse_entries(pieces)[i]),
    decreases pieces.len(),
{
    if pieces.len() > 0 {
        let init = pieces.drop_last();
        assert forall|k: int| 0 <= k < init.len() implies !(#[trigger] init[k]).contains(',') by {
            assert(init[k] == pieces[k]);
        }
        lemma_parse_entries_shape(init);
        let e = crate::text::trim(pieces.last());
        assert(!pieces[pieces.len() - 1].contains(','));
        lemma_trim_shape(pieces.last());
        if e.contains(',') {
            assert(pieces.last().contains(','));
        }
        let d = parse_entries(init);
        if e.len() == 0 {
            assert(parse_entries(pieces) == d);
        } else {
            lemma_parse_entry_shape(e);
            assert(parse_entries(pieces) == d.push(parse_entry(e)));
            assert forall|i: int| 0 <= i < d.push(parse_entry(e)).len() implies entry_shape(
                #[trigger] d.push(parse_entry(e))[i],
            ) by {
                if i < d.len() {
                    assert(d.push(parse_entry(e))[i] == d[i]);
                }
            }
        }
    }
}

/// Every entry read from a `NATIVE_LIB_DIRS` value has the shape
/// [`entry_shape`] states.
pub proof fn lemma_lib_dir_entries_shape(value: Seq<char>)
    ensures
        forall|i: int| 0 <= i < lib_dir_entries(value).len() ==> entry_shape(#[trigger] lib_dir_entries(value)[i]),
{
    lemma_split_prefix_free(value, ',');
    let (done, cur) = split_prefix(value, ',');
    let ps = split(value, ',');
    assert forall|k: int| 0 <= k < ps.len() implies !(#[trigger] ps[k]).contains(',') by {
        if k < done.len() {
            assert(ps[k] == done[k]);
        } else {
            assert(ps[k] == cur);
        }
    }
    lemma_parse_entries_shape(ps);
}

/// A package's targets as (name, whether it is an example built as a cdylib).
pub open spec fn target_views(ts: Seq<(String, bool)>) -> Seq<(Seq<char>, bool)> {
    Seq::new(ts.len(), |i: int| (ts[i].0@, ts[i].1))
}

/// The cdylib file names of the flagged targets among `ts`, in order.
pub open spec fn cdylib_names(
    ts: Seq<(Seq<char>, bool)>,
    prefix: Seq<char>,
    suffix: Seq<char>,
) -> Seq<Seq<char>>
    decreases ts.len(),
{
    if ts.len() == 0 {
        Seq::empty()
    } else {
        let rest = cdylib_names(ts.drop_last(), prefix, suffix);
        if ts.last().1 {
            rest.push(prefix + dashes_to_underscores(ts.last().0) + suffix)
        } else {
            rest
        }
    }
}

/// The cdylib names are exactly the file names of the flagged targets: each
/// flagged target's name is among them, each of them is the name of a
/// flagged target, and there are as many as flagged targets.
pub proof fn lemma_cdylib_names_flagged(
    ts: Seq<(Seq<char>, bool)>,
    prefix: Seq<char>,
    suffix: Seq<char>,
)
    ensures
        forall|i: int|
            0 <= i < ts.len() && ts[i].1 ==> #[trigger] cdylib_names(ts, prefix, suffix).contains(
                prefix + dashes_to_underscores(ts[i].0) + suffix,
            ),
        forall|x: Seq<char>|
            #[trigger] cdylib_names(ts, prefix, suffix).contains(x) ==> exists|i: int|
                0 <= i < ts.len() && ts[i].1 && x == prefix + dashes_to_underscores(
                    #[trigger] ts[i].0,
                ) + suffix,
        cdylib_names(ts, prefix, suffix).len() == ts.filter(|t: (Seq<char>, bool)| t.1).len(),
    decreases ts.len(),
{
    reveal(Seq::filter);
    if ts.len() > 0 {
        let init = ts.drop_last();
        lemma_cdylib_names_flagged(init, prefix, suffix);
        let d = cdylib_names(init, prefix, suffix);
        let r = cdylib_names(ts, prefix, suffix);
        let last = prefix + dashes_to_underscores(ts.last().0) + suffix;
        assert forall|i: int| 0 <= i < ts.len() && ts[i].1 implies #[trigger] r.contains(
            prefix + dashes_to_underscores(ts[i].0) + suffix,
        ) by {
            if i < init.len() {
                assert(init[i] == ts[i]);
                let x = prefix + dashes_to_underscores(init[i].0) + suffix;
                assert(d.contains(x));
                let k = choose|k: int| 0 <= k < d.len() && d[k] == x;
                if ts.last().1 {
                    assert(r[k] == x);
                }
            } else {
                assert(r[r.len() - 1] == last);
            }
        }
        assert forall|x: Seq<char>| #[trigger] r.contains(x) implies exists|i: int|
            0 <= i < ts.len() && ts[i].1 && x == prefix + dashes_to_underscores(#[trigger] ts[i].0)
                + suffix by {
            let k = choose|k: int| 0 <= k < r.len() && r[k] == x;
            if k < d.len() {
                assert(d[k] == x);
                assert(d.contains(x));
                let i = choose|i: int|
                    0 <= i < init.len() && init[i].1 && x == prefix + dashes_to_underscores(
                        #[trigger] init[i].0,
                    ) + suffix;
                assert(ts[i] == init[i]);
            } else {
                assert(ts[ts.len() - 1] == ts.last());
            }
        }
        assert(ts.filter(|t: (Seq<char>, bool)| t.1) == if ts.last().1 {
            init.filter(|t: (Seq<char>, bool)| t.1).push(ts.last())
        } else {
            init.filter(|t: (Seq<char>, bool)| t.1)
        });
    }
}

/// `i` is the first package named `native-payloads`.
pub open spec fn is_first_natives_package(ps: Seq<(String, Vec<(String, bool)>)>, i: int) -> bool {
    &&& 0 <= i < ps.len()
    &&& ps[i].0@ == crate::names::NATIVES_PACKAGE@
    &&& forall|j: int| 0 <= j < i ==> ps[j].0@ != crate::names::NATIVES_PACKAGE@
}

/// The file names of the payload cdylibs cargo builds: the first package
/// named `native-payloads` among `packages` (name, targets), and the file name
/// with `prefix` and `suffix` of each of its targets flagged as an example
/// built as a cdylib, in order. `PackageNotFound` when no package has that
/// name, `NoCdylibTarget` when it has no such target.
pub fn cdylib_file_names(
    packages: &Vec<(String, Vec<(String, bool)>)>,
    prefix: &str,
    suffix: &str,
) -> (r: Result<Vec<String>, NativeLibsError>)
    ensures
        (forall|i: int| 0 <= i < packages@.len() ==> packages@[i].0@ != crate::names::NATIVES_PACKAGE@)
            <==> r matches Err(NativeLibsError::PackageNotFound),
        r matches Err(NativeLibsError::NoCdylibTarget) ==> exists|i: int|
            is_first_natives_package(packages@, i) && cdylib_names(
                target_views(packages@[i].1@),
                prefix@,
                suffix@,
            ).len() == 0,
        r matches Ok(v) ==> exists|i: int|
            is_first_natives_package(packages@, i) && v@.len() > 0 && #[trigger] string_seq_views(v@)
                == cdylib_names(target_views(packages@[i].1@), prefix@, suffix@),
        r is Err ==> (r matches Err(NativeLibsError::PackageNotFound) || r matches Err(
            NativeLibsError::NoCdylibTarget,
        )),
{
    let mut p: usize = 0;
    let mut found = false;
    while p < packages.len() && !found
        invariant
            p <= packages@.len(),
            found ==> p < packages@.len() && packages@[p as int].0@
                == crate::names::NATIVES_PACKAGE@,
            forall|j: int| 0 <= j < p ==> packages@[j].0@ != crate::names::NATIVES_PACKAGE@,
        decreases packages@.len() - p, if found { 0int } else { 1int },
    {
        if crate::inject::str_eq(packages[p].0.as_str(), crate::names::NATIVES_PACKAGE) {
            found = true;
        } else {
            p = p + 1;
        }
    }
    if !found {
        return Err(NativeLibsError::PackageNotFound);
    }
    let targets = &packages[p].1;
    let ghost tv = target_views(targets@);
    let mut out: Vec<String> = Vec::new();
    let mut k: usize = 0;
    while k < targets.len()
        invariant
            k <= targets@.len(),
            tv == target_views(targets@),
            string_seq_views(out@) == cdylib_names(tv.subrange(0, k as int), prefix@, suffix@),
        decreases targets@.len() - k,
    {
        assert(tv.subrange(0, k + 1).drop_last() =~= tv.subrange(0, k as int));
        if targets[k].1 {
            let name = native_lib_filename(prefix, targets[k].0.as_str(), suffix);
            let ghost before = out@;
            out.push(name);
            assert(string_seq_views(out@) =~= string_seq_views(before).push(name@));
        }
        k = k + 1;
    }
    assert(tv.subrange(0, targets@.len() as int) =~= tv);
    assert(is_first_natives_package(packages@, p as int));
    if out.len() == 0 {
        return Err(NativeLibsError::NoCdylibTarget);
    }
    Ok(out)
}

/// The views of a sequence of strings.
pub open spec fn string_seq_views(v: Seq<String>) -> Seq<Seq<char>> {
    Seq::new(v.len(), |i: int| v[i]@)
}

} // verus!

//! Reading the `#[inject]` metadata out of a compiled cdylib: the object
//! file is parsed with the `object` crate, the records are parsed here.

use vstd::prelude::*;
use object::{Object, ObjectSection};
use crate::record::{
    InjectMeta, InjectMetaError, InjectMetaView, meta_views, parse_inject_records,
    parse_meta_data, split,
};
use crate::names::inject_meta_sections;

verus! {

/// Whether `object::File::parse` accepts `data` as an object file.
pub uninterp spec fn parses_as_object(data: Seq<u8>) -> bool;

/// Whether the object file `data` has a section `name`, as
/// `Object::section_by_name` finds it.
pub uninterp spec fn has_section(data: Seq<u8>, name: Seq<char>) -> bool;

/// What `ObjectSection::uncompressed_data` gives for that section of `data`:
/// its bytes, or `None` when they cannot be read.
pub uninterp spec fn section_contents(data: Seq<u8>, name: Seq<char>) -> Option<Seq<u8>>;

/// The `object` crate's parsed file. Verus refuses a declaration of
/// `object::File` itself (its parameter is bounded by the crate's `ReadRef`
/// trait), so the value is held in this opaque struct.
#[verifier::external_body]
struct ParsedObject<'data> {
    file: object::File<'data>,
}

/// A section of a parsed file, held opaquely for the same reason.
#[verifier::external_body]
struct SectionHandle<'data, 'file> {
    section: object::Section<'data, 'file>,
}

/// An object file parsed from `data`.
pub struct ObjectFile<'data> {
    parsed: ParsedObject<'data>,
    data: &'data [u8],
}

impl<'data> View for ObjectFile<'data> {
    type V = Seq<u8>;

    /// The bytes the file was parsed from.
    closed spec fn view(&self) -> Seq<u8> {
        self.data@
    }
}

/// A section found by name in an object file.
pub struct MetaSection<'data, 'file> {
    handle: SectionHandle<'data, 'file>,
    source: Ghost<(Seq<u8>, Seq<char>)>,
}

impl<'data, 'file> View for MetaSection<'data, 'file> {
    type V = (Seq<u8>, Seq<char>);

    /// The bytes of the file and the name the section was found by.
    closed spec fn view(&self) -> (Seq<u8>, Seq<char>) {
        self.source@
    }
}

#[verifier::external_type_specification]
#[verifier::external_body]
pub struct ExObjectError(object::Error);

/// `object::File::parse`: recognises the object-file format of `data`
/// (ELF, Mach-O, PE/COFF, Wasm, XCOFF) and parses its headers. Claimed: it
/// succeeds exactly when [`parses_as_object`] holds of the bytes, a function
/// of them alone.
#[verifier::external_body]
fn object_file_parse<'a>(data: &'a [u8]) -> (r: Result<ObjectFile<'a>, object::Error>)
    ensures
        r is Ok <==> parses_as_object(data@),
        r matches Ok(f) ==> f@ == data@,
{
    match object::File::parse(data) {
        Ok(file) => Ok(ObjectFile { parsed: ParsedObject { file }, data }),
        Err(e) => Err(e),
    }
}

/// `Object::section_by_name`: the first section named `name`, if any.
/// Claimed: there is one exactly when [`has_section`] holds of the file's
/// bytes and the name.
#[verifier::external_body]
fn object_section_by_name<'data, 'file>(file: &'file ObjectFile<'data>, name: &str) -> (r: Option<
    MetaSection<'data, 'file>,
>)
    ensures
        r is Some <==> has_section(file@, name@),
        r matches Some(sec) ==> sec@ == (file@, name@),
{
    match file.parsed.file.section_by_name(name) {
        Some(section) => Some(
            MetaSection { handle: SectionHandle { section }, source: Ghost((file@, name@)) },
        ),
        None => None,
    }
}

/// `ObjectSection::uncompressed_data`: the section contents, decompressed
/// when the section is compressed. Claimed: the bytes, or the failure, are
/// [`section_contents`] of the file's bytes and the section's name.
#[verifier::external_body]
fn object_section_data<'data, 'file>(sec: &MetaSection<'data, 'file>) -> (r: Result<
    Vec<u8>,
    object::Error,
>)
    ensures
        match r {
            Ok(d) => section_contents(sec@.0, sec@.1) == Some(d@),
            Err(_) => section_contents(sec@.0, sec@.1) is None,
        },
{
    match sec.handle.section.uncompressed_data() {
        Ok(d) => Ok(d.into_owned()),
        Err(e) => Err(e),
    }
}

/// The sections the metadata may be in, in the order they are read.
pub open spec fn meta_section_names() -> Seq<Seq<char>> {
    seq![".inject_meta"@, "__injmeta"@, ".injmta"@]
}

/// The first of `names` whose section `data` has but cannot be read.
pub open spec fn first_unreadable(data: Seq<u8>, names: Seq<Seq<char>>) -> Option<int>
    decreases names.len(),
{
    if names.len() == 0 {
        None
    } else {
        match first_unreadable(data, names.drop_last()) {
            Some(i) => Some(i),
            None => if has_section(data, names.last()) && section_contents(
                data,
                names.last(),
            ) is None {
                Some(names.len() - 1)
            } else {
                None
            },
        }
    }
}

/// The contents of the sections among `names` that `data` has, in order.
pub open spec fn present_contents(data: Seq<u8>, names: Seq<Seq<char>>) -> Seq<Seq<u8>>
    decreases names.len(),
{
    if names.len() == 0 {
        Seq::empty()
    } else {
        let rest = present_contents(data, names.drop_last());
        if has_section(data, names.last()) {
            rest.push(section_contents(data, names.last())->Some_0)
        } else {
            rest
        }
    }
}

proof fn lemma_first_unreadable_prefix(data: Seq<u8>, names: Seq<Seq<char>>, k: int)
    requires
        0 <= k <= names.len(),
        first_unreadable(data, names.take(k)) is Some,
    ensures
        first_unreadable(data, names) == first_unreadable(data, names.take(k)),
    decreases names.len() - k,
{
    if k < names.len() {
        assert(names.take(k + 1).drop_last() =~= names.take(k));
        lemma_first_unreadable_prefix(data, names, k + 1);
    } else {
        assert(names.take(k) =~= names);
    }
}

/// Concatenation of byte sequences, in order.
pub open spec fn concat(parts: Seq<Seq<u8>>) -> Seq<u8>
    decreases parts.len(),
{
    if parts.len() == 0 {
        Seq::empty()
    } else {
        concat(parts.drop_last()) + parts.last()
    }
}

/// The records in the metadata sections' data `sections`, read as one
/// concatenation; `NoMetaSection` when there is no data at all.
pub fn parse_meta_sections(sections: &Vec<Vec<u8>>, lib_filename: &str) -> (r: Result<
    Vec<InjectMeta>,
    InjectMetaError,
>)
    ensures
        concat(crate::record::byte_views(sections@)).len() == 0 ==> (r matches Err(
            InjectMetaError::NoMetaSection(f),
        ) && f@ == lib_filename@),
        concat(crate::record::byte_views(sections@)).len() > 0 ==> match r {
            Ok(v) => parse_meta_data(concat(crate::record::byte_views(sections@))) == Ok::<
                Seq<InjectMetaView>,
                InjectMetaError,
            >(meta_views(v@)),
            Err(e) => parse_meta_data(concat(crate::record::byte_views(sections@))) == Err::<
                Seq<InjectMetaView>,
                InjectMetaError,
            >(e),
        },
{
    let mut all: Vec<u8> = Vec::new();
    let mut i: usize = 0;
    while i < sections.len()
        invariant
            i <= sections.len(),
            all@ == concat(crate::record::byte_views(sections@).subrange(0, i as int)),
        decreases sections.len() - i,
    {
        let ghost prev = all@;
        let mut j: usize = 0;
        while j < sections[i].len()
            invariant
                i < sections.len(),
                j <= sections@[i as int]@.len(),
                all@ == prev + sections@[i as int]@.subrange(0, j as int),
            decreases sections@[i as int]@.len() - j,
        {
            all.push(sections[i][j]);
            assert(all@ =~= prev + sections@[i as int]@.subrange(0, j + 1));
            j = j + 1;
        }
        proof {
            let bv = crate::record::byte_views(sections@);
            assert(bv.subrange(0, i + 1).drop_last() =~= bv.subrange(0, i as int));
            assert(sections@[i as int]@.subrange(0, j as int) =~= sections@[i as int]@);
        }
        i = i + 1;
    }
    assert(crate::record::byte_views(sections@).subrange(0, sections@.len() as int)
        =~= crate::record::byte_views(sections@));
    if all.len() == 0 {
        return Err(InjectMetaError::NoMetaSection(lib_filename.to_owned()));
    }
    parse_inject_records(all.as_slice())
}

/// The `#[inject]` records of the cdylib `lib_bytes` (file name
/// `lib_filename`): the data of the metadata sections present, in the order
/// `.inject_meta`, `__injmeta`, `.injmta`, read as one record stream.
pub fn parse_inject_meta(lib_bytes: &[u8], lib_filename: &str) -> (r: Result<
    Vec<InjectMeta>,
    InjectMetaError,
>)
    ensures
        !parses_as_object(lib_bytes@) ==> (r matches Err(InjectMetaError::ObjectParse(f))
            && f@ == lib_filename@),
        parses_as_object(lib_bytes@) ==> match first_unreadable(lib_bytes@, meta_section_names()) {
            Some(i) => r matches Err(InjectMetaError::SectionRead(n)) && n@
                == meta_section_names()[i],
            None => {
                let d = concat(present_contents(lib_bytes@, meta_section_names()));
                if d.len() == 0 {
                    r matches Err(InjectMetaError::NoMetaSection(f)) && f@ == lib_filename@
                } else {
                    match r {
                        Ok(v) => parse_meta_data(d) == Ok::<Seq<InjectMetaView>, InjectMetaError>(
                            meta_views(v@),
                        ),
                        Err(e) => parse_meta_data(d) == Err::<Seq<InjectMetaView>, InjectMetaError>(
                            e,
                        ),
                    }
                }
            },
        },
{
    let file = match object_file_parse(lib_bytes) {
        Ok(f) => f,
        Err(_) => {
            return Err(InjectMetaError::ObjectParse(lib_filename.to_owned()));
        },
    };
    let names = inject_meta_sections();
    let ghost bytes = lib_bytes@;
    let ghost all = meta_section_names();
    proof {
        reveal_strlit(".inject_meta");
        reveal_strlit("__injmeta");
        reveal_strlit(".injmta");
    }
    let mut datas: Vec<Vec<u8>> = Vec::new();
    let mut i: usize = 0;
    while i < names.len()
        invariant
            i <= names.len(),
            names@.len() == 3,
            names@[0]@ == all[0],
            names@[1]@ == all[1],
            names@[2]@ == all[2],
            all == meta_section_names(),
            file@ == bytes,
            bytes == lib_bytes@,
            parses_as_object(bytes),
            first_unreadable(bytes, all.take(i as int)) is None,
            crate::record::byte_views(datas@) == present_contents(bytes, all.take(i as int)),
        decreases names.len() - i,
    {
        let ghost pre = all.take(i as int);
        assert(all.take(i + 1).drop_last() =~= pre);
        assert(all.take(i + 1).last() == names@[i as int]@);
        match object_section_by_name(&file, names[i]) {
            Some(sec) => match object_section_data(&sec) {
                Ok(d) => {
                    let ghost before = datas@;
                    datas.push(d);
                    proof {
                        assert(crate::record::byte_views(datas@) =~= crate::record::byte_views(
                            before,
                        ).push(d@));
                    }
                },
                Err(_) => {
                    proof {
                        lemma_first_unreadable_prefix(bytes, all, i + 1);
                    }
                    return Err(InjectMetaError::SectionRead(names[i].to_owned()));
                },
            },
            None => {},
        }
        i = i + 1;
    }
    assert(all.take(3) =~= all);
    let r = parse_meta_sections(&datas, lib_filename);
    r
}

} // verus!

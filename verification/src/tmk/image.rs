//! The image of a test microkernel, an ELF file of 64-bit class, as the `object`
//! crate reads it.

use object::read::elf::ElfFile64;
use object::{Endianness, Object, ObjectSection, ObjectSegment, ReadCache};
use std::io::Cursor;
use vstd::prelude::*;
use vstd::utf8;

verus! {

/// A part of the image that is loaded into memory.
#[derive(Debug)]
pub struct Segment {
    /// Where it is loaded.
    pub address: u64,
    /// What the image holds of it, or `None` if the image does not reach that
    /// far.
    pub data: Option<Vec<u8>>,
}

impl View for Segment {
    type V = (u64, Option<Seq<u8>>);

    open spec fn view(&self) -> (u64, Option<Seq<u8>>) {
        (
            self.address,
            match self.data {
                Some(data) => Some(data@),
                None => None,
            },
        )
    }
}

/// Whether `ElfFile64::parse` accepts an image.
pub uninterp spec fn elf_parses(image: Seq<u8>) -> bool;

/// The address and the addend of each relocation that
/// `Object::dynamic_relocations` gives, in order.
pub uninterp spec fn elf_dynamic_relocations(image: Seq<u8>) -> Seq<(u64, i64)>;

/// The address of the section that `Object::section_by_name` gives.
pub uninterp spec fn elf_section_address(image: Seq<u8>, name: Seq<char>) -> Option<u64>;

/// What `ObjectSection::data` gives for the section of a name.
pub uninterp spec fn elf_section_data(image: Seq<u8>, name: Seq<char>) -> Option<Seq<u8>>;

/// The address and the data of each segment that `Object::segments` gives, in
/// order.
pub uninterp spec fn elf_segments(image: Seq<u8>) -> Seq<(u64, Option<Seq<u8>>)>;

/// Calls `object::read::elf::ElfFile::parse`, for images of 64-bit class and
/// either byte order, over an `object::ReadCache` of the image, as all the calls
/// below do. Whether it accepts the image depends on the image alone.
#[verifier::external_body]
fn parse_elf(image: &[u8]) -> (parses: bool)
    ensures
        parses == elf_parses(image@),
{
    let cache = ReadCache::new(Cursor::new(image));
    let parses = ElfFile64::<Endianness, _>::parse(&cache).is_ok();
    parses
}

/// Calls `object::Object::dynamic_relocations`, which gives an iterator for
/// every ELF file, and keeps the address and the addend of each relocation.
#[verifier::external_body]
fn dynamic_relocations(image: &[u8]) -> (relocations: Option<Vec<(u64, i64)>>)
    requires
        elf_parses(image@),
    ensures
        relocations matches Some(relocations) && relocations@ == elf_dynamic_relocations(image@),
{
    let cache = ReadCache::new(Cursor::new(image));
    let file = ElfFile64::<Endianness, _>::parse(&cache).ok()?;
    let relocations = file.dynamic_relocations()?;
    Some(relocations.map(|(address, relocation)| (address, relocation.addend())).collect())
}

/// Calls `object::Object::section_by_name`, and `address` on what it finds.
#[verifier::external_body]
fn section_address(image: &[u8], name: &str) -> (address: Option<u64>)
    requires
        elf_parses(image@),
    ensures
        address == elf_section_address(image@, name@),
{
    let cache = ReadCache::new(Cursor::new(image));
    let file = ElfFile64::<Endianness, _>::parse(&cache).ok()?;
    let section = file.section_by_name(name)?;
    Some(section.address())
}

/// Calls `object::ObjectSection::data` on the section of a name. There is none
/// if there is no such section, or if it reaches beyond the image.
#[verifier::external_body]
fn section_data(image: &[u8], name: &str) -> (data: Option<Vec<u8>>)
    requires
        elf_parses(image@),
    ensures
        match data {
            Some(data) => elf_section_data(image@, name@) == Some(data@),
            None => elf_section_data(image@, name@) is None,
        },
{
    let cache = ReadCache::new(Cursor::new(image));
    let file = ElfFile64::<Endianness, _>::parse(&cache).ok()?;
    let section = file.section_by_name(name)?;
    section.data().ok().map(|data| data.to_vec())
}

/// Calls `object::Object::segments`, and `address` and `data` on each segment.
#[verifier::external_body]
fn segments(image: &[u8]) -> (segments: Vec<Segment>)
    requires
        elf_parses(image@),
    ensures
        segments@.len() == elf_segments(image@).len(),
        forall|i: int|
            0 <= i < segments@.len() ==> (#[trigger] segments@[i])@ == elf_segments(image@)[i],
{
    let cache = ReadCache::new(Cursor::new(image));
    let Ok(file) = ElfFile64::<Endianness, _>::parse(&cache) else { return Vec::new() };
    file.segments()
        .map(|segment| Segment {
            address: segment.address(),
            data: segment.data().ok().map(|data| data.to_vec()),
        })
        .collect()
}

/// Calls `String::from_utf8`, which gives the text that the bytes encode, or
/// refuses bytes that are not UTF-8.
#[verifier::external_body]
pub(crate) fn string_from_utf8(bytes: Vec<u8>) -> (text: Option<String>)
    ensures
        match text {
            Some(text) => utf8::valid_utf8(bytes@) && text@ == utf8::decode_utf8(bytes@),
            None => !utf8::valid_utf8(bytes@),
        },
{
    String::from_utf8(bytes).ok()
}

/// What of an image matters for finding its tests.
#[derive(Debug)]
pub struct TmkImage {
    /// The address and the addend of each dynamic relocation.
    pub relocations: Vec<(u64, i64)>,
    /// Where the test descriptors are loaded.
    pub section_address: u64,
    /// The test descriptors.
    pub section_data: Vec<u8>,
    /// The loaded parts.
    pub segments: Vec<Segment>,
}

/// Why the tests of an image cannot be found.
#[derive(Clone, Copy, Debug, PartialEq, Eq, Structural)]
pub enum EnumerateError {
    /// The image is no ELF file of 64-bit class.
    Parse,
    /// There are no dynamic relocations.
    NoRelocations,
    /// There is no section of test descriptors.
    NoSection,
    /// The section of test descriptors reaches beyond the image.
    SectionData,
    /// The section does not hold whole test descriptors.
    Descriptors,
    /// A test descriptor lies beyond the address space.
    SectionRange,
    /// No segment holds the name of a test.
    NameNotFound,
    /// A segment that is searched for a name reaches beyond the image.
    SegmentData,
    /// The name of a test is not UTF-8.
    NameText,
}

/// Reads an image.
pub fn read_image(image: &[u8]) -> (tmk: Result<TmkImage, EnumerateError>)
    ensures
        match tmk {
            Ok(tmk) => {
                &&& elf_parses(image@)
                &&& tmk.relocations@ == elf_dynamic_relocations(image@)
                &&& elf_section_address(image@, "tmk_tests"@) == Some(tmk.section_address)
                &&& elf_section_data(image@, "tmk_tests"@) == Some(tmk.section_data@)
                &&& tmk.segments@.len() == elf_segments(image@).len()
                &&& forall|i: int|
                    0 <= i < tmk.segments@.len() ==> (#[trigger] tmk.segments@[i])@
                        == elf_segments(image@)[i]
            },
            Err(error) => error == (if !elf_parses(image@) {
                EnumerateError::Parse
            } else if elf_section_address(image@, "tmk_tests"@) is None {
                EnumerateError::NoSection
            } else {
                EnumerateError::SectionData
            }),
        },
        tmk is Ok <==> elf_parses(image@) && elf_section_address(image@, "tmk_tests"@) is Some
            && elf_section_data(image@, "tmk_tests"@) is Some,
{
    if !parse_elf(image) {
        return Err(EnumerateError::Parse);
    }
    let relocations = match dynamic_relocations(image) {
        Some(relocations) => relocations,
        None => return Err(EnumerateError::NoRelocations),
    };
    let section_address: u64 = match section_address(image, "tmk_tests") {
        Some(address) => address,
        None => return Err(EnumerateError::NoSection),
    };
    let section_data = match section_data(image, "tmk_tests") {
        Some(data) => data,
        None => return Err(EnumerateError::SectionData),
    };
    Ok(TmkImage { relocations, section_address, section_data, segments: segments(image) })
}

} // verus!

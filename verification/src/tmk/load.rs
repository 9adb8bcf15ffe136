//! Support for loading a TMK into VM memory.

use super::image;
use super::image::{read_image, string_from_utf8, EnumerateError, Segment, TmkImage};
use super::protocol::{StartInput, TestDescriptor64, TEST_DESCRIPTOR_SIZE};
use super::run::COMMAND_ADDRESS;
use crate::bytes;
use crate::memory_range::PAGE_SIZE;
use vstd::prelude::*;
use vstd::slice::slice_subrange;
use vstd::string::StringExecFns;
use vstd::utf8;
use vstd::wrapping;

verus! {

/// Where an image is loaded, unless something else is asked for.
pub const DEFAULT_LOAD_ADDRESS: u64 = 0x20_0000;

/// A test of an image.
#[derive(Debug)]
pub struct TestInfo {
    pub name: String,
    pub index: u64,
}

impl View for TestInfo {
    type V = (Seq<char>, u64);

    open spec fn view(&self) -> (Seq<char>, u64) {
        (self.name@, self.index)
    }
}

impl Clone for TestInfo {
    fn clone(&self) -> (copy: TestInfo)
        ensures
            copy@ == self@,
    {
        TestInfo { name: self.name.clone(), index: self.index }
    }
}

/// What loading the image gave.
#[derive(Clone, Copy, Debug, PartialEq, Eq, Structural)]
pub struct ElfLoadInfo {
    pub entrypoint: u64,
    pub next_available_address: u64,
}

/// What the guest starts with.
#[derive(Clone, Copy, Debug, PartialEq, Eq, Structural)]
pub struct LoadInfo {
    pub entrypoint: u64,
    pub param: u64,
    pub next_available_address: u64,
}

/// Pages to put into guest memory.
#[derive(Debug)]
pub struct PageImport {
    /// The number of the first page.
    pub page: u64,
    /// How many pages there are.
    pub page_count: u64,
    pub tag: &'static str,
    /// What they hold, with zeros behind it.
    pub data: Vec<u8>,
}

/// Where an image is loaded.
pub fn load_address(offset_addr: Option<u64>) -> (address: u64)
    ensures
        address == (match offset_addr {
            Some(offset) => offset,
            None => DEFAULT_LOAD_ADDRESS,
        }),
{
    match offset_addr {
        Some(offset) => offset,
        None => DEFAULT_LOAD_ADDRESS,
    }
}

/// Puts the start input for a test behind the loaded image.
pub fn load_common(elf: ElfLoadInfo, test: &TestInfo) -> (r: (PageImport, LoadInfo))
    requires
        elf.next_available_address + PAGE_SIZE <= u64::MAX,
    ensures
        r.0.page == elf.next_available_address / PAGE_SIZE,
        r.0.page * 0x1000 <= r.1.param < r.0.page * 0x1000 + 0x1000,
        r.1.next_available_address == r.1.param + 0x1000,
        r.0.page_count == 1,
        r.0.tag@ == "start_input"@,
        r.0.data@ == (StartInput { command: COMMAND_ADDRESS, test_index: test.index }).encode(),
        r.1 == (LoadInfo {
            entrypoint: elf.entrypoint,
            param: elf.next_available_address,
            next_available_address: (elf.next_available_address + PAGE_SIZE) as u64,
        }),
{
    let start_input = StartInput { command: COMMAND_ADDRESS, test_index: test.index };
    let start_input_addr: u64 = elf.next_available_address;
    let import = PageImport {
        page: start_input_addr / PAGE_SIZE,
        page_count: 1,
        tag: "start_input",
        data: start_input.as_bytes(),
    };
    (
        import,
        LoadInfo {
            entrypoint: elf.entrypoint,
            param: start_input_addr,
            next_available_address: start_input_addr + PAGE_SIZE,
        },
    )
}

/// A register that an AArch64 guest starts with.
#[derive(Clone, Copy, Debug, PartialEq, Eq, Structural)]
pub enum Aarch64Register {
    Pc(u64),
    X0(u64),
}

/// The registers for the BSP of an AArch64 guest.
pub fn load_aarch64(load_info: &LoadInfo) -> (registers: Vec<Aarch64Register>)
    ensures
        registers@ == seq![
            Aarch64Register::Pc(load_info.entrypoint),
            Aarch64Register::X0(load_info.param),
        ],
{
    vec![Aarch64Register::Pc(load_info.entrypoint), Aarch64Register::X0(load_info.param)]
}

/// Paging and protection.
pub const X64_CR0_PG_PE: u64 = 0x8000_0001;

/// Physical address extension.
pub const X64_CR4_PAE: u64 = 0x20;

/// System calls, long mode enabled and active, and no-execute pages.
pub const X64_EFER_LONG_MODE: u64 = 0xd01;

/// A register that an x86 guest starts with.
#[derive(Clone, Copy, Debug, PartialEq, Eq, Structural)]
pub enum X86Register {
    Cr0(u64),
    Cr3(u64),
    Cr4(u64),
    Efer(u64),
    Rip(u64),
    Rsi(u64),
}

/// What has to be put into place for an x86 guest.
#[derive(Debug)]
pub struct X86Load {
    pub page_tables: PageImport,
    /// The page of the descriptor table.
    pub gdt_page: u64,
    pub registers: Vec<X86Register>,
}

/// Loads an x86 TMK, with page tables that map the guest's memory onto itself:
/// they lie behind the start input, and the descriptor table behind them.
pub fn load_x86(load_info: &LoadInfo, page_tables: Vec<u8>) -> (load: X86Load)
    requires
        load_info.next_available_address + page_tables@.len() <= u64::MAX,
    ensures
        load.page_tables.page == load_info.next_available_address / PAGE_SIZE,
        load.page_tables.page_count == page_tables@.len() / PAGE_SIZE as nat,
        load.page_tables.tag@ == "page_tables"@,
        load.page_tables.data@ == page_tables@,
        load.gdt_page == (load_info.next_available_address + page_tables@.len())
            / PAGE_SIZE as int,
        load.registers@ == seq![
            X86Register::Cr0(X64_CR0_PG_PE),
            X86Register::Cr3(load_info.next_available_address),
            X86Register::Cr4(X64_CR4_PAE),
            X86Register::Efer(X64_EFER_LONG_MODE),
            X86Register::Rip(load_info.entrypoint),
            X86Register::Rsi(load_info.param),
        ],
{
    let page_table_base: u64 = load_info.next_available_address;
    let page_table_len: u64 = page_tables.len() as u64;
    let gdt_base: u64 = page_table_base + page_table_len;
    X86Load {
        page_tables: PageImport {
            page: page_table_base / PAGE_SIZE,
            page_count: page_table_len / PAGE_SIZE,
            tag: "page_tables",
            data: page_tables,
        },
        gdt_page: gdt_base / PAGE_SIZE,
        registers: vec![
            X86Register::Cr0(X64_CR0_PG_PE),
            X86Register::Cr3(page_table_base),
            X86Register::Cr4(X64_CR4_PAE),
            X86Register::Efer(X64_EFER_LONG_MODE),
            X86Register::Rip(load_info.entrypoint),
            X86Register::Rsi(load_info.param),
        ],
    }
}

/// The pages of a load do not overlap: the start input ends where the rest
/// begins.
pub proof fn start_input_has_its_own_page(elf: ElfLoadInfo, load_info: LoadInfo)
    requires
        elf.next_available_address + PAGE_SIZE <= u64::MAX,
        load_info.param == elf.next_available_address,
        load_info.next_available_address == elf.next_available_address + PAGE_SIZE,
    ensures
        load_info.next_available_address / PAGE_SIZE == load_info.param / PAGE_SIZE + 1,
{
}

/// The first relocation, from `from` on, of the word at `address`.
pub open spec fn addend_from(relocations: Seq<(u64, i64)>, address: u64, from: int) -> Option<i64>
    decreases relocations.len() - from,
{
    if from < 0 || from >= relocations.len() {
        None
    } else if relocations[from].0 == address {
        Some(relocations[from].1)
    } else {
        addend_from(relocations, address, from + 1)
    }
}

/// The value of a word at `address` after relocation.
pub open spec fn relocated(relocations: Seq<(u64, i64)>, address: u64, value: u64) -> u64 {
    match addend_from(relocations, address, 0) {
        Some(addend) => wrapping::u64_specs::wrapping_add_signed(value, addend),
        None => value,
    }
}

/// Relocate the value `value` that was loaded from address `address`.
fn relocate(relocations: &Vec<(u64, i64)>, address: u64, value: u64) -> (r: u64)
    ensures
        r == relocated(relocations@, address, value),
{
    let mut i: usize = 0;
    while i < relocations.len()
        invariant
            i <= relocations@.len(),
            addend_from(relocations@, address, 0) == addend_from(
                relocations@,
                address,
                i as int,
            ),
        decreases relocations@.len() - i,
    {
        if relocations[i].0 == address {
            return value.wrapping_add_signed(relocations[i].1);
        }
        i = i + 1;
    }
    value
}

/// What a segment holds at an address: an error if it cannot be read, and
/// `None` if the range is not inside.
pub open spec fn segment_range(segment: (u64, Option<Seq<u8>>), address: u64, len: u64) -> Result<
    Option<Seq<u8>>,
    EnumerateError,
> {
    match segment.1 {
        None => Err(EnumerateError::SegmentData),
        Some(data) => if segment.0 <= address && address - segment.0 + len <= data.len() {
            Ok(Some(data.subrange(address - segment.0, address - segment.0 + len)))
        } else {
            Ok(None)
        },
    }
}

fn data_range(segment: &Segment, address: u64, len: u64) -> (range: Result<
    Option<Vec<u8>>,
    EnumerateError,
>)
    ensures
        match range {
            Ok(Some(range)) => segment_range(segment@, address, len) == Ok::<_, EnumerateError>(
                Some(range@),
            ),
            Ok(None) => segment_range(segment@, address, len) == Ok::<_, EnumerateError>(
                None::<Seq<u8>>,
            ),
            Err(error) => segment_range(segment@, address, len) == Err::<Option<Seq<u8>>, _>(error),
        },
{
    match &segment.data {
        None => Err(EnumerateError::SegmentData),
        Some(data) => {
            if segment.address > address {
                return Ok(None);
            }
            let offset: u64 = address - segment.address;
            let size: u64 = data.len() as u64;
            if offset > size || len > size - offset {
                return Ok(None);
            }
            let mut range: Vec<u8> = Vec::new();
            let part = slice_subrange(data.as_slice(), offset as usize, (offset + len) as usize);
            bytes::push_bytes(&mut range, part);
            proof {
                assert(range@ =~= data@.subrange(offset as int, offset + len));
            }
            Ok(Some(range))
        },
    }
}

/// The views of segments.
pub open spec fn segment_views(segments: Seq<Segment>) -> Seq<(u64, Option<Seq<u8>>)> {
    Seq::new(segments.len(), |i: int| segments[i]@)
}

/// What the first segment that holds a range, or that cannot be read, has of it.
pub open spec fn range_from(
    segments: Seq<(u64, Option<Seq<u8>>)>,
    address: u64,
    len: u64,
    from: int,
) -> Result<Seq<u8>, EnumerateError>
    decreases segments.len() - from,
{
    if from < 0 || from >= segments.len() {
        Err(EnumerateError::NameNotFound)
    } else {
        match segment_range(segments[from], address, len) {
            Ok(Some(range)) => Ok(range),
            Ok(None) => range_from(segments, address, len, from + 1),
            Err(error) => Err(error),
        }
    }
}

fn find_range(segments: &Vec<Segment>, address: u64, len: u64) -> (range: Result<
    Vec<u8>,
    EnumerateError,
>)
    ensures
        match range {
            Ok(range) => range_from(segment_views(segments@), address, len, 0) == Ok::<
                _,
                EnumerateError,
            >(range@),
            Err(error) => range_from(segment_views(segments@), address, len, 0) == Err::<
                Seq<u8>,
                _,
            >(error),
        },
{
    let ghost views = segment_views(segments@);
    let mut i: usize = 0;
    while i < segments.len()
        invariant
            i <= segments@.len(),
            views == segment_views(segments@),
            range_from(views, address, len, 0) == range_from(views, address, len, i as int),
        decreases segments@.len() - i,
    {
        match data_range(&segments[i], address, len) {
            Ok(Some(range)) => return Ok(range),
            Ok(None) => {},
            Err(error) => return Err(error),
        }
        i = i + 1;
    }
    Err(EnumerateError::NameNotFound)
}

/// What of an image matters for finding its tests.
#[verifier::ext_equal]
pub struct TmkImageView {
    pub relocations: Seq<(u64, i64)>,
    pub section_address: u64,
    pub section_data: Seq<u8>,
    pub segments: Seq<(u64, Option<Seq<u8>>)>,
}

impl View for TmkImage {
    type V = TmkImageView;

    open spec fn view(&self) -> TmkImageView {
        TmkImageView {
            relocations: self.relocations@,
            section_address: self.section_address,
            section_data: self.section_data@,
            segments: segment_views(self.segments@),
        }
    }
}

impl TmkImageView {
    /// A word of the descriptor of test `i`.
    pub open spec fn descriptor_word(self, i: int, word: int) -> u64 {
        let offset = i * 32 + word * 8;
        bytes::le_value(self.section_data.subrange(offset, offset + 8)) as u64
    }

    /// The bytes of the name of test `i`, whose address is the first word of
    /// its descriptor, relocated, and whose length is the second. The descriptor
    /// has to have an address.
    pub open spec fn name_bytes(self, i: int) -> Result<Seq<u8>, EnumerateError> {
        if self.section_address + i * 32 > u64::MAX {
            Err(EnumerateError::SectionRange)
        } else {
            let address = relocated(
                self.relocations,
                (self.section_address + i * 32) as u64,
                self.descriptor_word(i, 0),
            );
            range_from(self.segments, address, self.descriptor_word(i, 1), 0)
        }
    }

    /// The name of test `i`.
    pub open spec fn name(self, i: int) -> Result<Seq<char>, EnumerateError> {
        match self.name_bytes(i) {
            Ok(bytes) => if utf8::valid_utf8(bytes) {
                Ok(utf8::decode_utf8(bytes))
            } else {
                Err(EnumerateError::NameText)
            },
            Err(error) => Err(error),
        }
    }

    /// The first `n` tests with their indices, or what is wrong with the first
    /// bad one among them.
    pub open spec fn first_tests(self, n: nat) -> Result<Seq<(Seq<char>, u64)>, EnumerateError>
        decreases n,
    {
        if n == 0 {
            Ok(Seq::empty())
        } else {
            match self.first_tests((n - 1) as nat) {
                Err(error) => Err(error),
                Ok(tests) => match self.name(n - 1) {
                    Err(error) => Err(error),
                    Ok(name) => Ok(tests.push((name, (n - 1) as u64))),
                },
            }
        }
    }

    /// The tests, or what is wrong with the image.
    pub open spec fn tests(self) -> Result<Seq<(Seq<char>, u64)>, EnumerateError> {
        if self.section_data.len() % 32 != 0 {
            Err(EnumerateError::Descriptors)
        } else {
            self.first_tests(self.section_data.len() / 32)
        }
    }
}

/// A bad test makes every longer list of tests bad in the same way.
proof fn lemma_first_error(image: TmkImageView, i: nat, n: nat)
    requires
        i <= n,
        image.first_tests(i) is Err,
    ensures
        image.first_tests(n) == image.first_tests(i),
    decreases n,
{
    if i < n {
        lemma_first_error(image, i, (n - 1) as nat);
    }
}

/// The views of tests.
pub open spec fn test_views(tests: Seq<TestInfo>) -> Seq<(Seq<char>, u64)> {
    Seq::new(tests.len(), |i: int| tests[i]@)
}

/// The tests of an image that was read.
pub fn image_tests(image: &TmkImage) -> (tests: Result<Vec<TestInfo>, EnumerateError>)
    ensures
        match tests {
            Ok(tests) => image@.tests() == Ok::<_, EnumerateError>(test_views(tests@)),
            Err(error) => image@.tests() == Err::<Seq<(Seq<char>, u64)>, _>(error),
        },
{
    let data = image.section_data.as_slice();
    if data.len() % TEST_DESCRIPTOR_SIZE != 0 {
        return Err(EnumerateError::Descriptors);
    }
    let count: usize = data.len() / TEST_DESCRIPTOR_SIZE;
    let mut tests: Vec<TestInfo> = Vec::new();
    let mut i: usize = 0;
    proof {
        assert(test_views(tests@) =~= Seq::empty());
    }
    while i < count
        invariant
            data@ == image.section_data@,
            count * 32 == data@.len() <= usize::MAX,
            i <= count,
            image@.first_tests(i as nat) == Ok::<_, EnumerateError>(test_views(tests@)),
        decreases count - i,
    {
        let offset: usize = i * TEST_DESCRIPTOR_SIZE;
        let record = slice_subrange(data, offset, offset + TEST_DESCRIPTOR_SIZE);
        let t = TestDescriptor64::read_from_bytes(record);
        proof {
            lemma_descriptor_words(image@, i as int, t);
        }
        let address: u64 = match image.section_address.checked_add(offset as u64) {
            Some(address) => address,
            None => {
                proof {
                    lemma_first_error(image@, (i + 1) as nat, count as nat);
                }
                return Err(EnumerateError::SectionRange);
            },
        };
        let name_address: u64 = relocate(&image.relocations, address, t.name);
        let text = match find_range(&image.segments, name_address, t.name_len) {
            Ok(range) => string_from_utf8(range),
            Err(error) => {
                proof {
                    lemma_first_error(image@, (i + 1) as nat, count as nat);
                }
                return Err(error);
            },
        };
        match text {
            Some(name) => {
                let ghost before = test_views(tests@);
                tests.push(TestInfo { name, index: i as u64 });
                proof {
                    assert(test_views(tests@) =~= before.push((name@, i as u64)));
                }
            },
            None => {
                proof {
                    lemma_first_error(image@, (i + 1) as nat, count as nat);
                }
                return Err(EnumerateError::NameText);
            },
        }
        i = i + 1;
    }
    Ok(tests)
}

proof fn lemma_descriptor_words(image: TmkImageView, i: int, t: TestDescriptor64)
    requires
        0 <= i,
        i * 32 + 32 <= image.section_data.len(),
        t.encode() == image.section_data.subrange(i * 32, i * 32 + 32),
    ensures
        t.name == image.descriptor_word(i, 0),
        t.name_len == image.descriptor_word(i, 1),
{
    let words = seq![t.name, t.name_len, t.entrypoint, t.flags.0];
    let data = image.section_data.subrange(i * 32, i * 32 + 32);
    reveal_with_fuel(bytes::words_le, 5);
    assert(words.drop_last() =~= seq![t.name, t.name_len, t.entrypoint]);
    assert(words.drop_last().drop_last() =~= seq![t.name, t.name_len]);
    assert(words.drop_last().drop_last().drop_last() =~= seq![t.name]);
    assert(seq![t.name].drop_last() =~= Seq::empty());
    bytes::lemma_le_bytes_len(t.name as nat, 8);
    bytes::lemma_le_bytes_len(t.name_len as nat, 8);
    bytes::lemma_le_bytes_len(t.entrypoint as nat, 8);
    bytes::lemma_le_bytes_len(t.flags.0 as nat, 8);
    bytes::lemma_pow256();
    bytes::lemma_le_round_trip(t.name as nat, 8);
    bytes::lemma_le_round_trip(t.name_len as nat, 8);
    assert(data.subrange(0, 8) =~= bytes::le_bytes(t.name as nat, 8));
    assert(data.subrange(8, 16) =~= bytes::le_bytes(t.name_len as nat, 8));
    assert(image.section_data.subrange(i * 32, i * 32 + 8) =~= data.subrange(0, 8));
    assert(image.section_data.subrange(i * 32 + 8, i * 32 + 16) =~= data.subrange(8, 16));
}

/// Enumerate the tests from a TMK binary.
///
/// The test definitions are stored as an array of [`TestDescriptor64`] in the
/// "tmk_tests" section of the binary.
pub fn enumerate_tests(tmk: &[u8]) -> (tests: Result<Vec<TestInfo>, EnumerateError>)
    ensures
        ({
            let address = image::elf_section_address(tmk@, "tmk_tests"@);
            let data = image::elf_section_data(tmk@, "tmk_tests"@);
            let expected = if !image::elf_parses(tmk@) {
                Err(EnumerateError::Parse)
            } else if address is None {
                Err(EnumerateError::NoSection)
            } else if data is None {
                Err(EnumerateError::SectionData)
            } else {
                TmkImageView {
                    relocations: image::elf_dynamic_relocations(tmk@),
                    section_address: address->0,
                    section_data: data->0,
                    segments: image::elf_segments(tmk@),
                }.tests()
            };
            match tests {
                Ok(tests) => expected == Ok::<_, EnumerateError>(test_views(tests@)),
                Err(error) => expected == Err::<Seq<(Seq<char>, u64)>, _>(error),
            }
        }),
{
    let image = match read_image(tmk) {
        Ok(image) => image,
        Err(error) => return Err(error),
    };
    proof {
        assert(image@.segments =~= image::elf_segments(tmk@));
    }
    image_tests(&image)
}

/// Every test of an image has its place as its index.
pub proof fn tests_are_numbered_in_order(image: TmkImageView, n: nat, i: int)
    requires
        image.first_tests(n) is Ok,
        0 <= i < n,
    ensures
        image.first_tests(n)->Ok_0.len() == n,
        image.first_tests(n)->Ok_0[i].1 == i as u64,
        image.name(i) == Ok::<_, EnumerateError>(image.first_tests(n)->Ok_0[i].0),
    decreases n,
{
    reveal_with_fuel(TmkImageView::first_tests, 2);
    if n > 1 && i < n - 1 {
        tests_are_numbered_in_order(image, (n - 1) as nat, i);
    }
    if n > 1 {
        tests_are_numbered_in_order(image, (n - 1) as nat, 0);
    }
}

/// The low bits of a page map entry that hold the page number.
pub const PFN_COUNT: u64 = 0x80_0000_0000_0000;

/// The bit of a page map entry that says that the page is in memory.
pub const PAGE_PRESENT: u64 = 0x8000_0000_0000_0000;

/// How many bytes a page map entry takes.
pub const PAGEMAP_ENTRY_SIZE: u64 = 8;

/// Why the physical address of a page is not known.
#[derive(Clone, Copy, Debug, PartialEq, Eq, Structural)]
pub enum PagemapError {
    /// Could not determine system page size.
    NoPageSize,
    /// The page is not present in RAM (swapped out or not mapped).
    NotPresent,
}

/// Where in the page map of a process the entry for a virtual address lies.
pub fn pagemap_offset(vaddr: u64, page_size: u64) -> (offset: Result<u64, PagemapError>)
    requires
        page_size != 0 ==> vaddr / page_size * PAGEMAP_ENTRY_SIZE <= u64::MAX,
    ensures
        offset == (if page_size == 0 {
            Err(PagemapError::NoPageSize)
        } else {
            Ok((vaddr / page_size * PAGEMAP_ENTRY_SIZE) as u64)
        }),
        offset matches Ok(offset) ==> offset % 8 == 0 && offset / 8 * page_size <= vaddr < offset
            / 8 * page_size + page_size,
{
    if page_size == 0 {
        return Err(PagemapError::NoPageSize);
    }
    proof {
        vstd::arithmetic::div_mod::lemma_fundamental_div_mod(vaddr as int, page_size as int);
        vstd::arithmetic::mul::lemma_mul_is_commutative(
            page_size as int,
            vaddr as int / page_size as int,
        );
    }
    Ok(vaddr / page_size * PAGEMAP_ENTRY_SIZE)
}

/// For a given virtual address, finds the corresponding Physical Frame Number
/// (PFN), from its page map entry.
pub fn virt_to_phys(entry_bytes: [u8; 8]) -> (pfn: Result<u64, PagemapError>)
    ensures
        pfn == (if bytes::le_value(entry_bytes@) < PAGE_PRESENT {
            Err(PagemapError::NotPresent)
        } else {
            Ok((bytes::le_value(entry_bytes@) % PFN_COUNT as nat) as u64)
        }),
        pfn is Ok <==> entry_bytes@[7] >= 0x80,
        pfn matches Ok(pfn) ==> pfn == entry_bytes@[0] + entry_bytes@[1] * 0x100 + entry_bytes@[2]
            * 0x1_0000 + entry_bytes@[3] * 0x100_0000 + entry_bytes@[4] * 0x1_0000_0000
            + entry_bytes@[5] * 0x100_0000_0000 + entry_bytes@[6] % 0x80 * 0x1_0000_0000_0000,
{
    proof {
        lemma_pagemap_entry(entry_bytes@);
    }
    let pagemap_entry: u64 = bytes::read_le(&entry_bytes);
    // Bit 63 indicates if the page is present in RAM. If it's not present, the
    // PFN bits are invalid (they may contain swap info).
    if pagemap_entry < PAGE_PRESENT {
        return Err(PagemapError::NotPresent);
    }
    // The lower 55 bits contain the PFN.
    Ok(pagemap_entry % PFN_COUNT)
}

/// A page map entry by its bytes: the page number takes the lowest 55 bits, and
/// the highest says whether the page is in memory.
proof fn lemma_pagemap_entry(entry: Seq<u8>)
    requires
        entry.len() == 8,
    ensures
        bytes::le_value(entry) < 0x1_0000_0000_0000_0000,
        bytes::le_value(entry) >= 0x8000_0000_0000_0000 <==> entry[7] >= 0x80,
        bytes::le_value(entry) % 0x80_0000_0000_0000 == entry[0] + entry[1] * 0x100 + entry[2]
            * 0x1_0000 + entry[3] * 0x100_0000 + entry[4] * 0x1_0000_0000 + entry[5]
            * 0x100_0000_0000 + entry[6] % 0x80 * 0x1_0000_0000_0000,
{
    bytes::lemma_pow256();
    bytes::lemma_le_value_bound(entry);
    bytes::lemma_le_value_of_eight(entry);
    let low = entry[0] + entry[1] * 0x100 + entry[2] * 0x1_0000 + entry[3] * 0x100_0000 + entry[4]
        * 0x1_0000_0000 + entry[5] * 0x100_0000_0000 + entry[6] % 0x80 * 0x1_0000_0000_0000;
    let high = entry[6] / 0x80 + entry[7] * 2;
    assert(0 <= low < 0x80_0000_0000_0000);
    assert(bytes::le_value(entry) == low + high * 0x80_0000_0000_0000);
}

} // verus!

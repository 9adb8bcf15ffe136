//! What the tests of an image are, in terms of the bytes of its section and of
//! its segments.

use super::image::EnumerateError;
use super::load;
use super::load::TmkImageView;
use crate::bytes;
use vstd::prelude::*;
use vstd::utf8;

verus! {

/// Whether a relocated word is `value` plus the addend of the first relocation of
/// its place, with 64 bits, or `value` where there is none.
pub open spec fn is_relocated(
    relocations: Seq<(u64, i64)>,
    place: int,
    value: int,
    address: u64,
) -> bool {
    ||| {
        &&& forall|r: int| 0 <= r < relocations.len() ==> (#[trigger] relocations[r]).0 != place
        &&& address == value
    }
    ||| exists|r: int|
        {
            &&& 0 <= r < relocations.len()
            &&& (#[trigger] relocations[r]).0 == place
            &&& forall|q: int| 0 <= q < r ==> (#[trigger] relocations[q]).0 != place
            &&& address == (value + relocations[r].1) % 0x1_0000_0000_0000_0000
        }
}

/// Whether a readable segment holds the `len` bytes from `address` on.
pub open spec fn holds(segment: (u64, Option<Seq<u8>>), address: u64, len: int) -> bool {
    &&& segment.1 is Some
    &&& segment.0 <= address
    &&& address - segment.0 + len <= segment.1->0.len()
}

proof fn lemma_word(data: Seq<u8>, at: int)
    requires
        0 <= at,
        at + 8 <= data.len(),
    ensures
        bytes::le_value(data.subrange(at, at + 8)) == bytes::word_from(data, at),
        0 <= bytes::word_from(data, at) < 0x1_0000_0000_0000_0000,
{
    let word = data.subrange(at, at + 8);
    bytes::lemma_le_value_of_eight(word);
    bytes::lemma_le_value_bound(word);
    bytes::lemma_pow256();
    assert forall|k: int| 0 <= k < 8 implies #[trigger] word[k] == data[at + k] by {}
}

proof fn lemma_relocated(relocations: Seq<(u64, i64)>, place: u64, value: u64, from: int)
    requires
        0 <= from <= relocations.len(),
        forall|q: int| 0 <= q < from ==> (#[trigger] relocations[q]).0 != place,
    ensures
        match load::addend_from(relocations, place, from) {
            Some(addend) => exists|r: int|
                {
                    &&& 0 <= r < relocations.len()
                    &&& (#[trigger] relocations[r]).0 == place
                    &&& forall|q: int| 0 <= q < r ==> (#[trigger] relocations[q]).0 != place
                    &&& addend == relocations[r].1
                },
            None => forall|r: int|
                0 <= r < relocations.len() ==> (#[trigger] relocations[r]).0 != place,
        },
    decreases relocations.len() - from,
{
    if from < relocations.len() && relocations[from].0 != place {
        lemma_relocated(relocations, place, value, from + 1);
    } else if from < relocations.len() {
        assert(relocations[from].0 == place);
    }
}

proof fn lemma_range(
    segments: Seq<(u64, Option<Seq<u8>>)>,
    address: u64,
    len: u64,
    from: int,
) -> (s: int)
    requires
        0 <= from,
        load::range_from(segments, address, len, from) is Ok,
    ensures
        from <= s < segments.len(),
        holds(segments[s], address, len as int),
        forall|q: int|
            from <= q < s ==> (#[trigger] segments[q]).1 is Some && !holds(
                segments[q],
                address,
                len as int,
            ),
        ({
            let range = load::range_from(segments, address, len, from)->Ok_0;
            &&& range.len() == len
            &&& forall|k: int|
                0 <= k < len ==> #[trigger] range[k] == segments[s].1->0[address - segments[s].0
                    + k]
        }),
    decreases segments.len() - from,
{
    match load::segment_range(segments[from], address, len) {
        Ok(Some(range)) => from,
        _ => lemma_range(segments, address, len, from + 1),
    }
}

/// Where the name of test `i` of an image comes from. Its descriptor is the 32
/// bytes at 32 times `i` of the section. In UTF-8, the name has as many bytes as
/// the second word of the descriptor says, and they are the bytes of the first
/// segment that holds them all, from the relocated first word on. The test has
/// `i` as its index. What is given back is the address of the name, and the
/// segment.
pub proof fn names_are_bytes_of_a_segment(image: TmkImageView, i: int) -> (found: (u64, int))
    requires
        image.tests() is Ok,
        0 <= i < image.section_data.len() / 32,
    ensures
        ({
            let tests = image.tests()->Ok_0;
            let name = utf8::encode_utf8(tests[i].0);
            let (address, s) = found;
            &&& image.section_data.len() == 32 * tests.len()
            &&& tests[i].1 == i
            &&& name.len() == bytes::word_from(image.section_data, 32 * i + 8)
            &&& is_relocated(
                image.relocations,
                image.section_address + 32 * i,
                bytes::word_from(image.section_data, 32 * i),
                address,
            )
            &&& 0 <= s < image.segments.len()
            &&& holds(image.segments[s], address, name.len() as int)
            &&& forall|q: int|
                0 <= q < s ==> (#[trigger] image.segments[q]).1 is Some && !holds(
                    image.segments[q],
                    address,
                    name.len() as int,
                )
            &&& forall|k: int|
                0 <= k < name.len() ==> #[trigger] name[k] == image.segments[s].1->0[address
                    - image.segments[s].0 + k]
        }),
{
    let n = image.section_data.len() / 32;
    load::tests_are_numbered_in_order(image, n, i);
    lemma_numbers_fit(image, n, i);
    lemma_word(image.section_data, 32 * i);
    lemma_word(image.section_data, 32 * i + 8);
    let place = (image.section_address + 32 * i) as u64;
    let value = image.descriptor_word(i, 0);
    let len = image.descriptor_word(i, 1);
    let address = load::relocated(image.relocations, place, value);
    lemma_relocated(image.relocations, place, value, 0);
    assert(is_relocated(image.relocations, place as int, value as int, address)) by {
        if let Some(addend) = load::addend_from(image.relocations, place, 0) {
            let r = choose|r: int|
                {
                    &&& 0 <= r < image.relocations.len()
                    &&& (#[trigger] image.relocations[r]).0 == place
                    &&& forall|q: int| 0 <= q < r ==> (#[trigger] image.relocations[q]).0 != place
                    &&& addend == image.relocations[r].1
                };
            assert(address == (value + image.relocations[r].1) % 0x1_0000_0000_0000_0000);
        }
    }
    let s = lemma_range(image.segments, address, len, 0);
    utf8::decode_utf8_encode_utf8(image.name_bytes(i)->Ok_0);
    (address, s)
}

/// A list of tests that was made has an address for each descriptor, and so fewer
/// of them than there are addresses.
proof fn lemma_numbers_fit(image: TmkImageView, n: nat, i: int)
    requires
        image.first_tests(n) is Ok,
        0 <= i < n,
    ensures
        image.section_address + i * 32 <= u64::MAX,
{
    load::tests_are_numbered_in_order(image, n, i);
}

/// Whether test `i` of an image has a name: its descriptor has an address, every
/// segment can be read, one holds the bytes, and they are text.
pub open spec fn has_name(image: TmkImageView, i: int, address: u64, s: int) -> bool {
    let len = bytes::word_from(image.section_data, 32 * i + 8);
    &&& image.section_address + 32 * i <= u64::MAX
    &&& is_relocated(
        image.relocations,
        image.section_address + 32 * i,
        bytes::word_from(image.section_data, 32 * i),
        address,
    )
    &&& 0 <= s < image.segments.len()
    &&& holds(image.segments[s], address, len)
    &&& forall|q: int|
        0 <= q < s ==> (#[trigger] image.segments[q]).1 is Some && !holds(
            image.segments[q],
            address,
            len,
        )
    &&& utf8::valid_utf8(
        image.segments[s].1->0.subrange(
            address - image.segments[s].0,
            address - image.segments[s].0 + len,
        ),
    )
}

/// Whether test `i` of an image has a name somewhere.
pub open spec fn is_named(image: TmkImageView, i: int) -> bool {
    exists|address: u64, s: int| #[trigger] has_name(image, i, address, s)
}

/// An image whose section is a whole number of descriptors, each with a name, has
/// its tests; and a section that is not is refused.
pub proof fn sound_images_have_their_tests(image: TmkImageView)
    ensures
        image.section_data.len() % 32 != 0 <==> image.tests() == Err::<Seq<(Seq<char>, u64)>, _>(
            EnumerateError::Descriptors,
        ),
        image.section_data.len() % 32 == 0 ==> (image.tests() is Ok <==> forall|i: int|
            0 <= i < image.section_data.len() / 32 ==> #[trigger] is_named(image, i)),
{
    let n = image.section_data.len() / 32;
    if image.section_data.len() % 32 == 0 {
        lemma_no_descriptor_error(image, n);
        if image.tests() is Ok {
            assert forall|i: int| 0 <= i < n implies #[trigger] is_named(image, i) by {
                let (address, s) = names_are_bytes_of_a_segment(image, i);
                load::tests_are_numbered_in_order(image, n, i);
                lemma_numbers_fit(image, n, i);
                let len = bytes::word_from(image.section_data, 32 * i + 8);
                lemma_word(image.section_data, 32 * i);
                lemma_word(image.section_data, 32 * i + 8);
                let part = image.segments[s].1->0.subrange(
                    address - image.segments[s].0,
                    address - image.segments[s].0 + len,
                );
                utf8::decode_utf8_encode_utf8(image.name_bytes(i)->Ok_0);
                assert(part =~= image.name_bytes(i)->Ok_0);
                assert(has_name(image, i, address, s));
            }
        }
        if forall|i: int| 0 <= i < n ==> #[trigger] is_named(image, i) {
            lemma_named_tests(image, n);
        }
    }
}

proof fn lemma_no_descriptor_error(image: TmkImageView, n: nat)
    ensures
        image.first_tests(n) != Err::<Seq<(Seq<char>, u64)>, _>(EnumerateError::Descriptors),
    decreases n,
{
    if n > 0 {
        lemma_no_descriptor_error(image, (n - 1) as nat);
        let i = n - 1;
        let address = load::relocated(
            image.relocations,
            (image.section_address + i * 32) as u64,
            image.descriptor_word(i, 0),
        );
        lemma_range_errors(image.segments, address, image.descriptor_word(i, 1), 0);
    }
}

proof fn lemma_range_errors(
    segments: Seq<(u64, Option<Seq<u8>>)>,
    address: u64,
    len: u64,
    from: int,
)
    ensures
        load::range_from(segments, address, len, from) != Err::<Seq<u8>, _>(
            EnumerateError::Descriptors,
        ),
    decreases segments.len() - from,
{
    if 0 <= from < segments.len() {
        lemma_range_errors(segments, address, len, from + 1);
    }
}

proof fn lemma_named_tests(image: TmkImageView, n: nat)
    requires
        n * 32 <= image.section_data.len(),
        forall|i: int| 0 <= i < n ==> #[trigger] is_named(image, i),
    ensures
        image.first_tests(n) is Ok,
    decreases n,
{
    if n > 0 {
        lemma_named_tests(image, (n - 1) as nat);
        let i = n - 1;
        assert(is_named(image, i));
        let (address, s) = choose|address: u64, s: int| #[trigger] has_name(image, i, address, s);
        lemma_word(image.section_data, 32 * i);
        lemma_word(image.section_data, 32 * i + 8);
        let place = (image.section_address + 32 * i) as u64;
        let value = image.descriptor_word(i, 0);
        let len = image.descriptor_word(i, 1);
        lemma_relocated(image.relocations, place, value, 0);
        assert(address == load::relocated(image.relocations, place, value));
        lemma_range_found(image.segments, address, len, 0, s);
    }
}

proof fn lemma_range_found(
    segments: Seq<(u64, Option<Seq<u8>>)>,
    address: u64,
    len: u64,
    from: int,
    s: int,
)
    requires
        0 <= from <= s < segments.len(),
        holds(segments[s], address, len as int),
        forall|q: int|
            0 <= q < s ==> (#[trigger] segments[q]).1 is Some && !holds(
                segments[q],
                address,
                len as int,
            ),
    ensures
        load::range_from(segments, address, len, from) == Ok::<_, EnumerateError>(
            segments[s].1->0.subrange(address - segments[s].0, address - segments[s].0 + len),
        ),
    decreases s - from,
{
    if from < s {
        assert(segments[from].1 is Some && !holds(segments[from], address, len as int));
        lemma_range_found(segments, address, len, from + 1, s);
    }
}

} // verus!

//! What the monitor owes the person who runs tests and the guest that runs them:
//! which tests are chosen, what the bytes of a command ask for, and what a guest
//! finds in its memory.

use super::guest;
use super::load;
use super::protocol::{Command, StartInput, StrDescriptor, TestDescriptor64};
use super::ram;
use super::run;
use super::run::{CommandAction, CommandError};
use crate::bytes;
use vstd::arithmetic::power2;
use vstd::prelude::*;

verus! {

/// Whether the first test of a name is at place `k`.
pub open spec fn is_first_named(tests: Seq<(Seq<char>, u64)>, name: Seq<char>, k: int) -> bool {
    &&& 0 <= k < tests.len()
    &&& tests[k].0 == name
    &&& forall|j: int| 0 <= j < k ==> (#[trigger] tests[j]).0 != name
}

/// Whether a test is the first of a name.
pub open spec fn is_chosen(
    tests: Seq<(Seq<char>, u64)>,
    name: Seq<char>,
    test: (Seq<char>, u64),
) -> bool {
    exists|k: int| #[trigger] is_first_named(tests, name, k) && tests[k] == test
}

/// Whether some test has a name.
pub open spec fn has_test(tests: Seq<(Seq<char>, u64)>, name: Seq<char>) -> bool {
    exists|k: int| 0 <= k < tests.len() && (#[trigger] tests[k]).0 == name
}

proof fn lemma_test_named(tests: Seq<(Seq<char>, u64)>, name: Seq<char>, from: int)
    requires
        0 <= from <= tests.len(),
        forall|j: int| 0 <= j < from ==> (#[trigger] tests[j]).0 != name,
    ensures
        match run::test_named(tests, name, from) {
            Some(k) => is_first_named(tests, name, k),
            None => !has_test(tests, name),
        },
    decreases tests.len() - from,
{
    if from < tests.len() && tests[from].0 != name {
        lemma_test_named(tests, name, from + 1);
    }
}

/// The tests that are chosen by name: one for each name, in the order of the
/// names, and each the first test of its name. They are chosen exactly if every
/// name has a test; otherwise the error is the first name that has none.
pub proof fn chosen_tests_have_the_names(
    tests: Seq<(Seq<char>, u64)>,
    names: Seq<Seq<char>>,
    n: nat,
)
    requires
        n <= names.len(),
    ensures
        match run::tests_named(tests, names, n) {
            Ok(chosen) => {
                &&& chosen.len() == n
                &&& forall|i: int|
                    0 <= i < n ==> #[trigger] is_chosen(tests, names[i], chosen[i])
            },
            Err(name) => exists|i: int|
                {
                    &&& 0 <= i < n
                    &&& #[trigger] names[i] == name
                    &&& !has_test(tests, name)
                    &&& forall|j: int| 0 <= j < i ==> has_test(tests, #[trigger] names[j])
                },
        },
    decreases n,
{
    if n > 0 {
        chosen_tests_have_the_names(tests, names, (n - 1) as nat);
        lemma_test_named(tests, names[n - 1], 0);
        match run::tests_named(tests, names, (n - 1) as nat) {
            Ok(before) => {
                match run::test_named(tests, names[n - 1], 0) {
                    Some(k) => {
                        let chosen = before.push(tests[k]);
                        assert forall|i: int| 0 <= i < n implies #[trigger] is_chosen(
                            tests,
                            names[i],
                            chosen[i],
                        ) by {
                            if i < n - 1 {
                                assert(is_chosen(tests, names[i], before[i]));
                            } else {
                                assert(is_first_named(tests, names[i], k));
                            }
                        }
                    },
                    None => {
                        assert forall|j: int| 0 <= j < n - 1 implies has_test(
                            tests,
                            #[trigger] names[j],
                        ) by {
                            assert(is_chosen(tests, names[j], before[j]));
                            let k = choose|k: int|
                                #[trigger] is_first_named(tests, names[j], k) && tests[k]
                                    == before[j];
                            assert(tests[k].0 == names[j]);
                        }
                        let last = names[n - 1];
                        assert(!has_test(tests, last));
                    },
                }
            },
            Err(name) => {
                let i = choose|i: int|
                    {
                        &&& 0 <= i < n - 1
                        &&& #[trigger] names[i] == name
                        &&& !has_test(tests, name)
                        &&& forall|j: int| 0 <= j < i ==> has_test(tests, #[trigger] names[j])
                    };
                assert(names[i] == name);
            },
        }
    }
}

/// What the bytes of a command come to.
pub open spec fn handled(data: Seq<u8>) -> Result<CommandAction, CommandError> {
    match Command::decode(data) {
        Some(command) => Ok(run::command_action(command)),
        None => Err(CommandError::BadCommand),
    }
}

/// The string whose address is the word at an offset of a command, and whose
/// length is the word behind it.
pub open spec fn is_string_at(text: StrDescriptor, data: Seq<u8>, at: int) -> bool {
    &&& text.gpa == bytes::word_from(data, at)
    &&& text.len == bytes::word_from(data, at + 8)
}

/// What the 48 bytes of a command ask for, by the number in the first four. With 0
/// a message is shown, whose string is described at 8. With 1 the test has failed
/// with such a message, and where it did is shown if the file name that is
/// described at 24 is not empty, with the line of the four bytes at 40. With 2 the
/// test is over, and has passed if the byte at 4 is one and not if it is zero. All
/// else is refused.
pub proof fn commands_by_bytes(data: Seq<u8>)
    ensures
        data.len() != 48 ==> handled(data) is Err,
        data.len() == 48 ==> ({
            let plain = data[1] == 0 && data[2] == 0 && data[3] == 0;
            let line = data[40] + data[41] * 0x100 + data[42] * 0x1_0000 + data[43] * 0x100_0000;
            if plain && data[0] == 0 {
                &&& handled(data) matches Ok(action)
                &&& action.message matches Some(text)
                &&& is_string_at(text, data, 8)
                &&& action.location is None
                &&& action.complete is None
            } else if plain && data[0] == 1 {
                &&& handled(data) matches Ok(action)
                &&& action.message matches Some(text)
                &&& is_string_at(text, data, 8)
                &&& action.complete == Some(false)
                &&& action.location is Some <==> bytes::word_from(data, 32) > 0
                &&& action.location matches Some(location) ==> is_string_at(
                    location.filename,
                    data,
                    24,
                ) && location.line == line
            } else if plain && data[0] == 2 && data[4] <= 1 {
                &&& handled(data) matches Ok(action)
                &&& action.message is None
                &&& action.location is None
                &&& action.complete == Some(data[4] == 1)
            } else {
                handled(data) == Err::<CommandAction, _>(CommandError::BadCommand)
            }
        }),
{
    if data.len() == 48 {
        let tag = data.subrange(0, 4);
        let line = data.subrange(40, 44);
        lemma_four_bytes(tag);
        lemma_four_bytes(line);
        lemma_command_word(data, 8);
        lemma_command_word(data, 16);
        lemma_command_word(data, 24);
        lemma_command_word(data, 32);
        assert(tag[0] == data[0] && tag[1] == data[1] && tag[2] == data[2] && tag[3] == data[3]);
        assert(line[0] == data[40] && line[1] == data[41] && line[2] == data[42] && line[3]
            == data[43]);
    }
}

proof fn lemma_four_bytes(data: Seq<u8>)
    requires
        data.len() == 4,
    ensures
        bytes::le_value(data) == data[0] + data[1] * 0x100 + data[2] * 0x1_0000 + data[3]
            * 0x100_0000,
        bytes::le_value(data) < 0x1_0000_0000,
{
    let t1 = data.drop_first();
    let t2 = t1.drop_first();
    let t3 = t2.drop_first();
    assert(bytes::le_value(data) == data[0] + 0x100 * bytes::le_value(t1));
    assert(bytes::le_value(t1) == data[1] + 0x100 * bytes::le_value(t2));
    assert(bytes::le_value(t2) == data[2] + 0x100 * bytes::le_value(t3));
    assert(bytes::le_value(t3) == data[3] + 0x100 * bytes::le_value(t3.drop_first()));
}

proof fn lemma_command_word(data: Seq<u8>, at: int)
    requires
        0 <= at,
        at + 8 <= data.len(),
    ensures
        bytes::le_value(data.subrange(at, at + 8)) == bytes::word_from(data, at),
        bytes::le_value(data.subrange(at, at + 8)) < 0x1_0000_0000_0000_0000,
{
    let word = data.subrange(at, at + 8);
    bytes::lemma_le_value_of_eight(word);
    bytes::lemma_le_value_bound(word);
    bytes::lemma_pow256();
    assert forall|k: int| 0 <= k < 8 implies #[trigger] word[k] == data[at + k] by {}
}

/// What a guest finds at the address that it is started with: the address of
/// commands and, eight bytes behind it, the index of its test.
pub proof fn start_input_layout(input: StartInput)
    ensures
        input.encode().len() == 16,
        bytes::word_from(input.encode(), 0) == input.command,
        bytes::word_from(input.encode(), 8) == input.test_index,
{
    let words = seq![input.command, input.test_index];
    bytes::words_are_eight_bytes_apart(words, 0);
    bytes::words_are_eight_bytes_apart(words, 1);
}

/// Where the words of a test descriptor lie: the address of the name, its length,
/// the entry point and the flags, of which bit 0 says that the test is meant to
/// fail and bit 1 that it is for Linux hosts.
pub proof fn descriptor_layout(descriptor: TestDescriptor64)
    ensures
        ({
            let data = descriptor.encode();
            &&& data.len() == 32
            &&& bytes::word_from(data, 0) == descriptor.name
            &&& bytes::word_from(data, 8) == descriptor.name_len
            &&& bytes::word_from(data, 16) == descriptor.entrypoint
            &&& bytes::word_from(data, 24) == descriptor.flags.0
            &&& descriptor.flags.spec_expected_failure() <==> data[24] % 2 == 1
            &&& descriptor.flags.spec_linux_only() <==> data[24] / 2 % 2 == 1
        }),
{
    lemma_descriptor_words(descriptor);
    let data = descriptor.encode();
    let rest = data[25] + data[26] * 0x100 + data[27] * 0x1_0000 + data[28] * 0x100_0000 + data[29]
        * 0x1_0000_0000 + data[30] * 0x100_0000_0000 + data[31] * 0x1_0000_0000_0000;
    assert(descriptor.flags.0 == data[24] + 0x100 * rest);
    lemma_low_bits(data[24] as int, rest);
}

proof fn lemma_descriptor_words(descriptor: TestDescriptor64)
    ensures
        ({
            let data = descriptor.encode();
            &&& data.len() == 32
            &&& bytes::word_from(data, 0) == descriptor.name
            &&& bytes::word_from(data, 8) == descriptor.name_len
            &&& bytes::word_from(data, 16) == descriptor.entrypoint
            &&& bytes::word_from(data, 24) == descriptor.flags.0
        }),
{
    let words = seq![
        descriptor.name,
        descriptor.name_len,
        descriptor.entrypoint,
        descriptor.flags.0,
    ];
    bytes::words_are_eight_bytes_apart(words, 0);
    bytes::words_are_eight_bytes_apart(words, 1);
    bytes::words_are_eight_bytes_apart(words, 2);
    bytes::words_are_eight_bytes_apart(words, 3);
}

proof fn lemma_low_bits(byte: int, rest: int)
    ensures
        (byte + 0x100 * rest) % 2 == byte % 2,
        (byte + 0x100 * rest) / 2 % 2 == byte / 2 % 2,
{
    let sum = byte + 0x100 * rest;
    let half = byte / 2 + 0x80 * rest;
    assert(sum == 2 * half + byte % 2);
    assert(sum / 2 == half && sum % 2 == byte % 2);
    let quarter = byte / 2 / 2 + 0x40 * rest;
    assert(half == 2 * quarter + byte / 2 % 2);
    assert(half % 2 == byte / 2 % 2);
}

/// The pages that a size takes hold all of it, and one page less would not.
pub proof fn pages_hold_the_size(size: nat)
    ensures
        ram::pages_for(size) * 0x1000 >= size,
        ram::pages_for(size) * 0x1000 < size + 0x1000,
{
}

/// The timer of a test fires after a hundredth of a second, to the count, or after
/// one count where that is less.
pub proof fn timer_runs_a_hundredth(frequency: u64)
    ensures
        ({
            let ticks = guest::timer_ticks(frequency);
            &&& ticks >= 1
            &&& ticks > 1 ==> ticks * 100 <= frequency
            &&& (ticks + 1) * 100 > frequency
        }),
{
}

/// The counts that a counter of 64 bits has come since the start of a test lead from
/// there to the current count, also where it wrapped around once.
pub proof fn elapsed_counts_lead_to_now(start: u64, now: u64)
    ensures
        ({
            let elapsed = guest::TimerPlan::elapsed(start, now);
            &&& 0 <= elapsed < 0x1_0000_0000_0000_0000
            &&& (start + elapsed) % 0x1_0000_0000_0000_0000 == now
        }),
{
}

/// The words that an x86 guest starts with, by their bits: protection and paging,
/// bits 0 and 31; wide physical addresses, bit 5; and system calls, long mode enabled
/// and active, and pages that are not executed, bits 0, 8, 10 and 11.
pub proof fn long_mode_by_bits()
    ensures
        load::X64_CR0_PG_PE == power2::pow2(0) + power2::pow2(31),
        load::X64_CR4_PAE == power2::pow2(5),
        load::X64_EFER_LONG_MODE == power2::pow2(0) + power2::pow2(8) + power2::pow2(10)
            + power2::pow2(11),
{
    power2::lemma2_to64();
}

} // verus!

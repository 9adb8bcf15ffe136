//! Definitions for the protocol between the monitor and the test microkernel.

use crate::bytes;
use vstd::prelude::*;
use vstd::slice::slice_subrange;

verus! {

/// Guest MMIO base address of the GICv3 distributor.
///
/// The distributor occupies a 64-KiB frame starting at `0xff00_0000`.
pub const GIC_DISTRIBUTOR_BASE: u64 = 0xff00_0000;

/// Guest MMIO base address of the first GICv3 redistributor.
///
/// Each VP uses a 128-KiB redistributor region containing one 64-KiB
/// redistributor frame and one 64-KiB SGI/PPI frame.
pub const GIC_REDISTRIBUTOR_BASE: u64 = 0xff02_0000;

/// Architectural virtual timer PPI.
pub const VIRTUAL_TIMER_PPI: u32 = 20;

/// Total number of GIC interrupts exposed by the test platform.
///
/// This provides SGIs 0-15, PPIs 16-31, and SPIs 32-255. Architectural
/// INTIDs 256-1019 are not implemented by this test platform.
pub const GIC_INTERRUPT_COUNT: u32 = 256;

/// Start input from the VMM to the TMK.
#[derive(Clone, Copy, Debug, PartialEq, Eq, Structural)]
pub struct StartInput {
    /// The address to write commands to.
    pub command: u64,
    /// The test index.
    pub test_index: u64,
}

impl StartInput {
    /// The bytes in guest memory.
    pub open spec fn encode(self) -> Seq<u8> {
        bytes::words_le(seq![self.command, self.test_index])
    }

    pub fn as_bytes(&self) -> (data: Vec<u8>)
        ensures
            data@ == self.encode(),
            data@.len() == 16,
    {
        let words: [u64; 2] = [self.command, self.test_index];
        let mut data: Vec<u8> = Vec::new();
        bytes::push_words(&mut data, &words);
        proof {
            assert(words@ =~= seq![self.command, self.test_index]);
            bytes::lemma_words_len(words@);
            assert(data@ =~= self.encode());
        }
        data
    }
}

/// Test metadata flags.
#[derive(Clone, Copy, Debug, PartialEq, Eq, Structural)]
pub struct TestFlags64(pub u64);

impl TestFlags64 {
    /// The test is meant to fail.
    pub open spec fn spec_expected_failure(self) -> bool {
        self.0 % 2 == 1
    }

    /// The test is for Linux hosts only.
    pub open spec fn spec_linux_only(self) -> bool {
        self.0 / 2 % 2 == 1
    }

    pub fn new() -> (flags: TestFlags64)
        ensures
            flags == TestFlags64(0),
    {
        TestFlags64(0)
    }

    pub fn expected_failure(&self) -> (r: bool)
        ensures
            r == self.spec_expected_failure(),
    {
        self.0 % 2 == 1
    }

    pub fn linux_only(&self) -> (r: bool)
        ensures
            r == self.spec_linux_only(),
    {
        self.0 / 2 % 2 == 1
    }

    pub fn with_expected_failure(self, expected_failure: bool) -> (flags: TestFlags64)
        ensures
            flags.spec_expected_failure() == expected_failure,
            flags.0 / 2 == self.0 / 2,
    {
        TestFlags64(
            self.0 - self.0 % 2 + if expected_failure {
                1
            } else {
                0
            },
        )
    }

    pub fn with_linux_only(self, linux_only: bool) -> (flags: TestFlags64)
        ensures
            flags.spec_linux_only() == linux_only,
            flags.spec_expected_failure() == self.spec_expected_failure(),
            flags.0 / 4 == self.0 / 4,
    {
        let low: u64 = self.0 % 2;
        TestFlags64(
            self.0 / 4 * 4 + low + if linux_only {
                2
            } else {
                0
            },
        )
    }
}

/// A 64-bit TMK test descriptor.
#[derive(Clone, Copy, Debug, PartialEq, Eq, Structural)]
pub struct TestDescriptor64 {
    /// The address of the test's name.
    pub name: u64,
    /// The length of the test's name.
    pub name_len: u64,
    /// The test entry point.
    pub entrypoint: u64,
    /// Test metadata flags.
    pub flags: TestFlags64,
}

/// How many bytes a test descriptor takes.
pub const TEST_DESCRIPTOR_SIZE: usize = 32;

impl TestDescriptor64 {
    /// The bytes in the image.
    pub open spec fn encode(self) -> Seq<u8> {
        bytes::words_le(seq![self.name, self.name_len, self.entrypoint, self.flags.0])
    }

    pub fn as_bytes(&self) -> (data: Vec<u8>)
        ensures
            data@ == self.encode(),
            data@.len() == TEST_DESCRIPTOR_SIZE,
    {
        let words: [u64; 4] = [self.name, self.name_len, self.entrypoint, self.flags.0];
        let mut data: Vec<u8> = Vec::new();
        bytes::push_words(&mut data, &words);
        proof {
            assert(words@ =~= seq![self.name, self.name_len, self.entrypoint, self.flags.0]);
            bytes::lemma_words_len(words@);
            assert(data@ =~= self.encode());
        }
        data
    }

    /// The descriptor that `data` holds.
    pub fn read_from_bytes(data: &[u8]) -> (descriptor: TestDescriptor64)
        requires
            data@.len() == TEST_DESCRIPTOR_SIZE,
        ensures
            descriptor.encode() == data@,
    {
        let mut words: [u64; 4] = [0; 4];
        bytes::read_words(data, 0, &mut words);
        let descriptor = TestDescriptor64 {
            name: words[0],
            name_len: words[1],
            entrypoint: words[2],
            flags: TestFlags64(words[3]),
        };
        proof {
            assert(words@ =~= seq![
                descriptor.name,
                descriptor.name_len,
                descriptor.entrypoint,
                descriptor.flags.0,
            ]);
            assert(data@.subrange(0, 32) =~= data@);
        }
        descriptor
    }
}

/// A descriptor is known by its bytes.
pub proof fn descriptor_is_its_bytes(a: TestDescriptor64, b: TestDescriptor64)
    requires
        a.encode() == b.encode(),
    ensures
        a == b,
{
    let x = seq![a.name, a.name_len, a.entrypoint, a.flags.0];
    let y = seq![b.name, b.name_len, b.entrypoint, b.flags.0];
    bytes::lemma_words_injective(x, y);
    assert(x[0] == y[0] && x[1] == y[1] && x[2] == y[2] && x[3] == y[3]);
}

/// A UTF-8 string in guest memory.
#[derive(Clone, Copy, Debug, PartialEq, Eq, Structural)]
pub struct StrDescriptor {
    /// Pointer to the string.
    pub gpa: u64,
    /// Length of the string.
    pub len: u64,
}

/// TMK command.
#[derive(Clone, Copy, Debug, PartialEq, Eq, Structural)]
pub enum Command {
    /// Log a UTF-8 message string.
    Log(StrDescriptor),
    /// The test panicked.
    Panic {
        /// The panic message.
        message: StrDescriptor,
        /// The file and line where the panic occurred.
        filename: StrDescriptor,
        /// The line where the panic occurred.
        line: u32,
    },
    /// Complete the test.
    Complete {
        /// Success status of the test.
        success: bool,
    },
}

/// How many bytes a command takes in guest memory.
pub const COMMAND_SIZE: usize = 48;

/// The word at an offset of a command.
pub open spec fn command_word(data: Seq<u8>, offset: int) -> u64 {
    bytes::le_value(data.subrange(offset, offset + 8)) as u64
}

/// The string descriptor at an offset of a command.
pub open spec fn command_str(data: Seq<u8>, offset: int) -> StrDescriptor {
    StrDescriptor { gpa: command_word(data, offset), len: command_word(data, offset + 8) }
}

impl Command {
    /// The command in guest memory: a tag of four bytes, and behind it the
    /// fields, each at a multiple of its size.
    pub open spec fn decode(data: Seq<u8>) -> Option<Command> {
        let tag = bytes::le_value(data.subrange(0, 4));
        if data.len() != COMMAND_SIZE {
            None
        } else if tag == 0 {
            Some(Command::Log(command_str(data, 8)))
        } else if tag == 1 {
            Some(
                Command::Panic {
                    message: command_str(data, 8),
                    filename: command_str(data, 24),
                    line: bytes::le_value(data.subrange(40, 44)) as u32,
                },
            )
        } else if tag == 2 && data[4] <= 1 {
            Some(Command::Complete { success: data[4] == 1 })
        } else {
            None
        }
    }

    /// The command that `data` holds, if it holds one.
    pub fn try_read_from_bytes(data: &[u8]) -> (command: Option<Command>)
        ensures
            command == Command::decode(data@),
    {
        if data.len() != COMMAND_SIZE {
            return None;
        }
        let tag: u64 = bytes::read_le(slice_subrange(data, 0, 4));
        if tag == 0 {
            Some(Command::Log(read_str_descriptor(data, 8)))
        } else if tag == 1 {
            proof {
                bytes::lemma_pow256();
                bytes::lemma_le_value_bound(data@.subrange(40, 44));
            }
            let line: u64 = bytes::read_le(slice_subrange(data, 40, 44));
            Some(
                Command::Panic {
                    message: read_str_descriptor(data, 8),
                    filename: read_str_descriptor(data, 24),
                    line: line as u32,
                },
            )
        } else if tag == 2 && data[4] <= 1 {
            Some(Command::Complete { success: data[4] == 1 })
        } else {
            None
        }
    }
}

fn read_str_descriptor(data: &[u8], offset: usize) -> (descriptor: StrDescriptor)
    requires
        offset + 16 <= data@.len(),
        offset <= 0x1000,
    ensures
        descriptor == command_str(data@, offset as int),
{
    StrDescriptor {
        gpa: bytes::word_at(data, offset),
        len: bytes::word_at(data, offset + 8),
    }
}

} // verus!

//! Support for running a VM's VPs.

use super::image::string_from_utf8;
use super::load;
use super::load::TestInfo;
use super::protocol::{
    Command, StrDescriptor, GIC_DISTRIBUTOR_BASE, GIC_INTERRUPT_COUNT, GIC_REDISTRIBUTOR_BASE,
};
use crate::bytes;
use crate::cca::vp_state::Registers;
use crate::gic::model;
use crate::gic::model::GicV3Model;
use crate::gic::registers::VpIndex;
use crate::text;
use crate::topology::{Aarch64Topology, GicVersion};
use vstd::prelude::*;
use vstd::string::StringExecFns;
use vstd::utf8;

verus! {

/// The guest address that commands are written to.
pub const COMMAND_ADDRESS: u64 = 0xffff_0000;

/// How much memory a guest has.
pub const RAM_SIZE: u64 = 0x40_0000;

/// The topology of the test platform, which has a single processor.
pub fn test_topology() -> (topology: Aarch64Topology)
    ensures
        topology.mpidrs@ == seq![0u64],
        topology.gic_version == (GicVersion::V3 { redistributors_base: GIC_REDISTRIBUTOR_BASE }),
        topology.gic_distributor_base == GIC_DISTRIBUTOR_BASE,
        topology.gic_nr_irqs == GIC_INTERRUPT_COUNT,
{
    Aarch64Topology {
        mpidrs: vec![0u64],
        gic_version: GicVersion::V3 { redistributors_base: GIC_REDISTRIBUTOR_BASE },
        gic_distributor_base: GIC_DISTRIBUTOR_BASE,
        gic_nr_irqs: GIC_INTERRUPT_COUNT,
    }
}

/// The test platform has a software GIC, at the addresses that guests expect.
pub proof fn test_platform_has_a_gic(topology: Aarch64Topology)
    requires
        topology.mpidrs@ == seq![0u64],
        topology.gic_version == (GicVersion::V3 { redistributors_base: GIC_REDISTRIBUTOR_BASE }),
        topology.gic_distributor_base == GIC_DISTRIBUTOR_BASE,
        topology.gic_nr_irqs == GIC_INTERRUPT_COUNT,
    ensures
        topology.wf(),
        model::frames_aligned(&topology),
        model::model_error(&topology) is None,
{
}

/// How a test ended.
#[derive(Debug)]
pub enum TestResult {
    Passed,
    Failed,
    Faulted { vp_index: VpIndex, reason: String, regs: Option<Registers> },
}

/// What a processor reports while a test runs.
#[derive(Debug)]
pub enum VpEvent {
    TestComplete { success: bool },
    Halt { vp_index: VpIndex, reason: String, regs: Option<Registers> },
}

/// How a test ended, by the first event of its processor.
pub fn test_result(event: VpEvent) -> (result: TestResult)
    ensures
        match event {
            VpEvent::TestComplete { success } => result == (if success {
                TestResult::Passed
            } else {
                TestResult::Failed
            }),
            VpEvent::Halt { vp_index, reason, regs } => result == (TestResult::Faulted {
                vp_index,
                reason,
                regs,
            }),
        },
{
    match event {
        VpEvent::TestComplete { success } => if success {
            TestResult::Passed
        } else {
            TestResult::Failed
        },
        VpEvent::Halt { vp_index, reason, regs } => TestResult::Faulted { vp_index, reason, regs },
    }
}

/// The place of the first test of a name.
pub open spec fn test_named(tests: Seq<(Seq<char>, u64)>, name: Seq<char>, from: int) -> Option<int>
    decreases tests.len() - from,
{
    if from < 0 || from >= tests.len() {
        None
    } else if tests[from].0 == name {
        Some(from)
    } else {
        test_named(tests, name, from + 1)
    }
}

/// The tests of the first `n` names, or the first of these names that there is
/// no test of.
pub open spec fn tests_named(
    tests: Seq<(Seq<char>, u64)>,
    names: Seq<Seq<char>>,
    n: nat,
) -> Result<Seq<(Seq<char>, u64)>, Seq<char>>
    decreases n,
{
    if n == 0 {
        Ok(Seq::empty())
    } else {
        match tests_named(tests, names, (n - 1) as nat) {
            Err(name) => Err(name),
            Ok(selected) => match test_named(tests, names[n - 1], 0) {
                Some(i) => Ok(selected.push(tests[i])),
                None => Err(names[n - 1]),
            },
        }
    }
}

/// The views of names.
pub open spec fn name_views(names: Seq<String>) -> Seq<Seq<char>> {
    Seq::new(names.len(), |i: int| names[i]@)
}

proof fn lemma_first_missing(
    tests: Seq<(Seq<char>, u64)>,
    names: Seq<Seq<char>>,
    i: nat,
    n: nat,
)
    requires
        i <= n,
        tests_named(tests, names, i) is Err,
    ensures
        tests_named(tests, names, n) == tests_named(tests, names, i),
    decreases n,
{
    if i < n {
        lemma_first_missing(tests, names, i, (n - 1) as nat);
    }
}

/// `find_test` finds what `test_named` names.
fn find_test(tests: &Vec<TestInfo>, name: &String) -> (test: Option<TestInfo>)
    ensures
        match test_named(load::test_views(tests@), name@, 0) {
            Some(i) => test matches Some(test) && 0 <= i < tests@.len() && test@ == tests@[i]@,
            None => test is None,
        },
{
    let ghost views = load::test_views(tests@);
    let mut i: usize = 0;
    while i < tests.len()
        invariant
            i <= tests@.len(),
            views == load::test_views(tests@),
            test_named(views, name@, 0) == test_named(views, name@, i as int),
        decreases tests@.len() - i,
    {
        if tests[i].name == *name {
            return Some(tests[i].clone());
        }
        i = i + 1;
    }
    None
}

/// The tests to run: those that are asked for, in that order, or all of them if
/// none is. An error names the first one that there is not.
pub fn select_tests(available_tests: Vec<TestInfo>, names: &Vec<String>) -> (tests: Result<
    Vec<TestInfo>,
    String,
>)
    ensures
        names@.len() == 0 ==> tests == Ok::<_, String>(available_tests),
        names@.len() > 0 ==> match (tests, tests_named(
            load::test_views(available_tests@),
            name_views(names@),
            names@.len(),
        )) {
            (Ok(tests), Ok(expected)) => load::test_views(tests@) == expected,
            (Err(name), Err(expected)) => name@ == expected,
            _ => false,
        },
{
    if names.is_empty() {
        return Ok(available_tests);
    }
    let ghost views = load::test_views(available_tests@);
    let ghost wanted = name_views(names@);
    let mut tests: Vec<TestInfo> = Vec::new();
    let mut i: usize = 0;
    proof {
        assert(load::test_views(tests@) =~= Seq::empty());
    }
    while i < names.len()
        invariant
            i <= names@.len(),
            views == load::test_views(available_tests@),
            wanted == name_views(names@),
            tests_named(views, wanted, i as nat) == Ok::<_, Seq<char>>(load::test_views(tests@)),
        decreases names@.len() - i,
    {
        match find_test(&available_tests, &names[i]) {
            Some(test) => {
                let ghost before = load::test_views(tests@);
                tests.push(test);
                proof {
                    assert(load::test_views(tests@) =~= before.push(test@));
                }
            },
            None => {
                proof {
                    lemma_first_missing(views, wanted, (i + 1) as nat, names@.len());
                }
                return Err(names[i].clone());
            },
        }
        i = i + 1;
    }
    Ok(tests)
}

/// Whether every test passed.
pub fn all_passed(results: &Vec<TestResult>) -> (success: bool)
    ensures
        success == (forall|i: int| 0 <= i < results@.len() ==> #[trigger] results@[i] is Passed),
{
    let mut success = true;
    let mut i: usize = 0;
    while i < results.len()
        invariant
            i <= results@.len(),
            success == (forall|j: int| 0 <= j < i ==> #[trigger] results@[j] is Passed),
        decreases results@.len() - i,
    {
        match &results[i] {
            TestResult::Passed => {},
            TestResult::Failed => {
                success = false;
            },
            TestResult::Faulted { .. } => {
                success = false;
            },
        }
        i = i + 1;
    }
    success
}

/// The number that up to eight bytes hold.
pub fn widen(d: &[u8]) -> (value: u64)
    requires
        d@.len() <= 8,
    ensures
        value as nat == bytes::le_value(d@),
{
    bytes::read_le(d)
}

/// What answers a guest's accesses to devices.
#[derive(Debug)]
pub struct IoHandler {
    /// The interrupt controller, where the guest has one in memory.
    pub gic: Option<GicV3Model>,
}

impl IoHandler {
    pub open spec fn wf(&self) -> bool {
        self.gic matches Some(gic) ==> gic.wf()
    }

    /// Whether an address belongs to the interrupt controller.
    pub open spec fn gic_claims(&self, address: u64) -> bool {
        self.gic matches Some(gic) && gic@.claims(address)
    }

    /// Whether an address lies in a register frame of the interrupt controller.
    pub open spec fn gic_has_frame(&self, address: u64) -> bool {
        self.gic matches Some(gic) && gic@.has_frame(address)
    }

    pub fn is_mmio(&self, address: u64) -> (mmio: bool)
        requires
            self.wf(),
        ensures
            mmio == self.gic_claims(address),
    {
        match &self.gic {
            Some(gic) => gic.contains(address),
            None => false,
        }
    }

    /// Answers a read: what is not the interrupt controller's reads as ones.
    pub fn read_mmio(&self, address: u64, data: &mut [u8])
        requires
            self.wf(),
            self.gic_has_frame(address) ==> old(data)@.len() > 0,
        ensures
            final(data)@ == (if self.gic_claims(address) {
                self.gic->0@.read(address, old(data)@.len())
            } else {
                Seq::new(old(data)@.len(), |i: int| 0xffu8)
            }),
    {
        if let Some(gic) = &self.gic {
            if gic.read(address, data) {
                return ;
            }
        }
        bytes::fill(data, 0xff);
    }

    /// Takes a write. A write to the command address gives the guest address of
    /// a command; what is not the interrupt controller's is dropped.
    pub fn write_mmio(&mut self, address: u64, data: &[u8]) -> (command: Option<u64>)
        requires
            old(self).wf(),
            address != COMMAND_ADDRESS && old(self).gic_has_frame(address) ==> data@.len() > 0,
            address == COMMAND_ADDRESS ==> data@.len() <= 8,
        ensures
            final(self).wf(),
            command == (if address == COMMAND_ADDRESS {
                Some(bytes::le_value(data@) as u64)
            } else {
                None
            }),
            final(self).gic is Some == old(self).gic is Some,
            old(self).gic is Some ==> final(self).gic->0@ == (if address != COMMAND_ADDRESS
                && old(self).gic_claims(address) {
                old(self).gic->0@.write(address, data@)
            } else {
                old(self).gic->0@
            }),
    {
        if address == COMMAND_ADDRESS {
            return Some(widen(data));
        }
        if let Some(gic) = &mut self.gic {
            gic.write(address, data);
        }
        None
    }

    /// Answers a read of a port, which reads as ones.
    pub fn read_io(&self, _port: u16, data: &mut [u8])
        ensures
            final(data)@ == Seq::new(old(data)@.len(), |i: int| 0xffu8),
    {
        bytes::fill(data, 0xff);
    }
}

/// Why a command of a guest is not carried out.
#[derive(Clone, Copy, Debug, PartialEq, Eq, Structural)]
pub enum CommandError {
    /// The bytes are no command.
    BadCommand,
    /// A string is not UTF-8.
    NotUtf8,
}

/// Where a guest panicked.
#[derive(Clone, Copy, Debug, PartialEq, Eq, Structural)]
pub struct PanicLocation {
    pub filename: StrDescriptor,
    pub line: u32,
}

/// What a command asks for.
#[derive(Clone, Copy, Debug, PartialEq, Eq, Structural)]
pub struct CommandAction {
    /// The message to show.
    pub message: Option<StrDescriptor>,
    /// Where the guest panicked.
    pub location: Option<PanicLocation>,
    /// Whether the test is over, and passed.
    pub complete: Option<bool>,
}

/// What a command asks for.
pub open spec fn command_action(command: Command) -> CommandAction {
    match command {
        Command::Log(message) => CommandAction {
            message: Some(message),
            location: None,
            complete: None,
        },
        Command::Panic { message, filename, line } => CommandAction {
            message: Some(message),
            location: if filename.len > 0 {
                Some(PanicLocation { filename, line })
            } else {
                None
            },
            complete: Some(false),
        },
        Command::Complete { success } => CommandAction {
            message: None,
            location: None,
            complete: Some(success),
        },
    }
}

/// What the bytes of a command ask for. The strings have to be read before the
/// test is over: where one cannot be read, the command fails.
pub fn handle_command(buf: &[u8]) -> (action: Result<CommandAction, CommandError>)
    ensures
        action == (match Command::decode(buf@) {
            Some(command) => Ok(command_action(command)),
            None => Err(CommandError::BadCommand),
        }),
{
    match Command::try_read_from_bytes(buf) {
        Some(Command::Log(message)) => Ok(
            CommandAction { message: Some(message), location: None, complete: None },
        ),
        Some(Command::Panic { message, filename, line }) => {
            let location = if filename.len > 0 {
                Some(PanicLocation { filename, line })
            } else {
                None
            };
            Ok(CommandAction { message: Some(message), location, complete: Some(false) })
        },
        Some(Command::Complete { success }) => Ok(
            CommandAction { message: None, location: None, complete: Some(success) },
        ),
        None => Err(CommandError::BadCommand),
    }
}

/// The text of a string that was read from guest memory.
pub fn read_str(buf: Vec<u8>) -> (text: Result<String, CommandError>)
    ensures
        match text {
            Ok(text) => utf8::valid_utf8(buf@) && text@ == utf8::decode_utf8(buf@),
            Err(error) => !utf8::valid_utf8(buf@) && error == CommandError::NotUtf8,
        },
{
    match string_from_utf8(buf) {
        Some(text) => Ok(text),
        None => Err(CommandError::NotUtf8),
    }
}

/// Where a guest panicked, as a file name and a line.
pub fn panic_location(filename: &String, line: u32) -> (location: String)
    ensures
        location@ == filename@ + ":"@ + text::decimal(line as nat),
{
    let number = text::decimal_text(line as u64);
    let mut location = filename.clone();
    location.append(":");
    location.append(number.as_str());
    location
}

} // verus!

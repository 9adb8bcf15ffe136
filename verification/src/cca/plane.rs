//! The plane that a virtual processor runs in: the page through which it is
//! entered and left, and what the kernel driver is asked to do for it.

use super::vtl::GuestVtl;
use crate::memory_range::{MemoryRange, PAGE_SIZE};
use crate::rsi::{
    cca_rsi_plane_entry, cca_rsi_plane_exit, cca_rsi_plane_run, RSI_PLANE_ENTER_FLAGS_TRAP_SIMD,
    RSI_PLANE_GIC_NUM_LRS, RSI_PLANE_NR_GPRS,
};
use crate::sysreg::SystemReg;
use vstd::prelude::*;
use vstd::slice::slice_subrange;

verus! {

/// EL1 with its own stack pointer, and all exceptions masked.
pub const DEFAULT_PSTATE: u64 = 0x3c5;

/// The name of the first of the general-purpose registers, which are numbered
/// in order.
pub const HV_ARM64_REGISTER_X0: u32 = 0x2_0000;

/// The name of the last of them, the link register.
pub const HV_ARM64_REGISTER_XLR: u32 = 0x2_001e;

/// How the realm monitor numbers a system register.
pub fn encode_rsi_sysreg(sysreg: SystemReg) -> (encoding: u64)
    ensures
        encoding == sysreg.spec_op0() * 0x4000 + sysreg.spec_op1() * 0x800 + sysreg.spec_crn()
            * 0x80 + sysreg.spec_crm() * 8 + sysreg.spec_op2(),
        encoding == sysreg.0,
{
    proof {
        sysreg.lemma_fields();
    }
    sysreg.op0() as u64 * 0x4000 + sysreg.op1() as u64 * 0x800 + sysreg.crn() as u64 * 0x80
        + sysreg.crm() as u64 * 8 + sysreg.op2() as u64
}

/// Memory that the realm monitor can reach.
#[derive(Debug)]
pub struct MemoryBlock {
    /// What it holds.
    pub data: Vec<u8>,
    /// Where it starts in its first page.
    pub offset_in_page: usize,
    /// The page numbers that it lies in.
    pub pfns: Vec<u64>,
}

/// Runner backing for CCA partitions.
pub struct Cca {
    pub plane_run: cca_rsi_plane_run,
    /// The page numbers of the page that holds `plane_run`.
    pub pfns: Vec<u64>,
}

impl Cca {
    /// Create new CCA runner backing.
    pub fn new(plane_run: &MemoryBlock) -> (cca: Cca)
        requires
            plane_run.offset_in_page == 0,
            plane_run.data@.len() >= 0x1000,
        ensures
            cca.plane_run.encode() == plane_run.data@.take(0x1000),
            cca.pfns@ == plane_run.pfns@,
    {
        let page = slice_subrange(plane_run.data.as_slice(), 0, 0x1000);
        let pfns = plane_run.pfns.clone();
        proof {
            assert(page@ =~= plane_run.data@.take(0x1000));
            assert(pfns@ =~= plane_run.pfns@);
        }
        Cca { plane_run: cca_rsi_plane_run::from_bytes(page), pfns }
    }

    /// Whether the page has an address.
    pub open spec fn has_address(&self) -> bool {
        self.pfns@.len() > 0 && self.pfns@[0] * PAGE_SIZE <= u64::MAX
    }

    /// The physical address of the page.
    pub fn plane_run_phys(&self) -> (address: u64)
        requires
            self.has_address(),
        ensures
            address == self.pfns@[0] * PAGE_SIZE,
    {
        self.pfns[0] * PAGE_SIZE
    }

    /// Stores a general-purpose register of the plane, if `name` is one.
    pub fn try_set_reg(
        runner: &mut ProcessorRunner,
        _vtl: GuestVtl,
        name: HvRegisterName,
        value: HvRegisterValue,
    ) -> (set: bool)
        ensures
            set == name.gpr() is Some,
            final(runner).keeps_all_but_gprs(*old(runner)),
            final(runner).state.plane_run.entry.gprs@ == (match name.gpr() {
                Some(i) => old(runner).state.plane_run.entry.gprs@.update(i, value.low),
                None => old(runner).state.plane_run.entry.gprs@,
            }),
    {
        if name.0 >= HV_ARM64_REGISTER_X0 && name.0 <= HV_ARM64_REGISTER_XLR {
            runner.cca_set_entry_gpr((name.0 - HV_ARM64_REGISTER_X0) as usize, value.as_u64());
            true
        } else {
            false
        }
    }

    /// Whether a register must be flushed before it is accessed, which none
    /// must.
    pub fn must_flush_regs_on(_runner: &ProcessorRunner, _name: HvRegisterName) -> (flush: bool)
        ensures
            !flush,
    {
        false
    }

    /// Loads a general-purpose register of the plane, if `name` is one.
    pub fn try_get_reg(runner: &ProcessorRunner, _vtl: GuestVtl, name: HvRegisterName) -> (value:
        Option<HvRegisterValue>)
        ensures
            value == (match name.gpr() {
                Some(i) => Some(
                    HvRegisterValue { low: runner.state.plane_run.entry.gprs@[i], high: 0 },
                ),
                None => None,
            }),
    {
        if name.0 >= HV_ARM64_REGISTER_X0 && name.0 <= HV_ARM64_REGISTER_XLR {
            let value: u64 = runner.cca_get_entry_gpr((name.0 - HV_ARM64_REGISTER_X0) as usize);
            Some(HvRegisterValue { low: value, high: 0 })
        } else {
            None
        }
    }
}

/// The name of a virtual processor register.
#[derive(Clone, Copy, Debug, PartialEq, Eq, Structural)]
pub struct HvRegisterName(pub u32);

impl HvRegisterName {
    /// Which general-purpose register the name stands for.
    pub open spec fn gpr(self) -> Option<int> {
        if HV_ARM64_REGISTER_X0 <= self.0 <= HV_ARM64_REGISTER_XLR {
            Some(self.0 - HV_ARM64_REGISTER_X0)
        } else {
            None
        }
    }
}

/// The value of a virtual processor register.
#[derive(Clone, Copy, Debug, PartialEq, Eq, Structural)]
pub struct HvRegisterValue {
    pub low: u64,
    pub high: u64,
}

impl HvRegisterValue {
    /// The value of a register of 64 bits.
    pub fn as_u64(&self) -> (value: u64)
        ensures
            value == self.low,
    {
        self.low
    }
}

/// What runs a virtual processor in its plane.
pub struct ProcessorRunner {
    pub hcl: Hcl,
    pub state: Cca,
    /// The first word of the context that is shared with the kernel driver.
    pub context: u64,
}

impl ProcessorRunner {
    /// The runner with another page.
    pub open spec fn with_run(self, plane_run: cca_rsi_plane_run) -> ProcessorRunner {
        ProcessorRunner { state: Cca { plane_run, ..self.state }, ..self }
    }

    /// The runner with another entry buffer.
    pub open spec fn with_entry(self, entry: cca_rsi_plane_entry) -> ProcessorRunner {
        self.with_run(cca_rsi_plane_run { entry, ..self.state.plane_run })
    }

    /// Whether the runner differs from another one in the general-purpose
    /// registers of the entry buffer alone.
    pub open spec fn keeps_all_but_gprs(self, other: ProcessorRunner) -> bool {
        self == other.with_entry(
            cca_rsi_plane_entry {
                gprs: self.state.plane_run.entry.gprs,
                ..other.state.plane_run.entry
            },
        )
    }

    /// Returns a reference to the current VTL's CPU context.
    pub fn cpu_context(&self) -> (context: &u64)
        ensures
            *context == self.context,
    {
        &self.context
    }

    /// Returns a mutable reference to the current VTL's CPU context.
    pub fn cpu_context_mut(&mut self) -> (context: &mut u64)
        ensures
            *context == old(self).context,
            *final(self) == (ProcessorRunner { context: *final(context), ..*old(self) }),
    {
        &mut self.context
    }

    /// Returns a mutable reference to the current VTL's CCA RSI plane run structure.
    pub fn cca_rsi_plane_run_mut(&mut self) -> (run: &mut cca_rsi_plane_run)
        ensures
            *run == old(self).state.plane_run,
            *final(self) == old(self).with_run(*final(run)),
    {
        &mut self.state.plane_run
    }

    /// Returns a mutable reference to the current VTL's plane entry structure.
    pub fn cca_rsi_plane_entry(&mut self) -> (entry: &mut cca_rsi_plane_entry)
        ensures
            *entry == old(self).state.plane_run.entry,
            *final(self) == old(self).with_entry(*final(entry)),
    {
        &mut self.state.plane_run.entry
    }

    /// Returns a reference to the current VTL's plane exit structure.
    pub fn cca_rsi_plane_exit(&self) -> (exit: &cca_rsi_plane_exit)
        ensures
            *exit == self.state.plane_run.exit,
    {
        &self.state.plane_run.exit
    }

    /// Set the value of the plane entry flags.
    pub fn cca_set_entry_flags(&mut self, value: u64)
        ensures
            *final(self) == old(self).with_entry(
                cca_rsi_plane_entry { flags: value, ..old(self).state.plane_run.entry },
            ),
    {
        self.cca_rsi_plane_entry().flags = value;
    }

    /// Set the value of the plane entry PC.
    pub fn cca_set_entry_pc(&mut self, value: u64)
        ensures
            *final(self) == old(self).with_entry(
                cca_rsi_plane_entry { pc: value, ..old(self).state.plane_run.entry },
            ),
    {
        self.cca_rsi_plane_entry().pc = value;
    }

    /// Set the value of the plane entry GPRs.
    pub fn cca_set_entry_gprs(&mut self, values: [u64; RSI_PLANE_NR_GPRS])
        ensures
            *final(self) == old(self).with_entry(
                cca_rsi_plane_entry { gprs: values, ..old(self).state.plane_run.entry },
            ),
    {
        self.cca_rsi_plane_entry().gprs = values;
    }

    /// Set the value of the plane entry gicv3_hcr register.
    pub fn cca_set_entry_gicv3_hcr(&mut self, value: u64)
        ensures
            *final(self) == old(self).with_entry(
                cca_rsi_plane_entry { gicv3_hcr: value, ..old(self).state.plane_run.entry },
            ),
    {
        self.cca_rsi_plane_entry().gicv3_hcr = value;
    }

    /// Set the value of the plane entry GIC v3 LRs.
    pub fn cca_set_entry_gicv3_lrs(&mut self, values: [u64; RSI_PLANE_GIC_NUM_LRS])
        ensures
            *final(self) == old(self).with_entry(
                cca_rsi_plane_entry { gicv3_lrs: values, ..old(self).state.plane_run.entry },
            ),
    {
        self.cca_rsi_plane_entry().gicv3_lrs = values;
    }

    /// Set the value of a single plane entry GPR.
    pub fn cca_set_entry_gpr(&mut self, register: usize, value: u64)
        requires
            register < RSI_PLANE_NR_GPRS,
        ensures
            final(self).keeps_all_but_gprs(*old(self)),
            final(self).state.plane_run.entry.gprs@
                == old(self).state.plane_run.entry.gprs@.update(register as int, value),
    {
        self.cca_rsi_plane_entry().gprs[register] = value;
    }

    /// Get the value of a single plane entry GPR.
    pub fn cca_get_entry_gpr(&self, register: usize) -> (value: u64)
        requires
            register < RSI_PLANE_NR_GPRS,
        ensures
            value == self.state.plane_run.entry.gprs@[register as int],
    {
        self.state.plane_run.entry.gprs[register]
    }

    /// What the kernel driver is asked, to flush the given value for a system
    /// register to the RMM.
    pub fn cca_sysreg_write(&self, vtl: GuestVtl, name: SystemReg, value: u64) -> (request: Ioctl<
        mshv_rsi_sysreg_write,
    >)
        ensures
            request.fd == self.hcl.mshv_vtl.fd,
            request.argument == (mshv_rsi_sysreg_write { vtl, sysreg: name.0 as u64, value }),
    {
        self.hcl.rsi_sysreg_write(vtl, encode_rsi_sysreg(name), value)
    }

    /// Update the address of the `plane_run` structure in the shared context.
    pub fn cca_set_plane_enter(&mut self)
        requires
            old(self).state.has_address(),
        ensures
            *final(self) == (ProcessorRunner {
                context: (old(self).state.pfns@[0] * PAGE_SIZE) as u64,
                ..*old(self)
            }),
    {
        let address: u64 = self.state.plane_run_phys();
        *self.cpu_context_mut() = address;
    }

    /// Set flag to enable trapping of SIMD operations in the lower VTL.
    pub fn cca_plane_trap_simd(&mut self)
        ensures
            *final(self) == old(self).with_entry(
                cca_rsi_plane_entry {
                    flags: old(self).state.plane_run.entry.flags | RSI_PLANE_ENTER_FLAGS_TRAP_SIMD,
                    ..old(self).state.plane_run.entry
                },
            ),
    {
        let entry = self.cca_rsi_plane_entry();
        entry.flags = entry.flags | RSI_PLANE_ENTER_FLAGS_TRAP_SIMD;
    }

    /// Unset flag that enables trapping of SIMD operations in lower VTL
    /// (i.e., SIMD operations are not trapped).
    pub fn cca_plane_no_trap_simd(&mut self)
        ensures
            *final(self) == old(self).with_entry(
                cca_rsi_plane_entry {
                    flags: old(self).state.plane_run.entry.flags
                        & !RSI_PLANE_ENTER_FLAGS_TRAP_SIMD,
                    ..old(self).state.plane_run.entry
                },
            ),
    {
        let entry = self.cca_rsi_plane_entry();
        entry.flags = entry.flags & !RSI_PLANE_ENTER_FLAGS_TRAP_SIMD;
    }

    /// Set the default value for PSTATE for the lower VTL.
    pub fn cca_set_default_pstate(&mut self)
        ensures
            *final(self) == old(self).with_entry(
                cca_rsi_plane_entry {
                    pstate: DEFAULT_PSTATE,
                    ..old(self).state.plane_run.entry
                },
            ),
    {
        self.cca_rsi_plane_entry().pstate = DEFAULT_PSTATE;
    }
}

/// What the kernel driver says of the realm.
#[allow(non_camel_case_types)]
#[derive(Clone, Copy, Debug, PartialEq, Eq, Structural)]
pub struct mshv_realm_config {
    pub ipa_width: u64,
    pub algorithm: u64,
    pub num_aux_planes: u64,
    pub gicv3_vtr: u64,
}

/// Asks the kernel driver to write a system register of a VTL.
#[allow(non_camel_case_types)]
#[derive(Clone, Copy, Debug, PartialEq, Eq, Structural)]
pub struct mshv_rsi_sysreg_write {
    pub vtl: GuestVtl,
    pub sysreg: u64,
    pub value: u64,
}

/// Asks the kernel driver to give memory to a plane.
#[allow(non_camel_case_types)]
#[derive(Clone, Copy, Debug, PartialEq, Eq, Structural)]
pub struct mshv_rsi_set_mem_perm {
    pub plane: u64,
    pub base_addr: u64,
    pub top_addr: u64,
}

/// Representation of the Realm config data available to Plane 0.
///
/// * ipa_width is the size of the realm protected memory space
/// * hash_algo is the hash alg used for measurements
/// * num_aux_planes indicates how many low-privilege planes exist
/// * gicv3_vtr shows part of the GICv3 configuration for the
///     realm (needed for GIC virtualisation)
#[derive(Clone, Copy, Debug, PartialEq, Eq, Structural)]
pub struct RsiRealmConfig {
    ipa_width: u64,
    hash_algo: u64,
    num_aux_planes: u64,
    gicv3_vtr: u64,
}

impl RsiRealmConfig {
    /// The configuration that the kernel driver reports.
    pub closed spec fn reported(config: mshv_realm_config) -> RsiRealmConfig {
        RsiRealmConfig {
            ipa_width: config.ipa_width,
            hash_algo: config.algorithm,
            num_aux_planes: config.num_aux_planes,
            gicv3_vtr: config.gicv3_vtr,
        }
    }

    pub closed spec fn spec_ipa_width(&self) -> u64 {
        self.ipa_width
    }

    /// The address width that is read of a reported configuration is the one that
    /// the configuration gives.
    pub proof fn reported_width_is_the_configured_one(config: mshv_realm_config)
        ensures
            RsiRealmConfig::reported(config).spec_ipa_width() == config.ipa_width,
    {
    }

    /// Get the IPA width of the realm
    pub fn ipa_width(&self) -> (width: u64)
        ensures
            width == self.spec_ipa_width(),
    {
        self.ipa_width
    }
}

impl From<mshv_realm_config> for RsiRealmConfig {
    fn from(value: mshv_realm_config) -> (config: RsiRealmConfig) {
        RsiRealmConfig {
            ipa_width: value.ipa_width,
            hash_algo: value.algorithm,
            num_aux_planes: value.num_aux_planes,
            gicv3_vtr: value.gicv3_vtr,
        }
    }
}

impl vstd::std_specs::convert::FromSpecImpl<mshv_realm_config> for RsiRealmConfig {
    open spec fn obeys_from_spec() -> bool {
        true
    }

    open spec fn from_spec(value: mshv_realm_config) -> RsiRealmConfig {
        RsiRealmConfig::reported(value)
    }
}

/// A call of the kernel driver: the file that it goes to, and its argument.
#[derive(Debug)]
pub struct Ioctl<T> {
    pub fd: i32,
    pub argument: T,
}

/// The kernel driver's file for the VTLs of a partition.
#[derive(Clone, Copy, Debug, PartialEq, Eq, Structural)]
pub struct MshvVtl {
    pub fd: i32,
}

impl MshvVtl {
    /// Asks for the realm-specific parameters from the RMM; the argument is
    /// overwritten with them.
    pub fn get_realm_config(&self) -> (request: Ioctl<mshv_realm_config>)
        ensures
            request.fd == self.fd,
            request.argument == (mshv_realm_config {
                ipa_width: 0,
                algorithm: 0,
                num_aux_planes: 0,
                gicv3_vtr: 0,
            }),
    {
        Ioctl {
            fd: self.fd,
            argument: mshv_realm_config {
                ipa_width: 0,
                algorithm: 0,
                num_aux_planes: 0,
                gicv3_vtr: 0,
            },
        }
    }

    /// Asks to write the value of a system register for the given VTL
    pub fn rsi_sysreg_write(&self, vtl: GuestVtl, sysreg: u64, value: u64) -> (request: Ioctl<
        mshv_rsi_sysreg_write,
    >)
        ensures
            request.fd == self.fd,
            request.argument == (mshv_rsi_sysreg_write { vtl, sysreg, value }),
    {
        Ioctl { fd: self.fd, argument: mshv_rsi_sysreg_write { vtl, sysreg, value } }
    }

    /// Asks to assign the given memory range to the VTL, which has to be VTL0:
    /// its plane is the first below the paravisor's own.
    pub fn rsi_set_mem_perm(&self, vtl: GuestVtl, range: &MemoryRange) -> (request: Ioctl<
        mshv_rsi_set_mem_perm,
    >)
        requires
            vtl == GuestVtl::Vtl0,
        ensures
            request.fd == self.fd,
            request.argument == (mshv_rsi_set_mem_perm {
                plane: 1,
                base_addr: range.spec_start(),
                top_addr: range.spec_end(),
            }),
    {
        Ioctl {
            fd: self.fd,
            argument: mshv_rsi_set_mem_perm {
                plane: 1,
                base_addr: range.start(),
                top_addr: range.end(),
            },
        }
    }
}

/// The paravisor's access to the hypervisor.
#[derive(Clone, Copy, Debug, PartialEq, Eq, Structural)]
pub struct Hcl {
    pub mshv_vtl: MshvVtl,
}

impl Hcl {
    /// Asks for the realm configuration.
    pub fn get_realm_config(&self) -> (request: Ioctl<mshv_realm_config>)
        ensures
            request.fd == self.mshv_vtl.fd,
            request.argument == (mshv_realm_config {
                ipa_width: 0,
                algorithm: 0,
                num_aux_planes: 0,
                gicv3_vtr: 0,
            }),
    {
        self.mshv_vtl.get_realm_config()
    }

    /// Asks to write a system register through the realm services.
    pub fn rsi_sysreg_write(&self, vtl: GuestVtl, sysreg: u64, value: u64) -> (request: Ioctl<
        mshv_rsi_sysreg_write,
    >)
        ensures
            request.fd == self.mshv_vtl.fd,
            request.argument == (mshv_rsi_sysreg_write { vtl, sysreg, value }),
    {
        self.mshv_vtl.rsi_sysreg_write(vtl, sysreg, value)
    }

    /// Asks to set memory permissions.
    pub fn rsi_set_mem_perm(&self, vtl: GuestVtl, range: MemoryRange) -> (request: Ioctl<
        mshv_rsi_set_mem_perm,
    >)
        requires
            vtl == GuestVtl::Vtl0,
        ensures
            request.fd == self.mshv_vtl.fd,
            request.argument == (mshv_rsi_set_mem_perm {
                plane: 1,
                base_addr: range.spec_start(),
                top_addr: range.spec_end(),
            }),
    {
        self.mshv_vtl.rsi_set_mem_perm(vtl, &range)
    }
}

/// An error of the kernel driver.
#[derive(Clone, Copy, Debug, PartialEq, Eq, Structural)]
pub enum HvError {
    InvalidRegisterValue,
}

/// Why a register could not be written. The driver's error number says more.
#[derive(Clone, Copy, Debug, PartialEq, Eq, Structural)]
pub enum SetRegError {
    Ioctl(i32),
}

/// Why a register could not be read. The driver's error number says more.
#[derive(Clone, Copy, Debug, PartialEq, Eq, Structural)]
pub enum GetRegError {
    Ioctl(i32),
}

/// What becomes of the kernel driver's answer about the realm, which is an
/// error number where it refuses.
pub fn realm_config_reply(reply: Result<mshv_realm_config, i32>) -> (config: Result<
    RsiRealmConfig,
    HvError,
>)
    ensures
        config == (match reply {
            Ok(config) => Ok(RsiRealmConfig::reported(config)),
            Err(_) => Err(HvError::InvalidRegisterValue),
        }),
{
    match reply {
        Ok(config) => Ok(RsiRealmConfig::from(config)),
        Err(_) => Err(HvError::InvalidRegisterValue),
    }
}

/// What becomes of the kernel driver's answer to a system register write.
pub fn sysreg_write_reply(reply: Result<(), i32>) -> (result: Result<(), SetRegError>)
    ensures
        result == (match reply {
            Ok(()) => Ok(()),
            Err(errno) => Err(SetRegError::Ioctl(errno)),
        }),
{
    match reply {
        Ok(()) => Ok(()),
        Err(errno) => Err(SetRegError::Ioctl(errno)),
    }
}

/// What becomes of the kernel driver's answer to a change of permissions.
pub fn set_mem_perm_reply(reply: Result<(), i32>) -> (result: Result<(), HvError>)
    ensures
        result == (match reply {
            Ok(()) => Ok(()),
            Err(_) => Err(HvError::InvalidRegisterValue),
        }),
{
    match reply {
        Ok(()) => Ok(()),
        Err(_) => Err(HvError::InvalidRegisterValue),
    }
}

/// A register that was stored is loaded again, and the other registers keep
/// their values.
pub proof fn stored_registers_are_loaded(
    before: ProcessorRunner,
    after: ProcessorRunner,
    stored: HvRegisterName,
    loaded: HvRegisterName,
    value: HvRegisterValue,
)
    requires
        stored.gpr() is Some,
        loaded.gpr() is Some,
        after.state.plane_run.entry.gprs@ == before.state.plane_run.entry.gprs@.update(
            stored.gpr()->0,
            value.low,
        ),
    ensures
        after.state.plane_run.entry.gprs@[loaded.gpr()->0] == (if stored == loaded {
            value.low
        } else {
            before.state.plane_run.entry.gprs@[loaded.gpr()->0]
        }),
{
}

/// System registers that the realm monitor numbers alike are the same register.
pub proof fn rsi_encoding_is_injective(a: SystemReg, b: SystemReg)
    requires
        a.spec_op0() * 0x4000 + a.spec_op1() * 0x800 + a.spec_crn() * 0x80 + a.spec_crm() * 8
            + a.spec_op2() == b.spec_op0() * 0x4000 + b.spec_op1() * 0x800 + b.spec_crn() * 0x80
            + b.spec_crm() * 8 + b.spec_op2(),
    ensures
        a == b,
{
    a.lemma_fields();
    b.lemma_fields();
}

/// Trapping SIMD instructions and then not trapping them leaves every other
/// flag alone.
pub proof fn simd_trap_is_one_flag(flags: u64)
    ensures
        (flags | RSI_PLANE_ENTER_FLAGS_TRAP_SIMD) & RSI_PLANE_ENTER_FLAGS_TRAP_SIMD != 0,
        (flags & !RSI_PLANE_ENTER_FLAGS_TRAP_SIMD) & RSI_PLANE_ENTER_FLAGS_TRAP_SIMD == 0,
        (flags | RSI_PLANE_ENTER_FLAGS_TRAP_SIMD) & !RSI_PLANE_ENTER_FLAGS_TRAP_SIMD == flags
            & !RSI_PLANE_ENTER_FLAGS_TRAP_SIMD,
{
    assert((flags | 0x10u64) & 0x10u64 != 0 && (flags & !0x10u64) & 0x10u64 == 0 && (flags
        | 0x10u64) & !0x10u64 == flags & !0x10u64) by (bit_vector);
}

} // verus!

//! Support for running as a paravisor VMM.

use crate::memory_range::{MemoryRange, PAGE_SIZE};
use vstd::arithmetic::power2;
use vstd::prelude::*;
use vstd::string::StringExecFns;

verus! {

/// How much memory is shared with the host.
pub const SHARED_SIZE: u64 = 0x20_0000;

/// What a partition is created with.
#[derive(Clone, Copy, Debug, PartialEq, Eq, Structural)]
pub struct UhPartitionNewParams {
    pub hide_isolation: bool,
    pub vtom: Option<u64>,
    pub handle_synic: bool,
    pub no_sidecar_hotplug: bool,
    pub use_mmio_hypercalls: bool,
    pub intercept_debug_exceptions: bool,
    pub disable_proxy_redirect: bool,
    pub disable_lower_vtl_timer_virt: bool,
}

/// The parameters of a partition that runs a test: the synthetic interrupt
/// controller is handled, and the timers of the lower VTL are not virtualized.
pub fn partition_params() -> (params: UhPartitionNewParams)
    ensures
        params == (UhPartitionNewParams {
            hide_isolation: false,
            vtom: None,
            handle_synic: true,
            no_sidecar_hotplug: false,
            use_mmio_hypercalls: false,
            intercept_debug_exceptions: false,
            disable_proxy_redirect: false,
            disable_lower_vtl_timer_virt: true,
        }),
{
    UhPartitionNewParams {
        hide_isolation: false,
        vtom: None,
        handle_synic: true,
        no_sidecar_hotplug: false,
        use_mmio_hypercalls: false,
        intercept_debug_exceptions: false,
        disable_proxy_redirect: false,
        disable_lower_vtl_timer_virt: true,
    }
}

/// The architecture of a guest.
#[derive(Clone, Copy, Debug, PartialEq, Eq, Structural)]
pub enum GuestArch {
    Aarch64,
    X86_64,
}

/// The address at which the memory that is shared with the host starts: on Arm,
/// the upper half of the realm's addresses.
pub fn vtom(arch: GuestArch, ipa_width: u64) -> (vtom: Option<u64>)
    requires
        arch == GuestArch::Aarch64 ==> 1 <= ipa_width <= 64,
    ensures
        match arch {
            GuestArch::Aarch64 => vtom matches Some(vtom) && vtom == power2::pow2(
                (ipa_width - 1) as nat,
            ),
            GuestArch::X86_64 => vtom is None,
        },
{
    match arch {
        GuestArch::Aarch64 => {
            let shift: u64 = ipa_width - 1;
            proof {
                power2::lemma_pow2_strictly_increases(shift as nat, 64);
                power2::lemma2_to64_rest();
                vstd::bits::lemma_u64_shl_is_mul(1, shift);
            }
            Some(1u64 << shift)
        },
        GuestArch::X86_64 => None,
    }
}

/// Memory that a plane may use, from its first byte to the first behind it.
#[derive(Clone, Copy, Debug, PartialEq, Eq, Structural)]
pub struct MemPermRange {
    pub start: u64,
    pub end: u64,
}

/// The memory that the guest's plane gets on Arm: its own, and what it shares
/// with the host.
pub fn mem_perm_ranges(arch: GuestArch, memory: MemPermRange, shared_address_start: u64) -> (ranges:
    Vec<MemPermRange>)
    requires
        arch == GuestArch::Aarch64 ==> shared_address_start + SHARED_SIZE <= u64::MAX,
    ensures
        ranges@ == (match arch {
            GuestArch::Aarch64 => seq![
                memory,
                MemPermRange {
                    start: shared_address_start,
                    end: (shared_address_start + SHARED_SIZE) as u64,
                },
            ],
            GuestArch::X86_64 => Seq::empty(),
        }),
        arch == GuestArch::Aarch64 ==> ranges@[1].end - ranges@[1].start == 2 * 1024 * 1024,
{
    match arch {
        GuestArch::Aarch64 => vec![
            memory,
            MemPermRange {
                start: shared_address_start,
                end: shared_address_start + SHARED_SIZE,
            },
        ],
        GuestArch::X86_64 => Vec::new(),
    }
}

/// Which memory of the lower VTLs a client may use.
#[derive(Clone, Copy, Debug, PartialEq, Eq, Structural)]
pub enum LowerVtlPermissionPolicy {
    /// Memory of any permission.
    Any,
}

/// Whether the host sees what a client allocates.
#[derive(Clone, Copy, Debug, PartialEq, Eq, Structural)]
pub enum AllocationVisibility {
    Shared,
    Private,
}

/// What a client of a DMA manager is created with.
#[derive(Debug)]
pub struct DmaClientParameters {
    pub device_name: String,
    pub lower_vtl_policy: LowerVtlPermissionPolicy,
    pub allocation_visibility: AllocationVisibility,
    pub persistent_allocations: bool,
}

/// A DMA manager, and the client that the partition gets of it.
#[derive(Debug)]
pub struct DmaManagerParams {
    /// The memory that it allocates from.
    pub ram: Vec<MemoryRange>,
    /// The address at which shared memory starts, or zero if there is none.
    pub vtom: u64,
    pub client: DmaClientParameters,
}

impl DmaManagerParams {
    /// That a manager allocates from `ram`, for a client of this name.
    pub open spec fn serves(self, ram: Seq<MemoryRange>, vtom: u64, device_name: Seq<char>) -> bool {
        &&& self.ram@ == ram
        &&& self.vtom == vtom
        &&& self.client.device_name@ == device_name
        &&& self.client.lower_vtl_policy == LowerVtlPermissionPolicy::Any
        &&& self.client.allocation_visibility == AllocationVisibility::Private
        &&& self.client.persistent_allocations
    }
}

fn dma_manager(ram: Vec<MemoryRange>, vtom: Option<u64>, device_name: &str) -> (manager:
    DmaManagerParams)
    ensures
        manager.serves(
            ram@,
            match vtom {
                Some(vtom) => vtom,
                None => 0,
            },
            device_name@,
        ),
{
    DmaManagerParams {
        ram,
        vtom: match vtom {
            Some(vtom) => vtom,
            None => 0,
        },
        client: DmaClientParameters {
            device_name: String::from_str(device_name),
            lower_vtl_policy: LowerVtlPermissionPolicy::Any,
            allocation_visibility: AllocationVisibility::Private,
            persistent_allocations: true,
        },
    }
}

/// How a partition that runs a test is set up.
#[derive(Debug)]
pub struct PartitionSetup {
    pub vtom: Option<u64>,
    pub mem_perms: Vec<MemPermRange>,
    pub private_dma: DmaManagerParams,
    pub shared_dma: DmaManagerParams,
}

/// How a partition that runs a test is set up, once the realm's address width is
/// known. There are two DMA managers: with a single one, shared allocations
/// would come from the start of the address space, where the sections of the
/// test kernel are.
pub fn set_up_partition(
    arch: GuestArch,
    ipa_width: u64,
    memory: MemPermRange,
    shared_address_start: u64,
    ram: Vec<MemoryRange>,
    shared_ram: Vec<MemoryRange>,
) -> (setup: PartitionSetup)
    requires
        arch == GuestArch::Aarch64 ==> {
            &&& 1 <= ipa_width <= 64
            &&& shared_address_start + SHARED_SIZE <= u64::MAX
        },
    ensures
        match arch {
            GuestArch::Aarch64 => {
                let vtom = power2::pow2((ipa_width - 1) as nat) as u64;
                &&& vtom == power2::pow2((ipa_width - 1) as nat)
                &&& setup.vtom == Some(vtom)
                &&& setup.mem_perms@ == seq![
                    memory,
                    MemPermRange {
                        start: shared_address_start,
                        end: (shared_address_start + SHARED_SIZE) as u64,
                    },
                ]
                &&& setup.private_dma.serves(ram@, vtom, "partition-private"@)
                &&& setup.shared_dma.serves(shared_ram@, vtom, "partition-shared"@)
            },
            GuestArch::X86_64 => {
                &&& setup.vtom is None
                &&& setup.mem_perms@ == Seq::<MemPermRange>::empty()
                &&& setup.private_dma.serves(ram@, 0, "partition-private"@)
                &&& setup.shared_dma.serves(shared_ram@, 0, "partition-shared"@)
            },
        },
{
    let vtom: Option<u64> = self::vtom(arch, ipa_width);
    PartitionSetup {
        vtom,
        mem_perms: mem_perm_ranges(arch, memory, shared_address_start),
        private_dma: dma_manager(ram, vtom, "partition-private"),
        shared_dma: dma_manager(shared_ram, vtom, "partition-shared"),
    }
}

/// A realm's shared half starts on a page, and the other half is as large, for
/// every address width that has pages at all.
pub proof fn shared_half_is_page_aligned(ipa_width: nat)
    requires
        13 <= ipa_width <= 64,
    ensures
        power2::pow2((ipa_width - 1) as nat) % PAGE_SIZE as nat == 0,
        power2::pow2((ipa_width - 1) as nat) * 2 == power2::pow2(ipa_width),
{
    power2::lemma_pow2_adds(12, (ipa_width - 13) as nat);
    power2::lemma2_to64();
    power2::lemma_pow2_adds((ipa_width - 1) as nat, 1);
    let rest = power2::pow2((ipa_width - 13) as nat);
    assert(power2::pow2((ipa_width - 1) as nat) == rest * 0x1000);
    vstd::arithmetic::div_mod::lemma_mod_multiples_basic(rest as int, 0x1000);
}

/// What a manager allocates, the host does not see, and it stays allocated.
pub proof fn allocations_are_private_and_stay(
    manager: DmaManagerParams,
    ram: Seq<MemoryRange>,
    vtom: u64,
    device_name: Seq<char>,
)
    requires
        manager.serves(ram, vtom, device_name),
    ensures
        manager.client.allocation_visibility is Private,
        manager.client.persistent_allocations,
        manager.client.device_name@ == device_name,
        manager.ram@ == ram,
        manager.vtom == vtom,
{
}

} // verus!

//! Test microkernels and the monitor that runs them.

use cca_vmm::gic::model::GicV3Model;
use cca_vmm::gic::registers::{GicrSgi, VpIndex};
use cca_vmm::memory_range::MemoryRange;
use cca_vmm::tmk::guest::{
    enable_gic_for_current_vp, irq_handler, pend_spi, poll_interrupts, send_sgi_to_self,
    virtual_timer_irq, GicStep, IrqContext,
};
use cca_vmm::tmk::image::{read_image, EnumerateError};
use cca_vmm::tmk::load::{
    enumerate_tests, load_aarch64, load_address, load_common, load_x86, pagemap_offset,
    virt_to_phys, Aarch64Register, ElfLoadInfo, PagemapError, TestInfo, X86Register,
};
use cca_vmm::tmk::paravisor::{
    partition_params, set_up_partition, vtom, AllocationVisibility, GuestArch, MemPermRange,
};
use cca_vmm::tmk::protocol::{
    Command, StartInput, StrDescriptor, TestDescriptor64, TestFlags64, GIC_DISTRIBUTOR_BASE,
    GIC_REDISTRIBUTOR_BASE,
};
use cca_vmm::tmk::ram::{
    contiguous_subpfns, find_ram, ram_range, RamAttempt, RamError, RamSearch, MAX_ALLOC_ATTEMPTS,
};
use cca_vmm::tmk::run::{
    all_passed, handle_command, panic_location, read_str, select_tests, test_result,
    test_topology, widen, CommandError, IoHandler, TestResult, VpEvent, COMMAND_ADDRESS,
};
use cca_vmm::tmk::scope::{are_interrupts_enabled, ArchStep, CpuState, IrqHandler, Scope};

/// An image with two tests, `alpha` and `beta`, whose names are relocated.
fn image() -> Vec<u8> {
    const BASE: u64 = 0x1_0000;
    let mut image = vec![0u8; 0x300];
    let put16 = |image: &mut Vec<u8>, at: usize, v: u16| {
        image[at..at + 2].copy_from_slice(&v.to_le_bytes())
    };
    let put32 = |image: &mut Vec<u8>, at: usize, v: u32| {
        image[at..at + 4].copy_from_slice(&v.to_le_bytes())
    };
    let put64 = |image: &mut Vec<u8>, at: usize, v: u64| {
        image[at..at + 8].copy_from_slice(&v.to_le_bytes())
    };
    image[..8].copy_from_slice(&[0x7f, b'E', b'L', b'F', 2, 1, 1, 0]);
    put16(&mut image, 16, 3);
    put16(&mut image, 18, 183);
    put32(&mut image, 20, 1);
    put64(&mut image, 32, 64);
    put64(&mut image, 40, 0x200);
    put16(&mut image, 52, 64);
    put16(&mut image, 54, 56);
    put16(&mut image, 56, 1);
    put16(&mut image, 58, 64);
    put16(&mut image, 60, 4);
    put16(&mut image, 62, 3);
    // The loaded segment.
    put32(&mut image, 64, 1);
    put32(&mut image, 68, 5);
    put64(&mut image, 72, 0);
    put64(&mut image, 80, BASE);
    put64(&mut image, 88, BASE);
    put64(&mut image, 96, 0x200);
    put64(&mut image, 104, 0x200);
    put64(&mut image, 112, 0x1000);
    image[0x100..0x109].copy_from_slice(b"alphabeta");
    // The test descriptors.
    put64(&mut image, 0x148, 5);
    put64(&mut image, 0x168, 4);
    // The relocations.
    put64(&mut image, 0x180, BASE + 0x160);
    put64(&mut image, 0x188, 0x403);
    put64(&mut image, 0x190, BASE + 0x105);
    put64(&mut image, 0x198, BASE + 0x140);
    put64(&mut image, 0x1a0, 0x403);
    put64(&mut image, 0x1a8, BASE + 0x100);
    image[0x1c0..0x1e0].copy_from_slice(b"\0tmk_tests\0.rela.dyn\0.shstrtab\0\0");
    // The sections.
    put32(&mut image, 0x240, 1);
    put32(&mut image, 0x244, 1);
    put64(&mut image, 0x250, BASE + 0x140);
    put64(&mut image, 0x258, 0x140);
    put64(&mut image, 0x260, 64);
    put32(&mut image, 0x280, 11);
    put32(&mut image, 0x284, 4);
    put64(&mut image, 0x298, 0x180);
    put64(&mut image, 0x2a0, 48);
    put64(&mut image, 0x2b8, 24);
    put32(&mut image, 0x2c0, 21);
    put32(&mut image, 0x2c4, 3);
    put64(&mut image, 0x2d8, 0x1c0);
    put64(&mut image, 0x2e0, 31);
    image
}

#[test]
fn tests_of_an_image_are_enumerated() {
    let tests = enumerate_tests(&image()).unwrap();
    let tests: Vec<_> = tests.iter().map(|t| (t.name.as_str(), t.index)).collect();
    assert_eq!(tests, [("alpha", 0), ("beta", 1)]);
}

#[test]
fn image_is_read_as_its_parts() {
    let tmk = read_image(&image()).unwrap();
    assert_eq!(
        tmk.relocations,
        [(0x1_0160, 0x1_0105), (0x1_0140, 0x1_0100)]
    );
    assert_eq!(tmk.section_address, 0x1_0140);
    assert_eq!(tmk.section_data.len(), 64);
    assert_eq!(tmk.segments.len(), 1);
    assert_eq!(tmk.segments[0].address, 0x1_0000);
    let data = tmk.segments[0].data.as_ref().unwrap();
    assert_eq!(&data[0x100..0x109], b"alphabeta");
}

#[test]
fn bad_images_are_refused() {
    let error = |image: &[u8]| enumerate_tests(image).unwrap_err();
    assert_eq!(error(&[0; 64]), EnumerateError::Parse);
    assert_eq!(error(b"alpha"), EnumerateError::Parse);

    let mut bad = image();
    bad[0x1c1] = b'x';
    assert_eq!(error(&bad), EnumerateError::NoSection);

    let mut bad = image();
    bad[0x25a] = 0xff;
    assert_eq!(error(&bad), EnumerateError::SectionData);

    let mut bad = image();
    bad[0x260] = 63;
    assert_eq!(error(&bad), EnumerateError::Descriptors);

    // The first descriptor has an address, the second has none.
    let mut bad = image();
    bad[0x250..0x258].fill(0xff);
    bad[0x140..0x148].copy_from_slice(&0x1_0100u64.to_le_bytes());
    assert_eq!(error(&bad), EnumerateError::SectionRange);

    let mut bad = image();
    bad[0x14a] = 0xff;
    assert_eq!(error(&bad), EnumerateError::NameNotFound);

    let mut bad = image();
    bad[74] = 0xff;
    assert_eq!(error(&bad), EnumerateError::SegmentData);

    let mut bad = image();
    bad[0x102] = 0xff;
    assert_eq!(error(&bad), EnumerateError::NameText);
}

fn test_info(name: &str, index: u64) -> TestInfo {
    TestInfo {
        name: name.to_string(),
        index,
    }
}

#[test]
fn tests_are_selected_in_the_order_asked_for() {
    let available = || vec![test_info("a", 0), test_info("b", 1), test_info("c", 2)];
    let names = |tests: Vec<TestInfo>| -> Vec<String> {
        tests.into_iter().map(|t| t.name).collect()
    };
    assert_eq!(
        names(select_tests(available(), &vec![]).unwrap()),
        ["a", "b", "c"]
    );
    let wanted = vec!["c".to_string(), "a".to_string(), "c".to_string()];
    assert_eq!(
        names(select_tests(available(), &wanted).unwrap()),
        ["c", "a", "c"]
    );
    let wanted = vec!["a".to_string(), "x".to_string(), "y".to_string()];
    assert_eq!(select_tests(available(), &wanted).unwrap_err(), "x");
}

#[test]
fn results_of_tests() {
    assert!(matches!(
        test_result(VpEvent::TestComplete { success: true }),
        TestResult::Passed
    ));
    assert!(matches!(
        test_result(VpEvent::TestComplete { success: false }),
        TestResult::Failed
    ));
    let halt = VpEvent::Halt {
        vp_index: VpIndex::new(0),
        reason: "stopped".to_string(),
        regs: None,
    };
    let TestResult::Faulted { reason, .. } = test_result(halt) else {
        panic!("no fault");
    };
    assert_eq!(reason, "stopped");
    assert!(all_passed(&vec![]));
    assert!(all_passed(&vec![TestResult::Passed, TestResult::Passed]));
    assert!(!all_passed(&vec![TestResult::Passed, TestResult::Failed]));
}

#[test]
fn start_input_lies_behind_the_image() {
    assert_eq!(load_address(None), 0x20_0000);
    assert_eq!(load_address(Some(0x100)), 0x100);
    let elf = ElfLoadInfo {
        entrypoint: 0x20_0040,
        next_available_address: 0x20_5000,
    };
    let (import, info) = load_common(elf, &test_info("a", 7));
    assert_eq!((import.page, import.page_count), (0x205, 1));
    assert_eq!(import.tag, "start_input");
    let input = StartInput {
        command: COMMAND_ADDRESS,
        test_index: 7,
    };
    assert_eq!(import.data, input.as_bytes());
    assert_eq!(&import.data[..4], &[0, 0, 0xff, 0xff]);
    assert_eq!(info.param, 0x20_5000);
    assert_eq!(info.next_available_address, 0x20_6000);
    assert_eq!(
        load_aarch64(&info),
        [
            Aarch64Register::Pc(0x20_0040),
            Aarch64Register::X0(0x20_5000)
        ]
    );
    let load = load_x86(&info, vec![0; 0x3000]);
    assert_eq!((load.page_tables.page, load.page_tables.page_count), (0x206, 3));
    assert_eq!(load.gdt_page, 0x209);
    assert_eq!(load.registers[0], X86Register::Cr0(0x8000_0001));
    assert_eq!(load.registers[1], X86Register::Cr3(0x20_6000));
    assert_eq!(load.registers[2], X86Register::Cr4(0x20));
    assert_eq!(load.registers[3], X86Register::Efer(0xd01));
    assert_eq!(load.registers[4], X86Register::Rip(0x20_0040));
    assert_eq!(load.registers[5], X86Register::Rsi(0x20_5000));
}

#[test]
fn page_map_entries() {
    assert_eq!(pagemap_offset(0x5000, 0x1000), Ok(40));
    assert_eq!(pagemap_offset(0x5000, 0), Err(PagemapError::NoPageSize));
    let entry = (1u64 << 63) | (1 << 61) | 0x1234;
    assert_eq!(virt_to_phys(entry.to_le_bytes()), Ok(0x1234));
    let entry = (1u64 << 62) | 0x1234;
    assert_eq!(
        virt_to_phys(entry.to_le_bytes()),
        Err(PagemapError::NotPresent)
    );
}

fn command(tag: u32) -> Vec<u8> {
    let mut data = vec![0; 48];
    data[..4].copy_from_slice(&tag.to_le_bytes());
    data
}

#[test]
fn commands_are_decoded() {
    let mut log = command(0);
    log[8..16].copy_from_slice(&0x1000u64.to_le_bytes());
    log[16..24].copy_from_slice(&5u64.to_le_bytes());
    let message = StrDescriptor {
        gpa: 0x1000,
        len: 5,
    };
    assert_eq!(Command::try_read_from_bytes(&log), Some(Command::Log(message)));
    let action = handle_command(&log).unwrap();
    assert_eq!(action.message, Some(message));
    assert_eq!(action.complete, None);

    let mut panicked = command(1);
    panicked[8..16].copy_from_slice(&0x1000u64.to_le_bytes());
    panicked[16..24].copy_from_slice(&5u64.to_le_bytes());
    panicked[32..40].copy_from_slice(&3u64.to_le_bytes());
    panicked[40..44].copy_from_slice(&77u32.to_le_bytes());
    let action = handle_command(&panicked).unwrap();
    assert_eq!(action.message, Some(message));
    assert_eq!(action.location.unwrap().line, 77);
    assert_eq!(action.location.unwrap().filename.len, 3);
    assert_eq!(action.complete, Some(false));
    // Without a file name there is no location.
    panicked[32] = 0;
    assert_eq!(handle_command(&panicked).unwrap().location, None);

    let mut complete = command(2);
    complete[4] = 1;
    assert_eq!(handle_command(&complete).unwrap().complete, Some(true));
    complete[4] = 0;
    assert_eq!(handle_command(&complete).unwrap().complete, Some(false));
    complete[4] = 2;
    assert_eq!(handle_command(&complete), Err(CommandError::BadCommand));
    assert_eq!(handle_command(&command(3)), Err(CommandError::BadCommand));
    assert_eq!(handle_command(&[0; 47]), Err(CommandError::BadCommand));
}

#[test]
fn strings_of_commands() {
    assert_eq!(read_str("grün".as_bytes().to_vec()).unwrap(), "grün");
    assert_eq!(read_str(vec![0xff]).unwrap_err(), CommandError::NotUtf8);
    assert_eq!(panic_location(&"main.rs".to_string(), 1203), "main.rs:1203");
    assert_eq!(panic_location(&"x".to_string(), 0), "x:0");
}

#[test]
fn device_accesses_go_to_the_gic_or_nowhere() {
    let gic = GicV3Model::new(&test_topology()).unwrap();
    let mut handler = IoHandler { gic: Some(gic) };
    assert!(handler.is_mmio(GIC_DISTRIBUTOR_BASE));
    assert!(handler.is_mmio(GIC_REDISTRIBUTOR_BASE + 0x1_ffff));
    assert!(!handler.is_mmio(COMMAND_ADDRESS));
    assert_eq!(
        handler.write_mmio(COMMAND_ADDRESS, &0x1234u64.to_le_bytes()),
        Some(0x1234)
    );
    assert_eq!(handler.write_mmio(GIC_DISTRIBUTOR_BASE, &[2, 0, 0, 0]), None);
    let mut data = [0; 4];
    handler.read_mmio(GIC_DISTRIBUTOR_BASE, &mut data);
    assert_eq!(data, [0x52, 0, 0, 0]);
    handler.read_mmio(0x5000, &mut data);
    assert_eq!(data, [0xff; 4]);
    let mut data = [0; 2];
    handler.read_io(0x3f8, &mut data);
    assert_eq!(data, [0xff; 2]);
    // An empty access is answered where the GIC has no part in it.
    handler.read_mmio(0x5000, &mut []);
    assert_eq!(handler.write_mmio(COMMAND_ADDRESS, &[]), Some(0));
    assert_eq!(handler.write_mmio(0x5000, &[]), None);
    let none = IoHandler { gic: None };
    assert!(!none.is_mmio(GIC_DISTRIBUTOR_BASE));
    assert_eq!(widen(&[0x34, 0x12]), 0x1234);
    assert_eq!(widen(&[]), 0);
}

#[test]
fn descriptors_and_flags() {
    let flags = TestFlags64::new().with_linux_only(true).with_expected_failure(true);
    assert_eq!(flags, TestFlags64(3));
    assert!(flags.expected_failure() && flags.linux_only());
    assert!(!flags.with_linux_only(false).linux_only());
    let descriptor = TestDescriptor64 {
        name: 1,
        name_len: 2,
        entrypoint: 3,
        flags,
    };
    let data = descriptor.as_bytes();
    assert_eq!(data.len(), 32);
    assert_eq!(TestDescriptor64::read_from_bytes(&data), descriptor);
}

#[test]
fn page_numbers_are_sorted_and_contiguous() {
    let pfns = vec![9, 3, 12, 11, 10, 1];
    assert_eq!(contiguous_subpfns(&pfns, 0x3000), Some(vec![9, 10, 11]));
    assert_eq!(contiguous_subpfns(&pfns, 0x1001), Some(vec![9, 10]));
    assert_eq!(contiguous_subpfns(&pfns, 0x1000), Some(vec![1]));
    assert_eq!(contiguous_subpfns(&pfns, 0x5000), None);
    assert_eq!(contiguous_subpfns(&pfns, 0), Some(vec![]));
}

#[test]
fn guest_memory_is_aligned() {
    // Two pages, aligned to eight: nine pages have to be contiguous.
    let pfns: Vec<u64> = (13..22).rev().collect();
    assert_eq!(find_ram(&pfns, 0x2000), Ok(Some(16)));
    assert_eq!(find_ram(&vec![16, 17], 0x2000), Ok(None));
    assert_eq!(
        find_ram(&pfns, u64::MAX - 0x100),
        Err(RamError::SearchSizeOverflow)
    );
    let range = ram_range(16, 0x2000).unwrap();
    assert_eq!((range.start(), range.end()), (0x1_0000, 0x1_2000));
    assert_eq!(
        ram_range(0xf_ffff_ffff_ffff, 0x2000),
        Err(RamError::RangeOverflow)
    );
}

#[test]
fn search_for_memory_doubles_and_gives_up() {
    let mut search = RamSearch::new(0x2000);
    let nothing = vec![];
    for i in 1..MAX_ALLOC_ATTEMPTS {
        assert_eq!(search.attempt(&nothing), Ok(RamAttempt::Retry));
        assert_eq!(search.map_size, 0x2000 << i);
    }
    assert_eq!(search.attempt(&nothing), Err(RamError::NotContiguous));
    let mut search = RamSearch::new(0x2000);
    let pfns: Vec<u64> = (16..25).collect();
    assert_eq!(search.attempt(&pfns), Ok(RamAttempt::Found(16)));
    let mut search = RamSearch {
        ram_size: 0x2000,
        map_size: usize::MAX,
        attempts: 0,
    };
    assert_eq!(
        search.attempt(&nothing),
        Err(RamError::AllocationSizeOverflow)
    );
}

#[test]
fn partition_of_a_realm() {
    let params = partition_params();
    assert!(params.handle_synic && params.disable_lower_vtl_timer_virt);
    assert!(!params.hide_isolation && params.vtom.is_none());
    assert_eq!(vtom(GuestArch::Aarch64, 48), Some(1 << 47));
    assert_eq!(vtom(GuestArch::X86_64, 0), None);
    let memory = MemPermRange {
        start: 0x1000,
        end: 0x2000,
    };
    let setup = set_up_partition(
        GuestArch::Aarch64,
        48,
        memory,
        0x80_0000,
        vec![MemoryRange::new(0, 0x1000)],
        vec![MemoryRange::new(0x80_0000, 0xa0_0000)],
    );
    assert_eq!(setup.vtom, Some(1 << 47));
    assert_eq!(setup.mem_perms.len(), 2);
    assert_eq!(setup.mem_perms[0], memory);
    assert_eq!(setup.mem_perms[1].end, 0xa0_0000);
    assert_eq!(setup.private_dma.client.device_name, "partition-private");
    assert_eq!(setup.shared_dma.client.device_name, "partition-shared");
    assert_eq!(setup.shared_dma.vtom, 1 << 47);
    assert_eq!(
        setup.shared_dma.client.allocation_visibility,
        AllocationVisibility::Private
    );
    assert_eq!(setup.shared_dma.ram[0].start(), 0x80_0000);
}

fn quiet() -> CpuState {
    CpuState {
        interrupts_enabled: false,
        irq_handler: IrqHandler { data: 0, vtable: 0 },
        arch_initialized: true,
    }
}

#[test]
fn scope_restores_what_it_changed() {
    assert!(are_interrupts_enabled(0x340));
    assert!(!are_interrupts_enabled(0x3c0));
    let none = IrqHandler { data: 0, vtable: 0 };
    let handler = IrqHandler { data: 1, vtable: 2 };
    assert!(handler.is_installed() && !none.is_installed());
    let (mut scope, steps) = Scope::arch_init(&quiet());
    assert_eq!(steps, []);
    let steps = scope.set_irq_handler(&quiet(), handler);
    assert_eq!(steps, [ArchStep::SetIrqHandler(handler)]);
    assert_eq!(scope.enable_interrupts(), [ArchStep::UnmaskIrqs]);
    let now = CpuState {
        interrupts_enabled: true,
        irq_handler: handler,
        arch_initialized: true,
    };
    let (was_enabled, steps) = scope.disable_interrupts(&now);
    assert!(was_enabled);
    assert_eq!(steps, [ArchStep::MaskIrqs]);
    assert_eq!(
        scope.arch_reset(&now),
        [
            ArchStep::MaskIrqs,
            ArchStep::SetIrqHandler(none),
            ArchStep::UnmaskIrqs,
            ArchStep::MaskIrqs,
        ]
    );
}

#[test]
fn first_scope_installs_the_vectors() {
    let cpu = CpuState {
        interrupts_enabled: true,
        arch_initialized: false,
        ..quiet()
    };
    let (mut scope, steps) = Scope::arch_init(&cpu);
    assert_eq!(steps, [ArchStep::MaskIrqs, ArchStep::InstallVectors]);
    assert_eq!(scope.arch_reset(&quiet()), [ArchStep::UnmaskIrqs]);
}

/// Runs steps on a software GIC.
fn run(gic: &mut GicV3Model, steps: &[GicStep]) {
    let read = |gic: &GicV3Model, address: u64| {
        let mut data = [0; 4];
        assert!(gic.read(address, &mut data));
        u32::from_le_bytes(data)
    };
    for step in steps {
        match *step {
            GicStep::Read { address } => {
                read(gic, address);
            }
            GicStep::Write { address, value } => {
                assert!(gic.write(address, &value.to_le_bytes()));
            }
            GicStep::Update { address, clear, set } => {
                let value = (read(gic, address) & !clear) | set;
                assert!(gic.write(address, &value.to_le_bytes()));
            }
            GicStep::WaitClear { address, mask } => {
                assert_eq!(read(gic, address) & mask, 0);
            }
            GicStep::EnableCpuInterface | GicStep::Barrier => {}
        }
    }
}

#[test]
fn enabled_interrupts_of_a_guest_are_delivered() {
    let mut gic = GicV3Model::new(&test_topology()).unwrap();
    let vp = VpIndex::new(0);
    let (scope, _) = Scope::arch_init(&quiet());
    run(&mut gic, &enable_gic_for_current_vp());
    run(&mut gic, &scope.enable_gic_irq(40));
    run(&mut gic, &scope.enable_gic_irq(20));
    run(&mut gic, &poll_interrupts());
    assert!(gic.next_pending_interrupt(vp, 0xff).is_none());
    run(&mut gic, &pend_spi(40));
    let next = gic.next_pending_interrupt(vp, 0xff).unwrap();
    assert_eq!((next.intid, next.priority), (40, 0x80));
    assert!(gic.next_pending_interrupt(vp, 0x80).is_none());
    let next = gic.next_pending_private_interrupt(vp, 1 << 20, 0xff).unwrap();
    assert_eq!((next.intid, next.priority), (20, 0x80));
    run(&mut gic, &scope.disable_gic_irq(40));
    assert!(gic.next_pending_interrupt(vp, 0xff).is_none());
    run(&mut gic, &scope.disable_gic_irq(20));
    assert!(gic.next_pending_private_interrupt(vp, 1 << 20, 0xff).is_none());
}

#[test]
fn self_sgi_is_addressed_to_its_sender() {
    let value = send_sgi_to_self(5, 0x04_8003_0201);
    assert_eq!(value, 0x0004_0003_0502_0002);
    let sgi = GicrSgi::from_bits(value);
    assert_eq!((sgi.intid, sgi.target_list), (5, 2));
}

#[test]
fn virtual_timer_plan() {
    let plan = virtual_timer_irq(1_000_000, 500);
    assert_eq!((plan.compare, plan.timeout_ticks), (10_500, 1_000_000));
    let plan = virtual_timer_irq(5, 500);
    assert_eq!((plan.compare, plan.timeout_ticks), (501, 10));
    assert!(plan.keeps_waiting(false, 500, 509));
    assert!(!plan.keeps_waiting(false, 500, 510));
    assert!(!plan.keeps_waiting(true, 500, 501));
    // The counter wraps around.
    assert!(plan.keeps_waiting(false, u64::MAX, 3));
    assert_eq!(irq_handler(1023, false).map(|c| c.intid), None);
    assert_eq!(irq_handler(20, true).map(|c| c.intid), Some(20));
    assert!(IrqContext { intid: 20 }.is_virtual_timer());
    assert!(!IrqContext { intid: 21 }.is_virtual_timer());
}

#[test]
fn section_may_end_where_the_address_space_ends() {
    let mut image = image();
    image[0x250..0x258].copy_from_slice(&(u64::MAX - 63).to_le_bytes());
    image[0x140..0x148].copy_from_slice(&0x1_0100u64.to_le_bytes());
    image[0x160..0x168].copy_from_slice(&0x1_0105u64.to_le_bytes());
    let tests = enumerate_tests(&image).unwrap();
    assert_eq!(tests.len(), 2);
    assert_eq!((tests[1].name.as_str(), tests[1].index), ("beta", 1));
}

#[test]
fn empty_segment_may_lie_behind_the_image() {
    let mut image = image();
    // The program header behind the first one.
    let mut header = image[64..120].to_vec();
    header[8..16].copy_from_slice(&0x10_0000u64.to_le_bytes());
    header[32..40].fill(0);
    header[40..48].fill(0);
    let first = image[64..120].to_vec();
    image[64..120].copy_from_slice(&header);
    image[120..176].copy_from_slice(&first);
    image[56] = 2;
    let tmk = read_image(&image).unwrap();
    assert_eq!(tmk.segments[0].data.as_deref(), Some(&[][..]));
    assert_eq!(enumerate_tests(&image).unwrap().len(), 2);
}

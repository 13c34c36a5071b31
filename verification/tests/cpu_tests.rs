use lc3_tools::cpu::CPU;
use lc3_tools::views::memory_window;

fn machine(words: &[u16]) -> CPU {
    let mut cpu = CPU::default();
    cpu.set_program(words);
    cpu
}

fn step(cpu: &mut CPU) {
    assert!(cpu.can_step());
    cpu.step();
}

#[test]
fn default_cpu_is_zeroed() {
    let cpu = CPU::default();
    assert_eq!(cpu.view_pc(), 0);
    assert_eq!(cpu.view_registers(), &[0u16; 8]);
    assert_eq!(cpu.view_all_memory().len(), 0xFFFF);
    assert!(cpu.view_all_memory().iter().all(|w| *w == 0));
}

#[test]
fn set_program_loads_words_from_address_zero() {
    let mut cpu = machine(&[0xAAAA, 0xBBBB]);
    assert_eq!(cpu.view_memory_slice(0, 3), &[0xAAAA, 0xBBBB, 0]);
    cpu.set_program(&[0x1111]);
    assert_eq!(cpu.view_memory_slice(0, 3), &[0x1111, 0xBBBB, 0]);
    assert_eq!(cpu.view_pc(), 0);
    assert_eq!(cpu.view_registers(), &[0u16; 8]);
}

#[test]
fn view_memory_slice_bounds() {
    let cpu = machine(&[1, 2, 3]);
    assert_eq!(cpu.view_memory_slice(1, 1), &[] as &[u16]);
    assert_eq!(cpu.view_memory_slice(1, 3), &[2, 3]);
    assert_eq!(cpu.view_memory_slice(0xFFFE, 0xFFFF), &[0]);
}

#[test]
fn add_immediate() {
    // ADD R1, R1, #5
    let mut cpu = machine(&[0x1265]);
    step(&mut cpu);
    assert_eq!(cpu.view_registers()[1], 5);
    assert_eq!(cpu.view_pc(), 1);
}

#[test]
fn add_negative_immediate_sign_extends() {
    // ADD R1, R1, #-1
    let mut cpu = machine(&[0x127F]);
    step(&mut cpu);
    assert_eq!(cpu.view_registers()[1], 0xFFFF);
}

#[test]
fn add_register() {
    // ADD R1, R1, #5 ; ADD R2, R1, R1
    let mut cpu = machine(&[0x1265, 0x1441]);
    step(&mut cpu);
    step(&mut cpu);
    assert_eq!(cpu.view_registers()[2], 10);
    assert_eq!(cpu.view_registers()[1], 5);
}

#[test]
fn and_immediate_and_register() {
    // ADD R1, R1, #5 ; AND R3, R1, #3 ; ADD R2, R2, #6 ; AND R4, R1, R2
    let mut cpu = machine(&[0x1265, 0x5663, 0x14A6, 0x5842]);
    for _ in 0..4 {
        step(&mut cpu);
    }
    assert_eq!(cpu.view_registers()[3], 1);
    assert_eq!(cpu.view_registers()[4], 4);
}

#[test]
fn not_complements() {
    // NOT R0, R0
    let mut cpu = machine(&[0x903F]);
    step(&mut cpu);
    assert_eq!(cpu.view_registers()[0], 0xFFFF);
}

#[test]
fn jmp_through_register() {
    // ADD R2, R2, #7 ; JMP R2
    let mut cpu = machine(&[0x14A7, 0xC080]);
    step(&mut cpu);
    step(&mut cpu);
    assert_eq!(cpu.view_pc(), 7);
}

#[test]
fn jsr_links_and_jumps_relative() {
    // JSR #2
    let mut cpu = machine(&[0x4802]);
    step(&mut cpu);
    assert_eq!(cpu.view_registers()[7], 1);
    assert_eq!(cpu.view_pc(), 3);
}

#[test]
fn jsrr_links_and_jumps_to_register() {
    // ADD R2, R2, #9 ; JSRR R2
    let mut cpu = machine(&[0x14A9, 0x4080]);
    step(&mut cpu);
    step(&mut cpu);
    assert_eq!(cpu.view_registers()[7], 2);
    assert_eq!(cpu.view_pc(), 9);
}

#[test]
fn jsrr_through_r7_reads_the_new_link() {
    // ADD R7, R7, #9 ; JSRR R7: the link is written before R7 is read
    let mut cpu = machine(&[0x1FE9, 0x41C0]);
    step(&mut cpu);
    step(&mut cpu);
    assert_eq!(cpu.view_registers()[7], 2);
    assert_eq!(cpu.view_pc(), 2);
}

#[test]
fn ld_loads_pc_relative() {
    // LD R4, #1 ; (skipped) ; data
    let mut cpu = machine(&[0x2801, 0x0000, 0x1234]);
    step(&mut cpu);
    assert_eq!(cpu.view_registers()[4], 0x1234);
}

#[test]
fn ldi_loads_indirect() {
    // LDI R4, #1 ; (skipped) ; pointer to 3 ; data
    let mut cpu = machine(&[0xA801, 0x0000, 0x0003, 0xBEEF]);
    step(&mut cpu);
    assert_eq!(cpu.view_registers()[4], 0xBEEF);
}

#[test]
fn ldr_loads_base_offset() {
    // ADD R1, R1, #2 ; LDR R4, R1, #2 ; .. ; .. ; data at 4
    let mut cpu = machine(&[0x1262, 0x6842, 0, 0, 0x4321]);
    step(&mut cpu);
    step(&mut cpu);
    assert_eq!(cpu.view_registers()[4], 0x4321);
}

#[test]
fn lea_loads_address() {
    // LEA R5, #3
    let mut cpu = machine(&[0xEA03]);
    step(&mut cpu);
    assert_eq!(cpu.view_registers()[5], 4);
}

#[test]
fn st_stores_pc_relative() {
    // ADD R1, R1, #5 ; ST R1, #2
    let mut cpu = machine(&[0x1265, 0x3202]);
    step(&mut cpu);
    step(&mut cpu);
    assert_eq!(cpu.view_memory_slice(4, 5), &[5]);
}

#[test]
fn sti_stores_indirect() {
    // ADD R1, R1, #5 ; STI R1, #1 ; .. ; pointer to 6
    let mut cpu = machine(&[0x1265, 0xB201, 0, 6]);
    step(&mut cpu);
    step(&mut cpu);
    assert_eq!(cpu.view_memory_slice(6, 7), &[5]);
    assert_eq!(cpu.view_memory_slice(3, 4), &[6]);
}

#[test]
fn str_stores_base_offset() {
    // ADD R1, R1, #5 ; ADD R2, R2, #8 ; STR R1, R2, #1
    let mut cpu = machine(&[0x1265, 0x14A8, 0x7281]);
    for _ in 0..3 {
        step(&mut cpu);
    }
    assert_eq!(cpu.view_memory_slice(9, 10), &[5]);
}

#[test]
fn branch_taken_on_bit_nine_with_zero_flag() {
    // AND R0, R0, #0 (zero) ; branch with bit 9 set, offset 2
    let mut cpu = machine(&[0x5020, 0x0202]);
    step(&mut cpu);
    step(&mut cpu);
    assert_eq!(cpu.view_pc(), 4);
}

#[test]
fn branch_tests_bits_ten_nine_eight() {
    // ADD R1, R1, #-1 sets the negative flag; an instruction with bit 11 set
    // (and 10, 9, 8 clear) is not taken; one with bit 10 set is.
    let mut cpu = machine(&[0x127F, 0x0802, 0x0402]);
    step(&mut cpu);
    step(&mut cpu);
    assert_eq!(cpu.view_pc(), 2);
    step(&mut cpu);
    assert_eq!(cpu.view_pc(), 5);
}

#[test]
fn branch_not_taken_keeps_pc() {
    // nothing set the condition code yet: no branch is taken
    let mut cpu = machine(&[0x0FFF]);
    step(&mut cpu);
    assert_eq!(cpu.view_pc(), 1);
}

#[test]
fn trap_stops_run() {
    // ADD R1, R1, #5 ; ADD R1, R1, #5 ; TRAP x25
    let mut cpu = machine(&[0x1265, 0x1265, 0xF025]);
    cpu.run();
    assert_eq!(cpu.view_registers()[1], 10);
    assert_eq!(cpu.view_pc(), 3);
}

#[test]
fn run_counts_down_loop() {
    // ADD R1, R1, #3 ; loop: ADD R1, R1, #-1 ; branch back while positive ; TRAP
    let mut cpu = machine(&[0x1263, 0x127F, 0x01FE, 0xF025]);
    cpu.run();
    assert_eq!(cpu.view_registers()[1], 0);
    assert_eq!(cpu.view_pc(), 4);
}

#[test]
fn run_on_stopped_machine_changes_nothing() {
    let mut cpu = machine(&[0xF025, 0x1265]);
    cpu.run();
    let before_pc = cpu.view_pc();
    let before_regs = *cpu.view_registers();
    cpu.run();
    assert_eq!(cpu.view_pc(), before_pc);
    assert_eq!(cpu.view_registers(), &before_regs);
}

#[test]
fn stopped_clock_stays_stopped() {
    // TRAP ; ADD R1, R1, #5 ; TRAP: stepping on after the stop keeps it stopped,
    // so a later run does nothing
    let mut cpu = machine(&[0xF025, 0x1265, 0x1265]);
    step(&mut cpu);
    step(&mut cpu);
    assert_eq!(cpu.view_registers()[1], 5);
    cpu.run();
    assert_eq!(cpu.view_pc(), 2);
}

#[test]
fn non_store_leaves_memory_alone() {
    let words = [0x1265u16, 0x903F, 0xEA03, 0x2801];
    let mut cpu = machine(&words);
    let before = cpu.view_all_memory().to_vec();
    for _ in 0..4 {
        step(&mut cpu);
    }
    assert_eq!(cpu.view_all_memory(), &before[..]);
}

#[test]
fn only_destination_register_changes() {
    // ADD R3, R3, #1
    let mut cpu = machine(&[0x16E1]);
    step(&mut cpu);
    assert_eq!(cpu.view_registers(), &[0, 0, 0, 1, 0, 0, 0, 0]);
}

#[test]
fn cannot_step_past_last_address() {
    // NOT R0, R0 ; JMP R0 : pc becomes 0xFFFF
    let mut cpu = machine(&[0x903F, 0xC000]);
    step(&mut cpu);
    step(&mut cpu);
    assert_eq!(cpu.view_pc(), 0xFFFF);
    assert!(!cpu.can_step());
}

#[test]
fn cannot_step_into_overflow() {
    // LD R0, #1 ; ADD R0, R0, #1 ; data 0x7FFF
    let mut cpu = machine(&[0x2001, 0x1021, 0x7FFF]);
    step(&mut cpu);
    assert_eq!(cpu.view_registers()[0], 0x7FFF);
    assert!(!cpu.can_step());
}

#[test]
fn cannot_load_from_last_address() {
    // NOT R0, R0 ; LDR R4, R0, #0
    let mut cpu = machine(&[0x903F, 0x6800]);
    step(&mut cpu);
    assert!(!cpu.can_step());
}

#[test]
fn negative_addition_within_range() {
    // NOT R0, R0 (-1) ; ADD R0, R0, R0 (-2)
    let mut cpu = machine(&[0x903F, 0x1000]);
    step(&mut cpu);
    assert!(cpu.can_step());
    step(&mut cpu);
    assert_eq!(cpu.view_registers()[0], 0xFFFE);
}

#[test]
fn memory_window_around_pc() {
    assert_eq!(memory_window(0), (0, 20));
    assert_eq!(memory_window(3), (0, 23));
    assert_eq!(memory_window(100), (95, 120));
    assert_eq!(memory_window(0xFFF0), (0xFFEB, 0xFFFE));
    assert_eq!(memory_window(0xFFFF), (0xFFFA, 0xFFFE));
}

#[test]
fn run_result_is_determined_by_start() {
    let words = [0x1263u16, 0x127F, 0x01FE, 0x16E1, 0xF025];
    let mut a = machine(&words);
    let mut b = machine(&words);
    a.run();
    b.run();
    assert_eq!(a.view_pc(), b.view_pc());
    assert_eq!(a.view_registers(), b.view_registers());
    assert_eq!(a.view_all_memory(), b.view_all_memory());
    assert_eq!(a.view_all_memory().len(), 0xFFFF);
}

#[test]
fn store_writes_one_word() {
    // ADD R1, R1, #5 ; ST R1, #2
    let mut cpu = machine(&[0x1265, 0x3202]);
    let mut expected = cpu.view_all_memory().to_vec();
    expected[4] = 5;
    step(&mut cpu);
    step(&mut cpu);
    assert_eq!(cpu.view_all_memory(), &expected[..]);
}

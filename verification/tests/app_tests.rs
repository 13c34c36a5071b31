use lc3_tools::cpu::CPU;
use lc3_tools::lc3_app::{Control, LC3App};
use lc3_tools::program::{LCNode, LabelMap, NodeVec, Program};

struct Word(u16);

impl LCNode for Word {
    fn encoding(&self) -> u16 {
        self.0
    }

    fn to_binary(&self) -> u16 {
        self.0
    }
}

fn program(words: &[u16]) -> Program {
    let tree: NodeVec = words.iter().map(|w| Box::new(Word(*w)) as Box<dyn LCNode>).collect();
    Program::from(tree, LabelMap::new())
}

fn assembled_app(words: &[u16]) -> LC3App {
    let mut app = LC3App::new();
    app.source_text = "program".to_string();
    assert!(app.try_assemble(Ok(program(words))));
    app
}

#[test]
fn new_app_is_idle() {
    let app = LC3App::new();
    assert!(app.source_text.is_empty());
    assert!(!app.running);
    assert!(!app.assembled);
    assert!(app.error_message.is_none());
    assert_eq!(app.cpu.view_pc(), 0);
}

#[test]
fn assemble_blank_text_is_refused() {
    let mut app = LC3App::new();
    app.source_text = "  \n\t  ".to_string();
    assert!(!app.try_assemble(Ok(program(&[0x1265]))));
    assert_eq!(app.error_message.as_deref(), Some("No code to run"));
    assert!(!app.assembled);
    assert_eq!(app.cpu.view_memory_slice(0, 1), &[0]);
}

#[test]
fn assemble_reports_parse_error() {
    let mut app = LC3App::new();
    app.source_text = "ADD R1 R1".to_string();
    assert!(!app.try_assemble(Err("unexpected token".to_string())));
    assert_eq!(app.error_message.as_deref(), Some("Error: unexpected token"));
    assert!(!app.assembled);
}

#[test]
fn assemble_without_instructions_is_refused() {
    let mut app = LC3App::new();
    app.source_text = "; only a comment".to_string();
    assert!(!app.try_assemble(Ok(program(&[]))));
    assert_eq!(app.error_message.as_deref(), Some("No instructions generated"));
    assert!(!app.assembled);
}

#[test]
fn assemble_loads_program_and_clears_message() {
    let mut app = LC3App::new();
    app.error_message = Some("old".to_string());
    app.source_text = "ADD R1, R1, #5\nHALT".to_string();
    assert!(app.try_assemble(Ok(program(&[0x1265, 0xF025]))));
    assert!(app.assembled);
    assert!(app.error_message.is_none());
    assert_eq!(app.cpu.view_memory_slice(0, 3), &[0x1265, 0xF025, 0]);
}

#[test]
fn step_before_assembling_is_refused() {
    let mut app = LC3App::new();
    app.press(Control::Step);
    assert_eq!(app.error_message.as_deref(), Some("Assemble first"));
    assert_eq!(app.cpu.view_pc(), 0);
}

#[test]
fn run_before_assembling_is_refused() {
    let mut app = LC3App::new();
    app.press(Control::Run);
    assert_eq!(app.error_message.as_deref(), Some(" Assemble first"));
    assert!(!app.running);
}

#[test]
fn step_after_assembling_executes_one_instruction() {
    let mut app = assembled_app(&[0x1265, 0xF025]);
    app.press(Control::Step);
    assert_eq!(app.cpu.view_registers()[1], 5);
    assert_eq!(app.cpu.view_pc(), 1);
    assert!(app.error_message.is_none());
}

#[test]
fn run_frames_and_pause() {
    let mut app = assembled_app(&[0x1265, 0x1265, 0xF025]);
    assert!(!app.frame());
    assert_eq!(app.cpu.view_pc(), 0);
    app.press(Control::Run);
    assert!(app.running);
    assert!(app.frame());
    assert!(app.frame());
    assert_eq!(app.cpu.view_registers()[1], 10);
    app.press(Control::Pause);
    assert!(!app.running);
    assert!(!app.frame());
    assert_eq!(app.cpu.view_pc(), 2);
}

#[test]
fn reset_restores_fresh_processor() {
    let mut app = assembled_app(&[0x1265, 0xF025]);
    app.press(Control::Step);
    app.press(Control::Run);
    app.press(Control::Reset);
    assert!(!app.running);
    assert!(!app.assembled);
    assert_eq!(app.cpu.view_pc(), 0);
    assert_eq!(app.cpu.view_registers(), CPU::default().view_registers());
    assert_eq!(app.cpu.view_memory_slice(0, 2), &[0, 0]);
    app.press(Control::Step);
    assert_eq!(app.error_message.as_deref(), Some("Assemble first"));
}

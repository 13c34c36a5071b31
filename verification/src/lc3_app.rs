//! The state of the LC-3 workbench: the editor text, the processor, and what
//! the controls do to them.
use vstd::prelude::*;
use crate::cpu::CPU;
use crate::machine::{CpuState, MEMORY_SIZE};
use crate::program::{encodings, Program};

verus! {

broadcast use vstd::string::to_string_from_display_ensures_for_str;

/// Whether `c` has the Unicode `White_Space` property, as `char::is_whitespace` tells.
pub uninterp spec fn white_space(c: char) -> bool;

/// Calls `char::is_whitespace`. The contract claims only that the answer is
/// `white_space(c)`, a name for the Unicode `White_Space` property that std
/// documents; which characters have it is left unstated.
#[verifier::external_body]
fn is_whitespace(c: char) -> (b: bool)
    ensures
        b == white_space(c),
{
    c.is_whitespace()
}

/// Whether the text is empty once surrounding whitespace is trimmed.
pub open spec fn is_blank(s: Seq<char>) -> bool {
    forall|i: int| 0 <= i < s.len() ==> white_space(#[trigger] s[i])
}

/// The editor text counts as blank exactly when every one of its characters
/// is whitespace: one character that is not, at any position, makes it not blank.
pub proof fn lemma_blank_iff_all_whitespace(s: Seq<char>)
    ensures
        (exists|i: int| 0 <= i < s.len() && !white_space(#[trigger] s[i])) ==> !is_blank(s),
        (forall|i: int| 0 <= i < s.len() ==> white_space(#[trigger] s[i])) ==> is_blank(s),
{
}

/// Whether `message` holds exactly the text `text`.
pub open spec fn shows(message: Option<String>, text: Seq<char>) -> bool {
    message matches Some(m) && m@ == text
}

fn text_is_blank(s: &str) -> (b: bool)
    ensures
        b == is_blank(s@),
{
    let mut blank = true;
    for c in it: s.chars()
        invariant
            it.seq() == s@,
            blank == (forall|j: int| 0 <= j < it.index() ==> white_space(#[trigger] s@[j])),
    {
        if !is_whitespace(c) {
            blank = false;
        }
    }
    blank
}

/// The controls of the top bar that act on the processor.
pub enum Control {
    Step,
    Run,
    Pause,
    Reset,
}

pub struct LC3App {
    pub cpu: CPU,
    /// The assembly code text.
    pub source_text: String,
    pub running: bool,
    /// Whether a program was assembled and loaded since the last reset.
    pub assembled: bool,
    /// The message shown in the top bar.
    pub error_message: Option<String>,
}

impl LC3App {
    /// A workbench with a fresh processor and an empty editor.
    pub fn new() -> (app: Self)
        ensures
            app.cpu@ == CpuState::initial(),
            app.source_text@ == Seq::<char>::empty(),
            !app.running,
            !app.assembled,
            app.error_message is None,
    {
        let cpu = CPU::default();

        LC3App {
            cpu,
            source_text: String::new(),  // user writes their own assembly
            running: false,
            assembled: false,
            error_message: None,
        }
    }

    /// Assembles the editor text, given what the parser made of it, and loads
    /// the machine code at address 0. Returns whether a program was loaded.
    pub fn try_assemble(&mut self, parsed: Result<Program, String>) -> (ok: bool)
        requires
            !is_blank(old(self).source_text@) ==> (parsed matches Ok(p) ==> p.tree().len()
                <= MEMORY_SIZE),
        ensures
            final(self).source_text == old(self).source_text,
            final(self).running == old(self).running,
            ok <==> !is_blank(old(self).source_text@) && (parsed matches Ok(p) && p.tree().len() > 0),
            ok ==> {
                &&& final(self).error_message is None
                &&& final(self).assembled
                &&& parsed matches Ok(p) && final(self).cpu@ == (CpuState {
                    memory: encodings(p.tree()) + old(self).cpu@.memory.subrange(
                        p.tree().len() as int,
                        MEMORY_SIZE as int,
                    ),
                    ..old(self).cpu@
                })
            },
            !ok ==> final(self).cpu@ == old(self).cpu@ && final(self).assembled == old(self).assembled,
            is_blank(old(self).source_text@) ==> shows(final(self).error_message, "No code to run"@),
            !is_blank(old(self).source_text@) ==> (parsed matches Err(e) ==> shows(
                final(self).error_message,
                "Error: "@ + e@,
            )),
            !is_blank(old(self).source_text@) ==> (parsed matches Ok(p) && p.tree().len() == 0
                ==> shows(final(self).error_message, "No instructions generated"@)),
    {
        self.error_message = None;

        // check if there's code in the editor
        if text_is_blank(self.source_text.as_str()) {
            self.error_message = Some("No code to run".to_string());
            return false;
        }
        // parser taken tokens -> program

        let program = match parsed {
            Ok(prog) => prog,
            Err(e) => {
                let mut message = "Error: ".to_string();
                message.append(e.as_str());
                self.error_message = Some(message);
                return false;
            },
        };

        // calls to_binary() on program -> machine code
        let mut program = program;
        program.to_binary();
        let binary = program.get_binary();

        // calls set_program() on machine code -> loaded in CPU memory
        if !binary.is_empty() {
            self.cpu.set_program(binary.as_slice());
            self.assembled = true;
            return true;  // assembled at this point

        } else {
            // handles if user types only non-executable things
            self.error_message = Some("No instructions generated".to_string());
            return false;
        }
    }

    /// The start of a frame: a running processor executes one instruction.
    /// Returns whether the display must be redrawn at once.
    pub fn frame(&mut self) -> (repaint: bool)
        requires
            old(self).running ==> old(self).cpu@.can_step(),
        ensures
            repaint == old(self).running,
            final(self).cpu@ == if old(self).running {
                old(self).cpu@.next()
            } else {
                old(self).cpu@
            },
            final(self).source_text == old(self).source_text,
            final(self).running == old(self).running,
            final(self).assembled == old(self).assembled,
            final(self).error_message == old(self).error_message,
    {
        if self.running {
            self.cpu.step();
            return true;  // keep updating the display
        }
        false
    }

    /// What a click on one of the controls does.
    pub fn press(&mut self, control: Control)
        requires
            control is Step && old(self).assembled ==> old(self).cpu@.can_step(),
        ensures
            final(self).source_text == old(self).source_text,
            match control {
                Control::Step => {
                    &&& final(self).running == old(self).running
                    &&& final(self).assembled == old(self).assembled
                    &&& if old(self).assembled {
                        &&& final(self).cpu@ == old(self).cpu@.next()
                        &&& final(self).error_message == old(self).error_message
                    } else {
                        &&& final(self).cpu@ == old(self).cpu@
                        &&& shows(final(self).error_message, "Assemble first"@)
                    }
                },
                Control::Run => {
                    &&& final(self).cpu@ == old(self).cpu@
                    &&& final(self).assembled == old(self).assembled
                    &&& if old(self).assembled {
                        &&& final(self).running
                        &&& final(self).error_message == old(self).error_message
                    } else {
                        &&& final(self).running == old(self).running
                        &&& shows(final(self).error_message, " Assemble first"@)
                    }
                },
                Control::Pause => {
                    &&& final(self).cpu@ == old(self).cpu@
                    &&& !final(self).running
                    &&& final(self).assembled == old(self).assembled
                    &&& final(self).error_message == old(self).error_message
                },
                Control::Reset => {
                    &&& final(self).cpu@ == CpuState::initial()
                    &&& !final(self).running
                    &&& !final(self).assembled
                    &&& final(self).error_message == old(self).error_message
                },
            },
    {
        match control {
            Control::Step => {
                // increment by one instruction
                if self.assembled {
                    self.cpu.step();
                } else {
                    self.error_message = Some("Assemble first".to_string());
                }
            },
            Control::Run => {
                if self.assembled {
                    self.running = true;
                } else {
                    self.error_message = Some(" Assemble first".to_string());
                }
            },
            Control::Pause => {
                self.running = false;
            },
            Control::Reset => {
                self.cpu = CPU::default();
                self.running = false;
                self.assembled = false;  // need to reassemble after reset
            },
        }
    }
}

} // verus!

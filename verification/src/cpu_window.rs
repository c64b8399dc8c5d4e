//! What the window of the CPU shows: the registers as text.

use vstd::prelude::*;
use vstd::string::StringExecFns;

use crate::debug_em::HackSystem;
use crate::format::{hex4_text, push_hex4};

verus! {

/// The window of the CPU. It holds no state.
pub struct CpuWindow {}

/// A register as it is shown: `0x` and four hexadecimal digits in upper case.
pub open spec fn register_text(value: u16) -> Seq<char> {
    "0x"@ + hex4_text(value, true)
}

impl CpuWindow {
    /// A window of the CPU.
    pub fn new() -> (window: Self)
        ensures
            window == (CpuWindow {  }),
    {
        Self {  }
    }

    /// The title of the window.
    pub fn name(&self) -> (title: &'static str)
        ensures
            title@ == "Cpu"@,
    {
        "Cpu"
    }

    /// A register as it is shown.
    pub fn show_register(value: u16) -> (text: String)
        ensures
            text@ == register_text(value),
    {
        let mut text = String::from_str("0x");
        push_hex4(&mut text, value, true);
        text
    }

    /// The rows of the window: the label and the value of the program
    /// counter, of A and of D, in that order.
    pub fn rows(&self, hacksys: &HackSystem) -> (rows: Vec<(&'static str, String)>)
        ensures
            rows@.len() == 3,
            rows@[0].0@ == "PC: "@ && rows@[0].1@ == register_text(hacksys.engine.pc),
            rows@[1].0@ == "A: "@ && rows@[1].1@ == register_text(hacksys.engine.a),
            rows@[2].0@ == "D: "@ && rows@[2].1@ == register_text(hacksys.engine.d),
    {
        let (pc, a, d) = hacksys.engine.get_registers();
        let mut rows: Vec<(&'static str, String)> = Vec::new();
        rows.push(("PC: ", Self::show_register(pc)));
        rows.push(("A: ", Self::show_register(a)));
        rows.push(("D: ", Self::show_register(d)));
        rows
    }
}

} // verus!

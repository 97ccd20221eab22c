use vstd::prelude::*;

use crate::output::Instruction;

verus! {

/// The identity of a defined function: module name, module version and
/// exported name. Unique per defined function of a loaded module; lookup
/// correctness rests on structural equality of this identity, never on the
/// text mangled from it.
#[derive(Debug, Clone)]
pub struct FunctionSymbol {
    pub module_name: String,
    pub module_version: Vec<u32>,
    pub symbol: String,
}

/// One operation of the portable register-based intermediate representation.
///
/// `ConstI`, `Add` and `Call` each define the next temporary, numbered from
/// zero in order of definition; operands name earlier temporaries by number.
#[derive(Debug, Clone, Copy, PartialEq, Eq, Structural)]
pub enum IrOp {
    /// Has no effect.
    Nop,
    /// Defines a temporary holding a constant.
    ConstI(i32),
    /// Defines a temporary holding the sum of two earlier temporaries.
    Add(usize, usize),
    /// Calls the function with the given index in the module's function
    /// table and defines a temporary holding its result.
    Call(usize),
    /// Returns the value of a temporary to the caller.
    Ret(usize),
}

/// A defined function: its identity and its operation stream. Read-only
/// input to the translator.
#[derive(Debug, Clone)]
pub struct IrFunction {
    pub symbol: FunctionSymbol,
    pub body: Vec<IrOp>,
}

/// A loaded module: its defined functions and, when one is declared, the
/// index of its entry point function. Read-only for the whole run.
#[derive(Debug, Clone)]
pub struct Module {
    pub functions: Vec<IrFunction>,
    pub entry_point: Option<usize>,
}

impl Module {
    /// A loaded module is well formed when its entry point, if declared,
    /// names one of its functions.
    pub open spec fn wf(&self) -> bool {
        self.entry_point matches Some(e) ==> e < self.functions@.len()
    }
}

/// A translated function: its generated label and its ordered target
/// instructions. Created once per distinct reachable symbol.
#[derive(Debug, Clone)]
pub struct TargetFunction {
    pub label: String,
    pub instructions: Vec<Instruction>,
}

} // verus!

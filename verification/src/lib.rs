//! Assembles a module of a portable register-based intermediate representation
//! into textual MIPS32 assembly: transitive call-graph discovery from the entry
//! point, deterministic label mangling, per-function lowering into MIPS32
//! instructions, and emission of one self-contained assembly text with a fixed
//! program-entry trampoline.

mod discover;
mod emit;
mod error;
mod mangle;
mod model;
mod output;
mod translate;

pub use discover::all_reachable_supported;
pub use discover::build_functions;
pub use discover::calls_edge;
pub use discover::entry_correct;
pub use discover::reachable;
pub use discover::reachable_in;
pub use emit::blocks_prefix;
pub use emit::function_block;
pub use emit::instruction_lines;
pub use emit::lemma_trampoline_nine_lines;
pub use emit::newline_count;
pub use emit::program_text;
pub use emit::trampoline_views;
pub use emit::write_program;
pub use error::Error;
pub use mangle::create_function_label;
pub use mangle::create_label;
pub use mangle::escaped;
pub use mangle::lemma_mangled_label_valid;
pub use mangle::mangled;
pub use mangle::symbol_label;
pub use mangle::valid_label;
pub use mangle::version_text;
pub use model::FunctionSymbol;
pub use model::IrFunction;
pub use model::IrOp;
pub use model::Module;
pub use model::TargetFunction;
pub use output::Instruction;
pub use output::InstructionView;
pub use output::MarsServiceNumber;
pub use output::Register;
pub use output::instruction_text;
pub use output::instruction_views;
pub use output::newline_free;
pub use output::register_text;
pub use output::service_number;
pub use translate::body_supported;
pub use translate::callees;
pub use translate::function_code;
pub use translate::generate_instructions;
pub use translate::op_supported;
pub use translate::temp_count;
pub use translate::temp_register;

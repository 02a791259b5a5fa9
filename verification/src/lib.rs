use vstd::prelude::*;

mod strutil;
pub mod common;
pub mod ir;
pub mod lir;
pub mod lower;
pub mod mir;
pub mod output;

use crate::ir::{IRFunction, IR};
use crate::lir::LIRFunction;
use crate::lower::ir_to_mir::{block_lowered, lower_ir};
use crate::lower::mir_to_lir::{function_fits, lower_mir, mir_fits, program_lower_fails, program_lowered, LowerError};
use crate::mir::MIRFunction;
use crate::output::codegen::CodegenError;
use crate::output::datapack::Datapack;
use crate::output::strip::StripMode;
use crate::output::{all_supported, link, link_fits, link_result, uses_sum};
use crate::output::strip::all_calls;

verus! {

/// Settings for the full lowering and code generation routine
pub struct CodegenIRSettings {
    pub debug: bool,
    pub debug_functions: bool,
    pub ir_passes: bool,
    pub mir_passes: bool,
    pub lir_passes: bool,
}

impl CodegenIRSettings {
    /// Construct the default settings: only the IR passes are enabled
    pub fn new() -> (s: Self)
        ensures
            !s.debug,
            !s.debug_functions,
            s.ir_passes,
            !s.mir_passes,
            !s.lir_passes,
    {
        CodegenIRSettings {
            debug: false,
            debug_functions: false,
            ir_passes: true,
            mir_passes: false,
            lir_passes: false,
        }
    }
}

/// What can stop the full routine
#[derive(Debug)]
pub enum CodegenIRError {
    /// A function of the program holds more instructions, or a call more
    /// arguments, than lowering can number
    TooLarge,
    /// An instruction cannot be lowered
    Lower(LowerError),
    /// The lowered program makes more calls or register uses than linking
    /// can count, or holds a constant that no command can write
    Unwritable,
    /// The code of a function cannot be generated
    Codegen(CodegenError),
}

/// The mid-level program that a program lowers to: each function keeps its
/// interface, and its instructions are lowered one after another
pub open spec fn ir_lowered(ir: Seq<IRFunction>, mir: Seq<MIRFunction>) -> bool {
    &&& mir.len() == ir.len()
    &&& forall|i: int|
        0 <= i < ir.len() ==> {
            &&& (#[trigger] mir[i]).interface == ir[i].interface
            &&& block_lowered(ir[i].block.contents@, mir[i].block.contents@)
        }
}

/// Whether every function of a mid-level program fits the counters of lowering
pub open spec fn mir_all_fit(mir: Seq<MIRFunction>) -> bool {
    forall|i: int| 0 <= i < mir.len() ==> function_fits(#[trigger] mir[i])
}

/// Whether a low-level program stays within what linking can count and write
pub open spec fn lir_link_fits(lir: Seq<LIRFunction>) -> bool {
    all_calls(lir).len() <= i32::MAX && uses_sum(lir) <= u32::MAX && all_supported(lir)
}

/// Lowers a program to the mid-level IR, then to the low-level IR, and links
/// it into a datapack: function names are stripped as the mode asks, and the
/// setup function goes under the project's name
pub fn codegen_ir(ir: IR, project_name: &str, mode: StripMode) -> (r: Result<Datapack, CodegenIRError>)
    ensures
        exists|mir: Seq<MIRFunction>|
            #[trigger] ir_lowered(ir.functions@, mir) && match r {
                Err(CodegenIRError::TooLarge) => !mir_all_fit(mir),
                Err(CodegenIRError::Lower(e)) => mir_all_fit(mir) && program_lower_fails(mir, e),
                Err(CodegenIRError::Unwritable) => mir_all_fit(mir) && exists|lir: Seq<LIRFunction>|
                    #[trigger] program_lowered(mir, lir) && !lir_link_fits(lir),
                Err(CodegenIRError::Codegen(e)) => mir_all_fit(mir) && exists|lir: Seq<LIRFunction>|
                    #[trigger] program_lowered(mir, lir) && lir_link_fits(lir) && link_result(
                        lir,
                        mode,
                        project_name@,
                        Err(e),
                    ),
                Ok(pack) => mir_all_fit(mir) && exists|lir: Seq<LIRFunction>|
                    #[trigger] program_lowered(mir, lir) && lir_link_fits(lir) && link_result(
                        lir,
                        mode,
                        project_name@,
                        Ok(pack),
                    ),
            },
{
    let ghost irf = ir.functions@;
    let mir = match lower_ir(ir) {
        Ok(m) => m,
        Err(e) => return Err(CodegenIRError::Lower(e)),
    };
    let ghost m = mir.functions@;
    assert(ir_lowered(irf, m));
    if !mir_fits(&mir) {
        return Err(CodegenIRError::TooLarge);
    }
    let lir = match lower_mir(mir) {
        Ok(l) => l,
        Err(e) => {
            assert(program_lower_fails(m, e));
            return Err(CodegenIRError::Lower(e));
        },
    };
    let ghost l = lir.functions@;
    assert(program_lowered(m, l));
    if !link_fits(&lir) {
        return Err(CodegenIRError::Unwritable);
    }
    match link(lir, mode, project_name) {
        Ok(pack) => {
            assert(link_result(l, mode, project_name@, Ok(pack)));
            Ok(pack)
        },
        Err(e) => {
            assert(link_result(l, mode, project_name@, Err(e)));
            Err(CodegenIRError::Codegen(e))
        },
    }
}

} // verus!

//! Abstract-interpretation engine that checks native WebAssembly code
//! (compiled by Lucet or WAMR) for sandbox safety: every memory access,
//! stack operation and indirect call of a function must respect the
//! discipline the compiler is expected to enforce.
pub mod ir;
pub mod lifter;
pub mod metadata;
pub mod lattice;
pub mod heaplattice;
pub mod reach;
pub mod calllattice;
pub mod stackgrowth;
pub mod regs;
pub mod stack;
pub mod varstate;
pub mod analysis;
pub mod checker;
pub mod heap_analyzer;
pub mod heap_checker;
pub mod stack_analyzer;
pub mod stack_checker;
pub mod reaching_defs;
pub mod call_analyzer;
pub mod call_checker;
pub mod switch_analyzer;
pub mod jump_resolver;
pub mod pipeline;

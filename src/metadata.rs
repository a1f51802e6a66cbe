//! What the analyses need to know about the compiler that produced a module.
use vstd::prelude::*;

verus! {

#[derive(Clone, Copy, Debug, PartialEq, Eq, Structural)]
pub enum Compiler {
    Lucet,
    Wamr,
}

#[derive(Clone, Copy, Debug)]
pub struct CompilerMetadata {
    pub compiler: Compiler,
    /// Address of Lucet's `guest_table_0`.
    pub guest_table_0: u64,
    /// Address of Lucet's `lucet_tables`.
    pub lucet_tables: u64,
    /// Address of Lucet's `lucet_probestack`.
    pub lucet_probestack: u64,
    /// Size in bytes of WAMR's global data.
    pub globals_size: i64,
}

/// Command-line configuration of a verification run.
pub struct Config {
    /// Path to the module to verify.
    pub module_file: String,
    pub num_jobs: u32,
    /// Where to write per-function statistics, when `has_output`.
    pub output_path: String,
    pub has_output: bool,
    pub quiet: bool,
    pub compiler: Compiler,
    /// WAMR function indices that are trusted rather than verified.
    pub funcs: Vec<u32>,
    /// Size in bytes of WAMR's global data (`-1` when not given).
    pub globals_size: i64,
    /// Number of entries of WAMR's indirect call table (`-1` when not given).
    pub call_table_size: i64,
}

} // verus!

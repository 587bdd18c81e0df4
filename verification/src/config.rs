//! Instruction-set configuration: the pre-validated values the session
//! needs from the configuration file — the program-counter register and
//! the paths of the assembler and disassembler tools. Reading the file,
//! parsing it, walking `$PATH` and looking a register up in the
//! architecture's symbol table are the driver's work; the decisions on
//! what they yield are made here.

use vstd::prelude::*;

verus! {

/// The validated instruction-set configuration.
pub struct ISAConfig {
    /// The program counter's symbol in the architecture's symbol table.
    pub pc: u32,
    /// The resolved path of the assembler tool.
    pub assembler: String,
    /// The resolved path of the objdump tool.
    pub objdump: String,
}

/// Why the configuration was rejected.
#[derive(Debug)]
pub enum ConfigError {
    /// A required tool entry is missing or is not a string.
    ToolNotConfigured,
    /// The configured tool is not present in any `$PATH` directory.
    ToolNotFound,
    /// The configuration names no program-counter register.
    PcNotConfigured,
    /// The named register does not exist in the supplied architecture.
    NoSuchRegister,
}

/// Decide a tool's resolved path: the configuration must name the tool,
/// and the search over `$PATH` (done by the driver) must have found it.
pub fn get_tool_path(entry: Option<String>, found: Option<String>) -> (r: Result<
    String,
    ConfigError,
>)
    ensures
        entry is None ==> r == Err::<String, ConfigError>(ConfigError::ToolNotConfigured),
        entry is Some ==> (match found {
            Some(p) => r == Ok::<String, ConfigError>(p),
            None => r == Err::<String, ConfigError>(ConfigError::ToolNotFound),
        }),
{
    if entry.is_none() {
        Err(ConfigError::ToolNotConfigured)
    } else {
        match found {
            Some(p) => Ok(p),
            None => Err(ConfigError::ToolNotFound),
        }
    }
}

/// Decide the program counter's symbol: the configuration must name a
/// register, and the symbol-table lookup (done against the architecture)
/// must know it.
pub fn get_program_counter(entry: Option<String>, symbol: Option<u32>) -> (r: Result<
    u32,
    ConfigError,
>)
    ensures
        entry is None ==> r == Err::<u32, ConfigError>(ConfigError::PcNotConfigured),
        entry is Some ==> (match symbol {
            Some(s) => r == Ok::<u32, ConfigError>(s),
            None => r == Err::<u32, ConfigError>(ConfigError::NoSuchRegister),
        }),
{
    if entry.is_none() {
        Err(ConfigError::PcNotConfigured)
    } else {
        match symbol {
            Some(s) => Ok(s),
            None => Err(ConfigError::NoSuchRegister),
        }
    }
}

} // verus!

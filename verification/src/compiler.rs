//! Ahead-of-time compilation of a module component: the input limit, the compilation
//! itself, and the temporary file through which the compiled artifact is written.

use vstd::prelude::*;
use vstd::string::StringExecFns;

use crate::decimal::{decimal_chars, push_decimal};

verus! {

/// The largest module, in bytes, that the compiler accepts: 64 MiB.
pub const MAX_MODULE_BYTES: usize = 67108864;

/// Why the compiler refuses or fails to compile a module.
#[derive(PartialEq, Eq, Debug)]
pub enum CompileError {
    /// The module is larger than 64 MiB.
    ModuleTooLarge,
    /// The runtime could not set up its compiler; the text is the runtime's.
    EngineUnavailable(String),
    /// The runtime could not compile the component; the text is the runtime's.
    PrecompileFailed(String),
}

/// What a `CompileError` says, with its texts taken by their characters.
pub enum CompileErrorView {
    ModuleTooLarge,
    EngineUnavailable(Seq<char>),
    PrecompileFailed(Seq<char>),
}

impl View for CompileError {
    type V = CompileErrorView;

    open spec fn view(&self) -> CompileErrorView {
        match self {
            CompileError::ModuleTooLarge => CompileErrorView::ModuleTooLarge,
            CompileError::EngineUnavailable(text) => CompileErrorView::EngineUnavailable(text@),
            CompileError::PrecompileFailed(text) => CompileErrorView::PrecompileFailed(text@),
        }
    }
}

/// The message with which the compiler gives up.
pub open spec fn compile_error_message(e: CompileErrorView) -> Seq<char> {
    match e {
        CompileErrorView::ModuleTooLarge => "module exceeds the 64 MiB compiler input limit"@,
        CompileErrorView::EngineUnavailable(text) => text,
        CompileErrorView::PrecompileFailed(text) => "failed to precompile module component: "@
            + text,
    }
}

impl CompileError {
    /// The message with which the compiler gives up.
    pub fn message(&self) -> (r: String)
        ensures
            r@ == compile_error_message(self@),
    {
        match self {
            CompileError::ModuleTooLarge => String::from_str(
                "module exceeds the 64 MiB compiler input limit",
            ),
            CompileError::EngineUnavailable(text) => text.clone(),
            CompileError::PrecompileFailed(text) => {
                let mut m = String::from_str("failed to precompile module component: ");
                m.append(text.as_str());
                m
            },
        }
    }
}

/// Checks the size, in bytes, of a module to compile: at most 64 MiB.
pub fn check_module_size(len: usize) -> (r: Result<(), CompileError>)
    ensures
        r is Ok <==> len <= MAX_MODULE_BYTES,
        r matches Err(e) ==> e == CompileError::ModuleTooLarge,
{
    if len > MAX_MODULE_BYTES {
        return Err(CompileError::ModuleTooLarge);
    }
    Ok(())
}

/// The name of the temporary file beside the output: a dot, the output's file name (or
/// `module` where it has no name in UTF-8), a dot, the process ID and `.tmp`.
pub open spec fn temporary_output_name(file_name: Option<Seq<char>>, pid: u32) -> Seq<char> {
    let name = match file_name {
        Some(n) => n,
        None => "module"@,
    };
    "."@ + name + "."@ + decimal_chars(pid as nat) + ".tmp"@
}

/// The name of the temporary file through which the compiled artifact for `file_name` is
/// written by process `pid`.
pub fn temporary_file_name(file_name: Option<&str>, pid: u32) -> (r: String)
    ensures
        r@ == temporary_output_name(
            match file_name {
                Some(n) => Some(n@),
                None => None,
            },
            pid,
        ),
{
    let mut name = String::from_str(".");
    match file_name {
        Some(n) => name.append(n),
        None => name.append("module"),
    }
    name.append(".");
    push_decimal(&mut name, pid as u64);
    name.append(".tmp");
    name
}


/// The compiling engine of wasmtime.
#[verifier::external_type_specification]
#[verifier::external_body]
pub struct ExEngine(wasmtime::Engine);

/// A wasmtime `Engine` (`Engine::new`) with the component model and fuel metering on, as
/// the host runs modules, or the text of the runtime's error. Nothing is stated of it: the
/// engine is opaque here, and whether it can be set up depends on the machine.
#[verifier::external_body]
fn compiler_engine() -> Result<wasmtime::Engine, String> {
    let mut config = wasmtime::Config::new();
    config.wasm_component_model(true).consume_fuel(true);
    wasmtime::Engine::new(&config).map_err(|error| error.to_string())
}

/// Whether `artifact` is a compiled form of the component `module`, as the runtime makes
/// it: which artifact that is depends on the compiler and the host CPU.
pub uninterp spec fn compiled_from(module: Seq<u8>, artifact: Seq<u8>) -> bool;

/// The component `module` compiled ahead of time by `engine`
/// (`Engine::precompile_component`), or the text of the runtime's error. Of the artifact it
/// is stated only that it was compiled from `module`: its bytes depend on the compiler and
/// the host CPU.
#[verifier::external_body]
fn precompile_component(engine: &wasmtime::Engine, module: &[u8]) -> (r: Result<Vec<u8>, String>)
    ensures
        r matches Ok(artifact) ==> compiled_from(module@, artifact@),
{
    engine.precompile_component(module).map_err(|error| error.to_string())
}

/// Compiles a module component ahead of time for this host. A module over 64 MiB is
/// refused before anything is compiled; otherwise the runtime sets up its engine and
/// compiles the module, and its errors come back with their texts.
pub fn compile_module(module: &[u8]) -> (r: Result<Vec<u8>, CompileError>)
    ensures
        module@.len() > MAX_MODULE_BYTES <==> r matches Err(CompileError::ModuleTooLarge),
        r is Ok ==> module@.len() <= MAX_MODULE_BYTES,
        r matches Ok(artifact) ==> compiled_from(module@, artifact@),
{
    if let Err(e) = check_module_size(module.len()) {
        return Err(e);
    }
    let engine = match compiler_engine() {
        Ok(engine) => engine,
        Err(text) => return Err(CompileError::EngineUnavailable(text)),
    };
    match precompile_component(&engine, module) {
        Ok(artifact) => Ok(artifact),
        Err(text) => Err(CompileError::PrecompileFailed(text)),
    }
}

} // verus!

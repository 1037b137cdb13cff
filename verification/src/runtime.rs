//! Errors of the WebAssembly runtime, as the host reports them.

use vstd::prelude::*;

verus! {

/// The error type of wasmtime.
#[verifier::external_type_specification]
#[verifier::external_body]
pub struct ExWasmtimeError(wasmtime::Error);

/// The error type of anyhow.
#[verifier::external_type_specification]
#[verifier::external_body]
pub struct ExAnyhowError(anyhow::Error);

/// The text of a wasmtime error, by its `Display` impl (`ToString::to_string`). Nothing is
/// stated of it: the error is opaque here.
#[verifier::external_body]
fn wasmtime_error_text(error: &wasmtime::Error) -> String {
    error.to_string()
}

/// An anyhow error that carries `text` as its message (`anyhow::Error::msg`). Nothing is
/// stated of it: the error is opaque here.
#[verifier::external_body]
fn anyhow_error(text: String) -> anyhow::Error {
    anyhow::Error::msg(text)
}

/// Hands on the value of a runtime call, or turns its error into an error that carries
/// the runtime error's message.
pub fn wt<T>(result: Result<T, wasmtime::Error>) -> (r: Result<T, anyhow::Error>)
    ensures
        r is Ok <==> result is Ok,
        r matches Ok(v) ==> result == Ok::<T, wasmtime::Error>(v),
{
    match result {
        Ok(v) => Ok(v),
        Err(error) => Err(anyhow_error(wasmtime_error_text(&error))),
    }
}

} // verus!

//! The settings that the launcher starts the host with, and the checks they must pass.

use vstd::prelude::*;
use vstd::string::{StringExecFns, StringSliceAdditionalSpecFns};
use vstd::utf8::encode_utf8;

use crate::origin::{https_origin, origin_of};

verus! {

/// The smallest linear memory, in MiB, that a module may be given.
pub const MIN_MEMORY_MIB: usize = 1;

/// The largest linear memory, in MiB, that a module may be given.
pub const MAX_MEMORY_MIB: usize = 256;

/// The linear memory, in MiB, that a module gets where the launcher names none.
pub const DEFAULT_MEMORY_MIB: usize = 32;

/// The fuel of one query where the launcher names none.
pub const DEFAULT_FUEL: u64 = 20000000;

/// Why the host refuses to start.
#[derive(Debug)]
pub enum StartupError {
    /// The memory limit is not between 1 and 256 MiB.
    MemoryLimitOutOfRange,
    /// A granted network origin is not an exact HTTPS origin.
    InexactOrigin { origin: String },
}

/// What a `StartupError` says, with the origin taken by its characters.
pub enum StartupErrorView {
    MemoryLimitOutOfRange,
    InexactOrigin(Seq<char>),
}

impl View for StartupError {
    type V = StartupErrorView;

    open spec fn view(&self) -> StartupErrorView {
        match self {
            StartupError::MemoryLimitOutOfRange => StartupErrorView::MemoryLimitOutOfRange,
            StartupError::InexactOrigin { origin } => StartupErrorView::InexactOrigin(origin@),
        }
    }
}

/// The message with which the host refuses to start.
pub open spec fn startup_error_message(e: StartupErrorView) -> Seq<char> {
    match e {
        StartupErrorView::MemoryLimitOutOfRange => "memory limit must be between 1 and 256 MiB"@,
        StartupErrorView::InexactOrigin(origin) => "network origin must be an exact HTTPS origin: "@
            + origin,
    }
}

impl StartupError {
    /// The message with which the host refuses to start.
    pub fn message(&self) -> (r: String)
        ensures
            r@ == startup_error_message(self@),
    {
        match self {
            StartupError::MemoryLimitOutOfRange => String::from_str(
                "memory limit must be between 1 and 256 MiB",
            ),
            StartupError::InexactOrigin { origin } => {
                let mut m = String::from_str("network origin must be an exact HTTPS origin: ");
                m.append(origin.as_str());
                m
            },
        }
    }
}

/// Checks the memory limit of a module, in MiB: between 1 and 256.
pub fn check_memory_limit(memory_mib: usize) -> (r: Result<(), StartupError>)
    ensures
        r is Ok <==> MIN_MEMORY_MIB <= memory_mib <= MAX_MEMORY_MIB,
        r matches Err(e) ==> e@ == StartupErrorView::MemoryLimitOutOfRange,
{
    if memory_mib < MIN_MEMORY_MIB || memory_mib > MAX_MEMORY_MIB {
        return Err(StartupError::MemoryLimitOutOfRange);
    }
    Ok(())
}

/// Whether `origin`, by its bytes, is an exact HTTPS origin: its own origin.
pub open spec fn is_exact_origin(origin: Seq<u8>) -> bool {
    origin_of(origin) == Some(origin)
}

/// Whether `origin` is an exact HTTPS origin, as the launcher must grant them.
pub fn exact_origin(origin: &str) -> (r: bool)
    ensures
        r == is_exact_origin(origin.spec_bytes()),
{
    let ghost b = origin.spec_bytes();
    match https_origin(origin) {
        Some(parsed) => {
            let exact = parsed.as_bytes().len() == origin.as_bytes().len();
            proof {
                let n = crate::origin::origin_len(b)->0;
                crate::origin::lemma_slash_index(b, 8);
                assert(parsed.spec_bytes() == b.take(n));
                if exact {
                    assert(b.take(n) =~= b);
                } else {
                    assert(b.take(n).len() != b.len());
                }
            }
            exact
        },
        None => false,
    }
}

/// Checks the network origins that the launcher grants: each must be an exact HTTPS
/// origin; the first that is not is named in the error.
pub fn check_network_origins(origins: &[String]) -> (r: Result<(), StartupError>)
    ensures
        r is Ok <==> forall|i: int| 0 <= i < origins@.len() ==> is_exact_origin(encode_utf8(#[trigger] origins@[i]@)),
        r matches Err(e) ==> exists|k: int|
            0 <= k < origins@.len() && e@ == StartupErrorView::InexactOrigin(origins@[k]@)
                && !is_exact_origin(encode_utf8(#[trigger] origins@[k]@)) && forall|j: int|
                0 <= j < k ==> is_exact_origin(encode_utf8(#[trigger] origins@[j]@)),
{
    let mut i: usize = 0;
    while i < origins.len()
        invariant
            i <= origins@.len(),
            forall|j: int| 0 <= j < i ==> is_exact_origin(encode_utf8(#[trigger] origins@[j]@)),
        decreases origins@.len() - i,
    {
        if !exact_origin(origins[i].as_str()) {
            let origin = origins[i].clone();
            return Err(StartupError::InexactOrigin { origin });
        }
        i = i + 1;
    }
    Ok(())
}

} // verus!

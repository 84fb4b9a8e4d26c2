//! Small helpers of a run: the extension of an input, the number of threads.

use vstd::prelude::*;
use crate::error::TransmutaError;
use crate::paths::{extension_of, path_extension};
use crate::text::{lowercase, to_lowercase};

verus! {

/// Calls `num_cpus::get`. Trusted with nothing claimed: the count is the
/// machine's.
#[verifier::external_body]
fn cpu_count() -> (r: usize) {
    num_cpus::get()
}

/// The extension of a path, in lower case.
pub fn get_file_extension(path: &str) -> (r: Result<String, TransmutaError>)
    ensures
        match r {
            Ok(extension) => extension_of(path@) matches Some(e) && extension@ == lowercase(e),
            Err(e) => extension_of(path@).is_none() && e is MissingExtension,
        },
{
    match path_extension(path) {
        Some(extension) => Ok(to_lowercase(extension.as_str())),
        None => Err(TransmutaError::MissingExtension),
    }
}

/// The number of threads of a run, given the number of processors: the number
/// asked for when it is positive, else one thread for each processor.
pub open spec fn thread_count_for(threads: Option<usize>, processors: usize) -> usize {
    match threads {
        Some(t) => if t > 0 {
            t
        } else {
            processors
        },
        None => processors,
    }
}

/// The number of threads of a run, given the number of processors.
pub fn choose_thread_count(threads: Option<usize>, processors: usize) -> (r: usize)
    ensures
        r == thread_count_for(threads, processors),
{
    match threads {
        Some(t) => if t > 0 {
            t
        } else {
            processors
        },
        None => processors,
    }
}

/// The number of threads of a run: the number asked for when it is positive,
/// else the number of processors that the machine reports.
pub fn get_thread_count(threads: Option<usize>) -> (r: usize)
    ensures
        threads matches Some(t) ==> (t > 0 ==> r == t),
{
    let asked: usize = match threads {
        Some(t) => t,
        None => 0,
    };
    if asked > 0 {
        asked
    } else {
        choose_thread_count(threads, cpu_count())
    }
}

} // verus!

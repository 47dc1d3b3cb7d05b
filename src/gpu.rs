//! GPU back ends. None is available in this build: constructing one fails,
//! and callers fall back to the CPU scanner.
use vstd::prelude::*;
use vstd::string::*;

use crate::error::FastCarveError;

verus! {

pub struct CudaScanner;

impl CudaScanner {
    pub fn new() -> (r: Result<Self, FastCarveError>)
        ensures
            r is Err,
    {
        Err(FastCarveError::Other(String::from_str("cuda scanner not implemented")))
    }
}

pub struct CudaStringScanner;

impl CudaStringScanner {
    pub fn new() -> (r: Result<Self, FastCarveError>)
        ensures
            r is Err,
    {
        Err(FastCarveError::Other(String::from_str("cuda string scanner not implemented")))
    }
}

} // verus!

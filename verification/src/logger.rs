//! The process-wide logging sink.
//!
//! The sink's delegate is pluggable and may be installed at most once:
//! the first caller wins, every later caller is refused. The once-only
//! state machine is verified here as a plain value the shell holds; the
//! shell owns the delegate callbacks and the actual writing.

use vstd::prelude::*;

use crate::error::LiquidSdkError;

verus! {

/// One log line handed to the installed delegate.
#[derive(Clone, Debug, PartialEq)]
pub struct LogEntry {
    pub line: String,
    pub level: String,
}

/// A logging delegate, implemented at the application edge.
pub trait Logger {
    fn log(&self, l: LogEntry);
}

/// The once-only installation state of the global logging sink.
pub struct GlobalLogger {
    pub initialized: bool,
}

impl GlobalLogger {
    pub fn new() -> (r: GlobalLogger)
        ensures
            !r.initialized,
    {
        GlobalLogger { initialized: false }
    }

    /// Claims the sink: the first caller wins; every later call is
    /// refused and changes nothing.
    pub fn init(&mut self) -> (r: Result<(), LiquidSdkError>)
        ensures
            r is Ok <==> !old(self).initialized,
            final(self).initialized,
            r is Err ==> r->Err_0 is Generic,
    {
        if self.initialized {
            return Err(LiquidSdkError::Generic { err: "Logger already created".to_owned() });
        }
        self.initialized = true;
        Ok(())
    }
}

} // verus!

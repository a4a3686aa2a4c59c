//! Where work goes that no one waits for, and how time passes.

use std::future::Future;
use std::time::Duration;

use vstd::prelude::*;

verus! {

/// Runs futures, and lets time pass.
pub trait Executor: Send + Clone {
    type Sleep: Send + Future;

    /// Runs a future that no one waits for.
    fn spawn_detached<F: 'static + Send + Future<Output = ()>>(&self, future: F);

    /// A future that is ready after `duration`.
    fn sleep(&self, duration: Duration) -> Self::Sleep;
}

/// What became of something whose failure is no reason to stop.
pub trait ResultExt {
    type Ok;

    /// The value, or nothing where there is an error. The caller may write the error to the
    /// log.
    fn trace_err(self) -> Option<Self::Ok>;
}

impl<T, E> ResultExt for Result<T, E> {
    type Ok = T;

    fn trace_err(self) -> (value: Option<T>)
        ensures
            value == (match self {
                Ok(value) => Some(value),
                Err(_) => None,
            }),
    {
        match self {
            Ok(value) => Some(value),
            Err(_) => None,
        }
    }
}

} // verus!

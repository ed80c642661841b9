//! Taking the value out of an outcome that is known to be good.

use vstd::prelude::*;

verus! {

/// An outcome that either holds a value or stands for a failure.
pub trait PanicOnError<T>: Sized {
    /// Whether the outcome holds a value.
    spec fn succeeded(&self) -> bool;

    /// The value that the outcome holds.
    spec fn content(&self) -> T;

    /// Takes the value out. The caller shows that there is one; `msg` says
    /// what the value was wanted for.
    fn panic_on_error(self, msg: &str) -> (value: T)
        requires
            self.succeeded(),
        ensures
            value == self.content(),
    ;
}

impl<T, E> PanicOnError<T> for Result<T, E> {
    open spec fn succeeded(&self) -> bool {
        self is Ok
    }

    open spec fn content(&self) -> T {
        self->Ok_0
    }

    fn panic_on_error(self, msg: &str) -> (value: T) {
        match self {
            Ok(value) => value,
            Err(_) => vstd::pervasive::unreached(),
        }
    }
}

impl<T> PanicOnError<T> for Option<T> {
    open spec fn succeeded(&self) -> bool {
        self is Some
    }

    open spec fn content(&self) -> T {
        self->Some_0
    }

    fn panic_on_error(self, msg: &str) -> (value: T) {
        match self {
            Some(value) => value,
            None => vstd::pervasive::unreached(),
        }
    }
}

} // verus!

use vstd::prelude::*;

verus! {

/// Calling convention of a kernel operation: privileged only, unprivileged
/// only, or detected at run time.
pub trait Context {

}

/// Privileged calls, made directly.
pub struct Kernel;

impl Context for Kernel {

}

/// Unprivileged calls, always made through the system call gate.
pub struct User;

impl Context for User {

}

/// Calls that detect at run time whether the caller is privileged.
pub struct Any;

impl Context for Any {

}

} // verus!

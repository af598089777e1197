//! Verified core of a binding layer for a real-time kernel: time units and
//! their conversion, kernel objects (mutex, semaphore, poll signal), the
//! aggregate poll wait, a timer registry and a cooperative executor.
pub mod context;
pub mod errno;
pub mod executor;
pub mod gpio;
pub mod kernel;
pub mod kobj;
pub mod mutex;
pub mod mutex_alloc;
pub mod poll;
pub mod reactor;
pub mod time;
pub mod timer;
pub mod uart;
pub mod uart_buffered;
pub mod time_convert;

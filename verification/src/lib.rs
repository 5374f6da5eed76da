//! The capability core of a small preemptible microkernel: capabilities and
//! their derivation database, the capability-space resolver, the CNode
//! invocations with preemptible deletion, the priority scheduler and the
//! allocator that lays out the first thread's objects at boot.
#![allow(non_snake_case)]
#![allow(non_camel_case_types)]
#![allow(non_upper_case_globals)]
#![allow(unused_imports)]

use vstd::prelude::*;

pub mod config;
pub mod cap_rights;
pub mod cap;
pub mod objecttype;
pub mod structures;
pub mod kernel;
pub mod cspace;
pub mod resolve;
pub mod thread;
pub mod preemption;
pub mod delete;
pub mod invocation;
pub mod uintc;
pub mod boot;
pub mod setup;


//! A rendering engine's GPU resource allocation and transfer subsystem,
//! modelled over an explicit low-level graphics device: descriptors are
//! gathered by an allocator, laid out in one memory block, bound, filled
//! through staged transfers with explicit layout barriers, and owned by a
//! repository until it is released.

pub mod types;
pub mod error;
pub mod policy;
pub mod device;
pub mod memory;
pub mod descriptor;
pub mod buffer;
pub mod allocator;
pub mod transfer;
pub mod image;
pub mod image_allocator;

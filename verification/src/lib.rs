//! Flicker: creating bootable USB drives from ISO images on Linux.
//!
//! The library holds the decisions of the tool: which block devices are USB
//! drives and which of their partitions are mounted, how sizes and device
//! listings are shown, the checks and confirmations that come before a write,
//! the resume and verification logic of the copy itself, and image checksums.
//! Reading and writing files and devices, prompting and drawing are left to
//! the program around it.
pub mod text;
pub mod units;
pub mod usb;
pub mod checks;
pub mod session;
pub mod writer;
pub mod checksum;
pub mod gui;
pub mod cli;

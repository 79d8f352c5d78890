//! PCI devices.

pub mod irq;

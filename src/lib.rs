//! Interrupt dispatch and display-synchronisation core of a handheld console
//! control loop, modelled over in-memory register values.
pub mod irq;
pub mod sync;

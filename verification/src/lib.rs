//! A driver for SD cards behind a DesignWare mobile storage host controller.
//!
//! The library decides; it touches no hardware. Each operation of the driver is a
//! state machine that asks for one piece of outside work at a time and takes in
//! what came of it (see [`bus`]). The modules whose names end in `_laws` hold what
//! is true of every run of an operation, whatever the hardware answers.
pub mod bits;
pub mod block;
pub mod block_course_laws;
pub mod block_laws;
pub mod bus;
pub mod cmd;
pub mod csd;
pub mod dma;
pub mod enable;
pub mod enable_course_laws;
pub mod enable_laws;
pub mod field_laws;
pub mod idmac;
pub mod idmac_course_laws;
pub mod idmac_laws;
pub mod init;
pub mod init_course_laws;
pub mod init_laws;
pub mod interrupt;
pub mod interrupt_laws;
pub mod regs;
pub mod send;
pub mod send_course_laws;
pub mod send_laws;
pub mod sdmmc;
pub mod sdmmc_course_laws;
pub mod sdmmc_laws;
pub mod stray_laws;
pub mod view_laws;

pub use crate::sdmmc::SdMmc;

use vstd::prelude::*;

pub mod bits;
pub mod platform;
pub mod decoder;
pub mod emulator;
pub mod trap;
pub mod cpu_features;
pub mod exception_level;
pub mod mmu;
pub mod pauth;
pub mod arch;
pub mod m1;
pub mod vmapple;
pub mod preos;
pub mod memory_service;
pub mod stage1;
pub mod dynamic;
pub mod bfm_cases;
pub mod multiply_add_cases;
pub mod register_offset_provider_cases;
pub mod ubfm_provider_cases;
pub mod memory_boot;

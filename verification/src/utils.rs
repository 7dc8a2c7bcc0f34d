pub mod consts;
pub mod fraction_utils;
pub mod global_config;
pub mod wide_math;

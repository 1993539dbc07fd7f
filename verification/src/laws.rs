//! What holds of every machine and every chain of functions, proved from
//! the definitions that the contracts use.

pub mod chains;
pub mod machine;

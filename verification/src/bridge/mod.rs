pub mod escl;
pub mod translate;

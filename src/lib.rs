pub mod control;
pub mod method;
pub mod ordinal;
pub mod request;
pub mod sampler;

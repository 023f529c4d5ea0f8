pub mod naming;
pub mod pipeline;
pub mod runs;
pub mod upload;

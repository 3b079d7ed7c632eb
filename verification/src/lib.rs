pub mod graphics;
pub mod math;
pub mod tracer;

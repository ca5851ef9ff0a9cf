pub mod pitch;
pub mod smoothing;

pub mod quiz_steps;

pub use quiz_steps::create_quiz_generation_steps;

//! The evaluation core of a concatenative, closure-supporting language with
//! linear resources: the value model, the resource tracker, the translator
//! from named parameters to stack shuffling, and the stack machine.

pub mod types;
pub mod copying;
pub mod text;
pub mod errors;
pub mod env;
pub mod effects;
pub mod stack_effects;
pub mod values;
pub mod machine;
pub mod render;
pub mod diagnostics;
pub mod typecheck;
pub mod parser;
pub mod syntax;
pub mod evaluator;
pub mod repl;
pub mod runner;
pub mod equivalence;

pub use crate::effects::{EffectType, ResourceManager, ResourceValue};
pub use crate::errors::EvaluatorError;
pub use crate::evaluator::Evaluator;
pub use crate::parser::Parser;
pub use crate::stack_effects::{get_word_effect, StackEffect};
pub use crate::types::{Env, Expr, Param, Pattern, Type, TypeParam, Value};

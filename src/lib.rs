pub mod random;
pub mod syntax;
pub mod regex_gen;
pub mod text;
pub mod config;
pub mod pattern;
pub mod xform;
pub mod generate;
pub mod output;
pub mod cmdargs;

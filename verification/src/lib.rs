mod clock;
pub mod error;
pub mod hamming;
pub mod find_dups;
pub mod filter;
pub mod process;
pub mod bits;
pub mod perceptual_hash;
pub mod static_config;
pub mod text;
pub mod image_loader;
pub mod settings;
pub mod factories;
pub mod di_container;
pub mod unified_di;
pub mod static_factory;
pub mod types;
pub mod engine;
pub mod scan;
pub mod benchmarks;
pub mod cli;
pub mod static_di;
pub mod discovery;

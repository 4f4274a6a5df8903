pub mod batch;
pub mod batch_run;
pub mod config_file;
pub mod console;
pub mod decoder;
pub mod desktop;
pub mod discovery;
pub mod downloads;
pub mod feed_check;
pub mod feed_input;
pub mod feeds;
pub mod keyed;
pub mod library;
pub mod metadata;
pub mod model;
pub mod ordering;
pub mod paths;
pub mod progress;
pub mod retention;
pub mod screen;
pub mod sync;
pub mod text;

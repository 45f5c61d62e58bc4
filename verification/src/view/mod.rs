pub mod line_cache;

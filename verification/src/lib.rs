pub mod atlas;
pub mod command_buffer;
pub mod glyph_cache;

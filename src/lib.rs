//! Reads PC Screen Font files of both generations and renders their glyph
//! bitmaps as a Verilog character-generator lookup table.
//!
//! `font` decodes the header and the bitmap, `table` the optional Unicode
//! mapping table, and `verilog` writes the lookup table; `numerals` holds the
//! ASCII numerals it is written in.
pub mod font;
pub mod numerals;
pub mod table;
pub mod verilog;

//! Rendering of a glyph bitmap as a Verilog lookup table.
use vstd::prelude::*;
use vstd::string::StringSliceAdditionalSpecFns;

use crate::numerals::{
    address_width, binary_literal, ceil_log2, decimal, hex_bytes, hex_digit_of, push_binary,
    push_decimal, push_text, signed_decimal,
};

verus! {

/// The raster of glyph `i`: its `size` bytes in the bitmap.
pub open spec fn glyph(bitmap: Seq<u8>, size: nat, i: nat) -> Seq<u8> {
    bitmap.subrange((i * size) as int, (i * size + size) as int)
}

/// The module declaration, with an `aw`-bit address input and a `dw`-bit
/// registered output.
pub open spec fn module_line(aw: nat, dw: nat) -> Seq<u8> {
    "module charactermap ( input wire clk, input wire [".spec_bytes() + signed_decimal(aw - 1)
        + ":0] character, output reg [".spec_bytes() + signed_decimal(dw - 1)
        + ":0] characterraster );\n".spec_bytes()
}

/// The case arm of address `i`, whose value is `raster` in hexadecimal.
pub open spec fn case_line(i: nat, aw: nat, dw: nat, raster: Seq<u8>) -> Seq<u8> {
    "    ".spec_bytes() + decimal(aw) + "'b".spec_bytes() + binary_literal(i, aw)
        + " : characterraster = ".spec_bytes() + decimal(dw) + "'h".spec_bytes() + hex_bytes(
        raster,
    ) + ";\n".spec_bytes()
}

/// The case arms of the first `k` glyphs, in ascending order.
pub open spec fn case_lines(bitmap: Seq<u8>, size: nat, aw: nat, dw: nat, k: nat) -> Seq<u8>
    decreases k,
{
    if k == 0 {
        seq![]
    } else {
        case_lines(bitmap, size, aw, dw, (k - 1) as nat) + case_line(
            (k - 1) as nat,
            aw,
            dw,
            glyph(bitmap, size, (k - 1) as nat),
        )
    }
}

/// The whole lookup table for glyphs of `size` bytes: one arm per complete
/// glyph of the bitmap, then a default arm of zero.
pub open spec fn verilog_text(size: nat, bitmap: Seq<u8>) -> Seq<u8>
    recommends
        size > 0,
{
    let n = bitmap.len() / size;
    let aw = ceil_log2(n);
    let dw = size * 8;
    module_line(aw, dw) + "always @(posedge clk) begin case (character)\n".spec_bytes()
        + case_lines(bitmap, size, aw, dw, n) + "    default : characterraster = 0;\n".spec_bytes()
        + "endcase end\n".spec_bytes() + "endmodule\n".spec_bytes()
}

proof fn lemma_glyph_in_bounds(i: nat, n: nat, size: nat, len: nat)
    requires
        size > 0,
        n == len / size,
        i < n,
    ensures
        i * size + size <= len,
{
    assert(i * size + size <= n * size) by (nonlinear_arith)
        requires
            i < n,
    ;
    assert(n * size <= len) by (nonlinear_arith)
        requires
            size > 0,
            n == len / size,
    ;
}

fn push_hex(out: &mut Vec<u8>, bitmap: &[u8], start: usize, len: usize)
    requires
        start + len <= bitmap@.len(),
    ensures
        final(out)@ == old(out)@ + hex_bytes(bitmap@.subrange(start as int, start + len)),
{
    let ghost raster = bitmap@.subrange(start as int, start + len);
    assert(bitmap@.len() == bitmap.len());
    let mut j: usize = 0;
    while j < len
        invariant
            start + len <= bitmap@.len(),
            raster == bitmap@.subrange(start as int, start + len),
            j <= len,
            bitmap@.len() <= usize::MAX,
            out@ == old(out)@ + hex_bytes(raster.take(j as int)),
        decreases len - j,
    {
        let b = bitmap[start + j];
        out.push(hex_digit_of(b / 16));
        out.push(hex_digit_of(b % 16));
        j = j + 1;
        assert(raster.take(j as int).drop_last() =~= raster.take(j - 1));
        assert(out@ =~= old(out)@ + hex_bytes(raster.take(j as int)));
    }
    assert(raster.take(j as int) =~= raster);
}

/// Writes the lookup table of a bitmap whose glyphs are `glyph_byte_size`
/// bytes each: glyph `i` sits at address `i`, and its raster is written
/// most significant byte first.
pub fn render_verilog(glyph_byte_size: u32, bitmap: &[u8]) -> (text: Vec<u8>)
    requires
        glyph_byte_size > 0,
    ensures
        text@ == verilog_text(glyph_byte_size as nat, bitmap@),
{
    let size = glyph_byte_size as usize;
    assert(bitmap@.len() == bitmap.len());
    let n = bitmap.len() / size;
    let aw = address_width(n);
    let dw = glyph_byte_size as u64 * 8;
    let mut out: Vec<u8> = Vec::new();
    push_text(&mut out, "module charactermap ( input wire clk, input wire [");
    if aw == 0 {
        out.push(45u8);
        push_decimal(&mut out, 1);
    } else {
        push_decimal(&mut out, (aw - 1) as u64);
    }
    push_text(&mut out, ":0] character, output reg [");
    push_decimal(&mut out, dw - 1);
    push_text(&mut out, ":0] characterraster );\n");
    assert(out@ =~= module_line(aw as nat, dw as nat));
    push_text(&mut out, "always @(posedge clk) begin case (character)\n");
    let ghost head = out@;
    let mut i: usize = 0;
    while i < n
        invariant
            size == glyph_byte_size,
            size > 0,
            n == bitmap@.len() / (size as nat),
            aw == ceil_log2(n as nat),
            dw == size * 8,
            i <= n,
            bitmap@.len() <= usize::MAX,
            out@ == head + case_lines(bitmap@, size as nat, aw as nat, dw as nat, i as nat),
        decreases n - i,
    {
        proof {
            lemma_glyph_in_bounds(i as nat, n as nat, size as nat, bitmap@.len());
        }
        let ghost before = out@;
        push_text(&mut out, "    ");
        push_decimal(&mut out, aw as u64);
        push_text(&mut out, "'b");
        let width = if aw == 0 { 1 } else { aw };
        push_binary(&mut out, i as u64, width);
        push_text(&mut out, " : characterraster = ");
        push_decimal(&mut out, dw);
        push_text(&mut out, "'h");
        push_hex(&mut out, bitmap, i * size, size);
        push_text(&mut out, ";\n");
        assert(out@ =~= before + case_line(
            i as nat,
            aw as nat,
            dw as nat,
            glyph(bitmap@, size as nat, i as nat),
        ));
        i = i + 1;
    }
    push_text(&mut out, "    default : characterraster = 0;\n");
    push_text(&mut out, "endcase end\n");
    push_text(&mut out, "endmodule\n");
    assert(out@ =~= verilog_text(glyph_byte_size as nat, bitmap@));
    out
}

} // verus!

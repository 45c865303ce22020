use psf2verilog::numerals::address_width;
use psf2verilog::verilog::render_verilog;

#[test]
fn address_width_boundaries() {
    assert_eq!(address_width(256), 8);
    assert_eq!(address_width(1), 0);
    assert_eq!(address_width(257), 9);
    assert_eq!(address_width(0), 0);
    assert_eq!(address_width(2), 1);
    assert_eq!(address_width(3), 2);
    assert_eq!(address_width(512), 9);
}

#[test]
fn renders_two_glyphs() {
    let text = String::from_utf8(render_verilog(1, &[0x0A, 0xFF])).unwrap();
    let expected = "module charactermap ( input wire clk, input wire [0:0] character, output reg [7:0] characterraster );\n\
always @(posedge clk) begin case (character)\n\
\x20   1'b0 : characterraster = 8'h0A;\n\
\x20   1'b1 : characterraster = 8'hFF;\n\
\x20   default : characterraster = 0;\n\
endcase end\n\
endmodule\n";
    assert_eq!(text, expected);
}

#[test]
fn renders_single_glyph_with_zero_address_bits() {
    let text = String::from_utf8(render_verilog(2, &[0x01, 0xAB])).unwrap();
    assert!(text.starts_with(
        "module charactermap ( input wire clk, input wire [-1:0] character, output reg [15:0] characterraster );\n"
    ));
    assert!(text.contains("    0'b0 : characterraster = 16'h01AB;\n"));
}

#[test]
fn renders_padded_binary_addresses() {
    let text = String::from_utf8(render_verilog(1, &[0, 1, 2])).unwrap();
    assert!(text.contains("    2'b00 : characterraster = 8'h00;\n"));
    assert!(text.contains("    2'b01 : characterraster = 8'h01;\n"));
    assert!(text.contains("    2'b10 : characterraster = 8'h02;\n"));
    assert!(!text.contains("2'b11"));
}

#[test]
fn rendering_is_deterministic() {
    let bitmap: Vec<u8> = (0..=255u8).collect();
    let a = render_verilog(4, &bitmap);
    let b = render_verilog(4, &bitmap);
    assert_eq!(a, b);
    let text = String::from_utf8(a).unwrap();
    assert!(text.contains("    6'b000000 : characterraster = 32'h00010203;\n"));
    assert!(text.contains("    6'b111111 : characterraster = 32'hFCFDFEFF;\n"));
    assert_eq!(text.lines().count(), 2 + 64 + 3);
}

#[test]
fn partial_last_glyph_is_not_rendered() {
    let text = String::from_utf8(render_verilog(2, &[1, 2, 3])).unwrap();
    assert!(text.contains("    0'b0 : characterraster = 16'h0102;\n"));
    assert!(!text.contains("'h03"));
}

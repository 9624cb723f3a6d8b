use aetherion_kernel::vga::{VgaBuffer, BLANK_CELL, VGA_CELLS};

#[test]
fn vga_writes_wraps_and_scrolls() {
    let mut v = VgaBuffer::new();
    assert_eq!(v.cells.len(), VGA_CELLS);
    assert!(v.cells.iter().all(|c| *c == BLANK_CELL));
    v.write_str("Hi\nA");
    assert_eq!(v.cells[0], (b'H', 0x0F));
    assert_eq!(v.cells[1], (b'i', 0x0F));
    assert_eq!(v.cells[80], (b'A', 0x0F));
    assert_eq!((v.row, v.col), (1, 1));
    v.write_byte(b'\r');
    assert_eq!((v.row, v.col), (1, 0));
    // a full row wraps to the next
    for _ in 0..80 {
        v.write_byte(b'x');
    }
    assert_eq!((v.row, v.col), (2, 0));
    assert_eq!(v.cells[80], (b'x', 0x0F));
    // below the last row, the screen scrolls before the next character
    v.row = 25;
    v.col = 7;
    v.write_byte(b'Z');
    assert_eq!((v.row, v.col), (24, 1));
    assert_eq!(v.cells[0], (b'x', 0x0F));
    assert_eq!(v.cells[24 * 80], (b'Z', 0x0F));
    assert_eq!(v.cells[24 * 80 + 1], BLANK_CELL);
    v.scroll();
    assert_eq!(v.cells[23 * 80], (b'Z', 0x0F));
    v.clear();
    assert!(v.cells.iter().all(|c| *c == BLANK_CELL));
    assert_eq!((v.row, v.col), (0, 0));
}

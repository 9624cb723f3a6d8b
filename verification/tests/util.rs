use aetherion_kernel::util::ArrayWriter;

#[test]
fn array_writer_keeps_what_fits() {
    let mut w = ArrayWriter::<8>::new();
    assert_eq!(w.as_str(), "");
    w.write_str("hello");
    assert_eq!(w.as_str(), "hello");
    w.write_str(" world");
    assert_eq!(w.as_str(), "hello wo");
    w.write_str("!");
    assert_eq!(w.as_str(), "hello wo");
}

#[test]
fn array_writer_cut_character_reads_empty() {
    let mut w = ArrayWriter::<4>::new();
    w.write_str("a\u{e9}\u{20ac}");
    assert_eq!(w.as_str(), "");
    let mut v = ArrayWriter::<3>::new();
    v.write_str("a\u{e9}");
    assert_eq!(v.as_str(), "a\u{e9}");
}

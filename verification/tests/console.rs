use hermit_kernel::console::Console;

#[test]
fn test_console() {
    println!("HelloWorld");
    let mut console = Console::new();
    let out = console.write(b"HelloWorld\n");
    assert_eq!(out.len(), 1);
    assert_eq!(out[0], b"HelloWorld\n".to_vec());
    assert!(console.flush().is_empty());
}

use ttyd::html::index_html_plain;

#[test]
fn a_stored_page_is_unpacked() {
    let stored = [
        0x1f, 0x8b, 0x08, 0x00, 0x00, 0x00, 0x00, 0x00, 0x02, 0xff, 0xcb, 0x48, 0xcd, 0xc9,
        0xc9, 0x07, 0x00, 0x86, 0xa6, 0x10, 0x36, 0x05, 0x00, 0x00, 0x00,
    ];
    assert_eq!(index_html_plain(&stored).unwrap(), b"hello");
    assert!(index_html_plain(&stored[..10]).is_none());
    assert!(index_html_plain(b"<html>").is_none());
}

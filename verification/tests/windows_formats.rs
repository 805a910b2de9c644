use rustdesk_clipboard::windows_formats::{
    contains_opaque_native_formats, is_opaque_native_format, is_safe_predefined, predefined_name,
    NativeFormat, CF_DIBV5, CF_ENHMETAFILE, CF_HDROP, CF_TEXT, CF_TIFF, CF_UNICODETEXT,
};

#[test]
fn predefined_names() {
    assert_eq!(predefined_name(CF_TEXT), Some("CF_TEXT"));
    assert_eq!(predefined_name(CF_DIBV5), Some("CF_DIBV5"));
    assert_eq!(predefined_name(4), None);
    assert_eq!(predefined_name(0xC000), None);
}

#[test]
fn opaque_windows_formats() {
    assert!(is_opaque_native_format(CF_HDROP, None));
    assert!(is_opaque_native_format(CF_TIFF, None));
    assert!(is_opaque_native_format(CF_ENHMETAFILE, None));
    assert!(!is_opaque_native_format(CF_UNICODETEXT, None));
    assert!(is_safe_predefined(CF_UNICODETEXT));
    assert!(!is_safe_predefined(CF_HDROP));
    assert!(!is_opaque_native_format(0xC001, Some("HTML Format")));
    assert!(is_opaque_native_format(0xC002, Some("Adobe AI Private Data")));
    assert!(is_opaque_native_format(0xC003, Some("Some App Format")));
    assert!(is_opaque_native_format(0xC004, None));
    // An unknown predefined-range number without a name counts as opaque.
    assert!(is_opaque_native_format(4, None));
}

#[test]
fn any_opaque_format() {
    let plain = vec![
        NativeFormat { id: CF_UNICODETEXT, registered_name: None },
        NativeFormat { id: 0xC001, registered_name: Some("HTML Format".into()) },
    ];
    assert!(!contains_opaque_native_formats(&plain));
    let mut mixed = plain;
    mixed.push(NativeFormat { id: 0xC009, registered_name: Some("PDF".into()) });
    assert!(contains_opaque_native_formats(&mixed));
    assert!(!contains_opaque_native_formats(&vec![]));
}

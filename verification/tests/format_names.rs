use rustdesk_clipboard::format_names::{
    contains_external_opaque_native_format_names, contains_ignore_ascii_case,
    is_clipboard_debug_value, is_opaque_native_format_name, is_risky_native_format_name,
    is_safe_registered_format_name, names_have_owner_marker, should_preserve_native_format_name,
    RUSTDESK_CLIPBOARD_OWNER_FORMAT,
};

#[test]
fn adobe_vector_formats_are_opaque() {
    for name in [
        "Adobe Illustrator Document",
        "AICB",
        "AI Private Data",
        "Portable Document Format",
        "application/pdf",
        "application/vnd.adobe.illustrator",
        "public.pdf",
        "public.postscript",
        "Encapsulated PostScript",
        "EPS",
    ] {
        assert!(is_opaque_native_format_name(name), "{name}");
    }
}

#[test]
fn common_text_and_web_formats_are_not_opaque() {
    for name in [
        "HTML Format",
        "Rich Text Format",
        "text/plain",
        "text/plain;charset=utf-8",
        "Chromium Web Custom MIME Data Format",
        "WebKit Smart Paste Format",
        "public.utf8-plain-text",
        "public.html",
        "TARGETS",
        RUSTDESK_CLIPBOARD_OWNER_FORMAT,
    ] {
        assert!(is_safe_registered_format_name(name), "{name}");
        assert!(!is_opaque_native_format_name(name), "{name}");
        assert!(!should_preserve_native_format_name(name), "{name}");
    }
}

#[test]
fn risky_desktop_native_formats_are_preserved() {
    for name in [
        "application/vnd.oasis.opendocument.text",
        "public.rtf",
        "public.pdf",
        "com.adobe.illustrator.aicb",
        "org.inkscape.output",
    ] {
        if name == "public.rtf" {
            assert!(!should_preserve_native_format_name(name), "{name}");
        } else {
            assert!(should_preserve_native_format_name(name), "{name}");
        }
    }
}

#[test]
fn contains_ignores_ascii_case_only() {
    assert!(contains_ignore_ascii_case("My PDF file", "pdf"));
    assert!(contains_ignore_ascii_case("pdf", "PDF"));
    assert!(!contains_ignore_ascii_case("pd", "pdf"));
    assert!(!contains_ignore_ascii_case("", "pdf"));
    assert!(contains_ignore_ascii_case("Ünïcode EPS", "eps"));
    // Only ASCII letters are folded.
    assert!(!contains_ignore_ascii_case("Ä", "ä"));
}

#[test]
fn safe_names_compare_without_ascii_case() {
    assert!(is_safe_registered_format_name("targets"));
    assert!(is_safe_registered_format_name("DYN.COM.RUSTDESK.OWNER"));
    assert!(is_safe_registered_format_name("xml spreadsheet"));
    assert!(!is_safe_registered_format_name("TARGETS "));
    assert!(!is_safe_registered_format_name(""));
}

#[test]
fn risky_names_are_trimmed_and_exclude_safe_names() {
    assert!(is_risky_native_format_name("  application/x-krita  "));
    assert!(is_risky_native_format_name("\tGIMP internal\n"));
    assert!(is_risky_native_format_name("LibreOffice 7"));
    assert!(!is_risky_native_format_name("public.html"));
    assert!(!is_risky_native_format_name("text/plain"));
    assert!(!is_risky_native_format_name(""));
}

#[test]
fn external_names_guard() {
    let plain = vec!["TARGETS".to_string(), "text/plain".to_string()];
    assert!(!contains_external_opaque_native_format_names(&plain));
    let mixed = vec!["text/plain".to_string(), "org.inkscape.output".to_string()];
    assert!(contains_external_opaque_native_format_names(&mixed));
    assert!(!contains_external_opaque_native_format_names(&vec![]));
    assert!(names_have_owner_marker(&vec!["x".to_string(), "Dyn.Com.RustDesk.Owner".to_string()]));
    assert!(!names_have_owner_marker(&plain));
}

#[test]
fn debug_switch_values() {
    for v in ["1", "true", "TRUE", "Yes", "on", "On"] {
        assert!(is_clipboard_debug_value(v), "{v}");
    }
    for v in ["", "0", "false", "no", "off", "yes ", "enable"] {
        assert!(!is_clipboard_debug_value(v), "{v}");
    }
}

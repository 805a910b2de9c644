use rustdesk_clipboard::data::{
    first_file_urls, get_formats_filter, guard_read_content, remove_missing_formats,
    supported_formats, with_owner_marker, ClipboardData, ClipboardFormat, ImageData,
};
use rustdesk_clipboard::format_names::RUSTDESK_CLIPBOARD_OWNER_FORMAT;
use rustdesk_clipboard::side::ClipboardSide;

fn text(s: &str) -> ClipboardData {
    ClipboardData::Text(s.to_string())
}

fn marker(side: ClipboardSide) -> ClipboardData {
    ClipboardData::Special(RUSTDESK_CLIPBOARD_OWNER_FORMAT.to_string(), side.get_owner_data())
}

fn describe(data: &[ClipboardData]) -> Vec<String> {
    data.iter().map(|d| format!("{d:?}")).collect()
}

#[test]
fn supported_format_lists() {
    let names = |v: Vec<ClipboardFormat>| v.iter().map(|f| format!("{f:?}")).collect::<Vec<_>>();
    assert_eq!(
        names(supported_formats(false)),
        vec![
            "Text",
            "Html",
            "Rtf",
            "ImageRgba",
            "ImagePng",
            "ImageSvg",
            "Special(\"XML Spreadsheet\")",
            "Special(\"dyn.com.rustdesk.owner\")",
        ]
    );
    let with_files = names(supported_formats(true));
    assert_eq!(with_files.len(), 9);
    assert_eq!(with_files[6], "FileUrl");
}

#[test]
fn missing_formats_are_dropped() {
    let kept = remove_missing_formats(vec![
        ClipboardData::Empty,
        text("a"),
        ClipboardData::Empty,
        ClipboardData::Unsupported,
    ]);
    assert_eq!(describe(&kept), describe(&[text("a"), ClipboardData::Unsupported]));
}

#[test]
fn content_written_by_this_program_is_not_sent_back() {
    for writer in [ClipboardSide::Host, ClipboardSide::Client] {
        for reader in [ClipboardSide::Host, ClipboardSide::Client] {
            let written = with_owner_marker(vec![text("hello")], writer);
            assert!(get_formats_filter(written, reader, false).is_empty());
        }
    }
}

#[test]
fn forced_read_drops_marker_and_empty_text() {
    let written = with_owner_marker(
        vec![text(""), text("x"), ClipboardData::Html("<b>".into())],
        ClipboardSide::Host,
    );
    let out = get_formats_filter(written, ClipboardSide::Client, true);
    assert_eq!(describe(&out), describe(&[text("x"), ClipboardData::Html("<b>".into())]));
}

#[test]
fn foreign_marker_value_is_not_an_owner() {
    let data = vec![
        text("x"),
        ClipboardData::Special(RUSTDESK_CLIPBOARD_OWNER_FORMAT.to_string(), vec![0]),
        ClipboardData::Special("XML Spreadsheet".to_string(), vec![7]),
    ];
    let out = get_formats_filter(data, ClipboardSide::Host, false);
    assert_eq!(
        describe(&out),
        describe(&[text("x"), ClipboardData::Special("XML Spreadsheet".to_string(), vec![7])])
    );
    assert!(get_formats_filter(vec![], ClipboardSide::Host, false).is_empty());
}

#[test]
fn read_guards() {
    let data = || vec![text("x"), ClipboardData::FileUrl(vec!["file:///a".into()])];
    assert!(guard_read_content(data(), true, false).is_empty());
    assert!(guard_read_content(data(), false, true).is_empty());
    assert_eq!(guard_read_content(data(), false, false).len(), 2);
    assert_eq!(guard_read_content(vec![text("x")], false, true).len(), 1);
    assert!(guard_read_content(vec![], true, true).is_empty());
}

#[test]
fn first_file_urls_found() {
    let data = vec![
        text("x"),
        ClipboardData::FileUrl(vec!["file:///a".into()]),
        ClipboardData::FileUrl(vec!["file:///b".into()]),
    ];
    assert_eq!(first_file_urls(data), Some(vec!["file:///a".to_string()]));
    assert_eq!(first_file_urls(vec![ClipboardData::Image(ImageData::Png(vec![1]))]), None);
}

#[test]
fn owner_marker_is_appended() {
    let out = with_owner_marker(vec![text("x")], ClipboardSide::Client);
    assert_eq!(describe(&out), describe(&[text("x"), marker(ClipboardSide::Client)]));
}

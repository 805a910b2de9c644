use rustdesk_clipboard::data::ClipboardData;
use rustdesk_clipboard::files::{
    file_clipboard_clear_payload, file_urls_set_by_rustdesk_linux, file_urls_set_by_rustdesk_macos,
    is_file_url_set_by_rustdesk,
};
use rustdesk_clipboard::format_names::RUSTDESK_CLIPBOARD_OWNER_FORMAT;
use rustdesk_clipboard::side::ClipboardSide;

const UUID: &str = "67e55044-10b1-426f-9247-bb680e5fe0c8";

fn one(s: String) -> Vec<String> {
    vec![s]
}

#[test]
fn file_urls_written_by_this_program() {
    assert!(is_file_url_set_by_rustdesk(&one(format!("file:///tmp/.rustdesk_{UUID}"))));
    assert!(is_file_url_set_by_rustdesk(&one(format!("//tmp/.rustdesk_{UUID}"))));
    assert!(is_file_url_set_by_rustdesk(&one("file:///tmp/.rustdesk_67e5504410b1426f9247bb680e5fe0c8".into())));
    assert!(is_file_url_set_by_rustdesk(&one(format!("file:///tmp/.rustdesk_{{{UUID}}}"))));
    assert!(is_file_url_set_by_rustdesk(&one(format!("file:///tmp/.rustdesk_URN:uuid:{UUID}"))));
}

#[test]
fn other_file_urls() {
    assert!(!is_file_url_set_by_rustdesk(&vec![]));
    assert!(!is_file_url_set_by_rustdesk(&vec![
        format!("file:///tmp/.rustdesk_{UUID}"),
        format!("file:///tmp/.rustdesk_{UUID}"),
    ]));
    assert!(!is_file_url_set_by_rustdesk(&one("file:///tmp/.rustdesk_not-a-uuid".into())));
    assert!(!is_file_url_set_by_rustdesk(&one(format!("file:///tmp/.rustdesk_{UUID}/x"))));
    assert!(!is_file_url_set_by_rustdesk(&one(format!("file:///home/.rustdesk_{UUID}"))));
    assert!(!is_file_url_set_by_rustdesk(&one("file:///tmp/.rustdesk_".into())));
    assert!(!is_file_url_set_by_rustdesk(&one("file:///tmp/.rustdesk_ü".into())));
}

#[test]
fn macos_file_urls() {
    let mine = one(format!("file:///tmp/.rustdesk_{UUID}"));
    let data = vec![
        ClipboardData::Text("x".into()),
        ClipboardData::FileUrl(one("file:///Users/a/doc.txt".into())),
        ClipboardData::FileUrl(mine.clone()),
    ];
    assert_eq!(file_urls_set_by_rustdesk_macos(data), mine);
    assert!(file_urls_set_by_rustdesk_macos(vec![ClipboardData::FileUrl(one("file:///a".into()))]).is_empty());
}

#[test]
fn linux_file_urls() {
    let data = vec![
        ClipboardData::FileUrl(vec!["/run/fuse/a".into(), "/home/u/b".into()]),
        ClipboardData::Text("x".into()),
        ClipboardData::FileUrl(vec!["/run/fuse/c".into()]),
    ];
    assert_eq!(
        file_urls_set_by_rustdesk_linux(data, "/run/fuse/"),
        vec!["/run/fuse/a".to_string(), "/run/fuse/c".to_string()]
    );
}

#[test]
fn clear_payload() {
    assert!(file_clipboard_clear_payload(&vec![], ClipboardSide::Host, true).is_none());
    let urls = vec!["x".to_string()];
    let p = file_clipboard_clear_payload(&urls, ClipboardSide::Client, true).unwrap();
    assert_eq!(
        format!("{p:?}"),
        format!(
            "{:?}",
            vec![
                ClipboardData::Text("RustDesk placeholder to clear the file clipboard".into()),
                ClipboardData::Special(RUSTDESK_CLIPBOARD_OWNER_FORMAT.into(), vec![2]),
            ]
        )
    );
    let p = file_clipboard_clear_payload(&urls, ClipboardSide::Host, false).unwrap();
    assert!(matches!(&p[0], ClipboardData::Text(t) if t.is_empty()));
}

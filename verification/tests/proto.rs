use rustdesk_clipboard::data::{ClipboardData, ImageData, ImageRgba};
use rustdesk_clipboard::proto::{
    clipboard_data_to_proto, compressed_clipboards_msg, compression_input, create_multi_clipboards,
    current_clipboard_msg, from_clipboard, from_multi_clipboards, get_msg_if_not_support_multi_clip,
    image_to_proto, is_support_multi_clipboard, plain_to_proto, received_clipboard_batch,
    received_clipboards_batch, special_to_proto, Clipboard, ClipboardFormat, ClipboardMessage,
    MultiClipboardGate, MultiClipboards,
};

fn gate() -> MultiClipboardGate {
    MultiClipboardGate {
        min_version_number: 1_003_000,
        min_android_version_number: 1_003_030,
        ios_platform_name: "iOS".to_string(),
    }
}

fn item(format: ClipboardFormat, content: &[u8]) -> Clipboard {
    Clipboard {
        compress: false,
        content: content.to_vec(),
        width: 0,
        height: 0,
        format,
        special_name: String::new(),
    }
}

#[test]
fn special_clipboard_keeps_uncompressed_payload() {
    let payload = vec![0x01];
    // Compressing a single byte never gives a shorter result.
    let compressed = vec![0x28, 0xb5, 0x2f, 0xfd, 0x20, 0x01, 0x09, 0x00, 0x00, 0x01];
    let clipboard = special_to_proto(payload.clone(), "dyn.test.owner".to_owned(), compressed);

    assert!(!clipboard.compress);
    assert_eq!(clipboard.content.as_slice(), payload.as_slice());
    assert_eq!(clipboard.special_name, "dyn.test.owner");
}

#[test]
fn shorter_compressed_form_is_sent() {
    let c = plain_to_proto("aaaaaaaaaa".to_string(), ClipboardFormat::Html, vec![9, 9]);
    assert!(c.compress);
    assert_eq!(c.content, vec![9, 9]);
    assert_eq!(c.format, ClipboardFormat::Html);
    let c = plain_to_proto("ab".to_string(), ClipboardFormat::Text, vec![9, 9]);
    assert!(!c.compress);
    assert_eq!(c.content, b"ab".to_vec());
}

#[test]
fn images_on_the_wire() {
    let rgba = ImageData::Rgba(ImageRgba { width: 2, height: 1, bytes: vec![1; 8] });
    let c = image_to_proto(rgba, vec![5]);
    assert!(c.compress);
    assert_eq!((c.width, c.height, c.format), (2, 1, ClipboardFormat::ImageRgba));
    assert_eq!(c.content, vec![5]);
    let c = image_to_proto(ImageData::Png(vec![1, 2, 3]), vec![]);
    assert!(!c.compress);
    assert_eq!(c.content, vec![1, 2, 3]);
    let c = image_to_proto(ImageData::Svg("<svg/>".into()), vec![0; 10]);
    assert!(!c.compress);
    assert_eq!(c.content, b"<svg/>".to_vec());
    assert_eq!(c.format, ClipboardFormat::ImageSvg);
}

#[test]
fn compression_inputs() {
    assert_eq!(compression_input(&ClipboardData::Text("hé".into())), Some("hé".as_bytes().to_vec()));
    assert_eq!(compression_input(&ClipboardData::Image(ImageData::Png(vec![1]))), None);
    assert_eq!(compression_input(&ClipboardData::Special("n".into(), vec![4])), Some(vec![4]));
    assert_eq!(compression_input(&ClipboardData::FileUrl(vec![])), None);
}

#[test]
fn items_without_wire_form() {
    assert!(clipboard_data_to_proto(ClipboardData::FileUrl(vec!["x".into()]), vec![]).is_none());
    assert!(clipboard_data_to_proto(ClipboardData::Unsupported, vec![]).is_none());
    assert!(clipboard_data_to_proto(ClipboardData::Empty, vec![]).is_none());
}

#[test]
fn multi_clipboards_round_trip() {
    let data = vec![
        ClipboardData::Text("hello".into()),
        ClipboardData::FileUrl(vec!["file:///x".into()]),
        ClipboardData::Rtf("{\\rtf}".into()),
        ClipboardData::Image(ImageData::Rgba(ImageRgba { width: 1, height: 1, bytes: vec![1, 2, 3, 4] })),
        ClipboardData::Special("XML Spreadsheet".into(), vec![1, 2, 3]),
    ];
    // Pretend codec: "compressing" some inputs to a shorter form.
    let raw: Vec<Option<Vec<u8>>> = data.iter().map(compression_input).collect();
    let compressed: Vec<Vec<u8>> = raw.iter().map(|r| match r {
        Some(b) if b.len() > 4 => vec![0xcc],
        _ => vec![0; 100],
    }).collect();
    let m = create_multi_clipboards(data, compressed);
    assert_eq!(m.clipboards.len(), 4);
    assert!(m.clipboards[0].compress);
    assert!(!m.clipboards[2].compress);
    // Decompression gives back the raw inputs of the kept items.
    let kept_raw: Vec<Vec<u8>> = vec![
        b"hello".to_vec(),
        b"{\\rtf}".to_vec(),
        vec![1, 2, 3, 4],
        vec![1, 2, 3],
    ];
    let back = from_multi_clipboards(m.clipboards, kept_raw);
    let described: Vec<String> = back.iter().map(|d| format!("{d:?}")).collect();
    assert_eq!(
        described,
        vec![
            format!("{:?}", ClipboardData::Text("hello".into())),
            format!("{:?}", ClipboardData::Rtf("{\\rtf}".into())),
            format!("{:?}", ClipboardData::Image(ImageData::Rgba(ImageRgba { width: 1, height: 1, bytes: vec![1, 2, 3, 4] }))),
            format!("{:?}", ClipboardData::Special("XML Spreadsheet".into(), vec![1, 2, 3])),
        ]
    );
}

#[test]
fn received_items() {
    let mut c = item(ClipboardFormat::Text, b"abc");
    assert!(matches!(from_clipboard(c, vec![]), Some(ClipboardData::Text(t)) if t == "abc"));
    c = item(ClipboardFormat::Text, &[0xff, 0xfe]);
    assert!(from_clipboard(c, vec![]).is_none());
    c = item(ClipboardFormat::Html, b"ignored");
    c.compress = true;
    assert!(matches!(from_clipboard(c, b"<p>".to_vec()), Some(ClipboardData::Html(t)) if t == "<p>"));
    c = item(ClipboardFormat::ImageSvg, &[0xff]);
    assert!(matches!(from_clipboard(c, vec![]), Some(ClipboardData::Image(ImageData::Svg(s))) if s.is_empty()));
    c = item(ClipboardFormat::Unknown(99), b"x");
    assert!(from_clipboard(c, vec![]).is_none());
    c = item(ClipboardFormat::ImageRgba, &[1, 2, 3, 4]);
    c.width = -1;
    c.height = 1;
    assert!(matches!(
        from_clipboard(c, vec![]),
        Some(ClipboardData::Image(ImageData::Rgba(r))) if r.width == usize::MAX && r.height == 1
    ));
}

#[test]
fn multi_clipboard_support() {
    let g = gate();
    assert!(is_support_multi_clipboard(1_003_000, "Windows", &g));
    assert!(!is_support_multi_clipboard(1_002_990, "Windows", &g));
    assert!(!is_support_multi_clipboard(1_004_000, "", &g));
    assert!(!is_support_multi_clipboard(1_004_000, "iOS", &g));
    assert!(!is_support_multi_clipboard(1_003_010, "Android", &g));
    assert!(is_support_multi_clipboard(1_003_030, "Android", &g));
}

#[test]
fn single_text_message_for_old_peers() {
    let g = gate();
    let m = MultiClipboards {
        clipboards: vec![
            item(ClipboardFormat::Html, b"<p>"),
            item(ClipboardFormat::Text, b"first"),
            item(ClipboardFormat::Text, b"second"),
        ],
    };
    assert!(get_msg_if_not_support_multi_clip(1_004_000, "Linux", &g, &m).is_none());
    match get_msg_if_not_support_multi_clip(1_000_000, "Linux", &g, &m) {
        Some(ClipboardMessage::Clipboard(c)) => assert_eq!(c.content, b"first".to_vec()),
        other => panic!("unexpected {other:?}"),
    }
    let no_text = MultiClipboards { clipboards: vec![item(ClipboardFormat::Html, b"<p>")] };
    assert!(get_msg_if_not_support_multi_clip(1_000_000, "Linux", &g, &no_text).is_none());
}

#[test]
fn current_clipboard_message() {
    let g = gate();
    let m = MultiClipboards { clipboards: vec![item(ClipboardFormat::Text, b"t")] };
    match current_clipboard_msg(&m, 1_004_000, "Mac OS", &g) {
        Some(ClipboardMessage::MultiClipboards(mm)) => assert_eq!(mm.clipboards.len(), 1),
        other => panic!("unexpected {other:?}"),
    }
    assert!(matches!(current_clipboard_msg(&m, 1, "Mac OS", &g), Some(ClipboardMessage::Clipboard(_))));
    let empty = MultiClipboards { clipboards: vec![] };
    assert!(current_clipboard_msg(&empty, 1_004_000, "Mac OS", &g).is_none());
}

#[test]
fn platform_batches() {
    let mut c = item(ClipboardFormat::Text, b"zz");
    c.compress = true;
    let b = received_clipboard_batch(c, b"plain".to_vec());
    assert_eq!(b.clipboards[0].content, b"plain".to_vec());
    assert!(b.clipboards[0].compress);
    let m = MultiClipboards { clipboards: vec![item(ClipboardFormat::Text, b"x"), item(ClipboardFormat::Html, b"y")] };
    let b = received_clipboards_batch(m, vec![vec![], vec![]]);
    assert_eq!(b.clipboards[1].content, b"y".to_vec());
    let m = MultiClipboards { clipboards: vec![item(ClipboardFormat::Text, b"xxxxxxxx"), item(ClipboardFormat::Html, b"y")] };
    match compressed_clipboards_msg(m, vec![vec![1, 2], vec![1, 2]]) {
        ClipboardMessage::MultiClipboards(mm) => {
            assert!(mm.clipboards[0].compress);
            assert_eq!(mm.clipboards[0].content, vec![1, 2]);
            assert!(!mm.clipboards[1].compress);
            assert_eq!(mm.clipboards[1].content, b"y".to_vec());
        }
        other => panic!("unexpected {other:?}"),
    }
}

use rustdesk_clipboard::side::ClipboardSide;

#[test]
fn owner_data_per_side() {
    assert_eq!(ClipboardSide::Host.get_owner_data(), vec![0b01]);
    assert_eq!(ClipboardSide::Client.get_owner_data(), vec![0b10]);
}

#[test]
fn owner_marks_of_both_sides_are_recognised_by_both() {
    for writer in [ClipboardSide::Host, ClipboardSide::Client] {
        for reader in [ClipboardSide::Host, ClipboardSide::Client] {
            assert!(reader.is_owner(&writer.get_owner_data()));
        }
    }
}

#[test]
fn other_owner_data_is_not_owned() {
    assert!(!ClipboardSide::Host.is_owner(&[]));
    assert!(!ClipboardSide::Host.is_owner(&[0b100, 1]));
    assert!(ClipboardSide::Client.is_owner(&[0b111]));
}

#[test]
fn side_names() {
    assert_eq!(ClipboardSide::Host.as_str(), "host");
    assert_eq!(ClipboardSide::Client.as_str(), "client");
}

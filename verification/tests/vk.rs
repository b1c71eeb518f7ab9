use transom_client::vk::needs_shift;
use transom_client::vk::vk_for_ascii;
use transom_client::vk::VK_RETURN;
use transom_client::vk::VK_SPACE;

#[test]
fn letters_map_to_uppercase_ascii() {
    assert_eq!(vk_for_ascii('a'), Some(0x41));
    assert_eq!(vk_for_ascii('z'), Some(0x5A));
    assert_eq!(vk_for_ascii('A'), Some(0x41));
}

#[test]
fn digits_and_whitespace() {
    assert_eq!(vk_for_ascii('0'), Some(0x30));
    assert_eq!(vk_for_ascii('9'), Some(0x39));
    assert_eq!(vk_for_ascii(' '), Some(VK_SPACE));
    assert_eq!(vk_for_ascii('\n'), Some(VK_RETURN));
}

#[test]
fn uppercase_needs_shift() {
    assert!(needs_shift('A'));
    assert!(!needs_shift('a'));
    assert!(!needs_shift('1'));
}

#[test]
fn unmapped_returns_none() {
    assert_eq!(vk_for_ascii('€'), None);
    assert_eq!(vk_for_ascii('!'), None);
}

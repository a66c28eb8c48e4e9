use babelbye::ids::{feedback_title, UserId};

#[test]
fn user_id_text_is_hyphenated_lower_case() {
    let id = UserId(0x67e5504410b1426f9247bb680e5fe0c8);
    assert_eq!(id.to_text(), "67e55044-10b1-426f-9247-bb680e5fe0c8");
    assert_eq!(UserId(0).to_text(), "00000000-0000-0000-0000-000000000000");
    assert_eq!(UserId(u128::MAX).to_text(), "ffffffff-ffff-ffff-ffff-ffffffffffff");
}

#[test]
fn parsed_text_round_trips() {
    let id = UserId(0x0123456789abcdef0123456789abcdef);
    assert_eq!(UserId::parse(&id.to_text()), Some(id));
    assert_eq!(UserId::parse("67E55044-10B1-426F-9247-BB680E5FE0C8"), Some(UserId(0x67e5504410b1426f9247bb680e5fe0c8)));
    assert_eq!(UserId::parse("67e5504410b1426f9247bb680e5fe0c8"), Some(UserId(0x67e5504410b1426f9247bb680e5fe0c8)));
    assert_eq!(UserId::parse("not-a-uuid"), None);
}

#[test]
fn feedback_title_names_the_user() {
    assert_eq!(
        feedback_title(UserId(0x67e5504410b1426f9247bb680e5fe0c8)),
        "Feedback from 67e55044-10b1-426f-9247-bb680e5fe0c8"
    );
}

#[test]
fn every_text_form_parses_back() {
    for v in [0u128, 1, 0xffff, u128::MAX, 0x8000_0000_0000_0000_0000_0000_0000_0000] {
        assert_eq!(UserId::parse(&UserId(v).to_text()), Some(UserId(v)));
    }
}

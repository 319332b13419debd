use server::ids::parse_uuid_text;
use server::uploads::problem_request_path;

#[test]
fn written_uuid_text_reads_back() {
    for id in [0u128, 1, 0x550e8400_e29b_41d4_a716_446655440000, u128::MAX] {
        let path = problem_request_path(id);
        let text = path
            .strip_prefix("/api/rooms/")
            .and_then(|rest| rest.strip_suffix("/problems"))
            .expect("path shape");
        assert_eq!(text.len(), 36);
        assert_eq!(parse_uuid_text(text), Some(id));
    }
    assert_eq!(parse_uuid_text("not-a-uuid"), None);
    assert_eq!(
        parse_uuid_text("550E8400E29B41D4A716446655440000"),
        Some(0x550e8400_e29b_41d4_a716_446655440000)
    );
}

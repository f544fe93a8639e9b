use logpose::cookies::{extract_all_guest_ids, extract_guest_id, guest_cookie, guest_cookie_pair};

const ID: u128 = 0x550e8400_e29b_41d4_a716_446655440000;

#[test]
fn guest_cookie_is_found_among_others() {
    let h = "theme=dark; guest_id=550e8400-e29b-41d4-a716-446655440000; lang=en";
    assert_eq!(extract_guest_id(Some(h)), Some(ID));
}

#[test]
fn missing_or_malformed_guest_cookie_gives_none() {
    assert_eq!(extract_guest_id(None), None);
    assert_eq!(extract_guest_id(Some("")), None);
    assert_eq!(extract_guest_id(Some("theme=dark")), None);
    assert_eq!(extract_guest_id(Some("guest_id=not-a-uuid")), None);
    assert_eq!(extract_guest_id(Some("guest_id=a=b")), None);
}

#[test]
fn the_first_guest_pair_decides() {
    let h = "guest_id=bad; guest_id=550e8400-e29b-41d4-a716-446655440000";
    assert_eq!(extract_guest_id(Some(h)), None);
    assert_eq!(extract_all_guest_ids(Some(h)), vec![ID]);
    let two = "guest_id=550e8400-e29b-41d4-a716-446655440000;guest_id=00000000-0000-0000-0000-000000000001";
    assert_eq!(extract_all_guest_ids(Some(two)), vec![ID, 1]);
    assert_eq!(extract_all_guest_ids(None), Vec::<u128>::new());
}

#[test]
fn the_cookie_set_for_a_guest_is_read_back() {
    assert_eq!(
        guest_cookie(ID),
        "guest_id=550e8400-e29b-41d4-a716-446655440000; Path=/; Max-Age=86400; HttpOnly; SameSite=Lax"
    );
    let pair = guest_cookie_pair(ID);
    assert_eq!(extract_guest_id(Some(&pair)), Some(ID));
}

#[test]
fn guest_ids_in_every_uuid_text_form() {
    let id = 0x67e5_5044_10b1_426f_9247_bb68_0e5f_e0c8u128;
    for v in [
        "67e5504410b1426f9247bb680e5fe0c8",
        "67E55044-10B1-426F-9247-BB680E5FE0C8",
        "{67e55044-10b1-426f-9247-bb680e5fe0c8}",
        "URN:uuid:67e55044-10b1-426f-9247-bb680e5fe0c8",
    ] {
        let h = format!("guest_id={v}");
        assert_eq!(extract_guest_id(Some(&h)), Some(id), "{v}");
    }
    for v in ["67e55044-10b1-426f-9247", "67e55044_10b1_426f_9247_bb680e5fe0c8", "urn:uid:67e55044-10b1-426f-9247-bb680e5fe0c8x"] {
        let h = format!("guest_id={v}");
        assert_eq!(extract_guest_id(Some(&h)), None, "{v}");
    }
}

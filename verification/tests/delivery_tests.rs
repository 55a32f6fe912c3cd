use ats_bot::delivery::{decide_after_upload, decide_frame, parse_chat_ids, Delivery, FrameDecision};

fn ids(v: &[&str]) -> Vec<String> {
    v.iter().map(|s| s.to_string()).collect()
}

#[test]
fn test_no_active_users() {
    let d = decide_frame(&Vec::new(), b"hello world");
    assert!(matches!(d, FrameDecision::NoActiveUsers));
}

#[test]
fn test_non_image_data_ignored() {
    let d = decide_frame(&ids(&["123"]), b"hello world");
    assert!(matches!(d, FrameDecision::NotAnImage));
}

#[test]
fn test_successful_send_to_all() {
    let active = ids(&["111", "222"]);
    let d = decide_frame(&active, &[0xFF, 0xD8, 0xFF, 0xE0]);
    assert!(matches!(d, FrameDecision::Upload { chat_id: 111 }));
    let after = decide_after_upload(&active, Some(vec!["file_id_111".to_string()]));
    match after {
        Delivery::ByFileId { file_id, chat_ids } => {
            assert_eq!(file_id, "file_id_111");
            assert_eq!(chat_ids, vec![222]);
        }
        other => panic!("unexpected {other:?}"),
    }
}

#[test]
fn failed_upload_falls_back_to_copies() {
    let active = ids(&["111", "x", "-5"]);
    match decide_after_upload(&active, None) {
        Delivery::Copies { chat_ids } => assert_eq!(chat_ids, vec![111, -5]),
        other => panic!("unexpected {other:?}"),
    }
    match decide_after_upload(&active, Some(Vec::new())) {
        Delivery::Copies { chat_ids } => assert_eq!(chat_ids, vec![111, -5]),
        other => panic!("unexpected {other:?}"),
    }
}

#[test]
fn unparsable_first_id_sends_copies() {
    let active = ids(&["abc", "222", "333"]);
    match decide_frame(&active, b"GIF8....") {
        FrameDecision::SendCopies { chat_ids } => assert_eq!(chat_ids, vec![222, 333]),
        other => panic!("unexpected {other:?}"),
    }
}

#[test]
fn parsed_ids_skip_bad_entries() {
    let active = ids(&["1", "", "+2", "3x", "-4"]);
    assert_eq!(parse_chat_ids(&active, 0), vec![1, 2, -4]);
    assert_eq!(parse_chat_ids(&active, 2), vec![2, -4]);
    assert_eq!(parse_chat_ids(&active, 5), Vec::<i64>::new());
}

use lure::pairing::data::PendingEntry;
use lure::pairing::store::{format_expiry, format_pairing_reply, PairingStore, DEFAULT_TTL_MS};

fn store() -> PairingStore {
    PairingStore::new("/tmp/pairing.json")
}

#[test]
fn generated_code_has_the_pairing_shape() {
    let mut s = store();
    let code = s.generate_code("telegram", "u1", DEFAULT_TTL_MS, 1_000);
    assert_eq!(code.chars().count(), 9);
    assert_eq!(code.chars().nth(4), Some('-'));
    assert!(code
        .chars()
        .enumerate()
        .all(|(i, c)| i == 4 || c.is_ascii_uppercase() || c.is_ascii_digit()));
    assert!(s.needs_save());
    let listed = s.list_pending(2_000);
    assert_eq!(listed.len(), 1);
    assert_eq!(listed[0].code, code);
    assert_eq!(listed[0].sender_id, "u1");
}

#[test]
fn approve_makes_sender_approved_and_revoke_undoes_it() {
    let mut s = store();
    let code = s.generate_code("telegram", "u1", DEFAULT_TTL_MS, 0);
    assert!(!s.is_approved("telegram", "u1"));
    assert_eq!(s.approve_code(&code, 10), Some(("telegram".to_string(), "u1".to_string())));
    assert!(s.is_approved("telegram", "u1"));
    assert!(!s.is_approved("discord", "u1"));
    assert_eq!(s.list_pending(10).len(), 0);
    assert_eq!(s.approve_code(&code, 10), None);
    assert!(s.revoke("telegram", "u1"));
    assert!(!s.is_approved("telegram", "u1"));
    assert!(!s.revoke("telegram", "u1"));
}

#[test]
fn expired_code_is_rejected() {
    let mut s = store();
    let code = s.generate_code("telegram", "u1", 1_000, 0);
    assert_eq!(s.approve_code(&code, 1_001), None);
    assert!(!s.is_approved("telegram", "u1"));
}

#[test]
fn deny_drops_the_request() {
    let mut s = store();
    let code = s.generate_code("qq", "u2", DEFAULT_TTL_MS, 0);
    assert!(s.deny_code(&code, 5));
    assert!(!s.deny_code(&code, 5));
    assert_eq!(s.approve_code(&code, 5), None);
}

#[test]
fn approved_list_is_sorted_and_channel_clear_counts() {
    let mut s = store();
    s.load_approved("telegram".to_string(), "zed".to_string());
    s.load_approved("telegram".to_string(), "amy".to_string());
    s.load_approved("telegram".to_string(), "amy".to_string());
    assert_eq!(s.get_approved("telegram"), vec!["amy".to_string(), "zed".to_string()]);
    s.load_pending(
        "AAAA-BBBB".to_string(),
        PendingEntry { channel: "telegram".into(), sender_id: "x".into(), created_at_ms: 0, expires_at_ms: 100 },
    );
    let counts = s.clear_channel("telegram");
    assert_eq!(counts.approved, 2);
    assert_eq!(counts.pending, 1);
    assert!(s.get_approved("telegram").is_empty());
}

#[test]
fn pairing_command_replies() {
    let mut s = store();
    assert_eq!(s.handle_pairing_command("telegram", "", 0), "No pending pairing requests.");
    let code = s.generate_code("telegram", "u9", 5_000, 0);
    assert_eq!(
        s.handle_pairing_command("telegram", "list", 0),
        format!("Pending pairing requests:\n- `{code}` | telegram | u9 | 5s")
    );
    assert_eq!(
        s.handle_pairing_command("telegram", &format!("approve {code}"), 10),
        format!("Approved pairing code `{code}` \u{2014} u9 can now access telegram")
    );
    assert_eq!(s.handle_pairing_command("telegram", "approve", 10), "Usage: `/pairing approve <code>`");
    assert_eq!(s.handle_pairing_command("telegram", "revoke u9", 10), "Revoked u9 from telegram");
    assert_eq!(
        s.handle_pairing_command("telegram", "revoke u9", 10),
        "u9 was not in the approved list for telegram"
    );
    assert!(s.handle_pairing_command("telegram", "frobnicate", 10).starts_with("Unknown pairing command."));
}

#[test]
fn expiry_and_reply_texts() {
    assert_eq!(format_expiry(61_500, 0), "61s");
    assert_eq!(format_expiry(999, 0), "expired");
    assert_eq!(format_expiry(0, 10), "expired");
    let r = format_pairing_reply("ABCD-EFGH");
    assert!(r.starts_with("Hi there! This assistant only responds to approved users."));
    assert!(r.ends_with("`/pairing approve ABCD-EFGH`."));
}

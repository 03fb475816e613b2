use compass::chat::{agent_history, history_limit, live_state_text};
use compass::chat_history::{ChatRole, ChatTurnRow};
use compass::model::UserAddress;

fn row(id: i64, role: ChatRole, text: &str) -> ChatTurnRow {
    ChatTurnRow { id, ts: 0, role, text: text.to_string(), trace: None }
}

#[test]
fn history_limits() {
    assert_eq!(history_limit(None), 50);
    assert_eq!(history_limit(Some(7)), 7);
    assert_eq!(history_limit(Some(500)), 500);
    assert_eq!(history_limit(Some(10_000)), 500);
}

#[test]
fn just_stored_message_is_not_repeated() {
    let rows = vec![row(1, ChatRole::User, "hi"), row(2, ChatRole::Assistant, "hello"), row(3, ChatRole::User, "plan?")];
    let h = agent_history(rows, "plan?");
    assert_eq!(h.len(), 2);
    assert_eq!(h[1].text, "hello");
    let rows = vec![row(1, ChatRole::User, "hi"), row(2, ChatRole::Assistant, "plan?")];
    assert_eq!(agent_history(rows, "plan?").len(), 2);
    assert!(agent_history(Vec::new(), "x").is_empty());
}

#[test]
fn live_state_summary() {
    let user = UserAddress::from_bytes([0x01; 20]);
    let account = UserAddress::from_bytes([0x02; 20]);
    let text = live_state_text(user, account, [1_500_000, 0, 0, 0], [0; 4]);
    let expected = format!(
        "- **Wallet (EOA)**: `0x{}`\n- **Compass smart account** (same address on both chains): `0x{}`\n- **Arc USDC balance**: 1.500000 (raw 6-dec: 1500000)\n- **Arbitrum Sepolia USDC balance**: 0.000000 (raw 6-dec: 0)\n",
        "01".repeat(20),
        "02".repeat(20)
    );
    assert_eq!(text, expected);
    let empty = live_state_text(user, account, [0; 4], [0; 4]);
    assert!(empty.starts_with(&expected.replace("1.500000 (raw 6-dec: 1500000)", "0.000000 (raw 6-dec: 0)")));
    assert!(empty.contains("has 0 USDC on both chains"));
}

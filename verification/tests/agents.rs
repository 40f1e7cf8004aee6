use faber::agents::{agent_ansi_code, agent_color_hash, AGENT_ANSI_CODES};

#[test]
fn test_agent_color_hash_deterministic() {
    let hash1 = agent_color_hash("alice");
    let hash2 = agent_color_hash("alice");
    assert_eq!(hash1, hash2);
}

#[test]
fn test_agent_color_hash_different_agents() {
    let hash1 = agent_color_hash("alice");
    let hash2 = agent_color_hash("bob");
    assert_ne!(hash1, hash2);
}

#[test]
fn test_agent_ansi_code_in_range() {
    for name in &["alice", "bob", "charlie", "default", "xyz"] {
        let code = agent_ansi_code(name);
        assert!(AGENT_ANSI_CODES.contains(&code));
    }
}

use proxy_core::user_agent;

#[test]
fn test_user_agent_format() {
    assert_eq!(user_agent().as_str(), "antigravity/1.15.8 windows/amd64");
}

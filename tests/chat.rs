use hn_backend::chat::{
    bearer, persona_or_default, podcast_history, podcast_request_prompt, podcast_turn,
    scope_or_default, title_or_default, ChatApi, ChatMessage,
};

fn msg(role: &str, content: &str) -> ChatMessage {
    ChatMessage { role: role.to_string(), content: content.to_string() }
}

#[test]
fn api_urls() {
    let api = ChatApi::new(None);
    assert_eq!(api.base_url, "https://platform-backend.getalchemystai.com");
    assert_eq!(api.generate_url(), "https://platform-backend.getalchemystai.com/api/v1/chat/generate");
    let api = ChatApi::new(Some("http://localhost:8080".to_string()));
    assert_eq!(api.stream_url(), "http://localhost:8080/api/v1/chat/generate/stream");
    assert_eq!(api.context_add_url(), "http://localhost:8080/api/v1/context/add");
}

#[test]
fn request_defaults() {
    assert_eq!(persona_or_default(None), "maya");
    assert_eq!(persona_or_default(Some("alex".to_string())), "alex");
    assert_eq!(scope_or_default(None), "internal");
    assert_eq!(title_or_default(None), "HackerNews Podcast");
    assert_eq!(title_or_default(Some("Daily".to_string())), "Daily");
    assert_eq!(bearer("k"), "Bearer k");
}

#[test]
fn user_turns_become_podcast_requests() {
    let t = podcast_turn(msg("user", "rust news"));
    assert_eq!(t.role, "user");
    assert_eq!(
        t.content,
        "Generate a podcast episode using the available context from my workspace. User request: rust news. Automatically retrieve relevant context and produce the full podcast script per the instructions."
    );
    let t = podcast_turn(msg("assistant", "hi"));
    assert_eq!((t.role.as_str(), t.content.as_str()), ("assistant", "hi"));
}

#[test]
fn history_starts_with_the_system_prompt() {
    let h = podcast_history("be brief".to_string(), vec![msg("assistant", "a"), msg("user", "b")]);
    assert_eq!(h.len(), 3);
    assert_eq!((h[0].role.as_str(), h[0].content.as_str()), ("system", "be brief"));
    assert_eq!(h[1].content, "a");
    assert!(h[2].content.contains("User request: b."));
}

#[test]
fn titled_podcast_prompt() {
    assert_eq!(
        podcast_request_prompt("Weekly"),
        "Generate a podcast episode titled \"Weekly\" using the most relevant available context from my workspace (HackerNews stories, comments, and any added documents). Automatically retrieve context as needed and produce the full script per the instructions."
    );
}

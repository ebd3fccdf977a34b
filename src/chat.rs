//! Requests to the chat-generation service: its addresses, the defaults of a
//! podcast request, and how a conversation is turned into a podcast request.
use vstd::prelude::*;

verus! {

/// The chat-generation service, addressed by its base URL.
pub struct ChatApi {
    pub base_url: String,
}

/// One turn of a conversation.
#[derive(Debug)]
pub struct ChatMessage {
    pub role: String,
    pub content: String,
}

pub open spec fn default_api_url() -> Seq<char> {
    "https://platform-backend.getalchemystai.com"@
}

impl ChatApi {
    /// The service at the configured URL, or at the public one when none is
    /// configured.
    pub fn new(configured: Option<String>) -> (r: ChatApi)
        ensures
            r.base_url@ == match configured {
                Some(u) => u@,
                None => default_api_url(),
            },
    {
        let base_url = match configured {
            Some(u) => u,
            None => String::from_str("https://platform-backend.getalchemystai.com"),
        };
        ChatApi { base_url }
    }

    /// `<base>/api/v1/chat/generate`
    pub fn generate_url(&self) -> (r: String)
        ensures
            r@ == self.base_url@ + "/api/v1/chat/generate"@,
    {
        let mut r = self.base_url.clone();
        r.append("/api/v1/chat/generate");
        r
    }

    /// `<base>/api/v1/chat/generate/stream`
    pub fn stream_url(&self) -> (r: String)
        ensures
            r@ == self.base_url@ + "/api/v1/chat/generate/stream"@,
    {
        let mut r = self.base_url.clone();
        r.append("/api/v1/chat/generate/stream");
        r
    }

    /// `<base>/api/v1/context/add`
    pub fn context_add_url(&self) -> (r: String)
        ensures
            r@ == self.base_url@ + "/api/v1/context/add"@,
    {
        let mut r = self.base_url.clone();
        r.append("/api/v1/context/add");
        r
    }
}

/// The value given, or `default` when none is.
pub fn or_default_text(v: Option<String>, default: &str) -> (r: String)
    ensures
        r@ == match v {
            Some(t) => t@,
            None => default@,
        },
{
    match v {
        Some(t) => t,
        None => String::from_str(default),
    }
}

/// The persona of a request, `maya` by default.
pub fn persona_or_default(v: Option<String>) -> (r: String)
    ensures
        r@ == match v {
            Some(t) => t@,
            None => "maya"@,
        },
{
    or_default_text(v, "maya")
}

/// The scope of a request, `internal` by default.
pub fn scope_or_default(v: Option<String>) -> (r: String)
    ensures
        r@ == match v {
            Some(t) => t@,
            None => "internal"@,
        },
{
    or_default_text(v, "internal")
}

/// The title of a podcast, `HackerNews Podcast` by default.
pub fn title_or_default(v: Option<String>) -> (r: String)
    ensures
        r@ == match v {
            Some(t) => t@,
            None => "HackerNews Podcast"@,
        },
{
    or_default_text(v, "HackerNews Podcast")
}

/// The `Authorization` header value for an API key.
pub fn bearer(api_key: &str) -> (r: String)
    ensures
        r@ == "Bearer "@ + api_key@,
{
    let mut r = String::from_str("Bearer ");
    r.append(api_key);
    r
}

pub open spec fn podcast_wrap(request: Seq<char>) -> Seq<char> {
    "Generate a podcast episode using the available context from my workspace. User request: "@
        + request
        + ". Automatically retrieve relevant context and produce the full podcast script per the instructions."@
}

pub open spec fn podcast_title_prompt(title: Seq<char>) -> Seq<char> {
    "Generate a podcast episode titled \""@ + title
        + "\" using the most relevant available context from my workspace (HackerNews stories, comments, and any added documents). Automatically retrieve context as needed and produce the full script per the instructions."@
}

/// The user turn that asks for a podcast with the given title.
pub fn podcast_request_prompt(title: &str) -> (r: String)
    ensures
        r@ == podcast_title_prompt(title@),
{
    let mut r = String::from_str("Generate a podcast episode titled \"");
    r.append(title);
    r.append(
        "\" using the most relevant available context from my workspace (HackerNews stories, comments, and any added documents). Automatically retrieve context as needed and produce the full script per the instructions.",
    );
    r
}

/// `m` as a turn of a podcast request: a user turn is wrapped into a
/// podcast instruction, any other turn is kept.
pub open spec fn is_podcast_turn(m: ChatMessage, r: ChatMessage) -> bool {
    if m.role@ == "user"@ {
        r.role@ == "user"@ && r.content@ == podcast_wrap(m.content@)
    } else {
        r.role@ == m.role@ && r.content@ == m.content@
    }
}

pub fn podcast_turn(m: ChatMessage) -> (r: ChatMessage)
    ensures
        is_podcast_turn(m, r),
{
    if m.role == String::from_str("user") {
        let mut content = String::from_str(
            "Generate a podcast episode using the available context from my workspace. User request: ",
        );
        content.append(m.content.as_str());
        content.append(
            ". Automatically retrieve relevant context and produce the full podcast script per the instructions.",
        );
        ChatMessage { role: String::from_str("user"), content }
    } else {
        m
    }
}

/// The conversation sent upstream for a podcast: the system prompt first,
/// then each turn of `history`, in order, as a podcast turn.
pub fn podcast_history(system_prompt: String, history: Vec<ChatMessage>) -> (r: Vec<ChatMessage>)
    ensures
        r@.len() == history@.len() + 1,
        r@[0].role@ == "system"@,
        r@[0].content@ == system_prompt@,
        forall|i: int| 0 <= i < history@.len() ==> is_podcast_turn(history@[i], #[trigger] r@[i + 1]),
{
    let ghost h = history@;
    let mut r: Vec<ChatMessage> = Vec::new();
    r.push(ChatMessage { role: String::from_str("system"), content: system_prompt });
    for m in it: history.into_iter()
        invariant
            it.seq() == h,
            r@.len() == it.index() + 1,
            r@[0].role@ == "system"@,
            r@[0].content@ == system_prompt@,
            forall|i: int| 0 <= i < it.index() ==> is_podcast_turn(h[i], #[trigger] r@[i + 1]),
    {
        let ghost k = it.index() as int;
        let t = podcast_turn(m);
        r.push(t);
        assert(r@[k + 1] == t);
    }
    r
}

} // verus!

//! Decision logic of the AI-prompt step: message assembly, configuration
//! defaults, endpoint and header formatting, and reply extraction.  The
//! HTTP call itself stays with the caller.

use vstd::prelude::*;
use vstd::string::*;
use crate::strutil::substring;

verus! {

/// One chat message: a role and its text.
#[derive(Debug, Clone)]
pub struct Message {
    pub role: String,
    pub content: String,
}

/// One completion the collaborator offers.
#[derive(Debug)]
pub struct Choice {
    pub message: Message,
}

/// What the text-completion collaborator answered.
#[derive(Debug)]
pub struct ChatResponse {
    pub choices: Vec<Choice>,
}

/// The AI step's decision logic; the transport stays with the caller.
pub struct AIService;

impl AIService {
    /// Assembles the message list: the optional system prompt first, the
    /// user prompt last.
    pub fn build_messages(system_prompt: &Option<String>, user_prompt: &str) -> (r: Vec<
        Message,
    >)
        ensures
            match system_prompt {
                Some(sys) => r@.len() == 2 && r@[0].role@ == "system"@ && r@[0].content@ == sys@
                    && r@[1].role@ == "user"@ && r@[1].content@ == user_prompt@,
                None => r@.len() == 1 && r@[0].role@ == "user"@ && r@[0].content@
                    == user_prompt@,
            },
    {
        let mut messages: Vec<Message> = Vec::new();
        match system_prompt {
            Some(sys) => {
                messages.push(
                    Message { role: String::from_str("system"), content: sys.clone() },
                );
            },
            None => {},
        }
        messages.push(
            Message { role: String::from_str("user"), content: String::from_str(user_prompt) },
        );
        messages
    }

    /// Fills in the defaults for unset configuration values: a local
    /// endpoint, a stock model, and no key at all when the stored key is
    /// empty.
    pub fn resolve_config(endpoint: String, model: String, api_key: String) -> (r: (
        String,
        String,
        Option<String>,
    ))
        ensures
            endpoint@.len() == 0 ==> r.0@ == "http://localhost:11434"@,
            endpoint@.len() > 0 ==> r.0@ == endpoint@,
            model@.len() == 0 ==> r.1@ == "llama3"@,
            model@.len() > 0 ==> r.1@ == model@,
            api_key@.len() == 0 ==> r.2 is None,
            api_key@.len() > 0 ==> (r.2 matches Some(k) && k@ == api_key@),
    {
        let e = if endpoint.as_str().unicode_len() == 0 {
            String::from_str("http://localhost:11434")
        } else {
            endpoint
        };
        let m = if model.as_str().unicode_len() == 0 {
            String::from_str("llama3")
        } else {
            model
        };
        let k = if api_key.as_str().unicode_len() == 0 {
            None
        } else {
            Some(api_key)
        };
        (e, m, k)
    }

    /// The endpoint with trailing slashes removed.
    pub open spec fn spec_trim_end_slashes(s: Seq<char>) -> Seq<char>
        decreases s.len(),
    {
        if s.len() > 0 && s[s.len() - 1] == '/' {
            Self::spec_trim_end_slashes(s.drop_last())
        } else {
            s
        }
    }

    /// The chat-completions URL under an endpoint, trailing slashes
    /// stripped first.
    pub fn completions_url(endpoint: &str) -> (r: String)
        ensures
            r@ == Self::spec_trim_end_slashes(endpoint@) + "/v1/chat/completions"@,
    {
        let mut n = endpoint.unicode_len();
        proof {
            assert(endpoint@.subrange(0, endpoint@.len() as int) =~= endpoint@);
        }
        while n > 0
            invariant
                n <= endpoint@.len(),
                Self::spec_trim_end_slashes(endpoint@) == Self::spec_trim_end_slashes(
                    endpoint@.subrange(0, n as int),
                ),
            decreases n,
        {
            if endpoint.get_char(n - 1) != '/' {
                proof {
                    assert(Self::spec_trim_end_slashes(endpoint@.subrange(0, n as int))
                        == endpoint@.subrange(0, n as int));
                }
                let mut url = substring(endpoint, 0, n);
                url.append("/v1/chat/completions");
                return url;
            }
            proof {
                assert(endpoint@.subrange(0, n as int).drop_last() =~= endpoint@.subrange(
                    0,
                    n - 1,
                ));
            }
            n = n - 1;
        }
        proof {
            assert(endpoint@.subrange(0, 0) =~= Seq::<char>::empty());
        }
        let mut url = String::new();
        url.append("/v1/chat/completions");
        proof {
            assert(url@ =~= Self::spec_trim_end_slashes(endpoint@) + "/v1/chat/completions"@);
        }
        url
    }

    /// The authorization header value for a configured key.
    pub fn bearer_header(api_key: &str) -> (r: String)
        ensures
            r@ == "Bearer "@ + api_key@,
    {
        let mut s = String::from_str("Bearer ");
        s.append(api_key);
        s
    }

    /// The error text for a collaborator answer outside the success
    /// range, wrapping the body it sent back.
    pub fn api_error(body: &str) -> (r: String)
        ensures
            r@ == "AI API Error: "@ + body@,
    {
        let mut s = String::from_str("AI API Error: ");
        s.append(body);
        s
    }

    /// Extracts the reply text: the first choice's content, or an error
    /// when the collaborator offered no choice at all.
    pub fn extract_reply(response: &ChatResponse) -> (r: Result<String, String>)
        ensures
            response.choices@.len() > 0 ==> (r matches Ok(t) && t@
                == response.choices@[0].message.content@),
            response.choices@.len() == 0 ==> (r matches Err(e) && e@
                == "No response content from AI"@),
    {
        if response.choices.len() > 0 {
            Ok(response.choices[0].message.content.clone())
        } else {
            Err(String::from_str("No response content from AI"))
        }
    }

    /// The marker-prefixed text a successful AI step logs.
    pub fn format_reply(text: &str) -> (r: String)
        ensures
            r@ == "[AI Response]\n"@ + text@,
    {
        let mut s = String::from_str("[AI Response]\n");
        s.append(text);
        s
    }
}

} // verus!

//! The conversation session: an ordered message history plus the
//! connection configuration, with one exchange split into building the
//! request and taking the outcome of the HTTP call back.

use vstd::prelude::*;

use crate::message::Message;
use crate::message::MsgView;
use crate::message::Role;
use crate::message::msg_views;
use crate::wire::build_request;
use crate::wire::decode_response;
use crate::wire::request_body;
use crate::wire::response_contents;
use crate::wire::str_views;

verus! {

/// Why a session operation failed.
#[derive(Clone, Copy, Debug, PartialEq, Eq, Structural)]
pub enum ChatError {
    /// The credential was absent or empty at construction.
    ConfigurationError,
    /// The network call could not complete.
    TransportError,
    /// The HTTP status was not in the success range; carries the status.
    ApiError(u16),
    /// The response body could not be parsed into the expected shape.
    DecodeError,
    /// The response held no choices.
    EmptyResponseError,
}

/// The connection configuration handed to [`ChatBot::new`]. The
/// credential is required; endpoint and model fall back to defaults.
pub struct Config {
    pub api_key: Option<String>,
    pub base_url: Option<String>,
    pub model: Option<String>,
}

/// What came back from one HTTP exchange, as the caller saw it.
pub enum HttpOutcome {
    /// The call did not complete at the transport layer.
    TransportFailure,
    /// The call completed with this status and body.
    Response { status: u16, body: String },
}

/// The base URL used when the configuration names none.
pub open spec fn default_base_url() -> Seq<char> {
    "https://api.llmshare.network/v1"@
}

/// The model used when the configuration names none.
pub open spec fn default_model() -> Seq<char> {
    "gpt-3.5-turbo"@
}

/// Whether the configuration lacks a usable credential.
pub open spec fn config_key_missing(c: Config) -> bool {
    match c.api_key {
        None => true,
        Some(k) => k@.len() == 0,
    }
}

/// What a reset leaves of a history: its leading system message, or
/// nothing when there is none.
pub open spec fn reset_history(h: Seq<MsgView>) -> Seq<MsgView> {
    if h.len() > 0 && h[0].role == Role::System {
        seq![h[0]]
    } else {
        Seq::<MsgView>::empty()
    }
}

/// A history is well formed when a system message can stand only at the
/// front: no later entry carries the system role.
pub open spec fn history_wf(h: Seq<MsgView>) -> bool {
    forall|k: int| 1 <= k < h.len() ==> h[k].role != Role::System
}

/// A conversation session.
pub struct ChatBot {
    model: String,
    base_url: String,
    api_key: String,
    messages: Vec<Message>,
}

impl ChatBot {
    /// The ordered message history, oldest first.
    pub closed spec fn history(&self) -> Seq<MsgView> {
        msg_views(self.messages@)
    }

    /// The configured model identifier.
    pub closed spec fn model_name(&self) -> Seq<char> {
        self.model@
    }

    /// The configured base URL.
    pub closed spec fn endpoint(&self) -> Seq<char> {
        self.base_url@
    }

    /// The configured credential.
    pub closed spec fn credential(&self) -> Seq<char> {
        self.api_key@
    }

    /// The session invariant: at most one system message, at the front.
    pub open spec fn wf(&self) -> bool {
        history_wf(self.history())
    }

    /// Builds a session from the given configuration. Fails exactly when
    /// the credential is absent or empty; a non-empty system prompt
    /// becomes the single leading system message.
    pub fn new(system_prompt: &str, config: Config) -> (r: Result<ChatBot, ChatError>)
        ensures
            config_key_missing(config) <==> r is Err,
            r is Err ==> r == Err::<ChatBot, ChatError>(ChatError::ConfigurationError),
            r matches Ok(b) ==> {
                &&& b.credential() == config.api_key.unwrap()@
                &&& b.endpoint() == (match config.base_url {
                    Some(u) => u@,
                    None => default_base_url(),
                })
                &&& b.model_name() == (match config.model {
                    Some(m) => m@,
                    None => default_model(),
                })
                &&& b.history() == (if system_prompt@.len() > 0 {
                    seq![MsgView { role: Role::System, content: system_prompt@ }]
                } else {
                    Seq::<MsgView>::empty()
                })
                &&& b.wf()
            },
    {
        let api_key = match config.api_key {
            None => {
                return Err(ChatError::ConfigurationError);
            },
            Some(k) => k,
        };
        if api_key.unicode_len() == 0 {
            return Err(ChatError::ConfigurationError);
        }
        let base_url = match config.base_url {
            Some(u) => u,
            None => String::from_str("https://api.llmshare.network/v1"),
        };
        let model = match config.model {
            Some(m) => m,
            None => String::from_str("gpt-3.5-turbo"),
        };
        let mut messages: Vec<Message> = Vec::new();
        if system_prompt.unicode_len() > 0 {
            messages.push(Message { role: Role::System, content: String::from_str(system_prompt) });
            proof {
                assert(msg_views(messages@) =~= seq![
                    MsgView { role: Role::System, content: system_prompt@ },
                ]);
            }
        } else {
            proof {
                assert(msg_views(messages@) =~= Seq::<MsgView>::empty());
            }
        }
        Ok(ChatBot { model, base_url, api_key, messages })
    }

    /// The value of the `Authorization` header for the session's
    /// credential.
    pub fn bearer_token(&self) -> (r: String)
        ensures
            r@ == "Bearer "@ + self.credential(),
    {
        String::from_str("Bearer ").concat(self.api_key.as_str())
    }

    /// The URL the request body is to be posted to.
    pub fn endpoint_url(&self) -> (r: String)
        ensures
            r@ == self.endpoint() + "/chat/completions"@,
    {
        self.base_url.clone().concat("/chat/completions")
    }

    /// Starts one exchange: appends the user turn to the history — before
    /// the network call, whatever its outcome will be — and returns the
    /// request body carrying the whole history.
    pub fn begin_chat(&mut self, message: &str) -> (r: String)
        ensures
            final(self).history() == old(self).history().push(
                MsgView { role: Role::User, content: message@ },
            ),
            final(self).model_name() == old(self).model_name(),
            final(self).endpoint() == old(self).endpoint(),
            final(self).credential() == old(self).credential(),
            old(self).wf() ==> final(self).wf(),
            r@ == request_body(old(self).model_name(), final(self).history()),
    {
        let ghost h0 = self.messages@;
        self.messages.push(Message { role: Role::User, content: String::from_str(message) });
        proof {
            assert(msg_views(self.messages@) =~= msg_views(h0).push(
                MsgView { role: Role::User, content: message@ },
            ));
        }
        build_request(&self.model, &self.messages)
    }

    /// Finishes one exchange from the outcome of the HTTP call. Only a
    /// success status with a well-shaped body holding at least one choice
    /// appends the assistant turn; every failure leaves the history as
    /// [`begin_chat`] left it, with the user turn dangling.
    pub fn finish_chat(&mut self, outcome: HttpOutcome) -> (r: Result<String, ChatError>)
        ensures
            final(self).model_name() == old(self).model_name(),
            final(self).endpoint() == old(self).endpoint(),
            final(self).credential() == old(self).credential(),
            old(self).wf() ==> final(self).wf(),
            (match outcome {
                HttpOutcome::TransportFailure => r == Err::<String, ChatError>(
                    ChatError::TransportError,
                ) && final(self).history() == old(self).history(),
                HttpOutcome::Response { status, body } => {
                    if !(200 <= status < 300) {
                        r == Err::<String, ChatError>(ChatError::ApiError(status))
                            && final(self).history() == old(self).history()
                    } else {
                        match response_contents(body@) {
                            None => r == Err::<String, ChatError>(ChatError::DecodeError)
                                && final(self).history() == old(self).history(),
                            Some(cs) => if cs.len() == 0 {
                                r == Err::<String, ChatError>(ChatError::EmptyResponseError)
                                    && final(self).history() == old(self).history()
                            } else {
                                r matches Ok(t) && t@ == cs[0]
                                    && final(self).history() == old(self).history().push(
                                    MsgView { role: Role::Assistant, content: cs[0] },
                                )
                            },
                        }
                    }
                },
            }),
    {
        match outcome {
            HttpOutcome::TransportFailure => Err(ChatError::TransportError),
            HttpOutcome::Response { status, body } => {
                if status < 200 || status >= 300 {
                    return Err(ChatError::ApiError(status));
                }
                match decode_response(body.as_str()) {
                    None => Err(ChatError::DecodeError),
                    Some(contents) => {
                        if contents.len() == 0 {
                            Err(ChatError::EmptyResponseError)
                        } else {
                            let reply = contents[0].clone();
                            let ghost h0 = self.messages@;
                            self.messages.push(
                                Message { role: Role::Assistant, content: reply.clone() },
                            );
                            proof {
                                assert(str_views(contents@)[0] == contents@[0]@);
                                assert(msg_views(self.messages@) =~= msg_views(h0).push(
                                    MsgView { role: Role::Assistant, content: reply@ },
                                ));
                            }
                            Ok(reply)
                        }
                    },
                }
            },
        }
    }

    /// Truncates the history back to its leading system message, or to
    /// nothing when there is none.
    pub fn clear_history(&mut self)
        ensures
            final(self).history() == reset_history(old(self).history()),
            final(self).model_name() == old(self).model_name(),
            final(self).endpoint() == old(self).endpoint(),
            final(self).credential() == old(self).credential(),
            final(self).wf(),
    {
        let ghost h0 = self.messages@;
        if self.messages.len() > 0 && self.messages[0].role == Role::System {
            self.messages.truncate(1);
            proof {
                assert(msg_views(self.messages@) =~= seq![msg_views(h0)[0]]);
            }
        } else {
            self.messages.clear();
            proof {
                assert(msg_views(self.messages@) =~= Seq::<MsgView>::empty());
            }
        }
    }

    /// The current history, oldest first.
    pub fn get_history(&self) -> (r: &Vec<Message>)
        ensures
            msg_views(r@) == self.history(),
    {
        &self.messages
    }
}

/// One successful exchange: the user turn, then the assistant reply.
pub open spec fn exchange_step(h: Seq<MsgView>, user: Seq<char>, reply: Seq<char>) -> Seq<
    MsgView,
> {
    h.push(MsgView { role: Role::User, content: user }).push(
        MsgView { role: Role::Assistant, content: reply },
    )
}

/// The history after a run of successful exchanges, oldest first.
pub open spec fn after_exchanges(h: Seq<MsgView>, turns: Seq<(Seq<char>, Seq<char>)>) -> Seq<
    MsgView,
>
    decreases turns.len(),
{
    if turns.len() == 0 {
        h
    } else {
        after_exchanges(exchange_step(h, turns[0].0, turns[0].1), turns.drop_first())
    }
}

/// Law: a run of successful exchanges grows the history by exactly two
/// entries per exchange, so a session that starts with a system prompt
/// holds `2 * N + 1` messages after `N` of them, and `2 * N` without one.
pub proof fn lemma_history_growth(h: Seq<MsgView>, turns: Seq<(Seq<char>, Seq<char>)>)
    ensures
        after_exchanges(h, turns).len() == h.len() + 2 * turns.len(),
    decreases turns.len(),
{
    if turns.len() > 0 {
        lemma_history_growth(exchange_step(h, turns[0].0, turns[0].1), turns.drop_first());
    }
}

/// Law: exchanges preserve the session invariant — a system message can
/// stand only at the front, however many exchanges follow.
pub proof fn lemma_exchanges_preserve_wf(h: Seq<MsgView>, turns: Seq<(Seq<char>, Seq<char>)>)
    requires
        history_wf(h),
    ensures
        history_wf(after_exchanges(h, turns)),
    decreases turns.len(),
{
    if turns.len() > 0 {
        assert(history_wf(exchange_step(h, turns[0].0, turns[0].1)));
        lemma_exchanges_preserve_wf(exchange_step(h, turns[0].0, turns[0].1), turns.drop_first());
    }
}

} // verus!

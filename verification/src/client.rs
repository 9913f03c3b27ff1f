//! Configuration and wire format of the upstream text-generation client.
//!
//! The HTTP calls themselves are I/O and live outside the library; what is
//! verified here is everything the calls depend on: how the API key is
//! chosen and masked, how the request body is framed, and how a status code
//! is judged.
use vstd::prelude::*;
use vstd::string::StringSliceAdditionalSpecFns;
use crate::errors::AdvisorError;
use crate::json::JsonSpec;
use crate::json::JsonValue;
use crate::json::clone_bytes;
use crate::json::elem_views;
use crate::json::lemma_arr_view;
use crate::json::lemma_obj_view;
use crate::json::lookup_key;
use crate::json::lookup_last;
use crate::json::quoted;
use crate::json::write_quoted;
use crate::parse::parse_json;
use crate::parse::parsed_json;
use crate::stream::ChoiceSpec;
use crate::stream::choice_views;
use crate::stream::choices_of;
use crate::stream::decode_choices;
use crate::text::dec_of;
use crate::text::trim;
use crate::text::view_opt;
use crate::text::u64_to_dec;

verus! {

/// Timeout, in seconds, for a non-streaming request.
pub const REQUEST_TIMEOUT_SECS: u64 = 120;

/// Timeout, in seconds, for a full streaming request.
pub const STREAM_TIMEOUT_SECS: u64 = 300;

/// Token budget of a non-streaming request.
pub const REQUEST_MAX_TOKENS: u64 = 2000;

/// Token budget of a streaming request.
pub const STREAM_MAX_TOKENS: u64 = 3000;

/// The endpoint used when none stands in the environment.
pub open spec fn default_api_url() -> Seq<u8> {
    "https://api.mistral.ai/v1/chat/completions".spec_bytes()
}

/// Client for the upstream text-generation service.
pub struct MistralClient {
    /// The bearer key sent with each request.
    pub api_key: Vec<u8>,
    /// The endpoint requests go to.
    pub api_url: Vec<u8>,
    /// Timeout for a non-streaming request, in seconds.
    pub timeout_secs: u64,
}

/// The key the client uses, given the one provided by the caller and the one
/// standing in the environment: a provided key that is not blank wins,
/// otherwise the environment's.
pub open spec fn chosen_api_key(provided: Option<Seq<u8>>, env_key: Option<Seq<u8>>) -> Option<
    Seq<u8>,
> {
    match provided {
        Some(k) if trim(k).len() > 0 => Some(k),
        _ => env_key,
    }
}

impl MistralClient {
    /// Builds a client from the caller's optional key and the environment's
    /// optional key and endpoint; fails exactly when neither key is usable.
    pub fn with_api_key(
        provided: Option<Vec<u8>>,
        env_key: Option<Vec<u8>>,
        env_url: Option<Vec<u8>>,
    ) -> (r: Result<MistralClient, AdvisorError>)
        ensures
            r is Ok <==> chosen_api_key(view_opt(provided), view_opt(env_key)) is Some,
            r matches Ok(c) ==> {
                &&& Some(c.api_key@) == chosen_api_key(view_opt(provided), view_opt(env_key))
                &&& c.api_url@ == match env_url {
                    Some(u) => u@,
                    None => default_api_url(),
                }
                &&& c.timeout_secs == REQUEST_TIMEOUT_SECS
            },
            r matches Err(e) ==> e == AdvisorError::MissingApiKey,
    {
        let api_key: Vec<u8> = match provided {
            Some(k) => {
                let t = crate::text::trim_bytes(k.as_slice());
                if t.len() > 0 {
                    k
                } else {
                    match env_key {
                        Some(e) => e,
                        None => {
                            return Err(AdvisorError::MissingApiKey);
                        },
                    }
                }
            },
            None => {
                match env_key {
                    Some(e) => e,
                    None => {
                        return Err(AdvisorError::MissingApiKey);
                    },
                }
            },
        };
        let api_url: Vec<u8> = match env_url {
            Some(u) => u,
            None => {
                let mut url: Vec<u8> = Vec::new();
                url.extend_from_slice("https://api.mistral.ai/v1/chat/completions".as_bytes());
                url
            },
        };
        Ok(MistralClient { api_key, api_url, timeout_secs: REQUEST_TIMEOUT_SECS })
    }

    /// Builds a client from the environment alone.
    pub fn new(env_key: Option<Vec<u8>>, env_url: Option<Vec<u8>>) -> (r: Result<
        MistralClient,
        AdvisorError,
    >)
        ensures
            r is Ok <==> env_key is Some,
            r matches Ok(c) ==> {
                &&& Some(c.api_key@) == view_opt(env_key)
                &&& c.api_url@ == match env_url {
                    Some(u) => u@,
                    None => default_api_url(),
                }
                &&& c.timeout_secs == REQUEST_TIMEOUT_SECS
            },
            r matches Err(e) ==> e == AdvisorError::MissingApiKey,
    {
        Self::with_api_key(None, env_key, env_url)
    }
}

/// The masked form of an API key as it may appear in a log: the last four
/// bytes behind an ellipsis, or four stars where the key is that short.
pub open spec fn masked_key(key: Seq<u8>) -> Seq<u8> {
    if key.len() > 4 {
        "...".spec_bytes() + key.subrange(key.len() - 4, key.len() as int)
    } else {
        "****".spec_bytes()
    }
}

/// Masks an API key for display, keeping only its last four bytes.
pub fn mask_api_key(key: &[u8]) -> (r: Vec<u8>)
    ensures
        r@ == masked_key(key@),
{
    let mut out: Vec<u8> = Vec::new();
    if key.len() > 4 {
        out.extend_from_slice("...".as_bytes());
        let mut i: usize = key.len() - 4;
        while i < key.len()
            invariant
                key@.len() > 4,
                key@.len() - 4 <= i <= key@.len(),
                out@ == "...".spec_bytes() + key@.subrange(key@.len() - 4, i as int),
            decreases key@.len() - i,
        {
            out.push(key[i]);
            i = i + 1;
            proof {
                assert(out@ =~= "...".spec_bytes() + key@.subrange(key@.len() - 4, i as int));
            }
        }
    } else {
        out.extend_from_slice("****".as_bytes());
    }
    out
}

/// The request body sent upstream for a prompt: one user message, fixed
/// model and temperature, the given token budget, and a `stream` flag only
/// on streaming requests.
pub open spec fn request_body(prompt: Seq<u8>, max_tokens: nat, stream: bool) -> Seq<u8> {
    "{\"model\":\"mistral-medium\",\"messages\":[{\"role\":\"user\",\"content\":".spec_bytes()
        + quoted(prompt) + "}],\"temperature\":0.7,\"max_tokens\":".spec_bytes() + dec_of(max_tokens)
        + (if stream {
        ",\"stream\":true".spec_bytes()
    } else {
        Seq::empty()
    }) + "}".spec_bytes()
}

/// Frames the JSON request body for a prompt, escaping it as a JSON string.
pub fn build_request_body(prompt: &[u8], max_tokens: u64, stream: bool) -> (r: Vec<u8>)
    ensures
        r@ == request_body(prompt@, max_tokens as nat, stream),
{
    let mut out: Vec<u8> = Vec::new();
    out.extend_from_slice(
        "{\"model\":\"mistral-medium\",\"messages\":[{\"role\":\"user\",\"content\":".as_bytes(),
    );
    write_quoted(prompt, &mut out);
    out.extend_from_slice("}],\"temperature\":0.7,\"max_tokens\":".as_bytes());
    let digits = u64_to_dec(max_tokens);
    out.extend_from_slice(digits.as_slice());
    if stream {
        out.extend_from_slice(",\"stream\":true".as_bytes());
    }
    out.extend_from_slice("}".as_bytes());
    proof {
        assert(out@ =~= request_body(prompt@, max_tokens as nat, stream));
    }
    out
}

/// Judges an HTTP status: success is any code in the 200 range; any other
/// status is surfaced as an upstream error carrying the response body.
pub fn check_status(status: u16, body: Vec<u8>) -> (r: Result<(), AdvisorError>)
    ensures
        r is Ok <==> 200 <= status < 300,
        !(200 <= status < 300) ==> r == Result::<(), AdvisorError>::Err(
            AdvisorError::UpstreamError { status, body },
        ),
{
    if 200 <= status && status < 300 {
        Ok(())
    } else {
        Err(AdvisorError::UpstreamError { status, body })
    }
}

/// The choices of a decoded non-streaming response; `None` where the body
/// is no response: not an object, no `choices` array, or a choice of the
/// wrong shape. Unknown keys are ignored.
pub open spec fn response_choices(j: JsonSpec) -> Option<Seq<ChoiceSpec>> {
    match j {
        JsonSpec::Obj(es) => match lookup_last(es, "choices".spec_bytes()) {
            Some(JsonSpec::Arr(cs)) => choices_of(cs, 0),
            _ => None,
        },
        _ => None,
    }
}

/// What the non-streaming endpoint's body yields: the first choice's full
/// message content (empty where the choice has no message), an empty-
/// response error where there is no choice at all, and an invalid-response
/// error where the body does not parse or decode.
pub open spec fn single_content_spec(body: Seq<u8>) -> Result<Seq<u8>, AdvisorError> {
    match parsed_json(body) {
        None => Err(AdvisorError::InvalidResponse),
        Some(j) => match response_choices(j) {
            None => Err(AdvisorError::InvalidResponse),
            Some(cs) => if cs.len() == 0 {
                Err(AdvisorError::EmptyResponse)
            } else {
                Ok(
                    match cs[0].message {
                        Some(m) => m,
                        None => Seq::empty(),
                    },
                )
            },
        },
    }
}

/// Reads a non-streaming response body, as [`single_content_spec`] says.
pub fn extract_single_content(body: &[u8]) -> (r: Result<Vec<u8>, AdvisorError>)
    ensures
        (match r {
            Ok(c) => Ok(c@),
            Err(e) => Err(e),
        }) == single_content_spec(body@),
{
    let v = match parse_json(body) {
        Some(v) => v,
        None => {
            return Err(AdvisorError::InvalidResponse);
        },
    };
    match &v {
        JsonValue::Obj(entries) => {
            proof {
                lemma_obj_view(*entries);
            }
            match lookup_key(entries, "choices".as_bytes()) {
                Some(arr) => {
                    match arr {
                        JsonValue::Arr(items) => {
                            proof {
                                lemma_arr_view(*items);
                            }
                            match decode_choices(items) {
                                None => Err(AdvisorError::InvalidResponse),
                                Some(cs) => {
                                    if cs.len() == 0 {
                                        Err(AdvisorError::EmptyResponse)
                                    } else {
                                        match &cs[0].message {
                                            Some(m) => Ok(clone_bytes(m)),
                                            None => Ok(Vec::new()),
                                        }
                                    }
                                },
                            }
                        },
                        _ => Err(AdvisorError::InvalidResponse),
                    }
                },
                None => Err(AdvisorError::InvalidResponse),
            }
        },
        _ => Err(AdvisorError::InvalidResponse),
    }
}

} // verus!

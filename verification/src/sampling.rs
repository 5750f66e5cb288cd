//! Sampling parameters that are common to all providers. What is not set is
//! not sent, so that the model applies its own default.

use vstd::prelude::*;
use crate::json::{clone_number, items_view, json_view, opt_json, Json, JsonMap, JsonView};
use crate::text::texts;

verus! {

/// A real-valued parameter, as JSON can hold it.
#[derive(Debug)]
pub enum Real {
    /// A finite number.
    Finite(serde_json::Number),
    /// A number that JSON has no form for; it is sent as `null`.
    NotFinite,
}

/// The JSON form of a real-valued parameter.
pub open spec fn real_json(r: Real) -> JsonView {
    match r {
        Real::Finite(n) => JsonView::Number(n),
        Real::NotFinite => JsonView::Null,
    }
}

/// The JSON form of an optional real-valued parameter.
pub open spec fn opt_real(r: Option<Real>) -> Option<JsonView> {
    match r {
        Some(x) => Some(real_json(x)),
        None => None,
    }
}

impl Real {
    /// The JSON form of the parameter.
    pub fn to_json(&self) -> (r: Json)
        ensures
            r@ == real_json(*self),
    {
        match self {
            Real::Finite(n) => Json::Number(clone_number(n)),
            Real::NotFinite => Json::Null,
        }
    }
}

/// The JSON form of a real-valued parameter that may be missing.
pub open spec fn opt_real_ref(r: Option<&Real>) -> Option<JsonView> {
    match r {
        Some(x) => Some(real_json(*x)),
        None => None,
    }
}

/// The JSON form of a real-valued parameter that may be missing.
pub fn opt_real_json(r: Option<&Real>) -> (j: Option<Json>)
    ensures
        opt_json(j) == opt_real_ref(r),
{
    match r {
        Some(x) => Some(x.to_json()),
        None => None,
    }
}

/// Sampling controls of a request.
#[derive(Debug)]
pub struct SamplingConfig {
    pub temperature: Option<Real>,
    /// Nucleus-sampling probability mass.
    pub top_p: Option<Real>,
    /// Top-k sampling (Anthropic and Gemini only).
    pub top_k: Option<u32>,
    /// Seed (OpenAI, Cerebras and Gemini).
    pub seed: Option<u64>,
    /// Stop sequences.
    pub stop: Vec<String>,
    /// Frequency penalty (OpenAI, Cerebras and Gemini).
    pub frequency_penalty: Option<Real>,
    /// Presence penalty (OpenAI, Cerebras and Gemini).
    pub presence_penalty: Option<Real>,
    /// Maximum output tokens. Overrides any ceiling of the model.
    pub max_tokens: Option<usize>,
    /// Further members of the request body, merged into it verbatim.
    pub extra: JsonMap,
}

/// Whether nothing is set.
pub open spec fn nothing_set(s: SamplingConfig) -> bool {
    &&& s.temperature is None
    &&& s.top_p is None
    &&& s.top_k is None
    &&& s.seed is None
    &&& s.stop@.len() == 0
    &&& s.frequency_penalty is None
    &&& s.presence_penalty is None
    &&& s.max_tokens is None
    &&& s.extra@ == Map::<Seq<char>, JsonView>::empty()
}

impl Default for SamplingConfig {
    /// Nothing set.
    fn default() -> (r: SamplingConfig)
        ensures
            nothing_set(r),
    {
        SamplingConfig {
            temperature: None,
            top_p: None,
            top_k: None,
            seed: None,
            stop: Vec::new(),
            frequency_penalty: None,
            presence_penalty: None,
            max_tokens: None,
            extra: JsonMap::new(),
        }
    }
}

/// A body with further members merged over its own. A body that is no object
/// stays as it is.
pub open spec fn merged(body: JsonView, extra: Map<Seq<char>, JsonView>) -> JsonView {
    match body {
        JsonView::Object(m) => JsonView::Object(m.union_prefer_right(extra)),
        _ => body,
    }
}

/// Merges the members of `extra` into `body`, over those that are there
/// already.
pub fn merge_extra(body: &mut Json, extra: &JsonMap)
    ensures
        final(body)@ == merged(old(body)@, extra@),
{
    let mut taken = Json::Null;
    std::mem::swap(body, &mut taken);
    match taken {
        Json::Object(m) => {
            let mut m = m;
            m.merge(extra);
            *body = Json::Object(m);
        },
        other => {
            *body = other;
        },
    }
}

/// A list of texts as a JSON array.
pub open spec fn text_array(list: Seq<Seq<char>>) -> JsonView {
    JsonView::Array(list.map_values(|t: Seq<char>| JsonView::Str(t)))
}

/// A list of texts as a JSON array.
pub fn text_array_json(list: &Vec<String>) -> (r: Json)
    ensures
        r@ == text_array(texts(list@)),
{
    let mut out: Vec<Json> = Vec::new();
    let mut i: usize = 0;
    while i < list.len()
        invariant
            i <= list@.len(),
            out@.len() == i,
            forall|k: int| 0 <= k < i ==> json_view(#[trigger] out@[k]) == JsonView::Str(list@[k]@),
        decreases list@.len() - i,
    {
        out.push(Json::text(list[i].as_str()));
        i = i + 1;
    }
    assert(items_view(out@) =~= texts(list@).map_values(|t: Seq<char>| JsonView::Str(t)));
    Json::Array(out)
}

/// The stop sequences as they are sent: not at all where there is none.
pub open spec fn stop_json(s: SamplingConfig) -> Option<JsonView> {
    if s.stop@.len() == 0 {
        None
    } else {
        Some(text_array(texts(s.stop@)))
    }
}

impl SamplingConfig {
    /// The stop sequences as they are sent: not at all where there is none.
    pub fn stop_value(&self) -> (r: Option<Json>)
        ensures
            opt_json(r) == stop_json(*self),
    {
        if self.stop.len() == 0 {
            None
        } else {
            Some(text_array_json(&self.stop))
        }
    }
}

/// A member of `extra` is in the merged body, and every other member of the
/// body stays.
pub proof fn law_extra_overrides_and_adds(
    body: Map<Seq<char>, JsonView>,
    extra: Map<Seq<char>, JsonView>,
    key: Seq<char>,
)
    ensures
        extra.dom().contains(key) ==> merged(JsonView::Object(body), extra)->Object_0[key]
            == extra[key],
        !extra.dom().contains(key) && body.dom().contains(key) ==> merged(
            JsonView::Object(body),
            extra,
        )->Object_0[key] == body[key],
        merged(JsonView::Object(body), extra)->Object_0.dom().contains(key) == (
        body.dom().contains(key) || extra.dom().contains(key)),
        extra == Map::<Seq<char>, JsonView>::empty() ==> merged(JsonView::Object(body), extra)
            == JsonView::Object(body),
{
    assert(extra == Map::<Seq<char>, JsonView>::empty() ==> body.union_prefer_right(extra)
        =~= body);
}

/// Whether a member of a request is what a real-valued knob asks for: its
/// number where it is set to one, `null` where JSON has no form for it, and
/// nothing where it is not set.
pub open spec fn real_given(r: Option<Real>, sent: Option<JsonView>) -> bool {
    match r {
        Some(Real::Finite(n)) => sent == Some(JsonView::Number(n)),
        Some(Real::NotFinite) => sent == Some(JsonView::Null),
        None => sent is None,
    }
}

/// A list of texts is sent text for text.
pub proof fn law_text_array_is_the_texts(list: Seq<Seq<char>>)
    ensures
        text_array(list) is Array,
        text_array(list)->Array_0.len() == list.len(),
        forall|i: int|
            0 <= i < list.len() ==> #[trigger] text_array(list)->Array_0[i] == JsonView::Str(
                list[i],
            ),
{
}

} // verus!

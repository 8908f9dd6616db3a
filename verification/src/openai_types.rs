//! The request and response shapes of the OpenAI Chat Completions API.
use vstd::prelude::*;
use crate::json::{array_member, array_text, as_record, bool_text, get_array, get_opt_text, get_small, get_text, get_unsigned, items_written, key_views, lemma_member_opt, lemma_member_push, member, member_in, member_text, members_written, new_members, no_members, object_text, opt_member, opt_quoted, opt_text_member, push_member, push_opt, quote, quote_opt, quoted, record, small_member, text_member, unsigned_member, write_array, write_bool, write_object, written, Json, JsonView};
use crate::number::{decimal, u64_text};
use crate::record::{read_shape, shape_of};
use crate::text::{opt_view, views};

verus! {

/// A single message of a chat completions request.
#[derive(Debug)]
pub struct CompletionsMessage {
    pub role: String,
    pub content: Option<String>,
}

/// A chat completions request; `F` stands for the numbers of the sampling settings.
pub struct CompletionsRequest<F> {
    pub model: String,
    pub messages: Vec<CompletionsMessage>,
    pub stream: Option<bool>,
    pub temperature: Option<F>,
    pub top_p: Option<F>,
    pub max_tokens: Option<u64>,
}

/// The assistant message of a choice.
#[derive(Debug)]
pub struct CompletionsResponseMessage {
    pub role: String,
    pub content: Option<String>,
}

/// Token usage statistics.
#[derive(Debug)]
pub struct CompletionsUsage {
    pub prompt_tokens: u64,
    pub completion_tokens: u64,
    pub total_tokens: u64,
}

/// A single choice of a response.
#[derive(Debug)]
pub struct CompletionsChoice {
    pub index: u32,
    pub message: CompletionsResponseMessage,
    pub finish_reason: String,
}

/// A complete chat completions response.
#[derive(Debug)]
pub struct CompletionsResponse {
    pub id: String,
    pub object: String,
    pub model: String,
    pub choices: Vec<CompletionsChoice>,
    pub usage: CompletionsUsage,
}

/// The delta of a streaming chunk choice.
#[derive(Debug)]
pub struct CompletionsChunkDelta {
    pub role: Option<String>,
    pub content: Option<String>,
}

/// A single choice of a streaming chunk.
#[derive(Debug)]
pub struct CompletionsChunkChoice {
    pub index: u32,
    pub delta: CompletionsChunkDelta,
    pub finish_reason: Option<String>,
}

/// A streaming chat completions chunk.
#[derive(Debug)]
pub struct CompletionsChunk {
    pub id: String,
    pub object: String,
    pub model: String,
    pub choices: Vec<CompletionsChunkChoice>,
}

/// The detail of an error response.
#[derive(Debug)]
pub struct CompletionsErrorDetail {
    pub code: Option<String>,
    pub message: Option<String>,
    pub param: Option<String>,
    pub error_type: Option<String>,
}

/// An OpenAI-style error response.
#[derive(Debug)]
pub struct CompletionsError {
    pub error: CompletionsErrorDetail,
}

impl CompletionsMessage {
    /// The members in order, optional ones only where they are given.
    pub open spec fn members(&self) -> Seq<(Seq<char>, Seq<char>)> {
        no_members().push(("role"@, quoted(self.role@))) + opt_member("content"@, opt_quoted(opt_view(self.content)))
    }

    /// The JSON text.
    pub open spec fn json(&self) -> Seq<char> {
        object_text(self.members())
    }

    /// The JSON value.
    pub open spec fn object(&self) -> JsonView {
        JsonView::Object(self.members())
    }

    pub fn to_json(&self) -> (r: String)
        ensures
            r@ == self.json(),
    {
        let mut m = new_members();
        push_member(&mut m, "role", quote(&self.role));
        push_opt(&mut m, "content", quote_opt(&self.content));
        write_object(&m)
    }

    pub open spec fn all_json(v: Seq<CompletionsMessage>) -> Seq<Seq<char>> {
        v.map_values(|x: CompletionsMessage| x.json())
    }

    pub fn write_all(v: &Vec<CompletionsMessage>) -> (r: Vec<String>)
        ensures
            views(r@) == CompletionsMessage::all_json(v@),
    {
        let mut out: Vec<String> = Vec::new();
        let mut i: usize = 0;
        let ghost want = CompletionsMessage::all_json(v@);
        while i < v.len()
            invariant
                i <= v@.len(),
                want == CompletionsMessage::all_json(v@),
                views(out@) == want.take(i as int),
            decreases v@.len() - i,
        {
            let t = v[i].to_json();
            let ghost before = out@;
            out.push(t);
            assert(views(out@) =~= views(before).push(t@));
            assert(want.take(i + 1) =~= want.take(i as int).push(want[i as int]));
            i = i + 1;
        }
        assert(want.take(want.len() as int) == want);
        out
    }

    /// The values inside are texts as they are written.
    pub open spec fn canonical(&self) -> bool {
        true
    }

    /// Both hold the same.
    pub open spec fn same(&self, x: CompletionsMessage) -> bool {
        &&& self.role@ == x.role@
        &&& opt_view(self.content) == opt_view(x.content)
    }

    pub open spec fn all_canonical(v: Seq<CompletionsMessage>) -> bool {
        forall|i: int| 0 <= i < v.len() ==> (#[trigger] v[i]).canonical()
    }

    pub open spec fn all_same(v: Seq<CompletionsMessage>, w: Seq<CompletionsMessage>) -> bool {
        &&& v.len() == w.len()
        &&& forall|i: int| 0 <= i < v.len() ==> (#[trigger] v[i]).same(w[i])
    }

    /// Each member stands under its own name, once, with the text of its own value.
    pub proof fn members_stand_under_their_names(x: CompletionsMessage, depth: nat)
        requires
            x.canonical(),
        ensures
            members_written(x.members(), depth),
            member_in(x.members(), "role"@) == Some(quoted(x.role@)),
            member_in(x.members(), "content"@) == opt_quoted(opt_view(x.content)),
    {
        reveal_strlit("role");
        reveal_strlit("content");
        assert("role"@.len() != "content"@.len());
        let m0 = no_members();
        lemma_member_push(m0, "role"@, quoted(x.role@), depth);
        let m1 = m0.push(("role"@, quoted(x.role@)));
        lemma_member_opt(m1, "content"@, opt_quoted(opt_view(x.content)), depth);
        let m2 = m1 + opt_member("content"@, opt_quoted(opt_view(x.content)));
        assert(x.members() == m2);
    }

    proof fn lemma_written(x: CompletionsMessage, depth: nat)
        requires
            x.canonical(),
            depth >= 1,
        ensures
            written(x.json(), depth),
    {
        CompletionsMessage::members_stand_under_their_names(x, (depth - 1) as nat);
    }

    proof fn lemma_all_written(v: Seq<CompletionsMessage>, depth: nat)
        requires
            CompletionsMessage::all_canonical(v),
            depth >= 1,
        ensures
            items_written(CompletionsMessage::all_json(v), depth),
    {
        assert forall|i: int| 0 <= i < v.len() implies written(
            #[trigger] CompletionsMessage::all_json(v)[i],
            depth,
        ) by {
            CompletionsMessage::lemma_written(v[i], depth);
        }
    }

    /// The keys of the members, in order.
    pub open spec fn keys() -> Seq<Seq<char>> {
        seq!["role"@, "content"@]
    }

    fn key_list() -> (r: Vec<&'static str>)
        ensures
            key_views(r@) == CompletionsMessage::keys(),
    {
        let mut keys: Vec<&'static str> = Vec::new();
        keys.push("role");
        keys.push("content");
        assert(key_views(keys@) =~= CompletionsMessage::keys());
        keys
    }

    /// An object with a fitting value under each required key.
    pub open spec fn fits(j: JsonView) -> bool {
        &&& text_member(j, "role"@) is Some
        &&& opt_text_member(j, "content"@) is Some
    }

    /// A record with a fitting value for each required member.
    pub open spec fn readable(j: JsonView) -> bool {
        record(j, CompletionsMessage::keys()) is Some && CompletionsMessage::fits(record(j, CompletionsMessage::keys())->0)
    }

    /// This is what the object says.
    pub open spec fn says(&self, j: JsonView) -> bool {
        &&& text_member(j, "role"@) == Some(self.role@)
        &&& opt_text_member(j, "content"@) == Some(opt_view(self.content))
    }

    /// This is what the record says.
    pub open spec fn describes(&self, j: JsonView) -> bool {
        self.says(record(j, CompletionsMessage::keys())->0)
    }

    /// Reads a record: an object, in which members that are not known are passed over and none of the
    /// others comes twice, or an array of all members in order.
    pub fn from_value(j: &Json) -> (r: Option<CompletionsMessage>)
        ensures
            match r {
                Some(x) => CompletionsMessage::readable(j@) && x.describes(j@),
                None => !CompletionsMessage::readable(j@),
            },
            forall|x: CompletionsMessage|
                x.canonical() && j@ == #[trigger] x.object() ==> r is Some && r->0.same(x),
    {
        proof {
            assert forall|x: CompletionsMessage| x.canonical() && j@ == #[trigger] x.object() implies members_written(x.members(), 8) && member(j@, "role"@) == Some(quoted(x.role@)) && member(j@, "content"@) == opt_quoted(opt_view(x.content)) by {
                CompletionsMessage::members_stand_under_their_names(x, 8);
            }
        }
        let o = match as_record(j, &CompletionsMessage::key_list()) {
            Some(o) => o,
            None => {
                return None;
            },
        };
        let role = match get_text(&o, "role") {
            Some(x) => x,
            None => {
                return None;
            },
        };
        let content = match get_opt_text(&o, "content") {
            Some(x) => x,
            None => {
                return None;
            },
        };
        Some(CompletionsMessage { role, content })
    }

    /// Reads JSON text; what was written is read back.
    pub fn from_json(text: &str) -> (r: Option<CompletionsMessage>)
        ensures
            match r {
                Some(x) => CompletionsMessage::readable(shape_of(text@)) && x.describes(shape_of(text@)),
                None => !CompletionsMessage::readable(shape_of(text@)),
            },
            forall|x: CompletionsMessage|
                x.canonical() && text@ == #[trigger] x.json() ==> r is Some && r->0.same(x),
    {
        proof {
            assert forall|x: CompletionsMessage| x.canonical() && text@ == #[trigger] x.json() implies members_written(
                x.members(),
                8,
            ) && x.object() == JsonView::Object(x.members()) by {
                CompletionsMessage::members_stand_under_their_names(x, 8);
            }
        }
        let j = read_shape(text);
        CompletionsMessage::from_value(&j)
    }

    pub open spec fn all_readable(items: Seq<Seq<char>>) -> bool {
        forall|i: int| 0 <= i < items.len() ==> CompletionsMessage::readable(shape_of(#[trigger] items[i]))
    }

    pub open spec fn all_described(v: Seq<CompletionsMessage>, items: Seq<Seq<char>>) -> bool {
        &&& v.len() == items.len()
        &&& forall|i: int| 0 <= i < v.len() ==> (#[trigger] v[i]).describes(shape_of(items[i]))
    }

    pub fn read_all(items: &Vec<String>) -> (r: Option<Vec<CompletionsMessage>>)
        ensures
            match r {
                Some(v) => CompletionsMessage::all_readable(views(items@)) && CompletionsMessage::all_described(
                    v@,
                    views(items@),
                ),
                None => !CompletionsMessage::all_readable(views(items@)),
            },
            forall|v: Seq<CompletionsMessage>|
                CompletionsMessage::all_canonical(v) && views(items@) == #[trigger] CompletionsMessage::all_json(v) ==> r is Some
                    && CompletionsMessage::all_same(r->0@, v),
    {
        let mut out: Vec<CompletionsMessage> = Vec::new();
        let mut i: usize = 0;
        while i < items.len()
            invariant
                i <= items@.len(),
                out@.len() == i,
                forall|k: int|
                    0 <= k < i ==> CompletionsMessage::readable(shape_of(#[trigger] views(items@)[k])),
                forall|k: int|
                    0 <= k < i ==> (#[trigger] out@[k]).describes(shape_of(views(items@)[k])),
                forall|v: Seq<CompletionsMessage>, k: int|
                    CompletionsMessage::all_canonical(v) && views(items@) == #[trigger] CompletionsMessage::all_json(v) && 0 <= k < i
                        ==> (#[trigger] out@[k]).same(v[k]),
            decreases items@.len() - i,
        {
            let j = read_shape(&items[i]);
            assert(views(items@)[i as int] == items@[i as int]@);
            proof {
                assert forall|v: Seq<CompletionsMessage>|
                    CompletionsMessage::all_canonical(v) && views(items@) == #[trigger] CompletionsMessage::all_json(v) implies j@
                    == v[i as int].object() && v[i as int].canonical() by {
                    assert(CompletionsMessage::all_json(v).len() == v.len());
                    assert(views(items@).len() == items@.len());
                    CompletionsMessage::members_stand_under_their_names(v[i as int], 8);
                    assert(CompletionsMessage::all_json(v)[i as int] == v[i as int].json());
                }
            }
            match CompletionsMessage::from_value(&j) {
                Some(x) => {
                    out.push(x);
                },
                None => {
                    return None;
                },
            }
            i = i + 1;
        }
        Some(out)
    }
}

impl CompletionsRequest<String> {
    /// The JSON text: the members in order, optional ones only where they are given.
    pub open spec fn json(&self) -> Seq<char> {
        object_text(((((no_members().push(("model"@, quoted(self.model@))).push(("messages"@, array_text(CompletionsMessage::all_json(self.messages@)))) + opt_member("stream"@, match self.stream { Some(b) => Some(bool_text(b)), None => None })) + opt_member("temperature"@, opt_view(self.temperature))) + opt_member("top_p"@, opt_view(self.top_p))) + opt_member("max_tokens"@, match self.max_tokens { Some(n) => Some(decimal(n as nat)), None => None })))
    }

    pub fn to_json(&self) -> (r: String)
        ensures
            r@ == self.json(),
    {
        let mut m = new_members();
        push_member(&mut m, "model", quote(&self.model));
        let items = CompletionsMessage::write_all(&self.messages);
        push_member(&mut m, "messages", write_array(&items));
        push_opt(&mut m, "stream", match self.stream { Some(b) => Some(write_bool(b)), None => None });
        push_opt(&mut m, "temperature", crate::text::copy_opt(&self.temperature));
        push_opt(&mut m, "top_p", crate::text::copy_opt(&self.top_p));
        push_opt(&mut m, "max_tokens", match self.max_tokens { Some(n) => Some(u64_text(n)), None => None });
        write_object(&m)
    }
}

impl CompletionsResponseMessage {
    /// The members in order, optional ones only where they are given.
    pub open spec fn members(&self) -> Seq<(Seq<char>, Seq<char>)> {
        no_members().push(("role"@, quoted(self.role@))) + opt_member("content"@, opt_quoted(opt_view(self.content)))
    }

    /// The JSON text.
    pub open spec fn json(&self) -> Seq<char> {
        object_text(self.members())
    }

    /// The JSON value.
    pub open spec fn object(&self) -> JsonView {
        JsonView::Object(self.members())
    }

    pub fn to_json(&self) -> (r: String)
        ensures
            r@ == self.json(),
    {
        let mut m = new_members();
        push_member(&mut m, "role", quote(&self.role));
        push_opt(&mut m, "content", quote_opt(&self.content));
        write_object(&m)
    }

    /// The values inside are texts as they are written.
    pub open spec fn canonical(&self) -> bool {
        true
    }

    /// Both hold the same.
    pub open spec fn same(&self, x: CompletionsResponseMessage) -> bool {
        &&& self.role@ == x.role@
        &&& opt_view(self.content) == opt_view(x.content)
    }

    /// Each member stands under its own name, once, with the text of its own value.
    pub proof fn members_stand_under_their_names(x: CompletionsResponseMessage, depth: nat)
        requires
            x.canonical(),
        ensures
            members_written(x.members(), depth),
            member_in(x.members(), "role"@) == Some(quoted(x.role@)),
            member_in(x.members(), "content"@) == opt_quoted(opt_view(x.content)),
    {
        reveal_strlit("role");
        reveal_strlit("content");
        assert("role"@.len() != "content"@.len());
        let m0 = no_members();
        lemma_member_push(m0, "role"@, quoted(x.role@), depth);
        let m1 = m0.push(("role"@, quoted(x.role@)));
        lemma_member_opt(m1, "content"@, opt_quoted(opt_view(x.content)), depth);
        let m2 = m1 + opt_member("content"@, opt_quoted(opt_view(x.content)));
        assert(x.members() == m2);
    }

    proof fn lemma_written(x: CompletionsResponseMessage, depth: nat)
        requires
            x.canonical(),
            depth >= 1,
        ensures
            written(x.json(), depth),
    {
        CompletionsResponseMessage::members_stand_under_their_names(x, (depth - 1) as nat);
    }

    /// The keys of the members, in order.
    pub open spec fn keys() -> Seq<Seq<char>> {
        seq!["role"@, "content"@]
    }

    fn key_list() -> (r: Vec<&'static str>)
        ensures
            key_views(r@) == CompletionsResponseMessage::keys(),
    {
        let mut keys: Vec<&'static str> = Vec::new();
        keys.push("role");
        keys.push("content");
        assert(key_views(keys@) =~= CompletionsResponseMessage::keys());
        keys
    }

    /// An object with a fitting value under each required key.
    pub open spec fn fits(j: JsonView) -> bool {
        &&& text_member(j, "role"@) is Some
        &&& opt_text_member(j, "content"@) is Some
    }

    /// A record with a fitting value for each required member.
    pub open spec fn readable(j: JsonView) -> bool {
        record(j, CompletionsResponseMessage::keys()) is Some && CompletionsResponseMessage::fits(record(j, CompletionsResponseMessage::keys())->0)
    }

    /// This is what the object says.
    pub open spec fn says(&self, j: JsonView) -> bool {
        &&& text_member(j, "role"@) == Some(self.role@)
        &&& opt_text_member(j, "content"@) == Some(opt_view(self.content))
    }

    /// This is what the record says.
    pub open spec fn describes(&self, j: JsonView) -> bool {
        self.says(record(j, CompletionsResponseMessage::keys())->0)
    }

    /// Reads a record: an object, in which members that are not known are passed over and none of the
    /// others comes twice, or an array of all members in order.
    pub fn from_value(j: &Json) -> (r: Option<CompletionsResponseMessage>)
        ensures
            match r {
                Some(x) => CompletionsResponseMessage::readable(j@) && x.describes(j@),
                None => !CompletionsResponseMessage::readable(j@),
            },
            forall|x: CompletionsResponseMessage|
                x.canonical() && j@ == #[trigger] x.object() ==> r is Some && r->0.same(x),
    {
        proof {
            assert forall|x: CompletionsResponseMessage| x.canonical() && j@ == #[trigger] x.object() implies members_written(x.members(), 8) && member(j@, "role"@) == Some(quoted(x.role@)) && member(j@, "content"@) == opt_quoted(opt_view(x.content)) by {
                CompletionsResponseMessage::members_stand_under_their_names(x, 8);
            }
        }
        let o = match as_record(j, &CompletionsResponseMessage::key_list()) {
            Some(o) => o,
            None => {
                return None;
            },
        };
        let role = match get_text(&o, "role") {
            Some(x) => x,
            None => {
                return None;
            },
        };
        let content = match get_opt_text(&o, "content") {
            Some(x) => x,
            None => {
                return None;
            },
        };
        Some(CompletionsResponseMessage { role, content })
    }

    /// Reads JSON text; what was written is read back.
    pub fn from_json(text: &str) -> (r: Option<CompletionsResponseMessage>)
        ensures
            match r {
                Some(x) => CompletionsResponseMessage::readable(shape_of(text@)) && x.describes(shape_of(text@)),
                None => !CompletionsResponseMessage::readable(shape_of(text@)),
            },
            forall|x: CompletionsResponseMessage|
                x.canonical() && text@ == #[trigger] x.json() ==> r is Some && r->0.same(x),
    {
        proof {
            assert forall|x: CompletionsResponseMessage| x.canonical() && text@ == #[trigger] x.json() implies members_written(
                x.members(),
                8,
            ) && x.object() == JsonView::Object(x.members()) by {
                CompletionsResponseMessage::members_stand_under_their_names(x, 8);
            }
        }
        let j = read_shape(text);
        CompletionsResponseMessage::from_value(&j)
    }
}

impl CompletionsUsage {
    /// The members in order, optional ones only where they are given.
    pub open spec fn members(&self) -> Seq<(Seq<char>, Seq<char>)> {
        no_members().push(("prompt_tokens"@, decimal(self.prompt_tokens as nat))).push(("completion_tokens"@, decimal(self.completion_tokens as nat))).push(("total_tokens"@, decimal(self.total_tokens as nat)))
    }

    /// The JSON text.
    pub open spec fn json(&self) -> Seq<char> {
        object_text(self.members())
    }

    /// The JSON value.
    pub open spec fn object(&self) -> JsonView {
        JsonView::Object(self.members())
    }

    pub fn to_json(&self) -> (r: String)
        ensures
            r@ == self.json(),
    {
        let mut m = new_members();
        push_member(&mut m, "prompt_tokens", u64_text(self.prompt_tokens));
        push_member(&mut m, "completion_tokens", u64_text(self.completion_tokens));
        push_member(&mut m, "total_tokens", u64_text(self.total_tokens));
        write_object(&m)
    }

    /// The values inside are texts as they are written.
    pub open spec fn canonical(&self) -> bool {
        true
    }

    /// Both hold the same.
    pub open spec fn same(&self, x: CompletionsUsage) -> bool {
        &&& self.prompt_tokens == x.prompt_tokens
        &&& self.completion_tokens == x.completion_tokens
        &&& self.total_tokens == x.total_tokens
    }

    /// Each member stands under its own name, once, with the text of its own value.
    pub proof fn members_stand_under_their_names(x: CompletionsUsage, depth: nat)
        requires
            x.canonical(),
        ensures
            members_written(x.members(), depth),
            member_in(x.members(), "prompt_tokens"@) == Some(decimal(x.prompt_tokens as nat)),
            member_in(x.members(), "completion_tokens"@) == Some(decimal(x.completion_tokens as nat)),
            member_in(x.members(), "total_tokens"@) == Some(decimal(x.total_tokens as nat)),
    {
        reveal_strlit("prompt_tokens");
        reveal_strlit("completion_tokens");
        reveal_strlit("total_tokens");
        assert("prompt_tokens"@.len() != "completion_tokens"@.len());
        assert("prompt_tokens"@.len() != "total_tokens"@.len());
        assert("completion_tokens"@.len() != "total_tokens"@.len());
        let m0 = no_members();
        lemma_member_push(m0, "prompt_tokens"@, decimal(x.prompt_tokens as nat), depth);
        let m1 = m0.push(("prompt_tokens"@, decimal(x.prompt_tokens as nat)));
        lemma_member_push(m1, "completion_tokens"@, decimal(x.completion_tokens as nat), depth);
        let m2 = m1.push(("completion_tokens"@, decimal(x.completion_tokens as nat)));
        lemma_member_push(m2, "total_tokens"@, decimal(x.total_tokens as nat), depth);
        let m3 = m2.push(("total_tokens"@, decimal(x.total_tokens as nat)));
        assert(x.members() == m3);
    }

    proof fn lemma_written(x: CompletionsUsage, depth: nat)
        requires
            x.canonical(),
            depth >= 1,
        ensures
            written(x.json(), depth),
    {
        CompletionsUsage::members_stand_under_their_names(x, (depth - 1) as nat);
    }

    /// The keys of the members, in order.
    pub open spec fn keys() -> Seq<Seq<char>> {
        seq!["prompt_tokens"@, "completion_tokens"@, "total_tokens"@]
    }

    fn key_list() -> (r: Vec<&'static str>)
        ensures
            key_views(r@) == CompletionsUsage::keys(),
    {
        let mut keys: Vec<&'static str> = Vec::new();
        keys.push("prompt_tokens");
        keys.push("completion_tokens");
        keys.push("total_tokens");
        assert(key_views(keys@) =~= CompletionsUsage::keys());
        keys
    }

    /// An object with a fitting value under each required key.
    pub open spec fn fits(j: JsonView) -> bool {
        &&& unsigned_member(j, "prompt_tokens"@) is Some
        &&& unsigned_member(j, "completion_tokens"@) is Some
        &&& unsigned_member(j, "total_tokens"@) is Some
    }

    /// A record with a fitting value for each required member.
    pub open spec fn readable(j: JsonView) -> bool {
        record(j, CompletionsUsage::keys()) is Some && CompletionsUsage::fits(record(j, CompletionsUsage::keys())->0)
    }

    /// This is what the object says.
    pub open spec fn says(&self, j: JsonView) -> bool {
        &&& unsigned_member(j, "prompt_tokens"@) == Some(self.prompt_tokens)
        &&& unsigned_member(j, "completion_tokens"@) == Some(self.completion_tokens)
        &&& unsigned_member(j, "total_tokens"@) == Some(self.total_tokens)
    }

    /// This is what the record says.
    pub open spec fn describes(&self, j: JsonView) -> bool {
        self.says(record(j, CompletionsUsage::keys())->0)
    }

    /// Reads a record: an object, in which members that are not known are passed over and none of the
    /// others comes twice, or an array of all members in order.
    pub fn from_value(j: &Json) -> (r: Option<CompletionsUsage>)
        ensures
            match r {
                Some(x) => CompletionsUsage::readable(j@) && x.describes(j@),
                None => !CompletionsUsage::readable(j@),
            },
            forall|x: CompletionsUsage|
                x.canonical() && j@ == #[trigger] x.object() ==> r is Some && r->0.same(x),
    {
        proof {
            assert forall|x: CompletionsUsage| x.canonical() && j@ == #[trigger] x.object() implies members_written(x.members(), 8) && member(j@, "prompt_tokens"@) == Some(decimal(x.prompt_tokens as nat)) && member(j@, "completion_tokens"@) == Some(decimal(x.completion_tokens as nat)) && member(j@, "total_tokens"@) == Some(decimal(x.total_tokens as nat)) by {
                CompletionsUsage::members_stand_under_their_names(x, 8);
            }
        }
        let o = match as_record(j, &CompletionsUsage::key_list()) {
            Some(o) => o,
            None => {
                return None;
            },
        };
        let prompt_tokens = match get_unsigned(&o, "prompt_tokens") {
            Some(x) => x,
            None => {
                return None;
            },
        };
        let completion_tokens = match get_unsigned(&o, "completion_tokens") {
            Some(x) => x,
            None => {
                return None;
            },
        };
        let total_tokens = match get_unsigned(&o, "total_tokens") {
            Some(x) => x,
            None => {
                return None;
            },
        };
        Some(CompletionsUsage { prompt_tokens, completion_tokens, total_tokens })
    }

    /// Reads JSON text; what was written is read back.
    pub fn from_json(text: &str) -> (r: Option<CompletionsUsage>)
        ensures
            match r {
                Some(x) => CompletionsUsage::readable(shape_of(text@)) && x.describes(shape_of(text@)),
                None => !CompletionsUsage::readable(shape_of(text@)),
            },
            forall|x: CompletionsUsage|
                x.canonical() && text@ == #[trigger] x.json() ==> r is Some && r->0.same(x),
    {
        proof {
            assert forall|x: CompletionsUsage| x.canonical() && text@ == #[trigger] x.json() implies members_written(
                x.members(),
                8,
            ) && x.object() == JsonView::Object(x.members()) by {
                CompletionsUsage::members_stand_under_their_names(x, 8);
            }
        }
        let j = read_shape(text);
        CompletionsUsage::from_value(&j)
    }
}

impl CompletionsChoice {
    /// The members in order, optional ones only where they are given.
    pub open spec fn members(&self) -> Seq<(Seq<char>, Seq<char>)> {
        no_members().push(("index"@, decimal(self.index as nat))).push(("message"@, self.message.json())).push(("finish_reason"@, quoted(self.finish_reason@)))
    }

    /// The JSON text.
    pub open spec fn json(&self) -> Seq<char> {
        object_text(self.members())
    }

    /// The JSON value.
    pub open spec fn object(&self) -> JsonView {
        JsonView::Object(self.members())
    }

    pub fn to_json(&self) -> (r: String)
        ensures
            r@ == self.json(),
    {
        let mut m = new_members();
        push_member(&mut m, "index", u64_text(self.index as u64));
        push_member(&mut m, "message", self.message.to_json());
        push_member(&mut m, "finish_reason", quote(&self.finish_reason));
        write_object(&m)
    }

    pub open spec fn all_json(v: Seq<CompletionsChoice>) -> Seq<Seq<char>> {
        v.map_values(|x: CompletionsChoice| x.json())
    }

    pub fn write_all(v: &Vec<CompletionsChoice>) -> (r: Vec<String>)
        ensures
            views(r@) == CompletionsChoice::all_json(v@),
    {
        let mut out: Vec<String> = Vec::new();
        let mut i: usize = 0;
        let ghost want = CompletionsChoice::all_json(v@);
        while i < v.len()
            invariant
                i <= v@.len(),
                want == CompletionsChoice::all_json(v@),
                views(out@) == want.take(i as int),
            decreases v@.len() - i,
        {
            let t = v[i].to_json();
            let ghost before = out@;
            out.push(t);
            assert(views(out@) =~= views(before).push(t@));
            assert(want.take(i + 1) =~= want.take(i as int).push(want[i as int]));
            i = i + 1;
        }
        assert(want.take(want.len() as int) == want);
        out
    }

    /// The values inside are texts as they are written.
    pub open spec fn canonical(&self) -> bool {
        &&& self.message.canonical()
    }

    /// Both hold the same.
    pub open spec fn same(&self, x: CompletionsChoice) -> bool {
        &&& self.index == x.index
        &&& self.message.same(x.message)
        &&& self.finish_reason@ == x.finish_reason@
    }

    pub open spec fn all_canonical(v: Seq<CompletionsChoice>) -> bool {
        forall|i: int| 0 <= i < v.len() ==> (#[trigger] v[i]).canonical()
    }

    pub open spec fn all_same(v: Seq<CompletionsChoice>, w: Seq<CompletionsChoice>) -> bool {
        &&& v.len() == w.len()
        &&& forall|i: int| 0 <= i < v.len() ==> (#[trigger] v[i]).same(w[i])
    }

    /// Each member stands under its own name, once, with the text of its own value.
    pub proof fn members_stand_under_their_names(x: CompletionsChoice, depth: nat)
        requires
            x.canonical(),
            depth >= 1,
        ensures
            members_written(x.members(), depth),
            member_in(x.members(), "index"@) == Some(decimal(x.index as nat)),
            member_in(x.members(), "message"@) == Some(x.message.json()),
            member_in(x.members(), "finish_reason"@) == Some(quoted(x.finish_reason@)),
    {
        reveal_strlit("index");
        reveal_strlit("message");
        reveal_strlit("finish_reason");
        assert("index"@.len() != "message"@.len());
        assert("index"@.len() != "finish_reason"@.len());
        assert("message"@.len() != "finish_reason"@.len());
        let m0 = no_members();
        assert(written(decimal((x.index as u64) as nat), depth));
        lemma_member_push(m0, "index"@, decimal(x.index as nat), depth);
        let m1 = m0.push(("index"@, decimal(x.index as nat)));
        CompletionsResponseMessage::lemma_written(x.message, depth);
        lemma_member_push(m1, "message"@, x.message.json(), depth);
        let m2 = m1.push(("message"@, x.message.json()));
        lemma_member_push(m2, "finish_reason"@, quoted(x.finish_reason@), depth);
        let m3 = m2.push(("finish_reason"@, quoted(x.finish_reason@)));
        assert(x.members() == m3);
    }

    proof fn lemma_written(x: CompletionsChoice, depth: nat)
        requires
            x.canonical(),
            depth >= 2,
        ensures
            written(x.json(), depth),
    {
        CompletionsChoice::members_stand_under_their_names(x, (depth - 1) as nat);
    }

    proof fn lemma_all_written(v: Seq<CompletionsChoice>, depth: nat)
        requires
            CompletionsChoice::all_canonical(v),
            depth >= 2,
        ensures
            items_written(CompletionsChoice::all_json(v), depth),
    {
        assert forall|i: int| 0 <= i < v.len() implies written(
            #[trigger] CompletionsChoice::all_json(v)[i],
            depth,
        ) by {
            CompletionsChoice::lemma_written(v[i], depth);
        }
    }

    /// The keys of the members, in order.
    pub open spec fn keys() -> Seq<Seq<char>> {
        seq!["index"@, "message"@, "finish_reason"@]
    }

    fn key_list() -> (r: Vec<&'static str>)
        ensures
            key_views(r@) == CompletionsChoice::keys(),
    {
        let mut keys: Vec<&'static str> = Vec::new();
        keys.push("index");
        keys.push("message");
        keys.push("finish_reason");
        assert(key_views(keys@) =~= CompletionsChoice::keys());
        keys
    }

    /// An object with a fitting value under each required key.
    pub open spec fn fits(j: JsonView) -> bool {
        &&& small_member(j, "index"@) is Some
        &&& member(j, "message"@) is Some && CompletionsResponseMessage::readable(shape_of(member(j, "message"@)->0))
        &&& text_member(j, "finish_reason"@) is Some
    }

    /// A record with a fitting value for each required member.
    pub open spec fn readable(j: JsonView) -> bool {
        record(j, CompletionsChoice::keys()) is Some && CompletionsChoice::fits(record(j, CompletionsChoice::keys())->0)
    }

    /// This is what the object says.
    pub open spec fn says(&self, j: JsonView) -> bool {
        &&& small_member(j, "index"@) == Some(self.index)
        &&& self.message.describes(shape_of(member(j, "message"@)->0))
        &&& text_member(j, "finish_reason"@) == Some(self.finish_reason@)
    }

    /// This is what the record says.
    pub open spec fn describes(&self, j: JsonView) -> bool {
        self.says(record(j, CompletionsChoice::keys())->0)
    }

    /// Reads a record: an object, in which members that are not known are passed over and none of the
    /// others comes twice, or an array of all members in order.
    pub fn from_value(j: &Json) -> (r: Option<CompletionsChoice>)
        ensures
            match r {
                Some(x) => CompletionsChoice::readable(j@) && x.describes(j@),
                None => !CompletionsChoice::readable(j@),
            },
            forall|x: CompletionsChoice|
                x.canonical() && j@ == #[trigger] x.object() ==> r is Some && r->0.same(x),
    {
        proof {
            assert forall|x: CompletionsChoice| x.canonical() && j@ == #[trigger] x.object() implies members_written(x.members(), 8) && member(j@, "index"@) == Some(decimal(x.index as nat)) && member(j@, "message"@) == Some(x.message.json()) && member(j@, "finish_reason"@) == Some(quoted(x.finish_reason@)) && members_written(x.message.members(), 8) && x.message.object() == JsonView::Object(x.message.members()) by {
                CompletionsChoice::members_stand_under_their_names(x, 8);
                CompletionsResponseMessage::members_stand_under_their_names(x.message, 8);
            }
        }
        let o = match as_record(j, &CompletionsChoice::key_list()) {
            Some(o) => o,
            None => {
                return None;
            },
        };
        let index = match get_small(&o, "index") {
            Some(x) => x,
            None => {
                return None;
            },
        };
        let message = match member_text(&o, "message") {
            Some(t) => match CompletionsResponseMessage::from_value(&read_shape(&t)) {
                Some(x) => x,
                None => {
                    return None;
                },
            },
            None => {
                return None;
            },
        };
        let finish_reason = match get_text(&o, "finish_reason") {
            Some(x) => x,
            None => {
                return None;
            },
        };
        Some(CompletionsChoice { index, message, finish_reason })
    }

    /// Reads JSON text; what was written is read back.
    pub fn from_json(text: &str) -> (r: Option<CompletionsChoice>)
        ensures
            match r {
                Some(x) => CompletionsChoice::readable(shape_of(text@)) && x.describes(shape_of(text@)),
                None => !CompletionsChoice::readable(shape_of(text@)),
            },
            forall|x: CompletionsChoice|
                x.canonical() && text@ == #[trigger] x.json() ==> r is Some && r->0.same(x),
    {
        proof {
            assert forall|x: CompletionsChoice| x.canonical() && text@ == #[trigger] x.json() implies members_written(
                x.members(),
                8,
            ) && x.object() == JsonView::Object(x.members()) by {
                CompletionsChoice::members_stand_under_their_names(x, 8);
            }
        }
        let j = read_shape(text);
        CompletionsChoice::from_value(&j)
    }

    pub open spec fn all_readable(items: Seq<Seq<char>>) -> bool {
        forall|i: int| 0 <= i < items.len() ==> CompletionsChoice::readable(shape_of(#[trigger] items[i]))
    }

    pub open spec fn all_described(v: Seq<CompletionsChoice>, items: Seq<Seq<char>>) -> bool {
        &&& v.len() == items.len()
        &&& forall|i: int| 0 <= i < v.len() ==> (#[trigger] v[i]).describes(shape_of(items[i]))
    }

    pub fn read_all(items: &Vec<String>) -> (r: Option<Vec<CompletionsChoice>>)
        ensures
            match r {
                Some(v) => CompletionsChoice::all_readable(views(items@)) && CompletionsChoice::all_described(
                    v@,
                    views(items@),
                ),
                None => !CompletionsChoice::all_readable(views(items@)),
            },
            forall|v: Seq<CompletionsChoice>|
                CompletionsChoice::all_canonical(v) && views(items@) == #[trigger] CompletionsChoice::all_json(v) ==> r is Some
                    && CompletionsChoice::all_same(r->0@, v),
    {
        let mut out: Vec<CompletionsChoice> = Vec::new();
        let mut i: usize = 0;
        while i < items.len()
            invariant
                i <= items@.len(),
                out@.len() == i,
                forall|k: int|
                    0 <= k < i ==> CompletionsChoice::readable(shape_of(#[trigger] views(items@)[k])),
                forall|k: int|
                    0 <= k < i ==> (#[trigger] out@[k]).describes(shape_of(views(items@)[k])),
                forall|v: Seq<CompletionsChoice>, k: int|
                    CompletionsChoice::all_canonical(v) && views(items@) == #[trigger] CompletionsChoice::all_json(v) && 0 <= k < i
                        ==> (#[trigger] out@[k]).same(v[k]),
            decreases items@.len() - i,
        {
            let j = read_shape(&items[i]);
            assert(views(items@)[i as int] == items@[i as int]@);
            proof {
                assert forall|v: Seq<CompletionsChoice>|
                    CompletionsChoice::all_canonical(v) && views(items@) == #[trigger] CompletionsChoice::all_json(v) implies j@
                    == v[i as int].object() && v[i as int].canonical() by {
                    assert(CompletionsChoice::all_json(v).len() == v.len());
                    assert(views(items@).len() == items@.len());
                    CompletionsChoice::members_stand_under_their_names(v[i as int], 8);
                    assert(CompletionsChoice::all_json(v)[i as int] == v[i as int].json());
                }
            }
            match CompletionsChoice::from_value(&j) {
                Some(x) => {
                    out.push(x);
                },
                None => {
                    return None;
                },
            }
            i = i + 1;
        }
        Some(out)
    }
}

impl CompletionsResponse {
    /// The members in order, optional ones only where they are given.
    pub open spec fn members(&self) -> Seq<(Seq<char>, Seq<char>)> {
        no_members().push(("id"@, quoted(self.id@))).push(("object"@, quoted(self.object@))).push(("model"@, quoted(self.model@))).push(("choices"@, array_text(CompletionsChoice::all_json(self.choices@)))).push(("usage"@, self.usage.json()))
    }

    /// The JSON text.
    pub open spec fn json(&self) -> Seq<char> {
        object_text(self.members())
    }

    /// The JSON value.
    pub open spec fn object(&self) -> JsonView {
        JsonView::Object(self.members())
    }

    pub fn to_json(&self) -> (r: String)
        ensures
            r@ == self.json(),
    {
        let mut m = new_members();
        push_member(&mut m, "id", quote(&self.id));
        push_member(&mut m, "object", quote(&self.object));
        push_member(&mut m, "model", quote(&self.model));
        let items = CompletionsChoice::write_all(&self.choices);
        push_member(&mut m, "choices", write_array(&items));
        push_member(&mut m, "usage", self.usage.to_json());
        write_object(&m)
    }

    /// The values inside are texts as they are written.
    pub open spec fn canonical(&self) -> bool {
        &&& CompletionsChoice::all_canonical(self.choices@)
        &&& self.usage.canonical()
    }

    /// Both hold the same.
    pub open spec fn same(&self, x: CompletionsResponse) -> bool {
        &&& self.id@ == x.id@
        &&& self.object@ == x.object@
        &&& self.model@ == x.model@
        &&& CompletionsChoice::all_same(self.choices@, x.choices@)
        &&& self.usage.same(x.usage)
    }

    /// Each member stands under its own name, once, with the text of its own value.
    pub proof fn members_stand_under_their_names(x: CompletionsResponse, depth: nat)
        requires
            x.canonical(),
            depth >= 3,
        ensures
            members_written(x.members(), depth),
            member_in(x.members(), "id"@) == Some(quoted(x.id@)),
            member_in(x.members(), "object"@) == Some(quoted(x.object@)),
            member_in(x.members(), "model"@) == Some(quoted(x.model@)),
            member_in(x.members(), "choices"@) == Some(array_text(CompletionsChoice::all_json(x.choices@))),
            member_in(x.members(), "usage"@) == Some(x.usage.json()),
    {
        reveal_strlit("id");
        reveal_strlit("object");
        reveal_strlit("model");
        reveal_strlit("choices");
        reveal_strlit("usage");
        assert("id"@.len() != "object"@.len());
        assert("id"@.len() != "model"@.len());
        assert("id"@.len() != "choices"@.len());
        assert("id"@.len() != "usage"@.len());
        assert("object"@.len() != "model"@.len());
        assert("object"@.len() != "choices"@.len());
        assert("object"@.len() != "usage"@.len());
        assert("model"@.len() != "choices"@.len());
        assert("model"@[0] != "usage"@[0]);
        assert("choices"@.len() != "usage"@.len());
        let m0 = no_members();
        lemma_member_push(m0, "id"@, quoted(x.id@), depth);
        let m1 = m0.push(("id"@, quoted(x.id@)));
        lemma_member_push(m1, "object"@, quoted(x.object@), depth);
        let m2 = m1.push(("object"@, quoted(x.object@)));
        lemma_member_push(m2, "model"@, quoted(x.model@), depth);
        let m3 = m2.push(("model"@, quoted(x.model@)));
        CompletionsChoice::lemma_all_written(x.choices@, (depth - 1) as nat);
        assert(written(array_text(CompletionsChoice::all_json(x.choices@)), depth));
        lemma_member_push(m3, "choices"@, array_text(CompletionsChoice::all_json(x.choices@)), depth);
        let m4 = m3.push(("choices"@, array_text(CompletionsChoice::all_json(x.choices@))));
        CompletionsUsage::lemma_written(x.usage, depth);
        lemma_member_push(m4, "usage"@, x.usage.json(), depth);
        let m5 = m4.push(("usage"@, x.usage.json()));
        assert(x.members() == m5);
    }

    proof fn lemma_written(x: CompletionsResponse, depth: nat)
        requires
            x.canonical(),
            depth >= 4,
        ensures
            written(x.json(), depth),
    {
        CompletionsResponse::members_stand_under_their_names(x, (depth - 1) as nat);
    }

    /// The keys of the members, in order.
    pub open spec fn keys() -> Seq<Seq<char>> {
        seq!["id"@, "object"@, "model"@, "choices"@, "usage"@]
    }

    fn key_list() -> (r: Vec<&'static str>)
        ensures
            key_views(r@) == CompletionsResponse::keys(),
    {
        let mut keys: Vec<&'static str> = Vec::new();
        keys.push("id");
        keys.push("object");
        keys.push("model");
        keys.push("choices");
        keys.push("usage");
        assert(key_views(keys@) =~= CompletionsResponse::keys());
        keys
    }

    /// An object with a fitting value under each required key.
    pub open spec fn fits(j: JsonView) -> bool {
        &&& text_member(j, "id"@) is Some
        &&& text_member(j, "object"@) is Some
        &&& text_member(j, "model"@) is Some
        &&& array_member(j, "choices"@) is Some && CompletionsChoice::all_readable(array_member(j, "choices"@)->0)
        &&& member(j, "usage"@) is Some && CompletionsUsage::readable(shape_of(member(j, "usage"@)->0))
    }

    /// A record with a fitting value for each required member.
    pub open spec fn readable(j: JsonView) -> bool {
        record(j, CompletionsResponse::keys()) is Some && CompletionsResponse::fits(record(j, CompletionsResponse::keys())->0)
    }

    /// This is what the object says.
    pub open spec fn says(&self, j: JsonView) -> bool {
        &&& text_member(j, "id"@) == Some(self.id@)
        &&& text_member(j, "object"@) == Some(self.object@)
        &&& text_member(j, "model"@) == Some(self.model@)
        &&& CompletionsChoice::all_described(self.choices@, array_member(j, "choices"@)->0)
        &&& self.usage.describes(shape_of(member(j, "usage"@)->0))
    }

    /// This is what the record says.
    pub open spec fn describes(&self, j: JsonView) -> bool {
        self.says(record(j, CompletionsResponse::keys())->0)
    }

    /// Reads a record: an object, in which members that are not known are passed over and none of the
    /// others comes twice, or an array of all members in order.
    pub fn from_value(j: &Json) -> (r: Option<CompletionsResponse>)
        ensures
            match r {
                Some(x) => CompletionsResponse::readable(j@) && x.describes(j@),
                None => !CompletionsResponse::readable(j@),
            },
            forall|x: CompletionsResponse|
                x.canonical() && j@ == #[trigger] x.object() ==> r is Some && r->0.same(x),
    {
        proof {
            assert forall|x: CompletionsResponse| x.canonical() && j@ == #[trigger] x.object() implies members_written(x.members(), 8) && member(j@, "id"@) == Some(quoted(x.id@)) && member(j@, "object"@) == Some(quoted(x.object@)) && member(j@, "model"@) == Some(quoted(x.model@)) && member(j@, "choices"@) == Some(array_text(CompletionsChoice::all_json(x.choices@))) && member(j@, "usage"@) == Some(x.usage.json()) && members_written(x.usage.members(), 8) && x.usage.object() == JsonView::Object(x.usage.members()) && items_written(CompletionsChoice::all_json(x.choices@), 8) by {
                CompletionsResponse::members_stand_under_their_names(x, 8);
                CompletionsUsage::members_stand_under_their_names(x.usage, 8);
                CompletionsChoice::lemma_all_written(x.choices@, 8);
            }
        }
        let o = match as_record(j, &CompletionsResponse::key_list()) {
            Some(o) => o,
            None => {
                return None;
            },
        };
        let id = match get_text(&o, "id") {
            Some(x) => x,
            None => {
                return None;
            },
        };
        let object = match get_text(&o, "object") {
            Some(x) => x,
            None => {
                return None;
            },
        };
        let model = match get_text(&o, "model") {
            Some(x) => x,
            None => {
                return None;
            },
        };
        let choices = match get_array(&o, "choices") {
            Some(a) => match CompletionsChoice::read_all(&a) {
                Some(x) => x,
                None => {
                    return None;
                },
            },
            None => {
                return None;
            },
        };
        let usage = match member_text(&o, "usage") {
            Some(t) => match CompletionsUsage::from_value(&read_shape(&t)) {
                Some(x) => x,
                None => {
                    return None;
                },
            },
            None => {
                return None;
            },
        };
        Some(CompletionsResponse { id, object, model, choices, usage })
    }

    /// Reads JSON text; what was written is read back.
    pub fn from_json(text: &str) -> (r: Option<CompletionsResponse>)
        ensures
            match r {
                Some(x) => CompletionsResponse::readable(shape_of(text@)) && x.describes(shape_of(text@)),
                None => !CompletionsResponse::readable(shape_of(text@)),
            },
            forall|x: CompletionsResponse|
                x.canonical() && text@ == #[trigger] x.json() ==> r is Some && r->0.same(x),
    {
        proof {
            assert forall|x: CompletionsResponse| x.canonical() && text@ == #[trigger] x.json() implies members_written(
                x.members(),
                8,
            ) && x.object() == JsonView::Object(x.members()) by {
                CompletionsResponse::members_stand_under_their_names(x, 8);
            }
        }
        let j = read_shape(text);
        CompletionsResponse::from_value(&j)
    }
}

impl CompletionsChunkDelta {
    /// The members in order, optional ones only where they are given.
    pub open spec fn members(&self) -> Seq<(Seq<char>, Seq<char>)> {
        (no_members() + opt_member("role"@, opt_quoted(opt_view(self.role)))) + opt_member("content"@, opt_quoted(opt_view(self.content)))
    }

    /// The JSON text.
    pub open spec fn json(&self) -> Seq<char> {
        object_text(self.members())
    }

    /// The JSON value.
    pub open spec fn object(&self) -> JsonView {
        JsonView::Object(self.members())
    }

    pub fn to_json(&self) -> (r: String)
        ensures
            r@ == self.json(),
    {
        let mut m = new_members();
        push_opt(&mut m, "role", quote_opt(&self.role));
        push_opt(&mut m, "content", quote_opt(&self.content));
        write_object(&m)
    }

    /// The values inside are texts as they are written.
    pub open spec fn canonical(&self) -> bool {
        true
    }

    /// Both hold the same.
    pub open spec fn same(&self, x: CompletionsChunkDelta) -> bool {
        &&& opt_view(self.role) == opt_view(x.role)
        &&& opt_view(self.content) == opt_view(x.content)
    }

    /// Each member stands under its own name, once, with the text of its own value.
    pub proof fn members_stand_under_their_names(x: CompletionsChunkDelta, depth: nat)
        requires
            x.canonical(),
        ensures
            members_written(x.members(), depth),
            member_in(x.members(), "role"@) == opt_quoted(opt_view(x.role)),
            member_in(x.members(), "content"@) == opt_quoted(opt_view(x.content)),
    {
        reveal_strlit("role");
        reveal_strlit("content");
        assert("role"@.len() != "content"@.len());
        let m0 = no_members();
        lemma_member_opt(m0, "role"@, opt_quoted(opt_view(x.role)), depth);
        let m1 = m0 + opt_member("role"@, opt_quoted(opt_view(x.role)));
        lemma_member_opt(m1, "content"@, opt_quoted(opt_view(x.content)), depth);
        let m2 = m1 + opt_member("content"@, opt_quoted(opt_view(x.content)));
        assert(x.members() == m2);
    }

    proof fn lemma_written(x: CompletionsChunkDelta, depth: nat)
        requires
            x.canonical(),
            depth >= 1,
        ensures
            written(x.json(), depth),
    {
        CompletionsChunkDelta::members_stand_under_their_names(x, (depth - 1) as nat);
    }

    /// The keys of the members, in order.
    pub open spec fn keys() -> Seq<Seq<char>> {
        seq!["role"@, "content"@]
    }

    fn key_list() -> (r: Vec<&'static str>)
        ensures
            key_views(r@) == CompletionsChunkDelta::keys(),
    {
        let mut keys: Vec<&'static str> = Vec::new();
        keys.push("role");
        keys.push("content");
        assert(key_views(keys@) =~= CompletionsChunkDelta::keys());
        keys
    }

    /// An object with a fitting value under each required key.
    pub open spec fn fits(j: JsonView) -> bool {
        &&& opt_text_member(j, "role"@) is Some
        &&& opt_text_member(j, "content"@) is Some
    }

    /// A record with a fitting value for each required member.
    pub open spec fn readable(j: JsonView) -> bool {
        record(j, CompletionsChunkDelta::keys()) is Some && CompletionsChunkDelta::fits(record(j, CompletionsChunkDelta::keys())->0)
    }

    /// This is what the object says.
    pub open spec fn says(&self, j: JsonView) -> bool {
        &&& opt_text_member(j, "role"@) == Some(opt_view(self.role))
        &&& opt_text_member(j, "content"@) == Some(opt_view(self.content))
    }

    /// This is what the record says.
    pub open spec fn describes(&self, j: JsonView) -> bool {
        self.says(record(j, CompletionsChunkDelta::keys())->0)
    }

    /// Reads a record: an object, in which members that are not known are passed over and none of the
    /// others comes twice, or an array of all members in order.
    pub fn from_value(j: &Json) -> (r: Option<CompletionsChunkDelta>)
        ensures
            match r {
                Some(x) => CompletionsChunkDelta::readable(j@) && x.describes(j@),
                None => !CompletionsChunkDelta::readable(j@),
            },
            forall|x: CompletionsChunkDelta|
                x.canonical() && j@ == #[trigger] x.object() ==> r is Some && r->0.same(x),
    {
        proof {
            assert forall|x: CompletionsChunkDelta| x.canonical() && j@ == #[trigger] x.object() implies members_written(x.members(), 8) && member(j@, "role"@) == opt_quoted(opt_view(x.role)) && member(j@, "content"@) == opt_quoted(opt_view(x.content)) by {
                CompletionsChunkDelta::members_stand_under_their_names(x, 8);
            }
        }
        let o = match as_record(j, &CompletionsChunkDelta::key_list()) {
            Some(o) => o,
            None => {
                return None;
            },
        };
        let role = match get_opt_text(&o, "role") {
            Some(x) => x,
            None => {
                return None;
            },
        };
        let content = match get_opt_text(&o, "content") {
            Some(x) => x,
            None => {
                return None;
            },
        };
        Some(CompletionsChunkDelta { role, content })
    }

    /// Reads JSON text; what was written is read back.
    pub fn from_json(text: &str) -> (r: Option<CompletionsChunkDelta>)
        ensures
            match r {
                Some(x) => CompletionsChunkDelta::readable(shape_of(text@)) && x.describes(shape_of(text@)),
                None => !CompletionsChunkDelta::readable(shape_of(text@)),
            },
            forall|x: CompletionsChunkDelta|
                x.canonical() && text@ == #[trigger] x.json() ==> r is Some && r->0.same(x),
    {
        proof {
            assert forall|x: CompletionsChunkDelta| x.canonical() && text@ == #[trigger] x.json() implies members_written(
                x.members(),
                8,
            ) && x.object() == JsonView::Object(x.members()) by {
                CompletionsChunkDelta::members_stand_under_their_names(x, 8);
            }
        }
        let j = read_shape(text);
        CompletionsChunkDelta::from_value(&j)
    }
}

impl CompletionsChunkChoice {
    /// The members in order, optional ones only where they are given.
    pub open spec fn members(&self) -> Seq<(Seq<char>, Seq<char>)> {
        no_members().push(("index"@, decimal(self.index as nat))).push(("delta"@, self.delta.json())) + opt_member("finish_reason"@, opt_quoted(opt_view(self.finish_reason)))
    }

    /// The JSON text.
    pub open spec fn json(&self) -> Seq<char> {
        object_text(self.members())
    }

    /// The JSON value.
    pub open spec fn object(&self) -> JsonView {
        JsonView::Object(self.members())
    }

    pub fn to_json(&self) -> (r: String)
        ensures
            r@ == self.json(),
    {
        let mut m = new_members();
        push_member(&mut m, "index", u64_text(self.index as u64));
        push_member(&mut m, "delta", self.delta.to_json());
        push_opt(&mut m, "finish_reason", quote_opt(&self.finish_reason));
        write_object(&m)
    }

    pub open spec fn all_json(v: Seq<CompletionsChunkChoice>) -> Seq<Seq<char>> {
        v.map_values(|x: CompletionsChunkChoice| x.json())
    }

    pub fn write_all(v: &Vec<CompletionsChunkChoice>) -> (r: Vec<String>)
        ensures
            views(r@) == CompletionsChunkChoice::all_json(v@),
    {
        let mut out: Vec<String> = Vec::new();
        let mut i: usize = 0;
        let ghost want = CompletionsChunkChoice::all_json(v@);
        while i < v.len()
            invariant
                i <= v@.len(),
                want == CompletionsChunkChoice::all_json(v@),
                views(out@) == want.take(i as int),
            decreases v@.len() - i,
        {
            let t = v[i].to_json();
            let ghost before = out@;
            out.push(t);
            assert(views(out@) =~= views(before).push(t@));
            assert(want.take(i + 1) =~= want.take(i as int).push(want[i as int]));
            i = i + 1;
        }
        assert(want.take(want.len() as int) == want);
        out
    }

    /// The values inside are texts as they are written.
    pub open spec fn canonical(&self) -> bool {
        &&& self.delta.canonical()
    }

    /// Both hold the same.
    pub open spec fn same(&self, x: CompletionsChunkChoice) -> bool {
        &&& self.index == x.index
        &&& self.delta.same(x.delta)
        &&& opt_view(self.finish_reason) == opt_view(x.finish_reason)
    }

    pub open spec fn all_canonical(v: Seq<CompletionsChunkChoice>) -> bool {
        forall|i: int| 0 <= i < v.len() ==> (#[trigger] v[i]).canonical()
    }

    pub open spec fn all_same(v: Seq<CompletionsChunkChoice>, w: Seq<CompletionsChunkChoice>) -> bool {
        &&& v.len() == w.len()
        &&& forall|i: int| 0 <= i < v.len() ==> (#[trigger] v[i]).same(w[i])
    }

    /// Each member stands under its own name, once, with the text of its own value.
    pub proof fn members_stand_under_their_names(x: CompletionsChunkChoice, depth: nat)
        requires
            x.canonical(),
            depth >= 1,
        ensures
            members_written(x.members(), depth),
            member_in(x.members(), "index"@) == Some(decimal(x.index as nat)),
            member_in(x.members(), "delta"@) == Some(x.delta.json()),
            member_in(x.members(), "finish_reason"@) == opt_quoted(opt_view(x.finish_reason)),
    {
        reveal_strlit("index");
        reveal_strlit("delta");
        reveal_strlit("finish_reason");
        assert("index"@[0] != "delta"@[0]);
        assert("index"@.len() != "finish_reason"@.len());
        assert("delta"@.len() != "finish_reason"@.len());
        let m0 = no_members();
        assert(written(decimal((x.index as u64) as nat), depth));
        lemma_member_push(m0, "index"@, decimal(x.index as nat), depth);
        let m1 = m0.push(("index"@, decimal(x.index as nat)));
        CompletionsChunkDelta::lemma_written(x.delta, depth);
        lemma_member_push(m1, "delta"@, x.delta.json(), depth);
        let m2 = m1.push(("delta"@, x.delta.json()));
        lemma_member_opt(m2, "finish_reason"@, opt_quoted(opt_view(x.finish_reason)), depth);
        let m3 = m2 + opt_member("finish_reason"@, opt_quoted(opt_view(x.finish_reason)));
        assert(x.members() == m3);
    }

    proof fn lemma_written(x: CompletionsChunkChoice, depth: nat)
        requires
            x.canonical(),
            depth >= 2,
        ensures
            written(x.json(), depth),
    {
        CompletionsChunkChoice::members_stand_under_their_names(x, (depth - 1) as nat);
    }

    proof fn lemma_all_written(v: Seq<CompletionsChunkChoice>, depth: nat)
        requires
            CompletionsChunkChoice::all_canonical(v),
            depth >= 2,
        ensures
            items_written(CompletionsChunkChoice::all_json(v), depth),
    {
        assert forall|i: int| 0 <= i < v.len() implies written(
            #[trigger] CompletionsChunkChoice::all_json(v)[i],
            depth,
        ) by {
            CompletionsChunkChoice::lemma_written(v[i], depth);
        }
    }

    /// The keys of the members, in order.
    pub open spec fn keys() -> Seq<Seq<char>> {
        seq!["index"@, "delta"@, "finish_reason"@]
    }

    fn key_list() -> (r: Vec<&'static str>)
        ensures
            key_views(r@) == CompletionsChunkChoice::keys(),
    {
        let mut keys: Vec<&'static str> = Vec::new();
        keys.push("index");
        keys.push("delta");
        keys.push("finish_reason");
        assert(key_views(keys@) =~= CompletionsChunkChoice::keys());
        keys
    }

    /// An object with a fitting value under each required key.
    pub open spec fn fits(j: JsonView) -> bool {
        &&& small_member(j, "index"@) is Some
        &&& member(j, "delta"@) is Some && CompletionsChunkDelta::readable(shape_of(member(j, "delta"@)->0))
        &&& opt_text_member(j, "finish_reason"@) is Some
    }

    /// A record with a fitting value for each required member.
    pub open spec fn readable(j: JsonView) -> bool {
        record(j, CompletionsChunkChoice::keys()) is Some && CompletionsChunkChoice::fits(record(j, CompletionsChunkChoice::keys())->0)
    }

    /// This is what the object says.
    pub open spec fn says(&self, j: JsonView) -> bool {
        &&& small_member(j, "index"@) == Some(self.index)
        &&& self.delta.describes(shape_of(member(j, "delta"@)->0))
        &&& opt_text_member(j, "finish_reason"@) == Some(opt_view(self.finish_reason))
    }

    /// This is what the record says.
    pub open spec fn describes(&self, j: JsonView) -> bool {
        self.says(record(j, CompletionsChunkChoice::keys())->0)
    }

    /// Reads a record: an object, in which members that are not known are passed over and none of the
    /// others comes twice, or an array of all members in order.
    pub fn from_value(j: &Json) -> (r: Option<CompletionsChunkChoice>)
        ensures
            match r {
                Some(x) => CompletionsChunkChoice::readable(j@) && x.describes(j@),
                None => !CompletionsChunkChoice::readable(j@),
            },
            forall|x: CompletionsChunkChoice|
                x.canonical() && j@ == #[trigger] x.object() ==> r is Some && r->0.same(x),
    {
        proof {
            assert forall|x: CompletionsChunkChoice| x.canonical() && j@ == #[trigger] x.object() implies members_written(x.members(), 8) && member(j@, "index"@) == Some(decimal(x.index as nat)) && member(j@, "delta"@) == Some(x.delta.json()) && member(j@, "finish_reason"@) == opt_quoted(opt_view(x.finish_reason)) && members_written(x.delta.members(), 8) && x.delta.object() == JsonView::Object(x.delta.members()) by {
                CompletionsChunkChoice::members_stand_under_their_names(x, 8);
                CompletionsChunkDelta::members_stand_under_their_names(x.delta, 8);
            }
        }
        let o = match as_record(j, &CompletionsChunkChoice::key_list()) {
            Some(o) => o,
            None => {
                return None;
            },
        };
        let index = match get_small(&o, "index") {
            Some(x) => x,
            None => {
                return None;
            },
        };
        let delta = match member_text(&o, "delta") {
            Some(t) => match CompletionsChunkDelta::from_value(&read_shape(&t)) {
                Some(x) => x,
                None => {
                    return None;
                },
            },
            None => {
                return None;
            },
        };
        let finish_reason = match get_opt_text(&o, "finish_reason") {
            Some(x) => x,
            None => {
                return None;
            },
        };
        Some(CompletionsChunkChoice { index, delta, finish_reason })
    }

    /// Reads JSON text; what was written is read back.
    pub fn from_json(text: &str) -> (r: Option<CompletionsChunkChoice>)
        ensures
            match r {
                Some(x) => CompletionsChunkChoice::readable(shape_of(text@)) && x.describes(shape_of(text@)),
                None => !CompletionsChunkChoice::readable(shape_of(text@)),
            },
            forall|x: CompletionsChunkChoice|
                x.canonical() && text@ == #[trigger] x.json() ==> r is Some && r->0.same(x),
    {
        proof {
            assert forall|x: CompletionsChunkChoice| x.canonical() && text@ == #[trigger] x.json() implies members_written(
                x.members(),
                8,
            ) && x.object() == JsonView::Object(x.members()) by {
                CompletionsChunkChoice::members_stand_under_their_names(x, 8);
            }
        }
        let j = read_shape(text);
        CompletionsChunkChoice::from_value(&j)
    }

    pub open spec fn all_readable(items: Seq<Seq<char>>) -> bool {
        forall|i: int| 0 <= i < items.len() ==> CompletionsChunkChoice::readable(shape_of(#[trigger] items[i]))
    }

    pub open spec fn all_described(v: Seq<CompletionsChunkChoice>, items: Seq<Seq<char>>) -> bool {
        &&& v.len() == items.len()
        &&& forall|i: int| 0 <= i < v.len() ==> (#[trigger] v[i]).describes(shape_of(items[i]))
    }

    pub fn read_all(items: &Vec<String>) -> (r: Option<Vec<CompletionsChunkChoice>>)
        ensures
            match r {
                Some(v) => CompletionsChunkChoice::all_readable(views(items@)) && CompletionsChunkChoice::all_described(
                    v@,
                    views(items@),
                ),
                None => !CompletionsChunkChoice::all_readable(views(items@)),
            },
            forall|v: Seq<CompletionsChunkChoice>|
                CompletionsChunkChoice::all_canonical(v) && views(items@) == #[trigger] CompletionsChunkChoice::all_json(v) ==> r is Some
                    && CompletionsChunkChoice::all_same(r->0@, v),
    {
        let mut out: Vec<CompletionsChunkChoice> = Vec::new();
        let mut i: usize = 0;
        while i < items.len()
            invariant
                i <= items@.len(),
                out@.len() == i,
                forall|k: int|
                    0 <= k < i ==> CompletionsChunkChoice::readable(shape_of(#[trigger] views(items@)[k])),
                forall|k: int|
                    0 <= k < i ==> (#[trigger] out@[k]).describes(shape_of(views(items@)[k])),
                forall|v: Seq<CompletionsChunkChoice>, k: int|
                    CompletionsChunkChoice::all_canonical(v) && views(items@) == #[trigger] CompletionsChunkChoice::all_json(v) && 0 <= k < i
                        ==> (#[trigger] out@[k]).same(v[k]),
            decreases items@.len() - i,
        {
            let j = read_shape(&items[i]);
            assert(views(items@)[i as int] == items@[i as int]@);
            proof {
                assert forall|v: Seq<CompletionsChunkChoice>|
                    CompletionsChunkChoice::all_canonical(v) && views(items@) == #[trigger] CompletionsChunkChoice::all_json(v) implies j@
                    == v[i as int].object() && v[i as int].canonical() by {
                    assert(CompletionsChunkChoice::all_json(v).len() == v.len());
                    assert(views(items@).len() == items@.len());
                    CompletionsChunkChoice::members_stand_under_their_names(v[i as int], 8);
                    assert(CompletionsChunkChoice::all_json(v)[i as int] == v[i as int].json());
                }
            }
            match CompletionsChunkChoice::from_value(&j) {
                Some(x) => {
                    out.push(x);
                },
                None => {
                    return None;
                },
            }
            i = i + 1;
        }
        Some(out)
    }
}

impl CompletionsChunk {
    /// The members in order, optional ones only where they are given.
    pub open spec fn members(&self) -> Seq<(Seq<char>, Seq<char>)> {
        no_members().push(("id"@, quoted(self.id@))).push(("object"@, quoted(self.object@))).push(("model"@, quoted(self.model@))).push(("choices"@, array_text(CompletionsChunkChoice::all_json(self.choices@))))
    }

    /// The JSON text.
    pub open spec fn json(&self) -> Seq<char> {
        object_text(self.members())
    }

    /// The JSON value.
    pub open spec fn object(&self) -> JsonView {
        JsonView::Object(self.members())
    }

    pub fn to_json(&self) -> (r: String)
        ensures
            r@ == self.json(),
    {
        let mut m = new_members();
        push_member(&mut m, "id", quote(&self.id));
        push_member(&mut m, "object", quote(&self.object));
        push_member(&mut m, "model", quote(&self.model));
        let items = CompletionsChunkChoice::write_all(&self.choices);
        push_member(&mut m, "choices", write_array(&items));
        write_object(&m)
    }

    /// The values inside are texts as they are written.
    pub open spec fn canonical(&self) -> bool {
        &&& CompletionsChunkChoice::all_canonical(self.choices@)
    }

    /// Both hold the same.
    pub open spec fn same(&self, x: CompletionsChunk) -> bool {
        &&& self.id@ == x.id@
        &&& self.object@ == x.object@
        &&& self.model@ == x.model@
        &&& CompletionsChunkChoice::all_same(self.choices@, x.choices@)
    }

    /// Each member stands under its own name, once, with the text of its own value.
    pub proof fn members_stand_under_their_names(x: CompletionsChunk, depth: nat)
        requires
            x.canonical(),
            depth >= 3,
        ensures
            members_written(x.members(), depth),
            member_in(x.members(), "id"@) == Some(quoted(x.id@)),
            member_in(x.members(), "object"@) == Some(quoted(x.object@)),
            member_in(x.members(), "model"@) == Some(quoted(x.model@)),
            member_in(x.members(), "choices"@) == Some(array_text(CompletionsChunkChoice::all_json(x.choices@))),
    {
        reveal_strlit("id");
        reveal_strlit("object");
        reveal_strlit("model");
        reveal_strlit("choices");
        assert("id"@.len() != "object"@.len());
        assert("id"@.len() != "model"@.len());
        assert("id"@.len() != "choices"@.len());
        assert("object"@.len() != "model"@.len());
        assert("object"@.len() != "choices"@.len());
        assert("model"@.len() != "choices"@.len());
        let m0 = no_members();
        lemma_member_push(m0, "id"@, quoted(x.id@), depth);
        let m1 = m0.push(("id"@, quoted(x.id@)));
        lemma_member_push(m1, "object"@, quoted(x.object@), depth);
        let m2 = m1.push(("object"@, quoted(x.object@)));
        lemma_member_push(m2, "model"@, quoted(x.model@), depth);
        let m3 = m2.push(("model"@, quoted(x.model@)));
        CompletionsChunkChoice::lemma_all_written(x.choices@, (depth - 1) as nat);
        assert(written(array_text(CompletionsChunkChoice::all_json(x.choices@)), depth));
        lemma_member_push(m3, "choices"@, array_text(CompletionsChunkChoice::all_json(x.choices@)), depth);
        let m4 = m3.push(("choices"@, array_text(CompletionsChunkChoice::all_json(x.choices@))));
        assert(x.members() == m4);
    }

    proof fn lemma_written(x: CompletionsChunk, depth: nat)
        requires
            x.canonical(),
            depth >= 4,
        ensures
            written(x.json(), depth),
    {
        CompletionsChunk::members_stand_under_their_names(x, (depth - 1) as nat);
    }

    /// The keys of the members, in order.
    pub open spec fn keys() -> Seq<Seq<char>> {
        seq!["id"@, "object"@, "model"@, "choices"@]
    }

    fn key_list() -> (r: Vec<&'static str>)
        ensures
            key_views(r@) == CompletionsChunk::keys(),
    {
        let mut keys: Vec<&'static str> = Vec::new();
        keys.push("id");
        keys.push("object");
        keys.push("model");
        keys.push("choices");
        assert(key_views(keys@) =~= CompletionsChunk::keys());
        keys
    }

    /// An object with a fitting value under each required key.
    pub open spec fn fits(j: JsonView) -> bool {
        &&& text_member(j, "id"@) is Some
        &&& text_member(j, "object"@) is Some
        &&& text_member(j, "model"@) is Some
        &&& array_member(j, "choices"@) is Some && CompletionsChunkChoice::all_readable(array_member(j, "choices"@)->0)
    }

    /// A record with a fitting value for each required member.
    pub open spec fn readable(j: JsonView) -> bool {
        record(j, CompletionsChunk::keys()) is Some && CompletionsChunk::fits(record(j, CompletionsChunk::keys())->0)
    }

    /// This is what the object says.
    pub open spec fn says(&self, j: JsonView) -> bool {
        &&& text_member(j, "id"@) == Some(self.id@)
        &&& text_member(j, "object"@) == Some(self.object@)
        &&& text_member(j, "model"@) == Some(self.model@)
        &&& CompletionsChunkChoice::all_described(self.choices@, array_member(j, "choices"@)->0)
    }

    /// This is what the record says.
    pub open spec fn describes(&self, j: JsonView) -> bool {
        self.says(record(j, CompletionsChunk::keys())->0)
    }

    /// Reads a record: an object, in which members that are not known are passed over and none of the
    /// others comes twice, or an array of all members in order.
    pub fn from_value(j: &Json) -> (r: Option<CompletionsChunk>)
        ensures
            match r {
                Some(x) => CompletionsChunk::readable(j@) && x.describes(j@),
                None => !CompletionsChunk::readable(j@),
            },
            forall|x: CompletionsChunk|
                x.canonical() && j@ == #[trigger] x.object() ==> r is Some && r->0.same(x),
    {
        proof {
            assert forall|x: CompletionsChunk| x.canonical() && j@ == #[trigger] x.object() implies members_written(x.members(), 8) && member(j@, "id"@) == Some(quoted(x.id@)) && member(j@, "object"@) == Some(quoted(x.object@)) && member(j@, "model"@) == Some(quoted(x.model@)) && member(j@, "choices"@) == Some(array_text(CompletionsChunkChoice::all_json(x.choices@))) && items_written(CompletionsChunkChoice::all_json(x.choices@), 8) by {
                CompletionsChunk::members_stand_under_their_names(x, 8);
                CompletionsChunkChoice::lemma_all_written(x.choices@, 8);
            }
        }
        let o = match as_record(j, &CompletionsChunk::key_list()) {
            Some(o) => o,
            None => {
                return None;
            },
        };
        let id = match get_text(&o, "id") {
            Some(x) => x,
            None => {
                return None;
            },
        };
        let object = match get_text(&o, "object") {
            Some(x) => x,
            None => {
                return None;
            },
        };
        let model = match get_text(&o, "model") {
            Some(x) => x,
            None => {
                return None;
            },
        };
        let choices = match get_array(&o, "choices") {
            Some(a) => match CompletionsChunkChoice::read_all(&a) {
                Some(x) => x,
                None => {
                    return None;
                },
            },
            None => {
                return None;
            },
        };
        Some(CompletionsChunk { id, object, model, choices })
    }

    /// Reads JSON text; what was written is read back.
    pub fn from_json(text: &str) -> (r: Option<CompletionsChunk>)
        ensures
            match r {
                Some(x) => CompletionsChunk::readable(shape_of(text@)) && x.describes(shape_of(text@)),
                None => !CompletionsChunk::readable(shape_of(text@)),
            },
            forall|x: CompletionsChunk|
                x.canonical() && text@ == #[trigger] x.json() ==> r is Some && r->0.same(x),
    {
        proof {
            assert forall|x: CompletionsChunk| x.canonical() && text@ == #[trigger] x.json() implies members_written(
                x.members(),
                8,
            ) && x.object() == JsonView::Object(x.members()) by {
                CompletionsChunk::members_stand_under_their_names(x, 8);
            }
        }
        let j = read_shape(text);
        CompletionsChunk::from_value(&j)
    }
}

impl CompletionsErrorDetail {
    /// The members in order, optional ones only where they are given.
    pub open spec fn members(&self) -> Seq<(Seq<char>, Seq<char>)> {
        (((no_members() + opt_member("code"@, opt_quoted(opt_view(self.code)))) + opt_member("message"@, opt_quoted(opt_view(self.message)))) + opt_member("param"@, opt_quoted(opt_view(self.param)))) + opt_member("type"@, opt_quoted(opt_view(self.error_type)))
    }

    /// The JSON text.
    pub open spec fn json(&self) -> Seq<char> {
        object_text(self.members())
    }

    /// The JSON value.
    pub open spec fn object(&self) -> JsonView {
        JsonView::Object(self.members())
    }

    pub fn to_json(&self) -> (r: String)
        ensures
            r@ == self.json(),
    {
        let mut m = new_members();
        push_opt(&mut m, "code", quote_opt(&self.code));
        push_opt(&mut m, "message", quote_opt(&self.message));
        push_opt(&mut m, "param", quote_opt(&self.param));
        push_opt(&mut m, "type", quote_opt(&self.error_type));
        write_object(&m)
    }

    /// The values inside are texts as they are written.
    pub open spec fn canonical(&self) -> bool {
        true
    }

    /// Both hold the same.
    pub open spec fn same(&self, x: CompletionsErrorDetail) -> bool {
        &&& opt_view(self.code) == opt_view(x.code)
        &&& opt_view(self.message) == opt_view(x.message)
        &&& opt_view(self.param) == opt_view(x.param)
        &&& opt_view(self.error_type) == opt_view(x.error_type)
    }

    /// Each member stands under its own name, once, with the text of its own value.
    pub proof fn members_stand_under_their_names(x: CompletionsErrorDetail, depth: nat)
        requires
            x.canonical(),
        ensures
            members_written(x.members(), depth),
            member_in(x.members(), "code"@) == opt_quoted(opt_view(x.code)),
            member_in(x.members(), "message"@) == opt_quoted(opt_view(x.message)),
            member_in(x.members(), "param"@) == opt_quoted(opt_view(x.param)),
            member_in(x.members(), "type"@) == opt_quoted(opt_view(x.error_type)),
    {
        reveal_strlit("code");
        reveal_strlit("message");
        reveal_strlit("param");
        reveal_strlit("type");
        assert("code"@.len() != "message"@.len());
        assert("code"@.len() != "param"@.len());
        assert("code"@[0] != "type"@[0]);
        assert("message"@.len() != "param"@.len());
        assert("message"@.len() != "type"@.len());
        assert("param"@.len() != "type"@.len());
        let m0 = no_members();
        lemma_member_opt(m0, "code"@, opt_quoted(opt_view(x.code)), depth);
        let m1 = m0 + opt_member("code"@, opt_quoted(opt_view(x.code)));
        lemma_member_opt(m1, "message"@, opt_quoted(opt_view(x.message)), depth);
        let m2 = m1 + opt_member("message"@, opt_quoted(opt_view(x.message)));
        lemma_member_opt(m2, "param"@, opt_quoted(opt_view(x.param)), depth);
        let m3 = m2 + opt_member("param"@, opt_quoted(opt_view(x.param)));
        lemma_member_opt(m3, "type"@, opt_quoted(opt_view(x.error_type)), depth);
        let m4 = m3 + opt_member("type"@, opt_quoted(opt_view(x.error_type)));
        assert(x.members() == m4);
    }

    proof fn lemma_written(x: CompletionsErrorDetail, depth: nat)
        requires
            x.canonical(),
            depth >= 1,
        ensures
            written(x.json(), depth),
    {
        CompletionsErrorDetail::members_stand_under_their_names(x, (depth - 1) as nat);
    }

    /// The keys of the members, in order.
    pub open spec fn keys() -> Seq<Seq<char>> {
        seq!["code"@, "message"@, "param"@, "type"@]
    }

    fn key_list() -> (r: Vec<&'static str>)
        ensures
            key_views(r@) == CompletionsErrorDetail::keys(),
    {
        let mut keys: Vec<&'static str> = Vec::new();
        keys.push("code");
        keys.push("message");
        keys.push("param");
        keys.push("type");
        assert(key_views(keys@) =~= CompletionsErrorDetail::keys());
        keys
    }

    /// An object with a fitting value under each required key.
    pub open spec fn fits(j: JsonView) -> bool {
        &&& opt_text_member(j, "code"@) is Some
        &&& opt_text_member(j, "message"@) is Some
        &&& opt_text_member(j, "param"@) is Some
        &&& opt_text_member(j, "type"@) is Some
    }

    /// A record with a fitting value for each required member.
    pub open spec fn readable(j: JsonView) -> bool {
        record(j, CompletionsErrorDetail::keys()) is Some && CompletionsErrorDetail::fits(record(j, CompletionsErrorDetail::keys())->0)
    }

    /// This is what the object says.
    pub open spec fn says(&self, j: JsonView) -> bool {
        &&& opt_text_member(j, "code"@) == Some(opt_view(self.code))
        &&& opt_text_member(j, "message"@) == Some(opt_view(self.message))
        &&& opt_text_member(j, "param"@) == Some(opt_view(self.param))
        &&& opt_text_member(j, "type"@) == Some(opt_view(self.error_type))
    }

    /// This is what the record says.
    pub open spec fn describes(&self, j: JsonView) -> bool {
        self.says(record(j, CompletionsErrorDetail::keys())->0)
    }

    /// Reads a record: an object, in which members that are not known are passed over and none of the
    /// others comes twice, or an array of all members in order.
    pub fn from_value(j: &Json) -> (r: Option<CompletionsErrorDetail>)
        ensures
            match r {
                Some(x) => CompletionsErrorDetail::readable(j@) && x.describes(j@),
                None => !CompletionsErrorDetail::readable(j@),
            },
            forall|x: CompletionsErrorDetail|
                x.canonical() && j@ == #[trigger] x.object() ==> r is Some && r->0.same(x),
    {
        proof {
            assert forall|x: CompletionsErrorDetail| x.canonical() && j@ == #[trigger] x.object() implies members_written(x.members(), 8) && member(j@, "code"@) == opt_quoted(opt_view(x.code)) && member(j@, "message"@) == opt_quoted(opt_view(x.message)) && member(j@, "param"@) == opt_quoted(opt_view(x.param)) && member(j@, "type"@) == opt_quoted(opt_view(x.error_type)) by {
                CompletionsErrorDetail::members_stand_under_their_names(x, 8);
            }
        }
        let o = match as_record(j, &CompletionsErrorDetail::key_list()) {
            Some(o) => o,
            None => {
                return None;
            },
        };
        let code = match get_opt_text(&o, "code") {
            Some(x) => x,
            None => {
                return None;
            },
        };
        let message = match get_opt_text(&o, "message") {
            Some(x) => x,
            None => {
                return None;
            },
        };
        let param = match get_opt_text(&o, "param") {
            Some(x) => x,
            None => {
                return None;
            },
        };
        let error_type = match get_opt_text(&o, "type") {
            Some(x) => x,
            None => {
                return None;
            },
        };
        Some(CompletionsErrorDetail { code, message, param, error_type })
    }

    /// Reads JSON text; what was written is read back.
    pub fn from_json(text: &str) -> (r: Option<CompletionsErrorDetail>)
        ensures
            match r {
                Some(x) => CompletionsErrorDetail::readable(shape_of(text@)) && x.describes(shape_of(text@)),
                None => !CompletionsErrorDetail::readable(shape_of(text@)),
            },
            forall|x: CompletionsErrorDetail|
                x.canonical() && text@ == #[trigger] x.json() ==> r is Some && r->0.same(x),
    {
        proof {
            assert forall|x: CompletionsErrorDetail| x.canonical() && text@ == #[trigger] x.json() implies members_written(
                x.members(),
                8,
            ) && x.object() == JsonView::Object(x.members()) by {
                CompletionsErrorDetail::members_stand_under_their_names(x, 8);
            }
        }
        let j = read_shape(text);
        CompletionsErrorDetail::from_value(&j)
    }
}

impl CompletionsError {
    /// The members in order, optional ones only where they are given.
    pub open spec fn members(&self) -> Seq<(Seq<char>, Seq<char>)> {
        no_members().push(("error"@, self.error.json()))
    }

    /// The JSON text.
    pub open spec fn json(&self) -> Seq<char> {
        object_text(self.members())
    }

    /// The JSON value.
    pub open spec fn object(&self) -> JsonView {
        JsonView::Object(self.members())
    }

    pub fn to_json(&self) -> (r: String)
        ensures
            r@ == self.json(),
    {
        let mut m = new_members();
        push_member(&mut m, "error", self.error.to_json());
        write_object(&m)
    }

    /// The values inside are texts as they are written.
    pub open spec fn canonical(&self) -> bool {
        &&& self.error.canonical()
    }

    /// Both hold the same.
    pub open spec fn same(&self, x: CompletionsError) -> bool {
        &&& self.error.same(x.error)
    }

    /// Each member stands under its own name, once, with the text of its own value.
    pub proof fn members_stand_under_their_names(x: CompletionsError, depth: nat)
        requires
            x.canonical(),
            depth >= 1,
        ensures
            members_written(x.members(), depth),
            member_in(x.members(), "error"@) == Some(x.error.json()),
    {
        reveal_strlit("error");
        let m0 = no_members();
        CompletionsErrorDetail::lemma_written(x.error, depth);
        lemma_member_push(m0, "error"@, x.error.json(), depth);
        let m1 = m0.push(("error"@, x.error.json()));
        assert(x.members() == m1);
    }

    proof fn lemma_written(x: CompletionsError, depth: nat)
        requires
            x.canonical(),
            depth >= 2,
        ensures
            written(x.json(), depth),
    {
        CompletionsError::members_stand_under_their_names(x, (depth - 1) as nat);
    }

    /// The keys of the members, in order.
    pub open spec fn keys() -> Seq<Seq<char>> {
        seq!["error"@]
    }

    fn key_list() -> (r: Vec<&'static str>)
        ensures
            key_views(r@) == CompletionsError::keys(),
    {
        let mut keys: Vec<&'static str> = Vec::new();
        keys.push("error");
        assert(key_views(keys@) =~= CompletionsError::keys());
        keys
    }

    /// An object with a fitting value under each required key.
    pub open spec fn fits(j: JsonView) -> bool {
        &&& member(j, "error"@) is Some && CompletionsErrorDetail::readable(shape_of(member(j, "error"@)->0))
    }

    /// A record with a fitting value for each required member.
    pub open spec fn readable(j: JsonView) -> bool {
        record(j, CompletionsError::keys()) is Some && CompletionsError::fits(record(j, CompletionsError::keys())->0)
    }

    /// This is what the object says.
    pub open spec fn says(&self, j: JsonView) -> bool {
        &&& self.error.describes(shape_of(member(j, "error"@)->0))
    }

    /// This is what the record says.
    pub open spec fn describes(&self, j: JsonView) -> bool {
        self.says(record(j, CompletionsError::keys())->0)
    }

    /// Reads a record: an object, in which members that are not known are passed over and none of the
    /// others comes twice, or an array of all members in order.
    pub fn from_value(j: &Json) -> (r: Option<CompletionsError>)
        ensures
            match r {
                Some(x) => CompletionsError::readable(j@) && x.describes(j@),
                None => !CompletionsError::readable(j@),
            },
            forall|x: CompletionsError|
                x.canonical() && j@ == #[trigger] x.object() ==> r is Some && r->0.same(x),
    {
        proof {
            assert forall|x: CompletionsError| x.canonical() && j@ == #[trigger] x.object() implies members_written(x.members(), 8) && member(j@, "error"@) == Some(x.error.json()) && members_written(x.error.members(), 8) && x.error.object() == JsonView::Object(x.error.members()) by {
                CompletionsError::members_stand_under_their_names(x, 8);
                CompletionsErrorDetail::members_stand_under_their_names(x.error, 8);
            }
        }
        let o = match as_record(j, &CompletionsError::key_list()) {
            Some(o) => o,
            None => {
                return None;
            },
        };
        let error = match member_text(&o, "error") {
            Some(t) => match CompletionsErrorDetail::from_value(&read_shape(&t)) {
                Some(x) => x,
                None => {
                    return None;
                },
            },
            None => {
                return None;
            },
        };
        Some(CompletionsError { error })
    }

    /// Reads JSON text; what was written is read back.
    pub fn from_json(text: &str) -> (r: Option<CompletionsError>)
        ensures
            match r {
                Some(x) => CompletionsError::readable(shape_of(text@)) && x.describes(shape_of(text@)),
                None => !CompletionsError::readable(shape_of(text@)),
            },
            forall|x: CompletionsError|
                x.canonical() && text@ == #[trigger] x.json() ==> r is Some && r->0.same(x),
    {
        proof {
            assert forall|x: CompletionsError| x.canonical() && text@ == #[trigger] x.json() implies members_written(
                x.members(),
                8,
            ) && x.object() == JsonView::Object(x.members()) by {
                CompletionsError::members_stand_under_their_names(x, 8);
            }
        }
        let j = read_shape(text);
        CompletionsError::from_value(&j)
    }
}

} // verus!

//! The request, response and event shapes of the Anthropic Messages API.
use vstd::prelude::*;
use crate::json::{array_member, array_text, as_record, bool_text, get_array, get_opt_value, get_opt_text, get_small, get_text, get_unsigned, get_value, items_written, key_views, lemma_member_opt, lemma_member_push, member, member_in, member_text, members_written, new_members, no_members, object_text, opt_member, opt_quoted, opt_value_member, opt_text_member, plain, push_member, push_opt, quote, quote_opt, quoted, record, small_member, text_member, unsigned_member, value_member, value_of, write_array, write_bool, write_object, written, Json, JsonView};
use crate::number::{decimal, u64_text};
use crate::record::{read_shape, shape_of};
use crate::text::{opt_view, views};

verus! {

/// A single message of an Anthropic Messages request.
#[derive(Debug)]
pub struct ResponsesMessage {
    pub role: String,
    /// JSON text.
    pub content: String,
}

/// An Anthropic Messages request; `F` stands for the numbers of the sampling settings.
pub struct ResponsesRequest<F> {
    pub model: String,
    pub messages: Vec<ResponsesMessage>,
    pub max_tokens: u64,
    /// JSON text.
    pub system: Option<String>,
    pub temperature: Option<F>,
    pub top_p: Option<F>,
    pub stream: Option<bool>,
}

/// A content block of a response.
#[derive(Debug)]
pub struct ResponsesContentBlock {
    pub block_type: String,
    pub text: Option<String>,
    pub id: Option<String>,
    pub name: Option<String>,
    /// JSON text.
    pub input: Option<String>,
}

/// Token usage statistics of a response.
#[derive(Debug)]
pub struct ResponsesUsage {
    pub input_tokens: u64,
    pub output_tokens: u64,
}

/// An Anthropic Messages response.
#[derive(Debug)]
pub struct ResponsesResponse {
    pub id: String,
    pub response_type: String,
    pub role: String,
    pub model: String,
    pub content: Vec<ResponsesContentBlock>,
    pub stop_reason: String,
    pub usage: ResponsesUsage,
}

/// The detail of an error response.
#[derive(Debug)]
pub struct ResponsesErrorDetail {
    pub error_type: String,
    pub message: Option<String>,
}

/// An Anthropic-style error response.
#[derive(Debug)]
pub struct ResponsesError {
    pub error: ResponsesErrorDetail,
}

/// Begins a stream.
#[derive(Debug)]
pub struct MessageStartEvent {
    pub event_type: String,
    pub message: ResponsesResponse,
}

/// Begins a content block.
#[derive(Debug)]
pub struct ContentBlockStartEvent {
    pub event_type: String,
    pub index: u32,
    pub content_block: ResponsesContentBlock,
}

/// The text of a content block delta.
#[derive(Debug)]
pub struct TextDelta {
    pub delta_type: String,
    pub text: String,
}

/// Adds text to a content block.
#[derive(Debug)]
pub struct ContentBlockDeltaEvent {
    pub event_type: String,
    pub index: u32,
    pub delta: TextDelta,
}

/// Ends a content block.
#[derive(Debug)]
pub struct ContentBlockStopEvent {
    pub event_type: String,
    pub index: u32,
}

/// The reason why a message ended.
#[derive(Debug)]
pub struct MessageDelta {
    pub stop_reason: String,
}

/// Tells why a message ended, and its usage.
#[derive(Debug)]
pub struct MessageDeltaEvent {
    pub event_type: String,
    pub delta: MessageDelta,
    pub usage: ResponsesUsage,
}

/// Ends a stream.
#[derive(Debug)]
pub struct MessageStopEvent {
    pub event_type: String,
}

impl ResponsesMessage {
    /// The members in order, optional ones only where they are given.
    pub open spec fn members(&self) -> Seq<(Seq<char>, Seq<char>)> {
        no_members().push(("role"@, quoted(self.role@))).push(("content"@, self.content@))
    }

    /// The JSON text.
    pub open spec fn json(&self) -> Seq<char> {
        object_text(self.members())
    }

    /// The JSON value.
    pub open spec fn object(&self) -> JsonView {
        JsonView::Object(self.members())
    }

    pub fn to_json(&self) -> (r: String)
        ensures
            r@ == self.json(),
    {
        let mut m = new_members();
        push_member(&mut m, "role", quote(&self.role));
        push_member(&mut m, "content", self.content.clone());
        write_object(&m)
    }

    pub open spec fn all_json(v: Seq<ResponsesMessage>) -> Seq<Seq<char>> {
        v.map_values(|x: ResponsesMessage| x.json())
    }

    pub fn write_all(v: &Vec<ResponsesMessage>) -> (r: Vec<String>)
        ensures
            views(r@) == ResponsesMessage::all_json(v@),
    {
        let mut out: Vec<String> = Vec::new();
        let mut i: usize = 0;
        let ghost want = ResponsesMessage::all_json(v@);
        while i < v.len()
            invariant
                i <= v@.len(),
                want == ResponsesMessage::all_json(v@),
                views(out@) == want.take(i as int),
            decreases v@.len() - i,
        {
            let t = v[i].to_json();
            let ghost before = out@;
            out.push(t);
            assert(views(out@) =~= views(before).push(t@));
            assert(want.take(i + 1) =~= want.take(i as int).push(want[i as int]));
            i = i + 1;
        }
        assert(want.take(want.len() as int) == want);
        out
    }

    /// The values inside are texts as they are written.
    pub open spec fn canonical(&self) -> bool {
        &&& plain(self.content@)
    }

    /// Both hold the same.
    pub open spec fn same(&self, x: ResponsesMessage) -> bool {
        &&& self.role@ == x.role@
        &&& self.content@ == x.content@
    }

    pub open spec fn all_canonical(v: Seq<ResponsesMessage>) -> bool {
        forall|i: int| 0 <= i < v.len() ==> (#[trigger] v[i]).canonical()
    }

    pub open spec fn all_same(v: Seq<ResponsesMessage>, w: Seq<ResponsesMessage>) -> bool {
        &&& v.len() == w.len()
        &&& forall|i: int| 0 <= i < v.len() ==> (#[trigger] v[i]).same(w[i])
    }

    /// Each member stands under its own name, once, with the text of its own value.
    pub proof fn members_stand_under_their_names(x: ResponsesMessage, depth: nat)
        requires
            x.canonical(),
            depth >= 4,
        ensures
            members_written(x.members(), depth),
            member_in(x.members(), "role"@) == Some(quoted(x.role@)),
            member_in(x.members(), "content"@) == Some(x.content@),
    {
        reveal_strlit("role");
        reveal_strlit("content");
        assert("role"@.len() != "content"@.len());
        let m0 = no_members();
        lemma_member_push(m0, "role"@, quoted(x.role@), depth);
        let m1 = m0.push(("role"@, quoted(x.role@)));
        lemma_member_push(m1, "content"@, x.content@, depth);
        let m2 = m1.push(("content"@, x.content@));
        assert(x.members() == m2);
    }

    proof fn lemma_written(x: ResponsesMessage, depth: nat)
        requires
            x.canonical(),
            depth >= 5,
        ensures
            written(x.json(), depth),
    {
        ResponsesMessage::members_stand_under_their_names(x, (depth - 1) as nat);
    }

    proof fn lemma_all_written(v: Seq<ResponsesMessage>, depth: nat)
        requires
            ResponsesMessage::all_canonical(v),
            depth >= 5,
        ensures
            items_written(ResponsesMessage::all_json(v), depth),
    {
        assert forall|i: int| 0 <= i < v.len() implies written(
            #[trigger] ResponsesMessage::all_json(v)[i],
            depth,
        ) by {
            ResponsesMessage::lemma_written(v[i], depth);
        }
    }

    /// The keys of the members, in order.
    pub open spec fn keys() -> Seq<Seq<char>> {
        seq!["role"@, "content"@]
    }

    fn key_list() -> (r: Vec<&'static str>)
        ensures
            key_views(r@) == ResponsesMessage::keys(),
    {
        let mut keys: Vec<&'static str> = Vec::new();
        keys.push("role");
        keys.push("content");
        assert(key_views(keys@) =~= ResponsesMessage::keys());
        keys
    }

    /// An object with a fitting value under each required key.
    pub open spec fn fits(j: JsonView) -> bool {
        &&& text_member(j, "role"@) is Some
        &&& value_member(j, "content"@) is Some
    }

    /// A record with a fitting value for each required member.
    pub open spec fn readable(j: JsonView) -> bool {
        record(j, ResponsesMessage::keys()) is Some && ResponsesMessage::fits(record(j, ResponsesMessage::keys())->0)
    }

    /// This is what the object says.
    pub open spec fn says(&self, j: JsonView) -> bool {
        &&& text_member(j, "role"@) == Some(self.role@)
        &&& value_member(j, "content"@) == Some(self.content@)
    }

    /// This is what the record says.
    pub open spec fn describes(&self, j: JsonView) -> bool {
        self.says(record(j, ResponsesMessage::keys())->0)
    }

    /// Reads a record: an object, in which members that are not known are passed over and none of the
    /// others comes twice, or an array of all members in order.
    pub fn from_value(j: &Json) -> (r: Option<ResponsesMessage>)
        ensures
            match r {
                Some(x) => ResponsesMessage::readable(j@) && x.describes(j@),
                None => !ResponsesMessage::readable(j@),
            },
            forall|x: ResponsesMessage|
                x.canonical() && j@ == #[trigger] x.object() ==> r is Some && r->0.same(x),
    {
        proof {
            assert forall|x: ResponsesMessage| x.canonical() && j@ == #[trigger] x.object() implies members_written(x.members(), 8) && member(j@, "role"@) == Some(quoted(x.role@)) && member(j@, "content"@) == Some(x.content@) by {
                ResponsesMessage::members_stand_under_their_names(x, 8);
            }
        }
        let o = match as_record(j, &ResponsesMessage::key_list()) {
            Some(o) => o,
            None => {
                return None;
            },
        };
        let role = match get_text(&o, "role") {
            Some(x) => x,
            None => {
                return None;
            },
        };
        let content = match get_value(&o, "content") {
            Some(x) => x,
            None => {
                return None;
            },
        };
        Some(ResponsesMessage { role, content })
    }

    /// Reads JSON text; what was written is read back.
    pub fn from_json(text: &str) -> (r: Option<ResponsesMessage>)
        ensures
            match r {
                Some(x) => ResponsesMessage::readable(shape_of(text@)) && x.describes(shape_of(text@)),
                None => !ResponsesMessage::readable(shape_of(text@)),
            },
            forall|x: ResponsesMessage|
                x.canonical() && text@ == #[trigger] x.json() ==> r is Some && r->0.same(x),
    {
        proof {
            assert forall|x: ResponsesMessage| x.canonical() && text@ == #[trigger] x.json() implies members_written(
                x.members(),
                8,
            ) && x.object() == JsonView::Object(x.members()) by {
                ResponsesMessage::members_stand_under_their_names(x, 8);
            }
        }
        let j = read_shape(text);
        ResponsesMessage::from_value(&j)
    }

    pub open spec fn all_readable(items: Seq<Seq<char>>) -> bool {
        forall|i: int| 0 <= i < items.len() ==> ResponsesMessage::readable(shape_of(#[trigger] items[i]))
    }

    pub open spec fn all_described(v: Seq<ResponsesMessage>, items: Seq<Seq<char>>) -> bool {
        &&& v.len() == items.len()
        &&& forall|i: int| 0 <= i < v.len() ==> (#[trigger] v[i]).describes(shape_of(items[i]))
    }

    pub fn read_all(items: &Vec<String>) -> (r: Option<Vec<ResponsesMessage>>)
        ensures
            match r {
                Some(v) => ResponsesMessage::all_readable(views(items@)) && ResponsesMessage::all_described(
                    v@,
                    views(items@),
                ),
                None => !ResponsesMessage::all_readable(views(items@)),
            },
            forall|v: Seq<ResponsesMessage>|
                ResponsesMessage::all_canonical(v) && views(items@) == #[trigger] ResponsesMessage::all_json(v) ==> r is Some
                    && ResponsesMessage::all_same(r->0@, v),
    {
        let mut out: Vec<ResponsesMessage> = Vec::new();
        let mut i: usize = 0;
        while i < items.len()
            invariant
                i <= items@.len(),
                out@.len() == i,
                forall|k: int|
                    0 <= k < i ==> ResponsesMessage::readable(shape_of(#[trigger] views(items@)[k])),
                forall|k: int|
                    0 <= k < i ==> (#[trigger] out@[k]).describes(shape_of(views(items@)[k])),
                forall|v: Seq<ResponsesMessage>, k: int|
                    ResponsesMessage::all_canonical(v) && views(items@) == #[trigger] ResponsesMessage::all_json(v) && 0 <= k < i
                        ==> (#[trigger] out@[k]).same(v[k]),
            decreases items@.len() - i,
        {
            let j = read_shape(&items[i]);
            assert(views(items@)[i as int] == items@[i as int]@);
            proof {
                assert forall|v: Seq<ResponsesMessage>|
                    ResponsesMessage::all_canonical(v) && views(items@) == #[trigger] ResponsesMessage::all_json(v) implies j@
                    == v[i as int].object() && v[i as int].canonical() by {
                    assert(ResponsesMessage::all_json(v).len() == v.len());
                    assert(views(items@).len() == items@.len());
                    ResponsesMessage::members_stand_under_their_names(v[i as int], 8);
                    assert(ResponsesMessage::all_json(v)[i as int] == v[i as int].json());
                }
            }
            match ResponsesMessage::from_value(&j) {
                Some(x) => {
                    out.push(x);
                },
                None => {
                    return None;
                },
            }
            i = i + 1;
        }
        Some(out)
    }
}

impl ResponsesRequest<String> {
    /// The JSON text: the members in order, optional ones only where they are given.
    pub open spec fn json(&self) -> Seq<char> {
        object_text(((((no_members().push(("model"@, quoted(self.model@))).push(("messages"@, array_text(ResponsesMessage::all_json(self.messages@)))).push(("max_tokens"@, decimal(self.max_tokens as nat))) + opt_member("system"@, opt_view(self.system))) + opt_member("temperature"@, opt_view(self.temperature))) + opt_member("top_p"@, opt_view(self.top_p))) + opt_member("stream"@, match self.stream { Some(b) => Some(bool_text(b)), None => None })))
    }

    pub fn to_json(&self) -> (r: String)
        ensures
            r@ == self.json(),
    {
        let mut m = new_members();
        push_member(&mut m, "model", quote(&self.model));
        let items = ResponsesMessage::write_all(&self.messages);
        push_member(&mut m, "messages", write_array(&items));
        push_member(&mut m, "max_tokens", u64_text(self.max_tokens));
        push_opt(&mut m, "system", crate::text::copy_opt(&self.system));
        push_opt(&mut m, "temperature", crate::text::copy_opt(&self.temperature));
        push_opt(&mut m, "top_p", crate::text::copy_opt(&self.top_p));
        push_opt(&mut m, "stream", match self.stream { Some(b) => Some(write_bool(b)), None => None });
        write_object(&m)
    }
}

impl ResponsesContentBlock {
    /// The members in order, optional ones only where they are given.
    pub open spec fn members(&self) -> Seq<(Seq<char>, Seq<char>)> {
        (((no_members().push(("type"@, quoted(self.block_type@))) + opt_member("text"@, opt_quoted(opt_view(self.text)))) + opt_member("id"@, opt_quoted(opt_view(self.id)))) + opt_member("name"@, opt_quoted(opt_view(self.name)))) + opt_member("input"@, opt_view(self.input))
    }

    /// The JSON text.
    pub open spec fn json(&self) -> Seq<char> {
        object_text(self.members())
    }

    /// The JSON value.
    pub open spec fn object(&self) -> JsonView {
        JsonView::Object(self.members())
    }

    pub fn to_json(&self) -> (r: String)
        ensures
            r@ == self.json(),
    {
        let mut m = new_members();
        push_member(&mut m, "type", quote(&self.block_type));
        push_opt(&mut m, "text", quote_opt(&self.text));
        push_opt(&mut m, "id", quote_opt(&self.id));
        push_opt(&mut m, "name", quote_opt(&self.name));
        push_opt(&mut m, "input", crate::text::copy_opt(&self.input));
        write_object(&m)
    }

    pub open spec fn all_json(v: Seq<ResponsesContentBlock>) -> Seq<Seq<char>> {
        v.map_values(|x: ResponsesContentBlock| x.json())
    }

    pub fn write_all(v: &Vec<ResponsesContentBlock>) -> (r: Vec<String>)
        ensures
            views(r@) == ResponsesContentBlock::all_json(v@),
    {
        let mut out: Vec<String> = Vec::new();
        let mut i: usize = 0;
        let ghost want = ResponsesContentBlock::all_json(v@);
        while i < v.len()
            invariant
                i <= v@.len(),
                want == ResponsesContentBlock::all_json(v@),
                views(out@) == want.take(i as int),
            decreases v@.len() - i,
        {
            let t = v[i].to_json();
            let ghost before = out@;
            out.push(t);
            assert(views(out@) =~= views(before).push(t@));
            assert(want.take(i + 1) =~= want.take(i as int).push(want[i as int]));
            i = i + 1;
        }
        assert(want.take(want.len() as int) == want);
        out
    }

    /// The values inside are texts as they are written.
    pub open spec fn canonical(&self) -> bool {
        &&& (self.input is Some ==> plain(self.input->0@) && !(value_of(self.input->0@) is Null))
    }

    /// Both hold the same.
    pub open spec fn same(&self, x: ResponsesContentBlock) -> bool {
        &&& self.block_type@ == x.block_type@
        &&& opt_view(self.text) == opt_view(x.text)
        &&& opt_view(self.id) == opt_view(x.id)
        &&& opt_view(self.name) == opt_view(x.name)
        &&& opt_view(self.input) == opt_view(x.input)
    }

    pub open spec fn all_canonical(v: Seq<ResponsesContentBlock>) -> bool {
        forall|i: int| 0 <= i < v.len() ==> (#[trigger] v[i]).canonical()
    }

    pub open spec fn all_same(v: Seq<ResponsesContentBlock>, w: Seq<ResponsesContentBlock>) -> bool {
        &&& v.len() == w.len()
        &&& forall|i: int| 0 <= i < v.len() ==> (#[trigger] v[i]).same(w[i])
    }

    /// Each member stands under its own name, once, with the text of its own value.
    pub proof fn members_stand_under_their_names(x: ResponsesContentBlock, depth: nat)
        requires
            x.canonical(),
            depth >= 4,
        ensures
            members_written(x.members(), depth),
            member_in(x.members(), "type"@) == Some(quoted(x.block_type@)),
            member_in(x.members(), "text"@) == opt_quoted(opt_view(x.text)),
            member_in(x.members(), "id"@) == opt_quoted(opt_view(x.id)),
            member_in(x.members(), "name"@) == opt_quoted(opt_view(x.name)),
            member_in(x.members(), "input"@) == opt_view(x.input),
    {
        reveal_strlit("type");
        reveal_strlit("text");
        reveal_strlit("id");
        reveal_strlit("name");
        reveal_strlit("input");
        assert("type"@[1] != "text"@[1]);
        assert("type"@.len() != "id"@.len());
        assert("type"@[0] != "name"@[0]);
        assert("type"@.len() != "input"@.len());
        assert("text"@.len() != "id"@.len());
        assert("text"@[0] != "name"@[0]);
        assert("text"@.len() != "input"@.len());
        assert("id"@.len() != "name"@.len());
        assert("id"@.len() != "input"@.len());
        assert("name"@.len() != "input"@.len());
        let m0 = no_members();
        lemma_member_push(m0, "type"@, quoted(x.block_type@), depth);
        let m1 = m0.push(("type"@, quoted(x.block_type@)));
        lemma_member_opt(m1, "text"@, opt_quoted(opt_view(x.text)), depth);
        let m2 = m1 + opt_member("text"@, opt_quoted(opt_view(x.text)));
        lemma_member_opt(m2, "id"@, opt_quoted(opt_view(x.id)), depth);
        let m3 = m2 + opt_member("id"@, opt_quoted(opt_view(x.id)));
        lemma_member_opt(m3, "name"@, opt_quoted(opt_view(x.name)), depth);
        let m4 = m3 + opt_member("name"@, opt_quoted(opt_view(x.name)));
        lemma_member_opt(m4, "input"@, opt_view(x.input), depth);
        let m5 = m4 + opt_member("input"@, opt_view(x.input));
        assert(x.members() == m5);
    }

    proof fn lemma_written(x: ResponsesContentBlock, depth: nat)
        requires
            x.canonical(),
            depth >= 5,
        ensures
            written(x.json(), depth),
    {
        ResponsesContentBlock::members_stand_under_their_names(x, (depth - 1) as nat);
    }

    proof fn lemma_all_written(v: Seq<ResponsesContentBlock>, depth: nat)
        requires
            ResponsesContentBlock::all_canonical(v),
            depth >= 5,
        ensures
            items_written(ResponsesContentBlock::all_json(v), depth),
    {
        assert forall|i: int| 0 <= i < v.len() implies written(
            #[trigger] ResponsesContentBlock::all_json(v)[i],
            depth,
        ) by {
            ResponsesContentBlock::lemma_written(v[i], depth);
        }
    }

    /// The keys of the members, in order.
    pub open spec fn keys() -> Seq<Seq<char>> {
        seq!["type"@, "text"@, "id"@, "name"@, "input"@]
    }

    fn key_list() -> (r: Vec<&'static str>)
        ensures
            key_views(r@) == ResponsesContentBlock::keys(),
    {
        let mut keys: Vec<&'static str> = Vec::new();
        keys.push("type");
        keys.push("text");
        keys.push("id");
        keys.push("name");
        keys.push("input");
        assert(key_views(keys@) =~= ResponsesContentBlock::keys());
        keys
    }

    /// An object with a fitting value under each required key.
    pub open spec fn fits(j: JsonView) -> bool {
        &&& text_member(j, "type"@) is Some
        &&& opt_text_member(j, "text"@) is Some
        &&& opt_text_member(j, "id"@) is Some
        &&& opt_text_member(j, "name"@) is Some
        &&& opt_value_member(j, "input"@) is Some
    }

    /// A record with a fitting value for each required member.
    pub open spec fn readable(j: JsonView) -> bool {
        record(j, ResponsesContentBlock::keys()) is Some && ResponsesContentBlock::fits(record(j, ResponsesContentBlock::keys())->0)
    }

    /// This is what the object says.
    pub open spec fn says(&self, j: JsonView) -> bool {
        &&& text_member(j, "type"@) == Some(self.block_type@)
        &&& opt_text_member(j, "text"@) == Some(opt_view(self.text))
        &&& opt_text_member(j, "id"@) == Some(opt_view(self.id))
        &&& opt_text_member(j, "name"@) == Some(opt_view(self.name))
        &&& opt_value_member(j, "input"@) == Some(opt_view(self.input))
    }

    /// This is what the record says.
    pub open spec fn describes(&self, j: JsonView) -> bool {
        self.says(record(j, ResponsesContentBlock::keys())->0)
    }

    /// Reads a record: an object, in which members that are not known are passed over and none of the
    /// others comes twice, or an array of all members in order.
    pub fn from_value(j: &Json) -> (r: Option<ResponsesContentBlock>)
        ensures
            match r {
                Some(x) => ResponsesContentBlock::readable(j@) && x.describes(j@),
                None => !ResponsesContentBlock::readable(j@),
            },
            forall|x: ResponsesContentBlock|
                x.canonical() && j@ == #[trigger] x.object() ==> r is Some && r->0.same(x),
    {
        proof {
            assert forall|x: ResponsesContentBlock| x.canonical() && j@ == #[trigger] x.object() implies members_written(x.members(), 8) && member(j@, "type"@) == Some(quoted(x.block_type@)) && member(j@, "text"@) == opt_quoted(opt_view(x.text)) && member(j@, "id"@) == opt_quoted(opt_view(x.id)) && member(j@, "name"@) == opt_quoted(opt_view(x.name)) && member(j@, "input"@) == opt_view(x.input) by {
                ResponsesContentBlock::members_stand_under_their_names(x, 8);
            }
        }
        let o = match as_record(j, &ResponsesContentBlock::key_list()) {
            Some(o) => o,
            None => {
                return None;
            },
        };
        let block_type = match get_text(&o, "type") {
            Some(x) => x,
            None => {
                return None;
            },
        };
        let text = match get_opt_text(&o, "text") {
            Some(x) => x,
            None => {
                return None;
            },
        };
        let id = match get_opt_text(&o, "id") {
            Some(x) => x,
            None => {
                return None;
            },
        };
        let name = match get_opt_text(&o, "name") {
            Some(x) => x,
            None => {
                return None;
            },
        };
        let input = match get_opt_value(&o, "input") {
            Some(x) => x,
            None => {
                return None;
            },
        };
        Some(ResponsesContentBlock { block_type, text, id, name, input })
    }

    /// Reads JSON text; what was written is read back.
    pub fn from_json(text: &str) -> (r: Option<ResponsesContentBlock>)
        ensures
            match r {
                Some(x) => ResponsesContentBlock::readable(shape_of(text@)) && x.describes(shape_of(text@)),
                None => !ResponsesContentBlock::readable(shape_of(text@)),
            },
            forall|x: ResponsesContentBlock|
                x.canonical() && text@ == #[trigger] x.json() ==> r is Some && r->0.same(x),
    {
        proof {
            assert forall|x: ResponsesContentBlock| x.canonical() && text@ == #[trigger] x.json() implies members_written(
                x.members(),
                8,
            ) && x.object() == JsonView::Object(x.members()) by {
                ResponsesContentBlock::members_stand_under_their_names(x, 8);
            }
        }
        let j = read_shape(text);
        ResponsesContentBlock::from_value(&j)
    }

    pub open spec fn all_readable(items: Seq<Seq<char>>) -> bool {
        forall|i: int| 0 <= i < items.len() ==> ResponsesContentBlock::readable(shape_of(#[trigger] items[i]))
    }

    pub open spec fn all_described(v: Seq<ResponsesContentBlock>, items: Seq<Seq<char>>) -> bool {
        &&& v.len() == items.len()
        &&& forall|i: int| 0 <= i < v.len() ==> (#[trigger] v[i]).describes(shape_of(items[i]))
    }

    pub fn read_all(items: &Vec<String>) -> (r: Option<Vec<ResponsesContentBlock>>)
        ensures
            match r {
                Some(v) => ResponsesContentBlock::all_readable(views(items@)) && ResponsesContentBlock::all_described(
                    v@,
                    views(items@),
                ),
                None => !ResponsesContentBlock::all_readable(views(items@)),
            },
            forall|v: Seq<ResponsesContentBlock>|
                ResponsesContentBlock::all_canonical(v) && views(items@) == #[trigger] ResponsesContentBlock::all_json(v) ==> r is Some
                    && ResponsesContentBlock::all_same(r->0@, v),
    {
        let mut out: Vec<ResponsesContentBlock> = Vec::new();
        let mut i: usize = 0;
        while i < items.len()
            invariant
                i <= items@.len(),
                out@.len() == i,
                forall|k: int|
                    0 <= k < i ==> ResponsesContentBlock::readable(shape_of(#[trigger] views(items@)[k])),
                forall|k: int|
                    0 <= k < i ==> (#[trigger] out@[k]).describes(shape_of(views(items@)[k])),
                forall|v: Seq<ResponsesContentBlock>, k: int|
                    ResponsesContentBlock::all_canonical(v) && views(items@) == #[trigger] ResponsesContentBlock::all_json(v) && 0 <= k < i
                        ==> (#[trigger] out@[k]).same(v[k]),
            decreases items@.len() - i,
        {
            let j = read_shape(&items[i]);
            assert(views(items@)[i as int] == items@[i as int]@);
            proof {
                assert forall|v: Seq<ResponsesContentBlock>|
                    ResponsesContentBlock::all_canonical(v) && views(items@) == #[trigger] ResponsesContentBlock::all_json(v) implies j@
                    == v[i as int].object() && v[i as int].canonical() by {
                    assert(ResponsesContentBlock::all_json(v).len() == v.len());
                    assert(views(items@).len() == items@.len());
                    ResponsesContentBlock::members_stand_under_their_names(v[i as int], 8);
                    assert(ResponsesContentBlock::all_json(v)[i as int] == v[i as int].json());
                }
            }
            match ResponsesContentBlock::from_value(&j) {
                Some(x) => {
                    out.push(x);
                },
                None => {
                    return None;
                },
            }
            i = i + 1;
        }
        Some(out)
    }
}

impl ResponsesUsage {
    /// The members in order, optional ones only where they are given.
    pub open spec fn members(&self) -> Seq<(Seq<char>, Seq<char>)> {
        no_members().push(("input_tokens"@, decimal(self.input_tokens as nat))).push(("output_tokens"@, decimal(self.output_tokens as nat)))
    }

    /// The JSON text.
    pub open spec fn json(&self) -> Seq<char> {
        object_text(self.members())
    }

    /// The JSON value.
    pub open spec fn object(&self) -> JsonView {
        JsonView::Object(self.members())
    }

    pub fn to_json(&self) -> (r: String)
        ensures
            r@ == self.json(),
    {
        let mut m = new_members();
        push_member(&mut m, "input_tokens", u64_text(self.input_tokens));
        push_member(&mut m, "output_tokens", u64_text(self.output_tokens));
        write_object(&m)
    }

    /// The values inside are texts as they are written.
    pub open spec fn canonical(&self) -> bool {
        true
    }

    /// Both hold the same.
    pub open spec fn same(&self, x: ResponsesUsage) -> bool {
        &&& self.input_tokens == x.input_tokens
        &&& self.output_tokens == x.output_tokens
    }

    /// Each member stands under its own name, once, with the text of its own value.
    pub proof fn members_stand_under_their_names(x: ResponsesUsage, depth: nat)
        requires
            x.canonical(),
        ensures
            members_written(x.members(), depth),
            member_in(x.members(), "input_tokens"@) == Some(decimal(x.input_tokens as nat)),
            member_in(x.members(), "output_tokens"@) == Some(decimal(x.output_tokens as nat)),
    {
        reveal_strlit("input_tokens");
        reveal_strlit("output_tokens");
        assert("input_tokens"@.len() != "output_tokens"@.len());
        let m0 = no_members();
        lemma_member_push(m0, "input_tokens"@, decimal(x.input_tokens as nat), depth);
        let m1 = m0.push(("input_tokens"@, decimal(x.input_tokens as nat)));
        lemma_member_push(m1, "output_tokens"@, decimal(x.output_tokens as nat), depth);
        let m2 = m1.push(("output_tokens"@, decimal(x.output_tokens as nat)));
        assert(x.members() == m2);
    }

    proof fn lemma_written(x: ResponsesUsage, depth: nat)
        requires
            x.canonical(),
            depth >= 1,
        ensures
            written(x.json(), depth),
    {
        ResponsesUsage::members_stand_under_their_names(x, (depth - 1) as nat);
    }

    /// The keys of the members, in order.
    pub open spec fn keys() -> Seq<Seq<char>> {
        seq!["input_tokens"@, "output_tokens"@]
    }

    fn key_list() -> (r: Vec<&'static str>)
        ensures
            key_views(r@) == ResponsesUsage::keys(),
    {
        let mut keys: Vec<&'static str> = Vec::new();
        keys.push("input_tokens");
        keys.push("output_tokens");
        assert(key_views(keys@) =~= ResponsesUsage::keys());
        keys
    }

    /// An object with a fitting value under each required key.
    pub open spec fn fits(j: JsonView) -> bool {
        &&& unsigned_member(j, "input_tokens"@) is Some
        &&& unsigned_member(j, "output_tokens"@) is Some
    }

    /// A record with a fitting value for each required member.
    pub open spec fn readable(j: JsonView) -> bool {
        record(j, ResponsesUsage::keys()) is Some && ResponsesUsage::fits(record(j, ResponsesUsage::keys())->0)
    }

    /// This is what the object says.
    pub open spec fn says(&self, j: JsonView) -> bool {
        &&& unsigned_member(j, "input_tokens"@) == Some(self.input_tokens)
        &&& unsigned_member(j, "output_tokens"@) == Some(self.output_tokens)
    }

    /// This is what the record says.
    pub open spec fn describes(&self, j: JsonView) -> bool {
        self.says(record(j, ResponsesUsage::keys())->0)
    }

    /// Reads a record: an object, in which members that are not known are passed over and none of the
    /// others comes twice, or an array of all members in order.
    pub fn from_value(j: &Json) -> (r: Option<ResponsesUsage>)
        ensures
            match r {
                Some(x) => ResponsesUsage::readable(j@) && x.describes(j@),
                None => !ResponsesUsage::readable(j@),
            },
            forall|x: ResponsesUsage|
                x.canonical() && j@ == #[trigger] x.object() ==> r is Some && r->0.same(x),
    {
        proof {
            assert forall|x: ResponsesUsage| x.canonical() && j@ == #[trigger] x.object() implies members_written(x.members(), 8) && member(j@, "input_tokens"@) == Some(decimal(x.input_tokens as nat)) && member(j@, "output_tokens"@) == Some(decimal(x.output_tokens as nat)) by {
                ResponsesUsage::members_stand_under_their_names(x, 8);
            }
        }
        let o = match as_record(j, &ResponsesUsage::key_list()) {
            Some(o) => o,
            None => {
                return None;
            },
        };
        let input_tokens = match get_unsigned(&o, "input_tokens") {
            Some(x) => x,
            None => {
                return None;
            },
        };
        let output_tokens = match get_unsigned(&o, "output_tokens") {
            Some(x) => x,
            None => {
                return None;
            },
        };
        Some(ResponsesUsage { input_tokens, output_tokens })
    }

    /// Reads JSON text; what was written is read back.
    pub fn from_json(text: &str) -> (r: Option<ResponsesUsage>)
        ensures
            match r {
                Some(x) => ResponsesUsage::readable(shape_of(text@)) && x.describes(shape_of(text@)),
                None => !ResponsesUsage::readable(shape_of(text@)),
            },
            forall|x: ResponsesUsage|
                x.canonical() && text@ == #[trigger] x.json() ==> r is Some && r->0.same(x),
    {
        proof {
            assert forall|x: ResponsesUsage| x.canonical() && text@ == #[trigger] x.json() implies members_written(
                x.members(),
                8,
            ) && x.object() == JsonView::Object(x.members()) by {
                ResponsesUsage::members_stand_under_their_names(x, 8);
            }
        }
        let j = read_shape(text);
        ResponsesUsage::from_value(&j)
    }
}

impl ResponsesResponse {
    /// The members in order, optional ones only where they are given.
    pub open spec fn members(&self) -> Seq<(Seq<char>, Seq<char>)> {
        no_members().push(("id"@, quoted(self.id@))).push(("type"@, quoted(self.response_type@))).push(("role"@, quoted(self.role@))).push(("model"@, quoted(self.model@))).push(("content"@, array_text(ResponsesContentBlock::all_json(self.content@)))).push(("stop_reason"@, quoted(self.stop_reason@))).push(("usage"@, self.usage.json()))
    }

    /// The JSON text.
    pub open spec fn json(&self) -> Seq<char> {
        object_text(self.members())
    }

    /// The JSON value.
    pub open spec fn object(&self) -> JsonView {
        JsonView::Object(self.members())
    }

    pub fn to_json(&self) -> (r: String)
        ensures
            r@ == self.json(),
    {
        let mut m = new_members();
        push_member(&mut m, "id", quote(&self.id));
        push_member(&mut m, "type", quote(&self.response_type));
        push_member(&mut m, "role", quote(&self.role));
        push_member(&mut m, "model", quote(&self.model));
        let items = ResponsesContentBlock::write_all(&self.content);
        push_member(&mut m, "content", write_array(&items));
        push_member(&mut m, "stop_reason", quote(&self.stop_reason));
        push_member(&mut m, "usage", self.usage.to_json());
        write_object(&m)
    }

    /// The values inside are texts as they are written.
    pub open spec fn canonical(&self) -> bool {
        &&& ResponsesContentBlock::all_canonical(self.content@)
        &&& self.usage.canonical()
    }

    /// Both hold the same.
    pub open spec fn same(&self, x: ResponsesResponse) -> bool {
        &&& self.id@ == x.id@
        &&& self.response_type@ == x.response_type@
        &&& self.role@ == x.role@
        &&& self.model@ == x.model@
        &&& ResponsesContentBlock::all_same(self.content@, x.content@)
        &&& self.stop_reason@ == x.stop_reason@
        &&& self.usage.same(x.usage)
    }

    /// Each member stands under its own name, once, with the text of its own value.
    pub proof fn members_stand_under_their_names(x: ResponsesResponse, depth: nat)
        requires
            x.canonical(),
            depth >= 6,
        ensures
            members_written(x.members(), depth),
            member_in(x.members(), "id"@) == Some(quoted(x.id@)),
            member_in(x.members(), "type"@) == Some(quoted(x.response_type@)),
            member_in(x.members(), "role"@) == Some(quoted(x.role@)),
            member_in(x.members(), "model"@) == Some(quoted(x.model@)),
            member_in(x.members(), "content"@) == Some(array_text(ResponsesContentBlock::all_json(x.content@))),
            member_in(x.members(), "stop_reason"@) == Some(quoted(x.stop_reason@)),
            member_in(x.members(), "usage"@) == Some(x.usage.json()),
    {
        reveal_strlit("id");
        reveal_strlit("type");
        reveal_strlit("role");
        reveal_strlit("model");
        reveal_strlit("content");
        reveal_strlit("stop_reason");
        reveal_strlit("usage");
        assert("id"@.len() != "type"@.len());
        assert("id"@.len() != "role"@.len());
        assert("id"@.len() != "model"@.len());
        assert("id"@.len() != "content"@.len());
        assert("id"@.len() != "stop_reason"@.len());
        assert("id"@.len() != "usage"@.len());
        assert("type"@[0] != "role"@[0]);
        assert("type"@.len() != "model"@.len());
        assert("type"@.len() != "content"@.len());
        assert("type"@.len() != "stop_reason"@.len());
        assert("type"@.len() != "usage"@.len());
        assert("role"@.len() != "model"@.len());
        assert("role"@.len() != "content"@.len());
        assert("role"@.len() != "stop_reason"@.len());
        assert("role"@.len() != "usage"@.len());
        assert("model"@.len() != "content"@.len());
        assert("model"@.len() != "stop_reason"@.len());
        assert("model"@[0] != "usage"@[0]);
        assert("content"@.len() != "stop_reason"@.len());
        assert("content"@.len() != "usage"@.len());
        assert("stop_reason"@.len() != "usage"@.len());
        let m0 = no_members();
        lemma_member_push(m0, "id"@, quoted(x.id@), depth);
        let m1 = m0.push(("id"@, quoted(x.id@)));
        lemma_member_push(m1, "type"@, quoted(x.response_type@), depth);
        let m2 = m1.push(("type"@, quoted(x.response_type@)));
        lemma_member_push(m2, "role"@, quoted(x.role@), depth);
        let m3 = m2.push(("role"@, quoted(x.role@)));
        lemma_member_push(m3, "model"@, quoted(x.model@), depth);
        let m4 = m3.push(("model"@, quoted(x.model@)));
        ResponsesContentBlock::lemma_all_written(x.content@, (depth - 1) as nat);
        assert(written(array_text(ResponsesContentBlock::all_json(x.content@)), depth));
        lemma_member_push(m4, "content"@, array_text(ResponsesContentBlock::all_json(x.content@)), depth);
        let m5 = m4.push(("content"@, array_text(ResponsesContentBlock::all_json(x.content@))));
        lemma_member_push(m5, "stop_reason"@, quoted(x.stop_reason@), depth);
        let m6 = m5.push(("stop_reason"@, quoted(x.stop_reason@)));
        ResponsesUsage::lemma_written(x.usage, depth);
        lemma_member_push(m6, "usage"@, x.usage.json(), depth);
        let m7 = m6.push(("usage"@, x.usage.json()));
        assert(x.members() == m7);
    }

    proof fn lemma_written(x: ResponsesResponse, depth: nat)
        requires
            x.canonical(),
            depth >= 7,
        ensures
            written(x.json(), depth),
    {
        ResponsesResponse::members_stand_under_their_names(x, (depth - 1) as nat);
    }

    /// The keys of the members, in order.
    pub open spec fn keys() -> Seq<Seq<char>> {
        seq!["id"@, "type"@, "role"@, "model"@, "content"@, "stop_reason"@, "usage"@]
    }

    fn key_list() -> (r: Vec<&'static str>)
        ensures
            key_views(r@) == ResponsesResponse::keys(),
    {
        let mut keys: Vec<&'static str> = Vec::new();
        keys.push("id");
        keys.push("type");
        keys.push("role");
        keys.push("model");
        keys.push("content");
        keys.push("stop_reason");
        keys.push("usage");
        assert(key_views(keys@) =~= ResponsesResponse::keys());
        keys
    }

    /// An object with a fitting value under each required key.
    pub open spec fn fits(j: JsonView) -> bool {
        &&& text_member(j, "id"@) is Some
        &&& text_member(j, "type"@) is Some
        &&& text_member(j, "role"@) is Some
        &&& text_member(j, "model"@) is Some
        &&& array_member(j, "content"@) is Some && ResponsesContentBlock::all_readable(array_member(j, "content"@)->0)
        &&& text_member(j, "stop_reason"@) is Some
        &&& member(j, "usage"@) is Some && ResponsesUsage::readable(shape_of(member(j, "usage"@)->0))
    }

    /// A record with a fitting value for each required member.
    pub open spec fn readable(j: JsonView) -> bool {
        record(j, ResponsesResponse::keys()) is Some && ResponsesResponse::fits(record(j, ResponsesResponse::keys())->0)
    }

    /// This is what the object says.
    pub open spec fn says(&self, j: JsonView) -> bool {
        &&& text_member(j, "id"@) == Some(self.id@)
        &&& text_member(j, "type"@) == Some(self.response_type@)
        &&& text_member(j, "role"@) == Some(self.role@)
        &&& text_member(j, "model"@) == Some(self.model@)
        &&& ResponsesContentBlock::all_described(self.content@, array_member(j, "content"@)->0)
        &&& text_member(j, "stop_reason"@) == Some(self.stop_reason@)
        &&& self.usage.describes(shape_of(member(j, "usage"@)->0))
    }

    /// This is what the record says.
    pub open spec fn describes(&self, j: JsonView) -> bool {
        self.says(record(j, ResponsesResponse::keys())->0)
    }

    /// Reads a record: an object, in which members that are not known are passed over and none of the
    /// others comes twice, or an array of all members in order.
    pub fn from_value(j: &Json) -> (r: Option<ResponsesResponse>)
        ensures
            match r {
                Some(x) => ResponsesResponse::readable(j@) && x.describes(j@),
                None => !ResponsesResponse::readable(j@),
            },
            forall|x: ResponsesResponse|
                x.canonical() && j@ == #[trigger] x.object() ==> r is Some && r->0.same(x),
    {
        proof {
            assert forall|x: ResponsesResponse| x.canonical() && j@ == #[trigger] x.object() implies members_written(x.members(), 8) && member(j@, "id"@) == Some(quoted(x.id@)) && member(j@, "type"@) == Some(quoted(x.response_type@)) && member(j@, "role"@) == Some(quoted(x.role@)) && member(j@, "model"@) == Some(quoted(x.model@)) && member(j@, "content"@) == Some(array_text(ResponsesContentBlock::all_json(x.content@))) && member(j@, "stop_reason"@) == Some(quoted(x.stop_reason@)) && member(j@, "usage"@) == Some(x.usage.json()) && members_written(x.usage.members(), 8) && x.usage.object() == JsonView::Object(x.usage.members()) && items_written(ResponsesContentBlock::all_json(x.content@), 8) by {
                ResponsesResponse::members_stand_under_their_names(x, 8);
                ResponsesUsage::members_stand_under_their_names(x.usage, 8);
                ResponsesContentBlock::lemma_all_written(x.content@, 8);
            }
        }
        let o = match as_record(j, &ResponsesResponse::key_list()) {
            Some(o) => o,
            None => {
                return None;
            },
        };
        let id = match get_text(&o, "id") {
            Some(x) => x,
            None => {
                return None;
            },
        };
        let response_type = match get_text(&o, "type") {
            Some(x) => x,
            None => {
                return None;
            },
        };
        let role = match get_text(&o, "role") {
            Some(x) => x,
            None => {
                return None;
            },
        };
        let model = match get_text(&o, "model") {
            Some(x) => x,
            None => {
                return None;
            },
        };
        let content = match get_array(&o, "content") {
            Some(a) => match ResponsesContentBlock::read_all(&a) {
                Some(x) => x,
                None => {
                    return None;
                },
            },
            None => {
                return None;
            },
        };
        let stop_reason = match get_text(&o, "stop_reason") {
            Some(x) => x,
            None => {
                return None;
            },
        };
        let usage = match member_text(&o, "usage") {
            Some(t) => match ResponsesUsage::from_value(&read_shape(&t)) {
                Some(x) => x,
                None => {
                    return None;
                },
            },
            None => {
                return None;
            },
        };
        Some(ResponsesResponse { id, response_type, role, model, content, stop_reason, usage })
    }

    /// Reads JSON text; what was written is read back.
    pub fn from_json(text: &str) -> (r: Option<ResponsesResponse>)
        ensures
            match r {
                Some(x) => ResponsesResponse::readable(shape_of(text@)) && x.describes(shape_of(text@)),
                None => !ResponsesResponse::readable(shape_of(text@)),
            },
            forall|x: ResponsesResponse|
                x.canonical() && text@ == #[trigger] x.json() ==> r is Some && r->0.same(x),
    {
        proof {
            assert forall|x: ResponsesResponse| x.canonical() && text@ == #[trigger] x.json() implies members_written(
                x.members(),
                8,
            ) && x.object() == JsonView::Object(x.members()) by {
                ResponsesResponse::members_stand_under_their_names(x, 8);
            }
        }
        let j = read_shape(text);
        ResponsesResponse::from_value(&j)
    }
}

impl ResponsesErrorDetail {
    /// The members in order, optional ones only where they are given.
    pub open spec fn members(&self) -> Seq<(Seq<char>, Seq<char>)> {
        no_members().push(("type"@, quoted(self.error_type@))) + opt_member("message"@, opt_quoted(opt_view(self.message)))
    }

    /// The JSON text.
    pub open spec fn json(&self) -> Seq<char> {
        object_text(self.members())
    }

    /// The JSON value.
    pub open spec fn object(&self) -> JsonView {
        JsonView::Object(self.members())
    }

    pub fn to_json(&self) -> (r: String)
        ensures
            r@ == self.json(),
    {
        let mut m = new_members();
        push_member(&mut m, "type", quote(&self.error_type));
        push_opt(&mut m, "message", quote_opt(&self.message));
        write_object(&m)
    }

    /// The values inside are texts as they are written.
    pub open spec fn canonical(&self) -> bool {
        true
    }

    /// Both hold the same.
    pub open spec fn same(&self, x: ResponsesErrorDetail) -> bool {
        &&& self.error_type@ == x.error_type@
        &&& opt_view(self.message) == opt_view(x.message)
    }

    /// Each member stands under its own name, once, with the text of its own value.
    pub proof fn members_stand_under_their_names(x: ResponsesErrorDetail, depth: nat)
        requires
            x.canonical(),
        ensures
            members_written(x.members(), depth),
            member_in(x.members(), "type"@) == Some(quoted(x.error_type@)),
            member_in(x.members(), "message"@) == opt_quoted(opt_view(x.message)),
    {
        reveal_strlit("type");
        reveal_strlit("message");
        assert("type"@.len() != "message"@.len());
        let m0 = no_members();
        lemma_member_push(m0, "type"@, quoted(x.error_type@), depth);
        let m1 = m0.push(("type"@, quoted(x.error_type@)));
        lemma_member_opt(m1, "message"@, opt_quoted(opt_view(x.message)), depth);
        let m2 = m1 + opt_member("message"@, opt_quoted(opt_view(x.message)));
        assert(x.members() == m2);
    }

    proof fn lemma_written(x: ResponsesErrorDetail, depth: nat)
        requires
            x.canonical(),
            depth >= 1,
        ensures
            written(x.json(), depth),
    {
        ResponsesErrorDetail::members_stand_under_their_names(x, (depth - 1) as nat);
    }

    /// The keys of the members, in order.
    pub open spec fn keys() -> Seq<Seq<char>> {
        seq!["type"@, "message"@]
    }

    fn key_list() -> (r: Vec<&'static str>)
        ensures
            key_views(r@) == ResponsesErrorDetail::keys(),
    {
        let mut keys: Vec<&'static str> = Vec::new();
        keys.push("type");
        keys.push("message");
        assert(key_views(keys@) =~= ResponsesErrorDetail::keys());
        keys
    }

    /// An object with a fitting value under each required key.
    pub open spec fn fits(j: JsonView) -> bool {
        &&& text_member(j, "type"@) is Some
        &&& opt_text_member(j, "message"@) is Some
    }

    /// A record with a fitting value for each required member.
    pub open spec fn readable(j: JsonView) -> bool {
        record(j, ResponsesErrorDetail::keys()) is Some && ResponsesErrorDetail::fits(record(j, ResponsesErrorDetail::keys())->0)
    }

    /// This is what the object says.
    pub open spec fn says(&self, j: JsonView) -> bool {
        &&& text_member(j, "type"@) == Some(self.error_type@)
        &&& opt_text_member(j, "message"@) == Some(opt_view(self.message))
    }

    /// This is what the record says.
    pub open spec fn describes(&self, j: JsonView) -> bool {
        self.says(record(j, ResponsesErrorDetail::keys())->0)
    }

    /// Reads a record: an object, in which members that are not known are passed over and none of the
    /// others comes twice, or an array of all members in order.
    pub fn from_value(j: &Json) -> (r: Option<ResponsesErrorDetail>)
        ensures
            match r {
                Some(x) => ResponsesErrorDetail::readable(j@) && x.describes(j@),
                None => !ResponsesErrorDetail::readable(j@),
            },
            forall|x: ResponsesErrorDetail|
                x.canonical() && j@ == #[trigger] x.object() ==> r is Some && r->0.same(x),
    {
        proof {
            assert forall|x: ResponsesErrorDetail| x.canonical() && j@ == #[trigger] x.object() implies members_written(x.members(), 8) && member(j@, "type"@) == Some(quoted(x.error_type@)) && member(j@, "message"@) == opt_quoted(opt_view(x.message)) by {
                ResponsesErrorDetail::members_stand_under_their_names(x, 8);
            }
        }
        let o = match as_record(j, &ResponsesErrorDetail::key_list()) {
            Some(o) => o,
            None => {
                return None;
            },
        };
        let error_type = match get_text(&o, "type") {
            Some(x) => x,
            None => {
                return None;
            },
        };
        let message = match get_opt_text(&o, "message") {
            Some(x) => x,
            None => {
                return None;
            },
        };
        Some(ResponsesErrorDetail { error_type, message })
    }

    /// Reads JSON text; what was written is read back.
    pub fn from_json(text: &str) -> (r: Option<ResponsesErrorDetail>)
        ensures
            match r {
                Some(x) => ResponsesErrorDetail::readable(shape_of(text@)) && x.describes(shape_of(text@)),
                None => !ResponsesErrorDetail::readable(shape_of(text@)),
            },
            forall|x: ResponsesErrorDetail|
                x.canonical() && text@ == #[trigger] x.json() ==> r is Some && r->0.same(x),
    {
        proof {
            assert forall|x: ResponsesErrorDetail| x.canonical() && text@ == #[trigger] x.json() implies members_written(
                x.members(),
                8,
            ) && x.object() == JsonView::Object(x.members()) by {
                ResponsesErrorDetail::members_stand_under_their_names(x, 8);
            }
        }
        let j = read_shape(text);
        ResponsesErrorDetail::from_value(&j)
    }
}

impl ResponsesError {
    /// The members in order, optional ones only where they are given.
    pub open spec fn members(&self) -> Seq<(Seq<char>, Seq<char>)> {
        no_members().push(("error"@, self.error.json()))
    }

    /// The JSON text.
    pub open spec fn json(&self) -> Seq<char> {
        object_text(self.members())
    }

    /// The JSON value.
    pub open spec fn object(&self) -> JsonView {
        JsonView::Object(self.members())
    }

    pub fn to_json(&self) -> (r: String)
        ensures
            r@ == self.json(),
    {
        let mut m = new_members();
        push_member(&mut m, "error", self.error.to_json());
        write_object(&m)
    }

    /// The values inside are texts as they are written.
    pub open spec fn canonical(&self) -> bool {
        &&& self.error.canonical()
    }

    /// Both hold the same.
    pub open spec fn same(&self, x: ResponsesError) -> bool {
        &&& self.error.same(x.error)
    }

    /// Each member stands under its own name, once, with the text of its own value.
    pub proof fn members_stand_under_their_names(x: ResponsesError, depth: nat)
        requires
            x.canonical(),
            depth >= 1,
        ensures
            members_written(x.members(), depth),
            member_in(x.members(), "error"@) == Some(x.error.json()),
    {
        reveal_strlit("error");
        let m0 = no_members();
        ResponsesErrorDetail::lemma_written(x.error, depth);
        lemma_member_push(m0, "error"@, x.error.json(), depth);
        let m1 = m0.push(("error"@, x.error.json()));
        assert(x.members() == m1);
    }

    proof fn lemma_written(x: ResponsesError, depth: nat)
        requires
            x.canonical(),
            depth >= 2,
        ensures
            written(x.json(), depth),
    {
        ResponsesError::members_stand_under_their_names(x, (depth - 1) as nat);
    }

    /// The keys of the members, in order.
    pub open spec fn keys() -> Seq<Seq<char>> {
        seq!["error"@]
    }

    fn key_list() -> (r: Vec<&'static str>)
        ensures
            key_views(r@) == ResponsesError::keys(),
    {
        let mut keys: Vec<&'static str> = Vec::new();
        keys.push("error");
        assert(key_views(keys@) =~= ResponsesError::keys());
        keys
    }

    /// An object with a fitting value under each required key.
    pub open spec fn fits(j: JsonView) -> bool {
        &&& member(j, "error"@) is Some && ResponsesErrorDetail::readable(shape_of(member(j, "error"@)->0))
    }

    /// A record with a fitting value for each required member.
    pub open spec fn readable(j: JsonView) -> bool {
        record(j, ResponsesError::keys()) is Some && ResponsesError::fits(record(j, ResponsesError::keys())->0)
    }

    /// This is what the object says.
    pub open spec fn says(&self, j: JsonView) -> bool {
        &&& self.error.describes(shape_of(member(j, "error"@)->0))
    }

    /// This is what the record says.
    pub open spec fn describes(&self, j: JsonView) -> bool {
        self.says(record(j, ResponsesError::keys())->0)
    }

    /// Reads a record: an object, in which members that are not known are passed over and none of the
    /// others comes twice, or an array of all members in order.
    pub fn from_value(j: &Json) -> (r: Option<ResponsesError>)
        ensures
            match r {
                Some(x) => ResponsesError::readable(j@) && x.describes(j@),
                None => !ResponsesError::readable(j@),
            },
            forall|x: ResponsesError|
                x.canonical() && j@ == #[trigger] x.object() ==> r is Some && r->0.same(x),
    {
        proof {
            assert forall|x: ResponsesError| x.canonical() && j@ == #[trigger] x.object() implies members_written(x.members(), 8) && member(j@, "error"@) == Some(x.error.json()) && members_written(x.error.members(), 8) && x.error.object() == JsonView::Object(x.error.members()) by {
                ResponsesError::members_stand_under_their_names(x, 8);
                ResponsesErrorDetail::members_stand_under_their_names(x.error, 8);
            }
        }
        let o = match as_record(j, &ResponsesError::key_list()) {
            Some(o) => o,
            None => {
                return None;
            },
        };
        let error = match member_text(&o, "error") {
            Some(t) => match ResponsesErrorDetail::from_value(&read_shape(&t)) {
                Some(x) => x,
                None => {
                    return None;
                },
            },
            None => {
                return None;
            },
        };
        Some(ResponsesError { error })
    }

    /// Reads JSON text; what was written is read back.
    pub fn from_json(text: &str) -> (r: Option<ResponsesError>)
        ensures
            match r {
                Some(x) => ResponsesError::readable(shape_of(text@)) && x.describes(shape_of(text@)),
                None => !ResponsesError::readable(shape_of(text@)),
            },
            forall|x: ResponsesError|
                x.canonical() && text@ == #[trigger] x.json() ==> r is Some && r->0.same(x),
    {
        proof {
            assert forall|x: ResponsesError| x.canonical() && text@ == #[trigger] x.json() implies members_written(
                x.members(),
                8,
            ) && x.object() == JsonView::Object(x.members()) by {
                ResponsesError::members_stand_under_their_names(x, 8);
            }
        }
        let j = read_shape(text);
        ResponsesError::from_value(&j)
    }
}

impl MessageStartEvent {
    /// The members in order, optional ones only where they are given.
    pub open spec fn members(&self) -> Seq<(Seq<char>, Seq<char>)> {
        no_members().push(("type"@, quoted(self.event_type@))).push(("message"@, self.message.json()))
    }

    /// The JSON text.
    pub open spec fn json(&self) -> Seq<char> {
        object_text(self.members())
    }

    /// The JSON value.
    pub open spec fn object(&self) -> JsonView {
        JsonView::Object(self.members())
    }

    pub fn to_json(&self) -> (r: String)
        ensures
            r@ == self.json(),
    {
        let mut m = new_members();
        push_member(&mut m, "type", quote(&self.event_type));
        push_member(&mut m, "message", self.message.to_json());
        write_object(&m)
    }

    /// The values inside are texts as they are written.
    pub open spec fn canonical(&self) -> bool {
        &&& self.message.canonical()
    }

    /// Both hold the same.
    pub open spec fn same(&self, x: MessageStartEvent) -> bool {
        &&& self.event_type@ == x.event_type@
        &&& self.message.same(x.message)
    }

    /// Each member stands under its own name, once, with the text of its own value.
    pub proof fn members_stand_under_their_names(x: MessageStartEvent, depth: nat)
        requires
            x.canonical(),
            depth >= 7,
        ensures
            members_written(x.members(), depth),
            member_in(x.members(), "type"@) == Some(quoted(x.event_type@)),
            member_in(x.members(), "message"@) == Some(x.message.json()),
    {
        reveal_strlit("type");
        reveal_strlit("message");
        assert("type"@.len() != "message"@.len());
        let m0 = no_members();
        lemma_member_push(m0, "type"@, quoted(x.event_type@), depth);
        let m1 = m0.push(("type"@, quoted(x.event_type@)));
        ResponsesResponse::lemma_written(x.message, depth);
        lemma_member_push(m1, "message"@, x.message.json(), depth);
        let m2 = m1.push(("message"@, x.message.json()));
        assert(x.members() == m2);
    }

    proof fn lemma_written(x: MessageStartEvent, depth: nat)
        requires
            x.canonical(),
            depth >= 8,
        ensures
            written(x.json(), depth),
    {
        MessageStartEvent::members_stand_under_their_names(x, (depth - 1) as nat);
    }

    /// The keys of the members, in order.
    pub open spec fn keys() -> Seq<Seq<char>> {
        seq!["type"@, "message"@]
    }

    fn key_list() -> (r: Vec<&'static str>)
        ensures
            key_views(r@) == MessageStartEvent::keys(),
    {
        let mut keys: Vec<&'static str> = Vec::new();
        keys.push("type");
        keys.push("message");
        assert(key_views(keys@) =~= MessageStartEvent::keys());
        keys
    }

    /// An object with a fitting value under each required key.
    pub open spec fn fits(j: JsonView) -> bool {
        &&& text_member(j, "type"@) is Some
        &&& member(j, "message"@) is Some && ResponsesResponse::readable(shape_of(member(j, "message"@)->0))
    }

    /// A record with a fitting value for each required member.
    pub open spec fn readable(j: JsonView) -> bool {
        record(j, MessageStartEvent::keys()) is Some && MessageStartEvent::fits(record(j, MessageStartEvent::keys())->0)
    }

    /// This is what the object says.
    pub open spec fn says(&self, j: JsonView) -> bool {
        &&& text_member(j, "type"@) == Some(self.event_type@)
        &&& self.message.describes(shape_of(member(j, "message"@)->0))
    }

    /// This is what the record says.
    pub open spec fn describes(&self, j: JsonView) -> bool {
        self.says(record(j, MessageStartEvent::keys())->0)
    }

    /// Reads a record: an object, in which members that are not known are passed over and none of the
    /// others comes twice, or an array of all members in order.
    pub fn from_value(j: &Json) -> (r: Option<MessageStartEvent>)
        ensures
            match r {
                Some(x) => MessageStartEvent::readable(j@) && x.describes(j@),
                None => !MessageStartEvent::readable(j@),
            },
            forall|x: MessageStartEvent|
                x.canonical() && j@ == #[trigger] x.object() ==> r is Some && r->0.same(x),
    {
        proof {
            assert forall|x: MessageStartEvent| x.canonical() && j@ == #[trigger] x.object() implies members_written(x.members(), 8) && member(j@, "type"@) == Some(quoted(x.event_type@)) && member(j@, "message"@) == Some(x.message.json()) && members_written(x.message.members(), 8) && x.message.object() == JsonView::Object(x.message.members()) by {
                MessageStartEvent::members_stand_under_their_names(x, 8);
                ResponsesResponse::members_stand_under_their_names(x.message, 8);
            }
        }
        let o = match as_record(j, &MessageStartEvent::key_list()) {
            Some(o) => o,
            None => {
                return None;
            },
        };
        let event_type = match get_text(&o, "type") {
            Some(x) => x,
            None => {
                return None;
            },
        };
        let message = match member_text(&o, "message") {
            Some(t) => match ResponsesResponse::from_value(&read_shape(&t)) {
                Some(x) => x,
                None => {
                    return None;
                },
            },
            None => {
                return None;
            },
        };
        Some(MessageStartEvent { event_type, message })
    }

    /// Reads JSON text; what was written is read back.
    pub fn from_json(text: &str) -> (r: Option<MessageStartEvent>)
        ensures
            match r {
                Some(x) => MessageStartEvent::readable(shape_of(text@)) && x.describes(shape_of(text@)),
                None => !MessageStartEvent::readable(shape_of(text@)),
            },
            forall|x: MessageStartEvent|
                x.canonical() && text@ == #[trigger] x.json() ==> r is Some && r->0.same(x),
    {
        proof {
            assert forall|x: MessageStartEvent| x.canonical() && text@ == #[trigger] x.json() implies members_written(
                x.members(),
                8,
            ) && x.object() == JsonView::Object(x.members()) by {
                MessageStartEvent::members_stand_under_their_names(x, 8);
            }
        }
        let j = read_shape(text);
        MessageStartEvent::from_value(&j)
    }
}

impl ContentBlockStartEvent {
    /// The members in order, optional ones only where they are given.
    pub open spec fn members(&self) -> Seq<(Seq<char>, Seq<char>)> {
        no_members().push(("type"@, quoted(self.event_type@))).push(("index"@, decimal(self.index as nat))).push(("content_block"@, self.content_block.json()))
    }

    /// The JSON text.
    pub open spec fn json(&self) -> Seq<char> {
        object_text(self.members())
    }

    /// The JSON value.
    pub open spec fn object(&self) -> JsonView {
        JsonView::Object(self.members())
    }

    pub fn to_json(&self) -> (r: String)
        ensures
            r@ == self.json(),
    {
        let mut m = new_members();
        push_member(&mut m, "type", quote(&self.event_type));
        push_member(&mut m, "index", u64_text(self.index as u64));
        push_member(&mut m, "content_block", self.content_block.to_json());
        write_object(&m)
    }

    /// The values inside are texts as they are written.
    pub open spec fn canonical(&self) -> bool {
        &&& self.content_block.canonical()
    }

    /// Both hold the same.
    pub open spec fn same(&self, x: ContentBlockStartEvent) -> bool {
        &&& self.event_type@ == x.event_type@
        &&& self.index == x.index
        &&& self.content_block.same(x.content_block)
    }

    /// Each member stands under its own name, once, with the text of its own value.
    pub proof fn members_stand_under_their_names(x: ContentBlockStartEvent, depth: nat)
        requires
            x.canonical(),
            depth >= 5,
        ensures
            members_written(x.members(), depth),
            member_in(x.members(), "type"@) == Some(quoted(x.event_type@)),
            member_in(x.members(), "index"@) == Some(decimal(x.index as nat)),
            member_in(x.members(), "content_block"@) == Some(x.content_block.json()),
    {
        reveal_strlit("type");
        reveal_strlit("index");
        reveal_strlit("content_block");
        assert("type"@.len() != "index"@.len());
        assert("type"@.len() != "content_block"@.len());
        assert("index"@.len() != "content_block"@.len());
        let m0 = no_members();
        lemma_member_push(m0, "type"@, quoted(x.event_type@), depth);
        let m1 = m0.push(("type"@, quoted(x.event_type@)));
        assert(written(decimal((x.index as u64) as nat), depth));
        lemma_member_push(m1, "index"@, decimal(x.index as nat), depth);
        let m2 = m1.push(("index"@, decimal(x.index as nat)));
        ResponsesContentBlock::lemma_written(x.content_block, depth);
        lemma_member_push(m2, "content_block"@, x.content_block.json(), depth);
        let m3 = m2.push(("content_block"@, x.content_block.json()));
        assert(x.members() == m3);
    }

    proof fn lemma_written(x: ContentBlockStartEvent, depth: nat)
        requires
            x.canonical(),
            depth >= 6,
        ensures
            written(x.json(), depth),
    {
        ContentBlockStartEvent::members_stand_under_their_names(x, (depth - 1) as nat);
    }

    /// The keys of the members, in order.
    pub open spec fn keys() -> Seq<Seq<char>> {
        seq!["type"@, "index"@, "content_block"@]
    }

    fn key_list() -> (r: Vec<&'static str>)
        ensures
            key_views(r@) == ContentBlockStartEvent::keys(),
    {
        let mut keys: Vec<&'static str> = Vec::new();
        keys.push("type");
        keys.push("index");
        keys.push("content_block");
        assert(key_views(keys@) =~= ContentBlockStartEvent::keys());
        keys
    }

    /// An object with a fitting value under each required key.
    pub open spec fn fits(j: JsonView) -> bool {
        &&& text_member(j, "type"@) is Some
        &&& small_member(j, "index"@) is Some
        &&& member(j, "content_block"@) is Some && ResponsesContentBlock::readable(shape_of(member(j, "content_block"@)->0))
    }

    /// A record with a fitting value for each required member.
    pub open spec fn readable(j: JsonView) -> bool {
        record(j, ContentBlockStartEvent::keys()) is Some && ContentBlockStartEvent::fits(record(j, ContentBlockStartEvent::keys())->0)
    }

    /// This is what the object says.
    pub open spec fn says(&self, j: JsonView) -> bool {
        &&& text_member(j, "type"@) == Some(self.event_type@)
        &&& small_member(j, "index"@) == Some(self.index)
        &&& self.content_block.describes(shape_of(member(j, "content_block"@)->0))
    }

    /// This is what the record says.
    pub open spec fn describes(&self, j: JsonView) -> bool {
        self.says(record(j, ContentBlockStartEvent::keys())->0)
    }

    /// Reads a record: an object, in which members that are not known are passed over and none of the
    /// others comes twice, or an array of all members in order.
    pub fn from_value(j: &Json) -> (r: Option<ContentBlockStartEvent>)
        ensures
            match r {
                Some(x) => ContentBlockStartEvent::readable(j@) && x.describes(j@),
                None => !ContentBlockStartEvent::readable(j@),
            },
            forall|x: ContentBlockStartEvent|
                x.canonical() && j@ == #[trigger] x.object() ==> r is Some && r->0.same(x),
    {
        proof {
            assert forall|x: ContentBlockStartEvent| x.canonical() && j@ == #[trigger] x.object() implies members_written(x.members(), 8) && member(j@, "type"@) == Some(quoted(x.event_type@)) && member(j@, "index"@) == Some(decimal(x.index as nat)) && member(j@, "content_block"@) == Some(x.content_block.json()) && members_written(x.content_block.members(), 8) && x.content_block.object() == JsonView::Object(x.content_block.members()) by {
                ContentBlockStartEvent::members_stand_under_their_names(x, 8);
                ResponsesContentBlock::members_stand_under_their_names(x.content_block, 8);
            }
        }
        let o = match as_record(j, &ContentBlockStartEvent::key_list()) {
            Some(o) => o,
            None => {
                return None;
            },
        };
        let event_type = match get_text(&o, "type") {
            Some(x) => x,
            None => {
                return None;
            },
        };
        let index = match get_small(&o, "index") {
            Some(x) => x,
            None => {
                return None;
            },
        };
        let content_block = match member_text(&o, "content_block") {
            Some(t) => match ResponsesContentBlock::from_value(&read_shape(&t)) {
                Some(x) => x,
                None => {
                    return None;
                },
            },
            None => {
                return None;
            },
        };
        Some(ContentBlockStartEvent { event_type, index, content_block })
    }

    /// Reads JSON text; what was written is read back.
    pub fn from_json(text: &str) -> (r: Option<ContentBlockStartEvent>)
        ensures
            match r {
                Some(x) => ContentBlockStartEvent::readable(shape_of(text@)) && x.describes(shape_of(text@)),
                None => !ContentBlockStartEvent::readable(shape_of(text@)),
            },
            forall|x: ContentBlockStartEvent|
                x.canonical() && text@ == #[trigger] x.json() ==> r is Some && r->0.same(x),
    {
        proof {
            assert forall|x: ContentBlockStartEvent| x.canonical() && text@ == #[trigger] x.json() implies members_written(
                x.members(),
                8,
            ) && x.object() == JsonView::Object(x.members()) by {
                ContentBlockStartEvent::members_stand_under_their_names(x, 8);
            }
        }
        let j = read_shape(text);
        ContentBlockStartEvent::from_value(&j)
    }
}

impl TextDelta {
    /// The members in order, optional ones only where they are given.
    pub open spec fn members(&self) -> Seq<(Seq<char>, Seq<char>)> {
        no_members().push(("type"@, quoted(self.delta_type@))).push(("text"@, quoted(self.text@)))
    }

    /// The JSON text.
    pub open spec fn json(&self) -> Seq<char> {
        object_text(self.members())
    }

    /// The JSON value.
    pub open spec fn object(&self) -> JsonView {
        JsonView::Object(self.members())
    }

    pub fn to_json(&self) -> (r: String)
        ensures
            r@ == self.json(),
    {
        let mut m = new_members();
        push_member(&mut m, "type", quote(&self.delta_type));
        push_member(&mut m, "text", quote(&self.text));
        write_object(&m)
    }

    /// The values inside are texts as they are written.
    pub open spec fn canonical(&self) -> bool {
        true
    }

    /// Both hold the same.
    pub open spec fn same(&self, x: TextDelta) -> bool {
        &&& self.delta_type@ == x.delta_type@
        &&& self.text@ == x.text@
    }

    /// Each member stands under its own name, once, with the text of its own value.
    pub proof fn members_stand_under_their_names(x: TextDelta, depth: nat)
        requires
            x.canonical(),
        ensures
            members_written(x.members(), depth),
            member_in(x.members(), "type"@) == Some(quoted(x.delta_type@)),
            member_in(x.members(), "text"@) == Some(quoted(x.text@)),
    {
        reveal_strlit("type");
        reveal_strlit("text");
        assert("type"@[1] != "text"@[1]);
        let m0 = no_members();
        lemma_member_push(m0, "type"@, quoted(x.delta_type@), depth);
        let m1 = m0.push(("type"@, quoted(x.delta_type@)));
        lemma_member_push(m1, "text"@, quoted(x.text@), depth);
        let m2 = m1.push(("text"@, quoted(x.text@)));
        assert(x.members() == m2);
    }

    proof fn lemma_written(x: TextDelta, depth: nat)
        requires
            x.canonical(),
            depth >= 1,
        ensures
            written(x.json(), depth),
    {
        TextDelta::members_stand_under_their_names(x, (depth - 1) as nat);
    }

    /// The keys of the members, in order.
    pub open spec fn keys() -> Seq<Seq<char>> {
        seq!["type"@, "text"@]
    }

    fn key_list() -> (r: Vec<&'static str>)
        ensures
            key_views(r@) == TextDelta::keys(),
    {
        let mut keys: Vec<&'static str> = Vec::new();
        keys.push("type");
        keys.push("text");
        assert(key_views(keys@) =~= TextDelta::keys());
        keys
    }

    /// An object with a fitting value under each required key.
    pub open spec fn fits(j: JsonView) -> bool {
        &&& text_member(j, "type"@) is Some
        &&& text_member(j, "text"@) is Some
    }

    /// A record with a fitting value for each required member.
    pub open spec fn readable(j: JsonView) -> bool {
        record(j, TextDelta::keys()) is Some && TextDelta::fits(record(j, TextDelta::keys())->0)
    }

    /// This is what the object says.
    pub open spec fn says(&self, j: JsonView) -> bool {
        &&& text_member(j, "type"@) == Some(self.delta_type@)
        &&& text_member(j, "text"@) == Some(self.text@)
    }

    /// This is what the record says.
    pub open spec fn describes(&self, j: JsonView) -> bool {
        self.says(record(j, TextDelta::keys())->0)
    }

    /// Reads a record: an object, in which members that are not known are passed over and none of the
    /// others comes twice, or an array of all members in order.
    pub fn from_value(j: &Json) -> (r: Option<TextDelta>)
        ensures
            match r {
                Some(x) => TextDelta::readable(j@) && x.describes(j@),
                None => !TextDelta::readable(j@),
            },
            forall|x: TextDelta|
                x.canonical() && j@ == #[trigger] x.object() ==> r is Some && r->0.same(x),
    {
        proof {
            assert forall|x: TextDelta| x.canonical() && j@ == #[trigger] x.object() implies members_written(x.members(), 8) && member(j@, "type"@) == Some(quoted(x.delta_type@)) && member(j@, "text"@) == Some(quoted(x.text@)) by {
                TextDelta::members_stand_under_their_names(x, 8);
            }
        }
        let o = match as_record(j, &TextDelta::key_list()) {
            Some(o) => o,
            None => {
                return None;
            },
        };
        let delta_type = match get_text(&o, "type") {
            Some(x) => x,
            None => {
                return None;
            },
        };
        let text = match get_text(&o, "text") {
            Some(x) => x,
            None => {
                return None;
            },
        };
        Some(TextDelta { delta_type, text })
    }

    /// Reads JSON text; what was written is read back.
    pub fn from_json(text: &str) -> (r: Option<TextDelta>)
        ensures
            match r {
                Some(x) => TextDelta::readable(shape_of(text@)) && x.describes(shape_of(text@)),
                None => !TextDelta::readable(shape_of(text@)),
            },
            forall|x: TextDelta|
                x.canonical() && text@ == #[trigger] x.json() ==> r is Some && r->0.same(x),
    {
        proof {
            assert forall|x: TextDelta| x.canonical() && text@ == #[trigger] x.json() implies members_written(
                x.members(),
                8,
            ) && x.object() == JsonView::Object(x.members()) by {
                TextDelta::members_stand_under_their_names(x, 8);
            }
        }
        let j = read_shape(text);
        TextDelta::from_value(&j)
    }
}

impl ContentBlockDeltaEvent {
    /// The members in order, optional ones only where they are given.
    pub open spec fn members(&self) -> Seq<(Seq<char>, Seq<char>)> {
        no_members().push(("type"@, quoted(self.event_type@))).push(("index"@, decimal(self.index as nat))).push(("delta"@, self.delta.json()))
    }

    /// The JSON text.
    pub open spec fn json(&self) -> Seq<char> {
        object_text(self.members())
    }

    /// The JSON value.
    pub open spec fn object(&self) -> JsonView {
        JsonView::Object(self.members())
    }

    pub fn to_json(&self) -> (r: String)
        ensures
            r@ == self.json(),
    {
        let mut m = new_members();
        push_member(&mut m, "type", quote(&self.event_type));
        push_member(&mut m, "index", u64_text(self.index as u64));
        push_member(&mut m, "delta", self.delta.to_json());
        write_object(&m)
    }

    /// The values inside are texts as they are written.
    pub open spec fn canonical(&self) -> bool {
        &&& self.delta.canonical()
    }

    /// Both hold the same.
    pub open spec fn same(&self, x: ContentBlockDeltaEvent) -> bool {
        &&& self.event_type@ == x.event_type@
        &&& self.index == x.index
        &&& self.delta.same(x.delta)
    }

    /// Each member stands under its own name, once, with the text of its own value.
    pub proof fn members_stand_under_their_names(x: ContentBlockDeltaEvent, depth: nat)
        requires
            x.canonical(),
            depth >= 1,
        ensures
            members_written(x.members(), depth),
            member_in(x.members(), "type"@) == Some(quoted(x.event_type@)),
            member_in(x.members(), "index"@) == Some(decimal(x.index as nat)),
            member_in(x.members(), "delta"@) == Some(x.delta.json()),
    {
        reveal_strlit("type");
        reveal_strlit("index");
        reveal_strlit("delta");
        assert("type"@.len() != "index"@.len());
        assert("type"@.len() != "delta"@.len());
        assert("index"@[0] != "delta"@[0]);
        let m0 = no_members();
        lemma_member_push(m0, "type"@, quoted(x.event_type@), depth);
        let m1 = m0.push(("type"@, quoted(x.event_type@)));
        assert(written(decimal((x.index as u64) as nat), depth));
        lemma_member_push(m1, "index"@, decimal(x.index as nat), depth);
        let m2 = m1.push(("index"@, decimal(x.index as nat)));
        TextDelta::lemma_written(x.delta, depth);
        lemma_member_push(m2, "delta"@, x.delta.json(), depth);
        let m3 = m2.push(("delta"@, x.delta.json()));
        assert(x.members() == m3);
    }

    proof fn lemma_written(x: ContentBlockDeltaEvent, depth: nat)
        requires
            x.canonical(),
            depth >= 2,
        ensures
            written(x.json(), depth),
    {
        ContentBlockDeltaEvent::members_stand_under_their_names(x, (depth - 1) as nat);
    }

    /// The keys of the members, in order.
    pub open spec fn keys() -> Seq<Seq<char>> {
        seq!["type"@, "index"@, "delta"@]
    }

    fn key_list() -> (r: Vec<&'static str>)
        ensures
            key_views(r@) == ContentBlockDeltaEvent::keys(),
    {
        let mut keys: Vec<&'static str> = Vec::new();
        keys.push("type");
        keys.push("index");
        keys.push("delta");
        assert(key_views(keys@) =~= ContentBlockDeltaEvent::keys());
        keys
    }

    /// An object with a fitting value under each required key.
    pub open spec fn fits(j: JsonView) -> bool {
        &&& text_member(j, "type"@) is Some
        &&& small_member(j, "index"@) is Some
        &&& member(j, "delta"@) is Some && TextDelta::readable(shape_of(member(j, "delta"@)->0))
    }

    /// A record with a fitting value for each required member.
    pub open spec fn readable(j: JsonView) -> bool {
        record(j, ContentBlockDeltaEvent::keys()) is Some && ContentBlockDeltaEvent::fits(record(j, ContentBlockDeltaEvent::keys())->0)
    }

    /// This is what the object says.
    pub open spec fn says(&self, j: JsonView) -> bool {
        &&& text_member(j, "type"@) == Some(self.event_type@)
        &&& small_member(j, "index"@) == Some(self.index)
        &&& self.delta.describes(shape_of(member(j, "delta"@)->0))
    }

    /// This is what the record says.
    pub open spec fn describes(&self, j: JsonView) -> bool {
        self.says(record(j, ContentBlockDeltaEvent::keys())->0)
    }

    /// Reads a record: an object, in which members that are not known are passed over and none of the
    /// others comes twice, or an array of all members in order.
    pub fn from_value(j: &Json) -> (r: Option<ContentBlockDeltaEvent>)
        ensures
            match r {
                Some(x) => ContentBlockDeltaEvent::readable(j@) && x.describes(j@),
                None => !ContentBlockDeltaEvent::readable(j@),
            },
            forall|x: ContentBlockDeltaEvent|
                x.canonical() && j@ == #[trigger] x.object() ==> r is Some && r->0.same(x),
    {
        proof {
            assert forall|x: ContentBlockDeltaEvent| x.canonical() && j@ == #[trigger] x.object() implies members_written(x.members(), 8) && member(j@, "type"@) == Some(quoted(x.event_type@)) && member(j@, "index"@) == Some(decimal(x.index as nat)) && member(j@, "delta"@) == Some(x.delta.json()) && members_written(x.delta.members(), 8) && x.delta.object() == JsonView::Object(x.delta.members()) by {
                ContentBlockDeltaEvent::members_stand_under_their_names(x, 8);
                TextDelta::members_stand_under_their_names(x.delta, 8);
            }
        }
        let o = match as_record(j, &ContentBlockDeltaEvent::key_list()) {
            Some(o) => o,
            None => {
                return None;
            },
        };
        let event_type = match get_text(&o, "type") {
            Some(x) => x,
            None => {
                return None;
            },
        };
        let index = match get_small(&o, "index") {
            Some(x) => x,
            None => {
                return None;
            },
        };
        let delta = match member_text(&o, "delta") {
            Some(t) => match TextDelta::from_value(&read_shape(&t)) {
                Some(x) => x,
                None => {
                    return None;
                },
            },
            None => {
                return None;
            },
        };
        Some(ContentBlockDeltaEvent { event_type, index, delta })
    }

    /// Reads JSON text; what was written is read back.
    pub fn from_json(text: &str) -> (r: Option<ContentBlockDeltaEvent>)
        ensures
            match r {
                Some(x) => ContentBlockDeltaEvent::readable(shape_of(text@)) && x.describes(shape_of(text@)),
                None => !ContentBlockDeltaEvent::readable(shape_of(text@)),
            },
            forall|x: ContentBlockDeltaEvent|
                x.canonical() && text@ == #[trigger] x.json() ==> r is Some && r->0.same(x),
    {
        proof {
            assert forall|x: ContentBlockDeltaEvent| x.canonical() && text@ == #[trigger] x.json() implies members_written(
                x.members(),
                8,
            ) && x.object() == JsonView::Object(x.members()) by {
                ContentBlockDeltaEvent::members_stand_under_their_names(x, 8);
            }
        }
        let j = read_shape(text);
        ContentBlockDeltaEvent::from_value(&j)
    }
}

impl ContentBlockStopEvent {
    /// The members in order, optional ones only where they are given.
    pub open spec fn members(&self) -> Seq<(Seq<char>, Seq<char>)> {
        no_members().push(("type"@, quoted(self.event_type@))).push(("index"@, decimal(self.index as nat)))
    }

    /// The JSON text.
    pub open spec fn json(&self) -> Seq<char> {
        object_text(self.members())
    }

    /// The JSON value.
    pub open spec fn object(&self) -> JsonView {
        JsonView::Object(self.members())
    }

    pub fn to_json(&self) -> (r: String)
        ensures
            r@ == self.json(),
    {
        let mut m = new_members();
        push_member(&mut m, "type", quote(&self.event_type));
        push_member(&mut m, "index", u64_text(self.index as u64));
        write_object(&m)
    }

    /// The values inside are texts as they are written.
    pub open spec fn canonical(&self) -> bool {
        true
    }

    /// Both hold the same.
    pub open spec fn same(&self, x: ContentBlockStopEvent) -> bool {
        &&& self.event_type@ == x.event_type@
        &&& self.index == x.index
    }

    /// Each member stands under its own name, once, with the text of its own value.
    pub proof fn members_stand_under_their_names(x: ContentBlockStopEvent, depth: nat)
        requires
            x.canonical(),
        ensures
            members_written(x.members(), depth),
            member_in(x.members(), "type"@) == Some(quoted(x.event_type@)),
            member_in(x.members(), "index"@) == Some(decimal(x.index as nat)),
    {
        reveal_strlit("type");
        reveal_strlit("index");
        assert("type"@.len() != "index"@.len());
        let m0 = no_members();
        lemma_member_push(m0, "type"@, quoted(x.event_type@), depth);
        let m1 = m0.push(("type"@, quoted(x.event_type@)));
        assert(written(decimal((x.index as u64) as nat), depth));
        lemma_member_push(m1, "index"@, decimal(x.index as nat), depth);
        let m2 = m1.push(("index"@, decimal(x.index as nat)));
        assert(x.members() == m2);
    }

    proof fn lemma_written(x: ContentBlockStopEvent, depth: nat)
        requires
            x.canonical(),
            depth >= 1,
        ensures
            written(x.json(), depth),
    {
        ContentBlockStopEvent::members_stand_under_their_names(x, (depth - 1) as nat);
    }

    /// The keys of the members, in order.
    pub open spec fn keys() -> Seq<Seq<char>> {
        seq!["type"@, "index"@]
    }

    fn key_list() -> (r: Vec<&'static str>)
        ensures
            key_views(r@) == ContentBlockStopEvent::keys(),
    {
        let mut keys: Vec<&'static str> = Vec::new();
        keys.push("type");
        keys.push("index");
        assert(key_views(keys@) =~= ContentBlockStopEvent::keys());
        keys
    }

    /// An object with a fitting value under each required key.
    pub open spec fn fits(j: JsonView) -> bool {
        &&& text_member(j, "type"@) is Some
        &&& small_member(j, "index"@) is Some
    }

    /// A record with a fitting value for each required member.
    pub open spec fn readable(j: JsonView) -> bool {
        record(j, ContentBlockStopEvent::keys()) is Some && ContentBlockStopEvent::fits(record(j, ContentBlockStopEvent::keys())->0)
    }

    /// This is what the object says.
    pub open spec fn says(&self, j: JsonView) -> bool {
        &&& text_member(j, "type"@) == Some(self.event_type@)
        &&& small_member(j, "index"@) == Some(self.index)
    }

    /// This is what the record says.
    pub open spec fn describes(&self, j: JsonView) -> bool {
        self.says(record(j, ContentBlockStopEvent::keys())->0)
    }

    /// Reads a record: an object, in which members that are not known are passed over and none of the
    /// others comes twice, or an array of all members in order.
    pub fn from_value(j: &Json) -> (r: Option<ContentBlockStopEvent>)
        ensures
            match r {
                Some(x) => ContentBlockStopEvent::readable(j@) && x.describes(j@),
                None => !ContentBlockStopEvent::readable(j@),
            },
            forall|x: ContentBlockStopEvent|
                x.canonical() && j@ == #[trigger] x.object() ==> r is Some && r->0.same(x),
    {
        proof {
            assert forall|x: ContentBlockStopEvent| x.canonical() && j@ == #[trigger] x.object() implies members_written(x.members(), 8) && member(j@, "type"@) == Some(quoted(x.event_type@)) && member(j@, "index"@) == Some(decimal(x.index as nat)) by {
                ContentBlockStopEvent::members_stand_under_their_names(x, 8);
            }
        }
        let o = match as_record(j, &ContentBlockStopEvent::key_list()) {
            Some(o) => o,
            None => {
                return None;
            },
        };
        let event_type = match get_text(&o, "type") {
            Some(x) => x,
            None => {
                return None;
            },
        };
        let index = match get_small(&o, "index") {
            Some(x) => x,
            None => {
                return None;
            },
        };
        Some(ContentBlockStopEvent { event_type, index })
    }

    /// Reads JSON text; what was written is read back.
    pub fn from_json(text: &str) -> (r: Option<ContentBlockStopEvent>)
        ensures
            match r {
                Some(x) => ContentBlockStopEvent::readable(shape_of(text@)) && x.describes(shape_of(text@)),
                None => !ContentBlockStopEvent::readable(shape_of(text@)),
            },
            forall|x: ContentBlockStopEvent|
                x.canonical() && text@ == #[trigger] x.json() ==> r is Some && r->0.same(x),
    {
        proof {
            assert forall|x: ContentBlockStopEvent| x.canonical() && text@ == #[trigger] x.json() implies members_written(
                x.members(),
                8,
            ) && x.object() == JsonView::Object(x.members()) by {
                ContentBlockStopEvent::members_stand_under_their_names(x, 8);
            }
        }
        let j = read_shape(text);
        ContentBlockStopEvent::from_value(&j)
    }
}

impl MessageDelta {
    /// The members in order, optional ones only where they are given.
    pub open spec fn members(&self) -> Seq<(Seq<char>, Seq<char>)> {
        no_members().push(("stop_reason"@, quoted(self.stop_reason@)))
    }

    /// The JSON text.
    pub open spec fn json(&self) -> Seq<char> {
        object_text(self.members())
    }

    /// The JSON value.
    pub open spec fn object(&self) -> JsonView {
        JsonView::Object(self.members())
    }

    pub fn to_json(&self) -> (r: String)
        ensures
            r@ == self.json(),
    {
        let mut m = new_members();
        push_member(&mut m, "stop_reason", quote(&self.stop_reason));
        write_object(&m)
    }

    /// The values inside are texts as they are written.
    pub open spec fn canonical(&self) -> bool {
        true
    }

    /// Both hold the same.
    pub open spec fn same(&self, x: MessageDelta) -> bool {
        &&& self.stop_reason@ == x.stop_reason@
    }

    /// Each member stands under its own name, once, with the text of its own value.
    pub proof fn members_stand_under_their_names(x: MessageDelta, depth: nat)
        requires
            x.canonical(),
        ensures
            members_written(x.members(), depth),
            member_in(x.members(), "stop_reason"@) == Some(quoted(x.stop_reason@)),
    {
        reveal_strlit("stop_reason");
        let m0 = no_members();
        lemma_member_push(m0, "stop_reason"@, quoted(x.stop_reason@), depth);
        let m1 = m0.push(("stop_reason"@, quoted(x.stop_reason@)));
        assert(x.members() == m1);
    }

    proof fn lemma_written(x: MessageDelta, depth: nat)
        requires
            x.canonical(),
            depth >= 1,
        ensures
            written(x.json(), depth),
    {
        MessageDelta::members_stand_under_their_names(x, (depth - 1) as nat);
    }

    /// The keys of the members, in order.
    pub open spec fn keys() -> Seq<Seq<char>> {
        seq!["stop_reason"@]
    }

    fn key_list() -> (r: Vec<&'static str>)
        ensures
            key_views(r@) == MessageDelta::keys(),
    {
        let mut keys: Vec<&'static str> = Vec::new();
        keys.push("stop_reason");
        assert(key_views(keys@) =~= MessageDelta::keys());
        keys
    }

    /// An object with a fitting value under each required key.
    pub open spec fn fits(j: JsonView) -> bool {
        &&& text_member(j, "stop_reason"@) is Some
    }

    /// A record with a fitting value for each required member.
    pub open spec fn readable(j: JsonView) -> bool {
        record(j, MessageDelta::keys()) is Some && MessageDelta::fits(record(j, MessageDelta::keys())->0)
    }

    /// This is what the object says.
    pub open spec fn says(&self, j: JsonView) -> bool {
        &&& text_member(j, "stop_reason"@) == Some(self.stop_reason@)
    }

    /// This is what the record says.
    pub open spec fn describes(&self, j: JsonView) -> bool {
        self.says(record(j, MessageDelta::keys())->0)
    }

    /// Reads a record: an object, in which members that are not known are passed over and none of the
    /// others comes twice, or an array of all members in order.
    pub fn from_value(j: &Json) -> (r: Option<MessageDelta>)
        ensures
            match r {
                Some(x) => MessageDelta::readable(j@) && x.describes(j@),
                None => !MessageDelta::readable(j@),
            },
            forall|x: MessageDelta|
                x.canonical() && j@ == #[trigger] x.object() ==> r is Some && r->0.same(x),
    {
        proof {
            assert forall|x: MessageDelta| x.canonical() && j@ == #[trigger] x.object() implies members_written(x.members(), 8) && member(j@, "stop_reason"@) == Some(quoted(x.stop_reason@)) by {
                MessageDelta::members_stand_under_their_names(x, 8);
            }
        }
        let o = match as_record(j, &MessageDelta::key_list()) {
            Some(o) => o,
            None => {
                return None;
            },
        };
        let stop_reason = match get_text(&o, "stop_reason") {
            Some(x) => x,
            None => {
                return None;
            },
        };
        Some(MessageDelta { stop_reason })
    }

    /// Reads JSON text; what was written is read back.
    pub fn from_json(text: &str) -> (r: Option<MessageDelta>)
        ensures
            match r {
                Some(x) => MessageDelta::readable(shape_of(text@)) && x.describes(shape_of(text@)),
                None => !MessageDelta::readable(shape_of(text@)),
            },
            forall|x: MessageDelta|
                x.canonical() && text@ == #[trigger] x.json() ==> r is Some && r->0.same(x),
    {
        proof {
            assert forall|x: MessageDelta| x.canonical() && text@ == #[trigger] x.json() implies members_written(
                x.members(),
                8,
            ) && x.object() == JsonView::Object(x.members()) by {
                MessageDelta::members_stand_under_their_names(x, 8);
            }
        }
        let j = read_shape(text);
        MessageDelta::from_value(&j)
    }
}

impl MessageDeltaEvent {
    /// The members in order, optional ones only where they are given.
    pub open spec fn members(&self) -> Seq<(Seq<char>, Seq<char>)> {
        no_members().push(("type"@, quoted(self.event_type@))).push(("delta"@, self.delta.json())).push(("usage"@, self.usage.json()))
    }

    /// The JSON text.
    pub open spec fn json(&self) -> Seq<char> {
        object_text(self.members())
    }

    /// The JSON value.
    pub open spec fn object(&self) -> JsonView {
        JsonView::Object(self.members())
    }

    pub fn to_json(&self) -> (r: String)
        ensures
            r@ == self.json(),
    {
        let mut m = new_members();
        push_member(&mut m, "type", quote(&self.event_type));
        push_member(&mut m, "delta", self.delta.to_json());
        push_member(&mut m, "usage", self.usage.to_json());
        write_object(&m)
    }

    /// The values inside are texts as they are written.
    pub open spec fn canonical(&self) -> bool {
        &&& self.delta.canonical()
        &&& self.usage.canonical()
    }

    /// Both hold the same.
    pub open spec fn same(&self, x: MessageDeltaEvent) -> bool {
        &&& self.event_type@ == x.event_type@
        &&& self.delta.same(x.delta)
        &&& self.usage.same(x.usage)
    }

    /// Each member stands under its own name, once, with the text of its own value.
    pub proof fn members_stand_under_their_names(x: MessageDeltaEvent, depth: nat)
        requires
            x.canonical(),
            depth >= 1,
        ensures
            members_written(x.members(), depth),
            member_in(x.members(), "type"@) == Some(quoted(x.event_type@)),
            member_in(x.members(), "delta"@) == Some(x.delta.json()),
            member_in(x.members(), "usage"@) == Some(x.usage.json()),
    {
        reveal_strlit("type");
        reveal_strlit("delta");
        reveal_strlit("usage");
        assert("type"@.len() != "delta"@.len());
        assert("type"@.len() != "usage"@.len());
        assert("delta"@[0] != "usage"@[0]);
        let m0 = no_members();
        lemma_member_push(m0, "type"@, quoted(x.event_type@), depth);
        let m1 = m0.push(("type"@, quoted(x.event_type@)));
        MessageDelta::lemma_written(x.delta, depth);
        lemma_member_push(m1, "delta"@, x.delta.json(), depth);
        let m2 = m1.push(("delta"@, x.delta.json()));
        ResponsesUsage::lemma_written(x.usage, depth);
        lemma_member_push(m2, "usage"@, x.usage.json(), depth);
        let m3 = m2.push(("usage"@, x.usage.json()));
        assert(x.members() == m3);
    }

    proof fn lemma_written(x: MessageDeltaEvent, depth: nat)
        requires
            x.canonical(),
            depth >= 2,
        ensures
            written(x.json(), depth),
    {
        MessageDeltaEvent::members_stand_under_their_names(x, (depth - 1) as nat);
    }

    /// The keys of the members, in order.
    pub open spec fn keys() -> Seq<Seq<char>> {
        seq!["type"@, "delta"@, "usage"@]
    }

    fn key_list() -> (r: Vec<&'static str>)
        ensures
            key_views(r@) == MessageDeltaEvent::keys(),
    {
        let mut keys: Vec<&'static str> = Vec::new();
        keys.push("type");
        keys.push("delta");
        keys.push("usage");
        assert(key_views(keys@) =~= MessageDeltaEvent::keys());
        keys
    }

    /// An object with a fitting value under each required key.
    pub open spec fn fits(j: JsonView) -> bool {
        &&& text_member(j, "type"@) is Some
        &&& member(j, "delta"@) is Some && MessageDelta::readable(shape_of(member(j, "delta"@)->0))
        &&& member(j, "usage"@) is Some && ResponsesUsage::readable(shape_of(member(j, "usage"@)->0))
    }

    /// A record with a fitting value for each required member.
    pub open spec fn readable(j: JsonView) -> bool {
        record(j, MessageDeltaEvent::keys()) is Some && MessageDeltaEvent::fits(record(j, MessageDeltaEvent::keys())->0)
    }

    /// This is what the object says.
    pub open spec fn says(&self, j: JsonView) -> bool {
        &&& text_member(j, "type"@) == Some(self.event_type@)
        &&& self.delta.describes(shape_of(member(j, "delta"@)->0))
        &&& self.usage.describes(shape_of(member(j, "usage"@)->0))
    }

    /// This is what the record says.
    pub open spec fn describes(&self, j: JsonView) -> bool {
        self.says(record(j, MessageDeltaEvent::keys())->0)
    }

    /// Reads a record: an object, in which members that are not known are passed over and none of the
    /// others comes twice, or an array of all members in order.
    pub fn from_value(j: &Json) -> (r: Option<MessageDeltaEvent>)
        ensures
            match r {
                Some(x) => MessageDeltaEvent::readable(j@) && x.describes(j@),
                None => !MessageDeltaEvent::readable(j@),
            },
            forall|x: MessageDeltaEvent|
                x.canonical() && j@ == #[trigger] x.object() ==> r is Some && r->0.same(x),
    {
        proof {
            assert forall|x: MessageDeltaEvent| x.canonical() && j@ == #[trigger] x.object() implies members_written(x.members(), 8) && member(j@, "type"@) == Some(quoted(x.event_type@)) && member(j@, "delta"@) == Some(x.delta.json()) && member(j@, "usage"@) == Some(x.usage.json()) && members_written(x.delta.members(), 8) && x.delta.object() == JsonView::Object(x.delta.members()) && members_written(x.usage.members(), 8) && x.usage.object() == JsonView::Object(x.usage.members()) by {
                MessageDeltaEvent::members_stand_under_their_names(x, 8);
                MessageDelta::members_stand_under_their_names(x.delta, 8);
                ResponsesUsage::members_stand_under_their_names(x.usage, 8);
            }
        }
        let o = match as_record(j, &MessageDeltaEvent::key_list()) {
            Some(o) => o,
            None => {
                return None;
            },
        };
        let event_type = match get_text(&o, "type") {
            Some(x) => x,
            None => {
                return None;
            },
        };
        let delta = match member_text(&o, "delta") {
            Some(t) => match MessageDelta::from_value(&read_shape(&t)) {
                Some(x) => x,
                None => {
                    return None;
                },
            },
            None => {
                return None;
            },
        };
        let usage = match member_text(&o, "usage") {
            Some(t) => match ResponsesUsage::from_value(&read_shape(&t)) {
                Some(x) => x,
                None => {
                    return None;
                },
            },
            None => {
                return None;
            },
        };
        Some(MessageDeltaEvent { event_type, delta, usage })
    }

    /// Reads JSON text; what was written is read back.
    pub fn from_json(text: &str) -> (r: Option<MessageDeltaEvent>)
        ensures
            match r {
                Some(x) => MessageDeltaEvent::readable(shape_of(text@)) && x.describes(shape_of(text@)),
                None => !MessageDeltaEvent::readable(shape_of(text@)),
            },
            forall|x: MessageDeltaEvent|
                x.canonical() && text@ == #[trigger] x.json() ==> r is Some && r->0.same(x),
    {
        proof {
            assert forall|x: MessageDeltaEvent| x.canonical() && text@ == #[trigger] x.json() implies members_written(
                x.members(),
                8,
            ) && x.object() == JsonView::Object(x.members()) by {
                MessageDeltaEvent::members_stand_under_their_names(x, 8);
            }
        }
        let j = read_shape(text);
        MessageDeltaEvent::from_value(&j)
    }
}

impl MessageStopEvent {
    /// The members in order, optional ones only where they are given.
    pub open spec fn members(&self) -> Seq<(Seq<char>, Seq<char>)> {
        no_members().push(("type"@, quoted(self.event_type@)))
    }

    /// The JSON text.
    pub open spec fn json(&self) -> Seq<char> {
        object_text(self.members())
    }

    /// The JSON value.
    pub open spec fn object(&self) -> JsonView {
        JsonView::Object(self.members())
    }

    pub fn to_json(&self) -> (r: String)
        ensures
            r@ == self.json(),
    {
        let mut m = new_members();
        push_member(&mut m, "type", quote(&self.event_type));
        write_object(&m)
    }

    /// The values inside are texts as they are written.
    pub open spec fn canonical(&self) -> bool {
        true
    }

    /// Both hold the same.
    pub open spec fn same(&self, x: MessageStopEvent) -> bool {
        &&& self.event_type@ == x.event_type@
    }

    /// Each member stands under its own name, once, with the text of its own value.
    pub proof fn members_stand_under_their_names(x: MessageStopEvent, depth: nat)
        requires
            x.canonical(),
        ensures
            members_written(x.members(), depth),
            member_in(x.members(), "type"@) == Some(quoted(x.event_type@)),
    {
        reveal_strlit("type");
        let m0 = no_members();
        lemma_member_push(m0, "type"@, quoted(x.event_type@), depth);
        let m1 = m0.push(("type"@, quoted(x.event_type@)));
        assert(x.members() == m1);
    }

    proof fn lemma_written(x: MessageStopEvent, depth: nat)
        requires
            x.canonical(),
            depth >= 1,
        ensures
            written(x.json(), depth),
    {
        MessageStopEvent::members_stand_under_their_names(x, (depth - 1) as nat);
    }

    /// The keys of the members, in order.
    pub open spec fn keys() -> Seq<Seq<char>> {
        seq!["type"@]
    }

    fn key_list() -> (r: Vec<&'static str>)
        ensures
            key_views(r@) == MessageStopEvent::keys(),
    {
        let mut keys: Vec<&'static str> = Vec::new();
        keys.push("type");
        assert(key_views(keys@) =~= MessageStopEvent::keys());
        keys
    }

    /// An object with a fitting value under each required key.
    pub open spec fn fits(j: JsonView) -> bool {
        &&& text_member(j, "type"@) is Some
    }

    /// A record with a fitting value for each required member.
    pub open spec fn readable(j: JsonView) -> bool {
        record(j, MessageStopEvent::keys()) is Some && MessageStopEvent::fits(record(j, MessageStopEvent::keys())->0)
    }

    /// This is what the object says.
    pub open spec fn says(&self, j: JsonView) -> bool {
        &&& text_member(j, "type"@) == Some(self.event_type@)
    }

    /// This is what the record says.
    pub open spec fn describes(&self, j: JsonView) -> bool {
        self.says(record(j, MessageStopEvent::keys())->0)
    }

    /// Reads a record: an object, in which members that are not known are passed over and none of the
    /// others comes twice, or an array of all members in order.
    pub fn from_value(j: &Json) -> (r: Option<MessageStopEvent>)
        ensures
            match r {
                Some(x) => MessageStopEvent::readable(j@) && x.describes(j@),
                None => !MessageStopEvent::readable(j@),
            },
            forall|x: MessageStopEvent|
                x.canonical() && j@ == #[trigger] x.object() ==> r is Some && r->0.same(x),
    {
        proof {
            assert forall|x: MessageStopEvent| x.canonical() && j@ == #[trigger] x.object() implies members_written(x.members(), 8) && member(j@, "type"@) == Some(quoted(x.event_type@)) by {
                MessageStopEvent::members_stand_under_their_names(x, 8);
            }
        }
        let o = match as_record(j, &MessageStopEvent::key_list()) {
            Some(o) => o,
            None => {
                return None;
            },
        };
        let event_type = match get_text(&o, "type") {
            Some(x) => x,
            None => {
                return None;
            },
        };
        Some(MessageStopEvent { event_type })
    }

    /// Reads JSON text; what was written is read back.
    pub fn from_json(text: &str) -> (r: Option<MessageStopEvent>)
        ensures
            match r {
                Some(x) => MessageStopEvent::readable(shape_of(text@)) && x.describes(shape_of(text@)),
                None => !MessageStopEvent::readable(shape_of(text@)),
            },
            forall|x: MessageStopEvent|
                x.canonical() && text@ == #[trigger] x.json() ==> r is Some && r->0.same(x),
    {
        proof {
            assert forall|x: MessageStopEvent| x.canonical() && text@ == #[trigger] x.json() implies members_written(
                x.members(),
                8,
            ) && x.object() == JsonView::Object(x.members()) by {
                MessageStopEvent::members_stand_under_their_names(x, 8);
            }
        }
        let j = read_shape(text);
        MessageStopEvent::from_value(&j)
    }
}

} // verus!

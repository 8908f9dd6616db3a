//! The calls of the Feishu open API that clients make over HTTP.
use vstd::prelude::*;
use crate::json::{json_of, json_result, parse_json, text_value, as_text, Json, JsonView};
use crate::text::{cat2, cat3, cat4, cat5, join, joined, views};

verus! {

#[derive(Clone, Copy, Debug, PartialEq, Eq, Structural)]
pub enum Method {
    Get,
    Post,
    Put,
    Patch,
    Delete,
}

/// A call of the API.
pub struct ApiCall {
    pub method: Method,
    pub url: String,
    pub body: Option<String>,
}

/// A call with its headers.
pub struct HttpRequest {
    pub method: Method,
    pub url: String,
    pub authorization: String,
    pub content_type: Option<String>,
    pub body: Option<String>,
}

impl ApiCall {
    /// The request for a call: it carries the tenant token, and says that a body is JSON.
    pub fn with_token(self, token: &str) -> (r: HttpRequest)
        ensures
            r.method == self.method,
            r.url == self.url,
            r.authorization@ == "Bearer "@ + token@,
            r.body == self.body,
            match self.body {
                Some(_) => r.content_type is Some && r.content_type->0@ == "application/json"@,
                None => r.content_type is None,
            },
    {
        let content_type = match &self.body {
            Some(_) => Some("application/json".to_owned()),
            None => None,
        };
        HttpRequest {
            method: self.method,
            url: self.url,
            authorization: cat2("Bearer ", token),
            content_type,
            body: self.body,
        }
    }
}

/// The members that are strings, each as `key=value`.
pub open spec fn query_parts(members: Seq<(Seq<char>, Seq<char>)>) -> Seq<Seq<char>>
    decreases members.len(),
{
    if members.len() == 0 {
        Seq::<Seq<char>>::empty()
    } else {
        match text_value(members.last().1) {
            Some(v) => query_parts(members.drop_last()).push(members.last().0 + "="@ + v),
            None => query_parts(members.drop_last()),
        }
    }
}

/// The query string of an object's members; empty for what is no object.
pub open spec fn query_of(params: JsonView) -> Seq<char> {
    match params {
        JsonView::Object(m) => joined(query_parts(m), "&"@),
        _ => Seq::<char>::empty(),
    }
}

pub open spec fn with_query(url: Seq<char>, query: Seq<char>) -> Seq<char> {
    if query.len() == 0 {
        url
    } else {
        url + "?"@ + query
    }
}

/// The query string for the string members of an object, joined by `&`.
pub fn build_query_string(params: &Json) -> (r: String)
    ensures
        r@ == query_of(params@),
{
    match params {
        Json::Object(m) => {
            let ghost mv = crate::json::member_views(m@);
            let mut parts: Vec<String> = Vec::new();
            let mut i: usize = 0;
            assert(views(parts@) =~= query_parts(mv.take(0)));
            while i < m.len()
                invariant
                    i <= m@.len(),
                    mv == crate::json::member_views(m@),
                    views(parts@) == query_parts(mv.take(i as int)),
                decreases m@.len() - i,
            {
                assert(mv.take(i + 1).drop_last() == mv.take(i as int));
                assert(mv[i as int] == (m@[i as int].0@, m@[i as int].1@));
                if let Some(v) = as_text(&m[i].1) {
                    let part = cat3(&m[i].0, "=", &v);
                    let ghost before = parts@;
                    parts.push(part);
                    assert(views(parts@) =~= views(before).push(part@));
                }
                i = i + 1;
            }
            assert(mv.take(mv.len() as int) == mv);
            join(&parts, "&")
        },
        _ => {
            let r = String::new();
            r
        },
    }
}

/// A read of a list, given what the parameters were read as; text that is no JSON traps with the
/// message of the reader.
pub fn list_call(url: String, params: Result<Json, String>) -> (r: Result<ApiCall, String>)
    ensures
        match r {
            Ok(c) => match json_result(params) {
                Ok(p) => c.method == Method::Get && c.body is None && c.url@ == with_query(
                    url@,
                    query_of(p),
                ),
                Err(_) => false,
            },
            Err(e) => json_result(params) == Err::<JsonView, Seq<char>>(e@),
        },
{
    match params {
        Err(e) => Err(e),
        Ok(p) => {
            let query = build_query_string(&p);
            let full = if query.as_str().is_empty() {
                url
            } else {
                cat3(&url, "?", &query)
            };
            Ok(ApiCall { method: Method::Get, url: full, body: None })
        },
    }
}

/// Creates a group chat.
pub fn create_group(request_json: String) -> (r: ApiCall)
    ensures
        r.method == Method::Post,
        r.url@ == "https://open.feishu.cn/open-apis/im/v1/chats"@,
        r.body == Some(request_json),
{
    ApiCall {
        method: Method::Post,
        url: "https://open.feishu.cn/open-apis/im/v1/chats".to_owned(),
        body: Some(request_json),
    }
}

/// Reads a group chat.
pub fn get_group(chat_id: &str) -> (r: ApiCall)
    ensures
        r.method == Method::Get,
        r.url@ == "https://open.feishu.cn/open-apis/im/v1/chats/"@ + chat_id@,
        r.body == None::<String>,
{
    ApiCall {
        method: Method::Get,
        url: cat2("https://open.feishu.cn/open-apis/im/v1/chats/", chat_id),
        body: None,
    }
}

/// Changes a group chat.
pub fn update_group(chat_id: &str, request_json: String) -> (r: ApiCall)
    ensures
        r.method == Method::Put,
        r.url@ == "https://open.feishu.cn/open-apis/im/v1/chats/"@ + chat_id@,
        r.body == Some(request_json),
{
    ApiCall {
        method: Method::Put,
        url: cat2("https://open.feishu.cn/open-apis/im/v1/chats/", chat_id),
        body: Some(request_json),
    }
}

/// Adds members to a group chat.
pub fn add_group_members(chat_id: &str, request_json: String) -> (r: ApiCall)
    ensures
        r.method == Method::Post,
        r.url@ == "https://open.feishu.cn/open-apis/im/v1/chats/"@ + chat_id@ + "/members"@,
        r.body == Some(request_json),
{
    ApiCall {
        method: Method::Post,
        url: cat3("https://open.feishu.cn/open-apis/im/v1/chats/", chat_id, "/members"),
        body: Some(request_json),
    }
}

/// Removes members from a group chat.
pub fn remove_group_members(chat_id: &str, request_json: String) -> (r: ApiCall)
    ensures
        r.method == Method::Delete,
        r.url@ == "https://open.feishu.cn/open-apis/im/v1/chats/"@ + chat_id@ + "/members"@,
        r.body == Some(request_json),
{
    ApiCall {
        method: Method::Delete,
        url: cat3("https://open.feishu.cn/open-apis/im/v1/chats/", chat_id, "/members"),
        body: Some(request_json),
    }
}

/// Lists the members of a group chat.
pub fn list_group_members(chat_id: &str, request_json: &str) -> (r: Result<ApiCall, String>)
    ensures
        match r {
            Ok(c) => match json_of(request_json@) {
                Ok(p) => c.method == Method::Get && c.body is None && c.url@ == with_query(
                    "https://open.feishu.cn/open-apis/im/v1/chats/"@ + chat_id@ + "/members"@,
                    query_of(p),
                ),
                Err(_) => false,
            },
            Err(e) => json_of(request_json@) == Err::<JsonView, Seq<char>>(e@),
        },
{
    let url = cat3("https://open.feishu.cn/open-apis/im/v1/chats/", chat_id, "/members");
    let params = parse_json(request_json);
    list_call(url, params)
}

/// Recognises the text in an image.
pub fn recognize_text(request_json: String) -> (r: ApiCall)
    ensures
        r.method == Method::Post,
        r.url@ == "https://open.feishu.cn/open-apis/optical_char_recognition/v1/image/basic_recognize"@,
        r.body == Some(request_json),
{
    ApiCall {
        method: Method::Post,
        url: "https://open.feishu.cn/open-apis/optical_char_recognition/v1/image/basic_recognize".to_owned(),
        body: Some(request_json),
    }
}

/// Translates a text.
pub fn translate(request_json: String) -> (r: ApiCall)
    ensures
        r.method == Method::Post,
        r.url@ == "https://open.feishu.cn/open-apis/translation/v1/text/translate"@,
        r.body == Some(request_json),
{
    ApiCall {
        method: Method::Post,
        url: "https://open.feishu.cn/open-apis/translation/v1/text/translate".to_owned(),
        body: Some(request_json),
    }
}

/// Lists calendars.
pub fn list_calendars(request_json: &str) -> (r: Result<ApiCall, String>)
    ensures
        match r {
            Ok(c) => match json_of(request_json@) {
                Ok(p) => c.method == Method::Get && c.body is None && c.url@ == with_query(
                    "https://open.feishu.cn/open-apis/calendar/v4/calendars"@,
                    query_of(p),
                ),
                Err(_) => false,
            },
            Err(e) => json_of(request_json@) == Err::<JsonView, Seq<char>>(e@),
        },
{
    let url = "https://open.feishu.cn/open-apis/calendar/v4/calendars".to_owned();
    let params = parse_json(request_json);
    list_call(url, params)
}

/// Creates an event in a calendar.
pub fn create_calendar_event(calendar_id: &str, request_json: String) -> (r: ApiCall)
    ensures
        r.method == Method::Post,
        r.url@ == "https://open.feishu.cn/open-apis/calendar/v4/calendars/"@ + calendar_id@ + "/events"@,
        r.body == Some(request_json),
{
    ApiCall {
        method: Method::Post,
        url: cat3("https://open.feishu.cn/open-apis/calendar/v4/calendars/", calendar_id, "/events"),
        body: Some(request_json),
    }
}

/// Lists the events of a calendar.
pub fn list_calendar_events(calendar_id: &str, request_json: &str) -> (r: Result<ApiCall, String>)
    ensures
        match r {
            Ok(c) => match json_of(request_json@) {
                Ok(p) => c.method == Method::Get && c.body is None && c.url@ == with_query(
                    "https://open.feishu.cn/open-apis/calendar/v4/calendars/"@ + calendar_id@ + "/events"@,
                    query_of(p),
                ),
                Err(_) => false,
            },
            Err(e) => json_of(request_json@) == Err::<JsonView, Seq<char>>(e@),
        },
{
    let url = cat3("https://open.feishu.cn/open-apis/calendar/v4/calendars/", calendar_id, "/events");
    let params = parse_json(request_json);
    list_call(url, params)
}

/// Reads an event of a calendar.
pub fn get_calendar_event(calendar_id: &str, event_id: &str) -> (r: ApiCall)
    ensures
        r.method == Method::Get,
        r.url@ == "https://open.feishu.cn/open-apis/calendar/v4/calendars/"@ + calendar_id@ + "/events/"@ + event_id@,
        r.body == None::<String>,
{
    ApiCall {
        method: Method::Get,
        url: cat4("https://open.feishu.cn/open-apis/calendar/v4/calendars/", calendar_id, "/events/", event_id),
        body: None,
    }
}

/// Deletes an event of a calendar.
pub fn delete_calendar_event(calendar_id: &str, event_id: &str) -> (r: ApiCall)
    ensures
        r.method == Method::Delete,
        r.url@ == "https://open.feishu.cn/open-apis/calendar/v4/calendars/"@ + calendar_id@ + "/events/"@ + event_id@,
        r.body == None::<String>,
{
    ApiCall {
        method: Method::Delete,
        url: cat4("https://open.feishu.cn/open-apis/calendar/v4/calendars/", calendar_id, "/events/", event_id),
        body: None,
    }
}

/// Creates a card.
pub fn create_card(request_json: String) -> (r: ApiCall)
    ensures
        r.method == Method::Post,
        r.url@ == "https://open.feishu.cn/open-apis/cardkit/v1/cards"@,
        r.body == Some(request_json),
{
    ApiCall {
        method: Method::Post,
        url: "https://open.feishu.cn/open-apis/cardkit/v1/cards".to_owned(),
        body: Some(request_json),
    }
}

/// Changes a card.
pub fn update_card(card_id: &str, request_json: String) -> (r: ApiCall)
    ensures
        r.method == Method::Patch,
        r.url@ == "https://open.feishu.cn/open-apis/cardkit/v1/cards/"@ + card_id@,
        r.body == Some(request_json),
{
    ApiCall {
        method: Method::Patch,
        url: cat2("https://open.feishu.cn/open-apis/cardkit/v1/cards/", card_id),
        body: Some(request_json),
    }
}

/// Sends a mail from a mailbox.
pub fn send_mail(user_mailbox_id: &str, request_json: String) -> (r: ApiCall)
    ensures
        r.method == Method::Post,
        r.url@ == "https://open.feishu.cn/open-apis/mail/v1/user_mailboxes/"@ + user_mailbox_id@ + "/messages"@,
        r.body == Some(request_json),
{
    ApiCall {
        method: Method::Post,
        url: cat3("https://open.feishu.cn/open-apis/mail/v1/user_mailboxes/", user_mailbox_id, "/messages"),
        body: Some(request_json),
    }
}

/// Lists the mails of a mailbox.
pub fn list_mails(user_mailbox_id: &str, request_json: &str) -> (r: Result<ApiCall, String>)
    ensures
        match r {
            Ok(c) => match json_of(request_json@) {
                Ok(p) => c.method == Method::Get && c.body is None && c.url@ == with_query(
                    "https://open.feishu.cn/open-apis/mail/v1/user_mailboxes/"@ + user_mailbox_id@ + "/messages"@,
                    query_of(p),
                ),
                Err(_) => false,
            },
            Err(e) => json_of(request_json@) == Err::<JsonView, Seq<char>>(e@),
        },
{
    let url = cat3("https://open.feishu.cn/open-apis/mail/v1/user_mailboxes/", user_mailbox_id, "/messages");
    let params = parse_json(request_json);
    list_call(url, params)
}

/// Reads a mail of a mailbox.
pub fn get_mail(user_mailbox_id: &str, message_id: &str) -> (r: ApiCall)
    ensures
        r.method == Method::Get,
        r.url@ == "https://open.feishu.cn/open-apis/mail/v1/user_mailboxes/"@ + user_mailbox_id@ + "/messages/"@ + message_id@,
        r.body == None::<String>,
{
    ApiCall {
        method: Method::Get,
        url: cat4("https://open.feishu.cn/open-apis/mail/v1/user_mailboxes/", user_mailbox_id, "/messages/", message_id),
        body: None,
    }
}

/// Creates a document.
pub fn create_document(request_json: String) -> (r: ApiCall)
    ensures
        r.method == Method::Post,
        r.url@ == "https://open.feishu.cn/open-apis/docx/v1/documents"@,
        r.body == Some(request_json),
{
    ApiCall {
        method: Method::Post,
        url: "https://open.feishu.cn/open-apis/docx/v1/documents".to_owned(),
        body: Some(request_json),
    }
}

/// Reads a document.
pub fn get_document(document_id: &str) -> (r: ApiCall)
    ensures
        r.method == Method::Get,
        r.url@ == "https://open.feishu.cn/open-apis/docx/v1/documents/"@ + document_id@,
        r.body == None::<String>,
{
    ApiCall {
        method: Method::Get,
        url: cat2("https://open.feishu.cn/open-apis/docx/v1/documents/", document_id),
        body: None,
    }
}

/// Creates a spreadsheet.
pub fn create_spreadsheet(request_json: String) -> (r: ApiCall)
    ensures
        r.method == Method::Post,
        r.url@ == "https://open.feishu.cn/open-apis/sheets/v3/spreadsheets"@,
        r.body == Some(request_json),
{
    ApiCall {
        method: Method::Post,
        url: "https://open.feishu.cn/open-apis/sheets/v3/spreadsheets".to_owned(),
        body: Some(request_json),
    }
}

/// Reads a spreadsheet.
pub fn get_spreadsheet(spreadsheet_token: &str) -> (r: ApiCall)
    ensures
        r.method == Method::Get,
        r.url@ == "https://open.feishu.cn/open-apis/sheets/v3/spreadsheets/"@ + spreadsheet_token@,
        r.body == None::<String>,
{
    ApiCall {
        method: Method::Get,
        url: cat2("https://open.feishu.cn/open-apis/sheets/v3/spreadsheets/", spreadsheet_token),
        body: None,
    }
}

/// Creates a bitable app.
pub fn create_bitable(request_json: String) -> (r: ApiCall)
    ensures
        r.method == Method::Post,
        r.url@ == "https://open.feishu.cn/open-apis/bitable/v1/apps"@,
        r.body == Some(request_json),
{
    ApiCall {
        method: Method::Post,
        url: "https://open.feishu.cn/open-apis/bitable/v1/apps".to_owned(),
        body: Some(request_json),
    }
}

/// Lists the tables of a bitable app.
pub fn list_bitable_tables(app_token: &str) -> (r: ApiCall)
    ensures
        r.method == Method::Get,
        r.url@ == "https://open.feishu.cn/open-apis/bitable/v1/apps/"@ + app_token@ + "/tables"@,
        r.body == None::<String>,
{
    ApiCall {
        method: Method::Get,
        url: cat3("https://open.feishu.cn/open-apis/bitable/v1/apps/", app_token, "/tables"),
        body: None,
    }
}

/// Searches the records of a table.
pub fn list_bitable_records(app_token: &str, table_id: &str, request_json: String) -> (r: ApiCall)
    ensures
        r.method == Method::Post,
        r.url@ == "https://open.feishu.cn/open-apis/bitable/v1/apps/"@ + app_token@ + "/tables/"@ + table_id@ + "/records/search"@,
        r.body == Some(request_json),
{
    ApiCall {
        method: Method::Post,
        url: cat5("https://open.feishu.cn/open-apis/bitable/v1/apps/", app_token, "/tables/", table_id, "/records/search"),
        body: Some(request_json),
    }
}

/// Parameters without string members leave the address of a list as it is.
pub proof fn no_parameters_no_query(url: Seq<char>)
    ensures
        with_query(url, query_of(JsonView::Object(Seq::empty()))) == url,
{
    assert(query_parts(Seq::<(Seq<char>, Seq<char>)>::empty()).len() == 0);
}

/// A query holds the parameters that are strings, in order, each as its name and its value; others
/// are left out.
pub proof fn queries_hold_the_strings(
    members: Seq<(Seq<char>, Seq<char>)>,
    key: Seq<char>,
    t: Seq<char>,
    v: Seq<char>,
)
    ensures
        json_of(t) == Ok::<JsonView, Seq<char>>(JsonView::Text(v)) ==> query_parts(
            members.push((key, t)),
        ) == query_parts(members).push(key + "="@ + v),
        !(json_of(t) is Ok && json_of(t)->Ok_0 is Text) ==> query_parts(members.push((key, t)))
            == query_parts(members),
        query_parts(Seq::<(Seq<char>, Seq<char>)>::empty()).len() == 0,
        query_of(JsonView::Object(members)) == joined(query_parts(members), "&"@),
{
    assert(members.push((key, t)).drop_last() =~= members);
}

/// A query goes behind a question mark, and only an object makes one.
pub proof fn queries_go_behind_the_address(url: Seq<char>, query: Seq<char>, j: JsonView)
    ensures
        query.len() > 0 ==> with_query(url, query) == url + "?"@ + query,
        query.len() == 0 ==> with_query(url, query) == url,
        !(j is Object) ==> query_of(j).len() == 0,
{
}

/// Groups are made, read, changed and filled at one address each: the list of groups, the group, and
/// its members.
pub proof fn group_calls(
    id: &str,
    body: String,
    made: ApiCall,
    read: ApiCall,
    changed: ApiCall,
    joined_by: ApiCall,
    left_by: ApiCall,
)
    requires
        call_ensures(create_group, (body,), made),
        call_ensures(get_group, (id,), read),
        call_ensures(update_group, (id, body), changed),
        call_ensures(add_group_members, (id, body), joined_by),
        call_ensures(remove_group_members, (id, body), left_by),
    ensures
        made.method is Post && read.method is Get && changed.method is Put,
        joined_by.method is Post && left_by.method is Delete,
        read.url@ == made.url@ + "/"@ + id@,
        changed.url@ == read.url@,
        joined_by.url@ == read.url@ + "/members"@ && left_by.url@ == joined_by.url@,
        made.url@ == "https://open.feishu.cn/open-apis/im/v1/chats"@,
        made.body == Some(body) && changed.body == Some(body) && joined_by.body == Some(body),
        left_by.body == Some(body) && read.body is None,
{
    reveal_strlit("https://open.feishu.cn/open-apis/im/v1/chats");
    reveal_strlit("https://open.feishu.cn/open-apis/im/v1/chats/");
    reveal_strlit("/");
    assert("https://open.feishu.cn/open-apis/im/v1/chats/"@
        =~= "https://open.feishu.cn/open-apis/im/v1/chats"@ + "/"@);
    assert(read.url@ =~= made.url@ + "/"@ + id@);
    assert(joined_by.url@ =~= read.url@ + "/members"@);
}

/// Events of a calendar are made, read and removed under their calendar.
pub proof fn calendar_calls(
    calendar: &str,
    event: &str,
    body: String,
    made: ApiCall,
    read: ApiCall,
    removed: ApiCall,
)
    requires
        call_ensures(create_calendar_event, (calendar, body), made),
        call_ensures(get_calendar_event, (calendar, event), read),
        call_ensures(delete_calendar_event, (calendar, event), removed),
    ensures
        made.method is Post && read.method is Get && removed.method is Delete,
        made.url@ == "https://open.feishu.cn/open-apis/calendar/v4/calendars/"@ + calendar@
            + "/events"@,
        read.url@ == made.url@ + "/"@ + event@,
        removed.url@ == read.url@,
        made.body == Some(body) && read.body is None && removed.body is None,
{
    reveal_strlit("/events");
    reveal_strlit("/events/");
    reveal_strlit("/");
    assert("/events/"@ =~= "/events"@ + "/"@);
    assert(read.url@ =~= made.url@ + "/"@ + event@);
}

/// Documents, sheets and tables are made at one address and read under it.
pub proof fn document_calls(
    id: &str,
    table: &str,
    body: String,
    doc: ApiCall,
    doc_read: ApiCall,
    sheet: ApiCall,
    sheet_read: ApiCall,
    base: ApiCall,
    tables: ApiCall,
    records: ApiCall,
)
    requires
        call_ensures(create_document, (body,), doc),
        call_ensures(get_document, (id,), doc_read),
        call_ensures(create_spreadsheet, (body,), sheet),
        call_ensures(get_spreadsheet, (id,), sheet_read),
        call_ensures(create_bitable, (body,), base),
        call_ensures(list_bitable_tables, (id,), tables),
        call_ensures(list_bitable_records, (id, table, body), records),
    ensures
        doc.method is Post && sheet.method is Post && base.method is Post && records.method is Post,
        doc_read.method is Get && sheet_read.method is Get && tables.method is Get,
        doc.url@ == "https://open.feishu.cn/open-apis/docx/v1/documents"@,
        sheet.url@ == "https://open.feishu.cn/open-apis/sheets/v3/spreadsheets"@,
        base.url@ == "https://open.feishu.cn/open-apis/bitable/v1/apps"@,
        doc_read.url@ == doc.url@ + "/"@ + id@,
        sheet_read.url@ == sheet.url@ + "/"@ + id@,
        tables.url@ == base.url@ + "/"@ + id@ + "/tables"@,
        records.url@ == tables.url@ + "/"@ + table@ + "/records/search"@,
        doc.body == Some(body) && sheet.body == Some(body) && base.body == Some(body),
        records.body == Some(body),
        doc_read.body is None && sheet_read.body is None && tables.body is None,
{
    reveal_strlit("/");
    reveal_strlit("/tables");
    reveal_strlit("/tables/");
    reveal_strlit("https://open.feishu.cn/open-apis/docx/v1/documents");
    reveal_strlit("https://open.feishu.cn/open-apis/docx/v1/documents/");
    reveal_strlit("https://open.feishu.cn/open-apis/sheets/v3/spreadsheets");
    reveal_strlit("https://open.feishu.cn/open-apis/sheets/v3/spreadsheets/");
    reveal_strlit("https://open.feishu.cn/open-apis/bitable/v1/apps");
    reveal_strlit("https://open.feishu.cn/open-apis/bitable/v1/apps/");
    assert("https://open.feishu.cn/open-apis/docx/v1/documents/"@
        =~= "https://open.feishu.cn/open-apis/docx/v1/documents"@ + "/"@);
    assert("https://open.feishu.cn/open-apis/sheets/v3/spreadsheets/"@
        =~= "https://open.feishu.cn/open-apis/sheets/v3/spreadsheets"@ + "/"@);
    assert("https://open.feishu.cn/open-apis/bitable/v1/apps/"@
        =~= "https://open.feishu.cn/open-apis/bitable/v1/apps"@ + "/"@);
    assert("/tables/"@ =~= "/tables"@ + "/"@);
    assert(doc_read.url@ =~= doc.url@ + "/"@ + id@);
    assert(sheet_read.url@ =~= sheet.url@ + "/"@ + id@);
    assert(tables.url@ =~= base.url@ + "/"@ + id@ + "/tables"@);
    assert(records.url@ =~= tables.url@ + "/"@ + table@ + "/records/search"@);
}

/// Cards are made and changed, mails sent and read, texts recognized and translated, each at its own
/// address.
pub proof fn other_calls(
    id: &str,
    message: &str,
    body: String,
    card: ApiCall,
    card_changed: ApiCall,
    mail: ApiCall,
    mail_read: ApiCall,
    recognized: ApiCall,
    translated: ApiCall,
)
    requires
        call_ensures(create_card, (body,), card),
        call_ensures(update_card, (id, body), card_changed),
        call_ensures(send_mail, (id, body), mail),
        call_ensures(get_mail, (id, message), mail_read),
        call_ensures(recognize_text, (body,), recognized),
        call_ensures(translate, (body,), translated),
    ensures
        card.method is Post && card_changed.method is Patch && mail.method is Post,
        mail_read.method is Get && recognized.method is Post && translated.method is Post,
        card.url@ == "https://open.feishu.cn/open-apis/cardkit/v1/cards"@,
        card_changed.url@ == card.url@ + "/"@ + id@,
        mail.url@ == "https://open.feishu.cn/open-apis/mail/v1/user_mailboxes/"@ + id@
            + "/messages"@,
        mail_read.url@ == mail.url@ + "/"@ + message@,
        recognized.url@
            == "https://open.feishu.cn/open-apis/optical_char_recognition/v1/image/basic_recognize"@,
        translated.url@ == "https://open.feishu.cn/open-apis/translation/v1/text/translate"@,
        card.body == Some(body) && card_changed.body == Some(body) && mail.body == Some(body),
        recognized.body == Some(body) && translated.body == Some(body) && mail_read.body is None,
{
    reveal_strlit("/");
    reveal_strlit("/messages");
    reveal_strlit("/messages/");
    reveal_strlit("https://open.feishu.cn/open-apis/cardkit/v1/cards");
    reveal_strlit("https://open.feishu.cn/open-apis/cardkit/v1/cards/");
    assert("https://open.feishu.cn/open-apis/cardkit/v1/cards/"@
        =~= "https://open.feishu.cn/open-apis/cardkit/v1/cards"@ + "/"@);
    assert("/messages/"@ =~= "/messages"@ + "/"@);
    assert(card_changed.url@ =~= card.url@ + "/"@ + id@);
    assert(mail_read.url@ =~= mail.url@ + "/"@ + message@);
}

/// Lists are read with the strings of the request as their query; a request that cannot be read is an
/// error.
pub proof fn list_calls(
    id: &str,
    request: &str,
    members: Result<ApiCall, String>,
    calendars: Result<ApiCall, String>,
    events: Result<ApiCall, String>,
    mails: Result<ApiCall, String>,
)
    requires
        call_ensures(list_group_members, (id, request), members),
        call_ensures(list_calendars, (request,), calendars),
        call_ensures(list_calendar_events, (id, request), events),
        call_ensures(list_mails, (id, request), mails),
    ensures
        json_of(request@) is Err ==> members is Err && calendars is Err && events is Err && mails is Err,
        json_of(request@) is Ok ==> {
            let q = query_of(json_of(request@)->Ok_0);
            &&& members is Ok && calendars is Ok && events is Ok && mails is Ok
            &&& members->Ok_0.method is Get && calendars->Ok_0.method is Get && events->Ok_0.method is Get
                && mails->Ok_0.method is Get
            &&& members->Ok_0.body is None && calendars->Ok_0.body is None && events->Ok_0.body is None
                && mails->Ok_0.body is None
            &&& q.len() > 0 ==> {
                &&& members->Ok_0.url@ == "https://open.feishu.cn/open-apis/im/v1/chats/"@ + id@
                    + "/members"@ + "?"@ + q
                &&& calendars->Ok_0.url@ == "https://open.feishu.cn/open-apis/calendar/v4/calendars"@
                    + "?"@ + q
                &&& events->Ok_0.url@ == "https://open.feishu.cn/open-apis/calendar/v4/calendars/"@
                    + id@ + "/events"@ + "?"@ + q
                &&& mails->Ok_0.url@ == "https://open.feishu.cn/open-apis/mail/v1/user_mailboxes/"@
                    + id@ + "/messages"@ + "?"@ + q
            }
            &&& q.len() == 0 ==> members->Ok_0.url@ == "https://open.feishu.cn/open-apis/im/v1/chats/"@
                + id@ + "/members"@
        },
{
}

/// A call is made with its token, and says that its body is JSON where it has one.
pub proof fn calls_carry_their_token(c: ApiCall, token: &str, r: HttpRequest)
    requires
        call_ensures(ApiCall::with_token, (c, token), r),
    ensures
        r.authorization@ == "Bearer "@ + token@,
        r.method == c.method && r.url@ == c.url@ && r.body == c.body,
        c.body is Some ==> r.content_type is Some && r.content_type->0@ == "application/json"@,
        c.body is None ==> r.content_type is None,
{
}

} // verus!

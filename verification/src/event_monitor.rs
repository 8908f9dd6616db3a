//! Kubernetes watchers: which resources to watch, which events pass their condition, and what the
//! guest is told.
use vstd::prelude::*;
use crate::json::{json_of, json_result, member_views, parse_json, read_value, value_of, Json, JsonView};
use crate::table::{data_of, lemma_put, lookup, outside_workload, put_at, Owned, Table, Tracker};
use crate::text::{cat2, copy_opt, or_empty, opt_view, same, text_or_empty, trim, trimmed, views};
use crate::world::{bound_config, first_of_package, one, two, WitInterface, WitWorld};

verus! {

pub const PLUGIN_ID: &'static str = "event-monitor";

pub struct WatchableResource {
    pub group: String,
    pub version: String,
    pub kind: String,
}

pub struct WatchRule {
    pub id: String,
    pub res: WatchableResource,
    pub namespace: Option<String>,
    pub condition: String,
}

/// A resource as API discovery reports it.
pub struct DiscoveredResource {
    pub group: String,
    pub version: String,
    pub kind: String,
    pub can_watch: bool,
    pub can_list: bool,
    pub namespaced: bool,
}

/// The resources of one group and version, as API discovery reports them.
pub struct DiscoveredGroup {
    pub group: String,
    pub version: String,
    pub resources: Vec<DiscoveredResource>,
}

/// A watcher to start.
pub struct WatchPlan {
    pub id: String,
    pub group: String,
    pub version: String,
    pub kind: String,
    /// The namespace to watch; all of them where there is none.
    pub namespace: Option<String>,
    pub condition: Option<String>,
}

#[derive(Clone, Copy, Debug, PartialEq, Eq, Structural)]
pub enum EventAction {
    Applied,
    Deleted,
}

/// An object of the cluster.
pub struct WatchedObject {
    pub name: Option<String>,
    pub namespace: Option<String>,
    /// The object as JSON text, where it could be written as JSON. A real number in it is the one
    /// that is read out of the text.
    pub json: Option<String>,
}

pub enum WatchEvent {
    Apply(WatchedObject),
    InitApply(WatchedObject),
    Delete(WatchedObject),
    Init,
    InitDone,
}

/// An event as the guest sees it.
pub struct K8sEvent {
    pub group: String,
    pub version: String,
    pub kind: String,
    pub name: String,
    pub namespace: Option<String>,
    pub action: EventAction,
}

/// What the condition of a watcher says of an event.
#[derive(Clone, Copy, Debug, PartialEq, Eq, Structural)]
pub enum Admission {
    Pass,
    Filtered,
    /// The rule is left to the host.
    Unevaluated,
}

pub struct ComponentData {
    pub cancel_token: u64,
    pub workload: Option<String>,
    /// Whether a client of the API server is connected.
    pub connected: bool,
    /// The cancellation tokens of the running watchers.
    pub watchers: Vec<u64>,
}

pub struct EventMonitor {
    pub tracker: Tracker<ComponentData>,
}

/// What a JsonLogic rule gives on some data, both given as JSON text, as JSON text; none where
/// `jsonlogic` rejects the rule.
pub uninterp spec fn logic_of(rule: Seq<char>, data: Seq<char>) -> Option<Seq<char>>;

/// `jsonlogic::apply` on the rule and the data that `serde_json` reads out of the texts. It panics
/// where a sum, a product, a difference, a minimum or a maximum is no finite number, where the
/// positions of a substring overflow, and where `log` cannot print. `reduce`, and operators that go
/// through the items of an array inside one another, can nest a value more deeply than the stack
/// holds or make it outgrow the memory. Rules that apply operators so are left out.
#[verifier::external_body]
fn apply_logic(rule: &str, data: &str) -> (r: Option<String>)
    requires
        !needs_host(rule@, false, 128),
    ensures
        opt_view(r) == logic_of(rule@, data@),
{
    let rule: serde_json::Value = serde_json::from_str(rule).ok()?;
    let data: serde_json::Value = serde_json::from_str(data).ok()?;
    jsonlogic::apply(&rule, &data).ok().map(|v| v.to_string())
}

/// Whether `http` takes a text as a URI.
pub uninterp spec fn valid_uri(text: Seq<char>) -> bool;

/// `http::Uri::from_str`, reduced to whether it succeeds.
#[verifier::external_body]
fn is_uri(text: &str) -> (r: bool)
    ensures
        r == valid_uri(text@),
{
    text.parse::<http::Uri>().is_ok()
}

/// The operators that are always left to the host: those that compute with numbers, `log`, which
/// prints, and `reduce`, which feeds what it made to itself.
pub open spec fn host_operator(operator: Seq<char>) -> bool {
    operator == "+"@ || operator == "-"@ || operator == "*"@ || operator == "min"@ || operator
        == "max"@ || operator == "substr"@ || operator == "log"@ || operator == "reduce"@
}

fn is_host_operator(operator: &str) -> (r: bool)
    ensures
        r == host_operator(operator@),
{
    same(operator, "+") || same(operator, "-") || same(operator, "*") || same(operator, "min")
        || same(operator, "max") || same(operator, "substr") || same(operator, "log") || same(
        operator,
        "reduce",
    )
}

/// The operators that evaluate an expression for each item of an array.
pub open spec fn item_operator(operator: Seq<char>) -> bool {
    operator == "map"@ || operator == "filter"@ || operator == "all"@ || operator == "some"@
        || operator == "none"@
}

fn is_item_operator(operator: &str) -> (r: bool)
    ensures
        r == item_operator(operator@),
{
    same(operator, "map") || same(operator, "filter") || same(operator, "all") || same(
        operator,
        "some",
    ) || same(operator, "none")
}

/// An expression of a rule, as JSON text, is left to the host: it applies an operator that always is,
/// or applies one that goes through items inside another one, or is nested deeper than `depth`.
/// `inside` tells whether it stands inside an operator that goes through items. An object with one
/// member applies the operator that the key names to the items of an array or to a single value;
/// anything else is a constant.
pub open spec fn needs_host(expression: Seq<char>, inside: bool, depth: nat) -> bool
    decreases depth, 0nat,
{
    match value_of(expression) {
        JsonView::Object(m) if m.len() == 1 => {
            let within = inside || item_operator(m[0].0);
            ||| host_operator(m[0].0)
            ||| inside && item_operator(m[0].0)
            ||| depth == 0
            ||| match value_of(m[0].1) {
                JsonView::Array(args) => any_needs_host(args, within, (depth - 1) as nat),
                _ => needs_host(m[0].1, within, (depth - 1) as nat),
            }
        },
        _ => false,
    }
}

/// One of the expressions is.
pub open spec fn any_needs_host(args: Seq<Seq<char>>, inside: bool, depth: nat) -> bool
    decreases depth, 1nat,
{
    exists|i: int| 0 <= i < args.len() && needs_host(#[trigger] args[i], inside, depth)
}

fn expression_needs_host(expression: &str, inside: bool, depth: u8) -> (r: bool)
    ensures
        r == needs_host(expression@, inside, depth as nat),
    decreases depth,
{
    let members = match read_value(expression) {
        Json::Object(m) => m,
        _ => {
            return false;
        },
    };
    if members.len() != 1 {
        return false;
    }
    assert(member_views(members@)[0] == (members@[0].0@, members@[0].1@));
    let items = is_item_operator(&members[0].0);
    if is_host_operator(&members[0].0) || (inside && items) || depth == 0 {
        return true;
    }
    let within = inside || items;
    match read_value(&members[0].1) {
        Json::Array(args) => {
            let ghost list = views(args@);
            assert(needs_host(expression@, inside, depth as nat) == any_needs_host(
                list,
                within,
                (depth - 1) as nat,
            ));
            let mut i: usize = 0;
            while i < args.len()
                invariant
                    i <= args@.len(),
                    list == views(args@),
                    depth > 0,
                    needs_host(expression@, inside, depth as nat) == any_needs_host(
                        list,
                        within,
                        (depth - 1) as nat,
                    ),
                    forall|k: int|
                        0 <= k < i ==> !needs_host(#[trigger] list[k], within, (depth - 1) as nat),
                decreases args@.len() - i,
            {
                assert(list[i as int] == args@[i as int]@);
                if expression_needs_host(&args[i], within, depth - 1) {
                    return true;
                }
                i = i + 1;
            }
            false
        },
        _ => expression_needs_host(&members[0].1, within, depth - 1),
    }
}

/// Whether a rule is left to the host. JSON is nested no deeper than this depth.
pub fn rule_needs_host(rule: &str) -> (r: bool)
    ensures
        r == needs_host(rule@, false, 128),
{
    expression_needs_host(rule, false, 128)
}

/// The condition that a text stands for, given what JSON makes of the trimmed text: none where it
/// is blank, `null`, `true` or no JSON, which lets every event pass.
pub open spec fn condition_of(raw: Seq<char>, parsed: Result<JsonView, Seq<char>>) -> Option<
    Seq<char>,
> {
    let t = trimmed(raw);
    if t.len() == 0 || t == "null"@ || t == "true"@ {
        None
    } else if parsed is Ok {
        Some(t)
    } else {
        None
    }
}

/// Decides on a condition, given what JSON makes of its trimmed text.
pub fn condition_from(raw: &str, parsed: &Result<Json, String>) -> (r: Option<String>)
    ensures
        opt_view(r) == condition_of(raw@, json_result(*parsed)),
{
    let trimmed = trim(raw);
    if trimmed.as_str().is_empty() || same(&trimmed, "null") || same(&trimmed, "true") {
        return None;
    }
    match parsed {
        Ok(_) => Some(trimmed),
        Err(_) => None,
    }
}

/// Reads a JsonLogic condition; none for conditions that match everything.
pub fn parse_condition(raw: &str) -> (r: Option<String>)
    ensures
        opt_view(r) == condition_of(raw@, json_of(trimmed(raw@))),
{
    let trimmed = trim(raw);
    let parsed = parse_json(&trimmed);
    condition_from(raw, &parsed)
}

/// The object that an event is about.
pub open spec fn object_of(event: WatchEvent) -> Option<WatchedObject> {
    match event {
        WatchEvent::Apply(o) => Some(o),
        WatchEvent::InitApply(o) => Some(o),
        WatchEvent::Delete(o) => Some(o),
        _ => None,
    }
}

/// Whether the outcome of a rule lets the event pass: only `true` does.
pub open spec fn outcome_passes(outcome: Option<Seq<char>>) -> bool {
    match outcome {
        Some(t) => json_of(t) == Ok::<JsonView, Seq<char>>(JsonView::Bool(true)),
        None => false,
    }
}

/// Whether the outcome of a rule, as JSON text, lets the event pass.
pub fn passes(outcome: &Option<String>) -> (r: bool)
    ensures
        r == outcome_passes(opt_view(*outcome)),
{
    match outcome {
        Some(t) => match parse_json(t) {
            Ok(Json::Bool(b)) => b,
            _ => false,
        },
        None => false,
    }
}

/// What a condition says of an event.
pub open spec fn admission(condition: Option<Seq<char>>, event: WatchEvent) -> Admission {
    match condition {
        None => Admission::Pass,
        Some(rule) => match object_of(event) {
            None => Admission::Filtered,
            Some(o) => match o.json {
                None => Admission::Filtered,
                Some(data) => if needs_host(rule, false, 128) {
                    Admission::Unevaluated
                } else if outcome_passes(logic_of(rule, data@)) {
                    Admission::Pass
                } else {
                    Admission::Filtered
                },
            },
        },
    }
}

/// Evaluates a JsonLogic condition against an event: an event without an object, or whose object
/// is no JSON, does not pass.
pub fn evaluate_condition_for_event(condition: &Option<String>, event: &WatchEvent) -> (r: Admission)
    ensures
        r == admission(opt_view(*condition), *event),
{
    let rule = match condition {
        None => {
            return Admission::Pass;
        },
        Some(c) => c,
    };
    let obj = match event {
        WatchEvent::Apply(o) => o,
        WatchEvent::InitApply(o) => o,
        WatchEvent::Delete(o) => o,
        _ => {
            return Admission::Filtered;
        },
    };
    match &obj.json {
        None => Admission::Filtered,
        Some(data) => {
            if rule_needs_host(rule) {
                return Admission::Unevaluated;
            }
            let outcome = apply_logic(rule, data);
            if passes(&outcome) {
                Admission::Pass
            } else {
                Admission::Filtered
            }
        },
    }
}

/// The event that the guest is handed: none for the marks around an initial listing.
pub fn guest_event(group: &str, version: &str, kind: &str, event: &WatchEvent) -> (r: Option<K8sEvent>)
    ensures
        match r {
            None => object_of(*event) is None,
            Some(e) => match object_of(*event) {
                None => false,
                Some(o) => e.group@ == group@ && e.version@ == version@ && e.kind@ == kind@
                    && e.name@ == or_empty(o.name) && e.namespace == o.namespace && e.action == (
                if event is Delete {
                    EventAction::Deleted
                } else {
                    EventAction::Applied
                }),
            },
        },
{
    let (action, obj) = match event {
        WatchEvent::Apply(o) => (EventAction::Applied, o),
        WatchEvent::InitApply(o) => (EventAction::Applied, o),
        WatchEvent::Delete(o) => (EventAction::Deleted, o),
        _ => {
            return None;
        },
    };
    Some(
        K8sEvent {
            group: group.to_owned(),
            version: version.to_owned(),
            kind: kind.to_owned(),
            name: text_or_empty(&obj.name),
            namespace: copy_opt(&obj.namespace),
            action,
        },
    )
}

pub open spec fn same_resource(w: WatchableResource, d: DiscoveredResource) -> bool {
    w.group@ == d.group@ && w.version@ == d.version@ && w.kind@ == d.kind@
}

/// The resources that can be both watched and listed.
pub open spec fn watchable(all: Seq<DiscoveredResource>) -> Seq<DiscoveredResource>
    decreases all.len(),
{
    if all.len() == 0 {
        all
    } else if all.last().can_watch && all.last().can_list {
        watchable(all.drop_last()).push(all.last())
    } else {
        watchable(all.drop_last())
    }
}

/// Lists the resources that can be both watched and listed, in the order of discovery.
pub fn list_watchable(all: &Vec<DiscoveredResource>) -> (r: Vec<WatchableResource>)
    ensures
        r@.len() == watchable(all@).len(),
        forall|i: int| 0 <= i < r@.len() ==> same_resource(#[trigger] r@[i], watchable(all@)[i]),
{
    let mut r: Vec<WatchableResource> = Vec::new();
    let mut i: usize = 0;
    while i < all.len()
        invariant
            i <= all@.len(),
            r@.len() == watchable(all@.take(i as int)).len(),
            forall|k: int|
                0 <= k < r@.len() ==> same_resource(
                    #[trigger] r@[k],
                    watchable(all@.take(i as int))[k],
                ),
        decreases all@.len() - i,
    {
        assert(all@.take(i + 1).drop_last() == all@.take(i as int));
        let d = &all[i];
        if d.can_watch && d.can_list {
            r.push(
                WatchableResource {
                    group: d.group.clone(),
                    version: d.version.clone(),
                    kind: d.kind.clone(),
                },
            );
        }
        i = i + 1;
    }
    assert(all@.take(all@.len() as int) == all@);
    r
}

pub open spec fn is_group(g: DiscoveredGroup, group: Seq<char>, version: Seq<char>) -> bool {
    g.group@ == group && g.version@ == version
}

/// The discovered group and version that a rule names.
pub open spec fn group_for(
    groups: Seq<DiscoveredGroup>,
    group: Seq<char>,
    version: Seq<char>,
) -> Option<DiscoveredGroup>
    decreases groups.len(),
{
    if groups.len() == 0 {
        None
    } else if is_group(groups[0], group, version) {
        Some(groups[0])
    } else {
        group_for(groups.drop_first(), group, version)
    }
}

/// The first resource of a kind.
pub open spec fn kind_in(rs: Seq<DiscoveredResource>, kind: Seq<char>) -> Option<
    DiscoveredResource,
>
    decreases rs.len(),
{
    if rs.len() == 0 {
        None
    } else if rs[0].kind@ == kind {
        Some(rs[0])
    } else {
        kind_in(rs.drop_first(), kind)
    }
}

/// The resource that a rule watches: the first one of its kind in its group and version, where it
/// can be watched.
pub open spec fn target_of(rule: WatchRule, groups: Seq<DiscoveredGroup>) -> Option<
    DiscoveredResource,
> {
    match group_for(groups, rule.res.group@, rule.res.version@) {
        None => None,
        Some(g) => match kind_in(g.resources@, rule.res.kind@) {
            None => None,
            Some(d) => if d.can_watch {
                Some(d)
            } else {
                None
            },
        },
    }
}

/// The namespace that a rule watches: the one that it names, where the resource has namespaces.
pub open spec fn namespace_of(rule: WatchRule, d: DiscoveredResource) -> Option<Seq<char>> {
    match rule.namespace {
        Some(ns) => if ns@.len() > 0 && d.namespaced {
            Some(ns@)
        } else {
            None
        },
        None => None,
    }
}

pub open spec fn plan_for(p: WatchPlan, rule: WatchRule, d: DiscoveredResource) -> bool {
    &&& p.id@ == rule.id@
    &&& p.group@ == rule.res.group@
    &&& p.version@ == rule.res.version@
    &&& p.kind@ == rule.res.kind@
    &&& opt_view(p.namespace) == namespace_of(rule, d)
    &&& opt_view(p.condition) == condition_of(rule.condition@, json_of(trimmed(rule.condition@)))
}

/// The rules that have a resource to watch, in order.
pub open spec fn live_rules(rules: Seq<WatchRule>, groups: Seq<DiscoveredGroup>) -> Seq<WatchRule>
    decreases rules.len(),
{
    if rules.len() == 0 {
        rules
    } else if target_of(rules.last(), groups) is Some {
        live_rules(rules.drop_last(), groups).push(rules.last())
    } else {
        live_rules(rules.drop_last(), groups)
    }
}

fn find_group<'a>(groups: &'a Vec<DiscoveredGroup>, group: &str, version: &str) -> (r: Option<
    &'a DiscoveredGroup,
>)
    ensures
        match r {
            Some(g) => group_for(groups@, group@, version@) == Some(*g),
            None => group_for(groups@, group@, version@) is None,
        },
{
    let mut i: usize = 0;
    assert(groups@.skip(0) == groups@);
    while i < groups.len()
        invariant
            i <= groups@.len(),
            group_for(groups@, group@, version@) == group_for(
                groups@.skip(i as int),
                group@,
                version@,
            ),
        decreases groups@.len() - i,
    {
        assert(groups@.skip(i as int).drop_first() == groups@.skip(i + 1));
        if same(&groups[i].group, group) && same(&groups[i].version, version) {
            return Some(&groups[i]);
        }
        i = i + 1;
    }
    None
}

fn find_kind<'a>(rs: &'a Vec<DiscoveredResource>, kind: &str) -> (r: Option<&'a DiscoveredResource>)
    ensures
        match r {
            Some(d) => kind_in(rs@, kind@) == Some(*d),
            None => kind_in(rs@, kind@) is None,
        },
{
    let mut i: usize = 0;
    assert(rs@.skip(0) == rs@);
    while i < rs.len()
        invariant
            i <= rs@.len(),
            kind_in(rs@, kind@) == kind_in(rs@.skip(i as int), kind@),
        decreases rs@.len() - i,
    {
        assert(rs@.skip(i as int).drop_first() == rs@.skip(i + 1));
        if same(&rs[i].kind, kind) {
            return Some(&rs[i]);
        }
        i = i + 1;
    }
    None
}

/// The watcher that a rule asks for, where its resource was discovered and can be watched.
pub fn plan_watch(rule: &WatchRule, groups: &Vec<DiscoveredGroup>) -> (r: Option<WatchPlan>)
    ensures
        match r {
            Some(p) => match target_of(*rule, groups@) {
                Some(d) => plan_for(p, *rule, d),
                None => false,
            },
            None => target_of(*rule, groups@) is None,
        },
{
    let group = match find_group(groups, &rule.res.group, &rule.res.version) {
        None => {
            return None;
        },
        Some(g) => g,
    };
    let d = match find_kind(&group.resources, &rule.res.kind) {
        None => {
            return None;
        },
        Some(d) => d,
    };
    if !d.can_watch {
        return None;
    }
    let namespace = match &rule.namespace {
        Some(ns) => if !ns.as_str().is_empty() && d.namespaced {
            Some(ns.clone())
        } else {
            None
        },
        None => None,
    };
    Some(
        WatchPlan {
            id: rule.id.clone(),
            group: rule.res.group.clone(),
            version: rule.res.version.clone(),
            kind: rule.res.kind.clone(),
            namespace,
            condition: parse_condition(&rule.condition),
        },
    )
}

/// The watchers that a list of rules asks for, one for each rule whose resource can be watched.
pub fn plan_watches(rules: &Vec<WatchRule>, groups: &Vec<DiscoveredGroup>) -> (r: Vec<WatchPlan>)
    ensures
        r@.len() == live_rules(rules@, groups@).len(),
        forall|i: int|
            0 <= i < r@.len() ==> plan_for(
                #[trigger] r@[i],
                live_rules(rules@, groups@)[i],
                target_of(live_rules(rules@, groups@)[i], groups@)->0,
            ),
{
    let mut r: Vec<WatchPlan> = Vec::new();
    let mut i: usize = 0;
    while i < rules.len()
        invariant
            i <= rules@.len(),
            r@.len() == live_rules(rules@.take(i as int), groups@).len(),
            forall|k: int|
                0 <= k < r@.len() ==> plan_for(
                    #[trigger] r@[k],
                    live_rules(rules@.take(i as int), groups@)[k],
                    target_of(live_rules(rules@.take(i as int), groups@)[k], groups@)->0,
                ),
        decreases rules@.len() - i,
    {
        assert(rules@.take(i + 1).drop_last() == rules@.take(i as int));
        if let Some(p) = plan_watch(&rules[i], groups) {
            r.push(p);
        }
        i = i + 1;
    }
    assert(rules@.take(rules@.len() as int) == rules@);
    r
}

/// The first rule from `from` on whose group and version is not resolved yet.
pub open spec fn unresolved_from(
    rules: Seq<WatchRule>,
    groups: Seq<DiscoveredGroup>,
    from: int,
) -> int
    decreases rules.len() - from,
{
    if from >= rules.len() {
        rules.len() as int
    } else if group_for(groups, rules[from].res.group@, rules[from].res.version@) is None {
        from
    } else {
        unresolved_from(rules, groups, from + 1)
    }
}

/// The next rule whose group and version has to be asked for: each pair that was resolved is asked
/// for once, one that could not be resolved again by a later rule. None when all rules were looked
/// at.
pub fn next_discovery(rules: &Vec<WatchRule>, groups: &Vec<DiscoveredGroup>, from: usize) -> (r:
    Option<usize>)
    ensures
        match r {
            Some(i) => from <= i < rules@.len() && unresolved_from(rules@, groups@, from as int)
                == i,
            None => unresolved_from(rules@, groups@, from as int) == rules@.len(),
        },
{
    let mut i: usize = from;
    while i < rules.len()
        invariant
            from <= i,
            unresolved_from(rules@, groups@, from as int) == unresolved_from(
                rules@,
                groups@,
                i as int,
            ),
        decreases rules@.len() - i,
    {
        if find_group(groups, &rules[i].res.group, &rules[i].res.version).is_none() {
            return Some(i);
        }
        i = i + 1;
    }
    None
}

/// What `watch_resources` needs of a component, or the message of the failure.
pub open spec fn watch_error(rules: Seq<WatchRule>, o: Option<Owned<ComponentData>>) -> Option<
    Seq<char>,
> {
    if rules.len() == 0 {
        Some("no rules provided"@)
    } else {
        match o {
            None => Some("not tracked"@),
            Some(c) => if !c.data.connected {
                Some("not connected"@)
            } else if c.data.workload is None {
                Some("no workload"@)
            } else {
                None
            },
        }
    }
}

/// The component as it is, but without watchers.
pub open spec fn without_watchers(before: ComponentData, after: ComponentData) -> bool {
    &&& after.cancel_token == before.cancel_token
    &&& after.workload == before.workload
    &&& after.connected == before.connected
    &&& after.watchers@.len() == 0
}

/// Takes the watchers of a component away; their tokens are to be cancelled.
pub fn cancel_all_watchers(data: &mut ComponentData) -> (r: Vec<u64>)
    ensures
        without_watchers(*old(data), *final(data)),
        r@ == old(data).watchers@,
{
    let mut gone: Vec<u64> = Vec::new();
    std::mem::swap(&mut gone, &mut data.watchers);
    gone
}

/// The server and credentials of a client of the API server.
pub struct KubeSettings {
    pub url: String,
    pub token: String,
    pub accept_invalid_certs: bool,
}

/// The settings of a client, given whether the address is a URI.
pub fn kube_settings(url: &str, token: &str, is_uri: bool) -> (r: Result<KubeSettings, String>)
    ensures
        match r {
            Ok(k) => is_uri && k.url@ == url@ && k.token@ == token@ && k.accept_invalid_certs,
            Err(e) => !is_uri && e@ == "invalid api_server_url"@,
        },
{
    if is_uri {
        Ok(KubeSettings { url: url.to_owned(), token: token.to_owned(), accept_invalid_certs: true })
    } else {
        Err("invalid api_server_url".to_owned())
    }
}

/// The settings of a client of the API server at an address.
pub fn build_kube_config(url: &str, token: &str) -> (r: Result<KubeSettings, String>)
    ensures
        match r {
            Ok(k) => valid_uri(url@) && k.url@ == url@ && k.token@ == token@
                && k.accept_invalid_certs,
            Err(e) => !valid_uri(url@) && e@ == "invalid api_server_url"@,
        },
{
    let ok = is_uri(url);
    kube_settings(url, token, ok)
}

/// The tokens of the watchers of components, in order.
pub open spec fn watcher_tokens(d: Seq<ComponentData>) -> Seq<u64>
    decreases d.len(),
{
    if d.len() == 0 {
        Seq::<u64>::empty()
    } else {
        watcher_tokens(d.drop_last()) + d.last().watchers@
    }
}

/// A step of a call that fails the call itself.
pub enum CallStep {
    Configure,
    Connect,
    Reach,
    Discover,
}

/// Why a call failed.
pub fn call_error(step: CallStep, message: &str) -> (r: String)
    ensures
        r@ == (match step {
            CallStep::Configure => "config: "@,
            CallStep::Connect => "connect: "@,
            CallStep::Reach => "unreachable: "@,
            CallStep::Discover => "discovery: "@,
        }) + message@,
{
    match step {
        CallStep::Configure => cat2("config: ", message),
        CallStep::Connect => cat2("connect: ", message),
        CallStep::Reach => cat2("unreachable: ", message),
        CallStep::Discover => cat2("discovery: ", message),
    }
}

impl EventMonitor {
    pub fn new() -> (r: EventMonitor)
        ensures
            r.tracker@ == Map::<Seq<char>, Owned<ComponentData>>::empty(),
    {
        EventMonitor { tracker: Table::new() }
    }

    pub fn id(&self) -> (r: &'static str)
        ensures
            r@ == "event-monitor"@,
    {
        PLUGIN_ID
    }

    pub fn world(&self) -> (r: WitWorld)
        ensures
            r.imports@.len() == 1,
            r.imports@[0].names("custom"@, "event-monitor"@, seq!["watcher"@, "types"@], "0.2.0"@),
            r.exports@.len() == 1,
            r.exports@[0].names("custom"@, "event-monitor"@, seq!["handler"@], "0.2.0"@),
    {
        let mut imports: Vec<WitInterface> = Vec::new();
        imports.push(WitInterface::of("custom", "event-monitor", two("watcher", "types"), "0.2.0"));
        let mut exports: Vec<WitInterface> = Vec::new();
        exports.push(WitInterface::of("custom", "event-monitor", one("handler"), "0.2.0"));
        WitWorld { imports, exports }
    }

    /// Begins to track a component that brings a `custom:event-monitor` interface; `token` is the
    /// parent of the cancellation tokens of its watchers.
    pub fn on_workload_item_bind(
        &mut self,
        component_id: &str,
        workload_id: &str,
        is_component: bool,
        interfaces: &Vec<WitInterface>,
        token: u64,
    ) -> (bound: bool)
        ensures
            bound == (is_component && first_of_package(interfaces@, "custom"@, "event-monitor"@)
                is Some),
            !bound ==> final(self).tracker@ == old(self).tracker@,
            bound ==> put_at(old(self).tracker@, final(self).tracker@, component_id@) && ({
                let o = final(self).tracker@[component_id@];
                &&& o.workload_id@ == workload_id@
                &&& o.data.cancel_token == token
                &&& o.data.workload is None
                &&& !o.data.connected
                &&& o.data.watchers@.len() == 0
            }),
    {
        if bound_config(interfaces, "custom", "event-monitor").is_some() && is_component {
            let owned = Owned {
                workload_id: workload_id.to_owned(),
                data: ComponentData {
                    cancel_token: token,
                    workload: None,
                    connected: false,
                    watchers: Vec::new(),
                },
            };
            proof {
                lemma_put(self.tracker@, component_id@, owned);
            }
            self.tracker.insert(component_id.to_owned(), owned);
            return true;
        }
        false
    }

    /// Notes the workload of a component.
    pub fn on_workload_resolved(&mut self, workload: &str, component_id: &str)
        ensures
            match lookup(old(self).tracker@, component_id@) {
                None => final(self).tracker@ == old(self).tracker@,
                Some(o) => put_at(old(self).tracker@, final(self).tracker@, component_id@) && ({
                    let n = final(self).tracker@[component_id@];
                    &&& n.workload_id == o.workload_id
                    &&& n.data.cancel_token == o.data.cancel_token
                    &&& n.data.connected == o.data.connected
                    &&& n.data.watchers == o.data.watchers
                    &&& opt_view(n.data.workload) == Some(workload@)
                }),
            },
    {
        let ghost before = self.tracker@;
        match self.tracker.remove(component_id) {
            None => {
                assert(before.remove(component_id@) =~= before);
            },
            Some(o) => {
                let mut data = o.data;
                data.workload = Some(workload.to_owned());
                let owned = Owned { workload_id: o.workload_id, data };
                proof {
                    lemma_put(before, component_id@, owned);
                }
                self.tracker.insert(component_id.to_owned(), owned);
            },
        }
    }

    /// Forgets the components of a workload; returns the tokens of the watchers to cancel.
    pub fn on_workload_unbind(&mut self, workload_id: &str) -> (r: Vec<u64>)
        ensures
            final(self).tracker@ == outside_workload(old(self).tracker@, workload_id@),
            r@ == watcher_tokens(data_of(old(self).tracker.pairs(), workload_id@)),
    {
        let mut gone = self.tracker.remove_workload(workload_id);
        let ghost all = gone@;
        let mut tokens: Vec<u64> = Vec::new();
        let n: usize = gone.len();
        let mut i: usize = 0;
        while i < n
            invariant
                i <= n,
                n == all.len(),
                gone@.len() == n,
                forall|k: int| i <= k < n ==> gone@[k] == all[k],
                tokens@ == watcher_tokens(all.take(i as int)),
            decreases n - i,
        {
            assert(all.take(i + 1).drop_last() == all.take(i as int));
            let mut more: Vec<u64> = Vec::new();
            let mut k: usize = 0;
            while k < gone[i].watchers.len()
                invariant
                    i < gone@.len(),
                    k <= gone@[i as int].watchers@.len(),
                    more@ == gone@[i as int].watchers@.take(k as int),
                decreases gone@[i as int].watchers@.len() - k,
            {
                more.push(gone[i].watchers[k]);
                k = k + 1;
            }
            assert(gone@[i as int].watchers@.take(k as int) == gone@[i as int].watchers@);
            tokens.append(&mut more);
            i = i + 1;
        }
        assert(all.take(n as int) == all);
        tokens
    }

    /// Notes that a client of the API server is connected, in place of an earlier one; returns the
    /// tokens of the watchers to cancel.
    pub fn connected(&mut self, component_id: &str) -> (r: Result<Vec<u64>, String>)
        ensures
            match lookup(old(self).tracker@, component_id@) {
                None => final(self).tracker@ == old(self).tracker@ && match r {
                    Err(e) => e@ == "not tracked"@,
                    Ok(_) => false,
                },
                Some(o) => put_at(old(self).tracker@, final(self).tracker@, component_id@) && ({
                    let n = final(self).tracker@[component_id@];
                    &&& n.workload_id == o.workload_id
                    &&& n.data.cancel_token == o.data.cancel_token
                    &&& n.data.workload == o.data.workload
                    &&& n.data.connected
                    &&& n.data.watchers@.len() == 0
                }) && match r {
                    Ok(t) => t@ == o.data.watchers@,
                    Err(_) => false,
                },
            },
    {
        let ghost before = self.tracker@;
        match self.tracker.remove(component_id) {
            None => {
                assert(before.remove(component_id@) =~= before);
                Err("not tracked".to_owned())
            },
            Some(o) => {
                let mut data = o.data;
                let gone = cancel_all_watchers(&mut data);
                data.connected = true;
                let owned = Owned { workload_id: o.workload_id, data };
                proof {
                    lemma_put(before, component_id@, owned);
                }
                self.tracker.insert(component_id.to_owned(), owned);
                Ok(gone)
            },
        }
    }

    /// Begins to watch by a list of rules. The watchers of a tracked component are cancelled first,
    /// also where the component turns out to have no client or no workload; an empty list changes
    /// nothing. Returns the tokens to cancel, and the message of the failure.
    pub fn begin_watch(&mut self, component_id: &str, rules: &Vec<WatchRule>) -> (r: (
        Vec<u64>,
        Result<(), String>,
    ))
        ensures
            match r.1 {
                Ok(_) => watch_error(rules@, lookup(old(self).tracker@, component_id@)) is None,
                Err(e) => watch_error(rules@, lookup(old(self).tracker@, component_id@)) == Some(
                    e@,
                ),
            },
            match lookup(old(self).tracker@, component_id@) {
                Some(o) => if rules@.len() > 0 {
                    put_at(old(self).tracker@, final(self).tracker@, component_id@)
                        && final(self).tracker@[component_id@].workload_id == o.workload_id
                        && without_watchers(o.data, final(self).tracker@[component_id@].data)
                        && r.0@ == o.data.watchers@
                } else {
                    final(self).tracker@ == old(self).tracker@ && r.0@.len() == 0
                },
                None => final(self).tracker@ == old(self).tracker@ && r.0@.len() == 0,
            },
    {
        if rules.len() == 0 {
            return (Vec::new(), Err("no rules provided".to_owned()));
        }
        let ghost before = self.tracker@;
        match self.tracker.remove(component_id) {
            None => {
                assert(before.remove(component_id@) =~= before);
                (Vec::new(), Err("not tracked".to_owned()))
            },
            Some(o) => {
                let mut data = o.data;
                let gone = cancel_all_watchers(&mut data);
                let outcome = if !data.connected {
                    Err("not connected".to_owned())
                } else if data.workload.is_none() {
                    Err("no workload".to_owned())
                } else {
                    Ok(())
                };
                let owned = Owned { workload_id: o.workload_id, data };
                proof {
                    lemma_put(before, component_id@, owned);
                }
                self.tracker.insert(component_id.to_owned(), owned);
                (gone, outcome)
            },
        }
    }

    /// Notes a watcher that was started; nothing where the component is gone.
    pub fn watcher_started(&mut self, component_id: &str, token: u64) -> (r: bool)
        ensures
            match lookup(old(self).tracker@, component_id@) {
                None => !r && final(self).tracker@ == old(self).tracker@,
                Some(o) => r && put_at(old(self).tracker@, final(self).tracker@, component_id@) && ({
                    let n = final(self).tracker@[component_id@];
                    &&& n.workload_id == o.workload_id
                    &&& n.data.cancel_token == o.data.cancel_token
                    &&& n.data.workload == o.data.workload
                    &&& n.data.connected == o.data.connected
                    &&& n.data.watchers@ == o.data.watchers@.push(token)
                }),
            },
    {
        let ghost before = self.tracker@;
        match self.tracker.remove(component_id) {
            None => {
                assert(before.remove(component_id@) =~= before);
                false
            },
            Some(o) => {
                let mut data = o.data;
                data.watchers.push(token);
                let owned = Owned { workload_id: o.workload_id, data };
                proof {
                    lemma_put(before, component_id@, owned);
                }
                self.tracker.insert(component_id.to_owned(), owned);
                true
            },
        }
    }

    /// Ends all watchers of a component; returns their tokens.
    pub fn unwatch_resources(&mut self, component_id: &str) -> (r: Result<Vec<u64>, String>)
        ensures
            match lookup(old(self).tracker@, component_id@) {
                None => final(self).tracker@ == old(self).tracker@ && match r {
                    Err(e) => e@ == "not tracked"@,
                    Ok(_) => false,
                },
                Some(o) => put_at(old(self).tracker@, final(self).tracker@, component_id@)
                    && final(self).tracker@[component_id@].workload_id == o.workload_id
                    && without_watchers(o.data, final(self).tracker@[component_id@].data)
                    && match r {
                    Ok(t) => t@ == o.data.watchers@,
                    Err(_) => false,
                },
            },
    {
        let ghost before = self.tracker@;
        match self.tracker.remove(component_id) {
            None => {
                assert(before.remove(component_id@) =~= before);
                Err("not tracked".to_owned())
            },
            Some(o) => {
                let mut data = o.data;
                let gone = cancel_all_watchers(&mut data);
                let owned = Owned { workload_id: o.workload_id, data };
                proof {
                    lemma_put(before, component_id@, owned);
                }
                self.tracker.insert(component_id.to_owned(), owned);
                Ok(gone)
            },
        }
    }

    /// Whether the resources of the cluster can be listed for a component.
    pub fn can_list(&self, component_id: &str) -> (r: Result<(), String>)
        ensures
            match lookup(self.tracker@, component_id@) {
                None => r is Err && r->Err_0@ == "not tracked"@,
                Some(o) => if o.data.connected {
                    r is Ok
                } else {
                    r is Err && r->Err_0@ == "not connected"@
                },
            },
    {
        match self.tracker.get(component_id) {
            None => Err("not tracked".to_owned()),
            Some(o) => if o.data.connected {
                Ok(())
            } else {
                Err("not connected".to_owned())
            },
        }
    }
}

impl Default for EventMonitor {
    fn default() -> (r: EventMonitor)
        ensures
            r.tracker@ == Map::<Seq<char>, Owned<ComponentData>>::empty(),
    {
        EventMonitor::new()
    }
}

/// Without a condition every event is queued.
pub proof fn no_condition_passes_everything(event: WatchEvent)
    ensures
        admission(None, event) == Admission::Pass,
{
}

/// With a condition, the marks around an initial listing are filtered.
pub proof fn marks_never_meet_a_condition(rule: Seq<char>)
    ensures
        admission(Some(rule), WatchEvent::Init) == Admission::Filtered,
        admission(Some(rule), WatchEvent::InitDone) == Admission::Filtered,
{
}

/// A rule is dropped only where its resource cannot be watched: every other rule of the list has
/// its watcher.
pub proof fn every_live_rule_is_planned(rules: Seq<WatchRule>, groups: Seq<DiscoveredGroup>, i: int)
    requires
        0 <= i < rules.len(),
        target_of(rules[i], groups) is Some,
    ensures
        live_rules(rules, groups).contains(rules[i]),
    decreases rules.len(),
{
    let p = rules.drop_last();
    if i < p.len() {
        every_live_rule_is_planned(p, groups, i);
        let k = choose|k: int| 0 <= k < live_rules(p, groups).len() && live_rules(p, groups)[k] == p[i];
        assert(live_rules(rules, groups)[k] == rules[i]);
    } else {
        let l = live_rules(rules, groups);
        assert(l[l.len() - 1] == rules[i]);
    }
}

/// A condition that is blank, null or true lets everything pass, and so does one that cannot be
/// read; any other is the text it is, trimmed.
pub proof fn conditions_are_read(raw: Seq<char>, parsed: Result<JsonView, Seq<char>>)
    ensures
        ({
            let t = trimmed(raw);
            match condition_of(raw, parsed) {
                Some(c) => c == t && t.len() > 0 && t != "null"@ && t != "true"@ && parsed is Ok,
                None => t.len() == 0 || t == "null"@ || t == "true"@ || parsed is Err,
            }
        }),
{
}

/// The object of an event is the one it is about; marks of the stream have none.
pub proof fn events_are_about_their_object(o: WatchedObject)
    ensures
        object_of(WatchEvent::Apply(o)) == Some(o),
        object_of(WatchEvent::InitApply(o)) == Some(o),
        object_of(WatchEvent::Delete(o)) == Some(o),
        object_of(WatchEvent::Init) is None,
        object_of(WatchEvent::InitDone) is None,
{
}

/// A rule admits what it gives `true` for, and nothing else: not another value, and not what it
/// cannot be applied to.
pub proof fn only_true_admits(t: Seq<char>)
    ensures
        !outcome_passes(None),
        outcome_passes(Some(t)) <==> json_of(t) == Ok::<JsonView, Seq<char>>(JsonView::Bool(true)),
{
}

/// An event under a condition passes where the condition holds of its object; without an object, or
/// one that can be written as JSON, it does not. A rule for the host is left to it.
pub proof fn conditions_are_held_against_the_object(rule: Seq<char>, event: WatchEvent)
    ensures
        match admission(Some(rule), event) {
            Admission::Pass => match object_of(event) {
                Some(o) => o.json is Some && !needs_host(rule, false, 128) && logic_of(
                    rule,
                    o.json->0@,
                ) is Some && json_of(logic_of(rule, o.json->0@)->0) == Ok::<JsonView, Seq<char>>(
                    JsonView::Bool(true),
                ),
                None => false,
            },
            Admission::Filtered => match object_of(event) {
                Some(o) => o.json is None || (!needs_host(rule, false, 128) && (logic_of(
                    rule,
                    o.json->0@,
                ) is None || json_of(logic_of(rule, o.json->0@)->0) != Ok::<JsonView, Seq<char>>(
                    JsonView::Bool(true),
                ))),
                None => true,
            },
            Admission::Unevaluated => match object_of(event) {
                Some(o) => o.json is Some && needs_host(rule, false, 128),
                None => false,
            },
        },
{
}

/// The operators that are left to the host wherever they stand, and those that are left to it inside
/// one another.
pub proof fn operators_for_the_host(operator: Seq<char>)
    ensures
        host_operator("+"@) && host_operator("-"@) && host_operator("*"@),
        host_operator("min"@) && host_operator("max"@) && host_operator("substr"@),
        host_operator("log"@) && host_operator("reduce"@),
        item_operator("map"@) && item_operator("filter"@) && item_operator("all"@),
        item_operator("some"@) && item_operator("none"@),
{
}

/// A rule that applies an operator for the host is left to it, and so is one whose argument is.
pub proof fn rules_are_left_to_the_host(rule: Seq<char>, inside: bool, depth: nat)
    requires
        value_of(rule) is Object,
        value_of(rule)->Object_0.len() == 1,
        depth > 0,
    ensures
        ({
            let operator = value_of(rule)->Object_0[0].0;
            let argument = value_of(rule)->Object_0[0].1;
            &&& host_operator(operator) ==> needs_host(rule, inside, depth)
            &&& inside && item_operator(operator) ==> needs_host(rule, inside, depth)
            &&& !(value_of(argument) is Array) && needs_host(
                argument,
                inside || item_operator(operator),
                (depth - 1) as nat,
            ) ==> needs_host(rule, inside, depth)
            &&& match value_of(argument) {
                JsonView::Array(args) => forall|i: int|
                    0 <= i < args.len() && needs_host(
                        #[trigger] args[i],
                        inside || item_operator(operator),
                        (depth - 1) as nat,
                    ) ==> needs_host(rule, inside, depth),
                _ => true,
            }
        }),
{
    reveal_with_fuel(needs_host, 2);
    reveal_with_fuel(any_needs_host, 2);
    let operator = value_of(rule)->Object_0[0].0;
    let within = inside || item_operator(operator);
    match value_of(value_of(rule)->Object_0[0].1) {
        JsonView::Array(args) => {
            assert forall|i: int|
                0 <= i < args.len() && needs_host(
                    #[trigger] args[i],
                    within,
                    (depth - 1) as nat,
                ) implies needs_host(rule, inside, depth) by {
                assert(any_needs_host(args, within, (depth - 1) as nat));
            }
        },
        _ => {},
    }
}

/// A value that is no operator, a text, a number or a list, is not left to the host.
pub proof fn values_are_not_left_to_the_host(rule: Seq<char>, inside: bool, depth: nat)
    requires
        !(value_of(rule) is Object) || value_of(rule)->Object_0.len() != 1,
    ensures
        !needs_host(rule, inside, depth),
{
}

/// A resource that is listed is one that can be watched and listed, under its own names, in order.
pub proof fn listed_resources_can_be_watched(all: Seq<DiscoveredResource>, more: DiscoveredResource)
    ensures
        more.can_watch && more.can_list ==> watchable(all.push(more)) == watchable(all).push(more),
        !more.can_watch || !more.can_list ==> watchable(all.push(more)) == watchable(all),
        watchable(Seq::<DiscoveredResource>::empty()).len() == 0,
{
    assert(all.push(more).drop_last() =~= all);
}

/// The same resource has the same group, version and kind.
pub proof fn resources_keep_their_names(w: WatchableResource, d: DiscoveredResource)
    requires
        same_resource(w, d),
    ensures
        w.group@ == d.group@,
        w.version@ == d.version@,
        w.kind@ == d.kind@,
{
}

proof fn lemma_group_for(groups: Seq<DiscoveredGroup>, group: Seq<char>, version: Seq<char>)
    ensures
        match group_for(groups, group, version) {
            Some(g) => g.group@ == group && g.version@ == version && groups.contains(g),
            None => forall|i: int|
                0 <= i < groups.len() ==> (#[trigger] groups[i]).group@ != group || groups[i].version@
                    != version,
        },
    decreases groups.len(),
{
    if groups.len() > 0 {
        let d = groups.drop_first();
        lemma_group_for(d, group, version);
        if is_group(groups[0], group, version) {
            assert(groups.contains(groups[0]));
        } else {
            match group_for(d, group, version) {
                Some(g) => {
                    let i = choose|i: int| 0 <= i < d.len() && d[i] == g;
                    assert(groups[i + 1] == g);
                },
                None => {
                    assert forall|i: int| 0 <= i < groups.len() implies (#[trigger] groups[i]).group@
                        != group || groups[i].version@ != version by {
                        if i > 0 {
                            assert(d[i - 1] == groups[i]);
                        }
                    }
                },
            }
        }
    }
}

proof fn lemma_kind_in(rs: Seq<DiscoveredResource>, kind: Seq<char>)
    ensures
        match kind_in(rs, kind) {
            Some(d) => d.kind@ == kind && rs.contains(d),
            None => forall|i: int| 0 <= i < rs.len() ==> (#[trigger] rs[i]).kind@ != kind,
        },
    decreases rs.len(),
{
    if rs.len() > 0 {
        let d = rs.drop_first();
        lemma_kind_in(d, kind);
        if rs[0].kind@ == kind {
            assert(rs.contains(rs[0]));
        } else {
            match kind_in(d, kind) {
                Some(g) => {
                    let i = choose|i: int| 0 <= i < d.len() && d[i] == g;
                    assert(rs[i + 1] == g);
                },
                None => {
                    assert forall|i: int| 0 <= i < rs.len() implies (#[trigger] rs[i]).kind@ != kind by {
                        if i > 0 {
                            assert(d[i - 1] == rs[i]);
                        }
                    }
                },
            }
        }
    }
}

/// What a rule watches is a resource of its group and version, of its kind, that can be watched.
pub proof fn rules_watch_their_resource(rule: WatchRule, groups: Seq<DiscoveredGroup>)
    ensures
        match target_of(rule, groups) {
            Some(d) => d.kind@ == rule.res.kind@ && d.can_watch && exists|i: int|
                0 <= i < groups.len() && (#[trigger] groups[i]).group@ == rule.res.group@
                    && groups[i].version@ == rule.res.version@ && groups[i].resources@.contains(d),
            None => true,
        },
        (forall|i: int|
            0 <= i < groups.len() ==> (#[trigger] groups[i]).group@ != rule.res.group@
                || groups[i].version@ != rule.res.version@) ==> target_of(rule, groups) is None,
{
    lemma_group_for(groups, rule.res.group@, rule.res.version@);
    match group_for(groups, rule.res.group@, rule.res.version@) {
        Some(g) => {
            lemma_kind_in(g.resources@, rule.res.kind@);
            let i = choose|i: int| 0 <= i < groups.len() && groups[i] == g;
            assert(groups[i].group@ == rule.res.group@);
        },
        None => {},
    }
}

/// A resource without namespaces is watched everywhere, and so is one of a rule without a namespace;
/// any other in the rule's.
pub proof fn namespaces_are_those_of_the_rule(rule: WatchRule, d: DiscoveredResource)
    ensures
        rule.namespace is None ==> namespace_of(rule, d) is None,
        rule.namespace is Some && rule.namespace->0@.len() == 0 ==> namespace_of(rule, d) is None,
        !d.namespaced ==> namespace_of(rule, d) is None,
        rule.namespace is Some && rule.namespace->0@.len() > 0 && d.namespaced ==> namespace_of(rule, d)
            == Some(rule.namespace->0@),
{
}

/// A plan says what its rule says.
pub proof fn plans_say_what_the_rule_says(p: WatchPlan, rule: WatchRule, d: DiscoveredResource)
    requires
        plan_for(p, rule, d),
    ensures
        p.id@ == rule.id@,
        p.group@ == rule.res.group@,
        p.version@ == rule.res.version@,
        p.kind@ == rule.res.kind@,
        p.namespace is Some <==> rule.namespace is Some && rule.namespace->0@.len() > 0 && d.namespaced,
        p.namespace is Some ==> p.namespace->0@ == rule.namespace->0@,
        p.condition is Some ==> p.condition->0@ == trimmed(rule.condition@),
        p.condition is None ==> trimmed(rule.condition@).len() == 0 || trimmed(rule.condition@)
            == "null"@ || trimmed(rule.condition@) == "true"@ || json_of(trimmed(rule.condition@)) is Err,
{
}

/// The rules with something to watch keep their order.
pub proof fn live_rules_keep_their_order(
    rules: Seq<WatchRule>,
    more: WatchRule,
    groups: Seq<DiscoveredGroup>,
)
    ensures
        target_of(more, groups) is Some ==> live_rules(rules.push(more), groups) == live_rules(
            rules,
            groups,
        ).push(more),
        target_of(more, groups) is None ==> live_rules(rules.push(more), groups) == live_rules(
            rules,
            groups,
        ),
        live_rules(Seq::<WatchRule>::empty(), groups).len() == 0,
{
    assert(rules.push(more).drop_last() =~= rules);
}

/// The next rule to discover for is the first one whose group and version are not known.
pub proof fn discovery_goes_on_with_the_first_unknown(
    rules: Seq<WatchRule>,
    groups: Seq<DiscoveredGroup>,
    from: int,
)
    requires
        0 <= from <= rules.len(),
    ensures
        ({
            let n = unresolved_from(rules, groups, from);
            &&& from <= n <= rules.len()
            &&& forall|i: int|
                from <= i < n ==> group_for(
                    groups,
                    (#[trigger] rules[i]).res.group@,
                    rules[i].res.version@,
                ) is Some
            &&& n < rules.len() ==> group_for(groups, rules[n].res.group@, rules[n].res.version@)
                is None
        }),
    decreases rules.len() - from,
{
    if from < rules.len() && group_for(groups, rules[from].res.group@, rules[from].res.version@)
        is Some {
        discovery_goes_on_with_the_first_unknown(rules, groups, from + 1);
    }
}

/// Watching is refused without rules, for a component that is not tracked, not connected or without
/// a workload, in that order, and the answer says which.
pub proof fn refusals_say_why(rules: Seq<WatchRule>, o: Option<Owned<ComponentData>>)
    ensures
        match watch_error(rules, o) {
            None => rules.len() > 0 && o is Some && o->0.data.connected && o->0.data.workload is Some,
            Some(e) => if rules.len() == 0 {
                e == "no rules provided"@
            } else if o is None {
                e == "not tracked"@
            } else if !o->0.data.connected {
                e == "not connected"@
            } else {
                o->0.data.workload is None && e == "no workload"@
            },
        },
{
}

/// Ending the watchers ends all of them, and changes nothing else.
pub proof fn all_watchers_end(before: ComponentData, after: ComponentData)
    requires
        without_watchers(before, after),
    ensures
        after.watchers@.len() == 0,
        after.cancel_token == before.cancel_token,
        after.workload == before.workload,
        after.connected == before.connected,
{
}

/// Unbinding gives back the tokens of all watchers of all components, in order.
pub proof fn every_watcher_is_cancelled(d: Seq<ComponentData>, more: ComponentData)
    ensures
        watcher_tokens(d.push(more)) == watcher_tokens(d) + more.watchers@,
        watcher_tokens(Seq::<ComponentData>::empty()).len() == 0,
{
    assert(d.push(more).drop_last() =~= d);
}

/// The plugin goes by its own name, and takes and gives the interfaces of its own package.
pub proof fn the_plugin_and_its_world(p: EventMonitor, id: &'static str, w: WitWorld)
    requires
        call_ensures(EventMonitor::id, (&p,), id),
        call_ensures(EventMonitor::world, (&p,), w),
    ensures
        id@ == "event-monitor"@,
        w.imports@.len() == 1,
        w.imports@[0].names("custom"@, "event-monitor"@, seq!["watcher"@, "types"@], "0.2.0"@),
        w.exports@.len() == 1,
        w.exports@[0].names("custom"@, "event-monitor"@, seq!["handler"@], "0.2.0"@),
{
}

/// What the guest is told of an event is the resource it watches and the object's name and
/// namespace; an object that is gone was deleted, any other applied, and marks are not told.
pub proof fn guests_are_told_of_the_object(
    group: &str,
    version: &str,
    kind: &str,
    o: WatchedObject,
    applied: Option<K8sEvent>,
    first: Option<K8sEvent>,
    gone: Option<K8sEvent>,
    mark: Option<K8sEvent>,
)
    requires
        call_ensures(guest_event, (group, version, kind, &WatchEvent::Apply(o)), applied),
        call_ensures(guest_event, (group, version, kind, &WatchEvent::InitApply(o)), first),
        call_ensures(guest_event, (group, version, kind, &WatchEvent::Delete(o)), gone),
        call_ensures(guest_event, (group, version, kind, &WatchEvent::Init), mark),
    ensures
        applied is Some && first is Some && gone is Some && mark is None,
        applied->0.action is Applied && first->0.action is Applied && gone->0.action is Deleted,
        applied->0.group@ == group@ && applied->0.version@ == version@ && applied->0.kind@ == kind@,
        gone->0.group@ == group@ && gone->0.version@ == version@ && gone->0.kind@ == kind@,
        o.name is Some ==> applied->0.name@ == o.name->0@ && gone->0.name@ == o.name->0@,
        o.name is None ==> applied->0.name@.len() == 0,
        applied->0.namespace == o.namespace && gone->0.namespace == o.namespace,
{
}

/// A server is reached at its address with its token, whatever certificate it shows; an address that
/// is none is refused.
pub proof fn servers_are_reached_at_their_address(url: &str, token: &str, r: Result<KubeSettings, String>)
    requires
        call_ensures(build_kube_config, (url, token), r),
    ensures
        r is Ok <==> valid_uri(url@),
        r is Ok ==> r->Ok_0.url@ == url@ && r->Ok_0.token@ == token@ && r->Ok_0.accept_invalid_certs,
        r is Err ==> r->Err_0@ == "invalid api_server_url"@,
{
}

/// What failed on the way to the server is told by its step.
pub proof fn failed_calls_are_told(m: &str, a: String, b: String, c: String, d: String)
    requires
        call_ensures(call_error, (CallStep::Configure, m), a),
        call_ensures(call_error, (CallStep::Connect, m), b),
        call_ensures(call_error, (CallStep::Reach, m), c),
        call_ensures(call_error, (CallStep::Discover, m), d),
    ensures
        a@ == "config: "@ + m@,
        b@ == "connect: "@ + m@,
        c@ == "unreachable: "@ + m@,
        d@ == "discovery: "@ + m@,
{
}

/// A component that has an interface of the package is tracked for its workload, as one that has just
/// been bound; any other is not, and nothing else changes.
pub proof fn components_are_bound_for_their_workload(
    p: &mut EventMonitor,
    id: &str,
    workload: &str,
    is_component: bool,
    interfaces: &Vec<WitInterface>,
    token: u64,
    bound: bool,
    other: Seq<char>,
)
    requires
        call_ensures(
            EventMonitor::on_workload_item_bind,
            (p, id, workload, is_component, interfaces, token),
            bound,
        ),
        other != id@,
    ensures
        bound <==> is_component && first_of_package(interfaces@, "custom"@, "event-monitor"@) is Some,
        !bound ==> final(p).tracker@ == old(p).tracker@,
        lookup(final(p).tracker@, other) == lookup(old(p).tracker@, other),
        bound ==> {
            let o = final(p).tracker@[id@];
            &&& final(p).tracker@.contains_key(id@)
            &&& o.workload_id@ == workload@
            &&& o.data.cancel_token == token
            &&& o.data.workload is None && !o.data.connected && o.data.watchers@.len() == 0
        },
{
    if bound {
        crate::table::putting_leaves_the_others(old(p).tracker@, final(p).tracker@, id@, other);
    }
}

/// A list of arguments is left to the host exactly where one of them is; one without arguments is not.
pub proof fn arguments_are_left_to_the_host(
    args: Seq<Seq<char>>,
    more: Seq<char>,
    inside: bool,
    depth: nat,
)
    ensures
        !any_needs_host(Seq::<Seq<char>>::empty(), inside, depth),
        any_needs_host(args.push(more), inside, depth) <==> any_needs_host(args, inside, depth)
            || needs_host(more, inside, depth),
{
    let all = args.push(more);
    assert(all[args.len() as int] == more);
    if any_needs_host(args, inside, depth) {
        let i = choose|i: int| 0 <= i < args.len() && needs_host(#[trigger] args[i], inside, depth);
        assert(all[i] == args[i]);
    }
    if any_needs_host(all, inside, depth) {
        let i = choose|i: int| 0 <= i < all.len() && needs_host(#[trigger] all[i], inside, depth);
        if i < args.len() {
            assert(args[i] == all[i]);
        }
    }
}

/// A rule that is one operator, not for the host, and whose arguments are not, is not left to it.
pub proof fn plain_rules_are_not_left_to_the_host(rule: Seq<char>, inside: bool, depth: nat)
    requires
        value_of(rule) is Object,
        value_of(rule)->Object_0.len() == 1,
        depth > 0,
        !host_operator(value_of(rule)->Object_0[0].0),
        !item_operator(value_of(rule)->Object_0[0].0),
        match value_of(value_of(rule)->Object_0[0].1) {
            JsonView::Array(args) => forall|i: int|
                0 <= i < args.len() ==> !needs_host(#[trigger] args[i], inside, (depth - 1) as nat),
            _ => !needs_host(value_of(rule)->Object_0[0].1, inside, (depth - 1) as nat),
        },
    ensures
        !needs_host(rule, inside, depth),
{
    reveal_with_fuel(needs_host, 2);
    reveal_with_fuel(any_needs_host, 2);
}

} // verus!

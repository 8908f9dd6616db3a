//! Cron and one-shot schedules of components.
use vstd::prelude::*;
use std::str::FromStr;
use crate::number::{parse_u64, parsed_unsigned};
use crate::table::{data_of, lemma_map_of_keys, lemma_put, lookup, outside_workload, put_at, Config, Owned, Table, Tracker};
use crate::text::{cat3, cat4, contains, cut, cut_at, cuts_are_at_the_first, holds_text, opt_view, same, split_at_char, split_char, split_words, starts_with, trim, trimmed, trimming_keeps_the_middle, views, white_space, white_space_parts_words, words};
use crate::world::{bound_config, first_of_package, one, two, WitInterface, WitWorld};

verus! {

pub const PLUGIN_ID: &'static str = "crontab";

/// When a schedule fires.
#[derive(Debug)]
pub enum ScheduleKind {
    /// At the times of a cron expression that begins with seconds.
    Cron(String),
    /// Once, after a number of milliseconds.
    Delay(u64),
}

pub enum KindView {
    Cron(Seq<char>),
    Delay(nat),
}

impl ScheduleKind {
    pub open spec fn view(&self) -> KindView {
        match self {
            ScheduleKind::Cron(e) => KindView::Cron(e@),
            ScheduleKind::Delay(n) => KindView::Delay(*n as nat),
        }
    }
}

#[derive(Debug)]
pub enum ScheduleError {
    InvalidExpression(String),
    AlreadyExists(String),
    NotFound(String),
    Internal(String),
}

pub enum ScheduleErrorView {
    InvalidExpression(Seq<char>),
    AlreadyExists(Seq<char>),
    NotFound(Seq<char>),
    Internal(Seq<char>),
}

impl ScheduleError {
    pub open spec fn view(&self) -> ScheduleErrorView {
        match self {
            ScheduleError::InvalidExpression(m) => ScheduleErrorView::InvalidExpression(m@),
            ScheduleError::AlreadyExists(m) => ScheduleErrorView::AlreadyExists(m@),
            ScheduleError::NotFound(m) => ScheduleErrorView::NotFound(m@),
            ScheduleError::Internal(m) => ScheduleErrorView::Internal(m@),
        }
    }
}

/// What the plugin keeps for a component.
pub struct ComponentData {
    /// Cancels all tasks of the component.
    pub cancel_token: u64,
    /// The names of the active schedules.
    pub names: Table<()>,
    /// The configured schedules.
    pub schedules: Vec<(String, ScheduleKind)>,
    pub workload: Option<String>,
    /// The tokens that cancel single tasks.
    pub task_tokens: Table<u64>,
}

pub struct Crontab {
    pub tracker: Tracker<ComponentData>,
}

// ---- Outside calls ----

/// The message of the error with which `cron` rejects an expression; none where it takes it.
pub uninterp spec fn cron_error_of(expression: Seq<char>) -> Option<Seq<char>>;

/// `cron::Schedule::from_str`: the message of its error, if it gives one.
#[verifier::external_body]
fn cron_error(expression: &str) -> (r: Option<String>)
    ensures
        opt_view(r) == cron_error_of(expression@),
{
    cron::Schedule::from_str(expression).err().map(|e| e.to_string())
}

/// The first time, in seconds since the Unix epoch, at which an expression fires after a time; none
/// where there is no such time, or no such expression.
pub uninterp spec fn cron_next(expression: Seq<char>, seconds: i64, nanos: u32) -> Option<i64>;

/// The first item of `cron::Schedule::after` in UTC, for an expression and a time since the Unix
/// epoch; it lies after that time. `cron` adds a second to the time, which overflows in the last
/// second of the calendar of `chrono`.
#[verifier::external_body]
fn next_fire(expression: &str, seconds: i64, nanos: u32) -> (r: Option<i64>)
    requires
        seconds < 8_210_266_876_799,
        nanos < 1_000_000_000,
    ensures
        r == cron_next(expression@, seconds, nanos),
        r is Some ==> r->0 > seconds,
{
    let schedule = cron::Schedule::from_str(expression).ok()?;
    let after = chrono::DateTime::<chrono::Utc>::from_timestamp(seconds, nanos)?;
    schedule.after(&after).next().map(|t| t.timestamp())
}

/// The time now since the Unix epoch, in seconds and nanoseconds, by `chrono::DateTime::from` on
/// the system clock, which has no leap seconds. Nothing else is known of it.
#[verifier::external_body]
fn utc_now() -> (r: (i64, u32))
    ensures
        r.1 < 1_000_000_000,
{
    let now = chrono::DateTime::<chrono::Utc>::from(std::time::SystemTime::now());
    (now.timestamp(), now.timestamp_subsec_nanos())
}

// ---- Configuration ----

/// The settings of a schedule.
pub struct ScheduleFields {
    pub name: Option<String>,
    pub cron: Option<String>,
    pub delay_ms: Option<String>,
}

pub struct FieldsView {
    pub name: Option<Seq<char>>,
    pub cron: Option<Seq<char>>,
    pub delay_ms: Option<Seq<char>>,
}

impl ScheduleFields {
    pub open spec fn view(&self) -> FieldsView {
        FieldsView {
            name: opt_view(self.name),
            cron: opt_view(self.cron),
            delay_ms: opt_view(self.delay_ms),
        }
    }
}

/// The settings after one more piece `key=value`; the last value of a key counts.
pub open spec fn with_piece(f: FieldsView, piece: Seq<char>) -> FieldsView {
    match cut_at(trimmed(piece), '=') {
        None => f,
        Some(kv) => {
            let k = trimmed(kv.0);
            let v = trimmed(kv.1);
            if k == "name"@ {
                FieldsView { name: Some(v), ..f }
            } else if k == "cron"@ {
                FieldsView { cron: Some(v), ..f }
            } else if k == "delay-ms"@ {
                FieldsView { delay_ms: Some(v), ..f }
            } else {
                f
            }
        },
    }
}

pub open spec fn fields_of(pieces: Seq<Seq<char>>) -> FieldsView
    decreases pieces.len(),
{
    if pieces.len() == 0 {
        FieldsView { name: None, cron: None, delay_ms: None }
    } else {
        with_piece(fields_of(pieces.drop_last()), pieces.last())
    }
}

/// An expression of five fields gets a field for seconds before it and one for years behind it.
pub open spec fn normalized(expr: Seq<char>) -> Seq<char> {
    if words(expr).len() == 5 {
        "0 "@ + expr + " *"@
    } else {
        expr
    }
}

/// The schedule that settings describe, given whether their expression is accepted.
pub open spec fn schedule_in(f: FieldsView, accepted: bool) -> Option<(Seq<char>, KindView)> {
    match f.name {
        None => None,
        Some(name) => match f.cron {
            Some(expr) => if accepted {
                Some((name, KindView::Cron(normalized(expr))))
            } else {
                None
            },
            None => match f.delay_ms {
                Some(ms) => match parsed_unsigned(ms, u64::MAX as nat) {
                    Some(n) => Some((name, KindView::Delay(n))),
                    None => None,
                },
                None => None,
            },
        },
    }
}

/// Whether the expression of settings, if they have one, is accepted.
pub open spec fn expression_accepted(f: FieldsView) -> bool {
    match f.cron {
        Some(expr) => cron_error_of(normalized(expr)) is None,
        None => true,
    }
}

/// The schedule that a configured text describes.
pub open spec fn schedule_of(value: Seq<char>) -> Option<(Seq<char>, KindView)> {
    let f = fields_of(split_at_char(value, ';'));
    schedule_in(f, expression_accepted(f))
}

pub open spec fn entry_view(e: (String, ScheduleKind)) -> (Seq<char>, KindView) {
    (e.0@, e.1@)
}

pub open spec fn opt_entry(e: Option<(String, ScheduleKind)>) -> Option<(Seq<char>, KindView)> {
    match e {
        Some(x) => Some(entry_view(x)),
        None => None,
    }
}

pub open spec fn entry_views(v: Seq<(String, ScheduleKind)>) -> Seq<(Seq<char>, KindView)> {
    v.map_values(|e: (String, ScheduleKind)| entry_view(e))
}

/// Reads the settings of a schedule.
pub fn read_fields(value: &str) -> (r: ScheduleFields)
    ensures
        r@ == fields_of(split_at_char(value@, ';')),
{
    let pieces = split_char(value, ';');
    let ghost pv = views(pieces@);
    let mut f = ScheduleFields { name: None, cron: None, delay_ms: None };
    let mut i: usize = 0;
    while i < pieces.len()
        invariant
            i <= pieces@.len(),
            pv == views(pieces@),
            f@ == fields_of(pv.take(i as int)),
        decreases pieces@.len() - i,
    {
        assert(pv.take(i + 1).drop_last() == pv.take(i as int));
        assert(pv[i as int] == pieces@[i as int]@);
        let ghost before = f@;
        let pair = trim(&pieces[i]);
        if let Some((k, v)) = cut(&pair, '=') {
            let key = trim(&k);
            let value = trim(&v);
            if same(&key, "name") {
                f.name = Some(value);
            } else if same(&key, "cron") {
                f.cron = Some(value);
            } else if same(&key, "delay-ms") {
                f.delay_ms = Some(value);
            }
        }
        assert(f@ == with_piece(before, pv[i as int]));
        i = i + 1;
    }
    assert(pv.take(pv.len() as int) == pv);
    f
}

/// The expression as `cron` wants it.
pub fn normalize(expr: &str) -> (r: String)
    ensures
        r@ == normalized(expr@),
{
    let w = split_words(expr);
    assert(w@.len() == views(w@).len());
    if w.len() == 5 {
        cat3("0 ", expr, " *")
    } else {
        expr.to_owned()
    }
}

/// The schedule that settings describe, given whether their expression is accepted.
pub fn decide_schedule(f: ScheduleFields, accepted: bool) -> (r: Option<(String, ScheduleKind)>)
    ensures
        opt_entry(r) == schedule_in(f@, accepted),
{
    let name = match f.name {
        None => {
            return None;
        },
        Some(n) => n,
    };
    match f.cron {
        Some(expr) => if accepted {
            Some((name, ScheduleKind::Cron(normalize(&expr))))
        } else {
            None
        },
        None => match f.delay_ms {
            Some(ms) => match parse_u64(&ms) {
                Some(n) => Some((name, ScheduleKind::Delay(n))),
                None => None,
            },
            None => None,
        },
    }
}

/// Reads a text like `name=tick;cron=*/30 * * * *` or `name=init;delay-ms=5000`.
pub fn parse_schedule_config(value: &str) -> (r: Option<(String, ScheduleKind)>)
    ensures
        opt_entry(r) == schedule_of(value@),
{
    let f = read_fields(value);
    let accepted = match &f.cron {
        Some(expr) => {
            let n = normalize(expr);
            cron_error(&n).is_none()
        },
        None => true,
    };
    decide_schedule(f, accepted)
}

/// Whether an entry of the configuration may describe a schedule.
pub open spec fn may_schedule(key: Seq<char>, value: Seq<char>) -> bool {
    "schedule"@.is_prefix_of(key) || holds_text(value, "cron="@) || holds_text(value, "delay-ms="@)
}

/// The schedules of a configuration, in the order of its entries.
pub open spec fn schedules_in(pairs: Seq<(Seq<char>, String)>) -> Seq<(Seq<char>, KindView)>
    decreases pairs.len(),
{
    if pairs.len() == 0 {
        Seq::<(Seq<char>, KindView)>::empty()
    } else {
        let rest = schedules_in(pairs.drop_last());
        let last = pairs.last();
        if may_schedule(last.0, last.1@) {
            match schedule_of(last.1@) {
                Some(s) => rest.push(s),
                None => rest,
            }
        } else {
            rest
        }
    }
}

/// The schedules of a configuration; entries that describe none are passed over.
pub fn extract_schedules(config: &Config) -> (r: Vec<(String, ScheduleKind)>)
    ensures
        entry_views(r@) == schedules_in(config.pairs()),
{
    let mut out: Vec<(String, ScheduleKind)> = Vec::new();
    let mut i: usize = 0;
    let ghost pairs = config.pairs();
    assert(entry_views(out@) =~= schedules_in(pairs.take(0)));
    while i < config.len()
        invariant
            pairs == config.pairs(),
            i <= pairs.len(),
            entry_views(out@) == schedules_in(pairs.take(i as int)),
        decreases pairs.len() - i,
    {
        assert(pairs.take(i + 1).drop_last() == pairs.take(i as int));
        let (key, value) = config.at(i);
        if starts_with(key, "schedule") || contains(value, "cron=") || contains(value, "delay-ms=") {
            if let Some(e) = parse_schedule_config(value) {
                let ghost before = out@;
                out.push(e);
                assert(entry_views(out@) =~= entry_views(before).push(entry_view(e)));
            }
        }
        i = i + 1;
    }
    assert(pairs.take(pairs.len() as int) == pairs);
    out
}

// ---- Times ----

/// A span of time.
#[derive(Clone, Copy, Debug, PartialEq, Eq, Structural)]
pub struct Delay {
    pub seconds: u64,
    pub nanos: u32,
}

/// The nanoseconds from a time to a full second.
pub open spec fn nanos_until(next: i64, seconds: i64, nanos: u32) -> int {
    (next - seconds) * 1_000_000_000 - nanos
}

/// The span from a time to a later full second; none where that second has passed.
pub fn delay_until(next: Option<i64>, seconds: i64, nanos: u32) -> (r: Option<Delay>)
    requires
        nanos < 1_000_000_000,
    ensures
        match r {
            Some(d) => next is Some && d.nanos < 1_000_000_000 && d.seconds * 1_000_000_000
                + d.nanos == nanos_until(next->0, seconds, nanos),
            None => next is None || nanos_until(next->0, seconds, nanos) < 0,
        },
{
    let next: i64 = match next {
        None => {
            return None;
        },
        Some(n) => n,
    };
    if next < seconds {
        return None;
    }
    let whole: u64 = (next as i128 - seconds as i128) as u64;
    if nanos == 0 {
        Some(Delay { seconds: whole, nanos: 0 })
    } else if whole == 0 {
        None
    } else {
        Some(Delay { seconds: whole - 1, nanos: 1_000_000_000 - nanos })
    }
}

/// A time that `cron` can count from: not the last second of the calendar.
pub open spec fn countable(seconds: i64, nanos: u32) -> bool {
    seconds < 8_210_266_876_799 && nanos < 1_000_000_000
}

/// `d` is the span from a time to the next time at which an expression fires, if it fires again.
/// From a time that cannot be counted from there is none.
pub open spec fn is_cron_delay(d: Option<Delay>, expression: Seq<char>, seconds: i64, nanos: u32) -> bool {
    match cron_next(expression, seconds, nanos) {
        Some(next) if countable(seconds, nanos) => {
            &&& d is Some
            &&& d->0.nanos < 1_000_000_000
            &&& d->0.seconds * 1_000_000_000 + d->0.nanos == nanos_until(next, seconds, nanos)
            &&& next > seconds
        },
        _ => d is None,
    }
}

/// The span from a time to the next time at which an expression fires.
pub fn cron_delay_at(expression: &str, seconds: i64, nanos: u32) -> (r: Option<Delay>)
    ensures
        is_cron_delay(r, expression@, seconds, nanos),
{
    if seconds >= 8_210_266_876_799 || nanos >= 1_000_000_000 {
        return None;
    }
    let next = next_fire(expression, seconds, nanos);
    delay_until(next, seconds, nanos)
}

/// The span from now to the next time at which an expression fires; none where it never does. A
/// clock in the last second of the calendar is taken to stand one second earlier.
pub fn next_cron_delay(expression: &str) -> (r: Option<Delay>)
    ensures
        exists|seconds: i64, nanos: u32|
            countable(seconds, nanos) && #[trigger] is_cron_delay(r, expression@, seconds, nanos),
{
    let (now, nanos) = utc_now();
    let seconds: i64 = if now < 8_210_266_876_799 {
        now
    } else {
        8_210_266_876_798
    };
    let r = cron_delay_at(expression, seconds, nanos);
    assert(countable(seconds, nanos) && is_cron_delay(r, expression@, seconds, nanos));
    r
}

// ---- Tasks ----

/// What the task of a schedule saw.
pub enum TaskEvent {
    /// The expression fires no more.
    NoNextTime,
    Cancelled,
    Slept,
    /// The guest was called, or could not be called.
    Fired,
}

#[derive(Clone, Copy, Debug, PartialEq, Eq, Structural)]
pub enum TaskAction {
    Stop,
    Fire,
    WaitAgain,
}

/// What the task of a schedule does next: it waits and fires, a cron task again and again, whatever
/// becomes of a call.
pub fn task_step(kind: &ScheduleKind, event: TaskEvent) -> (r: TaskAction)
    ensures
        r == match event {
            TaskEvent::NoNextTime => TaskAction::Stop,
            TaskEvent::Cancelled => TaskAction::Stop,
            TaskEvent::Slept => TaskAction::Fire,
            TaskEvent::Fired => if kind is Cron {
                TaskAction::WaitAgain
            } else {
                TaskAction::Stop
            },
        },
{
    match event {
        TaskEvent::NoNextTime => TaskAction::Stop,
        TaskEvent::Cancelled => TaskAction::Stop,
        TaskEvent::Slept => TaskAction::Fire,
        TaskEvent::Fired => match kind {
            ScheduleKind::Cron(_) => TaskAction::WaitAgain,
            ScheduleKind::Delay(_) => TaskAction::Stop,
        },
    }
}

// ---- Schedules of a component ----

/// Why a schedule cannot be added to a component.
pub open spec fn add_error(o: Option<Owned<ComponentData>>, name: Seq<char>) -> Option<
    ScheduleErrorView,
> {
    match o {
        None => Some(
            ScheduleErrorView::Internal("component not tracked — ensure handler is exported"@),
        ),
        Some(c) => if c.data.names@.contains_key(name) {
            Some(
                ScheduleErrorView::AlreadyExists("schedule '"@ + name + "' already exists"@),
            )
        } else if c.data.workload is None {
            Some(ScheduleErrorView::Internal("workload not resolved yet"@))
        } else {
            None
        },
    }
}

/// The component with one more schedule.
pub open spec fn with_schedule(
    before: ComponentData,
    after: ComponentData,
    name: Seq<char>,
    token: u64,
) -> bool {
    &&& after.cancel_token == before.cancel_token
    &&& after.schedules == before.schedules
    &&& after.workload == before.workload
    &&& after.names@ == before.names@.insert(name, ())
    &&& after.task_tokens@ == before.task_tokens@.insert(name, token)
}

/// The component without a schedule.
pub open spec fn without_schedule(before: ComponentData, after: ComponentData, name: Seq<char>) -> bool {
    &&& after.cancel_token == before.cancel_token
    &&& after.schedules == before.schedules
    &&& after.workload == before.workload
    &&& after.names@ == before.names@.remove(name)
    &&& after.task_tokens@ == before.task_tokens@.remove(name)
}

pub open spec fn runtime_expression(expression: Seq<char>) -> Seq<char> {
    "0 "@ + expression + " *"@
}

pub open spec fn invalid_expression(expression: Seq<char>, error: Seq<char>) -> ScheduleErrorView {
    ScheduleErrorView::InvalidExpression(
        "invalid cron expression '"@ + expression + "': "@ + error,
    )
}

/// The texts of the entries of a table, in order.
pub open spec fn key_seq(p: Seq<(Seq<char>, ())>) -> Seq<Seq<char>> {
    p.map_values(|e: (Seq<char>, ())| e.0)
}

/// The names of schedules.
pub open spec fn names_of(entries: Seq<(Seq<char>, KindView)>) -> Set<Seq<char>>
    decreases entries.len(),
{
    if entries.len() == 0 {
        Set::<Seq<char>>::empty()
    } else {
        names_of(entries.drop_last()).insert(entries.last().0)
    }
}

pub open spec fn component_tokens(d: Seq<ComponentData>) -> Seq<u64> {
    d.map_values(|c: ComponentData| c.cancel_token)
}

fn collect_names(schedules: &Vec<(String, ScheduleKind)>) -> (r: Table<()>)
    ensures
        r@.dom() == names_of(entry_views(schedules@)),
{
    let mut names: Table<()> = Table::new();
    let mut i: usize = 0;
    let ghost ev = entry_views(schedules@);
    assert(names@.dom() =~= names_of(ev.take(0)));
    while i < schedules.len()
        invariant
            i <= schedules@.len(),
            ev == entry_views(schedules@),
            names@.dom() == names_of(ev.take(i as int)),
        decreases schedules@.len() - i,
    {
        assert(ev.take(i + 1).drop_last() == ev.take(i as int));
        let ghost before = names@;
        names.insert(schedules[i].0.clone(), ());
        assert(names@.dom() =~= before.dom().insert(ev[i as int].0));
        i = i + 1;
    }
    assert(ev.take(ev.len() as int) == ev);
    names
}

fn copy_kind(k: &ScheduleKind) -> (r: ScheduleKind)
    ensures
        r@ == k@,
{
    match k {
        ScheduleKind::Cron(e) => ScheduleKind::Cron(e.clone()),
        ScheduleKind::Delay(n) => ScheduleKind::Delay(*n),
    }
}

fn copy_schedules(v: &Vec<(String, ScheduleKind)>) -> (r: Vec<(String, ScheduleKind)>)
    ensures
        entry_views(r@) == entry_views(v@),
{
    let mut out: Vec<(String, ScheduleKind)> = Vec::new();
    let mut i: usize = 0;
    let ghost want = entry_views(v@);
    while i < v.len()
        invariant
            i <= v@.len(),
            want == entry_views(v@),
            entry_views(out@) == want.take(i as int),
        decreases v@.len() - i,
    {
        let e = (v[i].0.clone(), copy_kind(&v[i].1));
        let ghost before = out@;
        out.push(e);
        assert(entry_views(out@) =~= entry_views(before).push(entry_view(e)));
        assert(want.take(i + 1) =~= want.take(i as int).push(want[i as int]));
        i = i + 1;
    }
    assert(want.take(want.len() as int) == want);
    out
}

impl Crontab {
    pub fn new() -> (r: Crontab)
        ensures
            r.tracker@ == Map::<Seq<char>, Owned<ComponentData>>::empty(),
    {
        Crontab { tracker: Table::new() }
    }

    pub fn id(&self) -> (r: &'static str)
        ensures
            r@ == "crontab"@,
    {
        PLUGIN_ID
    }

    pub fn world(&self) -> (r: WitWorld)
        ensures
            r.imports@.len() == 1,
            r.imports@[0].names("custom"@, "crontab"@, seq!["scheduler"@, "types"@], "0.1.0"@),
            r.exports@.len() == 1,
            r.exports@[0].names("custom"@, "crontab"@, seq!["handler"@], "0.1.0"@),
    {
        let mut imports: Vec<WitInterface> = Vec::new();
        imports.push(WitInterface::of("custom", "crontab", two("scheduler", "types"), "0.1.0"));
        let mut exports: Vec<WitInterface> = Vec::new();
        exports.push(WitInterface::of("custom", "crontab", one("handler"), "0.1.0"));
        WitWorld { imports, exports }
    }

    /// Begins to track a component that brings a `custom:crontab` interface and exports a handler.
    pub fn on_workload_item_bind(
        &mut self,
        component_id: &str,
        workload_id: &str,
        is_component: bool,
        interfaces: &Vec<WitInterface>,
        component_exports: &Vec<WitInterface>,
        cancel_token: u64,
    ) -> (bound: bool)
        ensures
            bound == (is_component && first_of_package(interfaces@, "custom"@, "crontab"@) is Some
                && first_of_package(component_exports@, "custom"@, "crontab"@) is Some),
            !bound ==> final(self).tracker@ == old(self).tracker@,
            bound ==> put_at(old(self).tracker@, final(self).tracker@, component_id@) && ({
                let o = final(self).tracker@[component_id@];
                let config = first_of_package(interfaces@, "custom"@, "crontab"@)->0.config;
                &&& o.workload_id@ == workload_id@
                &&& o.data.cancel_token == cancel_token
                &&& entry_views(o.data.schedules@) == schedules_in(config.pairs())
                &&& o.data.names@.dom() == names_of(schedules_in(config.pairs()))
                &&& o.data.workload is None
                &&& o.data.task_tokens@ == Map::<Seq<char>, u64>::empty()
            }),
    {
        if let Some(config) = bound_config(interfaces, "custom", "crontab") {
            if is_component && bound_config(component_exports, "custom", "crontab").is_some() {
                let schedules = extract_schedules(&config);
                let names = collect_names(&schedules);
                let owned = Owned {
                    workload_id: workload_id.to_owned(),
                    data: ComponentData {
                        cancel_token,
                        names,
                        schedules,
                        workload: None,
                        task_tokens: Table::new(),
                    },
                };
                proof {
                    lemma_put(self.tracker@, component_id@, owned);
                }
                self.tracker.insert(component_id.to_owned(), owned);
                return true;
            }
        }
        false
    }

    /// Notes the workload of a component; returns the configured schedules, whose tasks are to be
    /// started.
    pub fn on_workload_resolved(&mut self, workload: &str, component_id: &str) -> (r: Vec<
        (String, ScheduleKind),
    >)
        ensures
            match lookup(old(self).tracker@, component_id@) {
                None => r@.len() == 0 && final(self).tracker@ == old(self).tracker@,
                Some(o) => put_at(old(self).tracker@, final(self).tracker@, component_id@) && ({
                    let n = final(self).tracker@[component_id@];
                    &&& n.workload_id == o.workload_id
                    &&& n.data.cancel_token == o.data.cancel_token
                    &&& n.data.names == o.data.names
                    &&& n.data.schedules == o.data.schedules
                    &&& n.data.task_tokens == o.data.task_tokens
                    &&& opt_view(n.data.workload) == Some(workload@)
                }) && entry_views(r@) == entry_views(o.data.schedules@),
            },
    {
        let ghost before = self.tracker@;
        match self.tracker.remove(component_id) {
            None => {
                assert(before.remove(component_id@) =~= before);
                Vec::new()
            },
            Some(o) => {
                let mut data = o.data;
                data.workload = Some(workload.to_owned());
                let out = copy_schedules(&data.schedules);
                let owned = Owned { workload_id: o.workload_id, data };
                proof {
                    lemma_put(before, component_id@, owned);
                }
                self.tracker.insert(component_id.to_owned(), owned);
                out
            },
        }
    }

    /// Notes the token of the task of a configured schedule.
    pub fn task_started(&mut self, component_id: &str, name: &str, token: u64)
        ensures
            match lookup(old(self).tracker@, component_id@) {
                None => final(self).tracker@ == old(self).tracker@,
                Some(o) => put_at(old(self).tracker@, final(self).tracker@, component_id@) && ({
                    let n = final(self).tracker@[component_id@];
                    &&& n.workload_id == o.workload_id
                    &&& n.data.cancel_token == o.data.cancel_token
                    &&& n.data.names == o.data.names
                    &&& n.data.schedules == o.data.schedules
                    &&& n.data.workload == o.data.workload
                    &&& n.data.task_tokens@ == o.data.task_tokens@.insert(name@, token)
                }),
            },
    {
        let ghost before = self.tracker@;
        match self.tracker.remove(component_id) {
            None => {
                assert(before.remove(component_id@) =~= before);
            },
            Some(o) => {
                let mut data = o.data;
                data.task_tokens.insert(name.to_owned(), token);
                let owned = Owned { workload_id: o.workload_id, data };
                proof {
                    lemma_put(before, component_id@, owned);
                }
                self.tracker.insert(component_id.to_owned(), owned);
            },
        }
    }

    /// Forgets the components of a workload; returns the tokens that cancel their tasks.
    pub fn on_workload_unbind(&mut self, workload_id: &str) -> (r: Vec<u64>)
        ensures
            final(self).tracker@ == outside_workload(old(self).tracker@, workload_id@),
            r@ == component_tokens(data_of(old(self).tracker.pairs(), workload_id@)),
    {
        let gone = self.tracker.remove_workload(workload_id);
        let mut tokens: Vec<u64> = Vec::new();
        let mut i: usize = 0;
        while i < gone.len()
            invariant
                i <= gone@.len(),
                tokens@ == component_tokens(gone@.take(i as int)),
            decreases gone@.len() - i,
        {
            tokens.push(gone[i].cancel_token);
            assert(component_tokens(gone@.take(i + 1)) =~= component_tokens(
                gone@.take(i as int),
            ).push(gone@[i as int].cancel_token));
            i = i + 1;
        }
        assert(gone@.take(gone@.len() as int) == gone@);
        tokens
    }

    /// Notes a name and the token of its task.
    fn add_schedule(&mut self, component_id: &str, name: &str, token: u64) -> (r: Result<
        (),
        ScheduleError,
    >)
        ensures
            match add_error(lookup(old(self).tracker@, component_id@), name@) {
                Some(e) => r is Err && r->Err_0@ == e && final(self).tracker@ == old(self).tracker@,
                None => r is Ok && put_at(
                    old(self).tracker@,
                    final(self).tracker@,
                    component_id@,
                ) && final(self).tracker@[component_id@].workload_id == old(
                    self,
                ).tracker@[component_id@].workload_id && with_schedule(
                    old(self).tracker@[component_id@].data,
                    final(self).tracker@[component_id@].data,
                    name@,
                    token,
                ),
            },
    {
        let ghost before = self.tracker@;
        match self.tracker.get(component_id) {
            None => {
                return Err(
                    ScheduleError::Internal(
                        "component not tracked — ensure handler is exported".to_owned(),
                    ),
                );
            },
            Some(o) => {
                if o.data.names.contains(name) {
                    return Err(
                        ScheduleError::AlreadyExists(
                            cat3("schedule '", name, "' already exists"),
                        ),
                    );
                }
                if o.data.workload.is_none() {
                    return Err(ScheduleError::Internal("workload not resolved yet".to_owned()));
                }
            },
        }
        match self.tracker.remove(component_id) {
            None => {
                assert(false);
                Ok(())
            },
            Some(o) => {
                let mut data = o.data;
                data.names.insert(name.to_owned(), ());
                data.task_tokens.insert(name.to_owned(), token);
                let owned = Owned { workload_id: o.workload_id, data };
                proof {
                    lemma_put(before, component_id@, owned);
                }
                self.tracker.insert(component_id.to_owned(), owned);
                Ok(())
            },
        }
    }

    /// Adds a schedule that fires once; `token` is the cancellation token for its task.
    pub fn schedule_delay(&mut self, component_id: &str, name: &str, delay_ms: u64, token: u64) -> (r:
        Result<ScheduleKind, ScheduleError>)
        ensures
            match add_error(lookup(old(self).tracker@, component_id@), name@) {
                Some(e) => r is Err && r->Err_0@ == e && final(self).tracker@ == old(self).tracker@,
                None => r is Ok && r->Ok_0@ == KindView::Delay(delay_ms as nat) && put_at(
                    old(self).tracker@,
                    final(self).tracker@,
                    component_id@,
                ) && final(self).tracker@[component_id@].workload_id == old(
                    self,
                ).tracker@[component_id@].workload_id && with_schedule(
                    old(self).tracker@[component_id@].data,
                    final(self).tracker@[component_id@].data,
                    name@,
                    token,
                ),
            },
    {
        match self.add_schedule(component_id, name, token) {
            Err(e) => Err(e),
            Ok(_) => Ok(ScheduleKind::Delay(delay_ms)),
        }
    }

    /// Adds a cron schedule, given the error with which its expression is rejected, if it is.
    pub fn schedule_checked(
        &mut self,
        component_id: &str,
        name: &str,
        cron_expression: &str,
        error: Option<String>,
        token: u64,
    ) -> (r: Result<ScheduleKind, ScheduleError>)
        ensures
            match error {
                Some(e) => r is Err && r->Err_0@ == invalid_expression(cron_expression@, e@)
                    && final(self).tracker@ == old(self).tracker@,
                None => match add_error(lookup(old(self).tracker@, component_id@), name@) {
                    Some(e) => r is Err && r->Err_0@ == e && final(self).tracker@ == old(
                        self,
                    ).tracker@,
                    None => r is Ok && r->Ok_0@ == KindView::Cron(
                        runtime_expression(cron_expression@),
                    ) && put_at(old(self).tracker@, final(self).tracker@, component_id@)
                        && final(self).tracker@[component_id@].workload_id == old(
                        self,
                    ).tracker@[component_id@].workload_id && with_schedule(
                        old(self).tracker@[component_id@].data,
                        final(self).tracker@[component_id@].data,
                        name@,
                        token,
                    ),
                },
            },
    {
        if let Some(e) = error {
            return Err(
                ScheduleError::InvalidExpression(
                    cat4("invalid cron expression '", cron_expression, "': ", &e),
                ),
            );
        }
        match self.add_schedule(component_id, name, token) {
            Err(e) => Err(e),
            Ok(_) => Ok(ScheduleKind::Cron(cat3("0 ", cron_expression, " *"))),
        }
    }

    /// Adds a cron schedule; `token` is the cancellation token for its task. The expression is
    /// checked first, then the name.
    pub fn schedule(
        &mut self,
        component_id: &str,
        name: &str,
        cron_expression: &str,
        token: u64,
    ) -> (r: Result<ScheduleKind, ScheduleError>)
        ensures
            match cron_error_of(runtime_expression(cron_expression@)) {
                Some(e) => r is Err && r->Err_0@ == invalid_expression(cron_expression@, e)
                    && final(self).tracker@ == old(self).tracker@,
                None => match add_error(lookup(old(self).tracker@, component_id@), name@) {
                    Some(e) => r is Err && r->Err_0@ == e && final(self).tracker@ == old(
                        self,
                    ).tracker@,
                    None => r is Ok && r->Ok_0@ == KindView::Cron(
                        runtime_expression(cron_expression@),
                    ) && put_at(old(self).tracker@, final(self).tracker@, component_id@)
                        && final(self).tracker@[component_id@].workload_id == old(
                        self,
                    ).tracker@[component_id@].workload_id && with_schedule(
                        old(self).tracker@[component_id@].data,
                        final(self).tracker@[component_id@].data,
                        name@,
                        token,
                    ),
                },
            },
    {
        let expression = cat3("0 ", cron_expression, " *");
        let error = cron_error(&expression);
        self.schedule_checked(component_id, name, cron_expression, error, token)
    }

    /// Removes a schedule; returns the token of its task, which is to be cancelled.
    pub fn remove(&mut self, component_id: &str, name: &str) -> (r: Result<
        Option<u64>,
        ScheduleError,
    >)
        ensures
            match lookup(old(self).tracker@, component_id@) {
                None => final(self).tracker@ == old(self).tracker@ && r is Err && r->Err_0@
                    == ScheduleErrorView::Internal("component not tracked"@),
                Some(o) => if o.data.names@.contains_key(name@) {
                    r == Ok::<Option<u64>, ScheduleError>(lookup(o.data.task_tokens@, name@))
                        && put_at(old(self).tracker@, final(self).tracker@, component_id@)
                        && final(self).tracker@[component_id@].workload_id == o.workload_id
                        && without_schedule(
                        o.data,
                        final(self).tracker@[component_id@].data,
                        name@,
                    )
                } else {
                    final(self).tracker@ == old(self).tracker@ && r is Err && r->Err_0@
                        == ScheduleErrorView::NotFound("schedule '"@ + name@ + "' not found"@)
                },
            },
    {
        let ghost before = self.tracker@;
        match self.tracker.get(component_id) {
            None => {
                return Err(ScheduleError::Internal("component not tracked".to_owned()));
            },
            Some(o) => {
                if !o.data.names.contains(name) {
                    return Err(
                        ScheduleError::NotFound(cat3("schedule '", name, "' not found")),
                    );
                }
            },
        }
        match self.tracker.remove(component_id) {
            None => {
                assert(false);
                Ok(None)
            },
            Some(o) => {
                let mut data = o.data;
                let _ = data.names.remove(name);
                let token = data.task_tokens.remove(name);
                let owned = Owned { workload_id: o.workload_id, data };
                proof {
                    lemma_put(before, component_id@, owned);
                }
                self.tracker.insert(component_id.to_owned(), owned);
                Ok(token)
            },
        }
    }

    /// The names of the schedules of a component; none for one that is not tracked.
    pub fn list_schedules(&self, component_id: &str) -> (r: Vec<String>)
        ensures
            match lookup(self.tracker@, component_id@) {
                None => r@.len() == 0,
                Some(o) => views(r@) == key_seq(o.data.names.pairs()),
            },
    {
        match self.tracker.get(component_id) {
            None => Vec::new(),
            Some(o) => {
                let mut out: Vec<String> = Vec::new();
                let mut i: usize = 0;
                let ghost want = key_seq(o.data.names.pairs());
                while i < o.data.names.len()
                    invariant
                        i <= want.len(),
                        want == key_seq(o.data.names.pairs()),
                        views(out@) == want.take(i as int),
                    decreases want.len() - i,
                {
                    let (name, _unit) = o.data.names.at(i);
                    let ghost before = out@;
                    out.push(name.clone());
                    assert(views(out@) =~= views(before).push(name@));
                    assert(want.take(i + 1) =~= want.take(i as int).push(want[i as int]));
                    i = i + 1;
                }
                assert(want.take(want.len() as int) == want);
                out
            },
        }
    }
}

impl Default for Crontab {
    fn default() -> (r: Crontab)
        ensures
            r.tracker@ == Map::<Seq<char>, Owned<ComponentData>>::empty(),
    {
        Crontab::new()
    }
}

// ---- Laws ----

/// Removing a schedule that was just added leaves the names as they were.
pub proof fn removing_undoes_adding(
    first: ComponentData,
    second: ComponentData,
    third: ComponentData,
    name: Seq<char>,
    token: u64,
)
    requires
        !first.names@.contains_key(name),
        with_schedule(first, second, name, token),
        without_schedule(second, third, name),
    ensures
        third.names@ == first.names@,
        third.task_tokens@ == first.task_tokens@.remove(name),
        third.workload == first.workload,
        third.schedules == first.schedules,
{
    assert(third.names@ =~= first.names@);
    assert(third.task_tokens@ =~= first.task_tokens@.remove(name));
}

/// A name is taken once: a schedule that was added is refused a second time, until it is removed.
pub proof fn a_name_is_taken_once(o: Owned<ComponentData>, n: Owned<ComponentData>, name: Seq<char>, token: u64)
    requires
        with_schedule(o.data, n.data, name, token),
    ensures
        add_error(Some(n), name) is Some,
        add_error(Some(n), name)->0 is AlreadyExists,
{
    assert(n.data.names@.contains_key(name));
}

/// The listed names are exactly the active ones, each once.
pub proof fn listed_names_are_the_active_ones(names: Table<()>, name: Seq<char>)
    ensures
        key_seq(names.pairs()).contains(name) <==> names@.contains_key(name),
{
    lemma_map_of_keys(names.pairs());
    let ks = key_seq(names.pairs());
    if names@.contains_key(name) {
        let i = choose|i: int| 0 <= i < names.pairs().len() && (#[trigger] names.pairs()[i]).0 == name;
        assert(ks[i] == name);
    }
    if ks.contains(name) {
        let i = choose|i: int| 0 <= i < ks.len() && ks[i] == name;
        assert(names.pairs()[i].0 == name);
    }
}

/// A cron expression goes before a delay, whatever the delay says.
pub proof fn cron_goes_before_delay(name: Seq<char>, expr: Seq<char>, delay: Option<Seq<char>>)
    ensures
        schedule_in(FieldsView { name: Some(name), cron: Some(expr), delay_ms: delay }, true)
            == Some((name, KindView::Cron(normalized(expr)))),
        schedule_in(FieldsView { name: Some(name), cron: Some(expr), delay_ms: delay }, false)
            is None,
{
}

proof fn lemma_framed_words(e: Seq<char>)
    ensures
        words("0 "@ + e + " *"@) == seq!["0"@] + words(e) + seq!["*"@],
{
    reveal_strlit("0 ");
    reveal_strlit(" *");
    reveal_strlit("0");
    reveal_strlit("*");
    let none = Seq::<char>::empty();
    assert("0 "@ + e + " *"@ =~= ("0"@.push(' ') + e).push(' ') + "*"@);
    white_space_parts_words("0"@.push(' ') + e, ' ', "*"@);
    white_space_parts_words("0"@, ' ', e);
    white_space_parts_words("*"@, ' ', none);
    assert(words("0 "@ + e + " *"@) =~= seq!["0"@] + words(e) + seq!["*"@]);
}

/// The expression that a schedule added at run time fires by is the guest's: its words are `0`,
/// then those that the guest gave, in order, then `*`. A guest's five fields make the same
/// expression as they do in the configuration.
pub proof fn run_time_schedules_fire_by_the_given_fields(expression: Seq<char>)
    ensures
        words(runtime_expression(expression)) == seq!["0"@] + words(expression) + seq!["*"@],
        words(expression).len() == 5 ==> {
            let w = words(runtime_expression(expression));
            &&& w.len() == 7
            &&& w[0] == "0"@
            &&& forall|i: int| 0 <= i < 5 ==> #[trigger] w[i + 1] == words(expression)[i]
            &&& w[6] == "*"@
        },
        words(expression).len() == 5 ==> runtime_expression(expression) == normalized(expression),
{
    lemma_framed_words(expression);
}

/// Five fields in the configuration fire at second nought of every year they name; an expression of
/// another length is taken as it is.
pub proof fn configured_fields_are_kept(expression: Seq<char>)
    ensures
        words(expression).len() == 5 ==> words(normalized(expression)) == seq!["0"@] + words(
            expression,
        ) + seq!["*"@],
        words(expression).len() != 5 ==> normalized(expression) == expression,
{
    lemma_framed_words(expression);
}

/// A guest that gives an expression is answered about the expression that it gave.
pub proof fn refusals_quote_the_guest(expression: Seq<char>, error: Seq<char>)
    ensures
        invalid_expression(expression, error) is InvalidExpression,
        invalid_expression(expression, error)->InvalidExpression_0 == "invalid cron expression '"@
            + expression + "': "@ + error,
{
}

proof fn lemma_trimmed_already(s: Seq<char>)
    requires
        s.len() > 0,
        !white_space(s[0]),
        !white_space(s.last()),
    ensures
        trimmed(s) == s,
{
}

proof fn lemma_cut_setting(k: Seq<char>, v: Seq<char>)
    requires
        !k.contains('='),
    ensures
        cut_at(k.push('=') + v, '=') == Some((k, v)),
{
    let s = k.push('=') + v;
    assert(s[k.len() as int] == '=');
    cuts_are_at_the_first(s, '=');
    let c = cut_at(s, '=')->0;
    assert(s.contains('='));
    if c.0.len() < k.len() {
        assert(s[c.0.len() as int] == '=');
        assert(k[c.0.len() as int] == '=');
        assert(k.contains('='));
    }
    if c.0.len() > k.len() {
        assert(c.0[k.len() as int] == s[k.len() as int]);
        assert(c.0.contains('='));
    }
    assert(c.0 =~= s.take(k.len() as int));
    assert(c.0 =~= k);
    assert(c.1 =~= s.skip((k.len() + 1) as int));
    assert(c.1 =~= v);
}

/// A setting of a schedule is a key and a value with `=` between them, and white space round either
/// does not count. The last one of each key decides; other keys, and pieces without `=`, say
/// nothing.
pub proof fn settings_are_read_by_their_key(pieces: Seq<Seq<char>>, k: Seq<char>, v: Seq<char>)
    requires
        k.len() > 0 && v.len() > 0,
        !white_space(k[0]) && !white_space(v.last()),
        !k.contains('='),
    ensures
        ({
            let before = fields_of(pieces);
            let after = fields_of(pieces.push(k.push('=') + v));
            let key = trimmed(k);
            &&& after.name == if key == "name"@ { Some(trimmed(v)) } else { before.name }
            &&& after.cron == if key == "cron"@ { Some(trimmed(v)) } else { before.cron }
            &&& after.delay_ms == if key == "delay-ms"@ { Some(trimmed(v)) } else { before.delay_ms }
        }),
        fields_of(pieces.push(k)) == fields_of(pieces),
        fields_of(Seq::<Seq<char>>::empty()) == (FieldsView { name: None, cron: None, delay_ms: None }),
{
    reveal_strlit("name");
    reveal_strlit("cron");
    reveal_strlit("delay-ms");
    assert("name"@.len() != "delay-ms"@.len() && "cron"@.len() != "delay-ms"@.len());
    assert("name"@[0] != "cron"@[0]);
    let p = k.push('=') + v;
    assert(p[0] == k[0] && p.last() == v.last());
    lemma_trimmed_already(p);
    lemma_cut_setting(k, v);
    assert(pieces.push(p).drop_last() =~= pieces);
    assert(pieces.push(k).drop_last() =~= pieces);
    lemma_no_setting(fields_of(pieces), k);
}

proof fn lemma_no_setting(f: FieldsView, p: Seq<char>)
    requires
        !p.contains('='),
    ensures
        with_piece(f, p) == f,
{
    let e = trimming_keeps_the_middle(p);
    let t = trimmed(p);
    cuts_are_at_the_first(t, '=');
    if t.contains('=') {
        let i = choose|i: int| 0 <= i < t.len() && t[i] == '=';
        assert(p[e.0.len() + i] == '=');
    }
    if cut_at(t, '=') is Some {
        let c = cut_at(t, '=')->0;
        assert(t[c.0.len() as int] == '=');
    }
}

/// White space round a piece does not count.
pub proof fn white_space_round_a_setting_is_skipped(f: FieldsView, p: Seq<char>)
    ensures
        with_piece(f, trimmed(p)) == with_piece(f, p),
{
    let e = trimming_keeps_the_middle(p);
    if trimmed(p).len() > 0 {
        lemma_trimmed_already(trimmed(p));
    } else {
        assert(trimmed(trimmed(p)) =~= trimmed(p));
    }
}

/// A schedule needs a name, and an expression that is accepted or a delay that is a number of
/// milliseconds.
pub proof fn schedules_need_a_name_and_a_time(f: FieldsView, accepted: bool)
    ensures
        match schedule_in(f, accepted) {
            Some(s) => f.name == Some(s.0) && match s.1 {
                KindView::Cron(e) => accepted && f.cron is Some && e == normalized(f.cron->0),
                KindView::Delay(n) => f.cron is None && f.delay_ms is Some && parsed_unsigned(
                    f.delay_ms->0,
                    0xffff_ffff_ffff_ffff,
                ) == Some(n),
            },
            None => f.name is None || (f.cron is Some && !accepted) || (f.cron is None && (
            f.delay_ms is None || parsed_unsigned(f.delay_ms->0, 0xffff_ffff_ffff_ffff) is None)),
        },
        f.cron is Some ==> (expression_accepted(f) <==> cron_error_of(normalized(f.cron->0)) is None),
        f.cron is None ==> expression_accepted(f),
{
}

/// An entry of the configuration is looked at where its key begins with `schedule`, or its value
/// holds an expression or a delay, and only there.
pub proof fn entries_that_name_a_schedule(a: Seq<char>, b: Seq<char>, key: Seq<char>, value: Seq<char>)
    ensures
        may_schedule("schedule"@ + a, value),
        may_schedule(key, a + "cron="@ + b),
        may_schedule(key, a + "delay-ms="@ + b),
        may_schedule(key, value) ==> "schedule"@.is_prefix_of(key) || holds_text(value, "cron="@)
            || holds_text(value, "delay-ms="@),
{
    let k = "schedule"@ + a;
    assert(k.subrange(0, "schedule"@.len() as int) =~= "schedule"@);
    let v = a + "cron="@ + b;
    assert(v.subrange(a.len() as int, (a.len() + "cron="@.len()) as int) =~= "cron="@);
    let w = a + "delay-ms="@ + b;
    assert(w.subrange(a.len() as int, (a.len() + "delay-ms="@.len()) as int) =~= "delay-ms="@);
}

/// The configured schedules come in the order of their entries, each entry once.
pub proof fn configured_schedules_keep_their_order(
    pairs: Seq<(Seq<char>, String)>,
    key: Seq<char>,
    value: String,
)
    ensures
        schedules_in(pairs.push((key, value))) == if may_schedule(key, value@) && schedule_of(value@)
            is Some {
            schedules_in(pairs).push(schedule_of(value@)->0)
        } else {
            schedules_in(pairs)
        },
        schedules_in(Seq::<(Seq<char>, String)>::empty()).len() == 0,
{
    assert(pairs.push((key, value)).drop_last() =~= pairs);
}

/// The names of configured schedules are taken from the start.
pub proof fn configured_names_are_taken(entries: Seq<(Seq<char>, KindView)>, name: Seq<char>)
    ensures
        names_of(entries).contains(name) <==> exists|i: int|
            0 <= i < entries.len() && (#[trigger] entries[i]).0 == name,
    decreases entries.len(),
{
    if entries.len() > 0 {
        let d = entries.drop_last();
        configured_names_are_taken(d, name);
        if exists|i: int| 0 <= i < d.len() && (#[trigger] d[i]).0 == name {
            let i = choose|i: int| 0 <= i < d.len() && (#[trigger] d[i]).0 == name;
            assert(entries[i].0 == name);
        }
        if exists|i: int| 0 <= i < entries.len() && (#[trigger] entries[i]).0 == name {
            let i = choose|i: int| 0 <= i < entries.len() && (#[trigger] entries[i]).0 == name;
            if i < d.len() {
                assert(d[i].0 == name);
            }
        }
        assert(entries.last() == entries[entries.len() - 1]);
    }
}

/// A task sleeps until the next time of its expression: the time now and the delay make that time,
/// to the nanosecond.
pub proof fn tasks_sleep_until_the_next_time(d: Delay, expression: Seq<char>, seconds: i64, nanos: u32)
    requires
        is_cron_delay(Some(d), expression, seconds, nanos),
    ensures
        cron_next(expression, seconds, nanos) is Some,
        seconds * 1_000_000_000 + nanos + d.seconds * 1_000_000_000 + d.nanos == cron_next(
            expression,
            seconds,
            nanos,
        )->0 * 1_000_000_000,
        d.seconds * 1_000_000_000 + d.nanos > 0,
        d.nanos < 1_000_000_000,
{
}

/// A delay until a time is the difference of the times.
pub proof fn delays_are_differences(next: i64, seconds: i64, nanos: u32)
    ensures
        seconds * 1_000_000_000 + nanos + nanos_until(next, seconds, nanos) == next * 1_000_000_000,
        next > seconds && nanos < 1_000_000_000 ==> nanos_until(next, seconds, nanos) > 0,
{
}

/// There is no delay only where the expression fires no more, or the time cannot be counted.
pub proof fn a_next_time_is_slept_for(expression: Seq<char>, seconds: i64, nanos: u32)
    requires
        is_cron_delay(None, expression, seconds, nanos),
        seconds < 8_210_266_876_799,
        nanos < 1_000_000_000,
    ensures
        cron_next(expression, seconds, nanos) is None,
{
}

/// A schedule is refused where the component is not tracked, its name is taken, or the workload is
/// not resolved, in that order, and the answer says which.
pub proof fn refusals_say_why(o: Option<Owned<ComponentData>>, name: Seq<char>)
    ensures
        match add_error(o, name) {
            None => o is Some && !o->0.data.names@.contains_key(name) && o->0.data.workload is Some,
            Some(ScheduleErrorView::AlreadyExists(m)) => o is Some && o->0.data.names@.contains_key(
                name,
            ) && m == "schedule '"@ + name + "' already exists"@,
            Some(ScheduleErrorView::Internal(m)) => match o {
                None => m == "component not tracked — ensure handler is exported"@,
                Some(c) => !c.data.names@.contains_key(name) && c.data.workload is None && m
                    == "workload not resolved yet"@,
            },
            Some(_) => false,
        },
{
}

/// Adding a schedule takes its name and keeps its token; other names and tokens stay.
pub proof fn adding_takes_the_name(
    before: ComponentData,
    after: ComponentData,
    name: Seq<char>,
    token: u64,
    other: Seq<char>,
)
    requires
        with_schedule(before, after, name, token),
        other != name,
    ensures
        after.names@.contains_key(name),
        after.task_tokens@.contains_key(name) && after.task_tokens@[name] == token,
        after.names@.contains_key(other) <==> before.names@.contains_key(other),
        lookup(after.task_tokens@, other) == lookup(before.task_tokens@, other),
        after.cancel_token == before.cancel_token,
{
}

/// Removing a schedule frees its name and drops its token; other names and tokens stay.
pub proof fn removing_frees_the_name(
    before: ComponentData,
    after: ComponentData,
    name: Seq<char>,
    other: Seq<char>,
)
    requires
        without_schedule(before, after, name),
        other != name,
    ensures
        !after.names@.contains_key(name),
        !after.task_tokens@.contains_key(name),
        after.names@.contains_key(other) <==> before.names@.contains_key(other),
        lookup(after.task_tokens@, other) == lookup(before.task_tokens@, other),
        after.cancel_token == before.cancel_token,
{
}

/// Unbinding gives back the token of each component, in order.
pub proof fn every_component_is_cancelled(d: Seq<ComponentData>)
    ensures
        component_tokens(d).len() == d.len(),
        forall|i: int| 0 <= i < d.len() ==> #[trigger] component_tokens(d)[i] == d[i].cancel_token,
{
}

/// The plugin goes by its own name, and takes and gives the interfaces of its own package.
pub proof fn the_plugin_and_its_world(p: Crontab, id: &'static str, w: WitWorld)
    requires
        call_ensures(Crontab::id, (&p,), id),
        call_ensures(Crontab::world, (&p,), w),
    ensures
        id@ == "crontab"@,
        w.imports@.len() == 1,
        w.imports@[0].names("custom"@, "crontab"@, seq!["scheduler"@, "types"@], "0.1.0"@),
        w.exports@.len() == 1,
        w.exports@[0].names("custom"@, "crontab"@, seq!["handler"@], "0.1.0"@),
{
}

/// A schedule that repeats waits again after it fired, one that does not stops; both stop when they
/// are cancelled or fire no more, and fire when they have slept.
pub proof fn tasks_fire_and_wait(
    kind: &ScheduleKind,
    a: TaskAction,
    b: TaskAction,
    c: TaskAction,
    d: TaskAction,
)
    requires
        call_ensures(task_step, (kind, TaskEvent::NoNextTime), a),
        call_ensures(task_step, (kind, TaskEvent::Cancelled), b),
        call_ensures(task_step, (kind, TaskEvent::Slept), c),
        call_ensures(task_step, (kind, TaskEvent::Fired), d),
    ensures
        a is Stop && b is Stop && c is Fire,
        kind is Cron ==> d is WaitAgain,
        kind is Delay ==> d is Stop,
{
}

/// An expression in the configuration is read as the same expression as one added at run time, and a
/// delay as its milliseconds.
pub proof fn configured_schedules_are_read(value: &str, r: Option<(String, ScheduleKind)>)
    requires
        call_ensures(parse_schedule_config, (value,), r),
    ensures
        match r {
            Some((name, kind)) => {
                let f = fields_of(split_at_char(value@, ';'));
                &&& f.name == Some(name@)
                &&& match kind {
                    ScheduleKind::Cron(e) => f.cron is Some && cron_error_of(e@) is None && (words(
                        f.cron->0,
                    ).len() == 5 ==> e@ == runtime_expression(f.cron->0)) && (words(
                        f.cron->0,
                    ).len() != 5 ==> e@ == f.cron->0),
                    ScheduleKind::Delay(n) => f.cron is None && f.delay_ms is Some && parsed_unsigned(
                        f.delay_ms->0,
                        0xffff_ffff_ffff_ffff,
                    ) == Some(n as nat),
                }
            },
            None => true,
        },
{
    let f = fields_of(split_at_char(value@, ';'));
    match r {
        Some((name, kind)) => {
            schedules_need_a_name_and_a_time(f, expression_accepted(f));
            if f.cron is Some {
                run_time_schedules_fire_by_the_given_fields(f.cron->0);
                configured_fields_are_kept(f.cron->0);
            }
        },
        None => {},
    }
}

/// A delay until a time is the difference of the times, and there is none for a time that has passed.
pub proof fn delays_reach_the_time(next: Option<i64>, seconds: i64, nanos: u32, r: Option<Delay>)
    requires
        nanos < 1_000_000_000,
        call_ensures(delay_until, (next, seconds, nanos), r),
    ensures
        match r {
            Some(d) => next is Some && d.nanos < 1_000_000_000 && (seconds + d.seconds) * 1_000_000_000
                + nanos + d.nanos == next->0 * 1_000_000_000,
            None => next is None || next->0 * 1_000_000_000 < seconds * 1_000_000_000 + nanos,
        },
{
}

/// A guest's schedule, once it is added, fires by the guest's own fields and is cancelled by its own
/// token; a schedule that is refused changes nothing.
pub proof fn added_schedules_fire_by_their_fields(
    p: &mut Crontab,
    id: &str,
    name: &str,
    expression: &str,
    token: u64,
    r: Result<ScheduleKind, ScheduleError>,
)
    requires
        call_ensures(Crontab::schedule, (p, id, name, expression, token), r),
    ensures
        match r {
            Ok(ScheduleKind::Cron(e)) => {
                &&& words(e@) == seq!["0"@] + words(expression@) + seq!["*"@]
                &&& words(expression@).len() == 5 ==> e@ == normalized(expression@)
                &&& cron_error_of(e@) is None
                &&& final(p).tracker@.contains_key(id@)
                &&& final(p).tracker@[id@].data.names@.contains_key(name@)
                &&& lookup(final(p).tracker@[id@].data.task_tokens@, name@) == Some(token)
                &&& !old(p).tracker@[id@].data.names@.contains_key(name@)
            },
            Ok(_) => false,
            Err(_) => final(p).tracker@ == old(p).tracker@,
        },
{
    run_time_schedules_fire_by_the_given_fields(expression@);
}

/// A delay, once it is added, is the guest's own number of milliseconds.
pub proof fn added_delays_are_their_milliseconds(
    p: &mut Crontab,
    id: &str,
    name: &str,
    delay: u64,
    token: u64,
    r: Result<ScheduleKind, ScheduleError>,
)
    requires
        call_ensures(Crontab::schedule_delay, (p, id, name, delay, token), r),
    ensures
        match r {
            Ok(ScheduleKind::Delay(n)) => {
                &&& n == delay
                &&& final(p).tracker@.contains_key(id@)
                &&& final(p).tracker@[id@].data.names@.contains_key(name@)
                &&& lookup(final(p).tracker@[id@].data.task_tokens@, name@) == Some(token)
                &&& !old(p).tracker@[id@].data.names@.contains_key(name@)
            },
            Ok(_) => false,
            Err(_) => final(p).tracker@ == old(p).tracker@,
        },
{
}

/// A schedule that is removed gives back its token and frees its name; one that is not there is told
/// so, and nothing changes.
pub proof fn removed_schedules_give_back_their_token(
    p: &mut Crontab,
    id: &str,
    name: &str,
    r: Result<Option<u64>, ScheduleError>,
)
    requires
        call_ensures(Crontab::remove, (p, id, name), r),
    ensures
        match r {
            Ok(t) => {
                &&& old(p).tracker@.contains_key(id@)
                &&& old(p).tracker@[id@].data.names@.contains_key(name@)
                &&& t == lookup(old(p).tracker@[id@].data.task_tokens@, name@)
                &&& final(p).tracker@.contains_key(id@)
                &&& !final(p).tracker@[id@].data.names@.contains_key(name@)
                &&& !final(p).tracker@[id@].data.task_tokens@.contains_key(name@)
            },
            Err(e) => final(p).tracker@ == old(p).tracker@ && if old(p).tracker@.contains_key(id@) {
                e@ == ScheduleErrorView::NotFound("schedule '"@ + name@ + "' not found"@)
            } else {
                e@ == ScheduleErrorView::Internal("component not tracked"@)
            },
        },
{
}

/// A component that takes and gives the package is tracked for its workload with its configured
/// schedules, whose names are taken; any other is not.
pub proof fn components_are_bound_for_their_workload(
    p: &mut Crontab,
    id: &str,
    workload: &str,
    is_component: bool,
    interfaces: &Vec<WitInterface>,
    exports: &Vec<WitInterface>,
    token: u64,
    bound: bool,
)
    requires
        call_ensures(
            Crontab::on_workload_item_bind,
            (p, id, workload, is_component, interfaces, exports, token),
            bound,
        ),
    ensures
        bound <==> is_component && first_of_package(interfaces@, "custom"@, "crontab"@) is Some
            && first_of_package(exports@, "custom"@, "crontab"@) is Some,
        !bound ==> final(p).tracker@ == old(p).tracker@,
        bound ==> {
            let o = final(p).tracker@[id@];
            let c = first_of_package(interfaces@, "custom"@, "crontab"@)->0.config;
            &&& final(p).tracker@.contains_key(id@)
            &&& o.workload_id@ == workload@
            &&& o.data.cancel_token == token
            &&& entry_views(o.data.schedules@) == schedules_in(c.pairs())
            &&& o.data.workload is None
            &&& o.data.task_tokens@.dom().is_empty()
        },
{
}

} // verus!

//! The sessions of a running server: which are loaded, and what is listed of them.
use super::model::step;
use super::projection::Projection;
use super::replay::has_room;
use super::state::{Change, SessionState, StateView};
use crate::order;
use crate::protocol::{
    CatalogEntry, CatalogSnapshot, EntryView, Error, ErrorView, MAX_COMMAND_BYTES,
};
use crate::runtime::event::Event;
use crate::runtime::message::Message;
use crate::session::{
    clean_name, info_before, is_name, known_cost, InfoView, MetaView, PathPart, Session,
    SessionInfo, SessionMeta,
};
use crate::text;
use crate::text::{join, less, less_is_total, less_is_transitive, trim};
use vstd::prelude::*;
use vstd::seq_lib::*;
use vstd::string::*;
use vstd::utf8::*;

verus! {

// ---------------------------------------------------------------------------
// Loading
// ---------------------------------------------------------------------------

/// How a session is to be had.
#[derive(Debug, PartialEq)]
pub enum LoadPlan {
    /// It is loaded.
    Loaded(String),
    /// It is read from its directory.
    Resume(String),
    /// It is made, under a name from the time where none is given.
    Create(Option<String>),
}

/// How the session with a name is to be had, or why it cannot be. `loaded` and
/// `stored` tell of a session with that name.
pub fn plan_load(
    name: Option<String>,
    create: bool,
    closing: bool,
    loaded: bool,
    stored: bool,
) -> (result: Result<LoadPlan, String>)
    ensures
        match result {
            Ok(LoadPlan::Loaded(found)) => {
                &&& !closing && !create && loaded
                &&& name.deep_view() == Some(found@)
            },
            Ok(LoadPlan::Resume(found)) => {
                &&& !closing && !create && !loaded && stored
                &&& name.deep_view() == Some(found@)
            },
            Ok(LoadPlan::Create(asked)) => {
                &&& !closing
                &&& asked.deep_view() == name.deep_view()
                &&& name is Some ==> !loaded && !stored
            },
            Err(error) => if closing {
                error@ == "core is shutting down"@
            } else {
                &&& create && (loaded || stored)
                &&& name.deep_view() matches Some(found) && error@
                    == "session already exists: "@ + found
            },
        },
{
    if closing {
        return Err("core is shutting down".to_owned());
    }
    match name {
        Some(name) => if loaded || stored {
            if create {
                Err(text::join_two("session already exists: ", name.as_str()))
            } else if loaded {
                Ok(LoadPlan::Loaded(name))
            } else {
                Ok(LoadPlan::Resume(name))
            }
        } else {
            Ok(LoadPlan::Create(Some(name)))
        },
        None => Ok(LoadPlan::Create(None)),
    }
}

/// The name that is asked for, where one is, as the name of a directory.
pub fn asked_name(name: Option<String>) -> (result: Result<Option<String>, String>)
    ensures
        match name {
            None => result == Ok::<Option<String>, String>(None),
            Some(name) => match result {
                Ok(clean) => is_name(trim(name@)) && clean.deep_view() == Some(trim(name@)),
                Err(error) => !is_name(trim(name@)) && error@ == "invalid session name"@,
            },
        },
{
    match name {
        None => Ok(None),
        Some(name) => match clean_name(name.as_str()) {
            Ok(clean) => Ok(Some(clean)),
            Err(error) => Err(error),
        },
    }
}

/// What a request for a session that is not loaded comes to, or why it is refused.
pub fn find_session(id: &str, closing: bool, loaded: bool, stored: bool) -> (result: Result<
    bool,
    String,
>)
    ensures
        match result {
            Ok(open) => !closing && (loaded || stored) && open == !loaded,
            Err(error) => if closing {
                error@ == "core is shutting down"@
            } else {
                !loaded && !stored && error@ == "unknown session: "@ + id@
            },
        },
{
    if closing {
        Err("core is shutting down".to_owned())
    } else if loaded {
        Ok(false)
    } else if stored {
        Ok(true)
    } else {
        Err(text::join_two("unknown session: ", id))
    }
}

/// Whether a session is about another project.
pub open spec fn is_foreign(root: Option<Seq<char>>, project_root: Seq<char>) -> bool {
    match root {
        Some(root) => root != project_root,
        None => false,
    }
}

fn belongs_elsewhere(root: &Option<String>, project_root: &str) -> (result: bool)
    ensures
        result == is_foreign(root.deep_view(), project_root@),
{
    match root {
        Some(root) => !text::same(root.as_str(), project_root),
        None => false,
    }
}

/// Binds a session to the project, unless it is about another one.
pub fn bind_project(meta: &mut SessionMeta, project_root: &str) -> (result: Result<(), String>)
    ensures
        match result {
            Ok(_) => {
                &&& !is_foreign(old(meta).deep_view().project_root, project_root@)
                &&& final(meta).deep_view() == (MetaView {
                    project_root: Some(project_root@),
                    ..old(meta).deep_view()
                })
            },
            Err(error) => {
                &&& is_foreign(old(meta).deep_view().project_root, project_root@)
                &&& error@ == "session belongs to another project"@
                &&& *final(meta) == *old(meta)
            },
        },
{
    if belongs_elsewhere(&meta.project_root, project_root) {
        return Err("session belongs to another project".to_owned());
    }
    meta.project_root = Some(project_root.to_owned());
    Ok(())
}

// ---------------------------------------------------------------------------
// The catalog
// ---------------------------------------------------------------------------

/// What is listed of a session that is at rest.
pub open spec fn resting_entry(info: InfoView, meta: MetaView) -> EntryView {
    EntryView {
        info,
        project_root: meta.project_root,
        total_tokens: meta.total_tokens,
        total_cost: known_cost(meta),
        activity: "idle"@,
    }
}

/// What is listed of a stored session, unless it is about another project.
pub fn stored_entry(info: SessionInfo, meta: &SessionMeta, project_root: &str) -> (result: Option<
    CatalogEntry,
>)
    ensures
        result.deep_view() == if is_foreign(meta.deep_view().project_root, project_root@) {
            None
        } else {
            Some(resting_entry(info.deep_view(), meta.deep_view()))
        },
{
    if belongs_elsewhere(&meta.project_root, project_root) {
        return None;
    }
    Some(
        CatalogEntry {
            info,
            project_root: meta.project_root.clone(),
            total_tokens: meta.total_tokens,
            total_cost: if meta.cost_complete && meta.total_tokens > 0 {
                Some(meta.total_cost)
            } else {
                None
            },
            activity: "idle".to_owned(),
        },
    )
}

/// The index of the entry with a name; the number of entries where there is none.
pub open spec fn entry_index(entries: Seq<EntryView>, name: Seq<char>, from: int) -> int
    decreases entries.len() - from,
{
    if from < 0 || from >= entries.len() {
        entries.len() as int
    } else if entries[from].info.name == name {
        from
    } else {
        entry_index(entries, name, from + 1)
    }
}

/// The order of the catalog: the youngest session first, names in order among those
/// as old.
pub open spec fn entry_before(a: EntryView, b: EntryView) -> bool {
    info_before(a.info, b.info)
}

pub open spec fn entry_order() -> spec_fn(EntryView, EntryView) -> bool {
    |a: EntryView, b: EntryView| entry_before(a, b)
}

/// The catalog with a session that was loaded.
pub open spec fn with_entry(entries: Seq<EntryView>, entry: EntryView) -> Seq<EntryView> {
    order::sorted(
        if entry_index(entries, entry.info.name, 0) < entries.len() {
            entries
        } else {
            entries.push(entry)
        },
        entry_order(),
    )
}

/// Whether an event shows in the catalog.
pub open spec fn is_listed(event: Event) -> bool {
    match event {
        Event::SessionChanged(_) => true,
        Event::UsageChanged { .. } => true,
        Event::OperationStarted { .. } => true,
        Event::ApprovalRequested { .. } => true,
        Event::ApprovalResolved { .. } => true,
        Event::GenerationFinished => true,
        Event::GenerationCancelled => true,
        Event::Error(_) => true,
        Event::MessageAccepted(_) => true,
        _ => false,
    }
}

/// What a session is doing.
pub open spec fn activity(state: StateView) -> Seq<char> {
    if state.approval is Some {
        "approval"@
    } else if state.turn_id is Some {
        "running"@
    } else {
        "idle"@
    }
}

/// The first text of the user, where the event brings it.
pub open spec fn first_said(first: Option<Seq<char>>, event: Event) -> Option<Seq<char>> {
    match (first, event) {
        (None, Event::MessageAccepted(Message::User { content, .. })) => Some(content@),
        _ => first,
    }
}

/// What is listed of a session behind an event.
pub open spec fn observed(
    entry: EntryView,
    id: Seq<char>,
    root: Seq<char>,
    state: StateView,
    event: Event,
) -> EntryView {
    EntryView {
        info: InfoView {
            title: if state.title != id {
                Some(state.title)
            } else {
                entry.info.title
            },
            first_message: first_said(entry.info.first_message, event),
            ..entry.info
        },
        project_root: Some(root),
        total_tokens: state.total_tokens,
        total_cost: state.total_cost,
        activity: activity(state),
    }
}

/// The sessions of the server.
#[derive(Debug, PartialEq)]
pub struct Catalog {
    pub snapshot: CatalogSnapshot,
}

pub struct CatalogView {
    pub seq: u64,
    pub sessions: Seq<EntryView>,
}

impl View for Catalog {
    type V = CatalogView;

    open spec fn view(&self) -> CatalogView {
        CatalogView { seq: self.snapshot.seq, sessions: self.snapshot.sessions.deep_view() }
    }
}

fn comes_before(a: &CatalogEntry, b: &CatalogEntry) -> (result: bool)
    ensures
        result == entry_before(a.deep_view(), b.deep_view()),
{
    a.info.created_at > b.info.created_at || (a.info.created_at == b.info.created_at
        && text::is_less(a.info.name.as_str(), b.info.name.as_str()))
}

fn touches_catalog(event: &Event) -> (result: bool)
    ensures
        result == is_listed(*event),
{
    match event {
        Event::SessionChanged(_) => true,
        Event::UsageChanged { .. } => true,
        Event::OperationStarted { .. } => true,
        Event::ApprovalRequested { .. } => true,
        Event::ApprovalResolved { .. } => true,
        Event::GenerationFinished => true,
        Event::GenerationCancelled => true,
        Event::Error(_) => true,
        Event::MessageAccepted(_) => true,
        _ => false,
    }
}

impl Catalog {
    pub fn new(sessions: Vec<CatalogEntry>) -> (catalog: Catalog)
        ensures
            catalog@ == (CatalogView { seq: 0, sessions: sessions.deep_view() }),
    {
        Catalog { snapshot: CatalogSnapshot { seq: 0, sessions } }
    }

    fn find(&self, name: &str) -> (result: Option<usize>)
        ensures
            match result {
                Some(i) => i == entry_index(self@.sessions, name@, 0) && i
                    < self.snapshot.sessions@.len(),
                None => entry_index(self@.sessions, name@, 0) == self.snapshot.sessions@.len(),
            },
    {
        let ghost all = self@.sessions;
        let mut i: usize = 0;
        while i < self.snapshot.sessions.len()
            invariant
                all == self@.sessions,
                i <= self.snapshot.sessions@.len(),
                entry_index(all, name@, 0) == entry_index(all, name@, i as int),
            decreases self.snapshot.sessions@.len() - i,
        {
            assert(all[i as int] == self.snapshot.sessions@[i as int].deep_view());
            if text::same(self.snapshot.sessions[i].info.name.as_str(), name) {
                return Some(i);
            }
            i += 1;
        }
        None
    }

    /// A session was loaded: it is listed, at rest where it was not listed before.
    pub fn load(&mut self, session: &Session)
        requires
            old(self)@.seq < u64::MAX,
        ensures
            final(self)@ == (CatalogView {
                seq: (old(self)@.seq + 1) as u64,
                sessions: with_entry(
                    old(self)@.sessions,
                    resting_entry(
                        InfoView {
                            name: session.meta.name@,
                            title: session.meta.deep_view().title,
                            created_at: session.meta.created_at,
                            first_message: None,
                        },
                        session.meta.deep_view(),
                    ),
                ),
            }),
    {
        let ghost before = self@.sessions;
        if self.find(session.meta.name.as_str()).is_none() {
            let entry = CatalogEntry {
                info: SessionInfo {
                    name: session.meta.name.clone(),
                    title: session.meta.title.clone(),
                    created_at: session.meta.created_at,
                    first_message: None,
                },
                project_root: session.meta.project_root.clone(),
                total_tokens: session.meta.total_tokens,
                total_cost: session.total_cost(),
                activity: "idle".to_owned(),
            };
            let ghost view = entry.deep_view();
            self.snapshot.sessions.push(entry);
            assert(self@.sessions =~= before.push(view));
        }
        let mut sessions: Vec<CatalogEntry> = Vec::new();
        std::mem::swap(&mut sessions, &mut self.snapshot.sessions);
        self.snapshot.sessions = order::stable_sort(sessions, comes_before, Ghost(entry_order()));
        self.snapshot.seq = self.snapshot.seq + 1;
    }

    /// An event of the session `id`, which is now in `state`: whether the catalog is to
    /// be sent out.
    pub fn observe(&mut self, id: &str, root: &str, state: &SessionState, event: &Event) -> (publish: bool)
        requires
            old(self)@.seq < u64::MAX,
        ensures
            publish == is_listed(*event),
            final(self)@ == if publish {
                let i = entry_index(old(self)@.sessions, id@, 0);
                CatalogView {
                    seq: (old(self)@.seq + 1) as u64,
                    sessions: if i < old(self)@.sessions.len() {
                        old(self)@.sessions.update(
                            i,
                            observed(
                                old(self)@.sessions[i],
                                id@,
                                root@,
                                state.deep_view(),
                                *event,
                            ),
                        )
                    } else {
                        old(self)@.sessions
                    },
                }
            } else {
                old(self)@
            },
    {
        if !touches_catalog(event) {
            return false;
        }
        let ghost before = self@.sessions;
        match self.find(id) {
            Some(i) => {
                assert(before[i as int] == self.snapshot.sessions@[i as int].deep_view());
                let mut entry = self.snapshot.sessions[i].clone();
                if !text::same(state.title.as_str(), id) {
                    entry.info.title = Some(state.title.clone());
                }
                entry.project_root = Some(root.to_owned());
                entry.total_tokens = state.total_tokens;
                entry.total_cost = state.total_cost;
                entry.activity = if state.approval.is_some() {
                    "approval".to_owned()
                } else if state.turn_id.is_some() {
                    "running".to_owned()
                } else {
                    "idle".to_owned()
                };
                if entry.info.first_message.is_none() {
                    if let Event::MessageAccepted(Message::User { content, .. }) = event {
                        entry.info.first_message = Some(content.clone());
                    }
                }
                let ghost view = entry.deep_view();
                assert(view == observed(before[i as int], id@, root@, state.deep_view(), *event));
                self.snapshot.sessions[i] = entry;
                assert(self@.sessions =~= before.update(i as int, view));
            },
            None => {},
        }
        self.snapshot.seq = self.snapshot.seq + 1;
        true
    }
}

proof fn entry_order_is_order()
    ensures
        order::is_order(entry_order()),
{
    let before = entry_order();
    assert forall|a: EntryView, b: EntryView| #[trigger] before(a, b) implies !before(b, a) by {
        less_is_total(a.info.name, b.info.name);
    }
    assert forall|a: EntryView, b: EntryView, c: EntryView|
        #[trigger] before(a, c) implies before(a, b) || #[trigger] before(b, c) by {
        less_is_total(a.info.name, b.info.name);
        less_is_total(b.info.name, c.info.name);
        if less(b.info.name, a.info.name) && less(a.info.name, c.info.name) {
            less_is_transitive(b.info.name, a.info.name, c.info.name);
        }
    }
}

proof fn entry_index_of(entries: Seq<EntryView>, name: Seq<char>, from: int)
    requires
        0 <= from <= entries.len(),
    ensures
        from <= entry_index(entries, name, from) <= entries.len(),
        entry_index(entries, name, from) < entries.len() ==> entries[entry_index(
            entries,
            name,
            from,
        )].info.name == name,
        forall|i: int|
            from <= i < entry_index(entries, name, from) ==> (#[trigger] entries[i]).info.name != name,
    decreases entries.len() - from,
{
    if from < entries.len() && entries[from].info.name != name {
        entry_index_of(entries, name, from + 1);
    }
}

/// No session is listed twice.
pub open spec fn names_differ(entries: Seq<EntryView>) -> bool {
    forall|i: int, j: int|
        0 <= i < j < entries.len() ==> (#[trigger] entries[i]).info.name != (
        #[trigger] entries[j]).info.name
}

/// A session that was loaded is listed; what was listed before still is, none twice,
/// and the youngest session stands first.
pub proof fn load_law(entries: Seq<EntryView>, entry: EntryView)
    ensures
        ({
            let list = with_entry(entries, entry);
            &&& order::in_order(list, entry_order())
            &&& exists|i: int| 0 <= i < list.len() && (#[trigger] list[i]).info.name
                == entry.info.name
            &&& forall|e: EntryView| entries.contains(e) ==> #[trigger] list.contains(e)
            &&& list.len() <= entries.len() + 1
            &&& names_differ(entries) ==> names_differ(list)
        }),
{
    broadcast use group_to_multiset_ensures;

    let found = entry_index(entries, entry.info.name, 0);
    let all = if found < entries.len() {
        entries
    } else {
        entries.push(entry)
    };
    entry_index_of(entries, entry.info.name, 0);
    entry_order_is_order();
    order::sorted_law(all, entry_order());
    let list = with_entry(entries, entry);
    let shown = if found < entries.len() {
        entries[found]
    } else {
        entry
    };
    if found >= entries.len() {
        assert(all[entries.len() as int] == entry);
    }
    assert(all.contains(shown));
    assert(list.contains(shown)) by {
        assert(all.to_multiset().contains(shown));
        assert(list.to_multiset().contains(shown));
    }
    let k = choose|k: int| 0 <= k < list.len() && list[k] == shown;
    assert(list[k].info.name == entry.info.name);
    assert forall|e: EntryView| entries.contains(e) implies #[trigger] list.contains(e) by {
        let i = choose|i: int| 0 <= i < entries.len() && entries[i] == e;
        assert(all[i] == e);
        assert(all.contains(e));
        assert(all.to_multiset().contains(e));
        assert(list.to_multiset().contains(e));
    }
    if names_differ(entries) {
        assert(names_differ(all));
        same_items_differ(all, list);
    }
}

proof fn same_items_differ(all: Seq<EntryView>, list: Seq<EntryView>)
    requires
        names_differ(all),
        all.to_multiset() == list.to_multiset(),
    ensures
        names_differ(list),
{
    broadcast use group_to_multiset_ensures;

    assert forall|i: int, j: int| 0 <= i < all.len() && 0 <= j < all.len() && i != j implies all[i]
        != all[j] by {
        if i < j {
            assert(all[i].info.name != all[j].info.name);
        } else {
            assert(all[j].info.name != all[i].info.name);
        }
    }
    assert(all.no_duplicates());
    all.lemma_multiset_has_no_duplicates();
    list.lemma_multiset_has_no_duplicates_conv();
    assert forall|i: int, j: int| 0 <= i < j < list.len() implies (
    #[trigger] list[i]).info.name != (#[trigger] list[j]).info.name by {
        let x = list[i];
        let y = list[j];
        assert(x != y);
        assert(list.contains(x) && list.contains(y));
        assert(all.to_multiset().contains(x) && all.to_multiset().contains(y));
        assert(all.contains(x) && all.contains(y));
        let a = choose|a: int| 0 <= a < all.len() && all[a] == x;
        let b = choose|b: int| 0 <= b < all.len() && all[b] == y;
        assert(a != b);
        if a < b {
            assert(all[a].info.name != all[b].info.name);
        } else {
            assert(all[b].info.name != all[a].info.name);
        }
    }
}

// ---------------------------------------------------------------------------
// Commands
// ---------------------------------------------------------------------------

/// The most images that a message may have.
pub const MAX_ATTACHMENTS: usize = 8;

/// Whether a message may be sent.
pub fn check_size(content: &str, attachments: usize) -> (result: Result<(), Error>)
    ensures
        ({
            let fits = encode_utf8(content@).len() <= MAX_COMMAND_BYTES && attachments
                <= MAX_ATTACHMENTS;
            match result {
                Ok(_) => fits,
                Err(error) => !fits && error.deep_view() == (ErrorView {
                    code: "too_large"@,
                    message: "message exceeds the command or attachment limit"@,
                }),
            }
        }),
{
    if text::byte_len(content) > MAX_COMMAND_BYTES || attachments > MAX_ATTACHMENTS {
        Err(Error::new("too_large", "message exceeds the command or attachment limit"))
    } else {
        Ok(())
    }
}

/// A path that names a file below the project and nothing else.
pub open spec fn is_inside(absolute: bool, parts: Seq<PathPart>) -> bool {
    !absolute && forall|i: int| 0 <= i < parts.len() ==> #[trigger] parts[i] == PathPart::Normal
}

/// Whether the changes of a path may be asked for. `absolute` and `parts` tell of the
/// path.
pub fn check_diff_path(absolute: bool, parts: &Vec<PathPart>) -> (result: Result<(), String>)
    ensures
        match result {
            Ok(_) => is_inside(absolute, parts@),
            Err(error) => !is_inside(absolute, parts@) && error@
                == "diff path must be relative to the project"@,
        },
{
    if absolute {
        return Err("diff path must be relative to the project".to_owned());
    }
    let mut i: usize = 0;
    while i < parts.len()
        invariant
            !absolute,
            i <= parts@.len(),
            forall|k: int| 0 <= k < i ==> #[trigger] parts@[k] == PathPart::Normal,
        decreases parts@.len() - i,
    {
        if parts[i] != PathPart::Normal {
            assert(!is_inside(absolute, parts@));
            return Err("diff path must be relative to the project".to_owned());
        }
        i += 1;
    }
    Ok(())
}

/// What went wrong when the sessions were ended, one on a line.
pub fn shutdown_result(errors: &Vec<String>) -> (result: Result<(), String>)
    ensures
        match result {
            Ok(_) => errors@.len() == 0,
            Err(error) => errors@.len() > 0 && error@ == join(errors.deep_view(), "\n"@),
        },
{
    if errors.len() == 0 {
        Ok(())
    } else {
        Err(text::join_all(errors, "\n"))
    }
}

// ---------------------------------------------------------------------------
// What goes out
// ---------------------------------------------------------------------------

/// What those who watch a session are told of an event.
#[derive(Debug, PartialEq)]
pub struct Update {
    pub session_id: String,
    pub seq: u64,
    pub changes: Vec<Change>,
}

/// What is to be done with an event of a session.
#[derive(Debug, PartialEq)]
pub enum Pumped {
    /// The one who waits for the events so far is told.
    Barrier,
    /// The session can be used.
    Ready,
    /// The project is looked at again.
    Refresh,
    /// Those who watch are told, and the catalog is sent out where it says so.
    Publish { update: Update, catalog: bool },
}

/// Takes in an event of a session.
pub fn pump(projection: &mut Projection, catalog: &mut Catalog, root: &str, event: &Event, now: u64) -> (result: Pumped)
    requires
        old(projection).wf(),
        has_room(old(projection)@, *event),
        old(catalog)@.seq < u64::MAX,
    ensures
        final(projection).wf(),
        match *event {
            Event::Barrier => result is Barrier && final(projection)@ == old(projection)@ && final(catalog)@ == old(catalog)@,
            Event::Ready => result is Ready && final(projection)@ == old(projection)@ && final(catalog)@ == old(catalog)@,
            Event::RefreshProject => result is Refresh && final(projection)@ == old(projection)@
                && final(catalog)@ == old(catalog)@,
            _ => {
                let next = step(old(projection)@, *event, now);
                let id = old(projection)@.snapshot.session_id;
                let i = entry_index(old(catalog)@.sessions, id, 0);
                &&& result matches Pumped::Publish { update, catalog: listed } && update.seq
                    == next.p.snapshot.seq && update.changes.deep_view() == next.changes && listed
                    == is_listed(*event) && update.session_id@ == id
                &&& final(projection)@ == next.p
                &&& final(catalog)@ == if is_listed(*event) {
                    CatalogView {
                        seq: (old(catalog)@.seq + 1) as u64,
                        sessions: if i < old(catalog)@.sessions.len() {
                            old(catalog)@.sessions.update(
                                i,
                                observed(
                                    old(catalog)@.sessions[i],
                                    id,
                                    root@,
                                    next.p.snapshot.state,
                                    *event,
                                ),
                            )
                        } else {
                            old(catalog)@.sessions
                        },
                    }
                } else {
                    old(catalog)@
                }
            },
        },
{
    match event {
        Event::Barrier => {
            return Pumped::Barrier;
        },
        Event::Ready => {
            return Pumped::Ready;
        },
        Event::RefreshProject => {
            return Pumped::Refresh;
        },
        _ => {},
    }
    let id = projection.session_id().to_owned();
    let changes = projection.apply(event, now);
    let listed = catalog.observe(id.as_str(), root, projection.state(), event);
    let seq: u64 = projection.seq();
    Pumped::Publish { update: Update { session_id: id, seq, changes }, catalog: listed }
}

} // verus!

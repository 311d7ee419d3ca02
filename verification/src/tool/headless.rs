//! The browser that runs beside the program: what is asked of it and what it says.
use crate::json;
use crate::json::{json_fault, read_json, written, Json, JsonView};
use crate::project::{join_path, path_in};
use crate::text;
use crate::text::trim;
use vstd::prelude::*;
use vstd::string::*;
use vstd::utf8::*;

verus! {

/// A page as the browser sees it.
#[derive(Debug, PartialEq)]
pub struct BrowserPage {
    pub title: String,
    pub url: String,
    pub html: String,
    pub visible_text: String,
    pub blocks: Vec<BrowserBlock>,
    pub links: Vec<BrowserLink>,
}

pub struct PageView {
    pub title: Seq<char>,
    pub url: Seq<char>,
    pub html: Seq<char>,
    pub visible_text: Seq<char>,
    pub blocks: Seq<BlockView>,
    pub links: Seq<LinkView>,
}

impl DeepView for BrowserPage {
    type V = PageView;

    open spec fn deep_view(&self) -> PageView {
        PageView {
            title: self.title@,
            url: self.url@,
            html: self.html@,
            visible_text: self.visible_text@,
            blocks: self.blocks.deep_view(),
            links: self.links.deep_view(),
        }
    }
}

#[derive(Debug, PartialEq)]
pub struct BrowserBlock {
    pub tag: String,
    pub text: String,
}

pub struct BlockView {
    pub tag: Seq<char>,
    pub text: Seq<char>,
}

impl DeepView for BrowserBlock {
    type V = BlockView;

    open spec fn deep_view(&self) -> BlockView {
        BlockView { tag: self.tag@, text: self.text@ }
    }
}

#[derive(Debug, PartialEq)]
pub struct BrowserLink {
    pub text: String,
    pub url: String,
}

pub struct LinkView {
    pub text: Seq<char>,
    pub url: Seq<char>,
}

impl DeepView for BrowserLink {
    type V = LinkView;

    open spec fn deep_view(&self) -> LinkView {
        LinkView { text: self.text@, url: self.url@ }
    }
}

// ---------------------------------------------------------------------------
// The start of the helper
// ---------------------------------------------------------------------------

/// How much of what the helper complains about is kept, in bytes.
pub const MAX_COMPLAINTS: usize = 32_768;

/// Keeps a line that the helper complained with, until there are enough.
pub fn keep_complaint(kept: &mut String, line: &str)
    ensures
        final(kept)@ == if encode_utf8(old(kept)@).len() < MAX_COMPLAINTS {
            old(kept)@ + line@ + "\n"@
        } else {
            old(kept)@
        },
{
    if text::byte_len(kept.as_str()) < MAX_COMPLAINTS {
        kept.append(line);
        kept.append("\n");
    }
}

/// What the helper complained about, or that it did not.
pub open spec fn diagnostics(kept: Seq<char>) -> Seq<char> {
    if trim(kept).len() == 0 {
        "no diagnostics"@
    } else {
        trim(kept)
    }
}

/// What the helper complained about, or that it did not.
pub fn startup_error(kept: &str) -> (result: String)
    ensures
        result@ == diagnostics(kept@),
{
    let said = text::trimmed(kept);
    if said.as_str().is_empty() {
        "no diagnostics".to_owned()
    } else {
        said
    }
}

/// What came of waiting for the first line of the helper.
#[derive(Debug, PartialEq)]
pub enum FirstLine {
    Line(String),
    Closed,
    Failed(String),
    TimedOut,
}

/// Why the helper did not start, given what came of waiting for its first line and
/// what it complained about.
pub open spec fn startup_fault(first: FirstLine, kept: Seq<char>) -> Option<Seq<char>> {
    match first {
        FirstLine::Line(line) => match read_json(line@) {
            Some(message) => if message.bool_at("ready"@) == Some(true) {
                None
            } else {
                Some("Patchright browser failed to start: "@ + trim(kept))
            },
            None => Some("invalid Patchright startup reply"@ + ": "@ + json_fault(line@)),
        },
        FirstLine::Closed => Some(
            "Patchright browser helper exited during startup: "@ + diagnostics(kept),
        ),
        FirstLine::Failed(error) => Some("read Patchright startup reply: "@ + error@),
        FirstLine::TimedOut => Some("Patchright browser startup timed out: "@ + diagnostics(kept)),
    }
}

/// Whether the first message of the helper says that it is ready.
pub fn is_ready(message: &Json) -> (result: bool)
    ensures
        result == (message.deep_view().bool_at("ready"@) == Some(true)),
{
    match message.bool_at("ready") {
        Some(b) => b,
        None => false,
    }
}

/// Whether the helper started, or why it did not.
pub fn check_startup(first: FirstLine, kept: &str) -> (result: Result<(), String>)
    ensures
        match result {
            Ok(_) => startup_fault(first, kept@) is None,
            Err(error) => startup_fault(first, kept@) == Some(error@),
        },
{
    match first {
        FirstLine::Line(line) => match json::parse_for(
            "invalid Patchright startup reply",
            line.as_str(),
        ) {
            Ok(message) => if is_ready(&message) {
                Ok(())
            } else {
                let said = text::trimmed(kept);
                Err(text::join_two("Patchright browser failed to start: ", said.as_str()))
            },
            Err(error) => Err(error),
        },
        FirstLine::Closed => {
            let said = startup_error(kept);
            Err(
                text::join_two(
                    "Patchright browser helper exited during startup: ",
                    said.as_str(),
                ),
            )
        },
        FirstLine::Failed(error) => Err(
            text::join_two("read Patchright startup reply: ", error.as_str()),
        ),
        FirstLine::TimedOut => {
            let said = startup_error(kept);
            Err(text::join_two("Patchright browser startup timed out: ", said.as_str()))
        },
    }
}

// ---------------------------------------------------------------------------
// Requests and replies
// ---------------------------------------------------------------------------

/// A request to the helper.
pub open spec fn request_json(id: u64, method: Seq<char>, url: Option<Seq<char>>) -> JsonView {
    let bare = seq![("id"@, JsonView::Unsigned(id)), ("method"@, JsonView::Text(method))];
    JsonView::Object(
        match url {
            Some(url) => bare.push(("url"@, JsonView::Text(url))),
            None => bare,
        },
    )
}

/// A request to the helper, as a line.
pub fn request_line(id: u64, method: &str, url: Option<&str>) -> (line: String)
    ensures
        line@ == written(request_json(id, method@, url.deep_view())),
{
    let mut entries: Vec<(String, Json)> = Vec::new();
    entries.push(("id".to_owned(), Json::Unsigned(id)));
    entries.push(("method".to_owned(), Json::text(method)));
    match url {
        Some(url) => {
            entries.push(("url".to_owned(), Json::text(url)));
        },
        None => {},
    }
    proof {
        json::json_view_object(entries);
        assert(entries.deep_view() =~= request_json(id, method@, url.deep_view())->Object_0);
    }
    json::write(&Json::Object(entries))
}

/// What a message of the helper replies to a request.
pub open spec fn reply_of(message: JsonView) -> Option<(u64, Result<JsonView, Seq<char>>)> {
    match message.number_at("id"@) {
        Some(id) => Some(
            (
                id,
                match message.text_at("error"@) {
                    Some(error) => Err(error),
                    None => Ok(
                        match message.get("result"@) {
                            Some(result) => result,
                            None => JsonView::Null,
                        },
                    ),
                },
            ),
        ),
        None => None,
    }
}

/// A reply, as a value.
pub open spec fn reply_view(reply: Option<(u64, Result<Json, String>)>) -> Option<
    (u64, Result<JsonView, Seq<char>>),
> {
    match reply {
        Some((id, Ok(result))) => Some((id, Ok(result.deep_view()))),
        Some((id, Err(error))) => Some((id, Err(error@))),
        None => None,
    }
}

/// What a message of the helper replies to a request; none where it is no reply.
pub fn read_reply(message: &Json) -> (reply: Option<(u64, Result<Json, String>)>)
    ensures
        reply_view(reply) == reply_of(message.deep_view()),
{
    let id: u64 = match message.number_at("id") {
        Some(id) => id,
        None => {
            return None;
        },
    };
    match message.text_at("error") {
        Some(error) => Some((id, Err(error.clone()))),
        None => match message.get("result") {
            Some(result) => Some((id, Ok(result.clone()))),
            None => Some((id, Ok(Json::Null))),
        },
    }
}

/// What a line of the helper replies to a request; a line that is no JSON is none.
pub fn parse_reply(line: &str) -> (reply: Option<(u64, Result<Json, String>)>)
    ensures
        reply_view(reply) == match read_json(line@) {
            Some(message) => reply_of(message),
            None => None,
        },
{
    match json::parse(line) {
        Some(message) => read_reply(&message),
        None => None,
    }
}

/// The requests that wait for a reply.
#[derive(Debug, PartialEq)]
pub struct Waiters {
    ids: Vec<u64>,
}

impl View for Waiters {
    type V = Set<u64>;

    closed spec fn view(&self) -> Set<u64> {
        self.ids@.to_set()
    }
}

impl Waiters {
    pub fn new() -> (result: Self)
        ensures
            result@ == Set::<u64>::empty(),
    {
        let result = Waiters { ids: Vec::new() };
        assert(result@ =~= Set::empty());
        result
    }

    /// A request waits.
    pub fn insert(&mut self, id: u64)
        ensures
            final(self)@ == old(self)@.insert(id),
    {
        let ghost before = self.ids@;
        self.ids.push(id);
        proof {
            assert(self.ids@ =~= before.push(id));
            before.lemma_push_to_set_commute(id);
        }
    }

    /// A reply came: whether a request waited for it.
    pub fn remove(&mut self, id: u64) -> (waited: bool)
        ensures
            waited == old(self)@.contains(id),
            final(self)@ == old(self)@.remove(id),
    {
        let mut kept: Vec<u64> = Vec::new();
        let mut waited = false;
        let mut i: usize = 0;
        assert(kept@.to_set() =~= self.ids@.take(0).to_set().remove(id));
        while i < self.ids.len()
            invariant
                i <= self.ids@.len(),
                waited == self.ids@.take(i as int).to_set().contains(id),
                kept@.to_set() == self.ids@.take(i as int).to_set().remove(id),
            decreases self.ids@.len() - i,
        {
            let ghost seen = self.ids@.take(i as int);
            let ghost old_kept = kept@;
            proof {
                assert(self.ids@.take(i + 1) =~= seen.push(self.ids@[i as int]));
                seen.lemma_push_to_set_commute(self.ids@[i as int]);
            }
            if self.ids[i] == id {
                waited = true;
            } else {
                kept.push(self.ids[i]);
                proof {
                    assert(kept@ =~= old_kept.push(self.ids@[i as int]));
                    old_kept.lemma_push_to_set_commute(self.ids@[i as int]);
                }
            }
            assert(kept@.to_set() =~= self.ids@.take(i + 1).to_set().remove(id));
            i += 1;
        }
        assert(self.ids@.take(i as int) =~= self.ids@);
        self.ids = kept;
        waited
    }
}

/// A reply reaches its request once: the next reply with its id finds none.
pub proof fn reply_law(waiting: Set<u64>, id: u64)
    ensures
        waiting.insert(id).contains(id),
        !waiting.remove(id).contains(id),
{
}

// ---------------------------------------------------------------------------
// Finding the browser
// ---------------------------------------------------------------------------

/// The first of the candidates that is there.
pub open spec fn first_there(candidates: Seq<Seq<char>>, there: Seq<bool>) -> Option<Seq<char>>
    decreases candidates.len(),
{
    if candidates.len() == 0 || there.len() == 0 {
        None
    } else if there[0] {
        Some(candidates[0])
    } else {
        first_there(candidates.skip(1), there.skip(1))
    }
}

/// The names that browsers go by, the ones to be taken first in front.
pub open spec fn names_of_browsers() -> Seq<Seq<char>> {
    seq![
        "google-chrome"@,
        "google-chrome-stable"@,
        "chromium"@,
        "chromium-browser"@,
        "brave-browser"@,
        "microsoft-edge"@,
    ]
}

/// The names that browsers go by, the ones to be taken first in front.
pub fn browser_names() -> (names: Vec<&'static str>)
    ensures
        names.deep_view() == names_of_browsers(),
{
    let names = vec![
        "google-chrome",
        "google-chrome-stable",
        "chromium",
        "chromium-browser",
        "brave-browser",
        "microsoft-edge",
    ];
    assert(names.deep_view() =~= names_of_browsers());
    names
}

/// The parts of the helper, below its directory. `node` is what the program that runs
/// it is called on the machine.
pub fn runtime_parts(node: &str) -> (parts: Vec<String>)
    ensures
        parts.deep_view() == seq![node@, "sidecar.cjs"@, "node_modules/patchright-core"@],
{
    let parts = vec![
        node.to_owned(),
        "sidecar.cjs".to_owned(),
        "node_modules/patchright-core".to_owned(),
    ];
    assert(parts.deep_view() =~= seq![node@, "sidecar.cjs"@, "node_modules/patchright-core"@]);
    parts
}

/// The paths of `names` in a directory.
pub open spec fn paths_in(directory: Seq<char>, names: Seq<Seq<char>>) -> Seq<Seq<char>> {
    names.map_values(|name: Seq<char>| path_in(directory, name))
}

/// The paths of `names` in directories, one directory after the other.
pub open spec fn all_paths(directories: Seq<Seq<char>>, names: Seq<Seq<char>>) -> Seq<Seq<char>>
    decreases directories.len(),
{
    if directories.len() == 0 {
        Seq::empty()
    } else {
        all_paths(directories.drop_last(), names) + paths_in(directories.last(), names)
    }
}

fn list_paths(directories: &Vec<String>, names: &Vec<&'static str>) -> (paths: Vec<String>)
    ensures
        paths.deep_view() == all_paths(directories.deep_view(), names.deep_view()),
{
    let ghost all = directories.deep_view();
    let ghost wanted = names.deep_view();
    let mut paths: Vec<String> = Vec::new();
    let mut i: usize = 0;
    assert(paths.deep_view() =~= all_paths(all.take(0), wanted));
    while i < directories.len()
        invariant
            all == directories.deep_view(),
            wanted == names.deep_view(),
            i <= directories@.len(),
            paths.deep_view() == all_paths(all.take(i as int), wanted),
        decreases directories@.len() - i,
    {
        let ghost before = paths.deep_view();
        let ghost here = paths_in(all[i as int], wanted);
        let mut k: usize = 0;
        assert(before + here.take(0) =~= before);
        while k < names.len()
            invariant
                all == directories.deep_view(),
                wanted == names.deep_view(),
                i < directories@.len(),
                k <= names@.len(),
                here == paths_in(all[i as int], wanted),
                paths.deep_view() == before + here.take(k as int),
            decreases names@.len() - k,
        {
            let ghost now = paths.deep_view();
            assert(all[i as int] == directories@[i as int]@);
            assert(wanted[k as int] == names@[k as int]@);
            let path = join_path(directories[i].as_str(), names[k]);
            let ghost view = path@;
            paths.push(path);
            proof {
                assert(paths.deep_view() =~= now.push(view));
                assert(here.take(k + 1) =~= here.take(k as int).push(here[k as int]));
                assert(before + here.take(k + 1) =~= (before + here.take(k as int)).push(view));
            }
            k += 1;
        }
        proof {
            assert(here.take(k as int) =~= here);
            assert(all.take(i + 1).drop_last() =~= all.take(i as int));
        }
        i += 1;
    }
    assert(all.take(i as int) =~= all);
    paths
}

/// Where browsers are installed, by the kind of machine.
#[derive(Clone, Copy, Debug, PartialEq, Eq, Structural)]
pub enum Platform {
    Mac,
    Windows,
    Other,
}

/// Where browsers stand in a directory of programs.
pub open spec fn installed_names() -> Seq<Seq<char>> {
    seq![
        "Google/Chrome/Application/chrome.exe"@,
        "Microsoft/Edge/Application/msedge.exe"@,
        "BraveSoftware/Brave-Browser/Application/brave.exe"@,
    ]
}

/// The standard places of browsers. `programs` are the directories of programs.
pub open spec fn standard_places(platform: Platform, programs: Seq<Seq<char>>) -> Seq<Seq<char>> {
    match platform {
        Platform::Mac => seq![
            "/Applications/Google Chrome.app/Contents/MacOS/Google Chrome"@,
            "/Applications/Chromium.app/Contents/MacOS/Chromium"@,
            "/Applications/Brave Browser.app/Contents/MacOS/Brave Browser"@,
        ],
        Platform::Windows => all_paths(programs, installed_names()),
        Platform::Other => Seq::empty(),
    }
}

/// The standard places of browsers. `programs` are the directories of programs.
pub fn standard_browsers(platform: Platform, programs: &Vec<String>) -> (paths: Vec<String>)
    ensures
        paths.deep_view() == standard_places(platform, programs.deep_view()),
{
    match platform {
        Platform::Mac => {
            let paths = vec![
                "/Applications/Google Chrome.app/Contents/MacOS/Google Chrome".to_owned(),
                "/Applications/Chromium.app/Contents/MacOS/Chromium".to_owned(),
                "/Applications/Brave Browser.app/Contents/MacOS/Brave Browser".to_owned(),
            ];
            assert(paths.deep_view() =~= standard_places(platform, programs.deep_view()));
            paths
        },
        Platform::Windows => {
            let names = vec![
                "Google/Chrome/Application/chrome.exe",
                "Microsoft/Edge/Application/msedge.exe",
                "BraveSoftware/Brave-Browser/Application/brave.exe",
            ];
            assert(names.deep_view() =~= installed_names());
            list_paths(programs, &names)
        },
        Platform::Other => {
            let paths: Vec<String> = Vec::new();
            assert(paths.deep_view() =~= Seq::empty());
            paths
        },
    }
}

/// Where a browser is looked for: in the directories in order, within each by the names
/// in order, then in the standard places.
pub open spec fn candidates_of(directories: Seq<Seq<char>>, standard: Seq<Seq<char>>) -> Seq<
    Seq<char>,
> {
    all_paths(directories, names_of_browsers()) + standard
}

/// Where a browser is looked for, in order.
pub fn browser_candidates(directories: &Vec<String>, standard: &Vec<String>) -> (candidates: Vec<
    String,
>)
    ensures
        candidates.deep_view() == candidates_of(directories.deep_view(), standard.deep_view()),
{
    let names = browser_names();
    let mut candidates = list_paths(directories, &names);
    let ghost first = candidates.deep_view();
    let ghost rest = standard.deep_view();
    let mut i: usize = 0;
    assert(first + rest.take(0) =~= first);
    while i < standard.len()
        invariant
            rest == standard.deep_view(),
            i <= standard@.len(),
            candidates.deep_view() == first + rest.take(i as int),
        decreases standard@.len() - i,
    {
        let ghost now = candidates.deep_view();
        assert(rest[i as int] == standard@[i as int]@);
        candidates.push(standard[i].clone());
        proof {
            assert(candidates.deep_view() =~= now.push(rest[i as int]));
            assert(first + rest.take(i + 1) =~= (first + rest.take(i as int)).push(rest[i as int]));
        }
        i += 1;
    }
    assert(rest.take(i as int) =~= rest);
    candidates
}

/// The browser that is taken is the first candidate that is there, and none is taken just
/// where no candidate is there.
pub proof fn first_browser_law(candidates: Seq<Seq<char>>, there: Seq<bool>)
    requires
        candidates.len() == there.len(),
    ensures
        match first_there(candidates, there) {
            Some(path) => exists|i: int|
                {
                    &&& 0 <= i < candidates.len()
                    &&& path == candidates[i]
                    &&& #[trigger] there[i]
                    &&& forall|k: int| 0 <= k < i ==> !#[trigger] there[k]
                },
            None => forall|k: int| 0 <= k < there.len() ==> !#[trigger] there[k],
        },
    decreases candidates.len(),
{
    if candidates.len() > 0 && !there[0] {
        let rest = there.skip(1);
        first_browser_law(candidates.skip(1), rest);
        match first_there(candidates, there) {
            Some(path) => {
                let i = choose|i: int|
                    {
                        &&& 0 <= i < candidates.skip(1).len()
                        &&& path == candidates.skip(1)[i]
                        &&& #[trigger] rest[i]
                        &&& forall|k: int| 0 <= k < i ==> !#[trigger] rest[k]
                    };
                assert(there[i + 1] == rest[i]);
                assert forall|k: int| 0 <= k < i + 1 implies !#[trigger] there[k] by {
                    if k > 0 {
                        assert(there[k] == rest[k - 1]);
                    }
                }
            },
            None => {
                assert forall|k: int| 0 <= k < there.len() implies !#[trigger] there[k] by {
                    if k > 0 {
                        assert(there[k] == rest[k - 1]);
                    }
                }
            },
        }
    }
}

/// The browser to use: the one that was set, if its file is there, and otherwise the
/// first candidate whose file is.
pub fn browser_executable(
    chosen: Option<(String, bool)>,
    candidates: &Vec<String>,
    there: &Vec<bool>,
) -> (result: Option<String>)
    ensures
        result.deep_view() == match chosen {
            Some((path, is_file)) => if is_file {
                Some(path@)
            } else {
                None
            },
            None => first_there(candidates.deep_view(), there@),
        },
{
    match chosen {
        Some((path, is_file)) => {
            return if is_file {
                Some(path)
            } else {
                None
            };
        },
        None => {},
    }
    let ghost all = candidates.deep_view();
    let mut i: usize = 0;
    proof {
        assert(all.skip(0) =~= all);
        assert(there@.skip(0) =~= there@);
    }
    while i < candidates.len() && i < there.len()
        invariant
            chosen is None,
            all == candidates.deep_view(),
            i <= candidates@.len(),
            i <= there@.len(),
            first_there(all, there@) == first_there(all.skip(i as int), there@.skip(i as int)),
        decreases candidates@.len() - i,
    {
        proof {
            assert(all.skip(i as int)[0] == candidates@[i as int]@);
            assert(all.skip(i as int).skip(1) =~= all.skip(i + 1));
            assert(there@.skip(i as int).skip(1) =~= there@.skip(i + 1));
        }
        if there[i] {
            return Some(candidates[i].clone());
        }
        i += 1;
    }
    None
}

/// What is wrong with a runtime of which some parts are missing. `entries` are its
/// parts, each with whether it is there.
pub open spec fn missing_part(entries: Seq<(Seq<char>, bool)>) -> Option<Seq<char>>
    decreases entries.len(),
{
    if entries.len() == 0 {
        None
    } else if !entries[0].1 {
        Some("incomplete Patchright runtime: "@ + entries[0].0 + " is missing"@)
    } else {
        missing_part(entries.skip(1))
    }
}

/// Whether a runtime is complete, or which part is missing first.
pub fn validate_runtime(entries: &Vec<(String, bool)>) -> (result: Result<(), String>)
    ensures
        match result {
            Ok(_) => missing_part(entries.deep_view()) is None,
            Err(error) => missing_part(entries.deep_view()) == Some(error@),
        },
{
    let ghost all = entries.deep_view();
    let mut i: usize = 0;
    assert(all.skip(0) =~= all);
    while i < entries.len()
        invariant
            all == entries.deep_view(),
            i <= entries@.len(),
            missing_part(all) == missing_part(all.skip(i as int)),
        decreases entries@.len() - i,
    {
        proof {
            assert(all.skip(i as int)[0] == entries@[i as int].deep_view());
            assert(all.skip(i as int).skip(1) =~= all.skip(i + 1));
        }
        if !entries[i].1 {
            return Err(
                text::join_three(
                    "incomplete Patchright runtime: ",
                    entries[i].0.as_str(),
                    " is missing",
                ),
            );
        }
        i += 1;
    }
    Ok(())
}

} // verus!

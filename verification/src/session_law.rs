//! What holds of sessions as they are kept, and of the project that they work on.
use crate::project::{
    file_section, part_less, parts, parts_from, parts_less, path_in, sections, with_path,
    without_path, ContextFileView,
};
use crate::order;
use crate::runtime::message::{ImageView, MessageView};
use crate::session::{
    attachment, auto_named, current_tool, extension, first_text, images_of, is_name, is_user_text,
    known_cost, record_lines, shown_name, stays_below, with_images, with_usage, MetaView, PathPart,
};
use crate::text::{digits, index_of, is_digit, less, lines, trim};
use vstd::prelude::*;
use vstd::seq_lib::*;
use vstd::string::*;

verus! {

// ---------------------------------------------------------------------------
// What is kept of a session
// ---------------------------------------------------------------------------

/// Tokens add up, and what a request used changes nothing else of a session but its cost.
pub proof fn usage_law(meta: MetaView, tokens: u64, charged: Option<u64>)
    requires
        meta.total_tokens + tokens <= u64::MAX,
    ensures
        ({
            let next = with_usage(meta, tokens, charged);
            &&& next.total_tokens == meta.total_tokens + tokens
            &&& next.cost_complete <==> meta.cost_complete && charged is Some
            &&& next.cost_complete ==> next.total_cost == charged->0
            &&& next == (MetaView {
                total_tokens: next.total_tokens,
                total_cost: next.total_cost,
                cost_complete: next.cost_complete,
                ..meta
            })
            &&& known_cost(meta) is Some ==> known_cost(meta)->0 == meta.total_cost
                && meta.cost_complete
        }),
{
}

/// A session goes by its title where it has one, else by its name.
pub proof fn shown_name_law(title: Seq<char>, name: Seq<char>)
    ensures
        shown_name(Some(title), name) == title,
        shown_name(None, name) == name,
{
}

/// A name is that of one directory, and no other.
pub proof fn name_law(name: Seq<char>)
    ensures
        is_name(name) <==> name.len() > 0 && (forall|i: int|
            0 <= i < name.len() ==> #[trigger] name[i] != '/') && name != "."@ && name != ".."@,
{
    if !name.contains('/') {
        assert forall|i: int| 0 <= i < name.len() implies #[trigger] name[i] != '/' by {
            assert(name.contains(name[i]));
        }
    }
}

/// A name was given by the program just where it is the word and a number.
pub proof fn auto_named_law(name: Seq<char>)
    ensures
        auto_named(name) <==> exists|d: Seq<char>|
            {
                &&& name == #[trigger] ("session-"@ + d)
                &&& d.len() > 0
                &&& forall|i: int| 0 <= i < d.len() ==> is_digit(#[trigger] d[i])
            },
{
    let word = "session-"@;
    reveal_strlit("session-");
    if auto_named(name) {
        let d = name.skip(word.len() as int);
        assert(name.subrange(0, word.len() as int) == word);
        assert(name =~= word + d);
    }
    if exists|d: Seq<char>|
        {
            &&& name == #[trigger] (word + d)
            &&& d.len() > 0
            &&& forall|i: int| 0 <= i < d.len() ==> is_digit(#[trigger] d[i])
        } {
        let d = choose|d: Seq<char>|
            {
                &&& name == #[trigger] (word + d)
                &&& d.len() > 0
                &&& forall|i: int| 0 <= i < d.len() ==> is_digit(#[trigger] d[i])
            };
        assert(name.skip(word.len() as int) =~= d);
        assert(name.subrange(0, word.len() as int) =~= word);
    }
}

/// Tools that go by another name now are known by it, and all others by their own.
pub proof fn tool_name_law(name: Seq<char>)
    ensures
        current_tool("grep"@) == "search_files"@,
        current_tool("glob"@) == "list_files"@,
        name != "grep"@ && name != "glob"@ ==> current_tool(name) == name,
        current_tool(current_tool(name)) == current_tool(name),
{
    reveal_strlit("grep");
    reveal_strlit("glob");
    reveal_strlit("search_files");
    reveal_strlit("list_files");
    assert("grep"@[1] != "glob"@[1]);
    assert("grep"@.len() != "search_files"@.len());
    assert("grep"@.len() != "list_files"@.len());
    assert("glob"@.len() != "search_files"@.len());
    assert("glob"@.len() != "list_files"@.len());
    assert("search_files"@.len() != "list_files"@.len());
}

/// The records of a file are its lines that say anything, in order.
pub proof fn records_law(data: Seq<char>, i: int)
    ensures
        0 <= i < lines(data).len() && trim(lines(data)[i]).len() > 0 ==> record_lines(
            data,
        ).contains(lines(data)[i]),
        0 <= i < record_lines(data).len() ==> trim(record_lines(data)[i]).len() > 0 && lines(
            data,
        ).contains(record_lines(data)[i]),
        (forall|k: int| 0 <= k < lines(data).len() ==> trim(#[trigger] lines(data)[k]).len() > 0)
            ==> record_lines(data) == lines(data),
{
    let keep = |line: Seq<char>| trim(line).len() > 0;
    let all = lines(data);
    assert(record_lines(data) == all.filter(keep));
    if 0 <= i < all.len() && keep(all[i]) {
        all.lemma_filter_contains(keep, i);
    }
    if 0 <= i < record_lines(data).len() {
        all.lemma_filter_pred(keep, i);
        assert(all.filter(keep).contains(all.filter(keep)[i]));
        all.lemma_filter_contains_rev(keep, all.filter(keep)[i]);
    }
    if forall|k: int| 0 <= k < all.len() ==> trim(#[trigger] all[k]).len() > 0 {
        filter_all(all, keep);
    }
}

proof fn filter_all<A>(all: Seq<A>, keep: spec_fn(A) -> bool)
    requires
        forall|k: int| 0 <= k < all.len() ==> keep(#[trigger] all[k]),
    ensures
        all.filter(keep) == all,
    decreases all.len(),
{
    reveal(Seq::filter);
    if all.len() > 0 {
        let rest = all.drop_last();
        assert forall|k: int| 0 <= k < rest.len() implies keep(#[trigger] rest[k]) by {
            assert(rest[k] == all[k]);
        }
        filter_all(rest, keep);
        assert(keep(all[all.len() - 1]));
        assert(rest.push(all.last()) =~= all);
    } else {
        assert(all.filter(keep) =~= all);
    }
}

/// A session is told by the first thing that the user said in words.
pub proof fn first_text_law(messages: Seq<MessageView>)
    ensures
        match first_text(messages) {
            Some(content) => exists|i: int|
                {
                    &&& 0 <= i < messages.len()
                    &&& (#[trigger] messages[i]) is User
                    &&& messages[i]->User_content == content
                    &&& trim(content).len() > 0
                    &&& forall|k: int|
                        0 <= k < i && (#[trigger] messages[k]) is User ==> trim(
                            messages[k]->User_content,
                        ).len() == 0
                },
            None => forall|k: int|
                0 <= k < messages.len() && (#[trigger] messages[k]) is User ==> trim(
                    messages[k]->User_content,
                ).len() == 0,
        },
    decreases messages.len(),
{
    if messages.len() > 0 {
        if is_user_text(messages[0]) {
            assert(messages[0]->User_content == first_text(messages)->0);
        } else {
            let rest = messages.skip(1);
            first_text_law(rest);
            match first_text(messages) {
                Some(content) => {
                    let i = choose|i: int|
                        {
                            &&& 0 <= i < rest.len()
                            &&& (#[trigger] rest[i]) is User
                            &&& rest[i]->User_content == content
                            &&& trim(content).len() > 0
                            &&& forall|k: int|
                                0 <= k < i && (#[trigger] rest[k]) is User ==> trim(
                                    rest[k]->User_content,
                                ).len() == 0
                        };
                    assert(messages[i + 1] == rest[i]);
                    assert forall|k: int|
                        0 <= k < i + 1 && (#[trigger] messages[k]) is User implies trim(
                        messages[k]->User_content,
                    ).len() == 0 by {
                        if k > 0 {
                            assert(rest[k - 1] == messages[k]);
                        }
                    }
                },
                None => {
                    assert forall|k: int|
                        0 <= k < messages.len() && (#[trigger] messages[k]) is User implies trim(
                        messages[k]->User_content,
                    ).len() == 0 by {
                        if k > 0 {
                            assert(rest[k - 1] == messages[k]);
                        }
                    }
                },
            }
        }
    }
}

// ---------------------------------------------------------------------------
// Images
// ---------------------------------------------------------------------------

/// The images of a message are those that were given to it, and to give a message its own
/// images changes nothing; what it says stays.
pub proof fn images_law(message: MessageView, images: Seq<ImageView>)
    requires
        images.len() == images_of(message).len(),
    ensures
        images_of(with_images(message, images)) == images,
        with_images(message, images_of(message)) == message,
        with_images(message, images).content() == message.content(),
        message is User ==> images_of(message) == message->User_images && with_images(
            message,
            images,
        ) is User,
        message is Steer ==> images_of(message) == message->Steer_images && with_images(
            message,
            images,
        ) is Steer,
        message is Tool && message->Tool_image is Some ==> images_of(message) == seq![
            message->Tool_image->0,
        ] && with_images(message, images) is Tool && with_images(message, images)->Tool_call_id
            == message->Tool_call_id,
{
    assert(images_of(with_images(message, images)) =~= images);
}

/// The file of an image is named by the time, the process, the message and the place, so that
/// each has its own, and ends as its type asks.
pub proof fn attachment_law(
    now: u64,
    process: u32,
    message: usize,
    image: usize,
    mime_type: Seq<char>,
)
    ensures
        attachment(now, process, message, image, mime_type) == "attachments/"@ + digits(now as nat)
            + "-"@ + digits(process as nat) + "-"@ + digits(message as nat) + "-"@ + digits(
            image as nat,
        ) + "."@ + extension(mime_type),
        extension("image/jpeg"@) == "jpg"@,
        extension("image/gif"@) == "gif"@,
        extension("image/webp"@) == "webp"@,
        mime_type != "image/jpeg"@ && mime_type != "image/gif"@ && mime_type != "image/webp"@
            ==> extension(mime_type) == "png"@,
{
    reveal_strlit("image/jpeg");
    reveal_strlit("image/gif");
    reveal_strlit("image/webp");
    assert("image/jpeg"@.len() != "image/gif"@.len());
    assert("image/jpeg"@[6] != "image/webp"@[6]);
    assert("image/gif"@.len() != "image/webp"@.len());
}

/// An image is read only from below the directory of its session.
pub proof fn below_law(absolute: bool, parts: Seq<PathPart>)
    ensures
        stays_below(absolute, parts) <==> !absolute && forall|i: int|
            0 <= i < parts.len() ==> #[trigger] parts[i] != PathPart::Parent,
{
    if !parts.contains(PathPart::Parent) {
        assert forall|i: int| 0 <= i < parts.len() implies #[trigger] parts[i]
            != PathPart::Parent by {
            assert(parts.contains(parts[i]));
        }
    }
}

// ---------------------------------------------------------------------------
// Paths
// ---------------------------------------------------------------------------

proof fn slash(path: Seq<char>, from: int)
    requires
        0 <= from <= path.len(),
    ensures
        from <= index_of(path, '/', from) <= path.len(),
        forall|i: int| from <= i < index_of(path, '/', from) ==> path[i] != '/',
        index_of(path, '/', from) < path.len() ==> path[index_of(path, '/', from)] == '/',
    decreases path.len() - from,
{
    if from < path.len() && path[from] != '/' {
        slash(path, from + 1);
    }
}

proof fn slash_is(path: Seq<char>, from: int, end: int)
    requires
        0 <= from <= end <= path.len(),
        forall|i: int| from <= i < end ==> path[i] != '/',
        end < path.len() ==> path[end] == '/',
    ensures
        index_of(path, '/', from) == end,
    decreases end - from,
{
    if from < end {
        slash_is(path, from + 1, end);
    }
}

proof fn parts_behind(a: Seq<char>, b: Seq<char>, from: int)
    requires
        0 <= from <= b.len(),
    ensures
        parts_from(a + "/"@ + b, a.len() + 1 + from) == parts_from(b, from),
    decreases b.len() + 1 - from,
{
    reveal_strlit("/");
    let all = a + "/"@ + b;
    let off = a.len() + 1;
    slash(b, from);
    let end = index_of(b, '/', from);
    assert forall|i: int| off + from <= i < off + end implies all[i] != '/' by {
        assert(all[i] == b[i - off]);
    }
    if end < b.len() {
        assert(all[off + end] == b[end]);
    }
    slash_is(all, off + from, off + end);
    assert(all.subrange(off + from, off + end) =~= b.subrange(from, end));
    if end < b.len() {
        parts_behind(a, b, end + 1);
    } else {
        assert(parts_from(all, off + end + 1) =~= Seq::empty());
        assert(parts_from(b, end + 1) =~= Seq::empty());
    }
}

proof fn parts_before(a: Seq<char>, b: Seq<char>, from: int)
    requires
        0 <= from <= a.len(),
    ensures
        parts_from(a + "/"@ + b, from) == parts_from(a, from) + parts(b),
    decreases a.len() + 1 - from,
{
    reveal_strlit("/");
    let all = a + "/"@ + b;
    slash(a, from);
    let end = index_of(a, '/', from);
    assert forall|i: int| from <= i < end implies all[i] != '/' by {
        assert(all[i] == a[i]);
    }
    if end < a.len() {
        assert(all[end] == a[end]);
    } else {
        assert(all[end] == '/');
    }
    slash_is(all, from, end);
    assert(all.subrange(from, end) =~= a.subrange(from, end));
    if end < a.len() {
        parts_before(a, b, end + 1);
        assert(parts_from(all, from) =~= parts_from(a, from) + parts(b));
    } else {
        parts_behind(a, b, 0);
        assert(parts_from(a, end + 1) =~= Seq::empty());
        assert(parts_from(all, from) =~= parts_from(a, from) + parts(b));
    }
}

/// A path is made of its parts: those of two paths with a slash between are those of the one
/// and then those of the other, and a name is a part of its own, but for the one that means
/// nothing.
pub proof fn parts_law(a: Seq<char>, b: Seq<char>)
    ensures
        parts(a + "/"@ + b) == parts(a) + parts(b),
        a.len() > 0 && !a.contains('/') && a != "."@ ==> parts(a) == seq![a],
        a.len() == 0 || a == "."@ ==> parts(a).len() == 0,
{
    parts_before(a, b, 0);
    reveal_strlit(".");
    if !a.contains('/') {
        assert forall|i: int| 0 <= i < a.len() implies a[i] != '/' by {
            assert(a.contains(a[i]));
        }
        slash_is(a, 0, a.len() as int);
        assert(a.subrange(0, a.len() as int) =~= a);
        assert(parts_from(a, (a.len() + 1) as int) =~= Seq::empty());
        if a.len() > 0 && a != "."@ {
            assert(parts(a) =~= seq![a]);
        }
    }
    if a == "."@ {
        assert forall|i: int| 0 <= i < a.len() implies a[i] != '/' by {}
        slash_is(a, 0, a.len() as int);
        assert(a.subrange(0, a.len() as int) =~= a);
        assert(parts_from(a, (a.len() + 1) as int) =~= Seq::empty());
    }
}

/// The path of a name in a directory has the parts of the directory and then those of the
/// name.
pub proof fn path_law(directory: Seq<char>, name: Seq<char>)
    ensures
        parts(path_in(directory, name)) == parts(directory) + parts(name),
        directory.len() > 0 && directory.last() != '/' ==> path_in(directory, name) == directory
            + "/"@ + name,
{
    reveal_strlit("/");
    if directory.len() == 0 {
        assert(path_in(directory, name) =~= name);
        parts_law(directory, name);
        assert(parts(directory) + parts(name) =~= parts(name));
    } else if directory.last() == '/' {
        let bare = directory.drop_last();
        assert(directory =~= bare + "/"@ + Seq::<char>::empty());
        parts_law(bare, Seq::empty());
        parts_law(Seq::empty(), Seq::empty());
        parts_law(bare, name);
        assert(path_in(directory, name) =~= bare + "/"@ + name);
        assert(parts(directory) =~= parts(bare));
    } else {
        parts_law(directory, name);
    }
}

/// Paths are in the order of their first parts that differ, and a directory comes before what
/// is in it.
pub proof fn path_order_law(common: Seq<Seq<char>>, a: Seq<Seq<char>>, b: Seq<Seq<char>>)
    ensures
        a.len() == 0 && b.len() > 0 ==> parts_less(common + a, common + b),
        b.len() == 0 ==> !parts_less(common + a, common + b),
        a.len() > 0 && b.len() > 0 && a[0] != b[0] ==> (parts_less(common + a, common + b)
            <==> part_less(a[0], b[0])),
        a.len() > 0 && b.len() > 0 && a[0] != ".."@ && b[0] != ".."@ && a[0] != b[0] ==> (
        parts_less(common + a, common + b) <==> less(a[0], b[0])),
    decreases common.len(),
{
    if common.len() == 0 {
        assert(common + a =~= a);
        assert(common + b =~= b);
    } else {
        assert((common + a)[0] == common[0] && (common + b)[0] == common[0]);
        assert((common + a).skip(1) =~= common.skip(1) + a);
        assert((common + b).skip(1) =~= common.skip(1) + b);
        path_order_law(common.skip(1), a, b);
    }
}

/// To leave a file out of the context leaves out that file, however it is written, and no
/// other; to add one adds that one, and keeps the others.
pub proof fn context_files_law(paths: Seq<Seq<char>>, path: Seq<char>, q: Seq<char>)
    ensures
        without_path(paths, path).contains(q) <==> paths.contains(q) && parts(q) != parts(path),
        paths.contains(q) ==> with_path(paths, path).contains(q),
        with_path(paths, path).contains(q) ==> paths.contains(q) || q == path,
{
    left_out(paths, path, q);
    if !crate::project::has_path(paths, path) {
        let all = paths.push(path);
        same_items(all, crate::project::path_order(), q);
        if paths.contains(q) {
            let i = choose|i: int| 0 <= i < paths.len() && paths[i] == q;
            assert(all[i] == q);
        }
        if all.contains(q) {
            let i = choose|i: int| 0 <= i < all.len() && all[i] == q;
            if i < paths.len() {
                assert(paths[i] == q);
            }
        }
    }
}

proof fn same_items(
    all: Seq<Seq<char>>,
    before: spec_fn(Seq<char>, Seq<char>) -> bool,
    q: Seq<char>,
)
    ensures
        order::sorted(all, before).contains(q) <==> all.contains(q),
    decreases all.len(),
{
    if all.len() > 0 {
        let rest = all.drop_last();
        same_items(rest, before, q);
        put_items(order::sorted(rest, before), all.last(), before, q);
        if rest.contains(q) {
            let i = choose|i: int| 0 <= i < rest.len() && rest[i] == q;
            assert(all[i] == q);
        }
        if all.contains(q) {
            let i = choose|i: int| 0 <= i < all.len() && all[i] == q;
            if i < rest.len() {
                assert(rest[i] == q);
            }
        }
        if q == all.last() {
            assert(all[all.len() - 1] == q);
        }
    }
}

proof fn put_items(
    s: Seq<Seq<char>>,
    x: Seq<char>,
    before: spec_fn(Seq<char>, Seq<char>) -> bool,
    q: Seq<char>,
)
    ensures
        order::put(s, x, before).contains(q) <==> s.contains(q) || q == x,
    decreases s.len(),
{
    let all = order::put(s, x, before);
    if s.len() > 0 && before(x, s.last()) {
        let rest = s.drop_last();
        put_items(rest, x, before, q);
        let inner = order::put(rest, x, before);
        if inner.contains(q) {
            let i = choose|i: int| 0 <= i < inner.len() && inner[i] == q;
            assert(all[i] == q);
        }
        if rest.contains(q) {
            let i = choose|i: int| 0 <= i < rest.len() && rest[i] == q;
            assert(s[i] == q);
        }
        if s.contains(q) {
            let i = choose|i: int| 0 <= i < s.len() && s[i] == q;
            if i < rest.len() {
                assert(rest[i] == q);
            } else {
                assert(all[all.len() - 1] == q);
            }
        }
        if all.contains(q) {
            let i = choose|i: int| 0 <= i < all.len() && all[i] == q;
            if i < inner.len() {
                assert(inner[i] == q);
            } else {
                assert(s[s.len() - 1] == q);
            }
        }
    } else {
        if s.contains(q) {
            let i = choose|i: int| 0 <= i < s.len() && s[i] == q;
            assert(all[i] == q);
        }
        if q == x {
            assert(all[s.len() as int] == q);
        }
        if all.contains(q) {
            let i = choose|i: int| 0 <= i < all.len() && all[i] == q;
            if i < s.len() {
                assert(s[i] == q);
            }
        }
    }
}

proof fn left_out(paths: Seq<Seq<char>>, path: Seq<char>, q: Seq<char>)
    ensures
        without_path(paths, path).contains(q) <==> paths.contains(q) && parts(q) != parts(path),
    decreases paths.len(),
{
    if paths.len() > 0 {
        let rest = paths.drop_last();
        left_out(rest, path, q);
        let kept = without_path(rest, path);
        let all = without_path(paths, path);
        if rest.contains(q) {
            let i = choose|i: int| 0 <= i < rest.len() && rest[i] == q;
            assert(paths[i] == q);
        }
        if paths.contains(q) {
            let i = choose|i: int| 0 <= i < paths.len() && paths[i] == q;
            if i < rest.len() {
                assert(rest[i] == q);
            }
        }
        if parts(paths.last()) != parts(path) {
            if kept.contains(q) {
                let i = choose|i: int| 0 <= i < kept.len() && kept[i] == q;
                assert(all[i] == q);
            }
            if q == paths.last() {
                assert(all[all.len() - 1] == q);
                assert(paths[paths.len() - 1] == q);
            }
            if all.contains(q) {
                let i = choose|i: int| 0 <= i < all.len() && all[i] == q;
                if i < kept.len() {
                    assert(kept[i] == q);
                }
            }
        }
    }
}

// ---------------------------------------------------------------------------
// Instructions
// ---------------------------------------------------------------------------

/// The model is told the instructions of the user and those of the project, and each file of
/// the context by its name with all of its content, in this order; and where it is, where
/// there are such files.
pub proof fn sections_law(
    cwd: Seq<char>,
    global: Option<Seq<char>>,
    local: Option<Seq<char>>,
    files: Seq<ContextFileView>,
)
    ensures
        ({
            let said = sections(cwd, global, local, files);
            let a = if global is Some {
                1int
            } else {
                0
            };
            let b = a + if local is Some {
                1int
            } else {
                0
            };
            let c = b + if files.len() > 0 {
                1int
            } else {
                0
            };
            &&& said.len() == c + files.len()
            &&& global is Some ==> said[0] == "Global instructions (~/.config/rope/AGENTS.md):\n"@
                + global->0
            &&& local is Some ==> said[a] == "Project instructions (AGENTS.md):\n"@ + local->0
            &&& files.len() > 0 ==> said[b] == "Current working directory: "@ + cwd
                + "\nExplicit context files:"@
            &&& forall|i: int|
                0 <= i < files.len() ==> #[trigger] said[c + i] == "--- "@ + files[i].name
                    + " ---\n"@ + files[i].content
        }),
{
    let said = sections(cwd, global, local, files);
    let c = said.len() - files.len();
    assert forall|i: int| 0 <= i < files.len() implies #[trigger] said[c + i] == "--- "@
        + files[i].name + " ---\n"@ + files[i].content by {
        assert(said[c + i] == file_section(files[i]));
    }
}

} // verus!

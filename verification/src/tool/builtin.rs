//! What the tools on files, images and plans compute.
use super::{ExecutionPlan, PlanStatus, PlanStep, PlanStepView, PlanView, ToolResult};
use crate::encoding::{base64_text, encode_base64};
use crate::order;
use crate::runtime::context::{plan_text, write_plan};
use crate::runtime::message::{ImageContent, ImageView};
use crate::text;
use crate::text::{digits, find_from, find_from_is_first, join, less, lines, lower, trim};
use vstd::prelude::*;
use vstd::string::*;

verus! {

/// Searches in files below a directory, with `rg` where it is there.
#[derive(Debug, PartialEq)]
pub struct SearchFilesTool {
    pub root: String,
    pub ripgrep: bool,
}

/// Lists files below a directory, with `rg` where it is there.
#[derive(Debug, PartialEq)]
pub struct ListFilesTool {
    pub root: String,
    pub ripgrep: bool,
}

impl SearchFilesTool {
    pub fn new(root: String, ripgrep: bool) -> (result: Self)
        ensures
            result.root@ == root@,
            result.ripgrep == ripgrep,
    {
        SearchFilesTool { root, ripgrep }
    }
}

impl ListFilesTool {
    pub fn new(root: String, ripgrep: bool) -> (result: Self)
        ensures
            result.root@ == root@,
            result.ripgrep == ripgrep,
    {
        ListFilesTool { root, ripgrep }
    }
}

// ---------------------------------------------------------------------------
// Edits
// ---------------------------------------------------------------------------

/// The number of places of `pattern` in `s` from `from` on that do not overlap.
pub open spec fn count_from(s: Seq<char>, pattern: Seq<char>, from: int) -> nat
    decreases s.len() + 1 - from,
{
    let i = find_from(s, pattern, from);
    let next = i + if pattern.len() > 0 {
        pattern.len() as int
    } else {
        1
    };
    if from < 0 || i < from || next > s.len() + 1 {
        0
    } else {
        1 + count_from(s, pattern, next)
    }
}

/// `s` with `new` in the place of the first `old`.
pub open spec fn replaced(s: Seq<char>, old_text: Seq<char>, new_text: Seq<char>) -> Seq<char> {
    let i = find_from(s, old_text, 0);
    s.take(i) + new_text + s.skip(i + old_text.len())
}

fn count_matches(chars: &Vec<char>, pattern: &Vec<char>) -> (count: u128)
    ensures
        count == count_from(chars@, pattern@, 0),
{
    let mut count: u128 = 0;
    let mut from: usize = 0;
    let mut going = true;
    let size: usize = chars.len();
    while going && from <= size
        invariant
            size == chars@.len(),
            from <= size + 1,
            going ==> count <= from,
            count <= size + 1,
            going ==> count + count_from(chars@, pattern@, from as int) == count_from(
                chars@,
                pattern@,
                0,
            ),
            !going ==> count == count_from(chars@, pattern@, 0),
            from > size ==> !going,
        decreases size + 1 - from, going as int,
    {
        proof {
            find_from_is_first(chars@, pattern@, from as int);
        }
        match text::find_chars(chars, pattern, from) {
            Some(i) => {
                let step: usize = if pattern.len() > 0 {
                    pattern.len()
                } else {
                    1
                };
                count += 1;
                if i == size {
                    going = false;
                    proof {
                        let next = i + step;
                        assert(find_from(chars@, pattern@, next) == -1);
                        assert(count_from(chars@, pattern@, next) == 0);
                    }
                } else {
                    from = i + step;
                    if from > size {
                        going = false;
                        assert(find_from(chars@, pattern@, from as int) == -1);
                        assert(count_from(chars@, pattern@, from as int) == 0);
                    }
                }
            },
            None => {
                going = false;
            },
        }
    }
    count
}

/// A file with one text in the place of another, which must stand in it once.
/// `target` is how the file is named in an error.
pub fn edit(content: &str, old_text: &str, new_text: &str, target: &str) -> (result: Result<
    String,
    String,
>)
    ensures
        match result {
            Ok(edited) => count_from(content@, old_text@, 0) == 1 && edited@ == replaced(
                content@,
                old_text@,
                new_text@,
            ),
            Err(error) => count_from(content@, old_text@, 0) != 1 && error@
                == "expected one match in "@ + target@ + ", found "@ + digits(
                count_from(content@, old_text@, 0),
            ),
        },
{
    let chars = text::to_chars(content);
    let pattern = text::to_chars(old_text);
    let count: u128 = count_matches(&chars, &pattern);
    if count != 1 {
        let mut error = text::join_three("expected one match in ", target, ", found ");
        error.append(text::decimal_wide(count).as_str());
        return Err(error);
    }
    match text::find_chars(&chars, &pattern, 0) {
        Some(i) => {
            let size: usize = chars.len();
            assert(i + pattern@.len() <= size);
            let mut edited = text::from_chars(&chars, 0, i);
            edited.append(new_text);
            let rest = text::from_chars(&chars, i + pattern.len(), size);
            edited.append(rest.as_str());
            proof {
                assert(content@.subrange(0, i as int) =~= content@.take(i as int));
                assert(content@.subrange(i + old_text@.len(), content@.len() as int)
                    =~= content@.skip(i + old_text@.len()));
            }
            Ok(edited)
        },
        None => {
            assert(false);
            Err(String::new())
        },
    }
}

/// The unified difference that `similar` writes of two texts under two headings.
pub uninterp spec fn unified(
    before: Seq<char>,
    after: Seq<char>,
    old_heading: Seq<char>,
    new_heading: Seq<char>,
) -> Seq<char>;

/// `similar::TextDiff::from_lines` and the text of its unified form.
#[verifier::external_body]
fn unified_diff(before: &str, after: &str, old_heading: &str, new_heading: &str) -> (result: String)
    ensures
        result@ == unified(before@, after@, old_heading@, new_heading@),
{
    similar::TextDiff::from_lines(before, after)
        .unified_diff()
        .header(old_heading, new_heading)
        .to_string()
}

/// The difference that was made to the file `path`, if one was. A file that was not
/// there before differs from nothing.
pub open spec fn diff_of(path: Seq<char>, before: Option<Seq<char>>, after: Seq<char>) -> Option<
    Seq<char>,
> {
    match before {
        Some(before) => if before == after {
            None
        } else {
            Some(unified(before, after, "a/"@ + path, "b/"@ + path))
        },
        None => Some(unified(Seq::empty(), after, "/dev/null"@, "b/"@ + path)),
    }
}

/// The difference that was made to the file `path`, if one was.
pub fn file_diff(path: &str, before: Option<&str>, after: &str) -> (result: Option<String>)
    ensures
        result.deep_view() == diff_of(path@, before.deep_view(), after@),
{
    let new_heading = text::join_two("b/", path);
    match before {
        Some(before) => if text::same(before, after) {
            None
        } else {
            let old_heading = text::join_two("a/", path);
            Some(unified_diff(before, after, old_heading.as_str(), new_heading.as_str()))
        },
        None => {
            let empty = String::new();
            Some(unified_diff(empty.as_str(), after, "/dev/null", new_heading.as_str()))
        },
    }
}

// ---------------------------------------------------------------------------
// Searches
// ---------------------------------------------------------------------------

#[verifier::external_type_specification]
#[verifier::external_body]
pub struct ExRegex(regex::Regex);

/// The texts that a compiled `regex::Regex` matches somewhere.
pub uninterp spec fn matched_by(pattern: regex::Regex) -> Set<Seq<char>>;

/// The texts that the expression `pattern` matches somewhere, or what `regex::Regex::new`
/// says of it where it is no expression.
pub uninterp spec fn expression_of(pattern: Seq<char>) -> Result<Set<Seq<char>>, Seq<char>>;

/// The texts that the expression `pattern` matches somewhere; `None` where it is no
/// expression.
pub open spec fn matches_of(pattern: Seq<char>) -> Option<Set<Seq<char>>> {
    match expression_of(pattern) {
        Ok(found) => Some(found),
        Err(_) => None,
    }
}

/// Why a pattern cannot be used, with a message.
#[derive(Debug, PartialEq)]
pub enum Unusable {
    /// It is no pattern.
    Malformed(String),
    /// What it compiles to takes more memory than is allowed.
    TooBig(String),
}

impl Unusable {
    pub open spec fn spec_message(&self) -> Seq<char> {
        match self {
            Unusable::Malformed(message) => message@,
            Unusable::TooBig(message) => message@,
        }
    }

    /// What a user is told.
    pub fn message(&self) -> (result: String)
        ensures
            result@ == self.spec_message(),
    {
        match self {
            Unusable::Malformed(message) => message.clone(),
            Unusable::TooBig(message) => message.clone(),
        }
    }
}

/// `regex::Regex::new`: the expression, or what is wrong with it. An expression that takes
/// more than ten megabytes is refused, behind the look at how it is written. How much
/// memory it takes depends on the machine, so it is not stated which ones are refused.
#[verifier::external_body]
fn compile(pattern: &str) -> (result: Result<regex::Regex, Unusable>)
    ensures
        match result {
            Ok(compiled) => expression_of(pattern@) == Ok::<Set<Seq<char>>, Seq<char>>(
                matched_by(compiled),
            ),
            Err(Unusable::Malformed(message)) => expression_of(pattern@) == Err::<
                Set<Seq<char>>,
                Seq<char>,
            >(message@),
            Err(Unusable::TooBig(message)) => expression_of(pattern@) is Ok && message@
                == "Compiled regex exceeds size limit of 10485760 bytes."@,
        },
{
    match regex::Regex::new(pattern) {
        Ok(compiled) => Ok(compiled),
        Err(regex::Error::Syntax(message)) => Err(Unusable::Malformed(message)),
        Err(error) => Err(Unusable::TooBig(error.to_string())),
    }
}

/// `regex::Regex::is_match`: whether the expression matches somewhere in `line`.
#[verifier::external_body]
fn is_match(compiled: &regex::Regex, line: &str) -> (result: bool)
    ensures
        result == matched_by(*compiled).contains(line@),
{
    compiled.is_match(line)
}

/// One line of a search result.
pub open spec fn hit(name: Seq<char>, number: int, line: Seq<char>) -> Seq<char> {
    name + ":"@ + digits(number as nat) + ":"@ + line + "\n"@
}

/// The lines of a file that match, among the first `n`.
pub open spec fn hits_in(
    name: Seq<char>,
    content: Seq<Seq<char>>,
    found: Set<Seq<char>>,
    n: int,
) -> Seq<char>
    decreases n,
{
    if n <= 0 {
        Seq::empty()
    } else {
        hits_in(name, content, found, n - 1) + if found.contains(content[n - 1]) {
            hit(name, n, content[n - 1])
        } else {
            Seq::empty()
        }
    }
}

/// The lines of files that match.
pub open spec fn hits_in_files(files: Seq<(Seq<char>, Seq<char>)>, found: Set<Seq<char>>) -> Seq<
    char,
>
    decreases files.len(),
{
    if files.len() == 0 {
        Seq::empty()
    } else {
        let content = lines(files.last().1);
        hits_in_files(files.drop_last(), found) + hits_in(
            files.last().0,
            content,
            found,
            content.len() as int,
        )
    }
}

fn search_file(compiled: &regex::Regex, name: &str, content: &str, output: &mut String)
    ensures
        final(output)@ == old(output)@ + hits_in(
            name@,
            lines(content@),
            matched_by(*compiled),
            lines(content@).len() as int,
        ),
{
    let all = text::split_lines(content);
    let ghost view = all.deep_view();
    let ghost found = matched_by(*compiled);
    let ghost before = output@;
    let mut i: usize = 0;
    assert(before + hits_in(name@, view, found, 0) =~= before);
    while i < all.len()
        invariant
            view == all.deep_view(),
            found == matched_by(*compiled),
            i <= all@.len(),
            output@ == before + hits_in(name@, view, found, i as int),
        decreases all@.len() - i,
    {
        assert(view[i as int] == all@[i as int]@);
        let ghost now = output@;
        if is_match(compiled, all[i].as_str()) {
            output.append(name);
            output.append(":");
            output.append(text::decimal(i as u64 + 1).as_str());
            output.append(":");
            output.append(all[i].as_str());
            output.append("\n");
            assert(output@ =~= now + hit(name@, i + 1, view[i as int]));
        }
        assert(output@ =~= before + hits_in(name@, view, found, i + 1));
        i += 1;
    }
}

/// The lines of `files`, each with its name and its content, that a compiled expression
/// matches.
pub fn search_compiled(compiled: &regex::Regex, files: &Vec<(String, String)>) -> (output: String)
    ensures
        output@ == hits_in_files(files.deep_view(), matched_by(*compiled)),
{
    let ghost all = files.deep_view();
    let ghost found = matched_by(*compiled);
    let mut output = String::new();
    let mut i: usize = 0;
    while i < files.len()
        invariant
            all == files.deep_view(),
            found == matched_by(*compiled),
            i <= files@.len(),
            output@ == hits_in_files(all.take(i as int), found),
        decreases files@.len() - i,
    {
        proof {
            assert(all.take(i + 1).drop_last() =~= all.take(i as int));
            assert(all.take(i + 1).last() == files@[i as int].deep_view());
        }
        search_file(compiled, files[i].0.as_str(), files[i].1.as_str(), &mut output);
        i += 1;
    }
    assert(all.take(i as int) =~= all);
    output
}

/// The lines of `files`, each with its name and its content, that match `pattern`.
pub fn search_files(files: &Vec<(String, String)>, pattern: &str) -> (result: Result<
    String,
    Unusable,
>)
    ensures
        match result {
            Ok(output) => matches_of(pattern@) is Some && output@ == hits_in_files(
                files.deep_view(),
                matches_of(pattern@)->0,
            ),
            Err(Unusable::Malformed(message)) => expression_of(pattern@) == Err::<
                Set<Seq<char>>,
                Seq<char>,
            >(message@),
            Err(Unusable::TooBig(message)) => matches_of(pattern@) is Some && message@
                == "Compiled regex exceeds size limit of 10485760 bytes."@,
        },
{
    match compile(pattern) {
        Ok(compiled) => Ok(search_compiled(&compiled, files)),
        Err(error) => Err(error),
    }
}

#[verifier::external_type_specification]
#[verifier::external_body]
pub struct ExGlobMatcher(globset::GlobMatcher);

/// A text without a backslash, which only some machines take for a separator.
pub open spec fn is_portable(s: Seq<char>) -> bool {
    !s.contains('\\')
}

/// The portable paths that a compiled `globset::GlobMatcher` matches.
pub uninterp spec fn matched_paths(matcher: globset::GlobMatcher) -> Set<Seq<char>>;

/// The portable paths that a portable glob pattern matches, or what `globset::Glob::new`
/// says of it where it is no pattern.
pub uninterp spec fn glob_of(pattern: Seq<char>) -> Result<Set<Seq<char>>, Seq<char>>;

/// The portable paths that a portable glob pattern matches; `None` where it is no
/// pattern.
pub open spec fn paths_of(pattern: Seq<char>) -> Option<Set<Seq<char>>> {
    match glob_of(pattern) {
        Ok(found) => Some(found),
        Err(_) => None,
    }
}

/// `globset::Glob::new` and `Glob::compile_matcher`. The latter panics where the expression
/// that the pattern stands for cannot be compiled, so `regex::bytes::RegexBuilder`, which
/// works under the same limits, compiles it first. How much memory an expression takes
/// depends on the machine, so it is not stated which ones are too big, nor what is said of
/// them; but they are patterns. What a backslash in the pattern means depends on the machine
/// too, so nothing is stated of such a pattern.
#[verifier::external_body]
fn compile_glob(pattern: &str) -> (result: Result<globset::GlobMatcher, Unusable>)
    ensures
        is_portable(pattern@) ==> match result {
            Ok(matcher) => glob_of(pattern@) == Ok::<Set<Seq<char>>, Seq<char>>(
                matched_paths(matcher),
            ),
            Err(Unusable::Malformed(message)) => glob_of(pattern@) == Err::<
                Set<Seq<char>>,
                Seq<char>,
            >(message@),
            Err(Unusable::TooBig(_)) => glob_of(pattern@) is Ok,
        },
{
    let glob = globset::Glob::new(pattern)
        .map_err(|error| Unusable::Malformed(error.to_string()))?;
    regex::bytes::RegexBuilder::new(glob.regex())
        .dot_matches_new_line(true)
        .build()
        .map_err(|error| Unusable::TooBig(error.to_string()))?;
    Ok(glob.compile_matcher())
}

/// `globset::GlobMatcher::is_match`. What a backslash in the path means depends on the
/// machine, so nothing is stated of such a path.
#[verifier::external_body]
fn glob_matches(matcher: &globset::GlobMatcher, path: &str) -> (result: bool)
    ensures
        is_portable(path@) ==> result == matched_paths(*matcher).contains(path@),
{
    matcher.is_match(path)
}

/// Whether the portable paths among `paths` are kept just where they are in `found`.
pub open spec fn keeps_found(
    paths: Seq<Seq<char>>,
    keep: Seq<bool>,
    found: Set<Seq<char>>,
) -> bool {
    forall|i: int|
        0 <= i < paths.len() && is_portable(#[trigger] paths[i]) ==> keep[i] == found.contains(
            paths[i],
        )
}

/// The paths that are kept.
pub open spec fn kept_paths(paths: Seq<Seq<char>>, keep: Seq<bool>) -> Seq<Seq<char>>
    decreases paths.len(),
{
    if paths.len() == 0 || keep.len() < paths.len() {
        Seq::empty()
    } else {
        let rest = kept_paths(paths.drop_last(), keep.take(paths.len() - 1));
        if keep[paths.len() - 1] {
            rest.push(paths.last())
        } else {
            rest
        }
    }
}

/// The paths that are kept, in order, one on a line.
pub open spec fn listing(paths: Seq<Seq<char>>, keep: Seq<bool>) -> Seq<char> {
    join(
        order::sorted(kept_paths(paths, keep), |a: Seq<char>, b: Seq<char>| less(a, b)),
        "\n"@,
    )
}

fn path_before(a: &String, b: &String) -> (result: bool)
    ensures
        result == less(a@, b@),
{
    text::is_less(a.as_str(), b.as_str())
}

/// The paths that are kept, in order, one on a line.
pub fn list_kept(paths: &Vec<String>, keep: &Vec<bool>) -> (result: String)
    requires
        keep@.len() == paths@.len(),
    ensures
        result@ == listing(paths.deep_view(), keep@),
{
    let ghost all = paths.deep_view();
    let mut kept: Vec<String> = Vec::new();
    let mut i: usize = 0;
    assert(kept.deep_view() =~= kept_paths(all.take(0), keep@.take(0)));
    while i < paths.len()
        invariant
            all == paths.deep_view(),
            keep@.len() == paths@.len(),
            i <= paths@.len(),
            kept.deep_view() == kept_paths(all.take(i as int), keep@.take(i as int)),
        decreases paths@.len() - i,
    {
        let ghost before = kept.deep_view();
        proof {
            assert(all.take(i + 1).drop_last() =~= all.take(i as int));
            assert(all.take(i + 1).last() == paths@[i as int]@);
            assert(keep@.take(i + 1).take(i as int) =~= keep@.take(i as int));
        }
        if keep[i] {
            kept.push(paths[i].clone());
            assert(kept.deep_view() =~= before.push(paths@[i as int]@));
        }
        i += 1;
    }
    proof {
        assert(all.take(i as int) =~= all);
        assert(keep@.take(i as int) =~= keep@);
    }
    let ordered = order::stable_sort(
        kept,
        path_before,
        Ghost(|a: Seq<char>, b: Seq<char>| less(a, b)),
    );
    text::join_all(&ordered, "\n")
}

/// The paths that a compiled glob pattern matches, in order, one on a line.
pub fn list_matched(matcher: &globset::GlobMatcher, paths: &Vec<String>) -> (output: String)
    ensures
        exists|keep: Seq<bool>|
            {
                &&& keep.len() == paths@.len()
                &&& output@ == #[trigger] listing(paths.deep_view(), keep)
                &&& keeps_found(paths.deep_view(), keep, matched_paths(*matcher))
            },
{
    let ghost all = paths.deep_view();
    let ghost found = matched_paths(*matcher);
    let mut keep: Vec<bool> = Vec::new();
    let mut i: usize = 0;
    while i < paths.len()
        invariant
            all == paths.deep_view(),
            found == matched_paths(*matcher),
            i <= paths@.len(),
            keep@.len() == i,
            forall|k: int|
                0 <= k < i && is_portable(#[trigger] all[k]) ==> keep@[k] == found.contains(all[k]),
        decreases paths@.len() - i,
    {
        assert(all[i as int] == paths@[i as int]@);
        keep.push(glob_matches(matcher, paths[i].as_str()));
        i += 1;
    }
    let output = list_kept(paths, &keep);
    assert(output@ == listing(all, keep@));
    assert(keeps_found(all, keep@, found));
    output
}

/// The paths that match a glob pattern, in order, one on a line.
pub fn list_files(paths: &Vec<String>, pattern: &str) -> (result: Result<String, Unusable>)
    ensures
        match result {
            Ok(output) => exists|keep: Seq<bool>|
                {
                    &&& keep.len() == paths@.len()
                    &&& output@ == #[trigger] listing(paths.deep_view(), keep)
                    &&& is_portable(pattern@) ==> paths_of(pattern@) is Some && keeps_found(
                        paths.deep_view(),
                        keep,
                        paths_of(pattern@)->0,
                    )
                },
            Err(Unusable::Malformed(message)) => is_portable(pattern@) ==> glob_of(pattern@)
                == Err::<Set<Seq<char>>, Seq<char>>(message@),
            Err(Unusable::TooBig(_)) => is_portable(pattern@) ==> paths_of(pattern@) is Some,
        },
{
    match compile_glob(pattern) {
        Ok(matcher) => Ok(list_matched(&matcher, paths)),
        Err(error) => Err(error),
    }
}

/// Every place of `c` replaced by a slash.
pub open spec fn with_slashes(path: Seq<char>, separator: char) -> Seq<char> {
    path.map_values(
        |c: char|
            if c == separator {
                '/'
            } else {
                c
            },
    )
}

/// A path with slashes between its parts.
pub fn normalize_path_separator(path: &str, separator: char) -> (result: String)
    ensures
        result@ == with_slashes(path@, separator),
{
    let chars = text::to_chars(path);
    let ghost wanted = with_slashes(path@, separator);
    let mut result = String::new();
    let mut i: usize = 0;
    while i < chars.len()
        invariant
            chars@ == path@,
            wanted == with_slashes(path@, separator),
            i <= chars@.len(),
            result@ == wanted.take(i as int),
        decreases chars@.len() - i,
    {
        let c = if chars[i] == separator {
            '/'
        } else {
            chars[i]
        };
        result.push(c);
        assert(wanted.take(i + 1) =~= wanted.take(i as int).push(c));
        i += 1;
    }
    assert(wanted.take(i as int) =~= wanted);
    result
}

// ---------------------------------------------------------------------------
// Images
// ---------------------------------------------------------------------------

/// The kind of an image, by the extension of its file.
pub open spec fn mime_of(extension: Seq<char>) -> Option<Seq<char>> {
    let e = lower(extension);
    if e == "png"@ {
        Some("image/png"@)
    } else if e == "jpg"@ || e == "jpeg"@ {
        Some("image/jpeg"@)
    } else if e == "gif"@ {
        Some("image/gif"@)
    } else if e == "webp"@ {
        Some("image/webp"@)
    } else {
        None
    }
}

/// The kind of the image in a file, by the file's extension. `target` is how the
/// file is named in an error.
pub fn image_type(extension: &str, target: &str) -> (result: Result<&'static str, String>)
    ensures
        match result {
            Ok(mime_type) => mime_of(extension@) == Some(mime_type@),
            Err(error) => mime_of(extension@) is None && error@ == "unsupported image format: "@
                + target@,
        },
{
    let e = text::to_lower(extension);
    if text::same(e.as_str(), "png") {
        Ok("image/png")
    } else if text::same(e.as_str(), "jpg") || text::same(e.as_str(), "jpeg") {
        Ok("image/jpeg")
    } else if text::same(e.as_str(), "gif") {
        Ok("image/gif")
    } else if text::same(e.as_str(), "webp") {
        Ok("image/webp")
    } else {
        Err(text::join_two("unsupported image format: ", target))
    }
}

/// What viewing an image gives back.
pub fn viewed_image(mime_type: &str, bytes: &Vec<u8>, target: &str) -> (result: ToolResult)
    requires
        bytes@.len() <= usize::MAX / 4,
    ensures
        result.output@ == "viewed "@ + target@,
        result.image.deep_view() == Some(
            ImageView {
                mime_type: mime_type@,
                data: base64_text(bytes@),
                path: None,
                width: 0,
                height: 0,
            },
        ),
        result.diff is None,
{
    ToolResult {
        output: text::join_two("viewed ", target),
        image: Some(
            ImageContent {
                mime_type: mime_type.to_owned(),
                data: encode_base64(bytes),
                path: None,
                width: 0,
                height: 0,
            },
        ),
        diff: None,
    }
}

// ---------------------------------------------------------------------------
// Plans
// ---------------------------------------------------------------------------

/// The number of steps that are in progress.
pub open spec fn count_active(steps: Seq<PlanStepView>) -> nat
    decreases steps.len(),
{
    if steps.len() == 0 {
        0
    } else {
        count_active(steps.drop_last()) + if steps.last().status == PlanStatus::InProgress {
            1nat
        } else {
            0
        }
    }
}

/// Whether some step says nothing.
pub open spec fn has_blank(steps: Seq<PlanStepView>) -> bool {
    exists|i: int| 0 <= i < steps.len() && trim((#[trigger] steps[i]).step).len() == 0
}

/// What is wrong with a plan.
pub open spec fn plan_fault(plan: PlanView) -> Option<Seq<char>> {
    if plan.plan.len() == 0 {
        Some("plan must contain at least one step"@)
    } else if count_active(plan.plan) > 1 {
        Some("plan may contain at most one in_progress step"@)
    } else if has_blank(plan.plan) {
        Some("plan steps must not be empty"@)
    } else {
        None
    }
}

/// A step without white space round it.
pub open spec fn tidy_step(step: PlanStepView) -> PlanStepView {
    PlanStepView { step: trim(step.step), status: step.status }
}

/// A plan without white space round its texts, and without an explanation that says
/// nothing.
pub open spec fn tidy_plan(plan: PlanView) -> PlanView {
    PlanView {
        explanation: match plan.explanation {
            Some(explanation) if trim(explanation).len() > 0 => Some(trim(explanation)),
            _ => None,
        },
        plan: plan.plan.map_values(|s: PlanStepView| tidy_step(s)),
    }
}

fn count_in_progress(steps: &Vec<PlanStep>) -> (count: usize)
    ensures
        count == count_active(steps.deep_view()),
{
    let ghost all = steps.deep_view();
    let mut count: usize = 0;
    let mut i: usize = 0;
    while i < steps.len()
        invariant
            all == steps.deep_view(),
            i <= steps@.len(),
            count <= i,
            count == count_active(all.take(i as int)),
        decreases steps@.len() - i,
    {
        proof {
            assert(all.take(i + 1).drop_last() =~= all.take(i as int));
            assert(all.take(i + 1).last() == steps@[i as int].deep_view());
        }
        if steps[i].status == PlanStatus::InProgress {
            count += 1;
        }
        i += 1;
    }
    assert(all.take(i as int) =~= all);
    count
}

/// A plan without white space round its texts, or what is wrong with it.
pub fn normalize_plan(plan: ExecutionPlan) -> (result: Result<ExecutionPlan, String>)
    ensures
        match result {
            Ok(tidy) => plan_fault(plan.deep_view()) is None && tidy.deep_view() == tidy_plan(
                plan.deep_view(),
            ),
            Err(error) => plan_fault(plan.deep_view()) == Some(error@),
        },
{
    let ghost view = plan.deep_view();
    if plan.plan.len() == 0 {
        return Err("plan must contain at least one step".to_owned());
    }
    if count_in_progress(&plan.plan) > 1 {
        return Err("plan may contain at most one in_progress step".to_owned());
    }
    let mut steps: Vec<PlanStep> = Vec::new();
    let mut i: usize = 0;
    while i < plan.plan.len()
        invariant
            view == plan.deep_view(),
            plan.plan@.len() > 0,
            count_active(view.plan) <= 1,
            i <= plan.plan@.len(),
            steps@.len() == i,
            forall|k: int| 0 <= k < i ==> trim((#[trigger] view.plan[k]).step).len() > 0,
            forall|k: int|
                0 <= k < i ==> (#[trigger] steps@[k]).deep_view() == tidy_step(view.plan[k]),
        decreases plan.plan@.len() - i,
    {
        assert(view.plan[i as int] == plan.plan@[i as int].deep_view());
        let step = text::trimmed(plan.plan[i].step.as_str());
        if step.as_str().is_empty() {
            return Err("plan steps must not be empty".to_owned());
        }
        steps.push(PlanStep { step, status: plan.plan[i].status });
        i += 1;
    }
    assert(steps.deep_view() =~= tidy_plan(view).plan);
    let explanation = match &plan.explanation {
        Some(explanation) => {
            let tidy = text::trimmed(explanation.as_str());
            if tidy.as_str().is_empty() {
                None
            } else {
                Some(tidy)
            }
        },
        None => None,
    };
    Ok(ExecutionPlan { explanation, plan: steps })
}

/// What storing a plan gives back: the plan as it is kept.
pub fn update_plan(plan: ExecutionPlan) -> (result: Result<ToolResult, String>)
    ensures
        match result {
            Ok(stored) => {
                &&& plan_fault(plan.deep_view()) is None
                &&& stored.output@ == plan_text(tidy_plan(plan.deep_view()))
                &&& stored.image is None
                &&& stored.diff is None
            },
            Err(error) => plan_fault(plan.deep_view()) == Some(error@),
        },
{
    match normalize_plan(plan) {
        Ok(tidy) => Ok(ToolResult { output: write_plan(&tidy), image: None, diff: None }),
        Err(error) => Err(error),
    }
}

/// A plan that was kept has nothing wrong with it, and is kept as it is.
pub proof fn tidy_plan_law(plan: PlanView)
    requires
        plan_fault(plan) is None,
    ensures
        plan_fault(tidy_plan(plan)) is None,
        tidy_plan(tidy_plan(plan)) == tidy_plan(plan),
{
    let tidy = tidy_plan(plan);
    active_of_tidy(plan.plan);
    assert forall|i: int| 0 <= i < tidy.plan.len() implies trim(
        (#[trigger] tidy.plan[i]).step,
    ).len() > 0 && tidy_step(tidy.plan[i]) == tidy.plan[i] by {
        text::trim_is_tight(plan.plan[i].step);
        assert(trim(plan.plan[i].step).len() > 0);
    }
    if let Some(explanation) = plan.explanation {
        text::trim_is_tight(explanation);
    }
    assert(tidy_plan(tidy).plan =~= tidy.plan);
}

proof fn active_of_tidy(steps: Seq<PlanStepView>)
    ensures
        count_active(steps.map_values(|s: PlanStepView| tidy_step(s))) == count_active(steps),
    decreases steps.len(),
{
    let f = |s: PlanStepView| tidy_step(s);
    if steps.len() > 0 {
        active_of_tidy(steps.drop_last());
        assert(steps.map_values(f).drop_last() =~= steps.drop_last().map_values(f));
    }
}

} // verus!

//! Text as a sequence of characters: classification, trimming, searching,
//! splitting, ordering and the decimal form of numbers.
use vstd::prelude::*;
use vstd::string::*;
use vstd::utf8::*;

verus! {

/// `String::push` appends one character to the text.
pub assume_specification[ String::push ](s: &mut String, c: char)
    ensures
        final(s)@ == old(s)@.push(c),
;

// ---------------------------------------------------------------------------
// Characters and texts
// ---------------------------------------------------------------------------

/// The characters of `text`, in order.
pub fn to_chars(text: &str) -> (chars: Vec<char>)
    ensures
        chars@ == text@,
{
    let mut chars: Vec<char> = Vec::new();
    for c in iter: text.chars()
        invariant
            chars@ == iter.seq().take(iter.index() as int),
            iter.seq() == text@,
    {
        chars.push(c);
        proof {
            assert(chars@ =~= iter.seq().take(iter.index() + 1));
        }
    }
    assert(chars@ =~= text@);
    chars
}

/// The text made of `chars[from..to]`.
pub fn from_chars(chars: &[char], from: usize, to: usize) -> (text: String)
    requires
        from <= to <= chars@.len(),
    ensures
        text@ == chars@.subrange(from as int, to as int),
{
    let mut text = String::new();
    let mut i: usize = from;
    while i < to
        invariant
            from <= i <= to <= chars@.len(),
            text@ == chars@.subrange(from as int, i as int),
        decreases to - i,
    {
        text.push(chars[i]);
        proof {
            assert(chars@.subrange(from as int, i + 1) =~= chars@.subrange(from as int, i as int).push(
                chars@[i as int],
            ));
        }
        i += 1;
    }
    text
}

/// Whether two texts hold the same characters.
pub fn same(a: &str, b: &str) -> (result: bool)
    ensures
        result == (a@ == b@),
{
    broadcast use group_utf8_lib;

    let x = a.as_bytes();
    let y = b.as_bytes();
    if x.len() != y.len() {
        return false;
    }
    let mut i: usize = 0;
    while i < x.len()
        invariant
            x@ == encode_utf8(a@),
            y@ == encode_utf8(b@),
            x@.len() == y@.len(),
            i <= x@.len(),
            x@.take(i as int) == y@.take(i as int),
        decreases x@.len() - i,
    {
        if x[i] != y[i] {
            return false;
        }
        proof {
            assert(x@.take(i + 1) =~= x@.take(i as int).push(x@[i as int]));
            assert(y@.take(i + 1) =~= y@.take(i as int).push(y@[i as int]));
        }
        i += 1;
    }
    proof {
        assert(x@ =~= x@.take(i as int));
        assert(y@ =~= y@.take(i as int));
        assert(decode_utf8(x@) == a@);
        assert(decode_utf8(y@) == b@);
    }
    true
}

/// The texts `a` and `b`, one after the other.
pub fn join_two(a: &str, b: &str) -> (text: String)
    ensures
        text@ == a@ + b@,
{
    let mut text = a.to_owned();
    text.append(b);
    text
}

/// The texts `a`, `b` and `c`, one after the other.
pub fn join_three(a: &str, b: &str, c: &str) -> (text: String)
    ensures
        text@ == a@ + b@ + c@,
{
    let mut text = a.to_owned();
    text.append(b);
    text.append(c);
    text
}

// ---------------------------------------------------------------------------
// Character classes
// ---------------------------------------------------------------------------

/// The Unicode property White_Space.
pub open spec fn is_space(c: char) -> bool {
    let n = c as u32;
    ||| 9 <= n <= 13
    ||| n == 32
    ||| n == 0x85
    ||| n == 0xa0
    ||| n == 0x1680
    ||| 0x2000 <= n <= 0x200a
    ||| n == 0x2028
    ||| n == 0x2029
    ||| n == 0x202f
    ||| n == 0x205f
    ||| n == 0x3000
}

/// Whether `c` is white space.
pub fn is_white_space(c: char) -> (result: bool)
    ensures
        result == is_space(c),
{
    let n: u32 = c as u32;
    (9 <= n && n <= 13) || n == 32 || n == 0x85 || n == 0xa0 || n == 0x1680 || (0x2000 <= n && n
        <= 0x200a) || n == 0x2028 || n == 0x2029 || n == 0x202f || n == 0x205f || n == 0x3000
}

/// The Unicode general category Cc.
pub open spec fn is_control_char(c: char) -> bool {
    let n = c as u32;
    n < 32 || 0x7f <= n <= 0x9f
}

/// Whether `c` is a control character.
pub fn is_control(c: char) -> (result: bool)
    ensures
        result == is_control_char(c),
{
    let n: u32 = c as u32;
    n < 32 || (0x7f <= n && n <= 0x9f)
}

/// Whether `char::is_alphanumeric` holds of a character.
pub uninterp spec fn is_letter_or_digit(c: char) -> bool;

/// `char::is_alphanumeric`: whether a character is a letter or a number in the sense
/// of Unicode.
#[verifier::external_body]
pub(crate) fn is_alphanumeric(c: char) -> (result: bool)
    ensures
        result == is_letter_or_digit(c),
{
    c.is_alphanumeric()
}

/// The lower-case form of an ASCII letter; any other character stays as it is.
pub open spec fn lower_char(c: char) -> char {
    let n = c as u32;
    if 65 <= n <= 90 {
        ((n + 32) as u8) as char
    } else {
        c
    }
}

/// The ASCII lower-case form of a text.
pub open spec fn lower(s: Seq<char>) -> Seq<char> {
    s.map_values(|c: char| lower_char(c))
}

/// `text` with its ASCII letters in lower case.
pub fn to_lower(text: &str) -> (result: String)
    ensures
        result@ == lower(text@),
{
    let chars = to_chars(text);
    let mut result = String::new();
    let mut i: usize = 0;
    while i < chars.len()
        invariant
            chars@ == text@,
            i <= chars@.len(),
            result@ == lower(text@).take(i as int),
        decreases chars@.len() - i,
    {
        let c = chars[i];
        let n: u32 = c as u32;
        let d: char = if 65 <= n && n <= 90 {
            ((n + 32) as u8) as char
        } else {
            c
        };
        result.push(d);
        proof {
            assert(lower(text@).take(i + 1) =~= lower(text@).take(i as int).push(d));
        }
        i += 1;
    }
    assert(lower(text@).take(i as int) =~= lower(text@));
    result
}

// ---------------------------------------------------------------------------
// Trimming
// ---------------------------------------------------------------------------

/// `s` without its leading white space.
pub open spec fn trim_start(s: Seq<char>) -> Seq<char>
    decreases s.len(),
{
    if s.len() > 0 && is_space(s[0]) {
        trim_start(s.skip(1))
    } else {
        s
    }
}

/// `s` without its trailing white space.
pub open spec fn trim_end(s: Seq<char>) -> Seq<char>
    decreases s.len(),
{
    if s.len() > 0 && is_space(s.last()) {
        trim_end(s.drop_last())
    } else {
        s
    }
}

/// `s` without white space at either end.
pub open spec fn trim(s: Seq<char>) -> Seq<char> {
    trim_end(trim_start(s))
}

/// The index of the first character of `chars` at or behind `from` that is not
/// white space.
pub fn skip_space(chars: &[char], from: usize) -> (i: usize)
    requires
        from <= chars@.len(),
    ensures
        from <= i <= chars@.len(),
        trim_start(chars@.skip(from as int)) == chars@.skip(i as int),
        i < chars@.len() ==> !is_space(chars@[i as int]),
{
    let mut i: usize = from;
    while i < chars.len() && is_white_space(chars[i])
        invariant
            from <= i <= chars@.len(),
            trim_start(chars@.skip(from as int)) == trim_start(chars@.skip(i as int)),
        decreases chars@.len() - i,
    {
        proof {
            assert(chars@.skip(i as int).skip(1) =~= chars@.skip(i + 1));
        }
        i += 1;
    }
    i
}

/// The end of `chars[from..]` without its trailing white space.
pub fn trimmed_end(chars: &[char], from: usize) -> (i: usize)
    requires
        from <= chars@.len(),
    ensures
        from <= i <= chars@.len(),
        trim_end(chars@.skip(from as int)) == chars@.subrange(from as int, i as int),
{
    let mut i: usize = chars.len();
    assert(chars@.skip(from as int) =~= chars@.subrange(from as int, i as int));
    while i > from && is_white_space(chars[i - 1])
        invariant
            from <= i <= chars@.len(),
            trim_end(chars@.skip(from as int)) == trim_end(chars@.subrange(from as int, i as int)),
        decreases i,
    {
        proof {
            assert(chars@.subrange(from as int, i as int).drop_last() =~= chars@.subrange(
                from as int,
                i - 1,
            ));
        }
        i -= 1;
    }
    i
}

/// `text` without white space at either end.
pub fn trimmed(text: &str) -> (result: String)
    ensures
        result@ == trim(text@),
{
    let chars = to_chars(text);
    let from: usize = skip_space(&chars, 0);
    assert(chars@.skip(0) =~= chars@);
    let to: usize = trimmed_end(&chars, from);
    from_chars(&chars, from, to)
}

/// `s` without the trailing characters equal to `c`.
pub open spec fn trim_end_char(s: Seq<char>, c: char) -> Seq<char>
    decreases s.len(),
{
    if s.len() > 0 && s.last() == c {
        trim_end_char(s.drop_last(), c)
    } else {
        s
    }
}

/// `text` without the trailing characters equal to `c`.
pub fn without_trailing(text: &str, c: char) -> (result: String)
    ensures
        result@ == trim_end_char(text@, c),
{
    let chars = to_chars(text);
    let mut i: usize = chars.len();
    assert(chars@ =~= chars@.take(i as int));
    while i > 0 && chars[i - 1] == c
        invariant
            i <= chars@.len(),
            chars@ == text@,
            trim_end_char(text@, c) == trim_end_char(chars@.take(i as int), c),
        decreases i,
    {
        proof {
            assert(chars@.take(i as int).drop_last() =~= chars@.take(i - 1));
        }
        i -= 1;
    }
    from_chars(&chars, 0, i)
}

/// `s` without the leading characters that `cut` holds of.
pub open spec fn trim_start_by(s: Seq<char>, cut: spec_fn(char) -> bool) -> Seq<char>
    decreases s.len(),
{
    if s.len() > 0 && cut(s[0]) {
        trim_start_by(s.skip(1), cut)
    } else {
        s
    }
}

/// `s` without the trailing characters that `cut` holds of.
pub open spec fn trim_end_by(s: Seq<char>, cut: spec_fn(char) -> bool) -> Seq<char>
    decreases s.len(),
{
    if s.len() > 0 && cut(s.last()) {
        trim_end_by(s.drop_last(), cut)
    } else {
        s
    }
}

/// `s` without the characters at either end that `cut` holds of.
pub open spec fn trim_by(s: Seq<char>, cut: spec_fn(char) -> bool) -> Seq<char> {
    trim_end_by(trim_start_by(s, cut), cut)
}

/// `text` without the characters at either end that `cut` holds of.
pub(crate) fn trimmed_by<F: Fn(char) -> bool>(
    text: &str,
    cut: F,
    Ghost(rule): Ghost<spec_fn(char) -> bool>,
) -> (result: String)
    requires
        forall|c: char| #[trigger] cut.requires((c,)),
        forall|c: char, r: bool| #[trigger] cut.ensures((c,), r) ==> r == rule(c),
    ensures
        result@ == trim_by(text@, rule),
{
    let chars = to_chars(text);
    let mut from: usize = 0;
    let mut going = true;
    assert(chars@.skip(0) =~= chars@);
    while going && from < chars.len()
        invariant
            forall|c: char| #[trigger] cut.requires((c,)),
            forall|c: char, r: bool| #[trigger] cut.ensures((c,), r) ==> r == rule(c),
            chars@ == text@,
            from <= chars@.len(),
            trim_start_by(text@, rule) == trim_start_by(chars@.skip(from as int), rule),
            !going ==> from < chars@.len() && !rule(chars@[from as int]),
        decreases chars@.len() - from, going as int,
    {
        if cut(chars[from]) {
            proof {
                assert(chars@.skip(from as int).skip(1) =~= chars@.skip(from + 1));
            }
            from += 1;
        } else {
            going = false;
        }
    }
    let ghost start = trim_start_by(text@, rule);
    assert(start == chars@.skip(from as int));
    let mut to: usize = chars.len();
    assert(start =~= chars@.subrange(from as int, to as int));
    going = true;
    while going && to > from
        invariant
            forall|c: char| #[trigger] cut.requires((c,)),
            forall|c: char, r: bool| #[trigger] cut.ensures((c,), r) ==> r == rule(c),
            from <= to <= chars@.len(),
            trim_end_by(start, rule) == trim_end_by(
                chars@.subrange(from as int, to as int),
                rule,
            ),
            !going ==> to > from && !rule(chars@[to - 1]),
        decreases to, going as int,
    {
        if cut(chars[to - 1]) {
            proof {
                assert(chars@.subrange(from as int, to as int).drop_last() =~= chars@.subrange(
                    from as int,
                    to - 1,
                ));
            }
            to -= 1;
        } else {
            going = false;
        }
    }
    from_chars(&chars, from, to)
}

/// The first `n` characters of `text`, or all of it.
pub fn first_chars(text: &str, n: usize) -> (result: String)
    ensures
        result@ == if n < text@.len() {
            text@.take(n as int)
        } else {
            text@
        },
{
    let chars = to_chars(text);
    let end: usize = if n < chars.len() {
        n
    } else {
        chars.len()
    };
    proof {
        assert(chars@.subrange(0, end as int) =~= chars@.take(end as int));
        assert(chars@.take(chars@.len() as int) =~= chars@);
    }
    from_chars(&chars, 0, end)
}

/// Trimming leaves no white space at either end.
pub proof fn trim_is_tight(s: Seq<char>)
    ensures
        trim(s).len() > 0 ==> !is_space(trim(s)[0]) && !is_space(trim(s).last()),
        trim(s).len() <= s.len(),
        trim(trim(s)) == trim(s),
{
    trim_start_tight(s);
    trim_end_tight(trim_start(s));
    trim_start_of_tight(trim(s));
}

proof fn trim_start_tight(s: Seq<char>)
    ensures
        trim_start(s).len() > 0 ==> !is_space(trim_start(s)[0]),
        trim_start(s).len() <= s.len(),
    decreases s.len(),
{
    if s.len() > 0 && is_space(s[0]) {
        trim_start_tight(s.skip(1));
    }
}

proof fn trim_end_tight(s: Seq<char>)
    ensures
        trim_end(s).len() > 0 ==> !is_space(trim_end(s).last()),
        trim_end(s).len() > 0 ==> trim_end(s)[0] == s[0],
        trim_end(s).len() <= s.len(),
        trim_end(trim_end(s)) == trim_end(s),
    decreases s.len(),
{
    if s.len() > 0 && is_space(s.last()) {
        trim_end_tight(s.drop_last());
    }
}

proof fn trim_start_of_tight(s: Seq<char>)
    ensures
        s.len() > 0 && !is_space(s[0]) ==> trim_start(s) == s,
        s.len() == 0 ==> trim_start(s) == s,
{
}

// ---------------------------------------------------------------------------
// Searching
// ---------------------------------------------------------------------------

/// Whether `pattern` stands in `s` at index `i`.
pub open spec fn occurs_at(s: Seq<char>, pattern: Seq<char>, i: int) -> bool {
    0 <= i && i + pattern.len() <= s.len() && s.subrange(i, i + pattern.len()) == pattern
}

/// Whether `s` begins with `pattern`.
pub open spec fn has_prefix(s: Seq<char>, pattern: Seq<char>) -> bool {
    occurs_at(s, pattern, 0)
}

/// Whether `s` ends with `pattern`.
pub open spec fn has_suffix(s: Seq<char>, pattern: Seq<char>) -> bool {
    occurs_at(s, pattern, s.len() - pattern.len())
}

/// Whether `pattern` stands anywhere in `s`.
pub open spec fn has_text(s: Seq<char>, pattern: Seq<char>) -> bool {
    exists|i: int| occurs_at(s, pattern, i)
}

/// The first index at or behind `from` where `pattern` stands in `s`, or `-1`.
pub open spec fn find_from(s: Seq<char>, pattern: Seq<char>, from: int) -> int
    decreases s.len() + 1 - from,
{
    if from < 0 || from > s.len() {
        -1
    } else if occurs_at(s, pattern, from) {
        from
    } else {
        find_from(s, pattern, from + 1)
    }
}

/// What `find_from` gives is the first place, and `-1` only where there is none.
pub proof fn find_from_is_first(s: Seq<char>, pattern: Seq<char>, from: int)
    requires
        0 <= from,
    ensures
        ({
            let r = find_from(s, pattern, from);
            &&& r == -1 || (from <= r && occurs_at(s, pattern, r))
            &&& r == -1 ==> forall|i: int| from <= i ==> !occurs_at(s, pattern, i)
            &&& r != -1 ==> forall|i: int| from <= i < r ==> !occurs_at(s, pattern, i)
        }),
    decreases s.len() + 1 - from,
{
    if from > s.len() || occurs_at(s, pattern, from) {
    } else {
        find_from_is_first(s, pattern, from + 1);
        let r = find_from(s, pattern, from + 1);
        assert forall|i: int| from <= i && (r == -1 || i < r) implies !occurs_at(s, pattern, i) by {
            if i > from {
            }
        }
    }
}

/// Whether `pattern` stands in `chars` at index `i`.
pub fn stands_at(chars: &[char], pattern: &[char], i: usize) -> (result: bool)
    ensures
        result == occurs_at(chars@, pattern@, i as int),
{
    if i > chars.len() || pattern.len() > chars.len() - i {
        return false;
    }
    let n: usize = chars.len();
    let mut j: usize = 0;
    while j < pattern.len()
        invariant
            n == chars@.len(),
            i + pattern@.len() <= n,
            j <= pattern@.len(),
            forall|k: int| 0 <= k < j ==> chars@[i + k] == pattern@[k],
        decreases pattern@.len() - j,
    {
        if chars[i + j] != pattern[j] {
            proof {
                assert(chars@.subrange(i as int, i + pattern@.len())[j as int] != pattern@[j as int]);
            }
            return false;
        }
        j += 1;
    }
    assert(chars@.subrange(i as int, i + pattern@.len()) =~= pattern@);
    true
}

/// The first index at or behind `from` where `pattern` stands in `chars`.
pub fn find_chars(chars: &[char], pattern: &[char], from: usize) -> (result: Option<usize>)
    requires
        from <= chars@.len(),
    ensures
        match result {
            Some(i) => find_from(chars@, pattern@, from as int) == i && from <= i && i + pattern@.len()
                <= chars@.len(),
            None => find_from(chars@, pattern@, from as int) == -1,
        },
{
    let mut i: usize = from;
    while i < chars.len()
        invariant
            from <= i <= chars@.len(),
            find_from(chars@, pattern@, from as int) == find_from(chars@, pattern@, i as int),
        decreases chars@.len() - i,
    {
        if stands_at(chars, pattern, i) {
            return Some(i);
        }
        i += 1;
    }
    if stands_at(chars, pattern, i) {
        return Some(i);
    }
    assert(find_from(chars@, pattern@, i + 1) == -1);
    None
}

/// Whether `text` begins with `pattern`.
pub fn begins_with(text: &str, pattern: &str) -> (result: bool)
    ensures
        result == has_prefix(text@, pattern@),
{
    let a = to_chars(text);
    let b = to_chars(pattern);
    stands_at(&a, &b, 0)
}

/// Whether `text` ends with `pattern`.
pub fn ends_with(text: &str, pattern: &str) -> (result: bool)
    ensures
        result == has_suffix(text@, pattern@),
{
    let a = to_chars(text);
    let b = to_chars(pattern);
    if b.len() > a.len() {
        return false;
    }
    stands_at(&a, &b, a.len() - b.len())
}

/// Whether `pattern` stands anywhere in `text`.
pub fn contains(text: &str, pattern: &str) -> (result: bool)
    ensures
        result == has_text(text@, pattern@),
{
    let a = to_chars(text);
    let b = to_chars(pattern);
    proof {
        find_from_is_first(text@, pattern@, 0);
    }
    match find_chars(&a, &b, 0) {
        Some(_) => true,
        None => {
            assert forall|i: int| !occurs_at(text@, pattern@, i) by {
                if i >= 0 {
                }
            }
            false
        },
    }
}

/// Whether the character `c` occurs in `text`.
pub fn contains_char(text: &str, c: char) -> (result: bool)
    ensures
        result == text@.contains(c),
{
    let chars = to_chars(text);
    let mut i: usize = 0;
    while i < chars.len()
        invariant
            chars@ == text@,
            i <= chars@.len(),
            forall|k: int| 0 <= k < i ==> chars@[k] != c,
        decreases chars@.len() - i,
    {
        if chars[i] == c {
            return true;
        }
        i += 1;
    }
    false
}

/// `text` without `prefix`, where it begins with it.
pub fn strip_prefix(text: &str, prefix: &str) -> (result: Option<String>)
    ensures
        match result {
            Some(rest) => has_prefix(text@, prefix@) && rest@ == text@.skip(prefix@.len() as int),
            None => !has_prefix(text@, prefix@),
        },
{
    let a = to_chars(text);
    let b = to_chars(prefix);
    if stands_at(&a, &b, 0) {
        assert(a@.skip(b@.len() as int) =~= a@.subrange(b@.len() as int, a@.len() as int));
        Some(from_chars(&a, b.len(), a.len()))
    } else {
        None
    }
}

/// Whether a text is among others.
pub fn holds(texts: &Vec<String>, item: &str) -> (result: bool)
    ensures
        result == texts.deep_view().contains(item@),
{
    let ghost all = texts.deep_view();
    let mut i: usize = 0;
    while i < texts.len()
        invariant
            all == texts.deep_view(),
            i <= texts@.len(),
            forall|k: int| 0 <= k < i ==> all[k] != item@,
        decreases texts@.len() - i,
    {
        assert(all[i as int] == texts@[i as int]@);
        if same(texts[i].as_str(), item) {
            return true;
        }
        i += 1;
    }
    false
}

// ---------------------------------------------------------------------------
// Splitting
// ---------------------------------------------------------------------------

/// The first index at or behind `from` that holds `c`; the length where none does.
pub open spec fn index_of(s: Seq<char>, c: char, from: int) -> int
    decreases s.len() - from,
{
    if from >= s.len() {
        s.len() as int
    } else if s[from] == c {
        from
    } else {
        index_of(s, c, from + 1)
    }
}

/// The first index at or behind `from` that holds `c`; the length where none does.
pub fn next_index(chars: &[char], c: char, from: usize) -> (i: usize)
    requires
        from <= chars@.len(),
    ensures
        i == index_of(chars@, c, from as int),
        from <= i <= chars@.len(),
        i < chars@.len() ==> chars@[i as int] == c,
{
    let mut i: usize = from;
    while i < chars.len() && chars[i] != c
        invariant
            from <= i <= chars@.len(),
            index_of(chars@, c, from as int) == index_of(chars@, c, i as int),
        decreases chars@.len() - i,
    {
        i += 1;
    }
    i
}

/// A line that a line feed ended, without a carriage return before that.
pub open spec fn strip_return(line: Seq<char>) -> Seq<char> {
    if line.len() > 0 && line.last() == '\r' {
        line.drop_last()
    } else {
        line
    }
}

/// The lines of `s` from index `from` on. A line feed, with a carriage return
/// before it or without, ends a line; the last line need not be ended.
pub open spec fn lines_from(s: Seq<char>, from: int) -> Seq<Seq<char>>
    decreases s.len() - from,
{
    if from < 0 || from >= s.len() {
        Seq::empty()
    } else {
        let end = index_of(s, '\n', from);
        if end < from || end >= s.len() {
            seq![s.skip(from)]
        } else {
            seq![strip_return(s.subrange(from, end))] + lines_from(s, end + 1)
        }
    }
}

/// The lines of `s`.
pub open spec fn lines(s: Seq<char>) -> Seq<Seq<char>> {
    lines_from(s, 0)
}

/// The lines of `text`.
pub fn split_lines(text: &str) -> (result: Vec<String>)
    ensures
        result.deep_view() == lines(text@),
{
    let chars = to_chars(text);
    let mut result: Vec<String> = Vec::new();
    let mut from: usize = 0;
    assert(result.deep_view() + lines_from(text@, 0) =~= lines(text@));
    while from < chars.len()
        invariant
            chars@ == text@,
            from <= chars@.len(),
            result.deep_view() + lines_from(text@, from as int) == lines(text@),
        decreases chars@.len() - from,
    {
        let end: usize = next_index(&chars, '\n', from);
        let ghost before = result.deep_view();
        if end >= chars.len() {
            let line = from_chars(&chars, from, end);
            result.push(line);
            proof {
                assert(text@.subrange(from as int, end as int) =~= text@.skip(from as int));
                assert(result.deep_view() =~= before.push(text@.skip(from as int)));
                assert(lines_from(text@, end as int) =~= Seq::<Seq<char>>::empty());
                assert(before + lines_from(text@, from as int) =~= result.deep_view() + lines_from(
                    text@,
                    end as int,
                ));
            }
            from = end;
        } else {
            let stop: usize = if end > from && chars[end - 1] == '\r' {
                end - 1
            } else {
                end
            };
            let line = from_chars(&chars, from, stop);
            result.push(line);
            proof {
                let raw = text@.subrange(from as int, end as int);
                if end > from && chars@[end - 1] == '\r' {
                    assert(raw.last() == '\r');
                    assert(raw.drop_last() =~= text@.subrange(from as int, stop as int));
                } else if end > from {
                    assert(raw.last() == chars@[end - 1]);
                }
                assert(line@ == strip_return(raw));
                assert(result.deep_view() =~= before.push(strip_return(raw)));
                assert(before + lines_from(text@, from as int) =~= result.deep_view() + lines_from(
                    text@,
                    end + 1,
                ));
            }
            from = end + 1;
        }
    }
    assert(lines_from(text@, from as int) =~= Seq::<Seq<char>>::empty());
    assert(result.deep_view() =~= lines(text@));
    result
}

/// The length of the leading run of characters of `s` that are not white space.
pub open spec fn word_len(s: Seq<char>) -> nat
    decreases s.len(),
{
    if s.len() > 0 && !is_space(s[0]) {
        1 + word_len(s.skip(1))
    } else {
        0
    }
}

/// The maximal runs of characters of `s` that are not white space, in order.
pub open spec fn words(s: Seq<char>) -> Seq<Seq<char>>
    decreases s.len(),
{
    let t = trim_start(s);
    let n = word_len(t);
    if n == 0 || n > t.len() || t.len() > s.len() {
        Seq::empty()
    } else {
        seq![t.take(n as int)] + words(t.skip(n as int))
    }
}

/// The words of `text`, in order.
pub fn split_words(text: &str) -> (result: Vec<String>)
    ensures
        result.deep_view() == words(text@),
{
    let chars = to_chars(text);
    let mut result: Vec<String> = Vec::new();
    let mut from: usize = skip_space(&chars, 0);
    proof {
        assert(chars@.skip(0) =~= chars@);
        trim_start_tight(text@);
        trim_start_of_tight(trim_start(text@));
        assert(words(trim_start(text@)) == words(text@)) by {
            trim_start_of_tight(trim_start(text@));
        }
        assert(result.deep_view() + words(chars@.skip(from as int)) =~= words(text@));
    }
    while from < chars.len()
        invariant
            chars@ == text@,
            from <= chars@.len(),
            from < chars@.len() ==> !is_space(chars@[from as int]),
            result.deep_view() + words(chars@.skip(from as int)) == words(text@),
        decreases chars@.len() - from,
    {
        let mut end: usize = from;
        let ghost rest = chars@.skip(from as int);
        while end < chars.len() && !is_white_space(chars[end])
            invariant
                chars@ == text@,
                from <= end <= chars@.len(),
                rest == chars@.skip(from as int),
                word_len(rest) == (end - from) + word_len(chars@.skip(end as int)),
            decreases chars@.len() - end,
        {
            proof {
                assert(chars@.skip(end as int).skip(1) =~= chars@.skip(end + 1));
            }
            end += 1;
        }
        let ghost before = result.deep_view();
        let word = from_chars(&chars, from, end);
        result.push(word);
        let next: usize = skip_space(&chars, end);
        proof {
            assert(word_len(rest) == end - from);
            assert(!is_space(rest[0]));
            trim_start_of_tight(rest);
            assert(trim_start(rest) == rest);
            if end == from {
                assert(word_len(rest) >= 1);
            }
            assert(rest.take(end - from) =~= chars@.subrange(from as int, end as int));
            assert(rest.skip(end - from) =~= chars@.skip(end as int));
            let tail = chars@.skip(end as int);
            trim_start_tight(tail);
            trim_start_of_tight(trim_start(tail));
            assert(words(trim_start(tail)) == words(tail));
            assert(words(rest) == seq![word@] + words(tail));
            assert(result.deep_view() =~= before.push(word@));
            assert(before + words(rest) =~= result.deep_view() + words(tail));
        }
        from = next;
    }
    proof {
        assert(chars@.skip(from as int).len() == 0);
        assert(words(chars@.skip(from as int)) =~= Seq::<Seq<char>>::empty());
        assert(result.deep_view() =~= words(text@));
    }
    result
}

/// The parts, with `separator` between neighbours.
pub open spec fn join(parts: Seq<Seq<char>>, separator: Seq<char>) -> Seq<char>
    decreases parts.len(),
{
    if parts.len() == 0 {
        Seq::empty()
    } else if parts.len() == 1 {
        parts[0]
    } else {
        join(parts.drop_last(), separator) + separator + parts.last()
    }
}

/// The parts, with `separator` between neighbours.
pub fn join_all(parts: &Vec<String>, separator: &str) -> (result: String)
    ensures
        result@ == join(parts.deep_view(), separator@),
{
    let mut result = String::new();
    let mut i: usize = 0;
    let ghost all = parts.deep_view();
    while i < parts.len()
        invariant
            all == parts.deep_view(),
            i <= parts@.len(),
            result@ == join(all.take(i as int), separator@),
        decreases parts@.len() - i,
    {
        if i > 0 {
            result.append(separator);
        }
        result.append(parts[i].as_str());
        proof {
            assert(all.take(i + 1).drop_last() =~= all.take(i as int));
            assert(all.take(i + 1).last() == parts@[i as int]@);
            assert(result@ =~= join(all.take(i + 1), separator@));
        }
        i += 1;
    }
    assert(all.take(i as int) =~= all);
    result
}

// ---------------------------------------------------------------------------
// Order
// ---------------------------------------------------------------------------

/// The order of texts by their characters, which is also that of their UTF-8 bytes.
pub open spec fn less(a: Seq<char>, b: Seq<char>) -> bool
    decreases a.len(),
{
    if b.len() == 0 {
        false
    } else if a.len() == 0 {
        true
    } else if a[0] != b[0] {
        (a[0] as u32) < (b[0] as u32)
    } else {
        less(a.skip(1), b.skip(1))
    }
}

/// Whether `a` comes before `b` in the order of texts.
pub fn is_less(a: &str, b: &str) -> (result: bool)
    ensures
        result == less(a@, b@),
{
    let x = to_chars(a);
    let y = to_chars(b);
    let mut i: usize = 0;
    proof {
        assert(x@.skip(0) =~= x@);
        assert(y@.skip(0) =~= y@);
    }
    while i < x.len() && i < y.len() && x[i] == y[i]
        invariant
            i <= x@.len(),
            i <= y@.len(),
            less(x@, y@) == less(x@.skip(i as int), y@.skip(i as int)),
        decreases x@.len() - i,
    {
        proof {
            assert(x@.skip(i as int).skip(1) =~= x@.skip(i + 1));
            assert(y@.skip(i as int).skip(1) =~= y@.skip(i + 1));
        }
        i += 1;
    }
    if i >= y.len() {
        false
    } else if i >= x.len() {
        true
    } else {
        (x[i] as u32) < (y[i] as u32)
    }
}

/// The order of texts is strict and total.
pub proof fn less_is_total(a: Seq<char>, b: Seq<char>)
    ensures
        !less(a, a),
        a == b || less(a, b) || less(b, a),
        !(less(a, b) && less(b, a)),
    decreases a.len(),
{
    if a.len() > 0 {
        less_irreflexive(a);
    }
    if a.len() == 0 && b.len() == 0 {
        assert(a =~= b);
    }
    if a.len() > 0 && b.len() > 0 {
        char_u32_cast(a[0], a[0] as u32);
        char_u32_cast(b[0], b[0] as u32);
    }
    if a.len() > 0 && b.len() > 0 && a[0] == b[0] {
        less_is_total(a.skip(1), b.skip(1));
        if a.skip(1) == b.skip(1) {
            assert(a =~= seq![a[0]] + a.skip(1));
            assert(b =~= seq![b[0]] + b.skip(1));
        }
    }
}

proof fn less_irreflexive(a: Seq<char>)
    ensures
        !less(a, a),
    decreases a.len(),
{
    if a.len() > 0 {
        less_irreflexive(a.skip(1));
    }
}

/// The order of texts is transitive.
pub proof fn less_is_transitive(a: Seq<char>, b: Seq<char>, c: Seq<char>)
    requires
        less(a, b),
        less(b, c),
    ensures
        less(a, c),
    decreases a.len(),
{
    if a.len() > 0 && b.len() > 0 && c.len() > 0 && a[0] == b[0] && b[0] == c[0] {
        less_is_transitive(a.skip(1), b.skip(1), c.skip(1));
    }
}

// ---------------------------------------------------------------------------
// Numbers
// ---------------------------------------------------------------------------

/// The decimal digit for `d`.
pub open spec fn digit(d: nat) -> char {
    ((48 + d) as u8) as char
}

/// The decimal form of `n`, without leading zeros.
pub open spec fn digits(n: nat) -> Seq<char>
    decreases n,
{
    if n < 10 {
        seq![digit(n)]
    } else {
        digits(n / 10).push(digit(n % 10))
    }
}

/// A power of ten.
pub open spec fn power_of_ten(k: nat) -> nat
    decreases k,
{
    if k == 0 {
        1
    } else {
        10 * power_of_ten((k - 1) as nat)
    }
}

/// A number below a power of ten has no more digits than that, and they are ASCII.
pub proof fn digits_size(n: nat, k: nat)
    requires
        n < power_of_ten(k),
        k > 0,
    ensures
        1 <= digits(n).len() <= k,
        is_ascii_chars(digits(n)),
    decreases k,
{
    if n >= 10 {
        assert(k > 1) by {
            reveal_with_fuel(power_of_ten, 2);
        }
        assert(n / 10 < power_of_ten((k - 1) as nat));
        digits_size(n / 10, (k - 1) as nat);
        let rest = digits(n / 10);
        assert forall|i: int| 0 <= i < digits(n).len() implies '\0' <= #[trigger] digits(n)[i]
            <= '\u{7f}' by {
            if i < rest.len() {
                assert(digits(n)[i] == rest[i]);
            }
        }
    }
}

/// The decimal form of `n`.
pub fn decimal(n: u64) -> (text: String)
    ensures
        text@ == digits(n as nat),
    decreases n,
{
    let mut text = String::new();
    if n >= 10 {
        text = decimal(n / 10);
    }
    let d: u8 = (n % 10) as u8;
    text.push((48 + d) as char);
    proof {
        if n < 10 {
            assert(text@ =~= seq![digit(n as nat)]);
        }
    }
    text
}

/// The decimal form of a wide number.
pub fn decimal_wide(n: u128) -> (text: String)
    ensures
        text@ == digits(n as nat),
    decreases n,
{
    let mut text = String::new();
    if n >= 10 {
        text = decimal_wide(n / 10);
    }
    let d: u8 = (n % 10) as u8;
    text.push((48 + d) as char);
    proof {
        if n < 10 {
            assert(text@ =~= seq![digit(n as nat)]);
        }
    }
    text
}

/// Whether `c` is an ASCII digit.
pub open spec fn is_digit(c: char) -> bool {
    48 <= c as u32 <= 57
}

/// The number that a sequence of ASCII digits writes.
pub open spec fn value(s: Seq<char>) -> nat
    decreases s.len(),
{
    if s.len() == 0 {
        0
    } else {
        value(s.drop_last()) * 10 + (s.last() as u32 - 48) as nat
    }
}

/// The decimal form of a number writes that number.
pub proof fn digits_value(n: nat)
    ensures
        value(digits(n)) == n,
        digits(n).len() > 0,
    decreases n,
{
    if n >= 10 {
        digits_value(n / 10);
        assert(digits(n).drop_last() =~= digits(n / 10));
        assert(digits(n).last() == digit(n % 10));
        digit_value(n % 10);
    } else {
        assert(digits(n).drop_last() =~= Seq::<char>::empty());
        assert(value(Seq::<char>::empty()) == 0);
        assert(digits(n).last() == digit(n));
        digit_value(n);
    }
}

proof fn digit_value(d: nat)
    requires
        d < 10,
    ensures
        digit(d) as u32 == 48 + d,
{
}

/// The digits of a number, behind an optional plus sign.
pub open spec fn unsigned_digits(s: Seq<char>) -> Seq<char> {
    if s.len() > 0 && s[0] == '+' {
        s.skip(1)
    } else {
        s
    }
}

/// The unsigned 64-bit number that `s` writes, if it writes one.
pub open spec fn unsigned(s: Seq<char>) -> Option<u64> {
    let d = unsigned_digits(s);
    if d.len() > 0 && (forall|i: int| 0 <= i < d.len() ==> is_digit(#[trigger] d[i])) && value(d)
        <= u64::MAX {
        Some(value(d) as u64)
    } else {
        None
    }
}

proof fn value_grows(s: Seq<char>, i: int)
    requires
        0 <= i <= s.len(),
        forall|k: int| 0 <= k < s.len() ==> is_digit(#[trigger] s[k]),
    ensures
        value(s.take(i)) <= value(s),
    decreases s.len() - i,
{
    if i < s.len() {
        assert(s.take(i + 1).drop_last() =~= s.take(i));
        assert(s.take(i + 1).last() == s[i]);
        value_grows(s, i + 1);
    } else {
        assert(s.take(i) =~= s);
    }
}

proof fn value_step(s: Seq<char>, i: int)
    requires
        0 <= i < s.len(),
        forall|k: int| 0 <= k < s.len() ==> is_digit(#[trigger] s[k]),
    ensures
        value(s.take(i + 1)) == value(s.take(i)) * 10 + (s[i] as u32 - 48),
        value(s.take(i + 1)) <= value(s),
        48 <= s[i] as u32 <= 57,
{
    assert(s.take(i + 1).drop_last() =~= s.take(i));
    assert(s.take(i + 1).last() == s[i]);
    assert(is_digit(s[i]));
    value_grows(s, i + 1);
}

/// The unsigned 64-bit number that `text` writes, if it writes one.
pub fn parse_unsigned(text: &str) -> (result: Option<u64>)
    ensures
        result == unsigned(text@),
{
    let chars = to_chars(text);
    let from: usize = if chars.len() > 0 && chars[0] == '+' {
        1
    } else {
        0
    };
    let ghost d = unsigned_digits(text@);
    assert(d =~= chars@.skip(from as int));
    if from >= chars.len() {
        return None;
    }
    let mut i: usize = from;
    while i < chars.len()
        invariant
            chars@ == text@,
            from <= i <= chars@.len(),
            d == chars@.skip(from as int),
            d == unsigned_digits(text@),
            forall|k: int| from <= k < i ==> is_digit(#[trigger] chars@[k]),
        decreases chars@.len() - i,
    {
        let n: u32 = chars[i] as u32;
        if n < 48 || n > 57 {
            assert(d[i - from] == chars@[i as int]);
            assert(!is_digit(d[i - from]));
            return None;
        }
        i += 1;
    }
    assert forall|k: int| 0 <= k < d.len() implies is_digit(#[trigger] d[k]) by {
        assert(d[k] == chars@[from + k]);
    }
    let mut total: u64 = 0;
    i = from;
    while i < chars.len()
        invariant
            chars@ == text@,
            from <= i <= chars@.len(),
            d == chars@.skip(from as int),
            d == unsigned_digits(text@),
            forall|k: int| 0 <= k < d.len() ==> is_digit(#[trigger] d[k]),
            total == value(d.take(i - from)),
        decreases chars@.len() - i,
    {
        proof {
            assert(d[i - from] == chars@[i as int]);
            value_step(d, i - from);
        }
        let add_digit: u64 = (chars[i] as u32 - 48) as u64;
        match total.checked_mul(10) {
            Some(t) => match t.checked_add(add_digit) {
                Some(u) => {
                    total = u;
                },
                None => {
                    return None;
                },
            },
            None => {
                return None;
            },
        }
        i += 1;
    }
    assert(d.take(i - from) =~= d);
    Some(total)
}

// ---------------------------------------------------------------------------
// UTF-8
// ---------------------------------------------------------------------------

/// The UTF-8 form of two texts, one after the other, is that of the first
/// followed by that of the second.
pub proof fn encode_concat(a: Seq<char>, b: Seq<char>)
    ensures
        encode_utf8(a + b) == encode_utf8(a) + encode_utf8(b),
    decreases a.len(),
{
    if a.len() == 0 {
        assert(a + b =~= b);
        assert(encode_utf8(a) + encode_utf8(b) =~= encode_utf8(b));
    } else {
        assert((a + b).drop_first() =~= a.drop_first() + b);
        encode_concat(a.drop_first(), b);
        assert(encode_utf8(a + b) =~= encode_utf8(a) + encode_utf8(b));
    }
}

/// The greatest character boundary of `bytes` that is not behind `index`.
pub open spec fn is_floor(bytes: Seq<u8>, index: int, r: int) -> bool {
    &&& 0 <= r <= index
    &&& r <= bytes.len()
    &&& is_char_boundary(bytes, r)
    &&& forall|j: int| r < j <= index && j <= bytes.len() ==> !is_char_boundary(bytes, j)
}

/// The greatest character boundary of `text` that is not behind the byte `index`.
pub fn floor_char_boundary(text: &str, index: usize) -> (r: usize)
    ensures
        is_floor(encode_utf8(text@), index as int, r as int),
{
    broadcast use group_utf8_lib;

    let len: usize = text.as_bytes().len();
    let mut r: usize = if index < len {
        index
    } else {
        len
    };
    proof {
        is_char_boundary_start_end_of_seq(encode_utf8(text@));
    }
    while !text.is_char_boundary(r)
        invariant
            len == encode_utf8(text@).len(),
            r <= index,
            r <= len,
            is_char_boundary(encode_utf8(text@), 0),
            forall|j: int| r < j <= index && j <= len ==> !is_char_boundary(encode_utf8(text@), j),
        decreases r,
    {
        r -= 1;
    }
    r
}

/// The text of the bytes before the character boundary `at`.
pub fn bytes_before(text: &str, at: usize) -> (result: String)
    requires
        is_char_boundary(encode_utf8(text@), at as int),
    ensures
        encode_utf8(result@) == encode_utf8(text@).subrange(0, at as int),
{
    text.split_at(at).0.to_owned()
}

/// The text of the bytes from the character boundary `at` on.
pub fn bytes_from(text: &str, at: usize) -> (result: String)
    requires
        is_char_boundary(encode_utf8(text@), at as int),
    ensures
        encode_utf8(result@) == encode_utf8(text@).skip(at as int),
{
    let result = text.split_at(at).1.to_owned();
    proof {
        encode_utf8_valid_utf8(text@);
        is_char_boundary_within(encode_utf8(text@), at as int);
        let bytes = encode_utf8(text@);
        assert(bytes.skip(at as int) =~= bytes.subrange(at as int, bytes.len() as int));
    }
    result
}

/// A character boundary lies inside the bytes.
pub proof fn is_char_boundary_within(bytes: Seq<u8>, index: int)
    requires
        valid_utf8(bytes),
        is_char_boundary(bytes, index),
    ensures
        0 <= index <= bytes.len(),
    decreases bytes.len(),
{
}

/// The number of bytes of `text`.
pub fn byte_len(text: &str) -> (n: usize)
    ensures
        n == encode_utf8(text@).len(),
{
    text.as_bytes().len()
}

/// The greatest character boundary of `bytes` that is not behind `index`.
pub open spec fn floor_of(bytes: Seq<u8>, index: int) -> int
    decreases index,
{
    if index <= 0 {
        0
    } else if index >= bytes.len() {
        bytes.len() as int
    } else if is_char_boundary(bytes, index) {
        index
    } else {
        floor_of(bytes, index - 1)
    }
}

/// There is one greatest boundary.
pub proof fn floor_is_floor(bytes: Seq<u8>, index: int, r: int)
    requires
        valid_utf8(bytes),
        is_floor(bytes, index, r),
    ensures
        floor_of(bytes, index) == r,
    decreases index,
{
    is_char_boundary_start_end_of_seq(bytes);
    if index <= 0 {
    } else if index >= bytes.len() {
        if r < bytes.len() {
            assert(!is_char_boundary(bytes, bytes.len() as int));
        }
    } else if is_char_boundary(bytes, index) {
        if r < index {
            assert(!is_char_boundary(bytes, index));
        }
    } else {
        if r == index {
            assert(false);
        }
        assert(is_floor(bytes, index - 1, r));
        floor_is_floor(bytes, index - 1, r);
    }
}

/// The least character boundary of `bytes` that is not before `index`.
pub open spec fn ceil_of(bytes: Seq<u8>, index: int) -> int
    decreases bytes.len() - index,
{
    if index >= bytes.len() {
        bytes.len() as int
    } else if is_char_boundary(bytes, index) {
        index
    } else {
        ceil_of(bytes, index + 1)
    }
}

/// What `ceil_of` gives is the least boundary from the index on.
pub proof fn ceil_bounds(bytes: Seq<u8>, index: int)
    requires
        valid_utf8(bytes),
        0 <= index <= bytes.len(),
    ensures
        index <= ceil_of(bytes, index) <= bytes.len(),
        is_char_boundary(bytes, ceil_of(bytes, index)),
        forall|i: int|
            index <= i <= bytes.len() && #[trigger] is_char_boundary(bytes, i) ==> i >= ceil_of(
                bytes,
                index,
            ),
    decreases bytes.len() - index,
{
    is_char_boundary_start_end_of_seq(bytes);
    if index < bytes.len() && !is_char_boundary(bytes, index) {
        ceil_bounds(bytes, index + 1);
    }
}

/// The least character boundary of `text` that is not before the byte `index`.
pub fn ceil_char_boundary(text: &str, index: usize) -> (r: usize)
    ensures
        r == ceil_of(encode_utf8(text@), index as int),
{
    broadcast use group_utf8_lib;

    let len: usize = text.as_bytes().len();
    if index >= len {
        return len;
    }
    let mut r: usize = index;
    while r < len && !text.is_char_boundary(r)
        invariant
            len == encode_utf8(text@).len(),
            r <= len,
            ceil_of(encode_utf8(text@), r as int) == ceil_of(encode_utf8(text@), index as int),
        decreases len - r,
    {
        r += 1;
    }
    r
}

/// A boundary is found at the end or where a character begins.
pub proof fn boundary_at(bytes: Seq<u8>, i: int)
    requires
        valid_utf8(bytes),
        0 <= i <= bytes.len(),
    ensures
        is_char_boundary(bytes, i) <==> i == bytes.len() || !is_continuation_byte(bytes[i]),
{
    is_char_boundary_start_end_of_seq(bytes);
    if i < bytes.len() {
        is_char_boundary_iff_not_is_continuation_byte(bytes, i);
    }
}

/// A boundary stays one when text is added behind.
pub proof fn boundary_of_concat(a: Seq<u8>, b: Seq<u8>, i: int)
    requires
        valid_utf8(a),
        valid_utf8(b),
        0 <= i <= a.len(),
        is_char_boundary(a, i),
    ensures
        valid_utf8(a + b),
        is_char_boundary(a + b, i),
{
    valid_utf8_concat(a, b);
    boundary_at(a, i);
    boundary_at(a + b, i);
    if i == a.len() && b.len() > 0 {
        is_char_boundary_start_end_of_seq(b);
        boundary_at(b, 0);
        assert((a + b)[i] == b[0]);
    }
}

/// A boundary stays one when text is taken off in front.
pub proof fn boundary_of_skip(bytes: Seq<u8>, cut: int, i: int)
    requires
        valid_utf8(bytes),
        0 <= cut <= i <= bytes.len(),
        is_char_boundary(bytes, cut),
        is_char_boundary(bytes, i),
    ensures
        valid_utf8(bytes.skip(cut)),
        is_char_boundary(bytes.skip(cut), i - cut),
{
    assert(bytes.skip(cut) =~= bytes.subrange(cut, bytes.len() as int));
    valid_utf8_split(bytes, cut);
    boundary_at(bytes, i);
    boundary_at(bytes.skip(cut), i - cut);
}

/// What `floor_of` gives is a boundary inside the text, and not far from the index:
/// a character has at most four bytes.
pub proof fn floor_bounds(bytes: Seq<u8>, index: int)
    requires
        valid_utf8(bytes),
        0 <= index,
    ensures
        0 <= floor_of(bytes, index) <= index,
        floor_of(bytes, index) <= bytes.len(),
        is_char_boundary(bytes, floor_of(bytes, index)),
        forall|i: int|
            0 <= i <= index && i <= bytes.len() && #[trigger] is_char_boundary(bytes, i) ==> i
                <= floor_of(bytes, index),
    decreases index,
{
    is_char_boundary_start_end_of_seq(bytes);
    if 0 < index < bytes.len() && !is_char_boundary(bytes, index) {
        floor_bounds(bytes, index - 1);
    }
}

/// One of four neighbouring places falls between characters.
pub proof fn near_boundary(bytes: Seq<u8>, index: int)
    requires
        valid_utf8(bytes),
        0 <= index <= bytes.len(),
    ensures
        exists|i: int| index - 3 <= i <= index && 0 <= i && #[trigger] is_char_boundary(bytes, i),
    decreases bytes.len(),
{
    if index == 0 {
        is_char_boundary_start_end_of_seq(bytes);
        assert(is_char_boundary(bytes, 0));
    } else {
        let n = length_of_first_scalar(bytes);
        let rest = pop_first_scalar(bytes);
        if index < n {
            is_char_boundary_start_end_of_seq(bytes);
            assert(is_char_boundary(bytes, 0));
        } else {
            assert(rest.len() == bytes.len() - n);
            near_boundary(rest, index - n);
            let i = choose|i: int|
                index - n - 3 <= i <= index - n && 0 <= i && is_char_boundary(rest, i);
            assert(is_char_boundary(bytes, i + n));
        }
    }
}

/// The decimal form of a number that may be negative.
pub open spec fn signed_digits(n: int) -> Seq<char> {
    if n < 0 {
        "-"@ + digits((-n) as nat)
    } else {
        digits(n as nat)
    }
}

/// The decimal form of a number that may be negative.
pub fn signed_decimal(n: i32) -> (text: String)
    ensures
        text@ == signed_digits(n as int),
{
    let wide: i64 = n as i64;
    if wide < 0 {
        let size: u64 = (-wide) as u64;
        join_two("-", decimal(size).as_str())
    } else {
        decimal(wide as u64)
    }
}

} // verus!

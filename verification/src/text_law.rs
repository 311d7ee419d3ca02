//! What holds of texts, their parts and their numbers.
use crate::text::{
    digits, digits_value, index_of, is_digit, is_space, join, lines, lines_from, lower, lower_char,
    trim, trim_end, trim_start, unsigned, unsigned_digits, value, word_len, words,
};
use vstd::prelude::*;
use vstd::seq_lib::*;
use vstd::string::*;

verus! {

// ---------------------------------------------------------------------------
// Joining
// ---------------------------------------------------------------------------

/// To join parts is to put the separator between neighbours and nowhere else: nothing
/// gives nothing, one part is itself, and two lists are joined by joining each.
pub proof fn join_law(a: Seq<Seq<char>>, b: Seq<Seq<char>>, separator: Seq<char>)
    requires
        a.len() > 0,
        b.len() > 0,
    ensures
        join(a + b, separator) == join(a, separator) + separator + join(b, separator),
        join(seq![a[0]], separator) == a[0],
        join(Seq::empty(), separator) == Seq::<char>::empty(),
    decreases b.len(),
{
    let all = a + b;
    assert(all.last() == b.last());
    if b.len() == 1 {
        assert(all.drop_last() =~= a);
        assert(join(all, separator) =~= join(a, separator) + separator + join(b, separator));
    } else {
        assert(all.drop_last() =~= a + b.drop_last());
        join_law(a, b.drop_last(), separator);
        assert(join(all, separator) =~= join(a, separator) + separator + join(b, separator));
    }
}

// ---------------------------------------------------------------------------
// Lines
// ---------------------------------------------------------------------------

proof fn line_end(s: Seq<char>, from: int)
    requires
        0 <= from <= s.len(),
    ensures
        from <= index_of(s, '\n', from) <= s.len(),
        forall|i: int| from <= i < index_of(s, '\n', from) ==> s[i] != '\n',
        index_of(s, '\n', from) < s.len() ==> s[index_of(s, '\n', from)] == '\n',
    decreases s.len() - from,
{
    if from < s.len() && s[from] != '\n' {
        line_end(s, from + 1);
    }
}

proof fn lines_joined(s: Seq<char>, from: int)
    requires
        0 <= from < s.len(),
        forall|i: int| from <= i < s.len() ==> #[trigger] s[i] != '\r',
    ensures
        lines_from(s, from).len() > 0,
        s.skip(from) == if s.last() == '\n' {
            join(lines_from(s, from), "\n"@) + "\n"@
        } else {
            join(lines_from(s, from), "\n"@)
        },
    decreases s.len() - from,
{
    reveal_strlit("\n");
    line_end(s, from);
    let end = index_of(s, '\n', from);
    let all = lines_from(s, from);
    if end >= s.len() {
        assert(s.last() != '\n');
        assert(all =~= seq![s.skip(from)]);
        assert(join(all, "\n"@) == all[0]);
    } else {
        let first = s.subrange(from, end);
        if first.len() > 0 {
            assert(first.last() == s[end - 1]);
        }
        let one = seq![first];
        assert(join(one, "\n"@) == first);
        if end + 1 < s.len() {
            lines_joined(s, end + 1);
            let rest = lines_from(s, end + 1);
            assert(all == one + rest);
            join_law(one, rest, "\n"@);
            assert(s.skip(from) =~= first + "\n"@ + s.skip(end + 1));
            if s.last() == '\n' {
                assert(s.skip(from) =~= join(all, "\n"@) + "\n"@);
            } else {
                assert(s.skip(from) =~= join(all, "\n"@));
            }
        } else {
            assert(lines_from(s, end + 1).len() == 0);
            assert(all =~= one);
            assert(s.skip(from) =~= first + "\n"@);
        }
    }
}

proof fn lines_are_plain(s: Seq<char>, from: int)
    requires
        0 <= from,
    ensures
        forall|i: int|
            0 <= i < lines_from(s, from).len() ==> !(#[trigger] lines_from(s, from)[i]).contains(
                '\n',
            ),
    decreases s.len() - from,
{
    if from < s.len() {
        line_end(s, from);
        let end = index_of(s, '\n', from);
        if end < s.len() {
            lines_are_plain(s, end + 1);
            let all = lines_from(s, from);
            assert forall|i: int| 0 <= i < all.len() implies !(#[trigger] all[i]).contains('\n') by {
                if i == 0 {
                    assert forall|k: int| 0 <= k < all[0].len() implies all[0][k] != '\n' by {
                        assert(all[0][k] == s[from + k]);
                    }
                } else {
                    assert(all[i] == lines_from(s, end + 1)[i - 1]);
                }
            }
        } else {
            assert forall|k: int| 0 <= k < s.skip(from).len() implies s.skip(from)[k] != '\n' by {
                assert(s.skip(from)[k] == s[from + k]);
            }
        }
    }
}

/// No line holds a line feed, and with line feeds between them the lines are the text, but
/// for the line feed that may end it. Without returns nothing is lost.
pub proof fn lines_law(s: Seq<char>)
    ensures
        forall|i: int| 0 <= i < lines(s).len() ==> !(#[trigger] lines(s)[i]).contains('\n'),
        s.len() == 0 ==> lines(s).len() == 0,
        s.len() > 0 && !s.contains('\r') ==> s == if s.last() == '\n' {
            join(lines(s), "\n"@) + "\n"@
        } else {
            join(lines(s), "\n"@)
        },
{
    lines_are_plain(s, 0);
    if s.len() > 0 && !s.contains('\r') {
        assert forall|i: int| 0 <= i < s.len() implies #[trigger] s[i] != '\r' by {
            assert(s.contains(s[i]));
        }
        lines_joined(s, 0);
        assert(s.skip(0) =~= s);
    }
}

// ---------------------------------------------------------------------------
// White space
// ---------------------------------------------------------------------------

/// A text that is white space all through.
pub open spec fn is_blank(s: Seq<char>) -> bool {
    forall|i: int| 0 <= i < s.len() ==> is_space(#[trigger] s[i])
}

/// To trim a text is to take white space off at both ends, and all of it.
pub proof fn trim_law(s: Seq<char>)
    ensures
        exists|a: Seq<char>, b: Seq<char>|
            is_blank(a) && is_blank(b) && s == #[trigger] (a + trim(s) + b),
        trim(s).len() > 0 ==> !is_space(trim(s)[0]) && !is_space(trim(s).last()),
        trim(s).len() == 0 <==> is_blank(s),
{
    start_cut(s);
    let rest = trim_start(s);
    end_cut(rest);
    let a = choose|a: Seq<char>| is_blank(a) && s == #[trigger] (a + rest);
    let b = choose|b: Seq<char>| is_blank(b) && rest == #[trigger] (trim(s) + b);
    assert(s =~= a + trim(s) + b);
    if trim(s).len() == 0 {
        assert forall|i: int| 0 <= i < s.len() implies is_space(#[trigger] s[i]) by {
            if i < a.len() {
                assert(s[i] == a[i]);
            } else {
                assert(s[i] == b[i - a.len()]);
            }
        }
    } else {
        assert(s[a.len() as int] == trim(s)[0]);
        assert(rest[0] == trim(s)[0]);
    }
}

proof fn start_cut(s: Seq<char>)
    ensures
        exists|a: Seq<char>| is_blank(a) && s == #[trigger] (a + trim_start(s)),
        trim_start(s).len() > 0 ==> !is_space(trim_start(s)[0]),
    decreases s.len(),
{
    if s.len() > 0 && is_space(s[0]) {
        start_cut(s.skip(1));
        let a = choose|a: Seq<char>| is_blank(a)
            && s.skip(1) == #[trigger] (a + trim_start(s.skip(1)));
        let b = seq![s[0]] + a;
        assert(s =~= b + trim_start(s)) by {
            assert forall|i: int| 1 <= i < s.len() implies s[i] == (b + trim_start(s))[i] by {
                assert(s[i] == s.skip(1)[i - 1]);
            }
            assert(s.len() == s.skip(1).len() + 1);
        }
    } else {
        let a = Seq::<char>::empty();
        assert(s =~= a + trim_start(s));
    }
}

proof fn end_cut(s: Seq<char>)
    ensures
        exists|b: Seq<char>| is_blank(b) && s == #[trigger] (trim_end(s) + b),
        trim_end(s).len() > 0 ==> !is_space(trim_end(s).last()),
    decreases s.len(),
{
    if s.len() > 0 && is_space(s.last()) {
        end_cut(s.drop_last());
        let b = choose|b: Seq<char>|
            is_blank(b) && s.drop_last() == #[trigger] (trim_end(s.drop_last()) + b);
        let c = b.push(s.last());
        assert(s =~= trim_end(s) + c) by {
            assert(s =~= s.drop_last().push(s.last()));
        }
    } else {
        let b = Seq::<char>::empty();
        assert(s =~= trim_end(s) + b);
    }
}

proof fn word_bounds(s: Seq<char>)
    ensures
        word_len(s) <= s.len(),
        forall|i: int| 0 <= i < word_len(s) ==> !is_space(#[trigger] s[i]),
        word_len(s) < s.len() ==> is_space(s[word_len(s) as int]),
    decreases s.len(),
{
    if s.len() > 0 && !is_space(s[0]) {
        word_bounds(s.skip(1));
        assert forall|i: int| 0 <= i < word_len(s) implies !is_space(#[trigger] s[i]) by {
            if i > 0 {
                assert(s[i] == s.skip(1)[i - 1]);
            }
        }
    }
}

/// The characters of a text that are not white space, in order.
pub open spec fn dense(s: Seq<char>) -> Seq<char>
    decreases s.len(),
{
    if s.len() == 0 {
        s
    } else if is_space(s[0]) {
        dense(s.skip(1))
    } else {
        seq![s[0]] + dense(s.skip(1))
    }
}

proof fn dense_blank(a: Seq<char>, b: Seq<char>)
    requires
        is_blank(a),
    ensures
        dense(a + b) == dense(b),
    decreases a.len(),
{
    if a.len() == 0 {
        assert(a + b =~= b);
    } else {
        assert((a + b).skip(1) =~= a.skip(1) + b);
        assert((a + b)[0] == a[0]);
        dense_blank(a.skip(1), b);
    }
}

proof fn dense_word(a: Seq<char>, b: Seq<char>)
    requires
        forall|i: int| 0 <= i < a.len() ==> !is_space(#[trigger] a[i]),
    ensures
        dense(a + b) == a + dense(b),
    decreases a.len(),
{
    if a.len() == 0 {
        assert(a + b =~= b);
        assert(a + dense(b) =~= dense(b));
    } else {
        assert((a + b).skip(1) =~= a.skip(1) + b);
        assert((a + b)[0] == a[0]);
        assert forall|i: int| 0 <= i < a.skip(1).len() implies !is_space(#[trigger] a.skip(1)[i]) by {
            assert(a.skip(1)[i] == a[i + 1]);
        }
        dense_word(a.skip(1), b);
        assert(dense(a + b) =~= a + dense(b));
    }
}

/// Words are not empty and hold no white space, and in a row they are the text without its
/// white space: none is lost, doubled or moved.
pub proof fn words_law(s: Seq<char>)
    ensures
        forall|i: int|
            0 <= i < words(s).len() ==> (#[trigger] words(s)[i]).len() > 0 && forall|k: int|
                0 <= k < words(s)[i].len() ==> !is_space(#[trigger] words(s)[i][k]),
        words(s).flatten() == dense(s),
    decreases s.len(),
{
    let t = trim_start(s);
    let n = word_len(t);
    start_cut(s);
    word_bounds(t);
    let a = choose|a: Seq<char>| is_blank(a) && s == #[trigger] (a + t);
    dense_blank(a, t);
    if n > 0 {
        let word = t.take(n as int);
        let rest = t.skip(n as int);
        words_law(rest);
        assert(t =~= word + rest);
        dense_word(word, rest);
        let all = words(s);
        assert(all == seq![word] + words(rest));
        assert(all.first() == word);
        assert(all.drop_first() =~= words(rest));
        assert forall|i: int| 0 <= i < all.len() implies (#[trigger] all[i]).len() > 0 && forall|
            k: int,
        |
            0 <= k < all[i].len() ==> !is_space(#[trigger] all[i][k]) by {
            if i > 0 {
                assert(all[i] == words(rest)[i - 1]);
            }
        }
    } else {
        if t.len() > 0 {
            assert(false);
        }
        assert(words(s).len() == 0);
        assert(dense(t) =~= Seq::empty());
    }
}

// ---------------------------------------------------------------------------
// Letters and numbers
// ---------------------------------------------------------------------------

/// Small letters are made of capital ones, and nothing else is touched.
pub proof fn lower_law(s: Seq<char>)
    ensures
        lower(s).len() == s.len(),
        forall|i: int|
            0 <= i < s.len() ==> if 65 <= s[i] as u32 <= 90 {
                (#[trigger] lower(s)[i]) as u32 == s[i] as u32 + 32
            } else {
                lower(s)[i] == s[i]
            },
        lower(lower(s)) == lower(s),
{
    assert forall|i: int| 0 <= i < s.len() implies if 65 <= s[i] as u32 <= 90 {
        (#[trigger] lower(s)[i]) as u32 == s[i] as u32 + 32
    } else {
        lower(s)[i] == s[i]
    } by {
        assert(lower(s)[i] == lower_char(s[i]));
    }
    assert(lower(lower(s)) =~= lower(s)) by {
        assert forall|i: int| 0 <= i < s.len() implies lower(lower(s))[i] == lower(s)[i] by {
            assert(lower(s)[i] == lower_char(s[i]));
        }
    }
}

/// A number that is written is read back, and is written with digits alone.
pub proof fn number_law(n: u64)
    ensures
        unsigned(digits(n as nat)) == Some(n),
        forall|i: int| 0 <= i < digits(n as nat).len() ==> is_digit(#[trigger] digits(n as nat)[i]),
{
    digits_value(n as nat);
    all_digits(n as nat);
    let d = digits(n as nat);
    assert(is_digit(d[0]));
    assert(unsigned_digits(d) == d);
}

proof fn all_digits(n: nat)
    ensures
        digits(n).len() > 0,
        forall|i: int| 0 <= i < digits(n).len() ==> is_digit(#[trigger] digits(n)[i]),
    decreases n,
{
    if n >= 10 {
        all_digits(n / 10);
    }
}

/// The number behind one more digit.
pub proof fn value_law(s: Seq<char>, c: char)
    requires
        is_digit(c),
    ensures
        value(s.push(c)) == 10 * value(s) + (c as u32 - '0' as u32),
        value(Seq::empty()) == 0,
{
    assert(s.push(c).drop_last() =~= s);
}

} // verus!

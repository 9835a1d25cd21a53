//! Text helpers shared by the rest of the crate: words, joining and views.

use vstd::prelude::*;
use vstd::string::StringExecFns;

verus! {

/// Whether `c` has the Unicode `White_Space` property: the controls from
/// tab to carriage return, the space, next line, the no-break space, the
/// ogham space mark, the spaces from en quad to hair space, the line and
/// the paragraph separator, the narrow no-break space, the medium
/// mathematical space and the ideographic space.
pub open spec fn is_whitespace(c: char) -> bool {
    let code = c as u32;
    ||| 0x0009 <= code <= 0x000D
    ||| code == 0x0020
    ||| code == 0x0085
    ||| code == 0x00A0
    ||| code == 0x1680
    ||| 0x2000 <= code <= 0x200A
    ||| code == 0x2028
    ||| code == 0x2029
    ||| code == 0x202F
    ||| code == 0x205F
    ||| code == 0x3000
}

/// Whether `c` is alphabetic or numeric in Unicode's terms, as `char::is_alphanumeric`
/// decides it.
pub uninterp spec fn is_alphanumeric(c: char) -> bool;

/// The lowercase form of `s`, as `str::to_lowercase` computes it.
pub uninterp spec fn lowercase(s: Seq<char>) -> Seq<char>;

/// The views of the elements of `s`, in order.
pub open spec fn views<T: View>(s: Seq<T>) -> Seq<T::V> {
    s.map_values(|x: T| x@)
}

/// State of a left-to-right scan for words: the words already closed by
/// whitespace, and the characters of the word still open.
pub struct Scan {
    pub closed: Seq<Seq<char>>,
    pub open: Seq<char>,
}

/// The scan state after reading all of `s`.
pub open spec fn scan(s: Seq<char>) -> Scan
    decreases s.len(),
{
    if s.len() == 0 {
        Scan { closed: Seq::empty(), open: Seq::empty() }
    } else {
        let before = scan(s.drop_last());
        if !is_whitespace(s.last()) {
            Scan { closed: before.closed, open: before.open.push(s.last()) }
        } else if before.open.len() > 0 {
            Scan { closed: before.closed.push(before.open), open: Seq::empty() }
        } else {
            before
        }
    }
}

/// The words of `s`: its maximal runs of characters that are not whitespace,
/// in the order in which they occur.
pub open spec fn words(s: Seq<char>) -> Seq<Seq<char>> {
    let end = scan(s);
    if end.open.len() > 0 {
        end.closed.push(end.open)
    } else {
        end.closed
    }
}

/// The first `n` elements of `s`, or all of `s` where it has fewer.
pub open spec fn leading<T>(s: Seq<T>, n: nat) -> Seq<T> {
    if s.len() <= n {
        s
    } else {
        s.take(n as int)
    }
}

/// The elements of `parts` in order, with `sep` between neighbours.
pub open spec fn join(parts: Seq<Seq<char>>, sep: Seq<char>) -> Seq<char>
    decreases parts.len(),
{
    if parts.len() == 0 {
        Seq::empty()
    } else if parts.len() == 1 {
        parts[0]
    } else {
        join(parts.drop_last(), sep) + sep + parts.last()
    }
}

/// Whether `part` stands somewhere in `whole`, unbroken.
pub open spec fn occurs_in(part: Seq<char>, whole: Seq<char>) -> bool {
    exists|at: int|
        0 <= at && at + part.len() <= whole.len() && #[trigger] whole.subrange(
            at,
            at + part.len(),
        ) == part
}

/// The decimal digit of a number below ten.
pub open spec fn digit(d: nat) -> char {
    if d == 0 {
        '0'
    } else if d == 1 {
        '1'
    } else if d == 2 {
        '2'
    } else if d == 3 {
        '3'
    } else if d == 4 {
        '4'
    } else if d == 5 {
        '5'
    } else if d == 6 {
        '6'
    } else if d == 7 {
        '7'
    } else if d == 8 {
        '8'
    } else {
        '9'
    }
}

/// The decimal numeral of `n`, without leading zeros.
pub open spec fn decimal(n: nat) -> Seq<char>
    decreases n,
{
    if n < 10 {
        seq![digit(n)]
    } else {
        decimal(n / 10).push(digit(n % 10))
    }
}

/// Appends one character to a string.
///
/// Wraps `String::push`, which appends the given `char` to the end of the string.
#[verifier::external_body]
pub(crate) fn push_char(s: &mut String, c: char)
    ensures
        final(s)@ == old(s)@.push(c),
{
    s.push(c)
}

/// Wraps `char::is_whitespace`, which tells whether a character has the
/// `White_Space` property; [`is_whitespace`] lists the characters that do.
#[verifier::external_body]
pub(crate) fn char_is_whitespace(c: char) -> (r: bool)
    ensures
        r == is_whitespace(c),
{
    c.is_whitespace()
}

/// Wraps `char::is_alphanumeric`; the result is the one that [`is_alphanumeric`] names.
#[verifier::external_body]
pub(crate) fn char_is_alphanumeric(c: char) -> (r: bool)
    ensures
        r == is_alphanumeric(c),
{
    c.is_alphanumeric()
}

/// Wraps `str::to_lowercase`; the result is the one that [`lowercase`] names.
#[verifier::external_body]
pub(crate) fn to_lowercase(s: &str) -> (r: String)
    ensures
        r@ == lowercase(s@),
{
    s.to_lowercase()
}

/// What `f` makes of an element of `s` stands in `s.filter_map(f)`.
pub proof fn filter_map_keeps<A, B>(s: Seq<A>, f: spec_fn(A) -> Option<B>, k: int)
    requires
        0 <= k < s.len(),
        f(s[k]) is Some,
    ensures
        s.filter_map(f).contains(f(s[k])->0),
    decreases s.len(),
{
    let rest = s.drop_last();
    let tail = match f(s.last()) {
        Some(b) => seq![b],
        None => Seq::empty(),
    };
    assert(s.filter_map(f) =~= rest.filter_map(f) + tail);
    if k == s.len() - 1 {
        assert(tail[0] == f(s[k])->0);
        assert((rest.filter_map(f) + tail)[rest.filter_map(f).len() as int] == tail[0]);
    } else {
        filter_map_keeps(rest, f, k);
        let at = choose|i: int|
            0 <= i < rest.filter_map(f).len() && rest.filter_map(f)[i] == f(rest[k])->0;
        assert((rest.filter_map(f) + tail)[at] == f(s[k])->0);
    }
}

/// What stands in the middle of a text occurs in it.
pub proof fn middle_occurs(before: Seq<char>, part: Seq<char>, after: Seq<char>)
    ensures
        occurs_in(part, before + part + after),
{
    let whole = before + part + after;
    assert(whole.subrange(before.len() as int, (before.len() + part.len()) as int) == part);
}

/// What occurs in a part of a text occurs in the text.
pub proof fn occurs_in_larger(
    part: Seq<char>,
    inner: Seq<char>,
    before: Seq<char>,
    after: Seq<char>,
)
    requires
        occurs_in(part, inner),
    ensures
        occurs_in(part, before + inner + after),
{
    let at = choose|at: int|
        0 <= at && at + part.len() <= inner.len() && #[trigger] inner.subrange(
            at,
            at + part.len(),
        ) == part;
    let whole = before + inner + after;
    assert(whole.subrange(before.len() + at, before.len() + at + part.len()) == inner.subrange(
        at,
        at + part.len(),
    ));
}

/// The test that the characters of words pass.
pub open spec fn is_word_char() -> spec_fn(char) -> bool {
    |c: char| !is_whitespace(c)
}

proof fn join_without_separator(parts: Seq<Seq<char>>, last: Seq<char>)
    ensures
        join(parts.push(last), Seq::empty()) == join(parts, Seq::empty()) + last,
{
    assert(parts.push(last).drop_last() == parts);
    if parts.len() == 0 {
        assert(join(parts, Seq::empty()) + last == last);
    } else {
        assert(join(parts, Seq::empty()) + Seq::<char>::empty() == join(parts, Seq::empty()));
    }
}

proof fn scan_holds_the_text(s: Seq<char>)
    ensures
        join(scan(s).closed, Seq::empty()) + scan(s).open == s.filter(is_word_char()),
    decreases s.len(),
{
    if s.len() == 0 {
        assert(s.filter(is_word_char()) == Seq::<char>::empty()) by {
            s.lemma_filter_len(is_word_char());
        }
    } else {
        let head = s.drop_last();
        scan_holds_the_text(head);
        head.lemma_filter_push(s.last(), is_word_char());
        assert(head.push(s.last()) == s);
        let before = scan(head);
        if !is_whitespace(s.last()) {
            assert(join(before.closed, Seq::empty()) + before.open.push(s.last()) == (join(
                before.closed,
                Seq::empty(),
            ) + before.open).push(s.last()));
        } else if before.open.len() > 0 {
            join_without_separator(before.closed, before.open);
            assert(join(before.closed, Seq::empty()) + before.open + Seq::<char>::empty() == join(
                before.closed,
                Seq::empty(),
            ) + before.open);
        }
    }
}

/// The words hold every character of the text that is not whitespace, in
/// order, and nothing else.
pub proof fn words_hold_the_text(s: Seq<char>)
    ensures
        join(words(s), Seq::empty()) == s.filter(is_word_char()),
{
    scan_holds_the_text(s);
    let end = scan(s);
    if end.open.len() > 0 {
        join_without_separator(end.closed, end.open);
    } else {
        assert(join(end.closed, Seq::empty()) + end.open == join(end.closed, Seq::empty()));
    }
}

/// Every word is non-empty and free of whitespace.
pub proof fn words_are_runs(s: Seq<char>)
    ensures
        forall|i: int|
            0 <= i < words(s).len() ==> (#[trigger] words(s)[i]).len() > 0,
        forall|i: int, j: int|
            0 <= i < words(s).len() && 0 <= j < words(s)[i].len() ==> !is_whitespace(
                #[trigger] words(s)[i][j],
            ),
{
    scan_holds_runs(s);
}

proof fn scan_holds_runs(s: Seq<char>)
    ensures
        forall|i: int|
            0 <= i < scan(s).closed.len() ==> (#[trigger] scan(s).closed[i]).len() > 0,
        forall|i: int, j: int|
            0 <= i < scan(s).closed.len() && 0 <= j < scan(s).closed[i].len() ==> !is_whitespace(
                #[trigger] scan(s).closed[i][j],
            ),
        forall|j: int| 0 <= j < scan(s).open.len() ==> !is_whitespace(#[trigger] scan(s).open[j]),
    decreases s.len(),
{
    if s.len() > 0 {
        scan_holds_runs(s.drop_last());
        let before = scan(s.drop_last());
        let after = scan(s);
        assert forall|i: int| 0 <= i < after.closed.len() implies (#[trigger] after.closed[i]).len()
            > 0 && forall|j: int|
            0 <= j < after.closed[i].len() ==> !is_whitespace(#[trigger] after.closed[i][j]) by {
            if i < before.closed.len() {
                assert(after.closed[i] == before.closed[i]);
            } else {
                assert(after.closed[i] == before.open);
            }
        }
    }
}

fn digit_char(d: usize) -> (r: char)
    requires
        d < 10,
    ensures
        r == digit(d as nat),
{
    if d == 0 {
        '0'
    } else if d == 1 {
        '1'
    } else if d == 2 {
        '2'
    } else if d == 3 {
        '3'
    } else if d == 4 {
        '4'
    } else if d == 5 {
        '5'
    } else if d == 6 {
        '6'
    } else if d == 7 {
        '7'
    } else if d == 8 {
        '8'
    } else {
        '9'
    }
}

/// The decimal numeral of `n`.
pub fn decimal_text(n: usize) -> (r: String)
    ensures
        r@ == decimal(n as nat),
    decreases n,
{
    if n < 10 {
        let mut out = String::new();
        push_char(&mut out, digit_char(n));
        assert(out@ == seq![digit(n as nat)]);
        out
    } else {
        let mut out = decimal_text(n / 10);
        push_char(&mut out, digit_char(n % 10));
        out
    }
}

/// Splits `text` into its words.
pub fn split_words(text: &str) -> (r: Vec<String>)
    ensures
        views(r@) == words(text@),
{
    let mut closed: Vec<String> = Vec::new();
    let mut open = String::new();
    for c in it: text.chars()
        invariant
            it.seq() == text@,
            views(closed@) == scan(text@.take(it.index() as int)).closed,
            open@ == scan(text@.take(it.index() as int)).open,
    {
        proof {
            let upto = text@.take(it.index() + 1);
            assert(upto.drop_last() == text@.take(it.index() as int));
            assert(upto.last() == c);
        }
        if !char_is_whitespace(c) {
            push_char(&mut open, c);
        } else if !open.as_str().is_empty() {
            let ghost before = closed@;
            closed.push(open);
            assert(views(closed@) == views(before).push(open@));
            open = String::new();
        }
    }
    assert(text@.take(text@.len() as int) == text@);
    if !open.as_str().is_empty() {
        let ghost before = closed@;
        closed.push(open);
        assert(views(closed@) == views(before).push(open@));
    }
    closed
}

/// Joins `parts` with `sep` between neighbours.
pub fn join_words(parts: &Vec<String>, sep: &str) -> (r: String)
    ensures
        r@ == join(views(parts@), sep@),
{
    let mut out = String::new();
    let mut i: usize = 0;
    while i < parts.len()
        invariant
            i <= parts.len(),
            out@ == join(views(parts@).take(i as int), sep@),
        decreases parts.len() - i,
    {
        proof {
            let upto = views(parts@).take(i + 1);
            assert(upto.drop_last() == views(parts@).take(i as int));
            assert(upto.last() == parts@[i as int]@);
        }
        if i > 0 {
            out.append(sep);
        }
        out.append(parts[i].as_str());
        i += 1;
    }
    assert(views(parts@).take(parts@.len() as int) == views(parts@));
    out
}

} // verus!

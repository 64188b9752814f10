//! The title of a note, which is taken from the first line of its text that holds
//! more than white space.
use vstd::prelude::*;
use crate::text::{
    all_whitespace, find_char, from_chars, in_class, is_blank, is_whitespace, leading,
    lemma_leading, lemma_leading_bounds, lemma_position, lemma_position_bounds,
    lemma_trailing_bounds, position, push_range, slice_chars, to_chars, trailing, trim,
    trim_start, trimmed, trimmed_start, CharClass,
};

verus! {

/// The longest title, in characters.
pub const TITLE_LIMIT: usize = 200;

/// The characters that Markdown writes emphasis, headings, quotations, links and
/// code with, none of which a title keeps.
pub open spec fn is_banned(c: char) -> bool {
    c == '\'' || c == '"' || c == '`' || c == '#' || c == '(' || c == ')' || c == '!' || c == '~'
        || c == '>' || c == '_' || c == '[' || c == ']' || c == '*'
}

/// The line that the title of a note is taken from: the first line of its text that
/// holds more than white space, or nothing where there is no such line.
///
/// A line ends at a line feed. A carriage return before it counts as white space at
/// the end of the line.
pub open spec fn title_line(body: Seq<char>) -> Seq<char>
    decreases body.len(),
{
    let end = position(body, '\n');
    if !is_blank(body.take(end as int)) {
        body.take(end as int)
    } else if end < body.len() {
        title_line(body.skip(end as int + 1))
    } else {
        Seq::empty()
    }
}

/// `s` without the targets of its Markdown links.
///
/// A target starts at an opening parenthesis after which a closing one stands, and
/// ends at the first closing one. The search goes on behind it. An opening
/// parenthesis that no closing one follows starts none, nor does anything after it.
pub open spec fn without_link_targets(s: Seq<char>) -> Seq<char>
    decreases s.len(),
{
    if s.len() == 0 {
        s
    } else if s[0] == '(' {
        let close = position(s.drop_first(), ')');
        if close < s.drop_first().len() {
            without_link_targets(s.drop_first().skip(close as int + 1))
        } else {
            s
        }
    } else {
        seq![s[0]] + without_link_targets(s.drop_first())
    }
}

/// `s` without its banned characters.
pub open spec fn without_banned(s: Seq<char>) -> Seq<char> {
    s.filter(|c: char| !is_banned(c))
}

/// `s` cut down to its first `limit` characters, where it has more.
pub open spec fn truncated(s: Seq<char>, limit: int) -> Seq<char> {
    if s.len() > limit {
        s.take(limit)
    } else {
        s
    }
}

/// The title of a note with the given text.
///
/// It is taken from the [`title_line`]: without link targets and banned characters,
/// without spaces and dots at its start and white space at both ends, and cut down
/// to [`TITLE_LIMIT`] characters. It is empty where the text holds no line with more
/// than that.
pub open spec fn title_of(body: Seq<char>) -> Seq<char> {
    truncated(
        trim(trim_start(without_banned(without_link_targets(title_line(body))), CharClass::Padding)),
        TITLE_LIMIT as int,
    )
}

/// Whether a line is clean: it holds no banned character and no line feed, it
/// holds more than white space, and without the white space at its ends it does not
/// start with a dot and is no longer than [`TITLE_LIMIT`].
pub open spec fn is_clean_line(line: Seq<char>) -> bool {
    &&& forall|i: int| 0 <= i < line.len() ==> !is_banned(#[trigger] line[i]) && line[i] != '\n'
    &&& !is_blank(line)
    &&& trim(line)[0] != '.'
    &&& trim(line).len() <= TITLE_LIMIT
}

/// A sequence without an opening parenthesis has no link target to lose.
proof fn lemma_no_link_targets(s: Seq<char>)
    requires
        forall|i: int| 0 <= i < s.len() ==> #[trigger] s[i] != '(',
    ensures
        without_link_targets(s) == s,
    decreases s.len(),
{
    if s.len() > 0 {
        let t = s.drop_first();
        assert forall|i: int| 0 <= i < t.len() implies #[trigger] t[i] != '(' by {
            assert(t[i] == s[i + 1]);
        }
        lemma_no_link_targets(t);
        assert(seq![s[0]] + t =~= s);
    }
}

/// A sequence without a banned character has none to lose.
proof fn lemma_no_banned(s: Seq<char>)
    requires
        forall|i: int| 0 <= i < s.len() ==> !is_banned(#[trigger] s[i]),
    ensures
        without_banned(s) == s,
    decreases s.len(),
{
    reveal(Seq::filter);
    if s.len() > 0 {
        let t = s.drop_last();
        assert forall|i: int| 0 <= i < t.len() implies !is_banned(#[trigger] t[i]) by {
            assert(t[i] == s[i]);
        }
        lemma_no_banned(t);
        assert(t.push(s.last()) =~= s);
    }
}

/// Where a line holds more than white space and does not start with a dot behind
/// the white space at its start, taking the spaces and dots from its start takes
/// nothing that trimming would leave.
proof fn lemma_padding_within_whitespace(line: Seq<char>)
    requires
        !is_blank(line),
        trim(line)[0] != '.',
    ensures
        trim(trim_start(line, CharClass::Padding)) == trim(line),
{
    let a = leading(line, CharClass::Whitespace) as int;
    let p = leading(line, CharClass::Padding) as int;
    lemma_leading_bounds(line, CharClass::Whitespace);
    lemma_leading_bounds(line, CharClass::Padding);
    if a == line.len() {
        assert forall|i: int| 0 <= i < line.len() implies is_whitespace(#[trigger] line[i]) by {
            assert(in_class(line[i], CharClass::Whitespace));
        }
    }
    assert(a < line.len());
    let tail = line.skip(a);
    assert(tail[0] == line[a]);
    lemma_trailing_bounds(tail, CharClass::Whitespace);
    if trailing(tail, CharClass::Whitespace) == tail.len() {
        assert(in_class(tail[0], CharClass::Whitespace));
    }
    assert(trim(line) == tail.take(tail.len() - trailing(tail, CharClass::Whitespace)));
    assert(trim(line)[0] == line[a]);
    if p > a {
        assert(in_class(line[a], CharClass::Padding));
    }
    assert(p <= a);
    let cut = line.skip(p);
    assert forall|i: int| 0 <= i < a - p implies in_class(
        #[trigger] cut[i],
        CharClass::Whitespace,
    ) by {
        assert(cut[i] == line[p + i]);
        assert(in_class(line[p + i], CharClass::Whitespace));
    }
    assert(cut[a - p] == line[a]);
    lemma_leading(cut, CharClass::Whitespace, a - p);
    assert(cut.skip(a - p) == tail);
}

/// A clean line is its own title, but for the white space at its ends: a text that
/// starts with a clean line, or is one, has that line without the white space at
/// its ends as its title.
pub proof fn lemma_clean_line_is_title(line: Seq<char>, rest: Seq<char>)
    requires
        is_clean_line(line),
    ensures
        title_of(line) == trim(line),
        title_of(line + seq!['\n'] + rest) == trim(line),
{
    let body = line + seq!['\n'] + rest;
    assert(body[line.len() as int] == '\n');
    assert forall|i: int| 0 <= i < line.len() implies #[trigger] body[i] != '\n' by {
        assert(body[i] == line[i]);
    }
    lemma_position(body, '\n', line.len() as int);
    assert(body.take(line.len() as int) == line);
    assert(title_line(body) == line);
    lemma_position(line, '\n', line.len() as int);
    assert(line.take(line.len() as int) == line);
    assert(title_line(line) == line);
    assert forall|i: int| 0 <= i < line.len() implies #[trigger] line[i] != '(' by {
        assert(!is_banned(line[i]));
    }
    lemma_no_link_targets(line);
    lemma_no_banned(line);
    lemma_padding_within_whitespace(line);
}

/// Whether a sequence holds no line feed.
pub open spec fn is_single_line(s: Seq<char>) -> bool {
    forall|i: int| 0 <= i < s.len() ==> #[trigger] s[i] != '\n'
}

/// The title line is one line.
proof fn lemma_title_line_single(body: Seq<char>)
    ensures
        is_single_line(title_line(body)),
    decreases body.len(),
{
    let end = position(body, '\n');
    lemma_position_bounds(body, '\n');
    if is_blank(body.take(end as int)) && end < body.len() {
        lemma_title_line_single(body.skip(end as int + 1));
    }
}

/// Taking the link targets out of one line leaves one line.
proof fn lemma_link_targets_single(s: Seq<char>)
    requires
        is_single_line(s),
    ensures
        is_single_line(without_link_targets(s)),
    decreases s.len(),
{
    if s.len() > 0 {
        let rest = s.drop_first();
        assert forall|i: int| 0 <= i < rest.len() implies #[trigger] rest[i] != '\n' by {
            assert(rest[i] == s[i + 1]);
        }
        if s[0] == '(' {
            let close = position(rest, ')');
            if close < rest.len() {
                let behind = rest.skip(close as int + 1);
                assert forall|i: int| 0 <= i < behind.len() implies #[trigger] behind[i]
                    != '\n' by {
                    assert(behind[i] == rest[close + 1 + i]);
                }
                lemma_link_targets_single(behind);
            }
        } else {
            lemma_link_targets_single(rest);
            let kept = without_link_targets(rest);
            assert forall|i: int| 0 <= i < (seq![s[0]] + kept).len() implies #[trigger] (seq![s[0]]
                + kept)[i] != '\n' by {
                if i > 0 {
                    assert((seq![s[0]] + kept)[i] == kept[i - 1]);
                }
            }
        }
    }
}

/// Taking the banned characters out of one line leaves one line without banned
/// characters.
proof fn lemma_banned_gone(s: Seq<char>)
    requires
        is_single_line(s),
    ensures
        is_single_line(without_banned(s)),
        forall|i: int| 0 <= i < without_banned(s).len() ==> !is_banned(#[trigger] without_banned(s)[i]),
    decreases s.len(),
{
    reveal(Seq::filter);
    if s.len() > 0 {
        let t = s.drop_last();
        assert forall|i: int| 0 <= i < t.len() implies #[trigger] t[i] != '\n' by {
            assert(t[i] == s[i]);
        }
        lemma_banned_gone(t);
    }
}

/// A title is one line of no more than [`TITLE_LIMIT`] characters, none of them
/// banned.
pub proof fn lemma_title_shape(body: Seq<char>)
    ensures
        title_of(body).len() <= TITLE_LIMIT,
        is_single_line(title_of(body)),
        forall|i: int| 0 <= i < title_of(body).len() ==> !is_banned(#[trigger] title_of(body)[i]),
{
    let line = title_line(body);
    lemma_title_line_single(body);
    lemma_link_targets_single(line);
    let plain = without_banned(without_link_targets(line));
    lemma_banned_gone(without_link_targets(line));
    let unpadded = trim_start(plain, CharClass::Padding);
    lemma_leading_bounds(plain, CharClass::Padding);
    let left = trim_start(unpadded, CharClass::Whitespace);
    lemma_leading_bounds(unpadded, CharClass::Whitespace);
    lemma_trailing_bounds(left, CharClass::Whitespace);
    let whole = trim(unpadded);
    let title = title_of(body);
    let skipped = leading(plain, CharClass::Padding) + leading(unpadded, CharClass::Whitespace);
    assert forall|i: int| 0 <= i < title.len() implies !is_banned(#[trigger] title[i]) && title[i]
        != '\n' by {
        assert(title[i] == whole[i]);
        assert(whole[i] == left[i]);
        assert(left[i] == unpadded[leading(unpadded, CharClass::Whitespace) + i]);
        assert(title[i] == plain[skipped + i]);
    }
}

/// Whether the characters of `v` from `lo` up to `hi` are all white space.
fn range_is_blank(v: &Vec<char>, lo: usize, hi: usize) -> (r: bool)
    requires
        lo <= hi <= v.len(),
    ensures
        r == is_blank(v@.subrange(lo as int, hi as int)),
{
    all_whitespace(&slice_chars(v, lo, hi))
}

/// The title line of `v`.
fn find_title_line(v: &Vec<char>) -> (r: Vec<char>)
    ensures
        r@ == title_line(v@),
{
    let mut start: usize = 0;
    assert(v@.skip(0) == v@);
    while start <= v.len()
        invariant
            start <= v.len(),
            title_line(v@) == title_line(v@.skip(start as int)),
        decreases v.len() - start,
    {
        let end = find_char(v, start, '\n');
        let ghost rest = v@.skip(start as int);
        assert(rest.take(position(rest, '\n') as int) == v@.subrange(start as int, end as int));
        if !range_is_blank(v, start, end) {
            return slice_chars(v, start, end);
        }
        if end == v.len() {
            return Vec::new();
        }
        assert(rest.skip(position(rest, '\n') as int + 1) == v@.skip(end + 1));
        start = end + 1;
    }
    Vec::new()
}

/// `v` without the targets of its Markdown links.
fn strip_link_targets(v: &Vec<char>) -> (r: Vec<char>)
    ensures
        r@ == without_link_targets(v@),
{
    let mut out: Vec<char> = Vec::new();
    let mut i: usize = 0;
    assert(v@.skip(0) == v@);
    while i < v.len()
        invariant
            i <= v.len(),
            out@ + without_link_targets(v@.skip(i as int)) == without_link_targets(v@),
        decreases v.len() - i,
    {
        let ghost rest = v@.skip(i as int);
        assert(rest[0] == v@[i as int]);
        assert(rest.drop_first() == v@.skip(i + 1));
        if v[i] == '(' {
            let close = find_char(v, i + 1, ')');
            if close < v.len() {
                assert(rest.drop_first().skip(position(rest.drop_first(), ')') as int + 1) == v@.skip(
                    close + 1,
                ));
                i = close + 1;
            } else {
                push_range(&mut out, v, i, v.len());
                assert(v@.subrange(i as int, v.len() as int) == rest);
                i = v.len();
                assert(v@.skip(i as int).len() == 0);
                assert(out@ + without_link_targets(v@.skip(i as int)) =~= out@);
            }
        } else {
            let ghost before = out@;
            out.push(v[i]);
            assert(out@ + without_link_targets(v@.skip(i + 1)) =~= before + (seq![rest[0]]
                + without_link_targets(rest.drop_first())));
            i = i + 1;
        }
    }
    assert(v@.skip(i as int).len() == 0);
    assert(out@ + without_link_targets(v@.skip(i as int)) =~= out@);
    out
}

/// Whether `c` is banned from titles.
fn char_is_banned(c: char) -> (r: bool)
    ensures
        r == is_banned(c),
{
    c == '\'' || c == '"' || c == '`' || c == '#' || c == '(' || c == ')' || c == '!' || c == '~'
        || c == '>' || c == '_' || c == '[' || c == ']' || c == '*'
}

/// `v` without its banned characters.
fn strip_banned(v: &Vec<char>) -> (r: Vec<char>)
    ensures
        r@ == without_banned(v@),
{
    let mut out: Vec<char> = Vec::new();
    let mut i: usize = 0;
    proof {
        reveal(Seq::filter);
    }
    while i < v.len()
        invariant
            i <= v.len(),
            out@ == without_banned(v@.take(i as int)),
        decreases v.len() - i,
    {
        proof {
            reveal(Seq::filter);
            assert(v@.take(i + 1).drop_last() == v@.take(i as int));
        }
        if !char_is_banned(v[i]) {
            out.push(v[i]);
        }
        i = i + 1;
    }
    assert(v@.take(v.len() as int) == v@);
    out
}

/// Derives the title of a note from its text.
pub fn title_from_content(content: &String) -> (r: String)
    ensures
        r@ == title_of(content@),
{
    let body = to_chars(content.as_str());
    let line = find_title_line(&body);
    let plain = strip_banned(&strip_link_targets(&line));
    let title = trimmed(&trimmed_start(&plain, CharClass::Padding));
    if title.len() > TITLE_LIMIT {
        from_chars(&slice_chars(&title, 0, TITLE_LIMIT))
    } else {
        from_chars(&title)
    }
}

} // verus!

//! What is derived from a document's text: reading time, excerpt, slug and
//! the dates shown on pages.

use crate::content::{markdown_html, markdown_to_html};
use crate::text::{blank, count_words, is_blank, join, join_range, lemma_texts_push, lines, lowercase, split_lines, str_to_lowercase, string_from_chars, texts, to_chars, trimmed, trimmed_is, word_count};
use std::fmt::Write;
use vstd::prelude::*;

verus! {

/// The minutes it takes to read a text: its words divided by the words read
/// per minute, and at least one.
pub open spec fn reading_minutes(body: Seq<char>, words_per_minute: nat) -> nat {
    let minutes = word_count(body) / words_per_minute;
    if minutes < 1 {
        1
    } else {
        minutes
    }
}

/// The number of words of `body`.
pub fn count_body_words(body: &str) -> (n: usize)
    ensures
        n == word_count(body@),
{
    let chars = to_chars(body);
    count_words(&chars)
}

/// The minutes it takes to read `body`. The result is never zero.
pub fn reading_time(body: &str, words_per_minute: usize) -> (minutes: usize)
    requires
        words_per_minute >= 1,
    ensures
        minutes == reading_minutes(body@, words_per_minute as nat),
        minutes >= 1,
{
    let minutes = count_body_words(body) / words_per_minute;
    if minutes < 1 {
        1
    } else {
        minutes
    }
}

/// The index of the first line that, trimmed, equals `separator`, or the
/// number of lines where there is none.
pub open spec fn separator_line(ls: Seq<Seq<char>>, separator: Seq<char>) -> int
    decreases ls.len(),
{
    if ls.len() == 0 || trimmed(ls[0]) == separator {
        0
    } else {
        1 + separator_line(ls.skip(1), separator)
    }
}

/// `separator_line` lies within the lines, finds a separator, and passes
/// over none.
pub proof fn lemma_separator_line(ls: Seq<Seq<char>>, separator: Seq<char>)
    ensures
        0 <= separator_line(ls, separator) <= ls.len(),
        separator_line(ls, separator) < ls.len() ==> trimmed(ls[separator_line(ls, separator)])
            == separator,
        forall|i: int| 0 <= i < separator_line(ls, separator) ==> trimmed(#[trigger] ls[i]) != separator,
    decreases ls.len(),
{
    if ls.len() == 0 || trimmed(ls[0]) == separator {
    } else {
        lemma_separator_line(ls.skip(1), separator);
        let k = separator_line(ls.skip(1), separator);
        assert forall|i: int| 0 <= i < 1 + k implies trimmed(#[trigger] ls[i]) != separator by {
            if i > 0 {
                assert(ls.skip(1)[i - 1] == ls[i]);
            }
        }
    }
}

/// The line feed between the lines of a paragraph.
pub open spec fn line_break() -> Seq<char> {
    seq!['\n']
}

/// The empty line between paragraphs.
pub open spec fn paragraph_break() -> Seq<char> {
    seq!['\n', '\n']
}

/// The lines of the paragraph that is still open at the end of `ls`: the
/// lines after the last blank line.
pub open spec fn open_lines(ls: Seq<Seq<char>>) -> Seq<Seq<char>>
    decreases ls.len(),
{
    if ls.len() == 0 || is_blank(ls.last()) {
        Seq::empty()
    } else {
        open_lines(ls.drop_last()).push(ls.last())
    }
}

/// The paragraphs of `ls` that a blank line has closed.
pub open spec fn closed_paragraphs(ls: Seq<Seq<char>>) -> Seq<Seq<char>>
    decreases ls.len(),
{
    if ls.len() == 0 {
        Seq::empty()
    } else if is_blank(ls.last()) && open_lines(ls.drop_last()).len() > 0 {
        closed_paragraphs(ls.drop_last()).push(join(open_lines(ls.drop_last()), line_break()))
    } else {
        closed_paragraphs(ls.drop_last())
    }
}

/// The paragraphs of a list of lines. A paragraph is a longest run of lines
/// that are not blank; its text is its lines with a line feed between them.
pub open spec fn paragraphs(ls: Seq<Seq<char>>) -> Seq<Seq<char>> {
    if open_lines(ls).len() > 0 {
        closed_paragraphs(ls).push(join(open_lines(ls), line_break()))
    } else {
        closed_paragraphs(ls)
    }
}

/// The first `n` items of `s`, or all of them where there are fewer.
pub open spec fn first(s: Seq<Seq<char>>, n: nat) -> Seq<Seq<char>> {
    if n < s.len() {
        s.take(n as int)
    } else {
        s
    }
}

/// The Markdown that a post's excerpt is made of. Where a line of the body
/// is the separator, it is what stands before the first such line. Else it
/// is the first `max_paragraphs` paragraphs of the body, an empty line
/// between them.
pub open spec fn excerpt_source(body: Seq<char>, separator: Seq<char>, max_paragraphs: nat) -> Seq<
    char,
> {
    let ls = lines(body);
    let cut = separator_line(ls, separator);
    if cut < ls.len() {
        join(ls.take(cut), line_break())
    } else {
        join(first(paragraphs(ls), max_paragraphs), paragraph_break())
    }
}

/// Where the body holds the separator, the excerpt is what stands before
/// its first occurrence, however few paragraphs that is and whatever the
/// limit on paragraphs.
pub proof fn lemma_separator_precedence(
    body: Seq<char>,
    separator: Seq<char>,
    max_paragraphs: nat,
    at: int,
)
    requires
        0 <= at < lines(body).len(),
        trimmed(lines(body)[at]) == separator,
    ensures
        separator_line(lines(body), separator) <= at,
        excerpt_source(body, separator, max_paragraphs) == join(
            lines(body).take(separator_line(lines(body), separator)),
            line_break(),
        ),
{
    lemma_separator_line(lines(body), separator);
}

/// The paragraphs of `ls`.
fn split_paragraphs(ls: &Vec<Vec<char>>) -> (r: Vec<Vec<char>>)
    ensures
        texts(r@) == paragraphs(texts(ls@)),
{
    let mut feed: Vec<char> = Vec::new();
    feed.push('\n');
    let mut out: Vec<Vec<char>> = Vec::new();
    let mut start: usize = 0;
    let mut i: usize = 0;
    let ghost all = texts(ls@);
    assert(all.take(0) =~= Seq::<Seq<char>>::empty());
    assert(texts(out@) =~= Seq::<Seq<char>>::empty());
    assert(all.subrange(0, 0) =~= Seq::<Seq<char>>::empty());
    while i < ls.len()
        invariant
            start <= i <= ls@.len(),
            all == texts(ls@),
            feed@ == line_break(),
            texts(out@) == closed_paragraphs(all.take(i as int)),
            open_lines(all.take(i as int)) == all.subrange(start as int, i as int),
        decreases ls@.len() - i,
    {
        let ghost before = all.take(i as int);
        let ghost after = all.take(i + 1);
        proof {
            assert(after.drop_last() =~= before);
            assert(after.last() == ls@[i as int]@);
        }
        if blank(&ls[i]) {
            if start < i {
                let paragraph = join_range(ls, start, i, &feed);
                proof {
                    lemma_texts_push(out@, paragraph);
                }
                out.push(paragraph);
            }
            start = i + 1;
            assert(all.subrange(i + 1, i + 1) =~= Seq::<Seq<char>>::empty());
        } else {
            assert(all.subrange(start as int, i + 1) =~= all.subrange(start as int, i as int).push(
                all[i as int],
            ));
        }
        i += 1;
    }
    assert(all.take(ls@.len() as int) =~= all);
    if start < i {
        let paragraph = join_range(ls, start, i, &feed);
        proof {
            lemma_texts_push(out@, paragraph);
        }
        out.push(paragraph);
    }
    out
}

/// The index of the first line of `ls` that, trimmed, equals `separator`,
/// or the number of lines.
fn find_separator(ls: &Vec<Vec<char>>, separator: &Vec<char>) -> (k: usize)
    ensures
        k == separator_line(texts(ls@), separator@),
        k <= ls@.len(),
{
    let ghost all = texts(ls@);
    let mut i: usize = 0;
    assert(all.skip(0) =~= all);
    while i < ls.len()
        invariant
            i <= ls@.len(),
            all == texts(ls@),
            separator_line(all, separator@) == i + separator_line(all.skip(i as int), separator@),
        decreases ls@.len() - i,
    {
        assert(all.skip(i as int)[0] == ls@[i as int]@);
        if trimmed_is(&ls[i], separator) {
            return i;
        }
        assert(all.skip(i as int).skip(1) =~= all.skip(i + 1));
        i += 1;
    }
    i
}

/// The Markdown that the excerpt of `body` is made of.
pub fn excerpt_markdown(body: &str, separator: &str, max_paragraphs: usize) -> (r: String)
    ensures
        r@ == excerpt_source(body@, separator@, max_paragraphs as nat),
{
    let chars = to_chars(body);
    let sep = to_chars(separator);
    let ls = split_lines(&chars);
    let cut = find_separator(&ls, &sep);
    let mut feed: Vec<char> = Vec::new();
    feed.push('\n');
    if cut < ls.len() {
        let source = join_range(&ls, 0, cut, &feed);
        assert(texts(ls@).subrange(0, cut as int) =~= texts(ls@).take(cut as int));
        assert(texts(ls@).len() == ls@.len());
        string_from_chars(&source)
    } else {
        feed.push('\n');
        let ps = split_paragraphs(&ls);
        let n = if max_paragraphs < ps.len() {
            max_paragraphs
        } else {
            ps.len()
        };
        let source = join_range(&ps, 0, n, &feed);
        proof {
            let all = texts(ps@);
            assert(all.subrange(0, n as int) =~= first(all, max_paragraphs as nat));
            assert(feed@ == paragraph_break());
            assert(texts(ls@).len() == ls@.len());
        }
        string_from_chars(&source)
    }
}

/// The excerpt of `body`, as HTML.
pub fn excerpt(body: &str, separator: &str, max_paragraphs: usize) -> (r: String)
    ensures
        r@ == markdown_html(excerpt_source(body@, separator@, max_paragraphs as nat)),
{
    let source = excerpt_markdown(body, separator, max_paragraphs);
    markdown_to_html(source.as_str())
}

/// Whether a slug keeps the character: a small Latin letter, a digit, or a
/// small Russian letter.
pub open spec fn kept(c: char) -> bool {
    ||| 'a' <= c <= 'z'
    ||| '0' <= c <= '9'
    ||| '\u{430}' <= c <= '\u{44f}'
    ||| c == '\u{451}'
}

/// The slug of a text that is already in lowercase: its runs of kept
/// characters, one hyphen between each two runs.
pub open spec fn slug_of(s: Seq<char>) -> Seq<char>
    decreases s.len(),
{
    if s.len() == 0 {
        Seq::empty()
    } else {
        let before = slug_of(s.drop_last());
        let c = s.last();
        if !kept(c) {
            before
        } else if before.len() > 0 && !kept(s[s.len() - 2]) {
            before.push('-').push(c)
        } else {
            before.push(c)
        }
    }
}

/// A slug holds kept characters and hyphens only. It neither begins nor
/// ends with a hyphen, no two hyphens stand together, and it ends with the
/// last character of the text where that one is kept.
pub proof fn lemma_slug_shape(s: Seq<char>)
    ensures
        forall|i: int| 0 <= i < slug_of(s).len() ==> kept(#[trigger] slug_of(s)[i]) || slug_of(s)[i] == '-',
        slug_of(s).len() > 0 ==> kept(slug_of(s)[0]) && kept(slug_of(s).last()),
        forall|i: int|
            0 <= i < slug_of(s).len() - 1 ==> !(#[trigger] slug_of(s)[i] == '-' && slug_of(s)[i + 1]
                == '-'),
        s.len() > 0 && kept(s.last()) ==> slug_of(s).len() > 0 && slug_of(s).last() == s.last(),
        slug_of(s).len() <= 2 * s.len(),
    decreases s.len(),
{
    if s.len() > 0 {
        lemma_slug_shape(s.drop_last());
        let before = slug_of(s.drop_last());
        let c = s.last();
        if kept(c) && before.len() > 0 && !kept(s[s.len() - 2]) {
            let r = before.push('-').push(c);
            assert(!kept('-'));
            assert forall|i: int| 0 <= i < r.len() - 1 implies !(#[trigger] r[i] == '-' && r[i + 1]
                == '-') by {
                if i < before.len() - 1 {
                    assert(r[i] == before[i] && r[i + 1] == before[i + 1]);
                }
            }
        } else if kept(c) {
            let r = before.push(c);
            assert(!kept('-'));
            assert forall|i: int| 0 <= i < r.len() - 1 implies !(#[trigger] r[i] == '-' && r[i + 1]
                == '-') by {
                if i < before.len() - 1 {
                    assert(r[i] == before[i] && r[i + 1] == before[i + 1]);
                }
            }
        }
    }
}

/// The slug of a tag or a category. The text is put in lowercase; what is
/// then neither a small Latin letter, a digit nor a small Russian letter
/// separates the runs of characters that are, and one hyphen joins them.
pub open spec fn slug(text: Seq<char>) -> Seq<char> {
    slug_of(lowercase(text))
}

fn is_kept(c: char) -> (r: bool)
    ensures
        r == kept(c),
{
    (c >= 'a' && c <= 'z') || (c >= '0' && c <= '9') || (c >= '\u{430}' && c <= '\u{44f}') || c
        == '\u{451}'
}

/// The slug of `text`. It may be empty.
pub fn slugify(text: &str) -> (r: String)
    ensures
        r@ == slug(text@),
{
    let lowered = str_to_lowercase(text);
    slug_of_lowered(lowered.as_str())
}

/// The slug of a text that is already in lowercase. It may be empty.
pub fn slug_of_lowered(lowered: &str) -> (r: String)
    ensures
        r@ == slug_of(lowered@),
{
    let chars = to_chars(lowered);
    let mut out: Vec<char> = Vec::new();
    let mut previous_kept: bool = true;
    let mut i: usize = 0;
    assert(chars@.take(0) =~= Seq::<char>::empty());
    while i < chars.len()
        invariant
            i <= chars@.len(),
            out@ == slug_of(chars@.take(i as int)),
            i > 0 ==> previous_kept == kept(chars@[i - 1]),
        decreases chars@.len() - i,
    {
        let c = chars[i];
        proof {
            let t = chars@.take(i + 1);
            assert(t.drop_last() =~= chars@.take(i as int));
            assert(t.last() == c);
            if i > 0 {
                assert(t[t.len() - 2] == chars@[i - 1]);
            }
        }
        let keep = is_kept(c);
        if keep {
            if out.len() > 0 && !previous_kept {
                out.push('-');
            }
            out.push(c);
        }
        previous_kept = keep;
        i += 1;
    }
    assert(chars@.take(chars@.len() as int) =~= chars@);
    string_from_chars(&out)
}

/// `chrono::NaiveDateTime`: a date and a time of day, carried from reading
/// to writing as it is.
#[verifier::external_type_specification]
#[verifier::external_body]
pub struct ExNaiveDateTime(chrono::NaiveDateTime);

/// The local date and time that a text gives in the form of RFC 3339, if
/// it has that form.
pub uninterp spec fn rfc3339_instant(text: Seq<char>) -> Option<chrono::NaiveDateTime>;

/// The date and time that a text gives under a `strftime` pattern, if it
/// matches the pattern and gives both.
pub uninterp spec fn parsed_instant(text: Seq<char>, pattern: Seq<char>) -> Option<
    chrono::NaiveDateTime,
>;

/// A date and time written under a `strftime` pattern, if the pattern is
/// one that can be written.
pub uninterp spec fn formatted_instant(instant: chrono::NaiveDateTime, pattern: Seq<char>) -> Option<
    Seq<char>,
>;

/// `chrono::DateTime::parse_from_rfc3339`, and `naive_local` on what it
/// gives: the date and time without the offset. A year of RFC 3339 has
/// four digits, so that local time is always in range. The result is
/// named.
#[verifier::external_body]
fn parse_rfc3339(text: &str) -> (r: Option<chrono::NaiveDateTime>)
    ensures
        r == rfc3339_instant(text@),
{
    chrono::DateTime::parse_from_rfc3339(text).ok().map(|instant| instant.naive_local())
}

/// The day that a text gives under a `strftime` pattern, at midnight, if
/// the text matches the pattern and gives a day.
pub uninterp spec fn parsed_day(text: Seq<char>, pattern: Seq<char>) -> Option<chrono::NaiveDateTime>;

/// `chrono::NaiveDate::parse_from_str`, and `and_time` with
/// `NaiveTime::MIN`, which is midnight, on what it gives. The result is
/// named.
#[verifier::external_body]
fn parse_day(text: &str, pattern: &str) -> (r: Option<chrono::NaiveDateTime>)
    ensures
        r == parsed_day(text@, pattern@),
{
    chrono::NaiveDate::parse_from_str(text, pattern).ok().map(|day| day.and_time(chrono::NaiveTime::MIN))
}

/// `chrono::NaiveDateTime::parse_from_str`. The result is named.
#[verifier::external_body]
fn parse_instant(text: &str, pattern: &str) -> (r: Option<chrono::NaiveDateTime>)
    ensures
        r == parsed_instant(text@, pattern@),
{
    chrono::NaiveDateTime::parse_from_str(text, pattern).ok()
}

/// `chrono::NaiveDateTime::format`, written into a string. Writing fails
/// where the pattern holds an item that chrono does not know; the result
/// is then `None`. The result is named.
#[verifier::external_body]
pub(crate) fn format_instant(instant: &chrono::NaiveDateTime, pattern: &str) -> (r: Option<String>)
    ensures
        r is Some == formatted_instant(*instant, pattern@) is Some,
        r is Some ==> r->Some_0@ == formatted_instant(*instant, pattern@)->Some_0,
{
    let mut out = String::new();
    match write!(out, "{}", instant.format(pattern)) {
        Ok(()) => Some(out),
        Err(_) => None,
    }
}

/// The date and time that a post's date gives. Three forms are tried in
/// turn, and the first that fits decides: RFC 3339, then
/// `%Y-%m-%d %H:%M:%S`, then the day alone as `%Y-%m-%d`, which stands for
/// its midnight.
pub open spec fn instant_of(date: Seq<char>) -> Option<chrono::NaiveDateTime> {
    if rfc3339_instant(date) is Some {
        rfc3339_instant(date)
    } else if parsed_instant(date, "%Y-%m-%d %H:%M:%S"@) is Some {
        parsed_instant(date, "%Y-%m-%d %H:%M:%S"@)
    } else {
        parsed_day(date, "%Y-%m-%d"@)
    }
}

/// A post's date as pages show it: written under `pattern` where the date
/// can be read and the pattern written, else the date as it stands.
pub open spec fn shown_date(date: Seq<char>, pattern: Seq<char>) -> Seq<char> {
    match instant_of(date) {
        Some(instant) => match formatted_instant(instant, pattern) {
            Some(text) => text,
            None => date,
        },
        None => date,
    }
}

/// The date as pages show it. A date that cannot be read is handed back
/// unchanged, and so is one whose pattern cannot be written.
pub fn format_date(date: &str, pattern: &str) -> (r: String)
    ensures
        r@ == shown_date(date@, pattern@),
{
    let first = parse_rfc3339(date);
    let instant = if first.is_some() {
        first
    } else {
        let second = parse_instant(date, "%Y-%m-%d %H:%M:%S");
        if second.is_some() {
            second
        } else {
            parse_day(date, "%Y-%m-%d")
        }
    };
    match instant {
        Some(t) => match format_instant(&t, pattern) {
            Some(text) => text,
            None => date.to_owned(),
        },
        None => date.to_owned(),
    }
}

} // verus!

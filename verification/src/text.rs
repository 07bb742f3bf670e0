//! Text helpers over `Seq<char>` models: trimming, joining and replacing.

use vstd::prelude::*;
use vstd::string::StringExecFns;

verus! {

/// Whether a character from U+0080 on has the Unicode `White_Space`
/// property, as `char::is_whitespace` reports it.
pub uninterp spec fn is_wide_white_space(c: char) -> bool;

/// The white space of ASCII: the space and the characters from U+0009
/// (tab) to U+000D (carriage return).
pub open spec fn is_ascii_white_space(c: char) -> bool {
    c == ' ' || ('\t' <= c <= '\r')
}

/// Whether `c` has the Unicode `White_Space` property: below U+0080 the
/// white space of ASCII and nothing else, from there on what
/// `char::is_whitespace` reports.
pub open spec fn is_white_space(c: char) -> bool {
    if c <= '\x7f' {
        is_ascii_white_space(c)
    } else {
        is_wide_white_space(c)
    }
}

/// `char::is_whitespace`: below U+0080 it holds of the space and of U+0009
/// to U+000D and of nothing else; from U+0080 on its result is known only
/// by the name `is_wide_white_space`.
#[verifier::external_body]
fn char_is_whitespace(c: char) -> (b: bool)
    ensures
        b == (if c <= '\x7f' { is_ascii_white_space(c) } else { is_wide_white_space(c) }),
{
    c.is_whitespace()
}

/// `String::push`: appends exactly the character `c`.
#[verifier::external_body]
pub(crate) fn string_push(s: &mut String, c: char)
    ensures
        final(s)@ == old(s)@.push(c),
{
    s.push(c)
}

/// `s` without its trailing white space.
pub open spec fn trim_end_of(s: Seq<char>) -> Seq<char>
    decreases s.len(),
{
    if s.len() > 0 && is_white_space(s.last()) {
        trim_end_of(s.drop_last())
    } else {
        s
    }
}

/// `s` without its leading white space.
pub open spec fn trim_start_of(s: Seq<char>) -> Seq<char>
    decreases s.len(),
{
    if s.len() > 0 && is_white_space(s.first()) {
        trim_start_of(s.drop_first())
    } else {
        s
    }
}

/// `s` without leading and trailing white space.
pub open spec fn trim_of(s: Seq<char>) -> Seq<char> {
    trim_start_of(trim_end_of(s))
}

/// The parts in order, with `sep` between each two neighbours.
pub open spec fn join_of(parts: Seq<Seq<char>>, sep: Seq<char>) -> Seq<char>
    decreases parts.len(),
{
    if parts.len() == 0 {
        Seq::empty()
    } else if parts.len() == 1 {
        parts[0]
    } else {
        join_of(parts.drop_last(), sep) + sep + parts.last()
    }
}

/// `s` with every newline and every tab replaced by one space.
pub open spec fn spaced_of(s: Seq<char>) -> Seq<char> {
    s.map_values(|c: char| if c == '\n' || c == '\t' { ' ' } else { c })
}

/// A trimmed text neither starts nor ends with white space.
pub proof fn lemma_trim_of_has_clean_ends(s: Seq<char>)
    ensures
        trim_of(s).len() > 0 ==> !is_white_space(trim_of(s).first()) && !is_white_space(
            trim_of(s).last(),
        ),
{
    lemma_trim_end_clean(s);
    lemma_trim_start_clean(trim_end_of(s));
    lemma_trim_start_keeps_last(trim_end_of(s));
}

/// A text that neither starts nor ends with white space is its own trim.
pub proof fn lemma_trim_of_clean_text(s: Seq<char>)
    requires
        s.len() > 0 ==> !is_white_space(s.first()) && !is_white_space(s.last()),
    ensures
        trim_of(s) == s,
{
}

/// What is left of a text without its trailing white space is a prefix of
/// the text.
pub proof fn lemma_trim_end_is_prefix(text: Seq<char>)
    ensures
        trim_end_of(text).len() <= text.len(),
        trim_end_of(text) == text.take(trim_end_of(text).len() as int),
    decreases text.len(),
{
    if text.len() > 0 && is_white_space(text.last()) {
        lemma_trim_end_is_prefix(text.drop_last());
    }
}

/// A text of ASCII that starts and ends with a character that is not
/// white space is its own trim; trailing line breaks and spaces go.
pub proof fn lemma_trim_of_ascii(s: Seq<char>, tail: Seq<char>)
    requires
        s.len() > 0,
        s.first() <= '\x7f' && !is_ascii_white_space(s.first()),
        s.last() <= '\x7f' && !is_ascii_white_space(s.last()),
        forall|i: int| 0 <= i < tail.len() ==> is_ascii_white_space(#[trigger] tail[i]),
    ensures
        trim_of(s) == s,
        trim_end_of(s + tail) == s,
        trim_of(tail + s + tail) == s,
    decreases tail.len(),
{
    lemma_trim_end_drops_tail(s, tail);
    lemma_trim_end_drops_tail(tail + s, tail);
    lemma_trim_start_drops_head(tail, s);
}

proof fn lemma_trim_end_drops_tail(s: Seq<char>, tail: Seq<char>)
    requires
        s.len() > 0 ==> !is_white_space(s.last()),
        forall|i: int| 0 <= i < tail.len() ==> is_white_space(#[trigger] tail[i]),
    ensures
        trim_end_of(s + tail) == s,
    decreases tail.len(),
{
    if tail.len() > 0 {
        lemma_trim_end_drops_tail(s, tail.drop_last());
        assert((s + tail).drop_last() =~= s + tail.drop_last());
        assert((s + tail).last() == tail.last());
    } else {
        assert(s + tail =~= s);
    }
}

proof fn lemma_trim_start_drops_head(head: Seq<char>, s: Seq<char>)
    requires
        s.len() > 0 ==> !is_white_space(s.first()),
        forall|i: int| 0 <= i < head.len() ==> is_white_space(#[trigger] head[i]),
    ensures
        trim_start_of(head + s) == s,
    decreases head.len(),
{
    if head.len() > 0 {
        lemma_trim_start_drops_head(head.drop_first(), s);
        assert((head + s).drop_first() =~= head.drop_first() + s);
        assert((head + s).first() == head.first());
    } else {
        assert(head + s =~= s);
    }
}

/// Trimming twice is trimming once.
pub proof fn lemma_trim_of_idempotent(s: Seq<char>)
    ensures
        trim_of(trim_of(s)) == trim_of(s),
{
    lemma_trim_of_has_clean_ends(s);
    lemma_trim_of_clean_text(trim_of(s));
}

proof fn lemma_trim_end_clean(s: Seq<char>)
    ensures
        trim_end_of(s).len() > 0 ==> !is_white_space(trim_end_of(s).last()),
        trim_end_of(s).len() <= s.len(),
    decreases s.len(),
{
    if s.len() > 0 && is_white_space(s.last()) {
        lemma_trim_end_clean(s.drop_last());
    }
}

proof fn lemma_trim_start_clean(s: Seq<char>)
    ensures
        trim_start_of(s).len() > 0 ==> !is_white_space(trim_start_of(s).first()),
        trim_start_of(s).len() <= s.len(),
    decreases s.len(),
{
    if s.len() > 0 && is_white_space(s.first()) {
        lemma_trim_start_clean(s.drop_first());
    }
}

proof fn lemma_trim_start_keeps_last(s: Seq<char>)
    ensures
        trim_start_of(s).len() > 0 ==> trim_start_of(s).last() == s.last(),
    decreases s.len(),
{
    if s.len() > 0 && is_white_space(s.first()) {
        lemma_trim_start_keeps_last(s.drop_first());
    }
}

/// The characters of `s`.
pub fn to_chars(s: &str) -> (chars: Vec<char>)
    ensures
        chars@ == s@,
{
    let mut chars: Vec<char> = Vec::new();
    for c in it: s.chars()
        invariant
            chars@ == it.seq().take(it.index() as int),
            it.seq() == s@,
    {
        chars.push(c);
    }
    chars
}

/// The text made of `chars[from..to]`.
pub fn from_chars(chars: &Vec<char>, from: usize, to: usize) -> (s: String)
    requires
        from <= to <= chars.len(),
    ensures
        s@ == chars@.subrange(from as int, to as int),
{
    let mut s = String::new();
    let mut i: usize = from;
    while i < to
        invariant
            from <= i <= to <= chars.len(),
            s@ == chars@.subrange(from as int, i as int),
        decreases to - i,
    {
        string_push(&mut s, chars[i]);
        i += 1;
        assert(chars@.subrange(from as int, i as int) == chars@.subrange(
            from as int,
            i as int - 1,
        ).push(chars@[i as int - 1]));
    }
    s
}

/// How many characters of `chars` are left when trailing white space goes.
fn trimmed_end(chars: &Vec<char>) -> (end: usize)
    ensures
        end <= chars.len(),
        trim_end_of(chars@) == chars@.take(end as int),
{
    let mut end: usize = chars.len();
    assert(chars@.take(end as int) == chars@);
    while end > 0 && char_is_whitespace(chars[end - 1])
        invariant
            end <= chars.len(),
            trim_end_of(chars@) == trim_end_of(chars@.take(end as int)),
        decreases end,
    {
        assert(chars@.take(end as int).drop_last() == chars@.take(end as int - 1));
        end -= 1;
    }
    end
}

/// Where the text `chars[..end]` starts once leading white space goes.
fn trimmed_start(chars: &Vec<char>, end: usize) -> (start: usize)
    requires
        end <= chars.len(),
    ensures
        start <= end,
        trim_start_of(chars@.take(end as int)) == chars@.subrange(start as int, end as int),
{
    let mut start: usize = 0;
    while start < end && char_is_whitespace(chars[start])
        invariant
            start <= end <= chars.len(),
            trim_start_of(chars@.take(end as int)) == trim_start_of(
                chars@.subrange(start as int, end as int),
            ),
        decreases end - start,
    {
        assert(chars@.subrange(start as int, end as int).drop_first() == chars@.subrange(
            start as int + 1,
            end as int,
        ));
        start += 1;
    }
    start
}

/// `s` without leading and trailing white space.
pub fn trim(s: &str) -> (r: String)
    ensures
        r@ == trim_of(s@),
{
    let chars = to_chars(s);
    let end = trimmed_end(&chars);
    let start = trimmed_start(&chars, end);
    from_chars(&chars, start, end)
}

/// `s` without trailing white space.
pub fn trim_end(s: &str) -> (r: String)
    ensures
        r@ == trim_end_of(s@),
{
    let chars = to_chars(s);
    let end = trimmed_end(&chars);
    from_chars(&chars, 0, end)
}

/// The parts in order, with `sep` between each two neighbours.
pub fn join(parts: &Vec<String>, sep: &str) -> (r: String)
    ensures
        r@ == join_of(parts.deep_view(), sep@),
{
    let mut r = String::new();
    let mut i: usize = 0;
    while i < parts.len()
        invariant
            i <= parts.len(),
            r@ == join_of(parts.deep_view().take(i as int), sep@),
        decreases parts.len() - i,
    {
        let ghost before = parts.deep_view().take(i as int);
        let ghost after = parts.deep_view().take(i as int + 1);
        assert(after.drop_last() == before);
        if i > 0 {
            r.append(sep);
        }
        r.append(parts[i].as_str());
        i += 1;
    }
    assert(parts.deep_view().take(i as int) == parts.deep_view());
    r
}

/// `s` with every newline and every tab replaced by one space.
pub fn spaced(s: &str) -> (r: String)
    ensures
        r@ == spaced_of(s@),
{
    let chars = to_chars(s);
    let mut r = String::new();
    let mut i: usize = 0;
    while i < chars.len()
        invariant
            i <= chars.len(),
            chars@ == s@,
            r@ == spaced_of(s@.take(i as int)),
        decreases chars.len() - i,
    {
        let c = chars[i];
        let d = if c == '\n' || c == '\t' {
            ' '
        } else {
            c
        };
        string_push(&mut r, d);
        i += 1;
    }
    r
}

/// Whether two texts are the same.
pub fn same_text(a: &str, b: &str) -> (same: bool)
    ensures
        same == (a@ == b@),
{
    let x = to_chars(a);
    let y = to_chars(b);
    if x.len() != y.len() {
        return false;
    }
    let mut i: usize = 0;
    while i < x.len()
        invariant
            i <= x.len(),
            x.len() == y.len(),
            x@ == a@,
            y@ == b@,
            x@.take(i as int) == y@.take(i as int),
        decreases x.len() - i,
    {
        if x[i] != y[i] {
            return false;
        }
        i += 1;
    }
    assert(x@.take(i as int) == x@);
    assert(y@.take(i as int) == y@);
    true
}

/// A copy of the texts, in their order.
pub fn copy_texts(texts: &Vec<String>) -> (copy: Vec<String>)
    ensures
        copy.deep_view() == texts.deep_view(),
{
    let mut copy: Vec<String> = Vec::new();
    let mut i: usize = 0;
    while i < texts.len()
        invariant
            i <= texts.len(),
            copy.len() == i,
            copy.deep_view() == texts.deep_view().take(i as int),
        decreases texts.len() - i,
    {
        copy.push(texts[i].clone());
        i += 1;
    }
    copy
}

} // verus!

//! Text primitives over the character sequences of strings: comparing, trimming, ASCII case
//! folding, splitting and joining.
use vstd::prelude::*;
use vstd::string::{StrSliceExecFns, StringExecFns};

verus! {

/// `String::push` of std appends one character to the end of the string.
pub assume_specification[ String::push ](s: &mut String, c: char)
    ensures
        final(s)@ == old(s)@.push(c),
;

/// The characters of `s`, in order.
pub fn chars_of(s: &str) -> (r: Vec<char>)
    ensures
        r@ == s@,
{
    let mut r: Vec<char> = Vec::new();
    for c in it: s.chars()
        invariant
            r@ == it.seq().take(it.index()),
            it.seq() == s@,
    {
        r.push(c);
    }
    r
}

/// The string made of the characters of `chars` from `from` up to `to`.
pub fn string_of(chars: &Vec<char>, from: usize, to: usize) -> (r: String)
    requires
        from <= to <= chars.len(),
    ensures
        r@ == chars@.subrange(from as int, to as int),
{
    let mut r: String = String::new();
    let mut i: usize = from;
    while i < to
        invariant
            from <= i <= to <= chars.len(),
            r@ == chars@.subrange(from as int, i as int),
        decreases to - i,
    {
        r.push(chars[i]);
        i += 1;
    }
    r
}

/// Two strings with the same UTF-8 bytes have the same characters.
pub proof fn lemma_same_bytes(a: Seq<char>, b: Seq<char>)
    ensures
        vstd::utf8::encode_utf8(a) == vstd::utf8::encode_utf8(b) <==> a == b,
{
    vstd::utf8::encode_utf8_decode_utf8(a);
    vstd::utf8::encode_utf8_decode_utf8(b);
}

/// Whether two strings hold the same characters.
pub fn same(a: &str, b: &str) -> (r: bool)
    ensures
        r == (a@ == b@),
{
    proof {
        lemma_same_bytes(a@, b@);
    }
    let x: &[u8] = a.as_bytes();
    let y: &[u8] = b.as_bytes();
    if x.len() != y.len() {
        return false;
    }
    let mut i: usize = 0;
    while i < x.len()
        invariant
            i <= x.len(),
            x.len() == y.len(),
            x@ == vstd::utf8::encode_utf8(a@),
            y@ == vstd::utf8::encode_utf8(b@),
            vstd::utf8::encode_utf8(a@) == vstd::utf8::encode_utf8(b@) <==> a@ == b@,
            forall|j: int| 0 <= j < i ==> x@[j] == y@[j],
        decreases x.len() - i,
    {
        if x[i] != y[i] {
            return false;
        }
        i += 1;
    }
    assert(x@ =~= y@);
    true
}

/// The characters with the Unicode property `White_Space`.
pub open spec fn white(c: char) -> bool {
    let n = c as u32;
    ||| 0x9 <= n <= 0xd
    ||| n == 0x20
    ||| n == 0x85
    ||| n == 0xa0
    ||| n == 0x1680
    ||| 0x2000 <= n <= 0x200a
    ||| n == 0x2028
    ||| n == 0x2029
    ||| n == 0x202f
    ||| n == 0x205f
    ||| n == 0x3000
}

/// Whether `c` is white space.
pub fn is_white(c: char) -> (r: bool)
    ensures
        r == white(c),
{
    let n: u32 = c as u32;
    (0x9 <= n && n <= 0xd) || n == 0x20 || n == 0x85 || n == 0xa0 || n == 0x1680 || (0x2000 <= n
        && n <= 0x200a) || n == 0x2028 || n == 0x2029 || n == 0x202f || n == 0x205f || n == 0x3000
}

/// Nothing but white space; the empty text is blank.
pub open spec fn blank(s: Seq<char>) -> bool {
    forall|i: int| 0 <= i < s.len() ==> white(#[trigger] s[i])
}

/// Whether `s` is blank.
pub fn is_blank(s: &str) -> (r: bool)
    ensures
        r == blank(s@),
{
    for c in it: s.chars()
        invariant
            it.seq() == s@,
            forall|j: int| 0 <= j < it.index() ==> white(#[trigger] s@[j]),
    {
        if !is_white(c) {
            assert(s@[it.index()] == c);
            return false;
        }
    }
    true
}

/// `s` without its leading white space.
pub open spec fn trim_front(s: Seq<char>) -> Seq<char>
    decreases s.len(),
{
    if s.len() > 0 && white(s[0]) {
        trim_front(s.drop_first())
    } else {
        s
    }
}

/// `s` without its trailing white space.
pub open spec fn trim_back(s: Seq<char>) -> Seq<char>
    decreases s.len(),
{
    if s.len() > 0 && white(s.last()) {
        trim_back(s.drop_last())
    } else {
        s
    }
}

/// `s` without leading and trailing white space.
pub open spec fn trimmed(s: Seq<char>) -> Seq<char> {
    trim_back(trim_front(s))
}

/// The part of `s` without leading and trailing white space.
pub fn trim<'a>(s: &'a str) -> (r: &'a str)
    ensures
        r@ == trimmed(s@),
{
    let chars: Vec<char> = chars_of(s);
    let mut from: usize = 0;
    let mut to: usize = chars.len();
    assert(chars@.skip(0) =~= s@);
    while from < to && is_white(chars[from])
        invariant
            chars@ == s@,
            from <= to == chars.len(),
            trim_front(s@) == trim_front(chars@.skip(from as int)),
        decreases to - from,
    {
        assert(chars@.skip(from as int).drop_first() =~= chars@.skip(from + 1));
        from += 1;
    }
    assert(trim_front(s@) == chars@.skip(from as int));
    assert(chars@.skip(from as int) =~= chars@.subrange(from as int, to as int));
    while from < to && is_white(chars[to - 1])
        invariant
            chars@ == s@,
            from <= to <= chars.len(),
            trimmed(s@) == trim_back(chars@.subrange(from as int, to as int)),
        decreases to - from,
    {
        assert(chars@.subrange(from as int, to as int).drop_last() =~= chars@.subrange(
            from as int,
            to - 1,
        ));
        to -= 1;
    }
    assert(trimmed(s@) == chars@.subrange(from as int, to as int));
    s.substring_char(from, to)
}

/// The lower-case letter of an ASCII capital; every other character as it is.
pub open spec fn lower_char(c: char) -> char {
    if 'A' <= c <= 'Z' {
        (c as u32 + 32) as char
    } else {
        c
    }
}

/// `s` with its ASCII capitals in lower case.
pub open spec fn lowered(s: Seq<char>) -> Seq<char> {
    s.map_values(|c: char| lower_char(c))
}

/// `s` with its ASCII capitals in lower case.
pub fn lowercase(s: &str) -> (r: String)
    ensures
        r@ == lowered(s@),
{
    let mut r: String = String::new();
    for c in it: s.chars()
        invariant
            it.seq() == s@,
            r@ == lowered(s@).take(it.index()),
    {
        let low: char = if 'A' <= c && c <= 'Z' {
            ((c as u8) + 32) as char
        } else {
            c
        };
        assert(low == lower_char(c));
        r.push(low);
    }
    assert(lowered(s@).take(s@.len() as int) =~= lowered(s@));
    r
}

/// The position of the first `mark` in `s`, or the length of `s` where there is none.
pub open spec fn mark_at(s: Seq<char>, mark: char) -> int
    decreases s.len(),
{
    if s.len() == 0 || s[0] == mark {
        0
    } else {
        1 + mark_at(s.drop_first(), mark)
    }
}

/// The first `mark` stands behind a prefix without it.
pub proof fn lemma_mark_at(s: Seq<char>, mark: char)
    ensures
        0 <= mark_at(s, mark) <= s.len(),
        mark_at(s, mark) < s.len() ==> s[mark_at(s, mark)] == mark,
        forall|i: int| 0 <= i < mark_at(s, mark) ==> s[i] != mark,
    decreases s.len(),
{
    if s.len() > 0 && s[0] != mark {
        let rest = s.drop_first();
        lemma_mark_at(rest, mark);
        assert forall|i: int| 0 <= i < mark_at(s, mark) implies s[i] != mark by {
            if i > 0 {
                assert(rest[i - 1] == s[i]);
            }
        }
        if mark_at(s, mark) < s.len() {
            assert(rest[mark_at(rest, mark)] == s[mark_at(s, mark)]);
        }
    }
}

/// A position before which no `mark` stands, and which is the end or a `mark`, is the first one.
pub proof fn lemma_mark_at_is(s: Seq<char>, mark: char, at: int)
    requires
        0 <= at <= s.len(),
        at < s.len() ==> s[at] == mark,
        forall|i: int| 0 <= i < at ==> s[i] != mark,
    ensures
        mark_at(s, mark) == at,
{
    lemma_mark_at(s, mark);
    let found = mark_at(s, mark);
    if found < at {
        assert(s[found] == mark);
    } else if at < found {
        assert(s[at] == mark);
    }
}

/// The parts of `s` between the marks, the empty ones too; a text without a mark is one part.
pub open spec fn parts_of(s: Seq<char>, mark: char) -> Seq<Seq<char>>
    decreases s.len(),
{
    let at = mark_at(s, mark);
    if 0 <= at < s.len() {
        seq![s.take(at)] + parts_of(s.skip(at + 1), mark)
    } else {
        seq![s]
    }
}

/// The views of the strings of a vector.
pub open spec fn views(v: Seq<String>) -> Seq<Seq<char>> {
    Seq::new(v.len(), |i: int| v[i]@)
}

/// The position of the first `mark` in `chars` from `from` on, or the length.
pub fn find_mark(chars: &Vec<char>, from: usize, mark: char) -> (r: usize)
    requires
        from <= chars.len(),
    ensures
        from <= r <= chars.len(),
        r == from + mark_at(chars@.skip(from as int), mark),
{
    let mut i: usize = from;
    while i < chars.len() && chars[i] != mark
        invariant
            from <= i <= chars.len(),
            forall|j: int| from <= j < i ==> chars@[j] != mark,
        decreases chars.len() - i,
    {
        i += 1;
    }
    proof {
        lemma_mark_at_is(chars@.skip(from as int), mark, i - from);
    }
    i
}

/// The parts of `s` between the marks.
pub fn split(s: &str, mark: char) -> (r: Vec<String>)
    ensures
        views(r@) == parts_of(s@, mark),
{
    let chars: Vec<char> = chars_of(s);
    let mut r: Vec<String> = Vec::new();
    let mut from: usize = 0;
    assert(chars@.skip(0) =~= s@);
    assert(views(r@) + parts_of(chars@.skip(0), mark) =~= parts_of(s@, mark));
    loop
        invariant
            from <= chars.len(),
            views(r@) + parts_of(chars@.skip(from as int), mark) == parts_of(s@, mark),
        decreases chars.len() - from,
    {
        let ghost rest = chars@.skip(from as int);
        let at: usize = find_mark(&chars, from, mark);
        let part: String = string_of(&chars, from, at);
        let ghost done = r@;
        r.push(part);
        assert(rest.take(at - from) =~= part@);
        assert(views(r@) =~= views(done).push(part@));
        if at == chars.len() {
            assert(rest =~= part@);
            assert(views(r@) =~= views(done) + seq![rest]);
            return r;
        }
        assert(rest.skip(at - from + 1) =~= chars@.skip(at + 1));
        assert(views(r@) + parts_of(chars@.skip(at + 1), mark) =~= views(done) + parts_of(rest, mark));
        from = at + 1;
    }
}

/// The text before the first `mark` and the text behind it, where there is one.
pub open spec fn cut(s: Seq<char>, mark: char) -> Option<(Seq<char>, Seq<char>)> {
    let at = mark_at(s, mark);
    if at < s.len() {
        Some((s.take(at), s.skip(at + 1)))
    } else {
        None
    }
}

/// The text before the first `mark` and the text behind it.
pub fn split_once(s: &str, mark: char) -> (r: Option<(String, String)>)
    ensures
        match r {
            Some(pair) => cut(s@, mark) == Some((pair.0@, pair.1@)),
            None => cut(s@, mark) is None,
        },
{
    let chars: Vec<char> = chars_of(s);
    assert(chars@.skip(0) =~= s@);
    let at: usize = find_mark(&chars, 0, mark);
    if at == chars.len() {
        return None;
    }
    let before: String = string_of(&chars, 0, at);
    let behind: String = string_of(&chars, at + 1, chars.len());
    assert(before@ =~= s@.take(at as int));
    assert(behind@ =~= s@.skip(at + 1));
    Some((before, behind))
}

/// Whether `s` begins with `prefix`.
pub fn starts_with(s: &str, prefix: &str) -> (r: bool)
    ensures
        r == prefix@.is_prefix_of(s@),
{
    let whole: Vec<char> = chars_of(s);
    let front: Vec<char> = chars_of(prefix);
    if front.len() > whole.len() {
        return false;
    }
    let mut i: usize = 0;
    while i < front.len()
        invariant
            i <= front.len() <= whole.len(),
            whole@ == s@,
            front@ == prefix@,
            forall|j: int| 0 <= j < i ==> front@[j] == whole@[j],
        decreases front.len() - i,
    {
        if front[i] != whole[i] {
            assert(s@.subrange(0, prefix@.len() as int)[i as int] != prefix@[i as int]);
            return false;
        }
        i += 1;
    }
    assert(s@.subrange(0, prefix@.len() as int) =~= prefix@);
    true
}

/// The parts with `mark` between each two neighbours.
pub open spec fn joined(parts: Seq<Seq<char>>, mark: Seq<char>) -> Seq<char>
    decreases parts.len(),
{
    if parts.len() == 0 {
        Seq::empty()
    } else if parts.len() == 1 {
        parts[0]
    } else {
        joined(parts.drop_last(), mark) + mark + parts.last()
    }
}

/// The strings with `mark` between each two neighbours.
pub fn join(parts: &Vec<String>, mark: &str) -> (r: String)
    ensures
        r@ == joined(views(parts@), mark@),
{
    let mut r: String = String::new();
    let mut i: usize = 0;
    while i < parts.len()
        invariant
            i <= parts.len(),
            r@ == joined(views(parts@).take(i as int), mark@),
        decreases parts.len() - i,
    {
        let ghost next = views(parts@).take(i + 1);
        assert(next.drop_last() =~= views(parts@).take(i as int));
        assert(next.last() == parts@[i as int]@);
        if i > 0 {
            r.append(mark);
        }
        r.append(parts[i].as_str());
        assert(r@ =~= joined(next, mark@));
        i += 1;
    }
    assert(views(parts@).take(parts.len() as int) =~= views(parts@));
    r
}

/// White space around a text is cut off, whatever stands between.
pub proof fn trimming_leaves_the_inner_text(
    before: Seq<char>,
    inner: Seq<char>,
    behind: Seq<char>,
)
    requires
        forall|i: int| 0 <= i < before.len() ==> white(#[trigger] before[i]),
        forall|i: int| 0 <= i < behind.len() ==> white(#[trigger] behind[i]),
        inner.len() > 0 ==> !white(inner[0]) && !white(inner.last()),
    ensures
        trimmed(before + inner + behind) == inner,
    decreases before.len() + behind.len(),
{
    let s = before + inner + behind;
    if before.len() > 0 {
        let rest = before.drop_first();
        assert forall|i: int| 0 <= i < rest.len() implies white(#[trigger] rest[i]) by {
            assert(rest[i] == before[i + 1]);
        }
        assert(s[0] == before[0]);
        assert(s.drop_first() =~= rest + inner + behind);
        trimming_leaves_the_inner_text(rest, inner, behind);
    } else if inner.len() > 0 {
        assert(s[0] == inner[0]);
        lemma_trim_back(inner, behind);
        assert(s =~= inner + behind);
    } else {
        assert(s =~= behind);
        lemma_trim_front_blank(behind);
        assert(trim_back(trim_front(s)) =~= inner);
    }
}

/// Nothing is left in front of white space alone.
proof fn lemma_trim_front_blank(s: Seq<char>)
    requires
        forall|i: int| 0 <= i < s.len() ==> white(#[trigger] s[i]),
    ensures
        trim_front(s) == Seq::<char>::empty(),
    decreases s.len(),
{
    if s.len() > 0 {
        let rest = s.drop_first();
        assert forall|i: int| 0 <= i < rest.len() implies white(#[trigger] rest[i]) by {
            assert(rest[i] == s[i + 1]);
        }
        lemma_trim_front_blank(rest);
    } else {
        assert(s =~= Seq::empty());
    }
}

/// White space behind a text is cut off.
proof fn lemma_trim_back(inner: Seq<char>, behind: Seq<char>)
    requires
        inner.len() > 0,
        !white(inner.last()),
        forall|i: int| 0 <= i < behind.len() ==> white(#[trigger] behind[i]),
    ensures
        trim_back(inner + behind) == inner,
    decreases behind.len(),
{
    let s = inner + behind;
    if behind.len() > 0 {
        let rest = behind.drop_last();
        assert forall|i: int| 0 <= i < rest.len() implies white(#[trigger] rest[i]) by {
            assert(rest[i] == behind[i]);
        }
        assert(s.last() == behind.last());
        assert(s.drop_last() =~= inner + rest);
        lemma_trim_back(inner, rest);
    } else {
        assert(s =~= inner);
    }
}

/// White space are the 25 characters that Unicode counts as such, and no others.
pub proof fn white_space_is_that_of_unicode(c: char, r: bool)
    requires
        call_ensures(is_white, (c,), r),
    ensures
        r <==> {
            let n = c as u32;
            ||| n == 0x9 || n == 0xa || n == 0xb || n == 0xc || n == 0xd || n == 0x20
            ||| n == 0x85 || n == 0xa0 || n == 0x1680
            ||| n == 0x2000 || n == 0x2001 || n == 0x2002 || n == 0x2003 || n == 0x2004
            ||| n == 0x2005 || n == 0x2006 || n == 0x2007 || n == 0x2008 || n == 0x2009
            ||| n == 0x200a || n == 0x2028 || n == 0x2029 || n == 0x202f || n == 0x205f
            ||| n == 0x3000
        },
        r == white(c),
{
}

/// A text is blank where it holds nothing but white space.
pub proof fn blank_texts_are_white(s: &str, r: bool)
    requires
        call_ensures(is_blank, (s,), r),
    ensures
        !r <==> exists|i: int| 0 <= i < s@.len() && !white(#[trigger] s@[i]),
{
}

/// Trimming cuts white space off both ends, and nothing else.
pub proof fn trimming_cuts_both_ends(
    s: &str,
    r: &str,
    before: Seq<char>,
    inner: Seq<char>,
    behind: Seq<char>,
)
    requires
        call_ensures(trim, (s,), r),
        s@ == before + inner + behind,
        forall|i: int| 0 <= i < before.len() ==> white(#[trigger] before[i]),
        forall|i: int| 0 <= i < behind.len() ==> white(#[trigger] behind[i]),
        inner.len() > 0 ==> !white(inner[0]) && !white(inner.last()),
    ensures
        r@ == inner,
{
    trimming_leaves_the_inner_text(before, inner, behind);
}

/// Lower case changes the 26 capitals of ASCII to their small letters, each in its place, and no
/// other character.
pub proof fn lower_case_changes_ascii_capitals(s: &str, r: String, i: int)
    requires
        call_ensures(lowercase, (s,), r),
        0 <= i < s@.len(),
    ensures
        r@.len() == s@.len(),
        'A' <= s@[i] <= 'Z' ==> r@[i] as u32 == s@[i] as u32 + 32,
        s@[i] < 'A' || s@[i] > 'Z' ==> r@[i] == s@[i],
{
    assert(r@ == lowered(s@));
}

/// Every character of lower case is the lower case of the character in its place.
pub proof fn lower_case_keeps_places(s: Seq<char>)
    ensures
        lowered(s).len() == s.len(),
        forall|i: int|
            0 <= i < s.len() ==> {
                &&& 'A' <= s[i] <= 'Z' ==> (#[trigger] lowered(s)[i]) as u32 == s[i] as u32 + 32
                &&& s[i] < 'A' || s[i] > 'Z' ==> lowered(s)[i] == s[i]
            },
{
}

/// Two texts are the same where they hold the same characters, and one begins with the other where
/// its first characters are those of the other.
pub proof fn texts_are_compared_by_their_characters(a: &str, b: &str, same_text: bool, begins: bool)
    requires
        call_ensures(same, (a, b), same_text),
        call_ensures(starts_with, (a, b), begins),
    ensures
        same_text <==> a@.len() == b@.len() && forall|i: int|
            0 <= i < a@.len() ==> a@[i] == b@[i],
        begins <==> b@.len() <= a@.len() && forall|i: int| 0 <= i < b@.len() ==> a@[i] == b@[i],
{
    if a@.len() == b@.len() && (forall|i: int| 0 <= i < a@.len() ==> a@[i] == b@[i]) {
        assert(a@ =~= b@);
    }
    if b@.len() <= a@.len() {
        let front = a@.subrange(0, b@.len() as int);
        if forall|i: int| 0 <= i < b@.len() ==> a@[i] == b@[i] {
            assert(front =~= b@);
        }
        if begins {
            assert forall|i: int| 0 <= i < b@.len() implies a@[i] == b@[i] by {
                assert(front[i] == a@[i]);
            }
        }
    }
}

/// A text is split at the first mark: the mark stands between the two parts and not in the first
/// one. A text without the mark is not split.
pub proof fn a_text_is_split_at_the_first_mark(s: &str, mark: char, r: Option<(String, String)>)
    requires
        call_ensures(split_once, (s, mark), r),
    ensures
        r is None <==> !s@.contains(mark),
        r is Some ==> s@ == (r->0).0@ + seq![mark] + (r->0).1@ && !(r->0).0@.contains(mark),
{
    lemma_mark_at(s@, mark);
    let at = mark_at(s@, mark);
    if at < s@.len() {
        assert(s@[at] == mark);
        assert(s@ =~= s@.take(at) + seq![mark] + s@.skip(at + 1));
        assert forall|i: int| 0 <= i < at implies s@.take(at)[i] != mark by {}
    }
}

/// The parts of a text, with the mark between each two of them, make up the text, and none of them
/// holds the mark; there is always one.
pub proof fn parts_make_up_the_text(s: Seq<char>, mark: char)
    ensures
        joined(parts_of(s, mark), seq![mark]) == s,
        parts_of(s, mark).len() > 0,
        forall|i: int|
            0 <= i < parts_of(s, mark).len() ==> !(#[trigger] parts_of(s, mark)[i]).contains(mark),
    decreases s.len(),
{
    lemma_mark_at(s, mark);
    let at = mark_at(s, mark);
    let parts = parts_of(s, mark);
    if 0 <= at < s.len() {
        let rest = s.skip(at + 1);
        let others = parts_of(rest, mark);
        parts_make_up_the_text(rest, mark);
        lemma_joined_first(s.take(at), others, seq![mark]);
        assert(s =~= s.take(at) + seq![mark] + rest);
        assert forall|i: int| 0 <= i < parts.len() implies !(#[trigger] parts[i]).contains(
            mark,
        ) by {
            if i > 0 {
                assert(parts[i] == others[i - 1]);
            }
        }
    } else {
        assert(parts =~= seq![s]);
        assert forall|i: int| 0 <= i < parts.len() implies !(#[trigger] parts[i]).contains(
            mark,
        ) by {
            assert(parts[i] == s);
        }
    }
}

/// The first part stands in front of the others.
proof fn lemma_joined_first(first: Seq<char>, others: Seq<Seq<char>>, mark: Seq<char>)
    requires
        others.len() > 0,
    ensures
        joined(seq![first] + others, mark) == first + mark + joined(others, mark),
    decreases others.len(),
{
    let all = seq![first] + others;
    assert(all.drop_last() =~= seq![first] + others.drop_last());
    assert(all.last() == others.last());
    if others.len() == 1 {
        assert(all.drop_last() =~= seq![first]);
        assert(joined(all.drop_last(), mark) == first);
    } else {
        lemma_joined_first(first, others.drop_last(), mark);
        assert(first + mark + joined(others.drop_last(), mark) + mark + others.last() =~= first
            + mark + joined(others, mark));
    }
}

/// Splitting and joining are about the same parts: what is split comes in parts without the mark
/// that make up the text, and joining puts the mark between each two neighbours.
pub proof fn splitting_and_joining_fit(s: &str, mark: char, r: Vec<String>, between: &str, again: String)
    requires
        call_ensures(split, (s, mark), r),
        between@ == seq![mark],
        call_ensures(join, (&r, between), again),
    ensures
        again@ == s@,
        forall|i: int| 0 <= i < r@.len() ==> !(#[trigger] r@[i])@.contains(mark),
{
    parts_make_up_the_text(s@, mark);
    assert forall|i: int| 0 <= i < r@.len() implies !(#[trigger] r@[i])@.contains(mark) by {
        assert(views(r@)[i] == r@[i]@);
    }
}

/// Joining no part gives nothing, joining one gives the part, and one more part stands behind the
/// others and a mark.
pub proof fn joining_puts_marks_between(parts: Seq<Seq<char>>, part: Seq<char>, mark: Seq<char>)
    ensures
        joined(Seq::empty(), mark) == Seq::<char>::empty(),
        joined(seq![part], mark) == part,
        parts.len() > 0 ==> joined(parts.push(part), mark) == joined(parts, mark) + mark + part,
{
    assert(parts.push(part).drop_last() =~= parts);
}

} // verus!

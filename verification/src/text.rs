//! Character and string helpers shared by the judges and validators.
//!
//! Strings are reasoned about through their view, a `Seq<char>` of Unicode
//! scalar values, so "length" below always means the number of scalar values.
use vstd::prelude::*;

verus! {

/// The Unicode `White_Space` property, which is what `char::is_whitespace`
/// and `str::trim` test.
pub open spec fn is_white_space(c: char) -> bool {
    let u = c as u32;
    ||| u == 0x20
    ||| (0x09 <= u && u <= 0x0d)
    ||| u == 0x85
    ||| u == 0xa0
    ||| u == 0x1680
    ||| (0x2000 <= u && u <= 0x200a)
    ||| u == 0x2028
    ||| u == 0x2029
    ||| u == 0x202f
    ||| u == 0x205f
    ||| u == 0x3000
}

/// Whether every character of `s` is white space (true of the empty sequence).
pub open spec fn all_white_space(s: Seq<char>) -> bool {
    forall|i: int| 0 <= i < s.len() ==> #[trigger] is_white_space(s[i])
}

/// `s` with its leading white space removed.
pub open spec fn trim_start_seq(s: Seq<char>) -> Seq<char>
    decreases s.len(),
{
    if s.len() > 0 && is_white_space(s[0]) {
        trim_start_seq(s.drop_first())
    } else {
        s
    }
}

/// `s` with its trailing white space removed.
pub open spec fn trim_end_seq(s: Seq<char>) -> Seq<char>
    decreases s.len(),
{
    if s.len() > 0 && is_white_space(s.last()) {
        trim_end_seq(s.drop_last())
    } else {
        s
    }
}

/// `s` with white space removed at both ends, as `str::trim` does.
pub open spec fn trim_seq(s: Seq<char>) -> Seq<char> {
    trim_end_seq(trim_start_seq(s))
}

/// Every run of white space replaced by a single space; `after_space` tells
/// whether a run is already open before `s`.
pub open spec fn collapse_from(s: Seq<char>, after_space: bool) -> Seq<char>
    decreases s.len(),
{
    if s.len() == 0 {
        Seq::empty()
    } else if is_white_space(s[0]) {
        if after_space {
            collapse_from(s.drop_first(), true)
        } else {
            seq![' '] + collapse_from(s.drop_first(), true)
        }
    } else {
        seq![s[0]] + collapse_from(s.drop_first(), false)
    }
}

/// Every run of white space in `s` replaced by a single space.
pub open spec fn collapse_seq(s: Seq<char>) -> Seq<char> {
    collapse_from(s, false)
}

/// The characters of `s` that are not white space, in order.
pub open spec fn non_white_chars(s: Seq<char>) -> Seq<char>
    decreases s.len(),
{
    if s.len() == 0 {
        Seq::empty()
    } else if is_white_space(s[0]) {
        non_white_chars(s.drop_first())
    } else {
        seq![s[0]] + non_white_chars(s.drop_first())
    }
}

/// What collapsing leaves: white space only as single spaces, never two
/// white-space characters side by side, and every other character of `s`
/// in order; after an open run it does not start with white space.
proof fn lemma_collapse_from_shape(s: Seq<char>, after_space: bool)
    ensures
        ({
            let r = collapse_from(s, after_space);
            &&& forall|i: int|
                0 <= i < r.len() && is_white_space(#[trigger] r[i]) ==> r[i] == ' ' && (i + 1
                    < r.len() ==> !is_white_space(r[i + 1]))
            &&& after_space && r.len() > 0 ==> !is_white_space(r[0])
            &&& non_white_chars(r) == non_white_chars(s)
        }),
    decreases s.len(),
{
    if s.len() > 0 {
        let rest = s.drop_first();
        let r = collapse_from(s, after_space);
        if is_white_space(s[0]) {
            lemma_collapse_from_shape(rest, true);
            if !after_space {
                let tail = collapse_from(rest, true);
                assert(r == seq![' '] + tail);
                assert(is_white_space(' '));
                assert(r.drop_first() =~= tail);
                assert forall|i: int|
                    0 <= i < r.len() && is_white_space(#[trigger] r[i]) implies r[i] == ' ' && (i
                        + 1 < r.len() ==> !is_white_space(r[i + 1])) by {
                    if i > 0 {
                        assert(r[i] == tail[i - 1]);
                    }
                    if i + 1 < r.len() {
                        assert(r[i + 1] == tail[i]);
                    }
                }
            }
        } else {
            lemma_collapse_from_shape(rest, false);
            let tail = collapse_from(rest, false);
            assert(r == seq![s[0]] + tail);
            assert(r.drop_first() =~= tail);
            assert forall|i: int|
                0 <= i < r.len() && is_white_space(#[trigger] r[i]) implies r[i] == ' ' && (i + 1
                    < r.len() ==> !is_white_space(r[i + 1])) by {
                if i > 0 {
                    assert(r[i] == tail[i - 1]);
                }
                if i + 1 < r.len() {
                    assert(r[i + 1] == tail[i]);
                }
            }
        }
    }
}

/// Collapsing white space leaves it only as single spaces, never two
/// white-space characters side by side, and keeps every other character in
/// order.
pub proof fn lemma_collapse_shape(s: Seq<char>)
    ensures
        forall|i: int|
            0 <= i < collapse_seq(s).len() && is_white_space(#[trigger] collapse_seq(s)[i])
                ==> collapse_seq(s)[i] == ' ' && (i + 1 < collapse_seq(s).len() ==> !is_white_space(
                collapse_seq(s)[i + 1],
            )),
        non_white_chars(collapse_seq(s)) == non_white_chars(s),
{
    lemma_collapse_from_shape(s, false);
}

/// The ASCII decimal digit of `d` (`0 <= d < 10`).
pub open spec fn digit_char(d: nat) -> char {
    if d == 0 { '0' }
    else if d == 1 { '1' }
    else if d == 2 { '2' }
    else if d == 3 { '3' }
    else if d == 4 { '4' }
    else if d == 5 { '5' }
    else if d == 6 { '6' }
    else if d == 7 { '7' }
    else if d == 8 { '8' }
    else { '9' }
}

/// The decimal representation of `n`, without sign or leading zeros.
pub open spec fn decimal(n: nat) -> Seq<char>
    decreases n,
{
    if n < 10 {
        seq![digit_char(n)]
    } else {
        decimal(n / 10).push(digit_char(n % 10))
    }
}

/// `base[index]`, the way the validators name an element of a list field.
pub open spec fn indexed_field(base: Seq<char>, index: nat) -> Seq<char> {
    base + seq!['['] + decimal(index) + seq![']']
}

/// Whether `prefix` is a prefix of `s`.
pub open spec fn seq_starts_with(s: Seq<char>, prefix: Seq<char>) -> bool {
    prefix.len() <= s.len() && s.subrange(0, prefix.len() as int) == prefix
}

/// Whether the sequence `needle` occurs contiguously in `s`.
pub open spec fn seq_contains_sub(s: Seq<char>, needle: Seq<char>) -> bool {
    exists|i: int|
        0 <= i && i + needle.len() <= s.len() && #[trigger] s.subrange(i, i + needle.len())
            == needle
}

/// Tests the Unicode `White_Space` property of `c`.
pub fn is_whitespace(c: char) -> (r: bool)
    ensures
        r == is_white_space(c),
{
    let u = c as u32;
    u == 0x20 || (0x09 <= u && u <= 0x0d) || u == 0x85 || u == 0xa0 || u == 0x1680 || (0x2000
        <= u && u <= 0x200a) || u == 0x2028 || u == 0x2029 || u == 0x202f || u == 0x205f || u
        == 0x3000
}

/// The characters of `s`, in order.
pub fn to_chars(s: &str) -> (r: Vec<char>)
    ensures
        r@ == s@,
{
    let mut out: Vec<char> = Vec::new();
    for c in it: s.chars()
        invariant
            out@ == it.seq().take(it.index() as int),
            it.seq() == s@,
    {
        out.push(c);
    }
    out
}

/// Appends one character to a string.
#[verifier::external_body]
pub(crate) fn push_char(s: &mut String, c: char)
    ensures
        final(s)@ == old(s)@.push(c),
{
    s.push(c);
}

/// The string made of the characters `chars`.
pub fn from_chars(chars: &Vec<char>) -> (r: String)
    ensures
        r@ == chars@,
{
    let mut out = String::new();
    let n = chars.len();
    for i in 0..n
        invariant
            n == chars@.len(),
            out@ == chars@.take(i as int),
    {
        push_char(&mut out, chars[i]);
        assert(chars@.take(i as int).push(chars@[i as int]) =~= chars@.take(i + 1));
    }
    assert(chars@.take(n as int) =~= chars@);
    out
}

/// The number of Unicode scalar values in `s`.
pub fn char_count(s: &str) -> (r: usize)
    ensures
        r == s@.len(),
{
    s.unicode_len()
}

/// Whether two strings hold the same characters.
pub fn str_eq(a: &str, b: &str) -> (r: bool)
    ensures
        r == (a@ == b@),
{
    let x = to_chars(a);
    let y = to_chars(b);
    chars_eq(&x, &y)
}

/// Whether two character vectors are equal.
pub fn chars_eq(a: &Vec<char>, b: &Vec<char>) -> (r: bool)
    ensures
        r == (a@ == b@),
{
    if a.len() != b.len() {
        return false;
    }
    let n = a.len();
    for i in 0..n
        invariant
            n == a@.len(),
            n == b@.len(),
            forall|j: int| 0 <= j < i ==> a@[j] == b@[j],
    {
        if a[i] != b[i] {
            return false;
        }
    }
    assert(a@ =~= b@);
    true
}

/// Whether two strings hold the same characters.
pub fn string_eq(a: &String, b: &String) -> (r: bool)
    ensures
        r == (a@ == b@),
{
    str_eq(a.as_str(), b.as_str())
}

/// Whether some element of `list` equals `s`.
pub fn contains_string(list: &Vec<String>, s: &String) -> (r: bool)
    ensures
        r == exists|i: int| 0 <= i < list@.len() && (#[trigger] list@[i])@ == s@,
{
    let n = list.len();
    for i in 0..n
        invariant
            n == list@.len(),
            forall|j: int| 0 <= j < i ==> (#[trigger] list@[j])@ != s@,
    {
        if string_eq(&list[i], s) {
            return true;
        }
    }
    false
}

/// Whether `s` starts with `prefix`.
pub fn starts_with(s: &Vec<char>, prefix: &Vec<char>) -> (r: bool)
    ensures
        r == seq_starts_with(s@, prefix@),
{
    if prefix.len() > s.len() {
        return false;
    }
    let n = prefix.len();
    for i in 0..n
        invariant
            n == prefix@.len(),
            n <= s@.len(),
            forall|j: int| 0 <= j < i ==> s@[j] == prefix@[j],
    {
        if s[i] != prefix[i] {
            assert(s@.subrange(0, n as int)[i as int] != prefix@[i as int]);
            return false;
        }
    }
    assert(s@.subrange(0, n as int) =~= prefix@);
    true
}

/// Whether `needle` occurs contiguously in `s`.
pub fn contains_sub(s: &Vec<char>, needle: &Vec<char>) -> (r: bool)
    ensures
        r == seq_contains_sub(s@, needle@),
{
    if needle.len() > s.len() {
        assert forall|i: int| 0 <= i && i + needle@.len() <= s@.len() implies #[trigger] s@.subrange(
            i,
            i + needle@.len(),
        ) != needle@ by {}
        return false;
    }
    let last = s.len() - needle.len();
    let m = needle.len();
    let n = s.len();
    let mut i: usize = 0;
    loop
        invariant
            n == s@.len(),
            last == s@.len() - needle@.len(),
            m == needle@.len(),
            i <= last,
            forall|k: int| 0 <= k < i ==> #[trigger] s@.subrange(k, k + m) != needle@,
        ensures
            forall|k: int| 0 <= k <= last ==> #[trigger] s@.subrange(k, k + m) != needle@,
        decreases last - i,
    {
        let mut matched = true;
        let mut j: usize = 0;
        while j < m
            invariant
                n == s@.len(),
                last == s@.len() - needle@.len(),
                m == needle@.len(),
                i <= last,
                j <= m,
                matched ==> forall|t: int| 0 <= t < j ==> s@[i + t] == needle@[t],
                !matched ==> s@.subrange(i as int, i + m) != needle@,
            decreases m - j,
        {
            if matched && s[i + j] != needle[j] {
                assert(s@.subrange(i as int, i + m)[j as int] != needle@[j as int]);
                matched = false;
            }
            j = j + 1;
        }
        if matched {
            assert(s@.subrange(i as int, i + m) =~= needle@);
            return true;
        }
        if i == last {
            break;
        }
        i = i + 1;
    }
    assert forall|k: int| 0 <= k && k + needle@.len() <= s@.len() implies #[trigger] s@.subrange(
        k,
        k + needle@.len(),
    ) != needle@ by {
        assert(k <= last);
    }
    false
}

/// Whether `c` occurs in `s`.
pub fn contains_char(s: &Vec<char>, c: char) -> (r: bool)
    ensures
        r == s@.contains(c),
{
    let n = s.len();
    for i in 0..n
        invariant
            n == s@.len(),
            forall|j: int| 0 <= j < i ==> s@[j] != c,
    {
        if s[i] == c {
            assert(s@[i as int] == c);
            return true;
        }
    }
    false
}

/// Whether every character of `s` is white space.
pub fn is_blank(s: &str) -> (r: bool)
    ensures
        r == all_white_space(s@),
{
    let chars = to_chars(s);
    let n = chars.len();
    for i in 0..n
        invariant
            n == chars@.len(),
            chars@ == s@,
            forall|j: int| 0 <= j < i ==> #[trigger] is_white_space(chars@[j]),
    {
        if !is_whitespace(chars[i]) {
            return false;
        }
    }
    true
}

/// What trimming the start leaves is empty or starts with a character that
/// is not white space.
proof fn lemma_trim_start_shape(s: Seq<char>)
    ensures
        trim_start_seq(s).len() == 0 || !is_white_space(trim_start_seq(s)[0]),
    decreases s.len(),
{
    if s.len() > 0 && is_white_space(s[0]) {
        lemma_trim_start_shape(s.drop_first());
    }
}

/// What trimming the end leaves is a prefix of the text, empty or ending in a
/// character that is not white space.
proof fn lemma_trim_end_shape(s: Seq<char>)
    ensures
        trim_end_seq(s).len() <= s.len(),
        trim_end_seq(s) =~= s.take(trim_end_seq(s).len() as int),
        trim_end_seq(s).len() == 0 || !is_white_space(trim_end_seq(s).last()),
    decreases s.len(),
{
    if s.len() > 0 && is_white_space(s.last()) {
        lemma_trim_end_shape(s.drop_last());
        assert(s.drop_last().take(trim_end_seq(s).len() as int) =~= s.take(
            trim_end_seq(s).len() as int,
        ));
    }
}

/// Whether `s` starts with white space.
pub open spec fn starts_with_white(s: Seq<char>) -> bool {
    s.len() > 0 && is_white_space(s[0])
}

/// Whether `s` ends with white space.
pub open spec fn ends_with_white(s: Seq<char>) -> bool {
    s.len() > 0 && is_white_space(s.last())
}

/// Appending a character adds it to the characters that are not white
/// space exactly when it is not white space.
proof fn lemma_non_white_push(s: Seq<char>, c: char)
    ensures
        non_white_chars(s.push(c)) == non_white_chars(s) + (if is_white_space(c) {
            Seq::<char>::empty()
        } else {
            seq![c]
        }),
    decreases s.len(),
{
    let t = s.push(c);
    let tail = if is_white_space(c) {
        Seq::<char>::empty()
    } else {
        seq![c]
    };
    if s.len() == 0 {
        assert(t[0] == c);
        assert(t.drop_first() =~= Seq::<char>::empty());
        assert(non_white_chars(Seq::<char>::empty()) == Seq::<char>::empty());
        assert(non_white_chars(t) == tail + Seq::<char>::empty()) by {
            if is_white_space(c) {
                assert(non_white_chars(t) == non_white_chars(t.drop_first()));
            } else {
                assert(non_white_chars(t) == seq![c] + non_white_chars(t.drop_first()));
            }
        }
        assert(tail + Seq::<char>::empty() =~= tail);
        assert(non_white_chars(s) == Seq::<char>::empty());
        assert(Seq::<char>::empty() + tail =~= tail);
    } else {
        lemma_non_white_push(s.drop_first(), c);
        assert(t.drop_first() =~= s.drop_first().push(c));
        assert(t[0] == s[0]);
        if !is_white_space(s[0]) {
            assert(seq![s[0]] + (non_white_chars(s.drop_first()) + tail) =~= (seq![s[0]]
                + non_white_chars(s.drop_first())) + tail);
        }
    }
}

/// Trimming the start removes only white space.
proof fn lemma_trim_start_keeps(s: Seq<char>)
    ensures
        non_white_chars(trim_start_seq(s)) == non_white_chars(s),
    decreases s.len(),
{
    if s.len() > 0 && is_white_space(s[0]) {
        lemma_trim_start_keeps(s.drop_first());
    }
}

/// Trimming removes only white space: the other characters stay, in order.
proof fn lemma_trim_keeps_non_white(s: Seq<char>)
    ensures
        non_white_chars(trim_seq(s)) == non_white_chars(s),
{
    lemma_trim_start_keeps(s);
    lemma_trim_end_keeps(trim_start_seq(s));
}

/// Trimming the end removes only white space.
proof fn lemma_trim_end_keeps(s: Seq<char>)
    ensures
        non_white_chars(trim_end_seq(s)) == non_white_chars(s),
    decreases s.len(),
{
    if s.len() > 0 && is_white_space(s.last()) {
        lemma_trim_end_keeps(s.drop_last());
        lemma_non_white_push(s.drop_last(), s.last());
        assert(s.drop_last().push(s.last()) =~= s);
        assert(non_white_chars(s.drop_last()) + Seq::<char>::empty() =~= non_white_chars(
            s.drop_last(),
        ));
    }
}

/// Trimmed text neither starts nor ends with white space, and keeps every
/// other character in order.
pub proof fn lemma_trim_shape(s: Seq<char>)
    ensures
        !starts_with_white(trim_seq(s)),
        !ends_with_white(trim_seq(s)),
        non_white_chars(trim_seq(s)) == non_white_chars(s),
{
    let t = trim_start_seq(s);
    let u = trim_end_seq(t);
    lemma_trim_start_shape(s);
    lemma_trim_end_shape(t);
    lemma_trim_keeps_non_white(s);
    if u.len() > 0 {
        assert(u[0] == t[0]);
    }
}

/// Collapsing is empty exactly for empty text or, after an open run, for
/// text of white space only; it ends with white space exactly when the text
/// does, unless all of it is swallowed by an open run.
proof fn lemma_collapse_from_ends(s: Seq<char>, after_space: bool)
    ensures
        (collapse_from(s, after_space).len() == 0) == (s.len() == 0 || (after_space
            && all_white_space(s))),
        ends_with_white(collapse_from(s, after_space)) == (ends_with_white(s) && !(after_space
            && all_white_space(s))),
    decreases s.len(),
{
    if s.len() > 0 {
        let rest = s.drop_first();
        let r = collapse_from(s, after_space);
        assert(is_white_space(' '));
        if is_white_space(s[0]) {
            lemma_collapse_from_ends(rest, true);
            assert(all_white_space(s) == all_white_space(rest)) by {
                if all_white_space(rest) {
                    assert forall|i: int| 0 <= i < s.len() implies #[trigger] is_white_space(s[i]) by {
                        if i > 0 {
                            assert(s[i] == rest[i - 1]);
                        }
                    }
                }
                if all_white_space(s) {
                    assert forall|i: int| 0 <= i < rest.len() implies #[trigger] is_white_space(rest[i]) by {
                        assert(s[i + 1] == rest[i]);
                    }
                }
            }
            if rest.len() > 0 {
                assert(s.last() == rest.last());
            }
            if !after_space {
                let tail = collapse_from(rest, true);
                assert(r == seq![' '] + tail);
                if tail.len() > 0 {
                    assert(r.last() == tail.last());
                }
            }
        } else {
            lemma_collapse_from_ends(rest, false);
            let tail = collapse_from(rest, false);
            assert(r == seq![s[0]] + tail);
            assert(!all_white_space(s)) by {
                assert(!is_white_space(s[0]));
            }
            if tail.len() > 0 {
                assert(r.last() == tail.last());
            }
            if rest.len() > 0 {
                assert(s.last() == rest.last());
            }
        }
    }
}

/// Collapsed text starts, and ends, with white space exactly when the text
/// does.
pub proof fn lemma_collapse_ends(s: Seq<char>)
    ensures
        starts_with_white(collapse_seq(s)) == starts_with_white(s),
        ends_with_white(collapse_seq(s)) == ends_with_white(s),
{
    lemma_collapse_from_ends(s, false);
    assert(is_white_space(' '));
    if s.len() > 0 {
        if is_white_space(s[0]) {
            assert(collapse_seq(s)[0] == ' ');
        } else {
            assert(collapse_seq(s)[0] == s[0]);
        }
    }
}

/// Trimming trimmed text changes nothing.
pub proof fn lemma_trim_idempotent(s: Seq<char>)
    ensures
        trim_seq(trim_seq(s)) == trim_seq(s),
{
    let t = trim_start_seq(s);
    let u = trim_end_seq(t);
    lemma_trim_start_shape(s);
    lemma_trim_end_shape(t);
    if u.len() > 0 {
        assert(u[0] == t[0]);
        assert(trim_start_seq(u) == u);
        assert(trim_end_seq(u) == u);
    } else {
        assert(trim_start_seq(u) == u);
        assert(trim_end_seq(u) == u);
    }
}

proof fn lemma_trim_start_skip(s: Seq<char>, i: int)
    requires
        0 <= i <= s.len(),
        forall|k: int| 0 <= k < i ==> #[trigger] is_white_space(s[k]),
    ensures
        trim_start_seq(s) == trim_start_seq(s.subrange(i, s.len() as int)),
    decreases i,
{
    if i > 0 {
        assert(is_white_space(s[0]));
        let t = s.drop_first();
        lemma_trim_start_skip(t, i - 1);
        assert(t.subrange(i - 1, t.len() as int) =~= s.subrange(i, s.len() as int));
    } else {
        assert(s.subrange(0, s.len() as int) =~= s);
    }
}

proof fn lemma_trim_end_take(s: Seq<char>, j: int)
    requires
        0 <= j <= s.len(),
        forall|k: int| j <= k < s.len() ==> #[trigger] is_white_space(s[k]),
    ensures
        trim_end_seq(s) == trim_end_seq(s.subrange(0, j)),
    decreases s.len() - j,
{
    if j < s.len() {
        assert(is_white_space(s.last()));
        let t = s.drop_last();
        lemma_trim_end_take(t, j);
        assert(t.subrange(0, j) =~= s.subrange(0, j));
    } else {
        assert(s.subrange(0, j) =~= s);
    }
}

/// `s` without white space at either end, as `str::trim` gives it.
pub fn trim_chars(s: &Vec<char>) -> (r: Vec<char>)
    ensures
        r@ == trim_seq(s@),
{
    let n = s.len();
    let mut start: usize = 0;
    while start < n && is_whitespace(s[start])
        invariant
            n == s@.len(),
            start <= n,
            forall|k: int| 0 <= k < start ==> #[trigger] is_white_space(s@[k]),
        decreases n - start,
    {
        start = start + 1;
    }
    proof {
        lemma_trim_start_skip(s@, start as int);
    }
    let ghost rest = s@.subrange(start as int, n as int);
    assert(trim_start_seq(rest) == rest);
    let mut end: usize = n;
    while end > start && is_whitespace(s[end - 1])
        invariant
            n == s@.len(),
            start <= end <= n,
            forall|k: int| end <= k < n ==> #[trigger] is_white_space(s@[k]),
        decreases end - start,
    {
        end = end - 1;
    }
    proof {
        assert forall|k: int| end - start <= k < rest.len() implies #[trigger] is_white_space(
            rest[k],
        ) by {
            assert(rest[k] == s@[k + start]);
        }
        lemma_trim_end_take(rest, end - start);
        let mid = rest.subrange(0, end - start);
        if mid.len() > 0 {
            assert(mid.last() == s@[end - 1]);
        }
        assert(trim_end_seq(mid) == mid);
    }
    let mut out: Vec<char> = Vec::new();
    let mut k = start;
    while k < end
        invariant
            n == s@.len(),
            start <= k <= end <= n,
            out@ == s@.subrange(start as int, k as int),
        decreases end - k,
    {
        out.push(s[k]);
        assert(s@.subrange(start as int, k as int).push(s@[k as int]) =~= s@.subrange(
            start as int,
            k + 1,
        ));
        k = k + 1;
    }
    assert(out@ =~= rest.subrange(0, end - start));
    out
}

proof fn lemma_collapse_step(s: Seq<char>, i: int, after: bool)
    requires
        0 <= i < s.len(),
    ensures
        collapse_from(s.subrange(i, s.len() as int), after) == (if is_white_space(s[i]) {
            if after {
                collapse_from(s.subrange(i + 1, s.len() as int), true)
            } else {
                seq![' '] + collapse_from(s.subrange(i + 1, s.len() as int), true)
            }
        } else {
            seq![s[i]] + collapse_from(s.subrange(i + 1, s.len() as int), false)
        }),
{
    let t = s.subrange(i, s.len() as int);
    assert(t.drop_first() =~= s.subrange(i + 1, s.len() as int));
    assert(t[0] == s[i]);
}

/// `s` with every run of white space replaced by one space.
pub fn collapse_whitespace(s: &Vec<char>) -> (r: Vec<char>)
    ensures
        r@ == collapse_seq(s@),
{
    let mut out: Vec<char> = Vec::new();
    let mut after_space = false;
    let n = s.len();
    assert(s@.subrange(0, n as int) =~= s@);
    for i in 0..n
        invariant
            n == s@.len(),
            out@ + collapse_from(s@.subrange(i as int, n as int), after_space) == collapse_seq(
                s@,
            ),
    {
        proof {
            lemma_collapse_step(s@, i as int, after_space);
        }
        let c = s[i];
        if is_whitespace(c) {
            if !after_space {
                out.push(' ');
            }
            after_space = true;
        } else {
            out.push(c);
            after_space = false;
        }
        proof {
            assert forall|x: Seq<char>, y: Seq<char>, z: Seq<char>| (x + y) + z =~= x + (y + z) by {}
        }
    }
    assert(s@.subrange(n as int, n as int) =~= Seq::<char>::empty());
    assert(out@ + Seq::<char>::empty() =~= out@);
    out
}

/// The decimal digit of `d`.
fn digit(d: usize) -> (c: char)
    requires
        d < 10,
    ensures
        c == digit_char(d as nat),
{
    if d == 0 { '0' }
    else if d == 1 { '1' }
    else if d == 2 { '2' }
    else if d == 3 { '3' }
    else if d == 4 { '4' }
    else if d == 5 { '5' }
    else if d == 6 { '6' }
    else if d == 7 { '7' }
    else if d == 8 { '8' }
    else { '9' }
}

/// The decimal representation of `n`.
pub fn decimal_chars(n: usize) -> (r: Vec<char>)
    ensures
        r@ == decimal(n as nat),
    decreases n,
{
    if n < 10 {
        let mut v: Vec<char> = Vec::new();
        v.push(digit(n));
        v
    } else {
        let mut v = decimal_chars(n / 10);
        v.push(digit(n % 10));
        v
    }
}

/// The decimal representation of `n`.
pub fn decimal_digits(n: u64) -> (r: Vec<char>)
    ensures
        r@ == decimal(n as nat),
    decreases n,
{
    if n < 10 {
        let mut v: Vec<char> = Vec::new();
        v.push(digit(n as usize));
        v
    } else {
        let mut v = decimal_digits(n / 10);
        v.push(digit((n % 10) as usize));
        v
    }
}

/// Appends the characters of `tail` to `s`.
pub fn append_chars(s: &mut String, tail: &Vec<char>)
    ensures
        final(s)@ == old(s)@ + tail@,
{
    let n = tail.len();
    for i in 0..n
        invariant
            n == tail@.len(),
            s@ == old(s)@ + tail@.take(i as int),
    {
        push_char(s, tail[i]);
        assert(old(s)@ + tail@.take(i + 1) =~= (old(s)@ + tail@.take(i as int)).push(tail@[i as int]));
    }
    assert(tail@.take(n as int) =~= tail@);
}

/// `base[index]`: the name the validators give to an element of a list field.
pub fn field_index(base: &str, index: usize) -> (r: String)
    ensures
        r@ == indexed_field(base@, index as nat),
{
    let mut s = String::from_str(base);
    push_char(&mut s, '[');
    let digits = decimal_chars(index);
    append_chars(&mut s, &digits);
    push_char(&mut s, ']');
    assert(s@ =~= indexed_field(base@, index as nat));
    s
}

/// `a` followed by `b`.
pub fn concat_str(a: &str, b: &str) -> (r: String)
    ensures
        r@ == a@ + b@,
{
    let mut s = String::from_str(a);
    s.append(b);
    s
}

/// The index of the last `c` in `s`, or -1 when `s` holds none.
pub open spec fn last_index_of(s: Seq<char>, c: char) -> int
    decreases s.len(),
{
    if s.len() == 0 {
        -1
    } else if s.last() == c {
        s.len() - 1
    } else {
        last_index_of(s.drop_last(), c)
    }
}

/// The characters of `s` from index `start` on.
pub fn chars_from(s: &Vec<char>, start: usize) -> (r: Vec<char>)
    requires
        start <= s@.len(),
    ensures
        r@ == s@.subrange(start as int, s@.len() as int),
{
    let mut out: Vec<char> = Vec::new();
    let mut i = start;
    while i < s.len()
        invariant
            start <= i <= s@.len(),
            out@ == s@.subrange(start as int, i as int),
        decreases s@.len() - i,
    {
        out.push(s[i]);
        i += 1;
        assert(out@ =~= s@.subrange(start as int, i as int));
    }
    out
}

/// The index of the last `c` in `s`, if there is one.
pub fn find_last(s: &Vec<char>, c: char) -> (r: Option<usize>)
    ensures
        match r {
            Some(i) => i == last_index_of(s@, c) && i < s@.len(),
            None => last_index_of(s@, c) == -1,
        },
{
    let mut i = s.len();
    assert(s@.take(i as int) =~= s@);
    while i > 0
        invariant
            i <= s@.len(),
            last_index_of(s@, c) == last_index_of(s@.take(i as int), c),
        decreases i,
    {
        if s[i - 1] == c {
            return Some(i - 1);
        }
        assert(s@.take(i as int).drop_last() =~= s@.take(i - 1));
        i -= 1;
    }
    None
}

/// Whether the characters of `v` spell `s`.
pub fn chars_are(v: &Vec<char>, s: &str) -> (r: bool)
    ensures
        r == (v@ == s@),
{
    let t = to_chars(s);
    chars_eq(v, &t)
}

} // verus!

//! Text as sequences of characters: trimming, searching, splitting and
//! substituting.

use vstd::prelude::*;

verus! {

/// `String::push` appends the character to the end of the string.
pub assume_specification[ std::string::String::push ](s: &mut std::string::String, c: char)
    ensures
        final(s)@ == old(s)@.push(c),
;

// ---------------------------------------------------------------------------
// Conversions and equality
// ---------------------------------------------------------------------------

/// The characters of `s`.
pub fn chars_of(s: &str) -> (r: Vec<char>)
    ensures
        r@ == s@,
{
    let mut out: Vec<char> = Vec::new();
    for c in it: s.chars()
        invariant
            out@ == s@.take(it.index() as int),
            it.seq() == s@,
    {
        out.push(c);
    }
    assert(s@.take(s@.len() as int) =~= s@);
    out
}

/// The string whose characters are `v`.
pub fn string_of(v: &[char]) -> (r: String)
    ensures
        r@ == v@,
{
    let mut out: String = String::new();
    for i in 0..v.len()
        invariant
            out@ == v@.take(i as int),
    {
        out.push(v[i]);
        assert(v@.take(i + 1) =~= v@.take(i as int).push(v@[i as int]));
    }
    assert(v@.take(v@.len() as int) =~= v@);
    out
}

fn same_chars(a: &[char], b: &[char]) -> (r: bool)
    ensures
        r == (a@ == b@),
{
    if a.len() != b.len() {
        return false;
    }
    for i in 0..a.len()
        invariant
            a.len() == b.len(),
            forall|j: int| 0 <= j < i ==> a@[j] == b@[j],
    {
        if a[i] != b[i] {
            return false;
        }
    }
    assert(a@ =~= b@);
    true
}

/// Whether two texts have the same characters.
pub fn same(a: &str, b: &str) -> (r: bool)
    ensures
        r == (a@ == b@),
{
    same_chars(chars_of(a).as_slice(), chars_of(b).as_slice())
}

/// An owned copy of `s`.
pub fn owned(s: &str) -> (r: String)
    ensures
        r@ == s@,
{
    s.to_owned()
}

// ---------------------------------------------------------------------------
// White space
// ---------------------------------------------------------------------------

/// The characters with the Unicode property `White_Space`.
pub open spec fn is_white(c: char) -> bool {
    ||| '\u{9}' <= c <= '\u{d}'
    ||| c == ' '
    ||| c == '\u{85}'
    ||| c == '\u{a0}'
    ||| c == '\u{1680}'
    ||| '\u{2000}' <= c <= '\u{200a}'
    ||| c == '\u{2028}'
    ||| c == '\u{2029}'
    ||| c == '\u{202f}'
    ||| c == '\u{205f}'
    ||| c == '\u{3000}'
}

/// Whether `c` is white space.
pub fn white(c: char) -> (r: bool)
    ensures
        r == is_white(c),
{
    (c >= '\u{9}' && c <= '\u{d}') || c == ' ' || c == '\u{85}' || c == '\u{a0}' || c == '\u{1680}'
        || (c >= '\u{2000}' && c <= '\u{200a}') || c == '\u{2028}' || c == '\u{2029}' || c
        == '\u{202f}' || c == '\u{205f}' || c == '\u{3000}'
}

/// `s` without the white space it starts with.
pub open spec fn trimmed_start(s: Seq<char>) -> Seq<char>
    decreases s.len(),
{
    if s.len() > 0 && is_white(s[0]) {
        trimmed_start(s.skip(1))
    } else {
        s
    }
}

/// `s` without the white space it ends with.
pub open spec fn trimmed_end(s: Seq<char>) -> Seq<char>
    decreases s.len(),
{
    if s.len() > 0 && is_white(s.last()) {
        trimmed_end(s.drop_last())
    } else {
        s
    }
}

/// `s` without the white space it starts and ends with.
pub open spec fn trimmed(s: Seq<char>) -> Seq<char> {
    trimmed_end(trimmed_start(s))
}

/// Whether `s` has nothing but white space.
pub open spec fn is_blank_text(s: Seq<char>) -> bool {
    trimmed(s).len() == 0
}

proof fn lemma_start_is_trimmed(s: Seq<char>)
    ensures
        trimmed_start(s).len() > 0 ==> !is_white(trimmed_start(s)[0]),
    decreases s.len(),
{
    if s.len() > 0 && is_white(s[0]) {
        lemma_start_is_trimmed(s.skip(1));
    }
}

proof fn lemma_end_is_trimmed(s: Seq<char>)
    ensures
        trimmed_end(s).len() <= s.len(),
        trimmed_end(s) == s.take(trimmed_end(s).len() as int),
        trimmed_end(s).len() > 0 ==> !is_white(trimmed_end(s).last()),
    decreases s.len(),
{
    if s.len() > 0 && is_white(s.last()) {
        let rest = s.drop_last();
        lemma_end_is_trimmed(rest);
        let k = trimmed_end(rest).len() as int;
        assert(rest.take(k) =~= s.take(k));
    } else {
        assert(s.take(s.len() as int) =~= s);
    }
}

/// What is trimmed stays as it is when it is trimmed again.
pub proof fn law_trimming_twice_is_trimming_once(s: Seq<char>)
    ensures
        trimmed(trimmed(s)) == trimmed(s),
{
    let a = trimmed_start(s);
    let b = trimmed_end(a);
    lemma_start_is_trimmed(s);
    lemma_end_is_trimmed(a);
    if b.len() > 0 {
        assert(b[0] == a[0]);
    }
    assert(trimmed_start(b) == b);
}

proof fn lemma_trimmed_start_at(s: Seq<char>, i: int)
    requires
        0 <= i <= s.len(),
        forall|j: int| 0 <= j < i ==> is_white(s[j]),
        i < s.len() ==> !is_white(s[i]),
    ensures
        trimmed_start(s) == s.skip(i),
    decreases i,
{
    if i > 0 {
        let rest = s.skip(1);
        assert forall|j: int| 0 <= j < i - 1 implies is_white(rest[j]) by {
            assert(rest[j] == s[j + 1]);
        }
        lemma_trimmed_start_at(rest, i - 1);
        assert(rest.skip(i - 1) =~= s.skip(i));
    } else {
        assert(s.skip(0) =~= s);
    }
}

proof fn lemma_trimmed_end_at(s: Seq<char>, k: int)
    requires
        0 <= k <= s.len(),
        forall|j: int| k <= j < s.len() ==> is_white(s[j]),
        k > 0 ==> !is_white(s[k - 1]),
    ensures
        trimmed_end(s) == s.take(k),
    decreases s.len() - k,
{
    if k < s.len() {
        let rest = s.drop_last();
        lemma_trimmed_end_at(rest, k);
        assert(rest.take(k) =~= s.take(k));
    } else {
        assert(s.take(k) =~= s);
    }
}

/// `s` without the white space it starts and ends with.
pub fn trim(s: &str) -> (r: &str)
    ensures
        r@ == trimmed(s@),
{
    let v = chars_of(s);
    let n: usize = v.len();
    let mut i: usize = 0;
    while i < n && white(v[i])
        invariant
            n == v.len(),
            v@ == s@,
            i <= n,
            forall|j: int| 0 <= j < i ==> is_white(s@[j]),
        decreases n - i,
    {
        i = i + 1;
    }
    let mut k: usize = n;
    while k > i && white(v[k - 1])
        invariant
            n == v.len(),
            v@ == s@,
            i <= k <= n,
            forall|j: int| k <= j < n ==> is_white(s@[j]),
        decreases k,
    {
        k = k - 1;
    }
    proof {
        lemma_trimmed_start_at(s@, i as int);
        let mid = s@.skip(i as int);
        assert forall|j: int| k - i <= j < mid.len() implies is_white(mid[j]) by {
            assert(mid[j] == s@[j + i]);
        }
        if k > i {
            assert(mid[k - i - 1] == s@[k - 1]);
        }
        lemma_trimmed_end_at(mid, k - i);
        assert(mid.take(k - i) =~= s@.subrange(i as int, k as int));
    }
    s.substring_char(i, k)
}

/// Whether `s` has nothing but white space.
pub fn blank(s: &str) -> (r: bool)
    ensures
        r == is_blank_text(s@),
{
    trim(s).unicode_len() == 0
}

// ---------------------------------------------------------------------------
// Searching
// ---------------------------------------------------------------------------

/// Whether `pat` stands in `s` at position `i`.
pub open spec fn occurs_at(s: Seq<char>, pat: Seq<char>, i: int) -> bool {
    &&& 0 <= i <= s.len() - pat.len()
    &&& s.subrange(i, i + pat.len()) == pat
}

/// Whether `pat` is a part of `s`.
pub open spec fn has_text(s: Seq<char>, pat: Seq<char>) -> bool {
    exists|i: int| occurs_at(s, pat, i)
}

/// Whether `s` begins with `pat`.
pub open spec fn begins_with(s: Seq<char>, pat: Seq<char>) -> bool {
    occurs_at(s, pat, 0)
}

/// Whether `s` ends with `pat`.
pub open spec fn finishes_with(s: Seq<char>, pat: Seq<char>) -> bool {
    occurs_at(s, pat, s.len() - pat.len())
}

/// The first position at or after `from` at which `pat` stands in `s`.
pub open spec fn first_at(s: Seq<char>, pat: Seq<char>, from: int) -> Option<int>
    decreases s.len() + 1 - from,
{
    if from < 0 || from > s.len() {
        None
    } else if occurs_at(s, pat, from) {
        Some(from)
    } else {
        first_at(s, pat, from + 1)
    }
}

fn occurs(s: &[char], pat: &[char], i: usize) -> (r: bool)
    requires
        i <= s.len(),
    ensures
        r == occurs_at(s@, pat@, i as int),
{
    if pat.len() > s.len() - i {
        return false;
    }
    for j in 0..pat.len()
        invariant
            i + pat.len() <= s.len(),
            forall|k: int| 0 <= k < j ==> s@[i + k] == pat@[k],
    {
        if s[i + j] != pat[j] {
            assert(s@.subrange(i as int, i + pat@.len())[j as int] != pat@[j as int]);
            return false;
        }
    }
    assert(s@.subrange(i as int, i + pat@.len()) =~= pat@);
    true
}

/// The first position at or after `from` at which `pat` stands in `s`.
pub fn find_from(s: &[char], pat: &[char], from: usize) -> (r: Option<usize>)
    ensures
        match r {
            Some(i) => first_at(s@, pat@, from as int) == Some(i as int),
            None => first_at(s@, pat@, from as int) is None,
        },
{
    let mut i: usize = from;
    while i <= s.len()
        invariant
            from <= i,
            i <= s.len() ==> first_at(s@, pat@, from as int) == first_at(s@, pat@, i as int),
            i > s.len() ==> first_at(s@, pat@, from as int) is None,
        decreases s.len() + 1 - i,
    {
        if occurs(s, pat, i) {
            return Some(i);
        }
        if i == s.len() {
            assert(first_at(s@, pat@, i + 1) is None);
            return None;
        }
        i = i + 1;
    }
    None
}

/// What `first_at` gives is the least position at which the pattern stands.
pub proof fn lemma_first_at(s: Seq<char>, pat: Seq<char>, from: int)
    requires
        0 <= from,
    ensures
        match first_at(s, pat, from) {
            Some(i) => from <= i && occurs_at(s, pat, i) && (forall|j: int|
                from <= j < i ==> !occurs_at(s, pat, j)),
            None => forall|j: int| from <= j ==> !occurs_at(s, pat, j),
        },
    decreases s.len() + 1 - from,
{
    if from <= s.len() && !occurs_at(s, pat, from) {
        lemma_first_at(s, pat, from + 1);
    }
}

/// Whether `pat` is a part of `s`.
pub fn contains(s: &str, pat: &str) -> (r: bool)
    ensures
        r == has_text(s@, pat@),
{
    let found = find_from(chars_of(s).as_slice(), chars_of(pat).as_slice(), 0);
    proof {
        lemma_first_at(s@, pat@, 0);
        if found is None && has_text(s@, pat@) {
            let i = choose|i: int| occurs_at(s@, pat@, i);
            assert(!occurs_at(s@, pat@, i));
        }
    }
    found.is_some()
}

/// Whether `s` begins with `pat`.
pub fn starts_with(s: &str, pat: &str) -> (r: bool)
    ensures
        r == begins_with(s@, pat@),
{
    occurs(chars_of(s).as_slice(), chars_of(pat).as_slice(), 0)
}

/// Whether `s` ends with `pat`.
pub fn ends_with(s: &str, pat: &str) -> (r: bool)
    ensures
        r == finishes_with(s@, pat@),
{
    let v = chars_of(s);
    let p = chars_of(pat);
    if p.len() > v.len() {
        return false;
    }
    occurs(v.as_slice(), p.as_slice(), v.len() - p.len())
}

/// Whether the character `c` is in `s`.
pub fn has_char(s: &str, c: char) -> (r: bool)
    ensures
        r == s@.contains(c),
{
    let v = chars_of(s);
    for i in 0..v.len()
        invariant
            v@ == s@,
            forall|j: int| 0 <= j < i ==> s@[j] != c,
    {
        if v[i] == c {
            assert(s@[i as int] == c);
            return true;
        }
    }
    false
}

// ---------------------------------------------------------------------------
// Splitting and joining
// ---------------------------------------------------------------------------

/// The parts of `s` between the occurrences of `pat`, taken from the left
/// without overlap.
pub open spec fn split_parts(s: Seq<char>, pat: Seq<char>) -> Seq<Seq<char>>
    recommends
        pat.len() > 0,
    decreases s.len(),
{
    match first_at(s, pat, 0) {
        Some(i) if pat.len() > 0 && 0 <= i <= s.len() - pat.len() => seq![s.take(i)] + split_parts(
            s.skip(i + pat.len()),
            pat,
        ),
        _ => seq![s],
    }
}

/// The parts of `s` between the occurrences of `pat`.
pub fn split(s: &str, pat: &str) -> (r: Vec<String>)
    requires
        pat@.len() > 0,
    ensures
        r@.map_values(|p: String| p@) == split_parts(s@, pat@),
{
    let v = chars_of(s);
    let p = chars_of(pat);
    let mut out: Vec<String> = Vec::new();
    let mut from: usize = 0;
    let ghost mut done: Seq<Seq<char>> = Seq::empty();
    assert(s@.skip(0) =~= s@);
    assert(done + split_parts(s@, pat@) =~= split_parts(s@, pat@));
    loop
        invariant_except_break
            split_parts(s@, pat@) == done + split_parts(s@.skip(from as int), pat@),
        invariant
            v@ == s@,
            p@ == pat@,
            pat@.len() > 0,
            from <= v.len(),
            done == out@.map_values(|p: String| p@),
        ensures
            split_parts(s@, pat@) == out@.map_values(|p: String| p@),
        decreases v.len() - from,
    {
        let ghost rest = s@.skip(from as int);
        let rest_v = vstd::slice::slice_subrange(v.as_slice(), from, v.len());
        assert(rest_v@ =~= rest);
        match find_from(rest_v, p.as_slice(), 0) {
            Some(i) => {
                proof {
                    lemma_first_at(rest, pat@, 0);
                }
                let part = vstd::slice::slice_subrange(rest_v, 0, i);
                out.push(string_of(part));
                proof {
                    assert(part@ =~= rest.take(i as int));
                    assert(rest.skip(i + pat@.len()) =~= s@.skip(from + i + pat@.len()));
                    let more = done.push(rest.take(i as int));
                    assert(out@.map_values(|p: String| p@) =~= more);
                    assert(done + (seq![rest.take(i as int)] + split_parts(
                        rest.skip(i + pat@.len()),
                        pat@,
                    )) =~= more + split_parts(rest.skip(i + pat@.len()), pat@));
                    done = more;
                }
                from = from + i + p.len();
            },
            None => {
                out.push(string_of(rest_v));
                proof {
                    assert(out@.map_values(|p: String| p@) =~= done + seq![rest]);
                    done = done + seq![rest];
                }
                break;
            },
        }
    }
    out
}

/// The texts of `parts` with `sep` between them.
pub open spec fn joined(parts: Seq<Seq<char>>, sep: Seq<char>) -> Seq<char>
    decreases parts.len(),
{
    if parts.len() == 0 {
        Seq::empty()
    } else if parts.len() == 1 {
        parts[0]
    } else {
        joined(parts.drop_last(), sep) + sep + parts.last()
    }
}

/// The views of a list of strings.
pub open spec fn texts(v: Seq<String>) -> Seq<Seq<char>> {
    v.map_values(|s: String| s@)
}

/// Adds `s` to the end of the list.
pub fn push_text(list: &mut Vec<String>, s: String)
    ensures
        texts(final(list)@) == texts(old(list)@).push(s@),
{
    let ghost before = list@;
    list.push(s);
    assert(texts(list@) =~= texts(before).push(s@));
}

/// The texts of `parts` with `sep` between them.
pub fn join(parts: &Vec<String>, sep: &str) -> (r: String)
    ensures
        r@ == joined(texts(parts@), sep@),
{
    let mut out: String = String::new();
    for i in 0..parts.len()
        invariant
            out@ == joined(texts(parts@).take(i as int), sep@),
    {
        if i > 0 {
            out.append(sep);
        }
        out.append(parts[i].as_str());
        proof {
            let all = texts(parts@);
            assert(all.take(i + 1).drop_last() =~= all.take(i as int));
            assert(all.take(i + 1).last() == parts@[i as int]@);
            if i == 0 {
                assert(out@ =~= parts@[0]@);
            }
        }
    }
    assert(texts(parts@).take(parts@.len() as int) =~= texts(parts@));
    out
}

// ---------------------------------------------------------------------------
// Substitution
// ---------------------------------------------------------------------------

/// Each character of `s` replaced by the text that `f` gives for it.
pub open spec fn spelled(s: Seq<char>, f: spec_fn(char) -> Seq<char>) -> Seq<char>
    decreases s.len(),
{
    if s.len() == 0 {
        Seq::empty()
    } else {
        spelled(s.drop_last(), f) + f(s.last())
    }
}

proof fn lemma_first_is(s: Seq<char>, pat: Seq<char>, from: int, n: int)
    requires
        0 <= from <= n,
        occurs_at(s, pat, n),
        forall|j: int| from <= j < n ==> !occurs_at(s, pat, j),
    ensures
        first_at(s, pat, from) == Some(n),
    decreases n - from,
{
    if from < n {
        assert(!occurs_at(s, pat, from));
        lemma_first_is(s, pat, from + 1, n);
    }
}

proof fn lemma_occurs_not(s: Seq<char>, pat: Seq<char>, j: int)
    requires
        0 <= j < s.len(),
        pat.len() > 0,
        s[j] != pat[0],
    ensures
        !occurs_at(s, pat, j),
{
    if occurs_at(s, pat, j) {
        assert(s.subrange(j, j + pat.len())[0] == s[j]);
    }
}

/// A text that does not hold the first character of the pattern is the first part
/// of what it begins, where the pattern follows.
pub proof fn lemma_split_after(a: Seq<char>, pat: Seq<char>, rest: Seq<char>)
    requires
        pat.len() > 0,
        !a.contains(pat[0]),
    ensures
        split_parts(a + pat + rest, pat) == seq![a] + split_parts(rest, pat),
{
    let s = a + pat + rest;
    let n = a.len() as int;
    assert(occurs_at(s, pat, n)) by {
        assert(s.subrange(n, n + pat.len()) =~= pat);
    }
    assert forall|j: int| 0 <= j < n implies !occurs_at(s, pat, j) by {
        assert(s[j] == a[j]);
        lemma_occurs_not(s, pat, j);
    }
    lemma_first_is(s, pat, 0, n);
    assert(s.take(n) =~= a);
    assert(s.skip(n + pat.len()) =~= rest);
}

pub proof fn lemma_split_without(a: Seq<char>, pat: Seq<char>)
    requires
        pat.len() > 0,
        !a.contains(pat[0]),
    ensures
        split_parts(a, pat) == seq![a],
{
    lemma_first_at(a, pat, 0);
    if let Some(i) = first_at(a, pat, 0) {
        assert(a.subrange(i, i + pat.len())[0] == pat[0]);
        assert(a[i] == pat[0]);
    }
}

/// A mark that stands at two places of a text, and whose first character stands
/// nowhere else in it, is replaced at these places and nowhere else.
pub proof fn law_two_marks_are_replaced(
    a: Seq<char>,
    b: Seq<char>,
    c: Seq<char>,
    mark: Seq<char>,
    with: Seq<char>,
)
    requires
        mark.len() > 0,
        !a.contains(mark[0]),
        !b.contains(mark[0]),
        !c.contains(mark[0]),
    ensures
        replaced(a + mark + b + mark + c, mark, with) == a + with + b + with + c,
{
    assert(a + mark + b + mark + c =~= a + mark + (b + mark + c));
    lemma_split_after(a, mark, b + mark + c);
    lemma_split_after(b, mark, c);
    lemma_split_without(c, mark);
    let parts = seq![a] + (seq![b] + seq![c]);
    assert(parts =~= seq![a, b, c]);
    assert(seq![a, b, c].drop_last() =~= seq![a, b]);
    assert(seq![a, b].drop_last() =~= seq![a]);
    reveal_with_fuel(joined, 3);
    assert(joined(seq![a, b, c], with) =~= a + with + b + with + c);
}

/// Every occurrence of `pat` in `s`, taken from the left without overlap,
/// replaced by `with`.
pub open spec fn replaced(s: Seq<char>, pat: Seq<char>, with: Seq<char>) -> Seq<char> {
    joined(split_parts(s, pat), with)
}

/// Every occurrence of `pat` in `s` replaced by `with`.
pub fn replace(s: &str, pat: &str, with: &str) -> (r: String)
    requires
        pat@.len() > 0,
    ensures
        r@ == replaced(s@, pat@, with@),
{
    let parts = split(s, pat);
    join(&parts, with)
}

/// The lower-case form of an ASCII letter; any other character as it is.
pub open spec fn ascii_lower(c: char) -> char {
    if 'A' <= c <= 'Z' {
        (c as u32 + 32) as char
    } else {
        c
    }
}

/// `s` with its ASCII letters in lower case.
pub open spec fn ascii_lowered(s: Seq<char>) -> Seq<char> {
    s.map_values(|c: char| ascii_lower(c))
}

fn lower_char(c: char) -> (r: char)
    ensures
        r == ascii_lower(c),
{
    if c >= 'A' && c <= 'Z' {
        (c as u8 + 32) as char
    } else {
        c
    }
}

/// `s` with its ASCII letters in lower case.
pub fn to_ascii_lower(s: &str) -> (r: String)
    ensures
        r@ == ascii_lowered(s@),
{
    let v = chars_of(s);
    let mut out: String = String::new();
    for i in 0..v.len()
        invariant
            v@ == s@,
            out@ == ascii_lowered(s@.take(i as int)),
    {
        out.push(lower_char(v[i]));
        assert(ascii_lowered(s@.take(i + 1)) =~= ascii_lowered(s@.take(i as int)).push(
            ascii_lower(s@[i as int]),
        ));
    }
    assert(s@.take(s@.len() as int) =~= s@);
    out
}

// ---------------------------------------------------------------------------
// Sizes
// ---------------------------------------------------------------------------

/// The number of bytes that `s` takes in UTF-8.
pub open spec fn byte_size(s: Seq<char>) -> nat {
    vstd::utf8::encode_utf8(s).len()
}

/// The number of bytes that `s` takes.
pub fn byte_len(s: &str) -> (r: usize)
    ensures
        r == byte_size(s@),
{
    s.as_bytes().len()
}

// ---------------------------------------------------------------------------
// Concatenation
// ---------------------------------------------------------------------------

/// The two texts one after the other.
pub fn cat2(a: &str, b: &str) -> (r: String)
    ensures
        r@ == a@ + b@,
{
    let mut s: String = owned(a);
    s.append(b);
    s
}

/// The three texts one after the other.
pub fn cat3(a: &str, b: &str, c: &str) -> (r: String)
    ensures
        r@ == a@ + b@ + c@,
{
    let mut s: String = cat2(a, b);
    s.append(c);
    s
}

/// The four texts one after the other.
pub fn cat4(a: &str, b: &str, c: &str, d: &str) -> (r: String)
    ensures
        r@ == a@ + b@ + c@ + d@,
{
    let mut s: String = cat3(a, b, c);
    s.append(d);
    s
}

/// The five texts one after the other.
pub fn cat5(a: &str, b: &str, c: &str, d: &str, e: &str) -> (r: String)
    ensures
        r@ == a@ + b@ + c@ + d@ + e@,
{
    let mut s: String = cat4(a, b, c, d);
    s.append(e);
    s
}

} // verus!

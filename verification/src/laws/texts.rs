//! What operations on texts are for.

use vstd::prelude::*;

use crate::services::form_validator;
use crate::text;

verus! {

/// The characters that count as white space, by their code points.
pub proof fn law_white_space_is_that_of_unicode(c: char)
    ensures
        text::is_white(c) <==> {
            let n = c as u32;
            ||| 9 <= n <= 13
            ||| n == 32
            ||| n == 0x85
            ||| n == 0xa0
            ||| n == 0x1680
            ||| 0x2000 <= n <= 0x200a
            ||| n == 0x2028
            ||| n == 0x2029
            ||| n == 0x202f
            ||| n == 0x205f
            ||| n == 0x3000
        },
{
}

proof fn lemma_white_start(a: Seq<char>, s: Seq<char>)
    requires
        forall|i: int| 0 <= i < a.len() ==> text::is_white(#[trigger] a[i]),
    ensures
        text::trimmed_start(a + s) == text::trimmed_start(s),
    decreases a.len(),
{
    let all = a + s;
    if a.len() == 0 {
        assert(all =~= s);
    } else {
        let rest = a.skip(1);
        assert(all[0] == a[0]);
        assert(all.skip(1) =~= rest + s);
        assert forall|i: int| 0 <= i < rest.len() implies text::is_white(#[trigger] rest[i]) by {
            assert(rest[i] == a[i + 1]);
        }
        lemma_white_start(rest, s);
    }
}

proof fn lemma_white_end(s: Seq<char>, b: Seq<char>)
    requires
        forall|i: int| 0 <= i < b.len() ==> text::is_white(#[trigger] b[i]),
    ensures
        text::trimmed_end(s + b) == text::trimmed_end(s),
    decreases b.len(),
{
    let all = s + b;
    if b.len() == 0 {
        assert(all =~= s);
    } else {
        let rest = b.drop_last();
        assert(all.last() == b[b.len() - 1]);
        assert(all.drop_last() =~= s + rest);
        assert forall|i: int| 0 <= i < rest.len() implies text::is_white(#[trigger] rest[i]) by {
            assert(rest[i] == b[i]);
        }
        lemma_white_end(s, rest);
    }
}

/// Trimming takes off the white space around a text and nothing else; what has nothing
/// but white space is blank.
pub proof fn law_trimming_takes_off_white_space(a: Seq<char>, core: Seq<char>, b: Seq<char>)
    requires
        forall|i: int| 0 <= i < a.len() ==> text::is_white(#[trigger] a[i]),
        forall|i: int| 0 <= i < b.len() ==> text::is_white(#[trigger] b[i]),
        core.len() > 0 ==> !text::is_white(core[0]) && !text::is_white(core[core.len() - 1]),
    ensures
        text::trimmed(a + core + b) == core,
        text::is_blank_text(a + core + b) <==> core.len() == 0,
{
    let all = a + core + b;
    assert(all =~= a + (core + b));
    lemma_white_start(a, core + b);
    if core.len() > 0 {
        assert((core + b)[0] == core[0]);
        lemma_white_end(core, b);
    } else {
        assert(core + b =~= b + Seq::empty());
        lemma_white_start(b, Seq::empty());
    }
}

proof fn lemma_joined_from_the_left(part: Seq<char>, rest: Seq<Seq<char>>, sep: Seq<char>)
    requires
        rest.len() > 0,
    ensures
        text::joined(seq![part] + rest, sep) == part + sep + text::joined(rest, sep),
    decreases rest.len(),
{
    let all = seq![part] + rest;
    if rest.len() == 1 {
        assert(all.drop_last() =~= seq![part]);
        assert(all.last() == rest[0]);
        reveal_with_fuel(text::joined, 2);
    } else {
        assert(all.drop_last() =~= seq![part] + rest.drop_last());
        assert(all.last() == rest.last());
        lemma_joined_from_the_left(part, rest.drop_last(), sep);
        assert(part + sep + text::joined(rest.drop_last(), sep) + sep + rest.last() =~= part + sep
            + (text::joined(rest.drop_last(), sep) + sep + rest.last()));
    }
}

/// The parts of a text, put together with what they were split at, are the text again,
/// and none of them holds it.
pub proof fn law_parts_make_up_the_text(s: Seq<char>, pat: Seq<char>)
    requires
        pat.len() > 0,
    ensures
        text::split_parts(s, pat).len() > 0,
        text::joined(text::split_parts(s, pat), pat) == s,
        forall|i: int|
            0 <= i < text::split_parts(s, pat).len() ==> !text::has_text(
                #[trigger] text::split_parts(s, pat)[i],
                pat,
            ),
    decreases s.len(),
{
    text::lemma_first_at(s, pat, 0);
    let parts = text::split_parts(s, pat);
    if let Some(i) = text::first_at(s, pat, 0) {
        let rest = s.skip(i + pat.len());
        let more = text::split_parts(rest, pat);
        let head = s.take(i);
        law_parts_make_up_the_text(rest, pat);
        assert(parts == seq![head] + more);
        lemma_joined_from_the_left(head, more, pat);
        assert(s.subrange(i, i + pat.len()) == pat);
        assert(s =~= head + pat + rest);
        if text::has_text(head, pat) {
            let j = choose|j: int| text::occurs_at(head, pat, j);
            assert(s.subrange(j, j + pat.len()) =~= head.subrange(j, j + pat.len()));
            assert(text::occurs_at(s, pat, j));
        }
        assert forall|k: int| 0 <= k < parts.len() implies !text::has_text(
            #[trigger] parts[k],
            pat,
        ) by {
            if k > 0 {
                assert(parts[k] == more[k - 1]);
            }
        }
    } else {
        assert(parts == seq![s]);
        assert(!text::has_text(s, pat));
    }
}

/// What stands between the parts of a text is replaced, and the parts stay.
pub proof fn law_only_the_mark_is_replaced(
    a: Seq<char>,
    mark: Seq<char>,
    rest: Seq<char>,
    with: Seq<char>,
)
    requires
        mark.len() > 0,
        !a.contains(mark[0]),
    ensures
        text::replaced(a, mark, with) == a,
        text::replaced(a + mark + rest, mark, with) == a + with + text::replaced(rest, mark, with),
{
    text::lemma_split_without(a, mark);
    text::lemma_split_after(a, mark, rest);
    law_parts_make_up_the_text(rest, mark);
    lemma_joined_from_the_left(a, text::split_parts(rest, mark), with);
}

/// Lower case changes the 26 capital letters to the small ones, and nothing else.
pub proof fn law_capitals_are_lowered(s: Seq<char>, i: int)
    requires
        0 <= i < s.len(),
    ensures
        text::ascii_lowered(s).len() == s.len(),
        65 <= s[i] as u32 <= 90 ==> text::ascii_lowered(s)[i] as u32 == s[i] as u32 + 32,
        !(65 <= s[i] as u32 <= 90) ==> text::ascii_lowered(s)[i] == s[i],
{
}

/// A text of two parts with an at sign between them has the shape of an email address
/// just where something stands before the sign, and after it at least three letters,
/// digits, points and hyphens, with a point among them. A text with no sign, or with
/// more than one, has not.
pub proof fn law_emails_have_a_name_and_a_domain(
    name: Seq<char>,
    domain: Seq<char>,
    more: Seq<char>,
)
    requires
        !name.contains('@'),
        !domain.contains('@'),
    ensures
        form_validator::is_email_shaped(name + "@"@ + domain) <==> {
            &&& name.len() > 0
            &&& domain.len() >= 3
            &&& domain.contains('.')
            &&& forall|i: int|
                0 <= i < domain.len() ==> {
                    let n = #[trigger] domain[i] as u32;
                    48 <= n <= 57 || 65 <= n <= 90 || 97 <= n <= 122 || n == 45 || n == 46
                }
        },
        !form_validator::is_email_shaped(name),
        !form_validator::is_email_shaped(name + "@"@ + (domain + "@"@ + more)),
{
    reveal_strlit("@");
    let at = "@"@;
    assert(at.len() == 1 && at[0] == '@');
    text::lemma_split_without(name, at);
    text::lemma_split_without(domain, at);
    text::lemma_split_after(name, at, domain);
    text::lemma_split_after(name, at, domain + at + more);
    text::lemma_split_after(domain, at, more);
    law_parts_make_up_the_text(more, at);
    let parts = text::split_parts(name + at + domain, at);
    assert(parts =~= seq![name, domain]);
    if forall|i: int| 0 <= i < domain.len() ==> form_validator::is_domain_char(#[trigger] domain[i]) {
        assert(vstd::utf8::is_ascii_chars(domain));
        vstd::utf8::is_ascii_chars_encode_utf8(domain);
    }
    assert forall|i: int| 0 <= i < domain.len() implies form_validator::is_domain_char(
        #[trigger] domain[i],
    ) == ({
        let n = domain[i] as u32;
        48 <= n <= 57 || 65 <= n <= 90 || 97 <= n <= 122 || n == 45 || n == 46
    }) by {
        lemma_domain_char(domain[i]);
    }
}

proof fn lemma_domain_char(c: char)
    ensures
        form_validator::is_domain_char(c) == ({
            let n = c as u32;
            48 <= n <= 57 || 65 <= n <= 90 || 97 <= n <= 122 || n == 45 || n == 46
        }),
{
}

} // verus!

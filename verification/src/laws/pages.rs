//! What pages are for: what they are made of stands in them, where it belongs.

use vstd::prelude::*;

use crate::routes::form_render::FormRow;
use crate::routes::{admin, form_render, pages, role_config};

verus! {

/// What stands between two texts is a part of the whole.
pub proof fn lemma_part(a: Seq<char>, part: Seq<char>, b: Seq<char>)
    ensures
        crate::text::has_text(a + part + b, part),
{
    let whole = a + part + b;
    let i = a.len() as int;
    assert(whole.subrange(i, i + part.len()) =~= part);
    assert(crate::text::occurs_at(whole, part, i));
}

proof fn lemma_grouped(
    a: Seq<char>,
    b: Seq<char>,
    c: Seq<char>,
    d: Seq<char>,
    e: Seq<char>,
    f: Seq<char>,
)
    ensures
        a + b + c + d + e + f == a + (b + c + d + e + f),
        a + b + c + d + e + f == (a + b) + (c + d + e + f),
{
    assert(a + b + c + d + e + f =~= a + (b + c + d + e + f));
    assert(a + b + c + d + e + f =~= (a + b) + (c + d + e + f));
}

/// The page that tells why a form is not shown has the title of the form as its own and
/// as its heading, and the message below it.
pub proof fn law_status_pages_tell_why(title: Seq<char>, base_url: Seq<char>, msg: Seq<char>)
    ensures
        ({
            let page = pages::status_page(title, base_url, msg);
            &&& crate::text::has_text(page, pages::STATUS_0@ + title + pages::STATUS_1@)
            &&& crate::text::has_text(
                page,
                pages::STATUS_2@ + title + pages::STATUS_3@ + msg + pages::STATUS_4@,
            )
        }),
{
    let page = pages::status_page(title, base_url, msg);
    let head = pages::STATUS_0@ + title + pages::STATUS_1@;
    let tail = pages::STATUS_2@ + title + pages::STATUS_3@ + msg + pages::STATUS_4@;
    lemma_grouped(
        head + base_url,
        pages::STATUS_2@,
        title,
        pages::STATUS_3@,
        msg,
        pages::STATUS_4@,
    );
    assert(page == head + base_url + tail);
    lemma_part(Seq::empty(), head, base_url + tail);
    assert(head + base_url + tail =~= Seq::<char>::empty() + head + (base_url + tail));
    lemma_part(head + base_url, tail, Seq::empty());
    assert(head + base_url + tail =~= head + base_url + tail + Seq::<char>::empty());
}

/// The page that asks a visitor to sign in has the title of the form as its heading, its
/// description below it, and the way back to the form in its link.
pub proof fn law_signin_pages_lead_back(
    title: Seq<char>,
    base_url: Seq<char>,
    description: Seq<char>,
    slug: Seq<char>,
    block: Seq<char>,
    back: Seq<char>,
)
    ensures
        ({
            let page = pages::form_signin_page(title, base_url, description, slug, block, back);
            &&& crate::text::has_text(
                page,
                pages::FORM_SIGNIN_6@ + title + pages::FORM_SIGNIN_7@ + block
                    + pages::FORM_SIGNIN_8@ + back + pages::FORM_SIGNIN_9@,
            )
            &&& crate::text::has_text(page, pages::FORM_SIGNIN_3@ + description)
            &&& crate::text::has_text(
                page,
                pages::FORM_SIGNIN_4@ + base_url + pages::FORM_SIGNIN_5@ + slug,
            )
            &&& crate::text::has_text(page, pages::FORM_SIGNIN_0@ + title)
        }),
{
    let page = pages::form_signin_page(title, base_url, description, slug, block, back);
    let a = pages::FORM_SIGNIN_0@ + title;
    let b = pages::FORM_SIGNIN_1@ + base_url + pages::FORM_SIGNIN_2@ + title;
    let c = pages::FORM_SIGNIN_3@ + description;
    let d = pages::FORM_SIGNIN_4@ + base_url + pages::FORM_SIGNIN_5@ + slug;
    let e = pages::FORM_SIGNIN_6@ + title + pages::FORM_SIGNIN_7@ + block + pages::FORM_SIGNIN_8@
        + back + pages::FORM_SIGNIN_9@;
    assert(page =~= a + b + c + d + e);
    lemma_part(Seq::empty(), a, b + c + d + e);
    assert(page =~= Seq::<char>::empty() + a + (b + c + d + e));
    lemma_part(a + b, c, d + e);
    assert(page =~= a + b + c + (d + e));
    lemma_part(a + b + c, d, e);
    lemma_part(a + b + c + d, e, Seq::empty());
    assert(page =~= a + b + c + d + e + Seq::<char>::empty());
}

/// The pages that deny access have the message in them.
pub proof fn law_denials_stand_on_their_page(base_url: Seq<char>, msg: Seq<char>)
    ensures
        crate::text::has_text(
            pages::denied_page(base_url, msg),
            pages::DENIED_1@ + msg + pages::DENIED_2@,
        ),
        crate::text::has_text(
            pages::iframe_error_page(base_url, msg),
            pages::IFRAME_ERROR_1@ + msg + pages::IFRAME_ERROR_2@,
        ),
{
    let a = pages::DENIED_0@ + base_url;
    let b = pages::DENIED_1@ + msg + pages::DENIED_2@;
    let c = base_url + pages::DENIED_3@;
    lemma_six(
        pages::DENIED_0@,
        base_url,
        pages::DENIED_1@,
        msg,
        pages::DENIED_2@,
        base_url,
        pages::DENIED_3@,
    );
    lemma_part(a, b, c);
    let d = pages::IFRAME_ERROR_0@ + base_url;
    let e = pages::IFRAME_ERROR_1@ + msg + pages::IFRAME_ERROR_2@;
    lemma_six(
        pages::IFRAME_ERROR_0@,
        base_url,
        pages::IFRAME_ERROR_1@,
        msg,
        pages::IFRAME_ERROR_2@,
        Seq::empty(),
        Seq::empty(),
    );
    assert(Seq::<char>::empty() + Seq::<char>::empty() =~= Seq::<char>::empty());
    let page = pages::iframe_error_page(base_url, msg);
    assert(page + Seq::<char>::empty() =~= page);
    lemma_part(d, e, Seq::empty());
}

proof fn lemma_six(
    a: Seq<char>,
    b: Seq<char>,
    c: Seq<char>,
    d: Seq<char>,
    e: Seq<char>,
    f: Seq<char>,
    g: Seq<char>,
)
    ensures
        a + b + c + d + e + f + g == (a + b) + (c + d + e) + (f + g),
{
    assert(a + b + c + d + e + f + g =~= (a + b) + (c + d + e) + (f + g));
}

/// The page that asks an admin to sign in has the address in its script.
pub proof fn law_admins_sign_in_at_the_address(base_url: Seq<char>)
    ensures
        crate::text::has_text(
            pages::admin_signin_page(base_url),
            pages::ADMIN_SIGNIN_1@ + base_url + pages::ADMIN_SIGNIN_2@,
        ),
{
    let f = pages::ADMIN_SIGNIN_0@ + base_url;
    let g = pages::ADMIN_SIGNIN_1@ + base_url + pages::ADMIN_SIGNIN_2@;
    lemma_six(
        pages::ADMIN_SIGNIN_0@,
        base_url,
        pages::ADMIN_SIGNIN_1@,
        base_url,
        pages::ADMIN_SIGNIN_2@,
        Seq::empty(),
        Seq::empty(),
    );
    assert(Seq::<char>::empty() + Seq::<char>::empty() =~= Seq::<char>::empty());
    let page = pages::admin_signin_page(base_url);
    assert(page + Seq::<char>::empty() =~= page);
    lemma_part(f, g, Seq::empty());
}

/// What a page is told of a form stands in it escaped: the title and the message of the
/// page that tells why a form is not shown, and the title, the description, the slug and
/// the encoded way back of the page that asks to sign in, which shows a description just
/// where there is one.
pub proof fn law_pages_are_told_escaped_texts(
    base_url: Seq<char>,
    form: FormRow,
    slug: Seq<char>,
    message: Seq<char>,
)
    ensures
        form_render::status_body(base_url, form.title@, message) == pages::status_page(
            form_render::html_escaped(form.title@),
            base_url,
            form_render::html_escaped(message),
        ),
        form_render::signin_body(base_url, form, slug) == pages::form_signin_page(
            form_render::html_escaped(form.title@),
            base_url,
            form_render::html_escaped(form.description@),
            form_render::html_escaped(slug),
            if form.description@.len() > 0 {
                "<p>"@ + form_render::html_escaped(form.description@) + "</p>"@
            } else {
                Seq::empty()
            },
            crate::outside::percent_encoded(
                vstd::utf8::encode_utf8("/form-respondent-role/f/"@ + slug),
            ),
        ),
{
}

/// A text that does not hold a mark stays as it is when the mark is replaced.
pub proof fn lemma_unmarked(s: Seq<char>, mark: Seq<char>, with: Seq<char>)
    requires
        mark.len() > 0,
        !crate::text::has_text(s, mark),
    ensures
        crate::text::replaced(s, mark, with) == s,
{
    crate::text::lemma_first_at(s, mark, 0);
    if let Some(i) = crate::text::first_at(s, mark, 0) {
        assert(crate::text::occurs_at(s, mark, i));
    }
    assert(crate::text::split_parts(s, mark) == seq![s]);
}

/// A mark that is longer than a text does not stand in it.
proof fn lemma_too_long(s: Seq<char>, mark: Seq<char>, with: Seq<char>)
    requires
        mark.len() > s.len(),
    ensures
        crate::text::replaced(s, mark, with) == s,
{
    lemma_unmarked(s, mark, with);
}

/// The mark alone is replaced as a whole.
pub proof fn lemma_only_a_mark(mark: Seq<char>, with: Seq<char>)
    requires
        mark.len() > 0,
    ensures
        crate::text::replaced(mark, mark, with) == with,
{
    let none = Seq::<char>::empty();
    assert(mark.subrange(0, mark.len() as int) =~= mark);
    assert(crate::text::occurs_at(mark, mark, 0));
    crate::text::lemma_first_at(mark, mark, 0);
    assert(crate::text::first_at(mark, mark, 0) == Some(0int));
    assert(mark.take(0) =~= none);
    assert(mark.skip(mark.len() as int) =~= none);
    crate::text::lemma_first_at(none, mark, 0);
    assert(crate::text::split_parts(none, mark) == seq![none]);
    let parts = crate::text::split_parts(mark, mark);
    assert(parts =~= seq![none, none]);
    reveal_with_fuel(crate::text::joined, 2);
    assert(parts.drop_last() =~= seq![none]);
    assert(crate::text::joined(parts, with) =~= with);
}

/// The form page has, where its template marks them, the title, the description and the
/// slug of the form, escaped, and the address as it is, as far as none of them holds
/// another mark.
pub proof fn law_form_pages_are_filled_in(
    base_url: Seq<char>,
    form: FormRow,
    slug: Seq<char>,
    discord_id: Seq<char>,
    name: Seq<char>,
    preview: bool,
)
    ensures
        ({
            let page = |template: Seq<char>|
                form_render::form_body(
                    template,
                    base_url,
                    form,
                    slug,
                    discord_id,
                    name,
                    preview,
                );
            let title = form_render::html_escaped(form.title@);
            let description = form_render::html_escaped(form.description@);
            let start = crate::json::json_text(
                form_render::bootstrap(base_url, form, slug, discord_id, name, preview),
            );
            &&& page("__SLUG__"@) == form_render::html_escaped(slug)
            &&& !crate::text::has_text(description, "__SLUG__"@) ==> page("__DESCRIPTION__"@)
                == description
            &&& !crate::text::has_text(title, "__DESCRIPTION__"@) && !crate::text::has_text(
                title,
                "__SLUG__"@,
            ) ==> page("__TITLE__"@) == title
            &&& !crate::text::has_text(base_url, "__TITLE__"@) && !crate::text::has_text(
                base_url,
                "__DESCRIPTION__"@,
            ) && !crate::text::has_text(base_url, "__SLUG__"@) ==> page("__BASE_URL__"@) == base_url
            &&& !crate::text::has_text(start, "__BASE_URL__"@) && !crate::text::has_text(
                start,
                "__TITLE__"@,
            ) && !crate::text::has_text(start, "__DESCRIPTION__"@) && !crate::text::has_text(
                start,
                "__SLUG__"@,
            ) ==> page("__BOOTSTRAP__"@) == start
        }),
{
    reveal_strlit("__BOOTSTRAP__");
    reveal_strlit("__BASE_URL__");
    reveal_strlit("__TITLE__");
    reveal_strlit("__DESCRIPTION__");
    reveal_strlit("__SLUG__");
    let title = form_render::html_escaped(form.title@);
    let description = form_render::html_escaped(form.description@);
    let end = form_render::html_escaped(slug);
    let start = crate::json::json_text(
        form_render::bootstrap(base_url, form, slug, discord_id, name, preview),
    );
    lemma_fill("__SLUG__"@, start, base_url, title, description, end);
    lemma_fill("__TITLE__"@, start, base_url, title, description, end);
    lemma_fill_long(start, base_url, title, description, end);
}

proof fn lemma_fill(
    template: Seq<char>,
    start: Seq<char>,
    base_url: Seq<char>,
    title: Seq<char>,
    description: Seq<char>,
    end: Seq<char>,
)
    requires
        template == "__SLUG__"@ || template == "__TITLE__"@,
    ensures
        ({
            let a = crate::text::replaced(template, "__BOOTSTRAP__"@, start);
            let b = crate::text::replaced(a, "__BASE_URL__"@, base_url);
            let c = crate::text::replaced(b, "__TITLE__"@, title);
            let d = crate::text::replaced(c, "__DESCRIPTION__"@, description);
            let e = crate::text::replaced(d, "__SLUG__"@, end);
            &&& template == "__SLUG__"@ ==> e == end
            &&& template == "__TITLE__"@ && !crate::text::has_text(title, "__DESCRIPTION__"@)
                && !crate::text::has_text(title, "__SLUG__"@) ==> e == title
        }),
{
    reveal_strlit("__BOOTSTRAP__");
    reveal_strlit("__BASE_URL__");
    reveal_strlit("__TITLE__");
    reveal_strlit("__DESCRIPTION__");
    reveal_strlit("__SLUG__");
    lemma_too_long(template, "__BOOTSTRAP__"@, start);
    lemma_too_long(template, "__BASE_URL__"@, base_url);
    if template == "__SLUG__"@ {
        lemma_too_long(template, "__TITLE__"@, title);
        lemma_too_long(template, "__DESCRIPTION__"@, description);
        lemma_only_a_mark(template, end);
    } else {
        lemma_only_a_mark("__TITLE__"@, title);
        if !crate::text::has_text(title, "__DESCRIPTION__"@) && !crate::text::has_text(
            title,
            "__SLUG__"@,
        ) {
            lemma_unmarked(title, "__DESCRIPTION__"@, description);
            lemma_unmarked(title, "__SLUG__"@, end);
        }
    }
}

proof fn lemma_apart(s: Seq<char>, mark: Seq<char>)
    requires
        mark.len() > 2,
        mark[0] == '_' && mark[1] == '_' && mark[2] != '_',
        forall|i: int| 0 <= i < s.len() - 2 ==> !(s[i] == '_' && #[trigger] s[i + 1] == '_' && s[i
            + 2] == mark[2]),
    ensures
        !crate::text::has_text(s, mark),
{
    if crate::text::has_text(s, mark) {
        let i = choose|i: int| crate::text::occurs_at(s, mark, i);
        let part = s.subrange(i, i + mark.len());
        assert(part[0] == s[i] && part[1] == s[i + 1] && part[2] == s[i + 2]);
    }
}

proof fn lemma_fill_long(
    start: Seq<char>,
    base_url: Seq<char>,
    title: Seq<char>,
    description: Seq<char>,
    end: Seq<char>,
)
    ensures
        ({
            let fill = |template: Seq<char>|
                {
                    let a = crate::text::replaced(template, "__BOOTSTRAP__"@, start);
                    let b = crate::text::replaced(a, "__BASE_URL__"@, base_url);
                    let c = crate::text::replaced(b, "__TITLE__"@, title);
                    let d = crate::text::replaced(c, "__DESCRIPTION__"@, description);
                    crate::text::replaced(d, "__SLUG__"@, end)
                };
            &&& !crate::text::has_text(description, "__SLUG__"@) ==> fill("__DESCRIPTION__"@)
                == description
            &&& !crate::text::has_text(base_url, "__TITLE__"@) && !crate::text::has_text(
                base_url,
                "__DESCRIPTION__"@,
            ) && !crate::text::has_text(base_url, "__SLUG__"@) ==> fill("__BASE_URL__"@) == base_url
            &&& !crate::text::has_text(start, "__BASE_URL__"@) && !crate::text::has_text(
                start,
                "__TITLE__"@,
            ) && !crate::text::has_text(start, "__DESCRIPTION__"@) && !crate::text::has_text(
                start,
                "__SLUG__"@,
            ) ==> fill("__BOOTSTRAP__"@) == start
        }),
{
    reveal_strlit("__BOOTSTRAP__");
    reveal_strlit("__BASE_URL__");
    reveal_strlit("__TITLE__");
    reveal_strlit("__DESCRIPTION__");
    reveal_strlit("__SLUG__");
    let d = "__DESCRIPTION__"@;
    lemma_apart(d, "__BOOTSTRAP__"@);
    lemma_apart(d, "__BASE_URL__"@);
    lemma_apart(d, "__TITLE__"@);
    lemma_unmarked(d, "__BOOTSTRAP__"@, start);
    lemma_unmarked(d, "__BASE_URL__"@, base_url);
    lemma_unmarked(d, "__TITLE__"@, title);
    lemma_only_a_mark(d, description);
    if !crate::text::has_text(description, "__SLUG__"@) {
        lemma_unmarked(description, "__SLUG__"@, end);
    }
    let b = "__BASE_URL__"@;
    lemma_too_long(b, "__BOOTSTRAP__"@, start);
    lemma_only_a_mark(b, base_url);
    if !crate::text::has_text(base_url, "__TITLE__"@) && !crate::text::has_text(
        base_url,
        "__DESCRIPTION__"@,
    ) && !crate::text::has_text(base_url, "__SLUG__"@) {
        lemma_unmarked(base_url, "__TITLE__"@, title);
        lemma_unmarked(base_url, "__DESCRIPTION__"@, description);
        lemma_unmarked(base_url, "__SLUG__"@, end);
    }
    lemma_only_a_mark("__BOOTSTRAP__"@, start);
    if !crate::text::has_text(start, "__BASE_URL__"@) && !crate::text::has_text(start, "__TITLE__"@)
        && !crate::text::has_text(start, "__DESCRIPTION__"@) && !crate::text::has_text(
        start,
        "__SLUG__"@,
    ) {
        lemma_unmarked(start, "__BASE_URL__"@, base_url);
        lemma_unmarked(start, "__TITLE__"@, title);
        lemma_unmarked(start, "__DESCRIPTION__"@, description);
        lemma_unmarked(start, "__SLUG__"@, end);
    }
}

/// The pages of managers have, where their templates mark them, the address, the guild,
/// and the form or the role and its session, as far as none of them holds another mark.
pub proof fn law_manager_pages_are_filled_in(
    template: &str,
    base_url: &str,
    guild_id: &str,
    id: &str,
    session: Option<&str>,
    page: String,
)
    ensures
        call_ensures(admin::list_page, (template, base_url, guild_id), page) ==> {
            &&& template@ == "__GUILD_ID__"@ ==> page@ == guild_id@
            &&& template@ == "__BASE_URL__"@ && !crate::text::has_text(base_url@, "__GUILD_ID__"@)
                ==> page@ == base_url@
        },
        call_ensures(admin::form_page, (template, base_url, guild_id, id), page) ==> {
            &&& template@ == "__FORM_ID__"@ ==> page@ == id@
            &&& template@ == "__GUILD_ID__"@ && !crate::text::has_text(guild_id@, "__FORM_ID__"@)
                ==> page@ == guild_id@
        },
        call_ensures(
            role_config::render_role_config,
            (template, base_url, guild_id, id, session),
            page,
        ) ==> {
            &&& template@ == "__IFRAME_TOKEN__"@ && session is Some ==> page@ == session->0@
            &&& template@ == "__IFRAME_TOKEN__"@ && session is None ==> page@.len() == 0
            &&& template@ == "__ROLE_ID__"@ && !crate::text::has_text(id@, "__IFRAME_TOKEN__"@)
                ==> page@ == id@
        },
{
    reveal_strlit("__BASE_URL__");
    reveal_strlit("__GUILD_ID__");
    reveal_strlit("__FORM_ID__");
    reveal_strlit("__ROLE_ID__");
    reveal_strlit("__IFRAME_TOKEN__");
    let token = if session is Some {
        session->0@
    } else {
        Seq::empty()
    };
    let g = "__GUILD_ID__"@;
    lemma_apart(g, "__BASE_URL__"@);
    lemma_unmarked(g, "__BASE_URL__"@, base_url@);
    lemma_only_a_mark(g, guild_id@);
    lemma_only_a_mark("__BASE_URL__"@, base_url@);
    if !crate::text::has_text(base_url@, g) {
        lemma_unmarked(base_url@, g, guild_id@);
    }
    let f = "__FORM_ID__"@;
    lemma_too_long(f, "__BASE_URL__"@, base_url@);
    lemma_too_long(f, g, guild_id@);
    lemma_only_a_mark(f, id@);
    if !crate::text::has_text(guild_id@, f) {
        lemma_unmarked(guild_id@, f, id@);
    }
    let t = "__IFRAME_TOKEN__"@;
    lemma_apart(t, "__BASE_URL__"@);
    lemma_apart(t, g);
    lemma_apart(t, "__ROLE_ID__"@);
    lemma_unmarked(t, "__BASE_URL__"@, base_url@);
    lemma_unmarked(t, g, guild_id@);
    lemma_unmarked(t, "__ROLE_ID__"@, id@);
    lemma_only_a_mark(t, token);
    let r = "__ROLE_ID__"@;
    lemma_too_long(r, "__BASE_URL__"@, base_url@);
    lemma_too_long(r, g, guild_id@);
    lemma_only_a_mark(r, id@);
    if !crate::text::has_text(id@, t) {
        lemma_unmarked(id@, t, token);
    }
}

} // verus!

use vstd::prelude::*;
use crate::story::{external_of, post_link_text, Hit};
use crate::text::{push_str, string_of};

verus! {

/// The line that credits the external source, empty where there is none.
pub open spec fn source_line(external: Option<Seq<char>>) -> Seq<char> {
    match external {
        Some(u) => "[source]("@ + u + ")"@,
        None => Seq::empty(),
    }
}

/// The first line of a notification: the bold title, linked to the post.
pub open spec fn headline(title: Seq<char>, post: Seq<char>) -> Seq<char> {
    "- *["@ + title + "]*("@ + post + ")\n"@
}

/// A notification in full.
pub open spec fn message_text(
    title: Seq<char>,
    post: Seq<char>,
    external: Option<Seq<char>>,
    author: Seq<char>,
    body: Seq<char>,
) -> Seq<char> {
    headline(title, post) + source_line(external) + " by "@ + author + "\n"@ + body
}

/// The notification for a story, with `body` as its summary or page text.
pub open spec fn notification_of(hit: &Hit, body: Seq<char>) -> Seq<char> {
    message_text(hit.title@, post_link_text(hit.object_id@), external_of(hit), hit.author@, body)
}

/// A notification without a source line.
pub open spec fn unsourced_text(hit: &Hit, body: Seq<char>) -> Seq<char> {
    headline(hit.title@, post_link_text(hit.object_id@)) + " by "@ + hit.author@ + "\n"@ + body
}

/// A notification leaves the source line out exactly when its story has no
/// external link.
pub proof fn lemma_source_line_iff_external(hit: &Hit, body: Seq<char>)
    ensures
        (notification_of(hit, body) == unsourced_text(hit, body)) <==> hit.url is None,
{
    let h = headline(hit.title@, post_link_text(hit.object_id@));
    let tail = " by "@ + hit.author@ + "\n"@ + body;
    assert(notification_of(hit, body) =~= h + source_line(external_of(hit)) + tail);
    assert(unsourced_text(hit, body) =~= h + tail);
    match &hit.url {
        Some(u) => {
            reveal_strlit("[source](");
            assert(source_line(external_of(hit)).len() > 0);
            assert(notification_of(hit, body).len() > unsourced_text(hit, body).len());
        },
        None => {
            assert(h + source_line(external_of(hit)) =~= h);
        },
    }
}

/// The position of the first `c` in `s`, or the length of `s` where there is none.
pub open spec fn find(s: Seq<char>, c: char) -> nat
    decreases s.len(),
{
    if s.len() == 0 {
        0
    } else if s[0] == c {
        0
    } else {
        1 + find(s.drop_first(), c)
    }
}

/// Whether `c` occurs in `s`.
pub open spec fn holds_char(s: Seq<char>, c: char) -> bool {
    exists|i: int| 0 <= i < s.len() && s[i] == c
}

/// The parts of a notification.
pub struct NoticeParts {
    pub title: Seq<char>,
    pub post: Seq<char>,
    pub source: Option<Seq<char>>,
    pub author: Seq<char>,
    pub body: Seq<char>,
}

/// Reads the parts of a notification back, cutting at the first delimiter
/// that closes each part.
pub open spec fn read_notice(m: Seq<char>) -> NoticeParts {
    let a = m.skip(4);
    let i = find(a, ']') as int;
    let c = a.skip(i + 3);
    let j = find(c, ')') as int;
    let e = c.skip(j + 2);
    let sourced = e.len() > 0 && e[0] == '[';
    let g = e.skip(9);
    let k = find(g, ')') as int;
    let f = if sourced { g.skip(k + 1) } else { e };
    let h = f.skip(4);
    let l = find(h, '\n') as int;
    NoticeParts {
        title: a.take(i),
        post: c.take(j),
        source: if sourced { Some(g.take(k)) } else { None },
        author: h.take(l),
        body: h.skip(l + 1),
    }
}

proof fn lemma_find(a: Seq<char>, c: char, rest: Seq<char>)
    requires
        !holds_char(a, c),
    ensures
        find(a + seq![c] + rest, c) == a.len(),
    decreases a.len(),
{
    let x = a + seq![c] + rest;
    if a.len() > 0 {
        assert(a[0] != c);
        let t = a.drop_first();
        assert(!holds_char(t, c)) by {
            if holds_char(t, c) {
                let i = choose|i: int| 0 <= i < t.len() && t[i] == c;
                assert(a[i + 1] == c);
            }
        }
        lemma_find(t, c, rest);
        assert(x.drop_first() =~= t + seq![c] + rest);
    }
}

proof fn lemma_delimiters()
    ensures
        "- *["@ == seq!['-', ' ', '*', '['],
        "]*("@ == seq![']', '*', '('],
        ")\n"@ == seq![')', '\n'],
        "[source]("@ == seq!['[', 's', 'o', 'u', 'r', 'c', 'e', ']', '('],
        ")"@ == seq![')'],
        " by "@ == seq![' ', 'b', 'y', ' '],
        "\n"@ == seq!['\n'],
{
    reveal_strlit("- *[");
    reveal_strlit("]*(");
    reveal_strlit(")\n");
    reveal_strlit("[source](");
    reveal_strlit(")");
    reveal_strlit(" by ");
    reveal_strlit("\n");
    assert("- *["@ =~= seq!['-', ' ', '*', '[']);
    assert("]*("@ =~= seq![']', '*', '(']);
    assert(")\n"@ =~= seq![')', '\n']);
    assert("[source]("@ =~= seq!['[', 's', 'o', 'u', 'r', 'c', 'e', ']', '(']);
    assert(")"@ =~= seq![')']);
    assert(" by "@ =~= seq![' ', 'b', 'y', ' ']);
    assert("\n"@ =~= seq!['\n']);
}

/// Formatting and reading back agree: a notification gives back its title,
/// post link, source link, author and body, wherever the title holds no `]`,
/// the post and source links no `)` and the author no line break.
#[verifier::rlimit(20)]
pub proof fn lemma_read_notice_round_trip(
    title: Seq<char>,
    post: Seq<char>,
    external: Option<Seq<char>>,
    author: Seq<char>,
    body: Seq<char>,
)
    requires
        !holds_char(title, ']'),
        !holds_char(post, ')'),
        external matches Some(u) ==> !holds_char(u, ')'),
        !holds_char(author, '\n'),
    ensures
        read_notice(message_text(title, post, external, author, body)) == (NoticeParts {
            title,
            post,
            source: external,
            author,
            body,
        }),
{
    lemma_delimiters();
    let m = message_text(title, post, external, author, body);
    let src = source_line(external);
    let tail = " by "@ + author + "\n"@ + body;
    let a = m.skip(4);
    assert(a =~= title + seq![']'] + (seq!['*', '('] + post + ")\n"@ + src + tail));
    lemma_find(title, ']', seq!['*', '('] + post + ")\n"@ + src + tail);
    let i = title.len() as int;
    assert(a.take(i) =~= title);
    let c = a.skip(i + 3);
    assert(c =~= post + seq![')'] + (seq!['\n'] + src + tail));
    lemma_find(post, ')', seq!['\n'] + src + tail);
    let j = post.len() as int;
    assert(c.take(j) =~= post);
    let e = c.skip(j + 2);
    assert(e =~= src + tail);
    let f = match external {
        Some(u) => {
            let g = e.skip(9);
            assert(g =~= u + seq![')'] + tail);
            lemma_find(u, ')', tail);
            assert(g.take(u.len() as int) =~= u);
            assert(g.skip(u.len() as int + 1) =~= tail);
            assert(e[0] == '[');
            tail
        },
        None => {
            assert(e[0] == ' ');
            e
        },
    };
    assert(f =~= tail);
    let h = f.skip(4);
    assert(h =~= author + seq!['\n'] + body);
    lemma_find(author, '\n', body);
    assert(h.take(author.len() as int) =~= author);
    assert(h.skip(author.len() as int + 1) =~= body);
}

/// Renders the notification of a story.
pub fn format_message(hit: &Hit, body: &str) -> (r: String)
    ensures
        r@ == notification_of(hit, body@),
{
    let mut out: Vec<char> = Vec::new();
    push_str(&mut out, "- *[");
    push_str(&mut out, hit.title.as_str());
    push_str(&mut out, "]*(");
    let post = hit.post_url();
    push_str(&mut out, post.as_str());
    push_str(&mut out, ")\n");
    match &hit.url {
        Some(u) => {
            push_str(&mut out, "[source](");
            push_str(&mut out, u.as_str());
            push_str(&mut out, ")");
        },
        None => {},
    }
    push_str(&mut out, " by ");
    push_str(&mut out, hit.author.as_str());
    push_str(&mut out, "\n");
    push_str(&mut out, body);
    let r = string_of(&out);
    assert(r@ =~= notification_of(hit, body@));
    r
}

} // verus!

use vstd::prelude::*;

verus! {

/// The decimal digit character for a value below ten.
pub open spec fn digit_char(d: nat) -> char {
    if d == 0 { '0' }
    else if d == 1 { '1' }
    else if d == 2 { '2' }
    else if d == 3 { '3' }
    else if d == 4 { '4' }
    else if d == 5 { '5' }
    else if d == 6 { '6' }
    else if d == 7 { '7' }
    else if d == 8 { '8' }
    else { '9' }
}

/// Decimal notation of a natural number, without leading zeros.
pub open spec fn decimal(n: nat) -> Seq<char>
    decreases n,
{
    if n < 10 {
        seq![digit_char(n)]
    } else {
        decimal(n / 10).push(digit_char(n % 10))
    }
}

/// Decimal notation of a signed number: a minus sign before negatives.
pub open spec fn signed_decimal(n: int) -> Seq<char> {
    if n < 0 {
        seq!['-'] + decimal((-n) as nat)
    } else {
        decimal(n as nat)
    }
}

fn digit(d: u64) -> (c: char)
    requires
        d < 10,
    ensures
        c == digit_char(d as nat),
{
    if d == 0 { '0' }
    else if d == 1 { '1' }
    else if d == 2 { '2' }
    else if d == 3 { '3' }
    else if d == 4 { '4' }
    else if d == 5 { '5' }
    else if d == 6 { '6' }
    else if d == 7 { '7' }
    else if d == 8 { '8' }
    else { '9' }
}

/// Appends the decimal notation of `n` to `out`.
pub fn push_decimal(n: u64, out: &mut Vec<char>)
    ensures
        final(out)@ == old(out)@ + decimal(n as nat),
    decreases n,
{
    if n >= 10 {
        push_decimal(n / 10, out);
    }
    out.push(digit(n % 10));
}

/// Appends the signed decimal notation of `n` to `out`.
pub fn push_signed_decimal(n: i64, out: &mut Vec<char>)
    ensures
        final(out)@ == old(out)@ + signed_decimal(n as int),
{
    if n < 0 {
        out.push('-');
        let m: u64 = ((-(n + 1)) as u64) + 1;
        push_decimal(m, out);
        assert(final(out)@ =~= old(out)@ + signed_decimal(n as int));
    } else {
        push_decimal(n as u64, out);
    }
}


/// Unicode `White_Space`, the set that `char::is_whitespace` tests.
pub open spec fn is_white(c: char) -> bool {
    let u = c as u32;
    (0x09 <= u <= 0x0d) || u == 0x20 || u == 0x85 || u == 0xa0 || u == 0x1680
        || (0x2000 <= u <= 0x200a) || u == 0x2028 || u == 0x2029 || u == 0x202f
        || u == 0x205f || u == 0x3000
}

/// Tests whether `c` separates words.
pub fn is_white_char(c: char) -> (r: bool)
    ensures
        r == is_white(c),
{
    let u = c as u32;
    (0x09 <= u && u <= 0x0d) || u == 0x20 || u == 0x85 || u == 0xa0 || u == 0x1680
        || (0x2000 <= u && u <= 0x200a) || u == 0x2028 || u == 0x2029 || u == 0x202f
        || u == 0x205f || u == 0x3000
}

/// The maximal runs of non-whitespace characters of `s`, in order.
pub open spec fn words(s: Seq<char>) -> Seq<Seq<char>>
    decreases s.len(),
{
    if s.len() == 0 {
        Seq::empty()
    } else {
        let p = s.drop_last();
        let c = s.last();
        if is_white(c) {
            words(p)
        } else if p.len() > 0 && !is_white(p.last()) {
            let w = words(p);
            w.update(w.len() - 1, w.last().push(c))
        } else {
            words(p).push(seq![c])
        }
    }
}

/// A word: non-empty, with no whitespace in it.
pub open spec fn is_word(w: Seq<char>) -> bool {
    w.len() > 0 && forall|i: int| 0 <= i < w.len() ==> !is_white(#[trigger] w[i])
}

/// The words joined with one space between neighbours.
pub open spec fn join_words(ws: Seq<Seq<char>>) -> Seq<char>
    decreases ws.len(),
{
    if ws.len() == 0 {
        Seq::empty()
    } else if ws.len() == 1 {
        ws[0]
    } else {
        join_words(ws.drop_last()) + seq![' '] + ws.last()
    }
}

/// The first `n` words of `s`, or all of them where there are fewer.
pub open spec fn first_words(s: Seq<char>, n: nat) -> Seq<Seq<char>> {
    if words(s).len() <= n { words(s) } else { words(s).take(n as int) }
}

/// A text whose last character is a word character ends inside its last word.
proof fn lemma_words_tail(s: Seq<char>)
    ensures
        forall|k: int| 0 <= k < words(s).len() ==> is_word(#[trigger] words(s)[k]),
        s.len() > 0 && !is_white(s.last()) ==> words(s).len() > 0,
    decreases s.len(),
{
    if s.len() > 0 {
        lemma_words_tail(s.drop_last());
        let p = s.drop_last();
        let c = s.last();
        if !is_white(c) && p.len() > 0 && !is_white(p.last()) {
            let w = words(p);
            assert forall|k: int| 0 <= k < words(s).len() implies is_word(#[trigger] words(s)[k]) by {
                if k == w.len() - 1 {
                    let x = w.last().push(c);
                    assert forall|i: int| 0 <= i < x.len() implies !is_white(#[trigger] x[i]) by {
                        if i < w.last().len() {
                            assert(x[i] == w.last()[i]);
                        }
                    }
                }
            }
        } else if !is_white(c) {
            let x = seq![c];
            assert(is_word(x));
            assert forall|k: int| 0 <= k < words(s).len() implies is_word(#[trigger] words(s)[k]) by {
                if k < words(p).len() {
                    assert(words(s)[k] == words(p)[k]);
                }
            }
        }
    }
}

/// Every piece that `words` gives is a word.
pub proof fn lemma_words_are_words(s: Seq<char>)
    ensures
        forall|k: int| 0 <= k < words(s).len() ==> is_word(#[trigger] words(s)[k]),
{
    lemma_words_tail(s);
}

/// The character vectors of `v`, seen as sequences.
pub open spec fn views_of(v: Seq<Vec<char>>) -> Seq<Seq<char>> {
    Seq::new(v.len(), |k: int| v[k]@)
}

/// Splits a text into its words.
pub fn split_words(s: &str) -> (r: Vec<Vec<char>>)
    ensures
        views_of(r@) == words(s@),
{
    let cs = chars_of(s);
    let mut out: Vec<Vec<char>> = Vec::new();
    let mut cur: Vec<char> = Vec::new();
    let mut i: usize = 0;
    while i < cs.len()
        invariant
            0 <= i <= cs@.len(),
            cs@ == s@,
            cur@.len() > 0 <==> (i > 0 && !is_white(cs@[i - 1])),
            (if cur@.len() > 0 { views_of(out@).push(cur@) } else { views_of(out@) })
                == words(cs@.take(i as int)),
        decreases cs@.len() - i,
    {
        let c = cs[i];
        let ghost prev = cs@.take(i as int);
        let ghost next = cs@.take(i as int + 1);
        let ghost cv = cur@;
        let ghost ov = views_of(out@);
        assert(next.drop_last() =~= prev);
        assert(next.last() == c);
        if is_white_char(c) {
            if cur.len() > 0 {
                out.push(cur);
                assert(views_of(out@) =~= ov.push(cv));
                cur = Vec::new();
            }
        } else {
            cur.push(c);
            proof {
                if cv.len() > 0 {
                    assert(prev.last() == cs@[i - 1]);
                    let w = ov.push(cv);
                    assert(w.update(w.len() - 1, w.last().push(c)) =~= ov.push(cur@));
                } else {
                    assert(cur@ =~= seq![c]);
                }
            }
        }
        i = i + 1;
    }
    if cur.len() > 0 {
        let ghost cv = cur@;
        let ghost ov = views_of(out@);
        out.push(cur);
        assert(views_of(out@) =~= ov.push(cv));
    }
    assert(cs@.take(cs@.len() as int) =~= cs@);
    out
}

/// Counts the words of a text.
pub fn count_words(s: &str) -> (r: usize)
    ensures
        r == words(s@).len(),
{
    let ws = split_words(s);
    ws.len()
}

/// The first `limit` words of a text, joined with single spaces.
pub fn take_words(s: &str, limit: usize) -> (r: String)
    ensures
        r@ == join_words(first_words(s@, limit as nat)),
{
    let ws = split_words(s);
    let n: usize = if ws.len() <= limit { ws.len() } else { limit };
    let ghost all = views_of(ws@);
    let ghost chosen = first_words(s@, limit as nat);
    assert(chosen =~= all.take(n as int));
    let mut out: Vec<char> = Vec::new();
    let mut k: usize = 0;
    while k < n
        invariant
            0 <= k <= n <= ws@.len(),
            all == views_of(ws@),
            out@ == join_words(all.take(k as int)),
        decreases n - k,
    {
        if k > 0 {
            out.push(' ');
        }
        let w = &ws[k];
        let mut j: usize = 0;
        let ghost mid = out@;
        while j < w.len()
            invariant
                0 <= j <= w@.len(),
                out@ == mid + w@.take(j as int),
            decreases w@.len() - j,
        {
            out.push(w[j]);
            j = j + 1;
            assert(out@ =~= mid + w@.take(j as int));
        }
        assert(w@.take(w@.len() as int) =~= w@);
        let ghost t = all.take(k as int + 1);
        assert(t.drop_last() =~= all.take(k as int));
        assert(t.last() == w@);
        assert(out@ =~= join_words(t));
        k = k + 1;
    }
    string_of(&out)
}

proof fn lemma_words_of_word(w: Seq<char>)
    requires
        is_word(w),
    ensures
        words(w) == seq![w],
    decreases w.len(),
{
    let p = w.drop_last();
    let c = w.last();
    assert(!is_white(w[w.len() - 1]));
    if p.len() == 0 {
        assert(words(p) =~= Seq::<Seq<char>>::empty());
        assert(seq![c] =~= w);
        assert(words(w) =~= seq![w]);
    } else {
        assert forall|i: int| 0 <= i < p.len() implies !is_white(#[trigger] p[i]) by {
            assert(p[i] == w[i]);
        }
        lemma_words_of_word(p);
        assert(p.last() == w[w.len() - 2]);
        assert(p.push(c) =~= w);
        assert(words(w) =~= seq![w]);
    }
}

proof fn lemma_words_after_space(a: Seq<char>, w: Seq<char>)
    requires
        is_word(w),
    ensures
        words(a + seq![' '] + w) == words(a).push(w),
    decreases w.len(),
{
    let x = a + seq![' '] + w;
    let p = x.drop_last();
    let c = w.last();
    assert(x.last() == c);
    assert(!is_white(w[w.len() - 1]));
    if w.len() == 1 {
        assert(p =~= a + seq![' ']);
        let q = p.drop_last();
        assert(q =~= a);
        assert(is_white(p.last()));
        assert(words(p) == words(a));
        assert(w =~= seq![c]);
    } else {
        let v = w.drop_last();
        assert forall|i: int| 0 <= i < v.len() implies !is_white(#[trigger] v[i]) by {
            assert(v[i] == w[i]);
        }
        lemma_words_after_space(a, v);
        assert(p =~= a + seq![' '] + v);
        assert(p.last() == w[w.len() - 2]);
        let ws = words(a).push(v);
        assert(v.push(c) =~= w);
        assert(ws.update(ws.len() - 1, ws.last().push(c)) =~= words(a).push(w));
    }
}

/// Splitting words joined by single spaces gives the words back.
pub proof fn lemma_words_of_join(ws: Seq<Seq<char>>)
    requires
        forall|k: int| 0 <= k < ws.len() ==> is_word(#[trigger] ws[k]),
    ensures
        words(join_words(ws)) == ws,
    decreases ws.len(),
{
    if ws.len() == 0 {
        assert(words(join_words(ws)) =~= ws);
    } else if ws.len() == 1 {
        lemma_words_of_word(ws[0]);
        assert(seq![ws[0]] =~= ws);
    } else {
        let init = ws.drop_last();
        assert forall|k: int| 0 <= k < init.len() implies is_word(#[trigger] init[k]) by {
            assert(init[k] == ws[k]);
        }
        lemma_words_of_join(init);
        assert(is_word(ws[ws.len() - 1]));
        lemma_words_after_space(join_words(init), ws.last());
        assert(init.push(ws.last()) =~= ws);
    }
}

/// Joining the first `n` words of any text gives a text of at most `n` words.
pub proof fn lemma_first_words_bound(s: Seq<char>, n: nat)
    ensures
        words(join_words(first_words(s, n))) == first_words(s, n),
        words(join_words(first_words(s, n))).len() <= n,
{
    lemma_words_are_words(s);
    let f = first_words(s, n);
    assert forall|k: int| 0 <= k < f.len() implies is_word(#[trigger] f[k]) by {
        assert(f[k] == words(s)[k]);
    }
    lemma_words_of_join(f);
}

/// The characters of a string, in order.
pub(crate) fn chars_of(s: &str) -> (r: Vec<char>)
    ensures
        r@ == s@,
{
    broadcast use vstd::string::group_string_axioms;
    let mut v: Vec<char> = Vec::new();
    for c in it: s.chars()
        invariant
            it.seq() == s@,
            v@ == s@.take(it.index() as int),
    {
        v.push(c);
        assert(v@ =~= s@.take(it.index() as int + 1));
    }
    assert(s@.take(s@.len() as int) =~= s@);
    v
}

/// Relies on `String::from_iter`: a string made of the given characters.
#[verifier::external_body]
pub(crate) fn string_of(cs: &Vec<char>) -> (r: String)
    ensures
        r@ == cs@,
{
    cs.iter().collect()
}

/// Appends the characters of `s` to `out`.
pub(crate) fn push_str(out: &mut Vec<char>, s: &str)
    ensures
        final(out)@ == old(out)@ + s@,
{
    let cs = chars_of(s);
    let mut i: usize = 0;
    while i < cs.len()
        invariant
            0 <= i <= cs@.len(),
            cs@ == s@,
            out@ == old(out)@ + cs@.take(i as int),
        decreases cs@.len() - i,
    {
        out.push(cs[i]);
        i = i + 1;
        assert(out@ =~= old(out)@ + cs@.take(i as int));
    }
    assert(cs@.take(cs@.len() as int) =~= cs@);
}

} // verus!

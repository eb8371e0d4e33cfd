//! Text helpers: decimal rendering, character-level building of strings.
use vstd::prelude::*;
use vstd::string::StrSliceExecFns;

verus! {

/// Appends one character to a string.
/// Trusted: calls `String::push`, which std documents as appending the char to the end.
#[verifier::external_body]
pub(crate) fn push_char(s: &mut String, c: char)
    ensures
        final(s)@ == old(s)@.push(c),
{
    s.push(c);
}

/// The decimal digit character for `d` (0..=9).
pub open spec fn digit_char(d: nat) -> char {
    if d == 0 { '0' } else if d == 1 { '1' } else if d == 2 { '2' } else if d == 3 { '3' }
    else if d == 4 { '4' } else if d == 5 { '5' } else if d == 6 { '6' } else if d == 7 { '7' }
    else if d == 8 { '8' } else { '9' }
}

/// The decimal rendering of `n`, most significant digit first, with no leading zeros
/// ("0" for zero), as `Display` prints an unsigned integer.
pub open spec fn decimal(n: nat) -> Seq<char>
    decreases n,
{
    if n < 10 {
        seq![digit_char(n)]
    } else {
        decimal(n / 10).push(digit_char(n % 10))
    }
}

fn digit(d: u64) -> (c: char)
    requires
        d < 10,
    ensures
        c == digit_char(d as nat),
{
    if d == 0 { '0' } else if d == 1 { '1' } else if d == 2 { '2' } else if d == 3 { '3' }
    else if d == 4 { '4' } else if d == 5 { '5' } else if d == 6 { '6' } else if d == 7 { '7' }
    else if d == 8 { '8' } else { '9' }
}

/// Appends the decimal rendering of `n` to `out`.
pub fn push_decimal(out: &mut String, n: u64)
    ensures
        final(out)@ == old(out)@ + decimal(n as nat),
    decreases n,
{
    if n < 10 {
        push_char(out, digit(n));
        assert(decimal(n as nat) =~= seq![digit_char(n as nat)]);
    } else {
        push_decimal(out, n / 10);
        push_char(out, digit(n % 10));
    }
}


/// `s` without `prefix` when it starts with it (`str::strip_prefix`).
pub fn strip_prefix(s: &str, prefix: &str) -> (r: Option<String>)
    ensures
        prefix@.is_prefix_of(s@) ==> (r matches Some(t) && t@ == s@.subrange(
            prefix@.len() as int,
            s@.len() as int,
        )),
        !prefix@.is_prefix_of(s@) ==> r is None,
{
    let n = s.unicode_len();
    let k = prefix.unicode_len();
    if k > n {
        return None;
    }
    let mut i: usize = 0;
    while i < k
        invariant
            0 <= i <= k <= n,
            n == s@.len(),
            k == prefix@.len(),
            forall|j: int| 0 <= j < i ==> s@[j] == prefix@[j],
        decreases k - i,
    {
        if s.get_char(i) != prefix.get_char(i) {
            return None;
        }
        i = i + 1;
    }
    proof {
        assert(prefix@ =~= s@.subrange(0, k as int));
    }
    Some(s.substring_char(k, n).to_owned())
}

/// Position of the first `c` in `s`, or the length of `s` when there is none.
pub open spec fn index_of_char(s: Seq<char>, c: char) -> int
    decreases s.len(),
{
    if s.len() == 0 {
        0
    } else if s[0] == c {
        0
    } else {
        1 + index_of_char(s.subrange(1, s.len() as int), c)
    }
}

/// The text of `s` before its first `c` (all of `s` without one): what
/// `s.split(c).next()` yields.
pub open spec fn before_char(s: Seq<char>, c: char) -> Seq<char> {
    s.subrange(0, index_of_char(s, c))
}

proof fn lemma_index_of_char(s: Seq<char>, c: char, i: int)
    requires
        0 <= i <= s.len(),
        forall|j: int| 0 <= j < i ==> s[j] != c,
        i < s.len() ==> s[i] == c,
    ensures
        index_of_char(s, c) == i,
    decreases s.len(),
{
    if s.len() > 0 && i > 0 {
        let rest = s.subrange(1, s.len() as int);
        assert forall|j: int| 0 <= j < i - 1 implies rest[j] != c by {
            assert(rest[j] == s[j + 1]);
        }
        if i < s.len() {
            assert(rest[i - 1] == s[i]);
        }
        lemma_index_of_char(rest, c, i - 1);
    }
}

/// Facts about `index_of_char`: it is the first position holding `c`, or the length.
pub proof fn lemma_index_of_char_first(s: Seq<char>, c: char, i: int)
    requires
        0 <= i <= s.len(),
        forall|j: int| 0 <= j < i ==> s[j] != c,
        i < s.len() ==> s[i] == c,
    ensures
        index_of_char(s, c) == i,
        before_char(s, c) == s.subrange(0, i),
{
    lemma_index_of_char(s, c, i);
}

/// The text of `s` before its first `c` (see `before_char`).
pub fn text_before(s: &str, c: char) -> (r: String)
    ensures
        r@ == before_char(s@, c),
{
    let n = s.unicode_len();
    let mut i: usize = 0;
    while i < n && s.get_char(i) != c
        invariant
            0 <= i <= n,
            n == s@.len(),
            forall|j: int| 0 <= j < i ==> s@[j] != c,
        decreases n - i,
    {
        i = i + 1;
    }
    proof {
        lemma_index_of_char(s@, c, i as int);
    }
    s.substring_char(0, i).to_owned()
}


/// The characters of `s`, in order.
pub fn chars_of(s: &str) -> (v: Vec<char>)
    ensures
        v@ == s@,
{
    let mut v: Vec<char> = Vec::new();
    for c in it: s.chars()
        invariant
            it.seq() == s@,
            v@ == it.seq().take(it.index() as int),
    {
        v.push(c);
    }
    v
}


/// The pieces of `s` after `cur`, each ending just after a space (the last one may
/// end without one), as `str::split_inclusive(' ')` yields them with `cur` in front of
/// the first.
pub open spec fn words_from(s: Seq<char>, cur: Seq<char>) -> Seq<Seq<char>>
    decreases s.len(),
{
    if s.len() == 0 {
        if cur.len() == 0 {
            Seq::empty()
        } else {
            seq![cur]
        }
    } else if s[0] == ' ' {
        seq![cur.push(' ')] + words_from(s.subrange(1, s.len() as int), Seq::empty())
    } else {
        words_from(s.subrange(1, s.len() as int), cur.push(s[0]))
    }
}

/// `s` cut after every space (`str::split_inclusive(' ')`).
pub open spec fn words_inclusive(s: Seq<char>) -> Seq<Seq<char>> {
    words_from(s, Seq::empty())
}

/// The view of a list of strings.
pub open spec fn strings_view(v: Seq<String>) -> Seq<Seq<char>> {
    v.map_values(|x: String| x@)
}

/// Cuts `text` after every space, keeping the spaces (`split_inclusive(' ')`).
pub fn split_words(text: &str) -> (w: Vec<String>)
    ensures
        strings_view(w@) == words_inclusive(text@),
{
    let chars = chars_of(text);
    let ghost s = text@;
    let mut out: Vec<String> = Vec::new();
    let mut cur = String::new();
    let mut i: usize = 0;
    proof {
        assert(s.subrange(0, s.len() as int) =~= s);
        assert(strings_view(out@) =~= Seq::<Seq<char>>::empty());
        assert(cur@ =~= Seq::<char>::empty());
    }
    while i < chars.len()
        invariant
            0 <= i <= chars@.len(),
            chars@ == s,
            strings_view(out@) + words_from(s.subrange(i as int, s.len() as int), cur@)
                == words_inclusive(s),
        decreases s.len() - i,
    {
        let c = chars[i];
        let ghost rest = s.subrange(i as int, s.len() as int);
        let ghost before = out@;
        proof {
            assert(rest[0] == c);
            assert(rest.subrange(1, rest.len() as int) =~= s.subrange(i + 1, s.len() as int));
        }
        push_char(&mut cur, c);
        if c == ' ' {
            out.push(cur);
            cur = String::new();
            proof {
                assert(strings_view(out@) =~= strings_view(before) + seq![out@.last()@]);
            }
        }
        i = i + 1;
    }
    let ghost before = out@;
    if cur.unicode_len() > 0 {
        out.push(cur);
        proof {
            assert(strings_view(out@) =~= strings_view(before) + seq![out@.last()@]);
        }
    }
    proof {
        assert(strings_view(before) + Seq::<Seq<char>>::empty() =~= strings_view(before));
    }
    out
}

/// The pieces of `words_from` put back together give `cur` followed by `s`.
pub proof fn lemma_words_from_flatten(s: Seq<char>, cur: Seq<char>)
    ensures
        words_from(s, cur).flatten() == cur + s,
    decreases s.len(),
{
    let rest = s.subrange(1, s.len() as int);
    if s.len() == 0 {
        if cur.len() > 0 {
            seq![cur].lemma_flatten_singleton();
        }
        assert(cur + s =~= cur);
    } else if s[0] == ' ' {
        lemma_words_from_flatten(rest, Seq::empty());
        vstd::seq_lib::lemma_flatten_concat(seq![cur.push(' ')], words_from(rest, Seq::empty()));
        seq![cur.push(' ')].lemma_flatten_singleton();
        assert(cur.push(' ') + (Seq::<char>::empty() + rest) =~= cur + s);
    } else {
        lemma_words_from_flatten(rest, cur.push(s[0]));
        assert(cur.push(s[0]) + rest =~= cur + s);
    }
}

/// Law: the pieces of `split_words` put back together give the text back; each piece
/// is non-empty, holds no space but possibly as its last character, and every piece but
/// the last ends with one.
pub proof fn lemma_words_inclusive(s: Seq<char>)
    ensures
        words_inclusive(s).flatten() == s,
        forall|k: int|
            0 <= k < words_inclusive(s).len() ==> #[trigger] words_inclusive(s)[k].len() > 0,
        forall|k: int, j: int|
            0 <= k < words_inclusive(s).len() && 0 <= j < words_inclusive(s)[k].len() - 1
                ==> #[trigger] words_inclusive(s)[k][j] != ' ',
        forall|k: int|
            0 <= k < words_inclusive(s).len() - 1 ==> #[trigger] words_inclusive(s)[k].last()
                == ' ',
{
    lemma_words_from_flatten(s, Seq::empty());
    lemma_words_from_shape(s, Seq::empty());
    assert(Seq::<char>::empty() + s =~= s);
}

proof fn lemma_words_from_shape(s: Seq<char>, cur: Seq<char>)
    requires
        forall|j: int| 0 <= j < cur.len() ==> cur[j] != ' ',
    ensures
        forall|k: int| 0 <= k < words_from(s, cur).len() ==> #[trigger] words_from(s, cur)[k].len()
            > 0,
        forall|k: int, j: int|
            0 <= k < words_from(s, cur).len() && 0 <= j < words_from(s, cur)[k].len() - 1
                ==> #[trigger] words_from(s, cur)[k][j] != ' ',
        forall|k: int|
            0 <= k < words_from(s, cur).len() - 1 ==> #[trigger] words_from(s, cur)[k].last()
                == ' ',
    decreases s.len(),
{
    let rest = s.subrange(1, s.len() as int);
    if s.len() == 0 {
        if cur.len() > 0 {
            assert(words_from(s, cur) == seq![cur]);
            assert(words_from(s, cur)[0] == cur);
        } else {
            assert(words_from(s, cur).len() == 0);
        }
    } else if s[0] == ' ' {
        lemma_words_from_shape(rest, Seq::empty());
        let w = words_from(s, cur);
        let tail = words_from(rest, Seq::empty());
        assert(w == seq![cur.push(' ')] + tail);
        assert forall|k: int| 0 <= k < w.len() implies #[trigger] w[k].len() > 0 by {
            if k > 0 {
                assert(w[k] == tail[k - 1]);
            }
        }
        assert forall|k: int, j: int| 0 <= k < w.len() && 0 <= j < w[k].len() - 1 implies #[trigger] w[k][j]
            != ' ' by {
            if k > 0 {
                assert(w[k] == tail[k - 1]);
            }
        }
        assert forall|k: int| 0 <= k < w.len() - 1 implies #[trigger] w[k].last() == ' ' by {
            if k > 0 {
                assert(w[k] == tail[k - 1]);
            }
        }
    } else {
        assert(words_from(s, cur) == words_from(rest, cur.push(s[0])));
        lemma_words_from_shape(rest, cur.push(s[0]));
    }
}

} // verus!

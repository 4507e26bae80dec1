//! Text helpers shared by the URL builder and the response parser.

use vstd::prelude::*;

verus! {

/// `String::push`: appends the character `c` to `s`. The contract claims
/// what the documentation states: the characters of `s` afterwards are
/// those before, followed by `c`.
#[verifier::external_body]
pub(crate) fn push_char(s: &mut String, c: char)
    ensures
        final(s)@ == old(s)@.push(c),
{
    s.push(c)
}

/// Whether two string slices hold the same characters.
pub fn str_eq(a: &str, b: &str) -> (r: bool)
    ensures
        r == (a@ == b@),
{
    let n = a.unicode_len();
    if n != b.unicode_len() {
        return false;
    }
    let mut i: usize = 0;
    while i < n
        invariant
            n == a@.len(),
            n == b@.len(),
            i <= n,
            forall|j: int| 0 <= j < i ==> a@[j] == b@[j],
        decreases n - i,
    {
        if a.get_char(i) != b.get_char(i) {
            return false;
        }
        i = i + 1;
    }
    assert(a@ =~= b@);
    true
}

/// Collects the characters of `s` in order.
pub fn chars_of(s: &str) -> (r: Vec<char>)
    ensures
        r@ == s@,
{
    let mut out: Vec<char> = Vec::new();
    for c in it: s.chars()
        invariant
            out@ == it.seq().take(it.index() as int),
    {
        out.push(c);
    }
    out
}


/// The decimal digit character for `d < 10`.
pub open spec fn digit_char(d: nat) -> char {
    if d == 0 { '0' }
    else if d == 1 { '1' }
    else if d == 2 { '2' }
    else if d == 3 { '3' }
    else if d == 4 { '4' }
    else if d == 5 { '5' }
    else if d == 6 { '6' }
    else if d == 7 { '7' }
    else if d == 8 { '8' }
    else { '9' }
}

/// The decimal representation of `n`, without sign or leading zeros.
pub open spec fn decimal(n: nat) -> Seq<char>
    decreases n,
{
    if n < 10 {
        seq![digit_char(n)]
    } else {
        decimal(n / 10).push(digit_char(n % 10))
    }
}

/// The value of a decimal digit character; 0 for any other character.
pub open spec fn digit_value(c: char) -> nat {
    if c == '1' { 1 }
    else if c == '2' { 2 }
    else if c == '3' { 3 }
    else if c == '4' { 4 }
    else if c == '5' { 5 }
    else if c == '6' { 6 }
    else if c == '7' { 7 }
    else if c == '8' { 8 }
    else if c == '9' { 9 }
    else { 0 }
}

/// Whether `c` is one of the digits `0` to `9`.
pub open spec fn is_digit(c: char) -> bool {
    '0' <= c && c <= '9'
}

/// The number that the digits `s` write in base ten.
pub open spec fn digits_value(s: Seq<char>) -> nat
    decreases s.len(),
{
    if s.len() == 0 {
        0
    } else {
        digits_value(s.drop_last()) * 10 + digit_value(s.last())
    }
}

/// The decimal text of `n` is made of digits only, starts with a digit
/// other than `0` unless `n` is 0, and reads back as `n`.
pub proof fn law_decimal_reads_back(n: nat)
    ensures
        decimal(n).len() > 0,
        forall|i: int| 0 <= i < decimal(n).len() ==> is_digit(#[trigger] decimal(n)[i]),
        n > 0 ==> decimal(n)[0] != '0',
        n < 10 <==> decimal(n).len() == 1,
        digits_value(decimal(n)) == n,
    decreases n,
{
    if n < 10 {
        assert(digits_value(decimal(n)) == digits_value(decimal(n).drop_last()) * 10 + digit_value(
            digit_char(n),
        ));
        assert(decimal(n).drop_last().len() == 0);
    } else {
        let q = n / 10;
        let r = n % 10;
        law_decimal_reads_back(q);
        let d = decimal(q);
        assert(decimal(n) == d.push(digit_char(r)));
        assert(d.push(digit_char(r)).drop_last() =~= d);
        assert(digit_value(digit_char(r)) == r);
        assert(digits_value(decimal(n)) == q * 10 + r);
        assert(q * 10 + r == n);
        assert(decimal(n)[0] == d[0]);
        assert forall|i: int| 0 <= i < decimal(n).len() implies is_digit(#[trigger] decimal(n)[i]) by {
            if i < d.len() {
                assert(decimal(n)[i] == d[i]);
            }
        }
    }
}

fn digit(d: u64) -> (c: char)
    requires
        d < 10,
    ensures
        c == digit_char(d as nat),
{
    if d == 0 { '0' }
    else if d == 1 { '1' }
    else if d == 2 { '2' }
    else if d == 3 { '3' }
    else if d == 4 { '4' }
    else if d == 5 { '5' }
    else if d == 6 { '6' }
    else if d == 7 { '7' }
    else if d == 8 { '8' }
    else { '9' }
}

/// Appends the decimal representation of `n` to `out`.
pub fn push_decimal(out: &mut String, n: u64)
    ensures
        final(out)@ == old(out)@ + decimal(n as nat),
    decreases n,
{
    if n >= 10 {
        push_decimal(out, n / 10);
    }
    push_char(out, digit(n % 10));
    assert(old(out)@ + decimal(n as nat) =~= final(out)@) by {
        if n >= 10 {
            assert(decimal(n as nat) == decimal((n / 10) as nat).push(digit_char((n % 10) as nat)));
        }
    }
}

/// The decimal representation of `n` as a new string.
pub fn decimal_string(n: u64) -> (r: String)
    ensures
        r@ == decimal(n as nat),
{
    let mut out = String::new();
    push_decimal(&mut out, n);
    assert(Seq::<char>::empty() + decimal(n as nat) =~= decimal(n as nat));
    out
}

/// The elements of `parts` with `sep` between each two neighbours.
pub open spec fn join(parts: Seq<Seq<char>>, sep: Seq<char>) -> Seq<char>
    decreases parts.len(),
{
    if parts.len() == 0 {
        seq![]
    } else if parts.len() == 1 {
        parts[0]
    } else {
        join(parts.drop_last(), sep) + sep + parts.last()
    }
}

/// Joining nothing gives the empty text, joining one part gives that part,
/// and one more part adds the separator and then that part.
pub proof fn law_join_push(parts: Seq<Seq<char>>, sep: Seq<char>, p: Seq<char>)
    ensures
        join(Seq::<Seq<char>>::empty(), sep) == Seq::<char>::empty(),
        join(seq![p], sep) == p,
        parts.len() > 0 ==> join(parts.push(p), sep) == join(parts, sep) + sep + p,
{
    assert(parts.push(p).drop_last() =~= parts);
    assert(seq![p][0] == p);
}

/// Joins `parts` with `sep` between each two neighbours (`[String]::join`).
pub fn join_strings(parts: &Vec<String>, sep: &str) -> (r: String)
    ensures
        r@ == join(parts.deep_view(), sep@),
{
    let mut out = String::new();
    let ghost views = parts.deep_view();
    let mut i: usize = 0;
    while i < parts.len()
        invariant
            views == parts.deep_view(),
            i <= parts.len(),
            out@ == join(views.take(i as int), sep@),
        decreases parts.len() - i,
    {
        assert(views.take(i + 1).drop_last() =~= views.take(i as int));
        if i != 0 {
            out.append(sep);
        }
        out.append(parts[i].as_str());
        proof {
            if i == 0 {
                assert(out@ =~= join(views.take(1), sep@));
            }
        }
        i = i + 1;
    }
    assert(views.take(parts.len() as int) =~= views);
    out
}


/// Characters with the Unicode `White_Space` property (what `char::is_whitespace` tests).
pub open spec fn is_white_space(c: char) -> bool {
    ||| ('\u{9}' <= c && c <= '\u{d}')
    ||| c == ' '
    ||| c == '\u{85}'
    ||| c == '\u{a0}'
    ||| c == '\u{1680}'
    ||| ('\u{2000}' <= c && c <= '\u{200a}')
    ||| c == '\u{2028}'
    ||| c == '\u{2029}'
    ||| c == '\u{202f}'
    ||| c == '\u{205f}'
    ||| c == '\u{3000}'
}

/// Whether `c` has the Unicode `White_Space` property.
pub fn is_unicode_whitespace(c: char) -> (r: bool)
    ensures
        r == is_white_space(c),
{
    ('\u{9}' <= c && c <= '\u{d}') || c == ' ' || c == '\u{85}' || c == '\u{a0}' || c == '\u{1680}'
        || ('\u{2000}' <= c && c <= '\u{200a}') || c == '\u{2028}' || c == '\u{2029}' || c
        == '\u{202f}' || c == '\u{205f}' || c == '\u{3000}'
}

/// The word `cur` when it holds any character, as a list of at most one word.
pub open spec fn pending_word(cur: Seq<char>) -> Seq<Seq<char>> {
    if cur.len() == 0 {
        seq![]
    } else {
        seq![cur]
    }
}

/// The words of `s`, where `cur` is a word already begun before `s`.
pub open spec fn words_from(s: Seq<char>, cur: Seq<char>) -> Seq<Seq<char>>
    decreases s.len(),
{
    if s.len() == 0 {
        pending_word(cur)
    } else if is_white_space(s[0]) {
        pending_word(cur) + words_from(s.drop_first(), seq![])
    } else {
        words_from(s.drop_first(), cur.push(s[0]))
    }
}

/// The maximal runs of non-white-space characters of `s`, in order
/// (what `str::split_whitespace` yields).
pub open spec fn words(s: Seq<char>) -> Seq<Seq<char>> {
    words_from(s, seq![])
}

/// A word: at least one character, none of them white space.
pub open spec fn is_word(w: Seq<char>) -> bool {
    w.len() > 0 && forall|j: int| 0 <= j < w.len() ==> !is_white_space(#[trigger] w[j])
}

proof fn lemma_words_from_are_words(s: Seq<char>, cur: Seq<char>)
    requires
        forall|j: int| 0 <= j < cur.len() ==> !is_white_space(#[trigger] cur[j]),
    ensures
        forall|k: int| 0 <= k < words_from(s, cur).len() ==> is_word(#[trigger] words_from(s, cur)[k]),
    decreases s.len(),
{
    if s.len() == 0 {
        assert(words_from(s, cur) == pending_word(cur));
        if cur.len() > 0 {
            assert(pending_word(cur)[0] == cur);
            assert(is_word(cur));
        }
    } else if is_white_space(s[0]) {
        lemma_words_from_are_words(s.drop_first(), seq![]);
        let p = pending_word(cur);
        let rest = words_from(s.drop_first(), seq![]);
        assert(words_from(s, cur) == p + rest);
        assert forall|k: int| 0 <= k < (p + rest).len() implies is_word(#[trigger] (p + rest)[k]) by {
            if k >= p.len() {
                assert((p + rest)[k] == rest[k - p.len()]);
            } else {
                assert(p[k] == cur);
                assert(is_word(cur));
            }
        }
    } else {
        let next = cur.push(s[0]);
        assert forall|j: int| 0 <= j < next.len() implies !is_white_space(#[trigger] next[j]) by {
            if j < cur.len() {
                assert(next[j] == cur[j]);
            }
        }
        lemma_words_from_are_words(s.drop_first(), next);
        assert(words_from(s, cur) == words_from(s.drop_first(), next));
    }
}

/// Splitting into words gives no empty word and no word with white space
/// in it.
pub proof fn law_words_are_words(s: Seq<char>)
    ensures
        forall|k: int| 0 <= k < words(s).len() ==> is_word(#[trigger] words(s)[k]),
{
    lemma_words_from_are_words(s, seq![]);
}

/// `s`, read after a word `cur` already begun, ends inside a word.
spec fn ends_in_word(s: Seq<char>, cur: Seq<char>) -> bool {
    if s.len() == 0 {
        cur.len() > 0
    } else {
        !is_white_space(s.last())
    }
}

proof fn lemma_words_from_nonempty(s: Seq<char>, cur: Seq<char>)
    requires
        ends_in_word(s, cur),
    ensures
        words_from(s, cur).len() > 0,
    decreases s.len(),
{
    if s.len() > 0 {
        let rest = s.drop_first();
        if rest.len() > 0 {
            assert(rest.last() == s.last());
        }
        if is_white_space(s[0]) {
            lemma_words_from_nonempty(rest, seq![]);
        } else {
            lemma_words_from_nonempty(rest, cur.push(s[0]));
        }
    }
}

proof fn lemma_words_from_push(s: Seq<char>, cur: Seq<char>, c: char)
    ensures
        words_from(s.push(c), cur) == if is_white_space(c) {
            words_from(s, cur)
        } else if ends_in_word(s, cur) {
            words_from(s, cur).drop_last().push(words_from(s, cur).last().push(c))
        } else {
            words_from(s, cur).push(seq![c])
        },
    decreases s.len(),
{
    let t = s.push(c);
    if s.len() == 0 {
        let e = Seq::<char>::empty();
        assert(t.drop_first() =~= e);
        assert(t[0] == c);
        assert(words_from(s, cur) == pending_word(cur));
        if is_white_space(c) {
            assert(words_from(t, cur) == pending_word(cur) + words_from(e, seq![]));
            assert(words_from(e, seq![]) =~= Seq::<Seq<char>>::empty());
            assert(pending_word(cur) + Seq::<Seq<char>>::empty() =~= pending_word(cur));
        } else {
            assert(words_from(t, cur) == words_from(e, cur.push(c)));
            assert(words_from(e, cur.push(c)) == seq![cur.push(c)]);
            if cur.len() > 0 {
                assert(pending_word(cur) == seq![cur]);
                assert(seq![cur].drop_last().push(seq![cur].last().push(c)) =~= seq![cur.push(c)]);
            } else {
                assert(cur.push(c) =~= seq![c]);
                assert(pending_word(cur).push(seq![c]) =~= seq![seq![c]]);
            }
        }
    } else {
        let rest = s.drop_first();
        assert(t[0] == s[0]);
        assert(t.drop_first() =~= rest.push(c));
        if rest.len() > 0 {
            assert(rest.last() == s.last());
        }
        if is_white_space(s[0]) {
            lemma_words_from_push(rest, seq![], c);
            let p = pending_word(cur);
            let x = words_from(rest, seq![]);
            if !is_white_space(c) {
                if ends_in_word(s, cur) {
                    lemma_words_from_nonempty(rest, seq![]);
                    assert((p + x).drop_last().push((p + x).last().push(c)) =~= p + x.drop_last().push(
                        x.last().push(c),
                    ));
                } else {
                    assert((p + x).push(seq![c]) =~= p + x.push(seq![c]));
                }
            }
        } else {
            lemma_words_from_push(rest, cur.push(s[0]), c);
        }
    }
}

/// The words of a text grow one character at a time: a white-space
/// character adds nothing, a character that continues a word extends the
/// last word, and any other character starts a new word.
pub proof fn law_words_push(s: Seq<char>, c: char)
    ensures
        words(Seq::<char>::empty()) == Seq::<Seq<char>>::empty(),
        s.len() > 0 && !is_white_space(s.last()) ==> words(s).len() > 0,
        words(s.push(c)) == if is_white_space(c) {
            words(s)
        } else if s.len() > 0 && !is_white_space(s.last()) {
            words(s).drop_last().push(words(s).last().push(c))
        } else {
            words(s).push(seq![c])
        },
{
    lemma_words_from_push(s, seq![], c);
    if s.len() > 0 && !is_white_space(s.last()) {
        lemma_words_from_nonempty(s, seq![]);
    }
}

/// Appending white space and then a word to a text appends that word to its
/// words.
pub proof fn law_words_append_word(s: Seq<char>, sep: char, w: Seq<char>)
    requires
        is_white_space(sep),
        is_word(w),
    ensures
        words(s.push(sep) + w) == words(s).push(w),
    decreases w.len(),
{
    law_words_push(s, sep);
    let t = s.push(sep);
    let w0 = w.drop_last();
    let c = w.last();
    assert(t + w =~= (t + w0).push(c));
    law_words_push(t + w0, c);
    if w0.len() == 0 {
        assert(t + w0 =~= t);
        assert(t.last() == sep);
        assert(w =~= seq![c]);
    } else {
        assert(is_word(w0)) by {
            assert forall|j: int| 0 <= j < w0.len() implies !is_white_space(#[trigger] w0[j]) by {
                assert(w0[j] == w[j]);
            }
        }
        law_words_append_word(s, sep, w0);
        assert((t + w0).last() == w0.last());
        assert(w0.last() == w[w0.len() - 1]);
        assert(w0.push(c) =~= w);
        assert(words(s).push(w0).drop_last().push(words(s).push(w0).last().push(c)) =~= words(s).push(w));
    }
}

/// Splits `s` into its words (`str::split_whitespace`).
pub fn split_words(s: &str) -> (r: Vec<String>)
    ensures
        r.deep_view() == words(s@),
{
    let cs = chars_of(s);
    let mut out: Vec<String> = Vec::new();
    let mut cur = String::new();
    let mut i: usize = 0;
    assert(s@.skip(0) =~= s@);
    assert(out.deep_view() + words_from(s@, cur@) =~= words(s@));
    while i < cs.len()
        invariant
            cs@ == s@,
            i <= cs.len(),
            words(s@) == out.deep_view() + words_from(s@.skip(i as int), cur@),
        decreases cs.len() - i,
    {
        let c = cs[i];
        let ghost rest = s@.skip(i as int);
        let ghost old_out = out.deep_view();
        let ghost old_cur = cur@;
        assert(rest.drop_first() =~= s@.skip(i + 1));
        assert(rest[0] == c);
        if is_unicode_whitespace(c) {
            if cur.unicode_len() != 0 {
                out.push(cur);
            }
            cur = String::new();
            assert(out.deep_view() =~= old_out + pending_word(old_cur));
        } else {
            push_char(&mut cur, c);
        }
        i = i + 1;
    }
    if cur.unicode_len() != 0 {
        let ghost old_out = out.deep_view();
        out.push(cur);
        assert(out.deep_view() =~= old_out + pending_word(cur@));
    }
    assert(s@.skip(cs.len() as int) =~= Seq::<char>::empty());
    assert(out.deep_view() =~= words(s@));
    out
}

} // verus!

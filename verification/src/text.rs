//! Character-level text operations: trimming, suffix tests, code-point
//! ordering, and the bridges between `&str`/`String` and `Vec<char>`.
use vstd::prelude::*;

verus! {

/// Unicode `White_Space`: the characters that std's `char::is_whitespace`
/// (and therefore `str::trim`) treats as whitespace.
pub open spec fn is_white_space(c: char) -> bool {
    ||| '\u{9}' <= c <= '\u{d}'
    ||| c == ' '
    ||| c == '\u{85}'
    ||| c == '\u{a0}'
    ||| c == '\u{1680}'
    ||| '\u{2000}' <= c <= '\u{200a}'
    ||| c == '\u{2028}'
    ||| c == '\u{2029}'
    ||| c == '\u{202f}'
    ||| c == '\u{205f}'
    ||| c == '\u{3000}'
}

/// `text` without its leading whitespace.
pub open spec fn trim_start(text: Seq<char>) -> Seq<char>
    decreases text.len(),
{
    if text.len() > 0 && is_white_space(text[0]) {
        trim_start(text.drop_first())
    } else {
        text
    }
}

/// `text` without its trailing whitespace.
pub open spec fn trim_end(text: Seq<char>) -> Seq<char>
    decreases text.len(),
{
    if text.len() > 0 && is_white_space(text.last()) {
        trim_end(text.drop_last())
    } else {
        text
    }
}

/// `text` without leading and trailing whitespace (what `str::trim` returns).
pub open spec fn trim(text: Seq<char>) -> Seq<char> {
    trim_end(trim_start(text))
}

/// `suffix` is a suffix of `text`.
pub open spec fn has_suffix(text: Seq<char>, suffix: Seq<char>) -> bool {
    suffix.len() <= text.len() && text.subrange(text.len() - suffix.len(), text.len() as int)
        == suffix
}

/// Lexicographic order of texts by code point, the order of `String`'s `Ord`
/// (UTF-8 byte order and code-point order agree).
pub open spec fn text_lt(a: Seq<char>, b: Seq<char>) -> bool
    decreases a.len(),
{
    if a.len() == 0 {
        b.len() > 0
    } else if b.len() == 0 {
        false
    } else if a[0] != b[0] {
        a[0] < b[0]
    } else {
        text_lt(a.drop_first(), b.drop_first())
    }
}

/// The texts held by a sequence of character vectors.
pub open spec fn texts_of(pieces: Seq<Vec<char>>) -> Seq<Seq<char>> {
    pieces.map_values(|piece: Vec<char>| piece@)
}

/// The pieces of `text` between occurrences of `sep`, in order (as
/// `str::split` gives them): one more piece than there are separators.
pub open spec fn split_text(text: Seq<char>, sep: char) -> Seq<Seq<char>>
    decreases text.len(),
{
    if text.len() == 0 {
        seq![Seq::<char>::empty()]
    } else {
        let prev = split_text(text.drop_last(), sep);
        if text.last() == sep {
            prev.push(Seq::<char>::empty())
        } else {
            prev.update(prev.len() - 1, prev.last().push(text.last()))
        }
    }
}

/// Splitting always yields at least one piece.
pub proof fn lemma_split_text_nonempty(text: Seq<char>, sep: char)
    ensures
        split_text(text, sep).len() >= 1,
    decreases text.len(),
{
    if text.len() > 0 {
        lemma_split_text_nonempty(text.drop_last(), sep);
    }
}

/// `text[i..j]` is a whole piece between separators: it starts at the start
/// of `text` or just after a `sep`, ends at the end of `text` or just before
/// a `sep`, and holds no `sep`.
pub open spec fn is_piece_span(text: Seq<char>, sep: char, i: int, j: int) -> bool {
    &&& 0 <= i <= j <= text.len()
    &&& (i == 0 || text[i - 1] == sep)
    &&& (j == text.len() || text[j] == sep)
    &&& forall|t: int| i <= t < j ==> text[t] != sep
}

/// Where piece `m` of a split lies: a whole span between separators, which
/// reaches the end of the text exactly for the last piece.
pub proof fn lemma_split_piece_span(text: Seq<char>, sep: char, m: int) -> (span: (int, int))
    requires
        0 <= m < split_text(text, sep).len(),
    ensures
        is_piece_span(text, sep, span.0, span.1),
        split_text(text, sep)[m] == text.subrange(span.0, span.1),
        (span.1 == text.len()) == (m == split_text(text, sep).len() - 1),
        m == separators_before(text, sep, span.0),
    decreases text.len(),
{
    let ps = split_text(text, sep);
    if text.len() == 0 {
        assert(ps =~= seq![Seq::<char>::empty()]);
        assert(text.subrange(0, 0) =~= Seq::<char>::empty());
        (0, 0)
    } else {
        let prev = text.drop_last();
        let pp = split_text(prev, sep);
        let c = text.last();
        let n = text.len() as int;
        lemma_split_text_nonempty(prev, sep);
        assert forall|t: int| 0 <= t < prev.len() implies #[trigger] text[t] == prev[t] by {}
        if c == sep && m == pp.len() {
            assert(ps == pp.push(Seq::<char>::empty()));
            assert(text.subrange(n, n) =~= Seq::<char>::empty());
            lemma_last_piece_count(prev, sep);
            lemma_separators_before_prefix(text, prev, sep, n - 1);
            (n, n)
        } else {
            let (i, j) = lemma_split_piece_span(prev, sep, m);
            lemma_separators_before_prefix(text, prev, sep, i);
            if c == sep {
                assert(ps == pp.push(Seq::<char>::empty()));
                assert(ps[m] == pp[m]);
                assert(text.subrange(i, j) =~= prev.subrange(i, j));
                assert forall|t: int| i <= t < j implies text[t] != sep by {
                    assert(text[t] == prev[t]);
                }
                (i, j)
            } else {
                assert(ps == pp.update(pp.len() - 1, pp.last().push(c)));
                if m < pp.len() - 1 {
                    assert(ps[m] == pp[m]);
                    assert(text.subrange(i, j) =~= prev.subrange(i, j));
                    assert forall|t: int| i <= t < j implies text[t] != sep by {
                        assert(text[t] == prev[t]);
                    }
                    (i, j)
                } else {
                    assert(text.subrange(i, n) =~= prev.subrange(i, j).push(c));
                    assert forall|t: int| i <= t < n implies text[t] != sep by {
                        if t < n - 1 {
                            assert(text[t] == prev[t]);
                        }
                    }
                    (i, n)
                }
            }
        }
    }
}

/// The number of separators among the first `i` characters of `text`.
pub open spec fn separators_before(text: Seq<char>, sep: char, i: int) -> nat
    decreases i,
{
    if i <= 0 {
        0
    } else {
        separators_before(text, sep, i - 1) + if text[i - 1] == sep {
            1nat
        } else {
            0nat
        }
    }
}

/// Counting separators before `i` looks only at the characters before `i`.
proof fn lemma_separators_before_prefix(text: Seq<char>, prefix: Seq<char>, sep: char, i: int)
    requires
        0 <= i <= prefix.len() <= text.len(),
        forall|t: int| 0 <= t < prefix.len() ==> prefix[t] == text[t],
    ensures
        separators_before(text, sep, i) == separators_before(prefix, sep, i),
    decreases i,
{
    if i > 0 {
        lemma_separators_before_prefix(text, prefix, sep, i - 1);
    }
}

/// More characters hold at least as many separators, and strictly more when
/// a separator lies between.
pub proof fn lemma_separators_before_grow(text: Seq<char>, sep: char, i: int, k: int)
    requires
        0 <= i <= k <= text.len(),
    ensures
        separators_before(text, sep, i) <= separators_before(text, sep, k),
        forall|t: int|
            i <= t < k && text[t] == sep ==> separators_before(text, sep, i) < separators_before(
                text,
                sep,
                k,
            ),
        (forall|t: int| i <= t < k ==> text[t] != sep) ==> separators_before(text, sep, i)
            == separators_before(text, sep, k),
    decreases k - i,
{
    if i < k {
        lemma_separators_before_grow(text, sep, i, k - 1);
    }
}

/// Every whole span between separators is a piece of the split, the one
/// after as many separators as come before the span.
pub proof fn lemma_piece_span_is_split(text: Seq<char>, sep: char, i: int, j: int) -> (m: int)
    requires
        is_piece_span(text, sep, i, j),
    ensures
        0 <= m < split_text(text, sep).len(),
        split_text(text, sep)[m] == text.subrange(i, j),
        (j == text.len()) == (m == split_text(text, sep).len() - 1),
        m == separators_before(text, sep, i),
    decreases text.len(),
{
    let ps = split_text(text, sep);
    lemma_split_text_nonempty(text, sep);
    if text.len() == 0 {
        assert(ps =~= seq![Seq::<char>::empty()]);
        assert(text.subrange(i, j) =~= Seq::<char>::empty());
        0
    } else {
        let prev = text.drop_last();
        let pp = split_text(prev, sep);
        lemma_split_text_nonempty(prev, sep);
        assert forall|t: int| 0 <= t < prev.len() implies #[trigger] text[t] == prev[t] by {}
        if j == text.len() {
            let m = ps.len() - 1;
            let (i2, j2) = lemma_split_piece_span(text, sep, m);
            if i < i2 {
                assert(text[i2 - 1] == sep);
            }
            if i2 < i {
                assert(text[i - 1] == sep);
            }
            // The last piece comes after every separator.
            if i < text.len() {
                assert(is_piece_span(prev, sep, i, prev.len() as int));
                let mp = lemma_piece_span_is_split(prev, sep, i, prev.len() as int);
                lemma_separators_before_prefix(text, prev, sep, i);
                assert(text.last() != sep);
                assert(ps == pp.update(pp.len() - 1, pp.last().push(text.last())));
            } else {
                assert(text.last() == sep);
                assert(ps == pp.push(Seq::<char>::empty()));
                lemma_last_piece_count(prev, sep);
                lemma_separators_before_prefix(text, prev, sep, prev.len() as int);
            }
            m
        } else {
            assert(text.subrange(i, j) =~= prev.subrange(i, j));
            assert(is_piece_span(prev, sep, i, j));
            let m = lemma_piece_span_is_split(prev, sep, i, j);
            lemma_separators_before_prefix(text, prev, sep, i);
            if j < prev.len() {
                if text.last() == sep {
                    assert(ps == pp.push(Seq::<char>::empty()));
                } else {
                    assert(ps == pp.update(pp.len() - 1, pp.last().push(text.last())));
                }
            } else {
                assert(text.last() == sep);
                assert(ps == pp.push(Seq::<char>::empty()));
            }
            assert(ps[m] == pp[m]);
            m
        }
    }
}

/// A split has one piece more than the text has separators.
proof fn lemma_last_piece_count(text: Seq<char>, sep: char)
    ensures
        split_text(text, sep).len() == separators_before(text, sep, text.len() as int) + 1,
    decreases text.len(),
{
    if text.len() > 0 {
        let prev = text.drop_last();
        lemma_last_piece_count(prev, sep);
        assert forall|t: int| 0 <= t < prev.len() implies #[trigger] text[t] == prev[t] by {}
        lemma_separators_before_prefix(text, prev, sep, prev.len() as int);
        lemma_split_text_nonempty(prev, sep);
    }
}

/// Spans that come one after the other in the text are pieces in that order.
pub proof fn lemma_piece_spans_in_order(text: Seq<char>, sep: char, i1: int, j1: int, i2: int, j2: int)
    requires
        is_piece_span(text, sep, i1, j1),
        is_piece_span(text, sep, i2, j2),
        j1 < i2,
    ensures
        separators_before(text, sep, i1) < separators_before(text, sep, i2),
{
    lemma_separators_before_grow(text, sep, i1, i2);
    assert(text[j1] == sep);
}

/// The decimal digit for `d < 10`.
pub open spec fn digit_char(d: nat) -> char {
    if d == 0 {
        '0'
    } else if d == 1 {
        '1'
    } else if d == 2 {
        '2'
    } else if d == 3 {
        '3'
    } else if d == 4 {
        '4'
    } else if d == 5 {
        '5'
    } else if d == 6 {
        '6'
    } else if d == 7 {
        '7'
    } else if d == 8 {
        '8'
    } else {
        '9'
    }
}

/// The decimal numeral of `n`, as `Display` writes it.
pub open spec fn decimal_text(n: nat) -> Seq<char>
    decreases n,
{
    if n < 10 {
        seq![digit_char(n)]
    } else {
        decimal_text(n / 10).push(digit_char(n % 10))
    }
}

/// What std's `str::to_lowercase` returns for `text` (the full Unicode
/// lowercase mapping of std's tables).
pub uninterp spec fn lowercase_text(text: Seq<char>) -> Seq<char>;

/// std's `str::to_lowercase`. The contract names its result and claims no
/// more: the mapping is a function of the text alone.
#[verifier::external_body]
pub(crate) fn to_lowercase(text: &str) -> (r: String)
    ensures
        r@ == lowercase_text(text@),
{
    text.to_lowercase()
}

/// Appends one character to a string (std's `String::push`).
#[verifier::external_body]
pub(crate) fn push_char(text: &mut String, c: char)
    ensures
        final(text)@ == old(text)@.push(c),
{
    text.push(c);
}

/// The characters of `text`, in order.
pub fn chars_of(text: &str) -> (r: Vec<char>)
    ensures
        r@ == text@,
{
    let mut r: Vec<char> = Vec::new();
    for c in it: text.chars()
        invariant
            r@ == it.seq().take(it.index() as int),
    {
        r.push(c);
    }
    r
}

/// The string made of `chars`.
pub fn string_from_chars(chars: &Vec<char>) -> (r: String)
    ensures
        r@ == chars@,
{
    let mut r = String::new();
    let n = chars.len();
    let mut i: usize = 0;
    while i < n
        invariant
            n == chars@.len(),
            i <= n,
            r@ == chars@.take(i as int),
        decreases n - i,
    {
        push_char(&mut r, chars[i]);
        assert(chars@.take(i + 1) =~= chars@.take(i as int).push(chars@[i as int]));
        i += 1;
    }
    assert(chars@.take(n as int) =~= chars@);
    r
}

/// The pieces of `chars` between occurrences of `sep`.
pub fn split_chars(chars: &Vec<char>, sep: char) -> (r: Vec<Vec<char>>)
    ensures
        texts_of(r@) == split_text(chars@, sep),
{
    let mut done: Vec<Vec<char>> = Vec::new();
    let mut current: Vec<char> = Vec::new();
    let n = chars.len();
    let mut i: usize = 0;
    assert(chars@.take(0) =~= Seq::<char>::empty());
    assert(texts_of(done@).push(current@) =~= split_text(chars@.take(0), sep));
    while i < n
        invariant
            n == chars@.len(),
            i <= n,
            texts_of(done@).push(current@) == split_text(chars@.take(i as int), sep),
        decreases n - i,
    {
        let c = chars[i];
        let ghost prev = split_text(chars@.take(i as int), sep);
        proof {
            assert(chars@.take(i + 1).drop_last() =~= chars@.take(i as int));
            assert(chars@.take(i + 1).last() == c);
        }
        if c == sep {
            done.push(current);
            current = Vec::new();
            assert(texts_of(done@) =~= prev);
            assert(texts_of(done@).push(current@) =~= prev.push(Seq::<char>::empty()));
        } else {
            current.push(c);
            assert(texts_of(done@).push(current@) =~= prev.update(
                prev.len() - 1,
                prev.last().push(c),
            ));
        }
        i += 1;
    }
    done.push(current);
    assert(chars@.take(n as int) =~= chars@);
    assert(texts_of(done@) =~= split_text(chars@, sep));
    done
}

fn digit(d: usize) -> (c: char)
    requires
        d < 10,
    ensures
        c == digit_char(d as nat),
{
    if d == 0 {
        '0'
    } else if d == 1 {
        '1'
    } else if d == 2 {
        '2'
    } else if d == 3 {
        '3'
    } else if d == 4 {
        '4'
    } else if d == 5 {
        '5'
    } else if d == 6 {
        '6'
    } else if d == 7 {
        '7'
    } else if d == 8 {
        '8'
    } else {
        '9'
    }
}

/// The decimal numeral of `n`.
pub fn decimal_string(n: usize) -> (r: String)
    ensures
        r@ == decimal_text(n as nat),
    decreases n,
{
    if n < 10 {
        let mut r = String::new();
        push_char(&mut r, digit(n));
        assert(r@ =~= seq![digit_char(n as nat)]);
        r
    } else {
        let mut r = decimal_string(n / 10);
        push_char(&mut r, digit(n % 10));
        r
    }
}

/// Whether `c` has the Unicode `White_Space` property.
pub fn is_white_space_char(c: char) -> (r: bool)
    ensures
        r == is_white_space(c),
{
    ('\u{9}' <= c && c <= '\u{d}') || c == ' ' || c == '\u{85}' || c == '\u{a0}' || c
        == '\u{1680}' || ('\u{2000}' <= c && c <= '\u{200a}') || c == '\u{2028}' || c
        == '\u{2029}' || c == '\u{202f}' || c == '\u{205f}' || c == '\u{3000}'
}

/// The characters of `chars` from `start` up to (not including) `end`.
pub fn copy_range(chars: &Vec<char>, start: usize, end: usize) -> (r: Vec<char>)
    requires
        start <= end <= chars@.len(),
    ensures
        r@ == chars@.subrange(start as int, end as int),
{
    let mut r: Vec<char> = Vec::new();
    let mut k = start;
    while k < end
        invariant
            start <= k <= end,
            end <= chars@.len(),
            r@ == chars@.subrange(start as int, k as int),
        decreases end - k,
    {
        r.push(chars[k]);
        assert(chars@.subrange(start as int, k + 1) =~= chars@.subrange(start as int, k as int).push(
            chars@[k as int],
        ));
        k += 1;
    }
    r
}

/// `chars` without leading and trailing whitespace.
pub fn trim_chars(chars: &Vec<char>) -> (r: Vec<char>)
    ensures
        r@ == trim(chars@),
{
    let n = chars.len();
    let mut i: usize = 0;
    assert(chars@.skip(0) =~= chars@);
    while i < n && is_white_space_char(chars[i])
        invariant
            n == chars@.len(),
            i <= n,
            trim_start(chars@) == trim_start(chars@.skip(i as int)),
        decreases n - i,
    {
        assert(chars@.skip(i as int).drop_first() =~= chars@.skip(i + 1));
        i += 1;
    }
    if i < n {
        assert(chars@.skip(i as int)[0] == chars@[i as int]);
    } else {
        assert(chars@.skip(i as int) =~= Seq::<char>::empty());
    }
    assert(trim_start(chars@) == chars@.skip(i as int));
    assert(chars@.skip(i as int) =~= chars@.subrange(i as int, n as int));
    let mut j: usize = n;
    while j > i && is_white_space_char(chars[j - 1])
        invariant
            n == chars@.len(),
            i <= j <= n,
            trim(chars@) == trim_end(chars@.subrange(i as int, j as int)),
        decreases j,
    {
        assert(chars@.subrange(i as int, j as int).drop_last() =~= chars@.subrange(
            i as int,
            j - 1,
        ));
        j -= 1;
    }
    if j > i {
        assert(chars@.subrange(i as int, j as int).last() == chars@[j - 1]);
    }
    copy_range(chars, i, j)
}

/// `text` without leading and trailing whitespace (std's `str::trim`).
pub fn trim_text(text: &str) -> (r: String)
    ensures
        r@ == trim(text@),
{
    let chars = chars_of(text);
    let trimmed = trim_chars(&chars);
    string_from_chars(&trimmed)
}

/// Whether two character sequences are equal.
pub fn chars_equal(a: &Vec<char>, b: &Vec<char>) -> (r: bool)
    ensures
        r == (a@ == b@),
{
    if a.len() != b.len() {
        return false;
    }
    let n = a.len();
    let mut i: usize = 0;
    while i < n
        invariant
            n == a@.len(),
            n == b@.len(),
            i <= n,
            forall|k: int| 0 <= k < i ==> a@[k] == b@[k],
        decreases n - i,
    {
        if a[i] != b[i] {
            return false;
        }
        i += 1;
    }
    assert(a@ =~= b@);
    true
}

/// Whether two strings hold the same text.
pub fn same_text(a: &str, b: &str) -> (r: bool)
    ensures
        r == (a@ == b@),
{
    chars_equal(&chars_of(a), &chars_of(b))
}

/// Whether `suffix` ends `chars`.
pub fn chars_have_suffix(chars: &Vec<char>, suffix: &Vec<char>) -> (r: bool)
    ensures
        r == has_suffix(chars@, suffix@),
{
    if suffix.len() > chars.len() {
        return false;
    }
    let start = chars.len() - suffix.len();
    let tail = copy_range(chars, start, chars.len());
    chars_equal(&tail, suffix)
}

/// Whether `a` comes before `b` in code-point order.
pub fn chars_less(a: &Vec<char>, b: &Vec<char>) -> (r: bool)
    ensures
        r == text_lt(a@, b@),
        r <==> ((a@.len() < b@.len() && b@.take(a@.len() as int) == a@) || exists|i: int|
            0 <= i < a@.len() && i < b@.len() && a@.take(i) == b@.take(i) && a@[i] < b@[i]),
{
    proof {
        lemma_text_lt_lexicographic(a@, b@);
    }
    let mut i: usize = 0;
    assert(a@.skip(0) =~= a@);
    assert(b@.skip(0) =~= b@);
    loop
        invariant
            i <= a@.len(),
            i <= b@.len(),
            text_lt(a@, b@) == text_lt(a@.skip(i as int), b@.skip(i as int)),
            text_lt(a@, b@) == lexicographically_before(a@, b@),
        decreases a@.len() - i,
    {
        if i == a.len() {
            assert(a@.skip(i as int).len() == 0);
            return i < b.len();
        }
        if i == b.len() {
            return false;
        }
        assert(a@.skip(i as int)[0] == a@[i as int]);
        assert(b@.skip(i as int)[0] == b@[i as int]);
        if a[i] != b[i] {
            return a[i] < b[i];
        }
        assert(a@.skip(i as int).drop_first() =~= a@.skip(i + 1));
        assert(b@.skip(i as int).drop_first() =~= b@.skip(i + 1));
        i += 1;
    }
}

/// `a` comes before `b` in lexicographic order: `a` is a proper prefix of
/// `b`, or at the first position where they differ `a` has the smaller
/// character.
pub open spec fn lexicographically_before(a: Seq<char>, b: Seq<char>) -> bool {
    (a.len() < b.len() && b.take(a.len() as int) == a) || exists|i: int|
        0 <= i < a.len() && i < b.len() && a.take(i) == b.take(i) && a[i] < b[i]
}

/// Code-point order is lexicographic order.
pub proof fn lemma_text_lt_lexicographic(a: Seq<char>, b: Seq<char>)
    ensures
        text_lt(a, b) == lexicographically_before(a, b),
    decreases a.len(),
{
    if a.len() == 0 {
        if b.len() > 0 {
            assert(b.take(0) =~= a);
        }
    } else if b.len() == 0 {
    } else if a[0] != b[0] {
        if a.len() < b.len() && b.take(a.len() as int) == a {
            assert(b.take(a.len() as int)[0] == b[0]);
        }
        assert forall|i: int|
            0 < i < a.len() && i < b.len() implies !(a.take(i) == b.take(i)) by {
            if a.take(i) == b.take(i) {
                assert(a.take(i)[0] == a[0]);
                assert(b.take(i)[0] == b[0]);
            }
        }
        if a[0] < b[0] {
            assert(a.take(0) =~= b.take(0));
        }
    } else {
        let a1 = a.drop_first();
        let b1 = b.drop_first();
        lemma_text_lt_lexicographic(a1, b1);
        if a.len() < b.len() && b.take(a.len() as int) == a {
            assert(b1.take(a1.len() as int) =~= b.take(a.len() as int).drop_first());
        }
        if a1.len() < b1.len() && b1.take(a1.len() as int) == a1 {
            assert(b.take(a.len() as int) =~= seq![b[0]] + b1.take(a1.len() as int));
            assert(a =~= seq![a[0]] + a1);
        }
        if exists|i: int| 0 <= i < a.len() && i < b.len() && a.take(i) == b.take(i) && a[i] < b[i] {
            let i = choose|i: int|
                0 <= i < a.len() && i < b.len() && a.take(i) == b.take(i) && a[i] < b[i];
            assert(i > 0);
            assert(a1.take(i - 1) =~= a.take(i).drop_first());
            assert(b1.take(i - 1) =~= b.take(i).drop_first());
            assert(a1[i - 1] == a[i] && b1[i - 1] == b[i]);
        }
        if exists|i: int| 0 <= i < a1.len() && i < b1.len() && a1.take(i) == b1.take(i) && a1[i] < b1[i] {
            let i = choose|i: int|
                0 <= i < a1.len() && i < b1.len() && a1.take(i) == b1.take(i) && a1[i] < b1[i];
            assert(a.take(i + 1) =~= seq![a[0]] + a1.take(i));
            assert(b.take(i + 1) =~= seq![b[0]] + b1.take(i));
            assert(a[i + 1] == a1[i] && b[i + 1] == b1[i]);
        }
    }
}

/// No text comes before itself.
pub proof fn lemma_text_lt_irreflexive(a: Seq<char>)
    ensures
        !text_lt(a, a),
    decreases a.len(),
{
    if a.len() > 0 {
        lemma_text_lt_irreflexive(a.drop_first());
    }
}

/// The code-point order on texts is transitive.
pub proof fn lemma_text_lt_transitive(a: Seq<char>, b: Seq<char>, c: Seq<char>)
    requires
        text_lt(a, b),
        text_lt(b, c),
    ensures
        text_lt(a, c),
    decreases a.len(),
{
    if a.len() > 0 && b.len() > 0 && c.len() > 0 && a[0] == b[0] && b[0] == c[0] {
        lemma_text_lt_transitive(a.drop_first(), b.drop_first(), c.drop_first());
    }
}

/// Any two different texts are ordered one way or the other.
pub proof fn lemma_text_lt_total(a: Seq<char>, b: Seq<char>)
    requires
        a != b,
    ensures
        text_lt(a, b) || text_lt(b, a),
    decreases a.len(),
{
    if a.len() == 0 && b.len() == 0 {
        assert(a =~= b);
    } else if a.len() > 0 && b.len() > 0 {
        if a[0] == b[0] {
            if a.drop_first() == b.drop_first() {
                assert(a.drop_first().len() == b.drop_first().len());
                assert forall|k: int| 0 <= k < a.len() implies a[k] == b[k] by {
                    if k > 0 {
                        assert(a[k] == a.drop_first()[k - 1]);
                        assert(b[k] == b.drop_first()[k - 1]);
                    }
                }
                assert(a =~= b);
            }
            lemma_text_lt_total(a.drop_first(), b.drop_first());
        } else {
        }
    }
}

/// The code-point order on texts is asymmetric.
pub proof fn lemma_text_lt_asymmetric(a: Seq<char>, b: Seq<char>)
    requires
        text_lt(a, b),
    ensures
        !text_lt(b, a),
{
    if text_lt(b, a) {
        lemma_text_lt_transitive(a, b, a);
        lemma_text_lt_irreflexive(a);
    }
}

} // verus!

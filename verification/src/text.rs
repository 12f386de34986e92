//! Text helpers shared by the rest of the crate: decimal rendering,
//! Unicode whitespace, trimming, word splitting and substring search,
//! each with the meaning that the standard library gives the operation.
use vstd::prelude::*;

verus! {

/// `String::push` appends one character.
pub assume_specification[ String::push ](s: &mut String, ch: char)
    ensures
        final(s)@ == old(s)@.push(ch),
;

/// The character of a decimal digit `d < 10`.
pub open spec fn digit_char(d: nat) -> char {
    if d == 0 {
        '0'
    } else if d == 1 {
        '1'
    } else if d == 2 {
        '2'
    } else if d == 3 {
        '3'
    } else if d == 4 {
        '4'
    } else if d == 5 {
        '5'
    } else if d == 6 {
        '6'
    } else if d == 7 {
        '7'
    } else if d == 8 {
        '8'
    } else {
        '9'
    }
}

/// The decimal notation of `n`, without leading zeros (`0` is "0").
pub open spec fn decimal(n: nat) -> Seq<char>
    decreases n,
{
    if n < 10 {
        seq![digit_char(n)]
    } else {
        decimal(n / 10).push(digit_char(n % 10))
    }
}

pub fn digit_to_char(d: u128) -> (c: char)
    requires
        d < 10,
    ensures
        c == digit_char(d as nat),
{
    if d == 0 {
        '0'
    } else if d == 1 {
        '1'
    } else if d == 2 {
        '2'
    } else if d == 3 {
        '3'
    } else if d == 4 {
        '4'
    } else if d == 5 {
        '5'
    } else if d == 6 {
        '6'
    } else if d == 7 {
        '7'
    } else if d == 8 {
        '8'
    } else {
        '9'
    }
}

/// Appends the decimal notation of `n` to `out`.
pub fn push_decimal(out: &mut String, n: u128)
    ensures
        final(out)@ == old(out)@ + decimal(n as nat),
{
    let mut digits: Vec<char> = Vec::new();
    let mut m: u128 = n;
    if n == 0 {
        digits.push('0');
        assert(digits@ =~= decimal(0));
    } else {
        while m > 0
            invariant
                m > 0 ==> decimal(n as nat) == decimal(m as nat) + digits@,
                m == 0 ==> decimal(n as nat) == digits@,
            decreases m,
        {
            let d = m % 10;
            let c = digit_to_char(d);
            let ghost old_digits = digits@;
            digits.insert(0, c);
            assert(digits@ =~= seq![c] + old_digits);
            if m < 10 {
                assert(decimal(m as nat) =~= seq![c]);
            } else {
                assert(decimal(m as nat) == decimal((m / 10) as nat).push(c));
                assert(decimal(m as nat) + old_digits =~= decimal((m / 10) as nat) + digits@);
            }
            m = m / 10;
        }
    }
    let ghost start = out@;
    let mut i: usize = 0;
    while i < digits.len()
        invariant
            i <= digits.len(),
            out@ == start + digits@.take(i as int),
            digits@ == decimal(n as nat),
        decreases digits.len() - i,
    {
        out.push(digits[i]);
        assert(digits@.take((i + 1) as int) =~= digits@.take(i as int).push(digits@[i as int]));
        i = i + 1;
    }
    assert(digits@.take(digits.len() as int) =~= digits@);
}

/// The characters of a string slice, in order.
pub fn chars_of(s: &str) -> (v: Vec<char>)
    ensures
        v@ == s@,
{
    let mut v: Vec<char> = Vec::new();
    for c in it: s.chars()
        invariant
            v@ == it.seq().take(it.index()),
    {
        v.push(c);
    }
    v
}

/// The characters with the Unicode `White_Space` property, which is what
/// `char::is_whitespace` tests.
pub open spec fn is_white_space(c: char) -> bool {
    let u = c as u32;
    ||| (0x09 <= u && u <= 0x0d)
    ||| u == 0x20
    ||| u == 0x85
    ||| u == 0xa0
    ||| u == 0x1680
    ||| (0x2000 <= u && u <= 0x200a)
    ||| u == 0x2028
    ||| u == 0x2029
    ||| u == 0x202f
    ||| u == 0x205f
    ||| u == 0x3000
}

pub fn is_white_space_char(c: char) -> (b: bool)
    ensures
        b == is_white_space(c),
{
    let u = c as u32;
    (0x09 <= u && u <= 0x0d) || u == 0x20 || u == 0x85 || u == 0xa0 || u == 0x1680 || (0x2000
        <= u && u <= 0x200a) || u == 0x2028 || u == 0x2029 || u == 0x202f || u == 0x205f || u
        == 0x3000
}

/// `s` without its leading whitespace (`str::trim_start`).
pub open spec fn trim_start(s: Seq<char>) -> Seq<char>
    decreases s.len(),
{
    if s.len() > 0 && is_white_space(s[0]) {
        trim_start(s.drop_first())
    } else {
        s
    }
}

/// `s` without its trailing whitespace (`str::trim_end`).
pub open spec fn trim_end(s: Seq<char>) -> Seq<char>
    decreases s.len(),
{
    if s.len() > 0 && is_white_space(s.last()) {
        trim_end(s.drop_last())
    } else {
        s
    }
}

/// `s` without leading and trailing whitespace (`str::trim`).
pub open spec fn trim(s: Seq<char>) -> Seq<char> {
    trim_end(trim_start(s))
}

/// The length of the run of non-whitespace characters that starts `s`.
pub open spec fn word_len(s: Seq<char>) -> nat
    decreases s.len(),
{
    if s.len() > 0 && !is_white_space(s[0]) {
        1 + word_len(s.drop_first())
    } else {
        0
    }
}

/// `trim_start` drops a prefix of whitespace and leaves a string that
/// is empty or starts with a character that is not whitespace.
pub proof fn lemma_trim_start_shape(s: Seq<char>)
    ensures
        trim_start(s).len() <= s.len(),
        trim_start(s) == s.skip(s.len() - trim_start(s).len()),
        forall|i: int| 0 <= i < s.len() - trim_start(s).len() ==> is_white_space(#[trigger] s[i]),
        trim_start(s).len() > 0 ==> !is_white_space(trim_start(s)[0]),
    decreases s.len(),
{
    if s.len() > 0 && is_white_space(s[0]) {
        lemma_trim_start_shape(s.drop_first());
        assert(s.drop_first().skip(s.drop_first().len() - trim_start(s).len()) =~= s.skip(
            s.len() - trim_start(s).len(),
        ));
        assert forall|i: int| 0 <= i < s.len() - trim_start(s).len() implies is_white_space(
            #[trigger] s[i],
        ) by {
            if i > 0 {
                assert(s[i] == s.drop_first()[i - 1]);
            }
        }
    } else {
        assert(s.skip(0) =~= s);
    }
}

/// A word run is no longer than the string and, past its end, the string
/// is empty or has whitespace.
pub proof fn lemma_word_len_shape(s: Seq<char>)
    ensures
        word_len(s) <= s.len(),
        forall|i: int| 0 <= i < word_len(s) ==> !is_white_space(#[trigger] s[i]),
        word_len(s) < s.len() ==> is_white_space(s[word_len(s) as int]),
        s.len() > 0 && !is_white_space(s[0]) ==> word_len(s) >= 1,
    decreases s.len(),
{
    if s.len() > 0 && !is_white_space(s[0]) {
        lemma_word_len_shape(s.drop_first());
        assert forall|i: int| 0 <= i < word_len(s) implies !is_white_space(#[trigger] s[i]) by {
            if i > 0 {
                assert(s[i] == s.drop_first()[i - 1]);
            }
        }
        if word_len(s) < s.len() {
            assert(s[word_len(s) as int] == s.drop_first()[word_len(s.drop_first()) as int]);
        }
    }
}

/// The whitespace-separated words of `s` (`str::split_whitespace`).
pub open spec fn words(s: Seq<char>) -> Seq<Seq<char>>
    decreases s.len(),
{
    let t = trim_start(s);
    if t.len() == 0 {
        seq![]
    } else {
        proof {
            lemma_trim_start_shape(s);
            lemma_word_len_shape(t);
        }
        seq![t.take(word_len(t) as int)] + words(t.skip(word_len(t) as int))
    }
}

/// The number of characters before the first line feed of `s`, or its length.
pub open spec fn line_len(s: Seq<char>) -> nat
    decreases s.len(),
{
    if s.len() == 0 || s[0] == '\n' {
        0
    } else {
        1 + line_len(s.drop_first())
    }
}

/// A line without the carriage return that ends it, if any.
pub open spec fn strip_cr(l: Seq<char>) -> Seq<char> {
    if l.len() > 0 && l.last() == '\r' {
        l.drop_last()
    } else {
        l
    }
}

/// The lines of `s` (`str::lines`): the pieces between line feeds, a
/// carriage return before a line feed dropped, and no empty last line when
/// `s` ends with a line feed.
pub open spec fn lines(s: Seq<char>) -> Seq<Seq<char>>
    decreases s.len(),
{
    if s.len() == 0 {
        seq![]
    } else {
        let k = line_len(s);
        if k >= s.len() {
            seq![s]
        } else {
            seq![strip_cr(s.take(k as int))] + lines(s.skip(k + 1int))
        }
    }
}

/// `needle` occurs in `hay` at position `i`.
pub open spec fn occurs_at(hay: Seq<char>, needle: Seq<char>, i: int) -> bool {
    0 <= i && i + needle.len() <= hay.len() && hay.subrange(i, i + needle.len()) == needle
}

/// `needle` occurs somewhere in `hay` (`str::contains`).
pub open spec fn contains(hay: Seq<char>, needle: Seq<char>) -> bool {
    exists|i: int| occurs_at(hay, needle, i)
}

/// `hay` begins with `prefix` (`str::starts_with`).
pub open spec fn starts_with(hay: Seq<char>, prefix: Seq<char>) -> bool {
    prefix.len() <= hay.len() && hay.take(prefix.len() as int) == prefix
}

/// A new string holding `v[from..to]`.
pub fn string_of(v: &Vec<char>, from: usize, to: usize) -> (s: String)
    requires
        from <= to <= v.len(),
    ensures
        s@ == v@.subrange(from as int, to as int),
{
    let mut s = String::new();
    let mut i = from;
    while i < to
        invariant
            from <= i <= to <= v.len(),
            s@ == v@.subrange(from as int, i as int),
        decreases to - i,
    {
        s.push(v[i]);
        assert(v@.subrange(from as int, (i + 1) as int) =~= v@.subrange(from as int, i as int).push(
            v@[i as int],
        ));
        i = i + 1;
    }
    s
}

/// Whether `v[at..]` begins with `needle`.
fn matches_at(v: &Vec<char>, needle: &Vec<char>, at: usize) -> (b: bool)
    requires
        at + needle.len() <= v.len(),
    ensures
        b == occurs_at(v@, needle@, at as int),
{
    let mut j: usize = 0;
    while j < needle.len()
        invariant
            j <= needle.len(),
            at + needle.len() <= v.len(),
            forall|t: int| 0 <= t < j ==> v@[at + t] == needle@[t],
        decreases needle.len() - j,
    {
        if v[at + j] != needle[j] {
            assert(v@.subrange(at as int, at + needle.len())[j as int] != needle@[j as int]);
            return false;
        }
        j = j + 1;
    }
    assert(v@.subrange(at as int, at + needle.len()) =~= needle@);
    true
}

/// Whether `needle` occurs in `hay[from..to]`.
pub fn contains_in(hay: &Vec<char>, from: usize, to: usize, needle: &Vec<char>) -> (b: bool)
    requires
        from <= to <= hay.len(),
    ensures
        b == contains(hay@.subrange(from as int, to as int), needle@),
{
    let ghost part = hay@.subrange(from as int, to as int);
    if needle.len() > to - from {
        assert forall|i: int| !occurs_at(part, needle@, i) by {}
        return false;
    }
    if needle.len() == 0 {
        assert(part.subrange(0, 0) =~= needle@);
        assert(occurs_at(part, needle@, 0));
        return true;
    }
    let last = to - needle.len();
    let mut at = from;
    while at <= last
        invariant
            from <= at <= last + 1,
            last + needle.len() == to,
            needle.len() > 0,
            to <= hay.len(),
            part == hay@.subrange(from as int, to as int),
            forall|i: int| 0 <= i < at - from ==> !occurs_at(part, needle@, i),
        decreases last + 1 - at,
    {
        if matches_at(hay, needle, at) {
            assert(part.subrange(at - from, at - from + needle.len()) =~= hay@.subrange(
                at as int,
                at + needle.len(),
            ));
            assert(occurs_at(part, needle@, at - from));
            return true;
        }
        assert(part.subrange(at - from, at - from + needle.len()) =~= hay@.subrange(
            at as int,
            at + needle.len(),
        ));
        at = at + 1;
    }
    assert forall|i: int| !occurs_at(part, needle@, i) by {}
    false
}

/// Leading whitespace of `s` up to index `i` is exactly what `trim_start` drops.
pub proof fn lemma_trim_start_at(s: Seq<char>, i: int)
    requires
        0 <= i <= s.len(),
        forall|k: int| 0 <= k < i ==> is_white_space(#[trigger] s[k]),
        i == s.len() || !is_white_space(s[i]),
    ensures
        trim_start(s) == s.skip(i),
    decreases i,
{
    if i == 0 {
        assert(s.skip(0) =~= s);
    } else {
        assert forall|k: int| 0 <= k < i - 1 implies is_white_space(#[trigger] s.drop_first()[k]) by {
            assert(s.drop_first()[k] == s[k + 1]);
        }
        if i - 1 < s.drop_first().len() {
            assert(s.drop_first()[i - 1] == s[i]);
        }
        lemma_trim_start_at(s.drop_first(), i - 1);
        assert(s.drop_first().skip(i - 1) =~= s.skip(i));
    }
}

/// A run of non-whitespace that ends at `i` is the word length.
pub proof fn lemma_word_len_at(s: Seq<char>, i: int)
    requires
        0 <= i <= s.len(),
        forall|k: int| 0 <= k < i ==> !is_white_space(#[trigger] s[k]),
        i == s.len() || is_white_space(s[i]),
    ensures
        word_len(s) == i,
    decreases i,
{
    if i > 0 {
        assert forall|k: int| 0 <= k < i - 1 implies !is_white_space(#[trigger] s.drop_first()[k]) by {
            assert(s.drop_first()[k] == s[k + 1]);
        }
        if i - 1 < s.drop_first().len() {
            assert(s.drop_first()[i - 1] == s[i]);
        }
        lemma_word_len_at(s.drop_first(), i - 1);
    }
}

/// Trailing whitespace of `s` from index `j` on is exactly what `trim_end` drops.
pub proof fn lemma_trim_end_at(s: Seq<char>, j: int)
    requires
        0 <= j <= s.len(),
        forall|k: int| j <= k < s.len() ==> is_white_space(#[trigger] s[k]),
        j == 0 || !is_white_space(s[j - 1]),
    ensures
        trim_end(s) == s.take(j),
    decreases s.len() - j,
{
    if j == s.len() {
        assert(s.take(j) =~= s);
    } else {
        assert forall|k: int| j <= k < s.drop_last().len() implies is_white_space(
            #[trigger] s.drop_last()[k],
        ) by {
            assert(s.drop_last()[k] == s[k]);
        }
        if j > 0 {
            assert(s.drop_last()[j - 1] == s[j - 1]);
        }
        lemma_trim_end_at(s.drop_last(), j);
        assert(s.drop_last().take(j) =~= s.take(j));
    }
}

/// The first index in `v[from..to]` that is not whitespace, or `to`.
pub fn skip_white_space(v: &Vec<char>, from: usize, to: usize) -> (i: usize)
    requires
        from <= to <= v.len(),
    ensures
        from <= i <= to,
        forall|k: int| from <= k < i ==> is_white_space(#[trigger] v@[k]),
        i < to ==> !is_white_space(v@[i as int]),
{
    let mut i = from;
    while i < to && is_white_space_char(v[i])
        invariant
            from <= i <= to <= v.len(),
            forall|k: int| from <= k < i ==> is_white_space(#[trigger] v@[k]),
        decreases to - i,
    {
        i = i + 1;
    }
    i
}

/// The first index in `v[from..to]` that is whitespace, or `to`.
pub fn skip_word(v: &Vec<char>, from: usize, to: usize) -> (i: usize)
    requires
        from <= to <= v.len(),
    ensures
        from <= i <= to,
        forall|k: int| from <= k < i ==> !is_white_space(#[trigger] v@[k]),
        i < to ==> is_white_space(v@[i as int]),
{
    let mut i = from;
    while i < to && !is_white_space_char(v[i])
        invariant
            from <= i <= to <= v.len(),
            forall|k: int| from <= k < i ==> !is_white_space(#[trigger] v@[k]),
        decreases to - i,
    {
        i = i + 1;
    }
    i
}

/// `v[from..to]` with leading and trailing whitespace removed, as a range.
pub fn trim_range(v: &Vec<char>, from: usize, to: usize) -> (r: (usize, usize))
    requires
        from <= to <= v.len(),
    ensures
        from <= r.0 <= r.1 <= to,
        trim(v@.subrange(from as int, to as int)) == v@.subrange(r.0 as int, r.1 as int),
{
    let i = skip_white_space(v, from, to);
    let mut j = to;
    while j > i && is_white_space_char(v[j - 1])
        invariant
            i <= j <= to <= v.len(),
            forall|k: int| j <= k < to ==> is_white_space(#[trigger] v@[k]),
        decreases j,
    {
        j = j - 1;
    }
    proof {
        let s = v@.subrange(from as int, to as int);
        assert forall|k: int| 0 <= k < i - from implies is_white_space(#[trigger] s[k]) by {
            assert(s[k] == v@[from + k]);
        }
        if i < to {
            assert(s[i - from] == v@[i as int]);
        }
        lemma_trim_start_at(s, i - from);
        let t = s.skip(i - from);
        assert(t =~= v@.subrange(i as int, to as int));
        assert forall|k: int| j - i <= k < t.len() implies is_white_space(#[trigger] t[k]) by {
            assert(t[k] == v@[i + k]);
        }
        if j > i {
            assert(t[j - i - 1] == v@[j - 1]);
        }
        lemma_trim_end_at(t, j - i);
        assert(t.take(j - i) =~= v@.subrange(i as int, j as int));
    }
    (i, j)
}

/// `s` without leading and trailing whitespace (`str::trim`).
pub fn trim_string(s: &str) -> (r: String)
    ensures
        r@ == trim(s@),
{
    let v = chars_of(s);
    let (i, j) = trim_range(&v, 0, v.len());
    assert(v@.subrange(0, v.len() as int) =~= v@);
    string_of(&v, i, j)
}

/// The words of `v[from..to]` begin at `i` when `v[from..i]` is whitespace and
/// `v[i..j]` is a word.
proof fn lemma_words_unfold(v: Seq<char>, from: int, i: int, j: int, to: int)
    requires
        0 <= from <= i < j <= to <= v.len(),
        forall|k: int| from <= k < i ==> is_white_space(#[trigger] v[k]),
        forall|k: int| i <= k < j ==> !is_white_space(#[trigger] v[k]),
        j == to || is_white_space(v[j]),
    ensures
        words(v.subrange(from, to)) == seq![v.subrange(i, j)] + words(v.subrange(j, to)),
{
    let s = v.subrange(from, to);
    assert forall|k: int| 0 <= k < i - from implies is_white_space(#[trigger] s[k]) by {
        assert(s[k] == v[from + k]);
    }
    assert(s[i - from] == v[i]);
    lemma_trim_start_at(s, i - from);
    let t = trim_start(s);
    assert(t =~= v.subrange(i, to));
    assert forall|k: int| 0 <= k < j - i implies !is_white_space(#[trigger] t[k]) by {
        assert(t[k] == v[i + k]);
    }
    if j < to {
        assert(t[j - i] == v[j]);
    }
    lemma_word_len_at(t, j - i);
    assert(t.take(j - i) =~= v.subrange(i, j));
    assert(t.skip(j - i) =~= v.subrange(j, to));
}

/// Only whitespace in `v[from..to]` means no words.
proof fn lemma_words_none(v: Seq<char>, from: int, to: int)
    requires
        0 <= from <= to <= v.len(),
        forall|k: int| from <= k < to ==> is_white_space(#[trigger] v[k]),
    ensures
        words(v.subrange(from, to)) == Seq::<Seq<char>>::empty(),
{
    let s = v.subrange(from, to);
    assert forall|k: int| 0 <= k < to - from implies is_white_space(#[trigger] s[k]) by {
        assert(s[k] == v[from + k]);
    }
    lemma_trim_start_at(s, to - from);
    assert(trim_start(s).len() == 0);
}

/// The first two words of `v[from..to]`, as ranges, when it has at least two.
pub fn first_two_words(v: &Vec<char>, from: usize, to: usize) -> (r: Option<
    (usize, usize, usize, usize),
>)
    requires
        from <= to <= v.len(),
    ensures
        match r {
            Some((a, b, c, d)) => {
                &&& from <= a <= b <= c <= d <= to
                &&& words(v@.subrange(from as int, to as int)).len() >= 2
                &&& words(v@.subrange(from as int, to as int))[0] == v@.subrange(a as int, b as int)
                &&& words(v@.subrange(from as int, to as int))[1] == v@.subrange(c as int, d as int)
            },
            None => words(v@.subrange(from as int, to as int)).len() < 2,
        },
{
    let a = skip_white_space(v, from, to);
    if a == to {
        proof {
            lemma_words_none(v@, from as int, to as int);
        }
        return None;
    }
    let b = skip_word(v, a, to);
    proof {
        lemma_words_unfold(v@, from as int, a as int, b as int, to as int);
    }
    let c = skip_white_space(v, b, to);
    if c == to {
        proof {
            lemma_words_none(v@, b as int, to as int);
        }
        return None;
    }
    let d = skip_word(v, c, to);
    proof {
        lemma_words_unfold(v@, b as int, c as int, d as int, to as int);
    }
    Some((a, b, c, d))
}

/// The index of the first line feed in `v[from..]`, or `v.len()`.
pub fn find_line_feed(v: &Vec<char>, from: usize) -> (e: usize)
    requires
        from <= v.len(),
    ensures
        from <= e <= v.len(),
        e == from + line_len(v@.skip(from as int)),
{
    let mut e = from;
    while e < v.len() && v[e] != '\n'
        invariant
            from <= e <= v.len(),
            line_len(v@.skip(from as int)) == (e - from) + line_len(v@.skip(e as int)),
        decreases v.len() - e,
    {
        assert(v@.skip(e as int).drop_first() =~= v@.skip(e + 1));
        e = e + 1;
    }
    e
}

/// One step of `lines`: the first line of `v[from..]` ends at the line feed `e`
/// (or the end), and the rest start after it.
pub proof fn lemma_lines_step(v: Seq<char>, from: int, e: int)
    requires
        0 <= from < v.len(),
        from <= e <= v.len(),
        e == from + line_len(v.skip(from)),
    ensures
        e == v.len() ==> lines(v.skip(from)) == seq![v.subrange(from, e)],
        e < v.len() ==> lines(v.skip(from)) == seq![strip_cr(v.subrange(from, e))] + lines(
            v.skip(e + 1),
        ),
{
    let s = v.skip(from);
    if e < v.len() {
        assert(s.take(e - from) =~= v.subrange(from, e));
        assert(s.skip(e - from + 1) =~= v.skip(e + 1));
    } else {
        assert(s =~= v.subrange(from, e));
    }
}

/// The value of a decimal digit character.
pub open spec fn digit_value(c: char) -> nat {
    ((c as u32) - ('0' as u32)) as nat
}

pub open spec fn is_digit(c: char) -> bool {
    '0' <= c && c <= '9'
}

/// The number that a string of decimal digits denotes.
pub open spec fn digits_value(s: Seq<char>) -> nat
    decreases s.len(),
{
    if s.len() == 0 {
        0
    } else {
        digits_value(s.drop_last()) * 10 + digit_value(s.last())
    }
}

/// `s` without one leading `+`, if it has one.
pub open spec fn without_plus(s: Seq<char>) -> Seq<char> {
    if s.len() > 0 && s[0] == '+' {
        s.drop_first()
    } else {
        s
    }
}

/// What `u64::from_str` gives: an optional `+`, then one or more decimal
/// digits whose value fits in 64 bits; anything else is refused.
pub open spec fn parse_u64(s: Seq<char>) -> Option<nat> {
    let d = without_plus(s);
    if d.len() > 0 && (forall|i: int| 0 <= i < d.len() ==> is_digit(#[trigger] d[i]))
        && digits_value(d) <= u64::MAX {
        Some(digits_value(d))
    } else {
        None
    }
}

/// Adding digits never makes the value smaller.
proof fn lemma_digits_value_grows(d: Seq<char>, i: int, j: int)
    requires
        0 <= i <= j <= d.len(),
    ensures
        digits_value(d.take(i)) <= digits_value(d.take(j)),
    decreases j - i,
{
    if i < j {
        lemma_digits_value_grows(d, i, j - 1);
        assert(d.take(j).drop_last() =~= d.take(j - 1));
    }
}

/// Parses `v[from..to]` as `u64::from_str` does.
pub fn parse_u64_range(v: &Vec<char>, from: usize, to: usize) -> (r: Option<u64>)
    requires
        from <= to <= v.len(),
    ensures
        match parse_u64(v@.subrange(from as int, to as int)) {
            Some(n) => r == Some(n as u64),
            None => r is None,
        },
{
    let ghost s = v@.subrange(from as int, to as int);
    let start = if from < to && v[from] == '+' {
        from + 1
    } else {
        from
    };
    let ghost d = v@.subrange(start as int, to as int);
    assert(d =~= without_plus(s));
    if start == to {
        return None;
    }
    let mut value: u64 = 0;
    let mut i = start;
    while i < to
        invariant
            start <= i <= to <= v.len(),
            d == v@.subrange(start as int, to as int),
            s == v@.subrange(from as int, to as int),
            d == without_plus(s),
            value == digits_value(d.take(i - start)),
            forall|k: int| 0 <= k < i - start ==> is_digit(#[trigger] d[k]),
        decreases to - i,
    {
        let c = v[i];
        assert(c == d[i - start]);
        if !('0' <= c && c <= '9') {
            assert(!is_digit(d[i - start]));
            assert(!(forall|k: int| 0 <= k < d.len() ==> is_digit(#[trigger] d[k])));
            return None;
        }
        let digit = (c as u32 - '0' as u32) as u64;
        assert(d.take(i - start + 1).drop_last() =~= d.take(i - start));
        assert(digits_value(d.take(i - start + 1)) == value * 10 + digit);
        if value > (u64::MAX - digit) / 10 {
            proof {
                assert(value * 10 + digit > u64::MAX) by (nonlinear_arith)
                    requires value > (u64::MAX - digit) / 10, digit <= 9;
                lemma_digits_value_grows(d, i - start + 1, d.len() as int);
                assert(d.take(d.len() as int) =~= d);
            }
            return None;
        }
        assert(value * 10 + digit <= u64::MAX) by (nonlinear_arith)
            requires value <= (u64::MAX - digit) / 10, digit <= 9;
        value = value * 10 + digit;
        i = i + 1;
    }
    assert(d.take(d.len() as int) =~= d);
    Some(value)
}

/// Whether two strings hold the same characters.
pub fn same_text(a: &str, b: &str) -> (r: bool)
    ensures
        r == (a@ == b@),
{
    let x = chars_of(a);
    let y = chars_of(b);
    if x.len() != y.len() {
        return false;
    }
    let mut i: usize = 0;
    while i < x.len()
        invariant
            i <= x.len() == y.len(),
            x@ == a@,
            y@ == b@,
            forall|k: int| 0 <= k < i ==> x@[k] == y@[k],
        decreases x.len() - i,
    {
        if x[i] != y[i] {
            assert(a@[i as int] != b@[i as int]);
            return false;
        }
        i = i + 1;
    }
    assert(x@ =~= y@);
    true
}

/// `c` with ASCII upper-case letters made lower-case.
pub open spec fn ascii_lower(c: char) -> char {
    if 'A' <= c && c <= 'Z' {
        ((c as u32) + 32) as char
    } else {
        c
    }
}

/// `a` and `b` are equal ignoring ASCII case (`str::eq_ignore_ascii_case`).
pub open spec fn eq_ignore_ascii_case(a: Seq<char>, b: Seq<char>) -> bool {
    a.len() == b.len() && forall|i: int| 0 <= i < a.len() ==> ascii_lower(#[trigger] a[i]) == ascii_lower(b[i])
}

pub fn ascii_lower_char(c: char) -> (r: char)
    ensures
        r == ascii_lower(c),
{
    if 'A' <= c && c <= 'Z' {
        let b = c as u8 + 32;
        b as char
    } else {
        c
    }
}

/// Whether `a[from..to]` equals `b` ignoring ASCII case.
pub fn eq_ignore_ascii_case_range(a: &Vec<char>, from: usize, to: usize, b: &Vec<char>) -> (r: bool)
    requires
        from <= to <= a.len(),
    ensures
        r == eq_ignore_ascii_case(a@.subrange(from as int, to as int), b@),
{
    let ghost s = a@.subrange(from as int, to as int);
    if to - from != b.len() {
        return false;
    }
    let mut i: usize = 0;
    while i < b.len()
        invariant
            i <= b.len(),
            to - from == b.len(),
            from <= to <= a.len(),
            s == a@.subrange(from as int, to as int),
            forall|k: int| 0 <= k < i ==> ascii_lower(#[trigger] s[k]) == ascii_lower(b@[k]),
        decreases b.len() - i,
    {
        assert(s[i as int] == a@[from + i]);
        if ascii_lower_char(a[from + i]) != ascii_lower_char(b[i]) {
            return false;
        }
        i = i + 1;
    }
    true
}

} // verus!

//! Text as sequences of characters: splitting, trimming, comparing, and the
//! decimal notation of integers.

use vstd::prelude::*;

verus! {

/// `String::push` appends one character to the end.
pub assume_specification[ String::push ](s: &mut String, c: char)
    ensures
        final(s)@ == old(s)@.push(c),
;

/// The characters of `s`, in order.
pub fn to_chars(s: &str) -> (r: Vec<char>)
    ensures
        r@ == s@,
{
    let mut r: Vec<char> = Vec::new();
    for c in it: s.chars()
        invariant
            it.seq() == s@,
            r@ == s@.take(it.index()),
    {
        r.push(c);
    }
    assert(s@.take(s@.len() as int) =~= s@);
    r
}

/// The text made of the characters of `c`.
pub fn from_chars(c: &[char]) -> (r: String)
    ensures
        r@ == c@,
{
    let mut r = String::new();
    let mut i: usize = 0;
    while i < c.len()
        invariant
            i <= c@.len(),
            r@ == c@.take(i as int),
        decreases c@.len() - i,
    {
        r.push(c[i]);
        i = i + 1;
        assert(c@.take(i as int) =~= c@.take(i - 1).push(c@[i - 1]));
    }
    assert(c@.take(c@.len() as int) =~= c@);
    r
}

/// Whether two texts hold the same characters.
pub fn same(a: &str, b: &str) -> (r: bool)
    ensures
        r == (a@ == b@),
{
    let x = a.as_bytes();
    let y = b.as_bytes();
    let r = same_bytes(x, y);
    proof {
        vstd::utf8::encode_utf8_decode_utf8(a@);
        vstd::utf8::encode_utf8_decode_utf8(b@);
    }
    r
}

/// Whether two byte strings are equal.
pub fn same_bytes(a: &[u8], b: &[u8]) -> (r: bool)
    ensures
        r == (a@ == b@),
{
    if a.len() != b.len() {
        return false;
    }
    let mut i: usize = 0;
    while i < a.len()
        invariant
            i <= a@.len(),
            a@.len() == b@.len(),
            a@.take(i as int) == b@.take(i as int),
        decreases a@.len() - i,
    {
        if a[i] != b[i] {
            return false;
        }
        i = i + 1;
        assert(a@.take(i as int) =~= a@.take(i - 1).push(a@[i - 1]));
        assert(b@.take(i as int) =~= b@.take(i - 1).push(b@[i - 1]));
    }
    assert(a@.take(i as int) =~= a@);
    assert(b@.take(i as int) =~= b@);
    true
}

/// Whether `c` has Unicode's `White_Space` property.
pub open spec fn is_white(c: char) -> bool {
    ||| '\u{9}' <= c <= '\u{d}'
    ||| c == ' '
    ||| c == '\u{85}'
    ||| c == '\u{a0}'
    ||| c == '\u{1680}'
    ||| '\u{2000}' <= c <= '\u{200a}'
    ||| c == '\u{2028}'
    ||| c == '\u{2029}'
    ||| c == '\u{202f}'
    ||| c == '\u{205f}'
    ||| c == '\u{3000}'
}

/// Whether `c` has Unicode's `White_Space` property.
pub fn whitespace(c: char) -> (r: bool)
    ensures
        r == is_white(c),
{
    ('\u{9}' <= c && c <= '\u{d}') || c == ' ' || c == '\u{85}' || c == '\u{a0}' || c == '\u{1680}'
        || ('\u{2000}' <= c && c <= '\u{200a}') || c == '\u{2028}' || c == '\u{2029}' || c
        == '\u{202f}' || c == '\u{205f}' || c == '\u{3000}'
}

/// `s` without the white space at its start.
pub open spec fn trim_start_of(s: Seq<char>) -> Seq<char>
    decreases s.len(),
{
    if s.len() > 0 && is_white(s[0]) {
        trim_start_of(s.skip(1))
    } else {
        s
    }
}

/// `s` without the white space at its end.
pub open spec fn trim_end_of(s: Seq<char>) -> Seq<char>
    decreases s.len(),
{
    if s.len() > 0 && is_white(s.last()) {
        trim_end_of(s.drop_last())
    } else {
        s
    }
}

/// `s` without the white space at either end.
pub open spec fn trim_of(s: Seq<char>) -> Seq<char> {
    trim_end_of(trim_start_of(s))
}

/// `s` without the white space at either end.
pub fn trim_chars(s: &[char]) -> (r: Vec<char>)
    ensures
        r@ == trim_of(s@),
{
    let mut start: usize = 0;
    assert(s@.skip(0) =~= s@);
    while start < s.len() && whitespace(s[start])
        invariant
            start <= s@.len(),
            trim_start_of(s@.skip(start as int)) == trim_start_of(s@),
        decreases s@.len() - start,
    {
        assert(s@.skip(start as int).skip(1) =~= s@.skip(start + 1));
        start = start + 1;
    }
    let ghost t = s@.skip(start as int);
    assert(t == trim_start_of(s@));
    let mut end: usize = s.len();
    assert(s@.subrange(start as int, end as int) =~= t);
    while end > start && whitespace(s[end - 1])
        invariant
            start <= end <= s@.len(),
            trim_end_of(s@.subrange(start as int, end as int)) == trim_end_of(t),
        decreases end,
    {
        assert(s@.subrange(start as int, end as int).drop_last() =~= s@.subrange(
            start as int,
            end - 1,
        ));
        end = end - 1;
    }
    let r = vstd::slice::slice_to_vec(vstd::slice::slice_subrange(s, start, end));
    r
}

/// `s` without the white space at either end.
pub fn trim(s: &str) -> (r: String)
    ensures
        r@ == trim_of(s@),
{
    from_chars(&trim_chars(&to_chars(s)))
}

/// How many characters of `s` come before its first white space.
pub open spec fn word_len(s: Seq<char>) -> nat
    decreases s.len(),
{
    if s.len() == 0 || is_white(s[0]) {
        0
    } else {
        1 + word_len(s.skip(1))
    }
}

pub proof fn lemma_word_len(s: Seq<char>)
    ensures
        word_len(s) <= s.len(),
    decreases s.len(),
{
    if s.len() != 0 && !is_white(s[0]) {
        lemma_word_len(s.skip(1));
    }
}

pub proof fn lemma_trim_start_len(s: Seq<char>)
    ensures
        trim_start_of(s).len() <= s.len(),
        trim_start_of(s).len() > 0 ==> !is_white(trim_start_of(s)[0]),
    decreases s.len(),
{
    if s.len() > 0 && is_white(s[0]) {
        lemma_trim_start_len(s.skip(1));
    }
}

/// The maximal runs of `s` that hold no white space, in order.
pub open spec fn words_of(s: Seq<char>) -> Seq<Seq<char>>
    decreases s.len(),
{
    let t = trim_start_of(s);
    if t.len() == 0 {
        Seq::empty()
    } else {
        let n = word_len(t);
        proof {
            lemma_trim_start_len(s);
            lemma_word_len(t);
        }
        seq![t.take(n as int)] + words_of(t.skip(n as int))
    }
}

proof fn lemma_trim_end_keeps_start(s: Seq<char>)
    requires
        s.len() > 0,
        !is_white(s[0]),
    ensures
        trim_end_of(s).len() > 0,
    decreases s.len(),
{
    if is_white(s.last()) {
        lemma_trim_end_keeps_start(s.drop_last());
    }
}

/// No word is blank.
pub proof fn lemma_words_not_blank(s: Seq<char>)
    ensures
        forall|i: int| 0 <= i < words_of(s).len() ==> trim_of(#[trigger] words_of(s)[i]).len() > 0,
    decreases s.len(),
{
    let t = trim_start_of(s);
    lemma_trim_start_len(s);
    if t.len() > 0 {
        let n = word_len(t);
        lemma_word_len(t);
        let w = t.take(n as int);
        assert(w[0] == t[0]);
        lemma_trim_end_keeps_start(w);
        lemma_words_not_blank(t.skip(n as int));
        assert forall|i: int| 0 <= i < words_of(s).len() implies trim_of(
            #[trigger] words_of(s)[i],
        ).len() > 0 by {
            if i > 0 {
                assert(words_of(s)[i] == words_of(t.skip(n as int))[i - 1]);
            }
        }
    }
}

/// The contents of a list of texts.
pub open spec fn views(v: Seq<String>) -> Seq<Seq<char>> {
    v.map_values(|s: String| s@)
}

/// The maximal runs of `s` that hold no white space, in order.
pub fn words(s: &str) -> (r: Vec<String>)
    ensures
        views(r@) == words_of(s@),
{
    let c = to_chars(s);
    let mut r: Vec<String> = Vec::new();
    let mut i: usize = 0;
    assert(views(r@) =~= Seq::<Seq<char>>::empty());
    assert(c@.skip(0) =~= c@);
    assert(views(r@) + words_of(c@.skip(0)) =~= words_of(c@));
    loop
        invariant
            i <= c@.len(),
            views(r@) + words_of(c@.skip(i as int)) == words_of(c@),
        ensures
            views(r@) == words_of(c@),
        decreases c@.len() - i,
    {
        let ghost start = i as int;
        while i < c.len() && whitespace(c[i])
            invariant
                start <= i <= c@.len(),
                trim_start_of(c@.skip(i as int)) == trim_start_of(c@.skip(start)),
            decreases c@.len() - i,
        {
            assert(c@.skip(i as int).skip(1) =~= c@.skip(i + 1));
            i = i + 1;
        }
        let ghost t = c@.skip(i as int);
        assert(t == trim_start_of(c@.skip(start)));
        if i == c.len() {
            assert(words_of(c@.skip(start)) =~= Seq::<Seq<char>>::empty());
            assert(views(r@) + words_of(c@.skip(start)) =~= views(r@));
            break;
        }
        let from: usize = i;
        while i < c.len() && !whitespace(c[i])
            invariant
                from <= i <= c@.len(),
                word_len(c@.skip(from as int)) == (i - from) + word_len(c@.skip(i as int)),
            decreases c@.len() - i,
        {
            assert(c@.skip(i as int).skip(1) =~= c@.skip(i + 1));
            i = i + 1;
        }
        let ghost before = r@;
        assert(word_len(t) == i - from);
        let w = from_chars(vstd::slice::slice_subrange(c.as_slice(), from, i));
        assert(w@ =~= t.take(i - from));
        r.push(w);
        assert(t.skip(i - from) =~= c@.skip(i as int));
        assert(words_of(c@.skip(start)) == seq![w@] + words_of(c@.skip(i as int)));
        assert(views(r@) =~= views(before).push(w@));
        assert(views(r@) + words_of(c@.skip(i as int)) =~= views(before) + words_of(c@.skip(start)));
    }
    r
}

/// The position of the first line feed of `s`, or its length.
pub open spec fn line_len(s: Seq<char>) -> nat
    decreases s.len(),
{
    if s.len() == 0 || s[0] == '\n' {
        0
    } else {
        1 + line_len(s.skip(1))
    }
}

pub proof fn lemma_line_len(s: Seq<char>)
    ensures
        line_len(s) <= s.len(),
    decreases s.len(),
{
    if s.len() != 0 && s[0] != '\n' {
        lemma_line_len(s.skip(1));
    }
}

/// `s` without one carriage return at its end.
pub open spec fn strip_cr(s: Seq<char>) -> Seq<char> {
    if s.len() > 0 && s.last() == '\r' {
        s.drop_last()
    } else {
        s
    }
}

/// The lines of `s`: each ends at a line feed, alone or after a carriage return;
/// the last may lack it.
pub open spec fn lines_of(s: Seq<char>) -> Seq<Seq<char>>
    decreases s.len(),
{
    let n = line_len(s) as int;
    proof {
        lemma_line_len(s);
    }
    if s.len() == 0 {
        Seq::empty()
    } else if n == s.len() {
        seq![s]
    } else {
        seq![strip_cr(s.take(n))] + lines_of(s.skip(n + 1))
    }
}

/// The lines of `s`, without their ends.
pub fn lines(s: &str) -> (r: Vec<String>)
    ensures
        views(r@) == lines_of(s@),
{
    let c = to_chars(s);
    let mut r: Vec<String> = Vec::new();
    let mut i: usize = 0;
    assert(c@.skip(0) =~= c@);
    assert(views(r@) + lines_of(c@.skip(0)) =~= lines_of(c@));
    while i < c.len()
        invariant
            i <= c@.len(),
            views(r@) + lines_of(c@.skip(i as int)) == lines_of(c@),
        decreases c@.len() - i,
    {
        let from: usize = i;
        let ghost t = c@.skip(from as int);
        while i < c.len() && c[i] != '\n'
            invariant
                from <= i <= c@.len(),
                line_len(c@.skip(from as int)) == (i - from) + line_len(c@.skip(i as int)),
            decreases c@.len() - i,
        {
            assert(c@.skip(i as int).skip(1) =~= c@.skip(i + 1));
            i = i + 1;
        }
        assert(line_len(t) == i - from);
        let ghost before = r@;
        if i == c.len() {
            let w = from_chars(vstd::slice::slice_subrange(c.as_slice(), from, i));
            assert(w@ =~= t);
            r.push(w);
            assert(views(r@) =~= views(before).push(w@));
            assert(c@.skip(i as int) =~= Seq::<char>::empty());
            assert(views(r@) + lines_of(c@.skip(i as int)) =~= views(before) + lines_of(t));
        } else {
            let to: usize = if i > from && c[i - 1] == '\r' { i - 1 } else { i };
            let w = from_chars(vstd::slice::slice_subrange(c.as_slice(), from, to));
            assert(w@ =~= strip_cr(t.take(i - from)));
            r.push(w);
            assert(views(r@) =~= views(before).push(w@));
            i = i + 1;
            assert(t.skip(i - from) =~= c@.skip(i as int));
            assert(views(r@) + lines_of(c@.skip(i as int)) =~= views(before) + lines_of(t));
        }
    }
    assert(c@.skip(i as int) =~= Seq::<char>::empty());
    assert(views(r@) + lines_of(c@.skip(i as int)) =~= views(r@));
    r
}

/// Whether `s` begins with `prefix`.
pub open spec fn has_prefix(s: Seq<char>, prefix: Seq<char>) -> bool {
    prefix.len() <= s.len() && s.take(prefix.len() as int) == prefix
}

/// What follows `prefix` in `s`, where `s` begins with it.
pub fn strip_prefix(s: &str, prefix: &str) -> (r: Option<String>)
    ensures
        r is Some == has_prefix(s@, prefix@),
        r matches Some(rest) ==> rest@ == s@.skip(prefix@.len() as int),
{
    let c = to_chars(s);
    let p = to_chars(prefix);
    if p.len() > c.len() {
        return None;
    }
    let mut i: usize = 0;
    while i < p.len()
        invariant
            i <= p@.len() <= c@.len(),
            c@.take(i as int) == p@.take(i as int),
            c@ == s@,
            p@ == prefix@,
        decreases p@.len() - i,
    {
        if c[i] != p[i] {
            assert(s@.take(p@.len() as int)[i as int] != p@[i as int]);
            return None;
        }
        i = i + 1;
        assert(c@.take(i as int) =~= c@.take(i - 1).push(c@[i - 1]));
        assert(p@.take(i as int) =~= p@.take(i - 1).push(p@[i - 1]));
    }
    assert(p@.take(i as int) =~= p@);
    let rest = from_chars(vstd::slice::slice_subrange(c.as_slice(), i, c.len()));
    assert(rest@ =~= s@.skip(i as int));
    Some(rest)
}

/// Whether `s` begins with `prefix`.
pub fn starts_with(s: &str, prefix: &str) -> (r: bool)
    ensures
        r == has_prefix(s@, prefix@),
{
    strip_prefix(s, prefix).is_some()
}

/// `a` followed by `b`.
pub fn join(a: &str, b: &str) -> (r: String)
    ensures
        r@ == a@ + b@,
{
    a.to_owned().concat(b)
}

/// `c` with an ASCII capital letter made small.
pub open spec fn lower(c: char) -> char {
    if 'A' <= c <= 'Z' {
        ((c as u32 + 32) as u8) as char
    } else {
        c
    }
}

/// `c` with an ASCII capital letter made small.
pub fn ascii_lower(c: char) -> (r: char)
    ensures
        r == lower(c),
{
    if 'A' <= c && c <= 'Z' {
        let n: u8 = (c as u32 + 32) as u8;
        n as char
    } else {
        c
    }
}

/// `s` with its ASCII capital letters made small.
pub open spec fn lower_of(s: Seq<char>) -> Seq<char> {
    s.map_values(|c: char| lower(c))
}

/// `s` with its ASCII capital letters made small.
pub fn to_ascii_lowercase(s: &str) -> (r: String)
    ensures
        r@ == lower_of(s@),
{
    let c = to_chars(s);
    let mut r = String::new();
    let mut i: usize = 0;
    while i < c.len()
        invariant
            i <= c@.len(),
            r@ == lower_of(c@.take(i as int)),
        decreases c@.len() - i,
    {
        r.push(ascii_lower(c[i]));
        i = i + 1;
        assert(lower_of(c@.take(i as int)) =~= lower_of(c@.take(i - 1)).push(lower(c@[i - 1])));
    }
    assert(c@.take(i as int) =~= c@);
    r
}

/// Whether two texts are equal up to the case of ASCII letters.
pub fn eq_ignore_ascii_case(a: &str, b: &str) -> (r: bool)
    ensures
        r == (lower_of(a@) == lower_of(b@)),
{
    let x = to_ascii_lowercase(a);
    let y = to_ascii_lowercase(b);
    same(x.as_str(), y.as_str())
}

/// Whether `a` comes before `b`, by their first difference in character codes.
pub open spec fn precedes(a: Seq<char>, b: Seq<char>) -> bool
    decreases a.len(),
{
    if b.len() == 0 {
        false
    } else if a.len() == 0 {
        true
    } else if a[0] != b[0] {
        a[0] < b[0]
    } else {
        precedes(a.skip(1), b.skip(1))
    }
}

/// Nothing precedes what precedes it.
pub proof fn lemma_precedes_asymmetric(a: Seq<char>, b: Seq<char>)
    requires
        precedes(a, b),
    ensures
        !precedes(b, a),
    decreases a.len(),
{
    if a.len() > 0 && a[0] == b[0] {
        lemma_precedes_asymmetric(a.skip(1), b.skip(1));
    }
}

/// Where `a` does not precede `b`, nor `b` precede `c`, neither does `a` precede `c`.
pub proof fn lemma_precedes_negatively_transitive(a: Seq<char>, b: Seq<char>, c: Seq<char>)
    requires
        !precedes(a, b),
        !precedes(b, c),
    ensures
        !precedes(a, c),
    decreases a.len(),
{
    if a.len() > 0 && b.len() > 0 && c.len() > 0 && a[0] == b[0] && b[0] == c[0] {
        lemma_precedes_negatively_transitive(a.skip(1), b.skip(1), c.skip(1));
    }
}

/// Whether `a` comes before `b`, by their first difference in character codes.
pub fn comes_before(a: &str, b: &str) -> (r: bool)
    ensures
        r == precedes(a@, b@),
{
    let x = to_chars(a);
    let y = to_chars(b);
    let mut i: usize = 0;
    assert(x@.skip(0) =~= x@);
    assert(y@.skip(0) =~= y@);
    while i < x.len() && i < y.len()
        invariant
            i <= x@.len(),
            i <= y@.len(),
            x@ == a@,
            y@ == b@,
            precedes(x@.skip(i as int), y@.skip(i as int)) == precedes(x@, y@),
        decreases x@.len() - i,
    {
        if x[i] != y[i] {
            return x[i] < y[i];
        }
        assert(x@.skip(i as int).skip(1) =~= x@.skip(i + 1));
        assert(y@.skip(i as int).skip(1) =~= y@.skip(i + 1));
        i = i + 1;
    }
    i == x.len() && i < y.len()
}

/// What follows the last `c` of `s`, or all of `s`.
pub open spec fn after_last_of(s: Seq<char>, c: char) -> Seq<char>
    decreases s.len(),
{
    if s.len() == 0 || s.last() == c {
        Seq::empty()
    } else {
        after_last_of(s.drop_last(), c).push(s.last())
    }
}

/// What follows the last `c` of `s`, or all of `s`.
pub fn after_last(s: &str, c: char) -> (r: String)
    ensures
        r@ == after_last_of(s@, c),
{
    let x = to_chars(s);
    let mut i: usize = x.len();
    assert(x@.take(i as int) =~= x@);
    assert(after_last_of(x@, c) =~= after_last_of(x@.take(i as int), c) + x@.skip(i as int));
    while i > 0 && x[i - 1] != c
        invariant
            i <= x@.len(),
            after_last_of(x@, c) == after_last_of(x@.take(i as int), c) + x@.skip(i as int),
        decreases i,
    {
        assert(x@.take(i as int).drop_last() =~= x@.take(i - 1));
        assert(x@.skip(i - 1) =~= seq![x@[i - 1]] + x@.skip(i as int));
        assert(after_last_of(x@.take(i as int), c) == after_last_of(x@.take(i - 1), c).push(
            x@[i - 1],
        ));
        assert(after_last_of(x@.take(i as int), c) + x@.skip(i as int) =~= after_last_of(
            x@.take(i - 1),
            c,
        ) + x@.skip(i - 1));
        i = i - 1;
    }
    assert(after_last_of(x@.take(i as int), c) =~= Seq::<char>::empty());
    let r = from_chars(vstd::slice::slice_subrange(x.as_slice(), i, x.len()));
    assert(r@ =~= x@.skip(i as int));
    assert(r@ =~= after_last_of(x@, c));
    r
}

/// The digit that stands for `d`.
pub open spec fn digit(d: int) -> char {
    (('0' as u32 + d) as u8) as char
}

/// `n` in decimal notation.
pub open spec fn decimal_of(n: nat) -> Seq<char>
    decreases n,
{
    if n < 10 {
        seq![digit(n as int)]
    } else {
        decimal_of(n / 10).push(digit((n % 10) as int))
    }
}

/// `n` in decimal notation.
pub fn decimal(n: u64) -> (r: String)
    ensures
        r@ == decimal_of(n as nat),
    decreases n,
{
    if n < 10 {
        let mut r = String::new();
        let d: u8 = 48 + n as u8;
        r.push(d as char);
        assert(r@ =~= decimal_of(n as nat));
        r
    } else {
        let mut r = decimal(n / 10);
        let d: u8 = 48 + (n % 10) as u8;
        r.push(d as char);
        r
    }
}

/// `n` in decimal notation, a minus sign in front where it is negative.
pub open spec fn signed_decimal_of(n: int) -> Seq<char> {
    if n < 0 {
        seq!['-'] + decimal_of((-n) as nat)
    } else {
        decimal_of(n as nat)
    }
}

/// `n` in decimal notation, a minus sign in front where it is negative.
pub fn signed_decimal(n: i64) -> (r: String)
    ensures
        r@ == signed_decimal_of(n as int),
{
    if n < 0 {
        let mut r = String::new();
        r.push('-');
        let m: u64 = if n == i64::MIN { 9_223_372_036_854_775_808u64 } else { (-n) as u64 };
        r.append(decimal(m).as_str());
        assert(r@ =~= signed_decimal_of(n as int));
        r
    } else {
        decimal(n as u64)
    }
}

/// Whether `c` is one of the ASCII digits.
pub open spec fn is_digit(c: char) -> bool {
    '0' <= c <= '9'
}

/// The number that a text of digits stands for.
pub open spec fn number(s: Seq<char>) -> nat
    decreases s.len(),
{
    if s.len() == 0 {
        0
    } else {
        number(s.drop_last()) * 10 + (s.last() as u32 - '0' as u32) as nat
    }
}

/// `s` without one plus sign at its start.
pub open spec fn unsigned_digits(s: Seq<char>) -> Seq<char> {
    if s.len() > 0 && s[0] == '+' {
        s.skip(1)
    } else {
        s
    }
}

/// The number up to `max` that `s` writes: digits, at least one, after at most one
/// plus sign.
pub open spec fn parsed(s: Seq<char>, max: nat) -> Option<nat> {
    let d = unsigned_digits(s);
    if d.len() > 0 && (forall|i: int| 0 <= i < d.len() ==> is_digit(#[trigger] d[i])) && number(d)
        <= max {
        Some(number(d))
    } else {
        None
    }
}

proof fn lemma_number_grows(s: Seq<char>, i: int)
    requires
        0 <= i <= s.len(),
        forall|k: int| 0 <= k < s.len() ==> is_digit(#[trigger] s[k]),
    ensures
        number(s.take(i)) <= number(s),
    decreases s.len() - i,
{
    if i == s.len() {
        assert(s.take(i) =~= s);
    } else {
        lemma_number_grows(s, i + 1);
        assert(s.take(i + 1).drop_last() =~= s.take(i));
    }
}

/// The number up to `max` that `s` writes, as integers are read from text: digits,
/// at least one, after at most one plus sign.
pub fn parse_number(s: &str, max: u64) -> (r: Option<u64>)
    ensures
        r is Some == parsed(s@, max as nat) is Some,
        r matches Some(n) ==> parsed(s@, max as nat) == Some(n as nat),
{
    let c = to_chars(s);
    let start: usize = if c.len() > 0 && c[0] == '+' { 1 } else { 0 };
    let ghost d = unsigned_digits(s@);
    assert(s@.skip(start as int) =~= d);
    if c.len() == start {
        return None;
    }
    let mut n: u64 = 0;
    let mut i: usize = start;
    while i < c.len()
        invariant
            start <= i <= c@.len(),
            c@ == s@,
            d == c@.skip(start as int),
            d == unsigned_digits(s@),
            n == number(d.take(i - start)),
            n <= max,
            forall|k: int| 0 <= k < i - start ==> is_digit(#[trigger] d[k]),
        decreases c@.len() - i,
    {
        let ch = c[i];
        if ch < '0' || ch > '9' {
            assert(!is_digit(d[i - start]));
            return None;
        }
        let v: u64 = (ch as u32 - '0' as u32) as u64;
        assert(d.take(i - start + 1).drop_last() =~= d.take(i - start));
        assert(number(d.take(i - start + 1)) == n * 10 + v);
        if v > max || n > (max - v) / 10 {
            proof {
                if forall|k: int| 0 <= k < d.len() ==> is_digit(#[trigger] d[k]) {
                    lemma_number_grows(d, i - start + 1);
                }
            }
            return None;
        }
        n = n * 10 + v;
        i = i + 1;
    }
    assert(d.take(i - start) =~= d);
    Some(n)
}

pub(crate) proof fn lemma_decimal_digits(n: nat)
    ensures
        decimal_of(n).len() > 0,
        forall|i: int| 0 <= i < decimal_of(n).len() ==> '0' <= #[trigger] decimal_of(n)[i] <= '9',
        number(decimal_of(n)) == n,
    decreases n,
{
    if n >= 10 {
        lemma_decimal_digits(n / 10);
        assert(decimal_of(n).drop_last() =~= decimal_of(n / 10));
        assert(digit((n % 10) as int) as u32 - '0' as u32 == n % 10);
        assert(decimal_of(n).last() == digit((n % 10) as int));
        assert(number(decimal_of(n)) == number(decimal_of(n / 10)) * 10 + n % 10);
        assert(n == n / 10 * 10 + n % 10);
    } else {
        assert(decimal_of(n).drop_last() =~= Seq::<char>::empty());
        assert(digit(n as int) as u32 - '0' as u32 == n);
        assert(decimal_of(n).last() == digit(n as int));
        assert(number(Seq::<char>::empty()) == 0);
    }
}

/// What is written in decimal is read back as the number that it was.
pub proof fn lemma_decimal_parses(n: nat, max: nat)
    requires
        n <= max,
    ensures
        parsed(decimal_of(n), max) == Some(n),
{
    lemma_decimal_digits(n);
    assert(decimal_of(n)[0] != '+');
}

/// What stands after the last of a character is what follows it, where that holds none.
pub proof fn lemma_after_last(a: Seq<char>, b: Seq<char>, c: char)
    requires
        forall|i: int| 0 <= i < b.len() ==> #[trigger] b[i] != c,
    ensures
        after_last_of(a + seq![c] + b, c) == b,
    decreases b.len(),
{
    let s = a + seq![c] + b;
    if b.len() == 0 {
        assert(s.last() == c);
    } else {
        assert(s.last() == b.last());
        assert(b.last() == b[b.len() - 1]);
        assert(s.drop_last() =~= a + seq![c] + b.drop_last());
        assert forall|i: int| 0 <= i < b.drop_last().len() implies #[trigger] b.drop_last()[i]
            != c by {
            assert(b[i] != c);
        }
        lemma_after_last(a, b.drop_last(), c);
        assert(b.drop_last().push(b.last()) =~= b);
    }
}

/// Whether `c` is one of the characters that Unicode counts as white space, by its number.
pub open spec fn is_blank(c: char) -> bool {
    let n = c as u32;
    9 <= n <= 13 || n == 32 || n == 133 || n == 160 || n == 5760 || 8192 <= n <= 8202 || n == 8232
        || n == 8233 || n == 8239 || n == 8287 || n == 12288
}

proof fn lemma_blank(c: char)
    ensures
        is_blank(c) == is_white(c),
{
}

proof fn lemma_trim_start_at(s: Seq<char>)
    ensures
        exists|k: int|
            0 <= k <= s.len() && trim_start_of(s) == #[trigger] s.skip(k) && (forall|i: int|
                0 <= i < k ==> is_blank(#[trigger] s[i])) && (k < s.len() ==> !is_blank(s[k])),
    decreases s.len(),
{
    if s.len() > 0 && is_white(s[0]) {
        let t = s.skip(1);
        lemma_trim_start_at(t);
        let k = choose|k: int|
            0 <= k <= t.len() && trim_start_of(t) == #[trigger] t.skip(k) && (forall|i: int|
                0 <= i < k ==> is_blank(#[trigger] t[i])) && (k < t.len() ==> !is_blank(t[k]));
        assert(t.skip(k) =~= s.skip(k + 1));
        assert forall|i: int| 0 <= i < k + 1 implies is_blank(#[trigger] s[i]) by {
            if i > 0 {
                assert(t[i - 1] == s[i]);
            }
        }
        if k < t.len() {
            assert(s[k + 1] == t[k]);
        }
    } else {
        assert(s.skip(0) =~= s);
        if s.len() > 0 {
            lemma_blank(s[0]);
        }
    }
}

proof fn lemma_trim_end_at(s: Seq<char>)
    ensures
        exists|k: int|
            0 <= k <= s.len() && trim_end_of(s) == #[trigger] s.take(k) && (forall|i: int|
                k <= i < s.len() ==> is_blank(#[trigger] s[i])) && (k > 0 ==> !is_blank(s[k - 1])),
    decreases s.len(),
{
    if s.len() > 0 && is_white(s.last()) {
        let t = s.drop_last();
        lemma_trim_end_at(t);
        let k = choose|k: int|
            0 <= k <= t.len() && trim_end_of(t) == #[trigger] t.take(k) && (forall|i: int|
                k <= i < t.len() ==> is_blank(#[trigger] t[i])) && (k > 0 ==> !is_blank(t[k - 1]));
        assert(t.take(k) =~= s.take(k));
        assert forall|i: int| k <= i < s.len() implies is_blank(#[trigger] s[i]) by {
            if i < t.len() {
                assert(t[i] == s[i]);
            }
        }
        if k > 0 {
            assert(s[k - 1] == t[k - 1]);
        }
    } else {
        assert(s.take(s.len() as int) =~= s);
        if s.len() > 0 {
            lemma_blank(s.last());
        }
    }
}

/// A text is trimmed to the part from its first character that is no white space to its last,
/// and to nothing where it has none.
pub proof fn law_trimming(s: &str, r: String)
    requires
        call_ensures(trim, (s,), r),
    ensures
        exists|a: int, b: int|
            0 <= a <= b <= s@.len() && r@ == #[trigger] s@.subrange(a, b) && (forall|i: int|
                0 <= i < a ==> is_blank(#[trigger] s@[i])) && (forall|i: int|
                b <= i < s@.len() ==> is_blank(#[trigger] s@[i])) && (a < b ==> !is_blank(s@[a])
                && !is_blank(s@[b - 1])),
{
    let x = s@;
    lemma_trim_start_at(x);
    let a = choose|k: int|
        0 <= k <= x.len() && trim_start_of(x) == #[trigger] x.skip(k) && (forall|i: int|
            0 <= i < k ==> is_blank(#[trigger] x[i])) && (k < x.len() ==> !is_blank(x[k]));
    let t = x.skip(a);
    lemma_trim_end_at(t);
    let k = choose|k: int|
        0 <= k <= t.len() && trim_end_of(t) == #[trigger] t.take(k) && (forall|i: int|
            k <= i < t.len() ==> is_blank(#[trigger] t[i])) && (k > 0 ==> !is_blank(t[k - 1]));
    let b = a + k;
    assert(t.take(k) =~= x.subrange(a, b));
    assert forall|i: int| b <= i < x.len() implies is_blank(#[trigger] x[i]) by {
        assert(t[i - a] == x[i]);
    }
    if a < b {
        assert(t[k - 1] == x[b - 1]);
    }
}

proof fn lemma_trim_start_join(a: Seq<char>, b: Seq<char>)
    ensures
        trim_start_of(a).len() == 0 ==> trim_start_of(a + b) == trim_start_of(b),
        trim_start_of(a).len() > 0 ==> trim_start_of(a + b) == trim_start_of(a) + b,
    decreases a.len(),
{
    if a.len() == 0 {
        assert(a + b =~= b);
    } else if is_white(a[0]) {
        assert((a + b).skip(1) =~= a.skip(1) + b);
        lemma_trim_start_join(a.skip(1), b);
    }
}

proof fn lemma_word_len_join(t: Seq<char>, c: char, b: Seq<char>)
    requires
        is_white(c),
    ensures
        word_len(t + seq![c] + b) == word_len(t),
    decreases t.len(),
{
    let s = t + seq![c] + b;
    if t.len() > 0 && !is_white(t[0]) {
        assert(s.skip(1) =~= t.skip(1) + seq![c] + b);
        lemma_word_len_join(t.skip(1), c, b);
    }
}

proof fn lemma_words_split(a: Seq<char>, c: char, b: Seq<char>)
    requires
        is_white(c),
    ensures
        words_of(a + seq![c] + b) == words_of(a) + words_of(b),
    decreases a.len(),
{
    let s = a + seq![c] + b;
    let t = trim_start_of(a);
    let rest = seq![c] + b;
    assert(s =~= a + rest);
    lemma_trim_start_join(a, rest);
    lemma_trim_start_len(a);
    if t.len() == 0 {
        assert(rest.skip(1) =~= b);
        assert(trim_start_of(rest) == trim_start_of(b));
        assert(words_of(a) =~= Seq::<Seq<char>>::empty());
        assert(words_of(s) =~= words_of(b));
        assert(words_of(a) + words_of(b) =~= words_of(b));
    } else {
        let n = word_len(t);
        lemma_word_len(t);
        lemma_word_len_join(t, c, b);
        let u = t + rest;
        assert(u =~= t + seq![c] + b);
        assert(u.take(n as int) =~= t.take(n as int));
        assert(u.skip(n as int) =~= t.skip(n as int) + seq![c] + b);
        lemma_words_split(t.skip(n as int), c, b);
        assert(words_of(s) =~= words_of(a) + words_of(b));
    }
}

proof fn lemma_word_whole(s: Seq<char>)
    requires
        forall|i: int| 0 <= i < s.len() ==> !is_white(#[trigger] s[i]),
    ensures
        word_len(s) == s.len(),
    decreases s.len(),
{
    if s.len() > 0 {
        assert(!is_white(s[0]));
        assert forall|i: int| 0 <= i < s.skip(1).len() implies !is_white(#[trigger] s.skip(1)[i]) by {
            assert(s.skip(1)[i] == s[i + 1]);
        }
        lemma_word_whole(s.skip(1));
    }
}

/// The words of a text are the words of its two parts, wherever white space parts it; a text
/// without white space is one word, and nothing is none.
pub proof fn law_words(
    s: &str,
    a: &str,
    c: char,
    b: &str,
    ws: Vec<String>,
    wa: Vec<String>,
    wb: Vec<String>,
)
    requires
        call_ensures(words, (s,), ws),
        call_ensures(words, (a,), wa),
        call_ensures(words, (b,), wb),
        is_blank(c),
    ensures
        s@ == a@ + seq![c] + b@ ==> views(ws@) == views(wa@) + views(wb@),
        s@.len() == 0 ==> ws@.len() == 0,
        s@.len() > 0 && (forall|i: int| 0 <= i < s@.len() ==> !is_blank(#[trigger] s@[i]))
            ==> views(ws@) == seq![s@],
{
    lemma_blank(c);
    lemma_words_split(a@, c, b@);
    if s@.len() == 0 {
        assert(views(ws@).len() == ws@.len());
    } else if forall|i: int| 0 <= i < s@.len() ==> !is_blank(#[trigger] s@[i]) {
        assert forall|i: int| 0 <= i < s@.len() implies !is_white(#[trigger] s@[i]) by {
            lemma_blank(s@[i]);
        }
        lemma_word_whole(s@);
        assert(!is_white(s@[0]));
        assert(s@.take(s@.len() as int) =~= s@);
        assert(s@.skip(s@.len() as int) =~= Seq::<char>::empty());
        assert(words_of(Seq::<char>::empty()) =~= Seq::<Seq<char>>::empty());
        assert(words_of(s@) =~= seq![s@]);
    }
}

proof fn lemma_line_len_at(a: Seq<char>, b: Seq<char>)
    requires
        forall|i: int| 0 <= i < a.len() ==> #[trigger] a[i] != '\n',
    ensures
        line_len(a + seq!['\n'] + b) == a.len(),
        line_len(a) == a.len(),
    decreases a.len(),
{
    let s = a + seq!['\n'] + b;
    if a.len() > 0 {
        assert(a[0] != '\n');
        assert(s.skip(1) =~= a.skip(1) + seq!['\n'] + b);
        assert forall|i: int| 0 <= i < a.skip(1).len() implies #[trigger] a.skip(1)[i] != '\n' by {
            assert(a.skip(1)[i] == a[i + 1]);
        }
        lemma_line_len_at(a.skip(1), b);
    }
}

/// A text is its first line and the lines of what follows the line's end, which is a line
/// feed, alone or after a carriage return; a text without a line feed is one line, and
/// nothing is none.
pub proof fn law_lines(
    s: &str,
    a: Seq<char>,
    b: &str,
    ls: Vec<String>,
    lb: Vec<String>,
)
    requires
        call_ensures(lines, (s,), ls),
        call_ensures(lines, (b,), lb),
        forall|i: int| 0 <= i < a.len() ==> #[trigger] a[i] != '\n',
    ensures
        s@ == a + seq!['\n'] + b@ && (a.len() > 0 ==> a.last() != '\r') ==> views(ls@) == seq![a]
            + views(lb@),
        s@ == a + seq!['\r', '\n'] + b@ ==> views(ls@) == seq![a] + views(lb@),
        s@ == a && a.len() > 0 ==> views(ls@) == seq![a],
        s@.len() == 0 ==> ls@.len() == 0,
{
    assert(views(ls@).len() == ls@.len());
    lemma_line_len_at(a, b@);
    let plain = a + seq!['\n'] + b@;
    assert(plain.take(a.len() as int) =~= a);
    assert(plain.skip(a.len() as int + 1) =~= b@);
    let c = a.push('\r');
    assert forall|i: int| 0 <= i < c.len() implies #[trigger] c[i] != '\n' by {
        if i < a.len() {
            assert(c[i] == a[i]);
        }
    }
    lemma_line_len_at(c, b@);
    let both = c + seq!['\n'] + b@;
    assert(a + seq!['\r', '\n'] + b@ =~= both);
    assert(both.take(c.len() as int) =~= c);
    assert(c.drop_last() =~= a);
    assert(both.skip(c.len() as int + 1) =~= b@);
}

/// A text begins with another exactly where it is that other and something more, which is
/// then what is left.
pub proof fn law_prefixes(s: &str, prefix: &str, r: Option<String>, yes: bool, rest: Seq<char>)
    requires
        call_ensures(strip_prefix, (s, prefix), r),
        call_ensures(starts_with, (s, prefix), yes),
    ensures
        s@ == prefix@ + rest ==> r is Some && r->Some_0@ == rest,
        r is Some ==> s@ == prefix@ + r->Some_0@,
        yes <==> r is Some,
{
    if s@ == prefix@ + rest {
        assert(s@.take(prefix@.len() as int) =~= prefix@);
        assert(s@.skip(prefix@.len() as int) =~= rest);
    }
    if r is Some {
        assert(s@ =~= s@.take(prefix@.len() as int) + s@.skip(prefix@.len() as int));
    }
}

/// Capitals of ASCII are made small by 32, and nothing else changes; two texts are alike but
/// for that exactly where they are made small alike.
pub proof fn law_small_letters(
    s: &str,
    r: String,
    t: &str,
    u: String,
    alike: bool,
    i: int,
)
    requires
        call_ensures(to_ascii_lowercase, (s,), r),
        call_ensures(to_ascii_lowercase, (t,), u),
        call_ensures(eq_ignore_ascii_case, (s, t), alike),
    ensures
        r@.len() == s@.len(),
        0 <= i < s@.len() && 65 <= s@[i] as u32 <= 90 ==> r@[i] as u32 == s@[i] as u32 + 32,
        0 <= i < s@.len() && !(65 <= s@[i] as u32 <= 90) ==> r@[i] == s@[i],
        alike <==> r@ == u@,
{
}

proof fn lemma_precedes_join(p: Seq<char>, x: Seq<char>, y: Seq<char>)
    ensures
        precedes(p + x, p + y) == precedes(x, y),
    decreases p.len(),
{
    if p.len() == 0 {
        assert(p + x =~= x);
        assert(p + y =~= y);
    } else {
        assert((p + x).skip(1) =~= p.skip(1) + x);
        assert((p + y).skip(1) =~= p.skip(1) + y);
        lemma_precedes_join(p.skip(1), x, y);
    }
}

/// Of two texts that begin alike, the one that then has the smaller character comes before the
/// other, and so does one that ends there; a text never comes before itself.
pub proof fn law_order(
    a: &str,
    b: &str,
    r: bool,
    p: Seq<char>,
    x: Seq<char>,
    y: Seq<char>,
)
    requires
        call_ensures(comes_before, (a, b), r),
        a@ == p + x,
        b@ == p + y,
    ensures
        x.len() > 0 && y.len() > 0 && x[0] != y[0] ==> (r <==> x[0] < y[0]),
        x.len() == 0 ==> (r <==> y.len() > 0),
        y.len() == 0 ==> !r,
{
    lemma_precedes_join(p, x, y);
}

/// What is after the last of a character is what follows it; where there is none, it is all.
pub proof fn law_after_last(s: &str, c: char, r: String, a: Seq<char>, b: Seq<char>)
    requires
        call_ensures(after_last, (s, c), r),
        forall|i: int| 0 <= i < b.len() ==> #[trigger] b[i] != c,
    ensures
        s@ == a + seq![c] + b ==> r@ == b,
        s@ == b ==> r@ == b,
{
    lemma_after_last(a, b, c);
    lemma_after_none(b, c);
}

proof fn lemma_after_none(b: Seq<char>, c: char)
    requires
        forall|i: int| 0 <= i < b.len() ==> #[trigger] b[i] != c,
    ensures
        after_last_of(b, c) == b,
    decreases b.len(),
{
    if b.len() > 0 {
        assert(b.last() == b[b.len() - 1]);
        assert forall|i: int| 0 <= i < b.drop_last().len() implies #[trigger] b.drop_last()[i]
            != c by {
            assert(b[i] != c);
        }
        lemma_after_none(b.drop_last(), c);
        assert(b.drop_last().push(b.last()) =~= b);
    } else {
        assert(after_last_of(b, c) =~= b);
    }
}

/// A number is written in digits, without a 0 in front of others, and is read back as what it
/// was where it is within the bound, and not at all where it is beyond it.
pub proof fn law_numbers(n: u64, r: String, s: &str, max: u64, back: Option<u64>, i: int)
    requires
        call_ensures(decimal, (n,), r),
        s@ == r@,
        call_ensures(parse_number, (s, max), back),
    ensures
        n <= max ==> back == Some(n),
        n > max ==> back is None,
        0 <= i < r@.len() ==> '0' <= r@[i] <= '9',
        r@.len() > 1 ==> r@[0] != '0',
        n < 10 ==> r@.len() == 1,
{
    lemma_decimal_digits(n as nat);
    lemma_no_leading_zero(n as nat);
    assert(r@[0] != '+');
    if n <= max {
        lemma_decimal_parses(n as nat, max as nat);
    }
}

proof fn lemma_no_leading_zero(n: nat)
    ensures
        decimal_of(n).len() > 0,
        n > 0 ==> decimal_of(n)[0] != '0',
        n < 10 <==> decimal_of(n).len() == 1,
    decreases n,
{
    if n >= 10 {
        lemma_no_leading_zero(n / 10);
        assert(decimal_of(n)[0] == decimal_of(n / 10)[0]);
    }
}

/// A text with a character that is no digit, other than one plus sign in front, writes no
/// number, and neither does an empty one; a plus sign in front changes nothing.
pub proof fn law_no_numbers(
    s: &str,
    max: u64,
    r: Option<u64>,
    t: &str,
    q: Option<u64>,
    i: int,
)
    requires
        call_ensures(parse_number, (s, max), r),
        call_ensures(parse_number, (t, max), q),
    ensures
        0 < i < s@.len() && !('0' <= s@[i] <= '9') ==> r is None,
        s@.len() > 0 && s@[0] != '+' && !('0' <= s@[0] <= '9') ==> r is None,
        s@.len() == 0 ==> r is None,
        t@ == seq!['+'] + s@ && s@.len() > 0 && s@[0] != '+' ==> q == r,
        r is Some ==> r->Some_0 <= max,
{
    let d = unsigned_digits(s@);
    if 0 < i < s@.len() && !('0' <= s@[i] <= '9') {
        if s@[0] == '+' {
            assert(d[i - 1] == s@[i]);
        } else {
            assert(d[i] == s@[i]);
        }
    }
    if s@.len() > 0 && s@[0] != '+' && !('0' <= s@[0] <= '9') {
        assert(d[0] == s@[0]);
    }
    if t@ == seq!['+'] + s@ {
        assert(t@.skip(1) =~= s@);
    }
}

/// A negative number is its size after a minus sign.
pub proof fn law_signed_numbers(n: i64, r: String, m: u64, size: String)
    requires
        call_ensures(signed_decimal, (n,), r),
        call_ensures(decimal, (m,), size),
        m == (if n < 0 { -n } else { n as int }),
    ensures
        n < 0 ==> r@ == seq!['-'] + size@,
        n >= 0 ==> r@ == size@,
{
}

/// Texts and bytes are the same where they are equal, and joined they follow each other.
pub proof fn law_comparing(
    a: &str,
    b: &str,
    same_text: bool,
    x: &[u8],
    y: &[u8],
    same_data: bool,
    joined: String,
)
    requires
        call_ensures(same, (a, b), same_text),
        call_ensures(same_bytes, (x, y), same_data),
        call_ensures(join, (a, b), joined),
    ensures
        same_text <==> a@ == b@,
        same_data <==> x@ == y@,
        joined@ == a@ + b@,
{
}

} // verus!

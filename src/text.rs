//! Character-level helpers shared by the parsers: white space, trimming and
//! the searches that split a line into its parts.
use vstd::prelude::*;


verus! {

/// The characters with Unicode's `White_Space` property.
pub open spec fn is_white_space(c: char) -> bool {
    let u = c as u32;
    (9 <= u <= 13) || u == 32 || u == 0x85 || u == 0xa0 || u == 0x1680 || (0x2000 <= u <= 0x200a)
        || u == 0x2028 || u == 0x2029 || u == 0x202f || u == 0x205f || u == 0x3000
}

/// Tells whether `c` is a white-space character.
pub fn white_space(c: char) -> (r: bool)
    ensures
        r == is_white_space(c),
{
    let u = c as u32;
    (9 <= u && u <= 13) || u == 32 || u == 0x85 || u == 0xa0 || u == 0x1680 || (0x2000 <= u
        && u <= 0x200a) || u == 0x2028 || u == 0x2029 || u == 0x202f || u == 0x205f || u == 0x3000
}

/// `s` without its leading white space.
pub open spec fn trim_start(s: Seq<char>) -> Seq<char>
    decreases s.len(),
{
    if s.len() > 0 && is_white_space(s[0]) {
        trim_start(s.drop_first())
    } else {
        s
    }
}

/// `s` without its trailing white space.
pub open spec fn trim_end(s: Seq<char>) -> Seq<char>
    decreases s.len(),
{
    if s.len() > 0 && is_white_space(s.last()) {
        trim_end(s.drop_last())
    } else {
        s
    }
}

/// `s` without white space at either end.
pub open spec fn trim(s: Seq<char>) -> Seq<char> {
    trim_end(trim_start(s))
}

/// A text is trimmed when it neither starts nor ends with white space.
pub open spec fn is_trimmed(s: Seq<char>) -> bool {
    s.len() > 0 ==> !is_white_space(s[0]) && !is_white_space(s.last())
}

proof fn lemma_trim_start_from(s: Seq<char>, i: int)
    requires
        0 <= i <= s.len(),
        forall|k: int| 0 <= k < i ==> is_white_space(s[k]),
    ensures
        trim_start(s) == trim_start(s.subrange(i, s.len() as int)),
    decreases i,
{
    if i > 0 {
        assert(s.drop_first().subrange(i - 1, s.len() - 1) =~= s.subrange(i, s.len() as int));
        lemma_trim_start_from(s.drop_first(), i - 1);
    } else {
        assert(s.subrange(0, s.len() as int) =~= s);
    }
}

proof fn lemma_trim_end_to(s: Seq<char>, j: int)
    requires
        0 <= j <= s.len(),
        forall|k: int| j <= k < s.len() ==> is_white_space(s[k]),
    ensures
        trim_end(s) == trim_end(s.subrange(0, j)),
    decreases s.len() - j,
{
    if j < s.len() {
        assert(s.drop_last().subrange(0, j) =~= s.subrange(0, j));
        lemma_trim_end_to(s.drop_last(), j);
    } else {
        assert(s.subrange(0, j) =~= s);
    }
}

/// Trimming leaves a text that neither starts nor ends with white space, and
/// is no longer than what it started from.
pub broadcast proof fn lemma_trim_is_trimmed(s: Seq<char>)
    ensures
        is_trimmed(#[trigger] trim(s)),
        trim(s).len() <= s.len(),
    decreases s.len(),
{
    lemma_trim_start_shape(s);
    lemma_trim_end_shape(trim_start(s));
}

proof fn lemma_trim_start_shape(s: Seq<char>)
    ensures
        trim_start(s).len() <= s.len(),
        trim_start(s).len() > 0 ==> !is_white_space(trim_start(s)[0]),
    decreases s.len(),
{
    if s.len() > 0 && is_white_space(s[0]) {
        lemma_trim_start_shape(s.drop_first());
    }
}

proof fn lemma_trim_end_shape(s: Seq<char>)
    ensures
        trim_end(s).len() <= s.len(),
        trim_end(s) =~= s.subrange(0, trim_end(s).len() as int),
        trim_end(s).len() > 0 ==> !is_white_space(trim_end(s).last()),
    decreases s.len(),
{
    if s.len() > 0 && is_white_space(s.last()) {
        lemma_trim_end_shape(s.drop_last());
    }
}

/// A text that is already trimmed is left as it is.
pub proof fn lemma_trim_trimmed(s: Seq<char>)
    requires
        is_trimmed(s),
    ensures
        trim(s) == s,
{
}

/// A line of text with the white space at both of its ends removed.
#[derive(Debug, PartialEq, Eq, Hash)]
pub struct TrimmedStr<'a> {
    inner: &'a str,
}

impl<'a> View for TrimmedStr<'a> {
    type V = Seq<char>;

    closed spec fn view(&self) -> Seq<char> {
        self.inner@
    }
}

impl<'a> From<&'a str> for TrimmedStr<'a> {
    fn from(value: &'a str) -> (r: Self)
        ensures
            r@ == trim(value@),
    {
        TrimmedStr::new(value)
    }
}

impl<'a> vstd::std_specs::convert::FromSpecImpl<&'a str> for TrimmedStr<'a> {
    open spec fn obeys_from_spec() -> bool {
        false
    }

    open spec fn from_spec(v: &'a str) -> Self {
        arbitrary()
    }
}

impl<'a> TrimmedStr<'a> {
    /// Removes the white space at both ends of `s`.
    pub fn new(s: &'a str) -> (r: Self)
        ensures
            r@ == trim(s@),
            r@.len() <= s@.len(),
    {
        proof {
            lemma_trim_is_trimmed(s@);
        }
        let n = s.unicode_len();
        let mut i: usize = 0;
        while i < n && white_space(s.get_char(i))
            invariant
                n == s@.len(),
                i <= n,
                forall|k: int| 0 <= k < i ==> is_white_space(s@[k]),
            decreases n - i,
        {
            i = i + 1;
        }
        proof {
            lemma_trim_start_from(s@, i as int);
        }
        let mut j: usize = n;
        while j > i && white_space(s.get_char(j - 1))
            invariant
                n == s@.len(),
                i <= j <= n,
                forall|k: int| j <= k < n ==> is_white_space(s@[k]),
            decreases j,
        {
            j = j - 1;
        }
        let ghost rest = s@.subrange(i as int, n as int);
        proof {
            assert(trim_start(rest) == rest);
            assert forall|k: int| j - i <= k < rest.len() implies is_white_space(rest[k]) by {}
            lemma_trim_end_to(rest, j - i);
            assert(rest.subrange(0, j - i) =~= s@.subrange(i as int, j as int));
            let t = s@.subrange(i as int, j as int);
            if t.len() > 0 {
                assert(!is_white_space(t.last()));
            }
        }
        TrimmedStr { inner: s.substring_char(i, j) }
    }

    /// The trimmed text.
    pub fn as_str(&self) -> (r: &'a str)
        ensures
            r@ == self@,
    {
        self.inner
    }
}

/// The first index at or after `i` that holds `c`, or the length of `s`.
pub open spec fn first_from(s: Seq<char>, c: char, i: int) -> int
    decreases s.len() - i,
{
    if i < 0 || i >= s.len() || s[i] == c {
        if i < 0 { 0 } else if i >= s.len() { s.len() as int } else { i }
    } else {
        first_from(s, c, i + 1)
    }
}

/// The characters that stand for an arithmetic operator.
pub open spec fn is_op_char(c: char) -> bool {
    c == '+' || c == '-' || c == '*' || c == '/'
}

/// The first index at or after `i` that holds an operator character, or the
/// length of `s`.
pub open spec fn first_op_from(s: Seq<char>, i: int) -> int
    decreases s.len() - i,
{
    if i < 0 || i >= s.len() || is_op_char(s[i]) {
        if i < 0 { 0 } else if i >= s.len() { s.len() as int } else { i }
    } else {
        first_op_from(s, i + 1)
    }
}

/// The first index at or after `i` that holds white space, or the length of `s`.
pub open spec fn first_space_from(s: Seq<char>, i: int) -> int
    decreases s.len() - i,
{
    if i < 0 || i >= s.len() || is_white_space(s[i]) {
        if i < 0 { 0 } else if i >= s.len() { s.len() as int } else { i }
    } else {
        first_space_from(s, i + 1)
    }
}

/// The first index at or after `i` where `=>` starts, or the length of `s`.
pub open spec fn first_arrow_from(s: Seq<char>, i: int) -> int
    decreases s.len() - i,
{
    if i < 0 || i + 1 >= s.len() || (s[i] == '=' && s[i + 1] == '>') {
        if i < 0 { 0 } else if i + 1 >= s.len() { s.len() as int } else { i }
    } else {
        first_arrow_from(s, i + 1)
    }
}

/// Whether `s` begins with `p`.
pub open spec fn starts_with(s: Seq<char>, p: Seq<char>) -> bool {
    p.len() <= s.len() && s.subrange(0, p.len() as int) == p
}

/// The part of `s` from index `i` on.
pub open spec fn rest_from(s: Seq<char>, i: int) -> Seq<char> {
    s.subrange(i, s.len() as int)
}

/// The first index at or after `i` that holds a character other than white
/// space, or the length of `s`.
pub open spec fn first_non_space_from(s: Seq<char>, i: int) -> int
    decreases s.len() - i,
{
    if i < 0 || i >= s.len() || !is_white_space(s[i]) {
        if i < 0 { 0 } else if i >= s.len() { s.len() as int } else { i }
    } else {
        first_non_space_from(s, i + 1)
    }
}

/// The words of `s` from index `i` on: its maximal runs of characters that
/// are not white space.
pub open spec fn words_from(s: Seq<char>, i: int) -> Seq<Seq<char>>
    decreases s.len() - i,
{
    let a = first_non_space_from(s, i);
    let b = first_space_from(s, a);
    if i < 0 || a < i || a >= s.len() || b <= a || b > s.len() {
        Seq::empty()
    } else {
        seq![s.subrange(a, b)] + words_from(s, b)
    }
}

/// The words of `s`, in order.
pub open spec fn words(s: Seq<char>) -> Seq<Seq<char>> {
    words_from(s, 0)
}

proof fn lemma_first_space_from_bounds(s: Seq<char>, i: int)
    requires
        0 <= i <= s.len(),
    ensures
        i <= first_space_from(s, i) <= s.len(),
        first_space_from(s, i) < s.len() ==> is_white_space(s[first_space_from(s, i)]),
        forall|k: int| i <= k < first_space_from(s, i) ==> !is_white_space(s[k]),
    decreases s.len() - i,
{
    if i < s.len() && !is_white_space(s[i]) {
        lemma_first_space_from_bounds(s, i + 1);
    }
}

/// The index of the first occurrence of `c` in `s`, or the length of `s`.
pub fn find_char(s: &str, c: char) -> (r: usize)
    ensures
        r == first_from(s@, c, 0),
{
    let n = s.unicode_len();
    let mut i: usize = 0;
    while i < n && s.get_char(i) != c
        invariant
            n == s@.len(),
            i <= n,
            first_from(s@, c, 0) == first_from(s@, c, i as int),
        decreases n - i,
    {
        i = i + 1;
    }
    i
}

/// The index of the first operator character in `s`, or the length of `s`.
pub fn find_op_char(s: &str) -> (r: usize)
    ensures
        r == first_op_from(s@, 0),
{
    let n = s.unicode_len();
    let mut i: usize = 0;
    while i < n && !is_operator_char(s.get_char(i))
        invariant
            n == s@.len(),
            i <= n,
            first_op_from(s@, 0) == first_op_from(s@, i as int),
        decreases n - i,
    {
        i = i + 1;
    }
    i
}

/// Tells whether `c` stands for an arithmetic operator.
pub fn is_operator_char(c: char) -> (r: bool)
    ensures
        r == is_op_char(c),
{
    c == '+' || c == '-' || c == '*' || c == '/'
}

/// The index of the first white-space character of `s` at or after `i`, or
/// the length of `s`.
pub fn find_space_from(s: &str, i: usize) -> (r: usize)
    requires
        i <= s@.len(),
    ensures
        r == first_space_from(s@, i as int),
{
    let n = s.unicode_len();
    let mut j: usize = i;
    while j < n && !white_space(s.get_char(j))
        invariant
            n == s@.len(),
            i <= j <= n,
            first_space_from(s@, i as int) == first_space_from(s@, j as int),
        decreases n - j,
    {
        j = j + 1;
    }
    j
}

/// The index where the first `=>` of `s` starts, or the length of `s`.
pub fn find_arrow(s: &str) -> (r: usize)
    ensures
        r == first_arrow_from(s@, 0),
{
    let n = s.unicode_len();
    let mut i: usize = 0;
    while i < n && i + 1 < n && !(s.get_char(i) == '=' && s.get_char(i + 1) == '>')
        invariant
            n == s@.len(),
            i <= n,
            first_arrow_from(s@, 0) == first_arrow_from(s@, i as int),
        decreases n - i,
    {
        i = i + 1;
    }
    if i >= n || i + 1 >= n {
        n
    } else {
        i
    }
}

/// Whether `s` begins with the characters of `p`.
pub fn has_prefix(s: &str, p: &str) -> (r: bool)
    ensures
        r == starts_with(s@, p@),
{
    let n = s.unicode_len();
    let m = p.unicode_len();
    if m > n {
        return false;
    }
    let mut i: usize = 0;
    while i < m
        invariant
            n == s@.len(),
            m == p@.len(),
            m <= n,
            i <= m,
            forall|k: int| 0 <= k < i ==> s@[k] == p@[k],
        decreases m - i,
    {
        if s.get_char(i) != p.get_char(i) {
            assert(s@.subrange(0, m as int)[i as int] != p@[i as int]);
            return false;
        }
        i = i + 1;
    }
    assert(s@.subrange(0, m as int) =~= p@);
    true
}

/// The index of the first character of `s` at or after `i` that is not
/// white space, or the length of `s`.
pub fn skip_space_from(s: &str, i: usize) -> (r: usize)
    requires
        i <= s@.len(),
    ensures
        r == first_non_space_from(s@, i as int),
{
    let n = s.unicode_len();
    let mut j: usize = i;
    while j < n && white_space(s.get_char(j))
        invariant
            n == s@.len(),
            i <= j <= n,
            first_non_space_from(s@, i as int) == first_non_space_from(s@, j as int),
        decreases n - j,
    {
        j = j + 1;
    }
    j
}

proof fn lemma_first_non_space_from_bounds(s: Seq<char>, i: int)
    requires
        0 <= i <= s.len(),
    ensures
        i <= first_non_space_from(s, i) <= s.len(),
        first_non_space_from(s, i) < s.len() ==> !is_white_space(s[first_non_space_from(s, i)]),
    decreases s.len() - i,
{
    if i < s.len() && is_white_space(s[i]) {
        lemma_first_non_space_from_bounds(s, i + 1);
    }
}

/// Splits `s` into its words, the maximal runs of characters that are not
/// white space.
pub fn split_words<'a>(s: &'a str) -> (r: Vec<&'a str>)
    ensures
        r@.len() == words(s@).len(),
        forall|k: int| 0 <= k < r@.len() ==> (#[trigger] r@[k])@ == words(s@)[k],
{
    let n = s.unicode_len();
    let mut out: Vec<&'a str> = Vec::new();
    let mut i: usize = 0;
    let ghost done: Seq<Seq<char>> = Seq::empty();
    loop
        invariant
            n == s@.len(),
            i <= n,
            done.len() == out@.len(),
            forall|k: int| 0 <= k < out@.len() ==> (#[trigger] out@[k])@ == done[k],
            done + words_from(s@, i as int) == words(s@),
        decreases n - i,
    {
        let a = skip_space_from(s, i);
        proof {
            lemma_first_non_space_from_bounds(s@, i as int);
        }
        if a >= n {
            proof {
                assert(words_from(s@, i as int) =~= Seq::<Seq<char>>::empty());
                assert(done + words_from(s@, i as int) =~= done);
            }
            return out;
        }
        let b = find_space_from(s, a);
        proof {
            lemma_first_space_from_bounds(s@, a as int);
        }
        let w = s.substring_char(a, b);
        out.push(w);
        proof {
            assert(words_from(s@, i as int) == seq![s@.subrange(a as int, b as int)] + words_from(s@, b as int));
            assert(done.push(w@) + words_from(s@, b as int) =~= done + words_from(s@, i as int));
            done = done.push(w@);
        }
        i = b;
    }
}

/// What `first_from` finds: an index in bounds that holds `c`, or the length
/// of `s`.
pub proof fn lemma_first_from(s: Seq<char>, c: char, i: int)
    requires
        0 <= i <= s.len(),
    ensures
        i <= first_from(s, c, i) <= s.len(),
        first_from(s, c, i) < s.len() ==> s[first_from(s, c, i)] == c,
        forall|k: int| i <= k < first_from(s, c, i) ==> s[k] != c,
    decreases s.len() - i,
{
    if i < s.len() && s[i] != c {
        lemma_first_from(s, c, i + 1);
    }
}

/// What `first_op_from` finds: an index in bounds that holds an operator
/// character, or the length of `s`.
pub proof fn lemma_first_op_from(s: Seq<char>, i: int)
    requires
        0 <= i <= s.len(),
    ensures
        i <= first_op_from(s, i) <= s.len(),
        first_op_from(s, i) < s.len() ==> is_op_char(s[first_op_from(s, i)]),
    decreases s.len() - i,
{
    if i < s.len() && !is_op_char(s[i]) {
        lemma_first_op_from(s, i + 1);
    }
}

/// What `first_arrow_from` finds: an index where `=>` starts, or the length
/// of `s`.
pub proof fn lemma_first_arrow_from(s: Seq<char>, i: int)
    requires
        0 <= i <= s.len(),
    ensures
        i <= first_arrow_from(s, i) <= s.len(),
        first_arrow_from(s, i) + 1 < s.len() ==> s[first_arrow_from(s, i)] == '='
            && s[first_arrow_from(s, i) + 1] == '>',
        first_arrow_from(s, i) + 1 >= s.len() ==> first_arrow_from(s, i) == s.len(),
    decreases s.len() - i,
{
    if i + 1 < s.len() && !(s[i] == '=' && s[i + 1] == '>') {
        lemma_first_arrow_from(s, i + 1);
    }
}

/// A single character that is not white space is its own trimmed text.
pub proof fn lemma_trim_single(c: char)
    requires
        !is_white_space(c),
    ensures
        trim(seq![c]) == seq![c],
{
    lemma_trim_trimmed(seq![c]);
}

} // verus!

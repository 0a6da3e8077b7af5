//! Text as sequences of characters: splitting, trimming, searching and number formatting.
//!
//! The rest of the library states what it does to text over `Seq<char>`, the view of `str` and
//! `String`, with the specification functions of this module. The executable functions work on
//! `&[char]`, so an index is a position in that sequence.
use vstd::prelude::*;

verus! {

/// `String::push`: the string grows by exactly that character, at its end.
pub assume_specification[ String::push ](s: &mut String, c: char)
    ensures
        final(s)@ == old(s)@.push(c),
;

/// What a text is split at.
#[derive(Clone, Copy)]
pub enum Separator {
    /// One particular character.
    Is(char),
    /// Any ASCII white space character.
    AsciiSpace,
}

/// Space, tab, line feed, form feed and carriage return.
pub open spec fn ascii_space(c: char) -> bool {
    c == ' ' || c == '\t' || c == '\n' || c == '\x0C' || c == '\r'
}

/// The characters with the Unicode property `White_Space`.
pub open spec fn white_space(c: char) -> bool {
    let n = c as u32;
    ||| 0x09 <= n <= 0x0D
    ||| n == 0x20
    ||| n == 0x85
    ||| n == 0xA0
    ||| n == 0x1680
    ||| 0x2000 <= n <= 0x200A
    ||| n == 0x2028
    ||| n == 0x2029
    ||| n == 0x202F
    ||| n == 0x205F
    ||| n == 0x3000
}

impl Separator {
    /// Whether `c` separates.
    pub open spec fn separates(self, c: char) -> bool {
        match self {
            Separator::Is(x) => c == x,
            Separator::AsciiSpace => ascii_space(c),
        }
    }
}

/// The pieces of `s` between separators; always at least one piece, pieces may be empty.
pub open spec fn split(s: Seq<char>, at: Separator) -> Seq<Seq<char>>
    decreases s.len(),
{
    if s.len() == 0 {
        seq![Seq::empty()]
    } else {
        let init = split(s.drop_last(), at);
        if at.separates(s.last()) {
            init.push(Seq::empty())
        } else {
            init.drop_last().push(init.last().push(s.last()))
        }
    }
}

/// Whether a piece of text holds anything.
pub open spec fn non_empty() -> spec_fn(Seq<char>) -> bool {
    |w: Seq<char>| w.len() > 0
}

/// The non-empty pieces of `s` between ASCII white space.
pub open spec fn words(s: Seq<char>) -> Seq<Seq<char>> {
    split(s, Separator::AsciiSpace).filter(non_empty())
}

/// `s` without the ASCII white space at its front.
pub open spec fn from_word(s: Seq<char>) -> Seq<char>
    decreases s.len(),
{
    if s.len() > 0 && ascii_space(s[0]) {
        from_word(s.skip(1))
    } else {
        s
    }
}

/// `s` from its first ASCII white space on.
pub open spec fn from_space(s: Seq<char>) -> Seq<char>
    decreases s.len(),
{
    if s.len() > 0 && !ascii_space(s[0]) {
        from_space(s.skip(1))
    } else {
        s
    }
}

/// What stands in `s` behind its first `n` words, without the white space in front of it.
pub open spec fn behind(s: Seq<char>, n: nat) -> Seq<char>
    decreases n,
{
    if n == 0 {
        from_word(s)
    } else {
        behind(from_space(from_word(s)), (n - 1) as nat)
    }
}

/// The lines of a text. A line feed ends a line, with the carriage return in front of it if
/// there is one; the last line may do without.
pub open spec fn lines(s: Seq<char>) -> Seq<Seq<char>> {
    let p = split(s, Separator::Is('\n'));
    let ended = p.drop_last().map_values(|l: Seq<char>| without_return(l));
    if p.last().len() == 0 {
        ended
    } else {
        ended.push(p.last())
    }
}

/// A line without the carriage return at its end.
pub open spec fn without_return(l: Seq<char>) -> Seq<char> {
    if l.len() > 0 && l.last() == '\r' {
        l.drop_last()
    } else {
        l
    }
}

/// `s` without the white space at its end.
pub open spec fn trim_end(s: Seq<char>) -> Seq<char>
    decreases s.len(),
{
    if s.len() > 0 && white_space(s.last()) {
        trim_end(s.drop_last())
    } else {
        s
    }
}

/// `s` without the white space at its start.
pub open spec fn trim_start(s: Seq<char>) -> Seq<char>
    decreases s.len(),
{
    if s.len() > 0 && white_space(s.first()) {
        trim_start(s.drop_first())
    } else {
        s
    }
}

/// `s` without the white space at both ends.
pub open spec fn trim(s: Seq<char>) -> Seq<char> {
    trim_start(trim_end(s))
}

/// Whether `needle` stands in `s` at position `i`.
pub open spec fn occurs_at(s: Seq<char>, needle: Seq<char>, i: int) -> bool {
    0 <= i <= s.len() - needle.len() && s.subrange(i, i + needle.len()) == needle
}

/// Whether `needle` stands anywhere in `s`.
pub open spec fn contains(s: Seq<char>, needle: Seq<char>) -> bool {
    exists|i: int| occurs_at(s, needle, i)
}

/// The first position from `from` on at which `needle` stands in `s`.
pub open spec fn find_from(s: Seq<char>, needle: Seq<char>, from: int) -> Option<int>
    decreases s.len() - from + 1,
{
    if from < 0 || from > s.len() - needle.len() {
        None
    } else if occurs_at(s, needle, from) {
        Some(from)
    } else {
        find_from(s, needle, from + 1)
    }
}

/// The ASCII lower case of a character; other characters stay.
pub open spec fn lower_char(c: char) -> char {
    if 'A' <= c && c <= 'Z' {
        ((c as u32) + 32) as char
    } else {
        c
    }
}

/// The ASCII lower case of a text.
pub open spec fn lower(s: Seq<char>) -> Seq<char> {
    s.map_values(|c: char| lower_char(c))
}

/// The decimal digit of a number below ten.
pub open spec fn digit(d: nat) -> char {
    (48 + d) as char
}

/// A number in decimal, without leading zeros.
pub open spec fn decimal(n: nat) -> Seq<char>
    decreases n,
{
    if n < 10 {
        seq![digit(n)]
    } else {
        decimal(n / 10).push(digit(n % 10))
    }
}

/// A quotient, rounded to the nearest; halves go to the even number.
pub open spec fn rounded(n: int, d: int) -> int {
    let (q, rest) = (n / d, n % d);
    if 2 * rest > d || (2 * rest == d && q % 2 == 1) {
        q + 1
    } else {
        q
    }
}

/// A quotient, rounded to the nearest; halves go to the even number.
pub(crate) fn rounded_quotient(n: u128, d: u128) -> (r: u128)
    requires
        d > 0,
    ensures
        r == rounded(n as int, d as int),
        r <= n / d + 1,
        r <= n,
{
    let q: u128 = n / d;
    let rest: u128 = n % d;
    proof {
        vstd::arithmetic::div_mod::lemma_fundamental_div_mod(n as int, d as int);
        vstd::arithmetic::div_mod::lemma_mod_bound(n as int, d as int);
        assert(rest > 0 ==> q + 1 <= n) by (nonlinear_arith)
            requires
                n == d * q + rest,
                rest < d,
                d > 0,
        ;
        assert(q <= n) by (nonlinear_arith)
            requires
                n == d * q + rest,
                rest >= 0,
                d > 0,
        ;
    }
    if rest > d - rest || (rest == d - rest && q % 2 == 1) {
        q + 1
    } else {
        q
    }
}

/// `true` or `false`.
pub open spec fn bool_text(b: bool) -> Seq<char> {
    if b {
        "true"@
    } else {
        "false"@
    }
}

/// How `Debug` shows a string: in double quotes, with escapes.
pub uninterp spec fn debug_of(s: Seq<char>) -> Seq<char>;

/// Printable ASCII in which nothing needs an escape.
pub open spec fn plain(s: Seq<char>) -> bool {
    forall|i: int| 0 <= i < s.len() ==> ' ' <= #[trigger] s[i] <= '~' && s[i] != '"' && s[i] != '\\'
}

/// A text in double quotes.
pub open spec fn in_quotes(s: Seq<char>) -> Seq<char> {
    seq!['"'] + s + seq!['"']
}

/// Shows a string as `Debug` does.
///
/// This is std's `{:?}` formatting of `str`. The result is named; printable ASCII without a
/// double quote and a backslash comes out between double quotes as it is.
#[verifier::external_body]
pub(crate) fn debug_text(s: &str) -> (r: String)
    ensures
        r@ == debug_of(s@),
        plain(s@) ==> r@ == in_quotes(s@),
{
    format!("{:?}", s)
}

/// The texts that a list of character vectors holds.
pub open spec fn texts(v: Seq<Vec<char>>) -> Seq<Seq<char>> {
    Seq::new(v.len(), |i: int| v[i]@)
}

/// The texts that a list of strings holds.
pub open spec fn strings(v: Seq<String>) -> Seq<Seq<char>> {
    Seq::new(v.len(), |i: int| v[i]@)
}

/// The text that an optional string holds.
pub open spec fn opt_text(s: Option<String>) -> Option<Seq<char>> {
    match s {
        Some(t) => Some(t@),
        None => None,
    }
}

/// The text that an optional string slice holds.
pub open spec fn opt_str(s: Option<&str>) -> Option<Seq<char>> {
    match s {
        Some(t) => Some(t@),
        None => None,
    }
}

/// The characters of `s`, in order.
pub fn chars_of(s: &str) -> (r: Vec<char>)
    ensures
        r@ == s@,
{
    let mut out: Vec<char> = Vec::new();
    for c in it: s.chars()
        invariant
            it.seq() == s@,
            out@ == s@.take(it.index() as int),
    {
        out.push(c);
    }
    out
}

/// The string made of `chars`.
pub fn string_of(chars: &[char]) -> (r: String)
    ensures
        r@ == chars@,
{
    let mut out = String::new();
    for i in 0..chars.len()
        invariant
            out@ == chars@.take(i as int),
    {
        out.push(chars[i]);
        assert(chars@.take(i + 1) =~= chars@.take(i as int).push(chars@[i as int]));
    }
    assert(chars@.take(chars@.len() as int) =~= chars@);
    out
}

/// Whether a string slice is empty.
pub fn is_empty(s: &str) -> (r: bool)
    ensures
        r == (s@.len() == 0),
{
    let chars = chars_of(s);
    chars.len() == 0
}

/// `true` or `false`.
pub fn bool_str(b: bool) -> (r: &'static str)
    ensures
        r@ == bool_text(b),
{
    if b {
        "true"
    } else {
        "false"
    }
}

/// Whether two texts are the same.
pub fn same(a: &[char], b: &[char]) -> (r: bool)
    ensures
        r == (a@ == b@),
{
    if a.len() != b.len() {
        return false;
    }
    for i in 0..a.len()
        invariant
            a@.len() == b@.len(),
            a@.take(i as int) == b@.take(i as int),
    {
        if a[i] != b[i] {
            assert(a@[i as int] != b@[i as int]);
            return false;
        }
        assert(a@.take(i + 1) =~= a@.take(i as int).push(a@[i as int]));
        assert(b@.take(i + 1) =~= b@.take(i as int).push(b@[i as int]));
    }
    assert(a@.take(a@.len() as int) =~= a@);
    assert(b@.take(b@.len() as int) =~= b@);
    true
}

/// Whether two string slices hold the same text.
pub fn same_str(a: &str, b: &str) -> (r: bool)
    ensures
        r == (a@ == b@),
{
    let x = chars_of(a);
    let y = chars_of(b);
    same(x.as_slice(), y.as_slice())
}

/// An owned copy of `s`.
pub fn copy_of(s: &[char]) -> (r: Vec<char>)
    ensures
        r@ == s@,
{
    let mut out: Vec<char> = Vec::new();
    for i in 0..s.len()
        invariant
            out@ == s@.take(i as int),
    {
        out.push(s[i]);
        assert(s@.take(i + 1) =~= s@.take(i as int).push(s@[i as int]));
    }
    assert(s@.take(s@.len() as int) =~= s@);
    out
}

/// Appends `s` to `out`.
pub fn push_all(out: &mut Vec<char>, s: &[char])
    ensures
        final(out)@ == old(out)@ + s@,
{
    let ghost before = out@;
    for i in 0..s.len()
        invariant
            out@ == before + s@.take(i as int),
    {
        out.push(s[i]);
        assert(s@.take(i + 1) =~= s@.take(i as int).push(s@[i as int]));
    }
    assert(s@.take(s@.len() as int) =~= s@);
}

/// Appends the text of `s` to `out`.
pub fn push_str(out: &mut Vec<char>, s: &str)
    ensures
        final(out)@ == old(out)@ + s@,
{
    let t = chars_of(s);
    push_all(out, t.as_slice());
}

/// Whether `c` is ASCII white space.
pub fn is_ascii_space(c: char) -> (r: bool)
    ensures
        r == ascii_space(c),
{
    c == ' ' || c == '\t' || c == '\n' || c == '\x0C' || c == '\r'
}

/// Whether `c` has the Unicode property `White_Space`.
pub fn is_white_space(c: char) -> (r: bool)
    ensures
        r == white_space(c),
{
    let n: u32 = c as u32;
    (0x09 <= n && n <= 0x0D) || n == 0x20 || n == 0x85 || n == 0xA0 || n == 0x1680 || (0x2000 <= n
        && n <= 0x200A) || n == 0x2028 || n == 0x2029 || n == 0x202F || n == 0x205F || n == 0x3000
}

/// Splitting always leaves at least one piece.
pub proof fn lemma_split_nonempty(s: Seq<char>, at: Separator)
    ensures
        split(s, at).len() >= 1,
    decreases s.len(),
{
    if s.len() > 0 {
        lemma_split_nonempty(s.drop_last(), at);
    }
}

/// `s` holds no separator.
pub open spec fn unbroken(s: Seq<char>, at: Separator) -> bool {
    forall|i: int| 0 <= i < s.len() ==> !at.separates(#[trigger] s[i])
}

/// `s` is a word: not empty and without ASCII white space.
pub open spec fn is_word(s: Seq<char>) -> bool {
    s.len() > 0 && unbroken(s, Separator::AsciiSpace)
}

/// No piece holds a separator.
pub proof fn lemma_pieces_unbroken(s: Seq<char>, at: Separator)
    ensures
        forall|i: int| 0 <= i < split(s, at).len() ==> unbroken(#[trigger] split(s, at)[i], at),
    decreases s.len(),
{
    if s.len() > 0 {
        lemma_split_nonempty(s.drop_last(), at);
        lemma_pieces_unbroken(s.drop_last(), at);
        let init = split(s.drop_last(), at);
        assert(unbroken(init.last(), at));
    }
}

/// A text without a separator is one piece.
pub proof fn lemma_split_unbroken(s: Seq<char>, at: Separator)
    requires
        unbroken(s, at),
    ensures
        split(s, at) == seq![s],
    decreases s.len(),
{
    if s.len() > 0 {
        let init = s.drop_last();
        assert forall|i: int| 0 <= i < init.len() implies !at.separates(#[trigger] init[i]) by {
            assert(!at.separates(s[i]));
        }
        lemma_split_unbroken(init, at);
        assert(!at.separates(s[s.len() - 1]));
        assert(init.push(s.last()) =~= s);
        assert(split(s, at) =~= seq![s]);
    } else {
        assert(s =~= Seq::empty());
    }
}

/// Splitting at a separator splits both sides on their own.
pub proof fn lemma_split_concat(a: Seq<char>, c: char, b: Seq<char>, at: Separator)
    requires
        at.separates(c),
    ensures
        split(a.push(c) + b, at) == split(a, at) + split(b, at),
    decreases b.len(),
{
    let whole = a.push(c) + b;
    if b.len() == 0 {
        assert(whole =~= a.push(c));
        assert(a.push(c).drop_last() =~= a);
        assert(split(whole, at) =~= split(a, at) + split(b, at));
    } else {
        let init = b.drop_last();
        lemma_split_concat(a, c, init, at);
        lemma_split_nonempty(init, at);
        assert(whole.drop_last() =~= a.push(c) + init);
        assert(whole.last() == b.last());
        assert((split(a, at) + split(init, at)).drop_last() =~= split(a, at) + split(
            init,
            at,
        ).drop_last());
        assert(split(whole, at) =~= split(a, at) + split(b, at));
    }
}

/// The words of a text are words.
pub proof fn lemma_words_are_words(s: Seq<char>)
    ensures
        forall|i: int| 0 <= i < words(s).len() ==> is_word(#[trigger] words(s)[i]),
{
    let pieces = split(s, Separator::AsciiSpace);
    lemma_pieces_unbroken(s, Separator::AsciiSpace);
    lemma_filter_keeps(pieces, non_empty());
    assert forall|i: int| 0 <= i < words(s).len() implies is_word(#[trigger] words(s)[i]) by {
        let k = choose|k: int| 0 <= k < pieces.len() && pieces[k] == words(s)[i];
        assert(unbroken(pieces[k], Separator::AsciiSpace));
    }
}

/// What a filter keeps was there before and passes the filter.
pub proof fn lemma_filter_keeps<A>(s: Seq<A>, keep: spec_fn(A) -> bool)
    ensures
        forall|i: int|
            0 <= i < s.filter(keep).len() ==> keep(#[trigger] s.filter(keep)[i]) && s.contains(
                s.filter(keep)[i],
            ),
    decreases s.len(),
{
    reveal_with_fuel(Seq::filter, 1);
    if s.len() > 0 {
        let q = s.drop_last();
        lemma_filter_keeps(q, keep);
        assert forall|i: int| 0 <= i < s.filter(keep).len() implies keep(
            #[trigger] s.filter(keep)[i],
        ) && s.contains(s.filter(keep)[i]) by {
            if i < q.filter(keep).len() {
                assert(q.filter(keep)[i] == s.filter(keep)[i]);
                let k = choose|k: int| 0 <= k < q.len() && q[k] == q.filter(keep)[i];
                assert(s[k] == s.filter(keep)[i]);
            } else {
                assert(s[s.len() - 1] == s.filter(keep)[i]);
            }
        }
    }
}

/// A word in front of white space is the first of the words.
pub proof fn lemma_first_word(w: Seq<char>, c: char, rest: Seq<char>)
    requires
        is_word(w),
        ascii_space(c),
    ensures
        words(w.push(c) + rest) == seq![w] + words(rest),
{
    lemma_split_concat(w, c, rest, Separator::AsciiSpace);
    lemma_split_unbroken(w, Separator::AsciiSpace);
    Seq::filter_distributes_over_add(
        seq![w],
        split(rest, Separator::AsciiSpace),
        non_empty(),
    );
    lemma_filter_one(w);
}

/// A word on its own is the only word.
pub proof fn lemma_only_word(w: Seq<char>)
    requires
        is_word(w),
    ensures
        words(w) == seq![w],
{
    lemma_split_unbroken(w, Separator::AsciiSpace);
    lemma_filter_one(w);
}

proof fn lemma_filter_one(w: Seq<char>)
    requires
        w.len() > 0,
    ensures
        seq![w].filter(non_empty()) == seq![w],
{
    reveal_with_fuel(Seq::filter, 2);
    assert(seq![w].drop_last() =~= Seq::<Seq<char>>::empty());
    assert(seq![w].filter(non_empty()) =~= seq![w]);
}

proof fn lemma_from_space_word(w: Seq<char>, t: Seq<char>)
    requires
        unbroken(w, Separator::AsciiSpace),
        t.len() > 0 ==> ascii_space(t[0]),
    ensures
        from_space(w + t) == t,
    decreases w.len(),
{
    let s = w + t;
    if w.len() == 0 {
        assert(s =~= t);
    } else {
        let rest = w.skip(1);
        assert(!Separator::AsciiSpace.separates(w[0]));
        assert forall|i: int| 0 <= i < rest.len() implies !Separator::AsciiSpace.separates(
            #[trigger] rest[i],
        ) by {
            assert(!Separator::AsciiSpace.separates(w[i + 1]));
        }
        assert(s.skip(1) =~= rest + t);
        lemma_from_space_word(rest, t);
    }
}

/// Behind a word, white space and `t`, one word fewer is to be passed in `t`.
pub proof fn lemma_behind_word(w: Seq<char>, c: char, t: Seq<char>, n: nat)
    requires
        is_word(w),
        ascii_space(c),
        n > 0,
    ensures
        behind(w.push(c) + t, n) == behind(t, (n - 1) as nat),
{
    let s = w.push(c) + t;
    let left = seq![c] + t;
    assert(s =~= w + left);
    assert(!Separator::AsciiSpace.separates(w[0]));
    assert(from_word(s) == s);
    lemma_from_space_word(w, left);
    assert(left.skip(1) =~= t);
    assert(from_word(left) == from_word(t));
    reveal_with_fuel(behind, 2);
    assert(behind(s, n) == behind(left, (n - 1) as nat));
}

/// Behind a single word there is nothing.
pub proof fn lemma_behind_only_word(w: Seq<char>)
    requires
        is_word(w),
    ensures
        behind(w, 1) == Seq::<char>::empty(),
{
    assert(!Separator::AsciiSpace.separates(w[0]));
    assert(w + Seq::<char>::empty() =~= w);
    lemma_from_space_word(w, Seq::empty());
    reveal_with_fuel(behind, 2);
}

proof fn lemma_from_word_suffix(s: Seq<char>)
    ensures
        from_word(s).len() <= s.len(),
        from_word(s) == s.skip(s.len() - from_word(s).len()),
        from_word(from_word(s)) == from_word(s),
    decreases s.len(),
{
    if s.len() > 0 && ascii_space(s[0]) {
        lemma_from_word_suffix(s.skip(1));
        assert(s.skip(1).skip(s.len() - 1 - from_word(s).len()) =~= s.skip(
            s.len() - from_word(s).len(),
        ));
    } else {
        assert(s.skip(0) =~= s);
    }
}

proof fn lemma_from_space_suffix(s: Seq<char>)
    ensures
        from_space(s).len() <= s.len(),
        from_space(s) == s.skip(s.len() - from_space(s).len()),
    decreases s.len(),
{
    if s.len() > 0 && !ascii_space(s[0]) {
        lemma_from_space_suffix(s.skip(1));
        assert(s.skip(1).skip(s.len() - 1 - from_space(s).len()) =~= s.skip(
            s.len() - from_space(s).len(),
        ));
    } else {
        assert(s.skip(0) =~= s);
    }
}

/// What stands behind some words is the end of the text, without white space in front.
pub proof fn lemma_behind_suffix(s: Seq<char>, n: nat)
    ensures
        behind(s, n).len() <= s.len(),
        behind(s, n) == s.skip(s.len() - behind(s, n).len()),
        behind(behind(s, n), 0) == behind(s, n),
    decreases n,
{
    lemma_from_word_suffix(s);
    if n > 0 {
        let a = from_word(s);
        let b = from_space(a);
        lemma_from_space_suffix(a);
        lemma_behind_suffix(b, (n - 1) as nat);
        assert(b.skip(b.len() - behind(s, n).len()) =~= s.skip(s.len() - behind(s, n).len()));
    }
}

/// Where what stands behind the first `n` words starts.
pub fn position_behind(s: &[char], n: usize) -> (r: usize)
    ensures
        r <= s@.len(),
        s@.skip(r as int) == behind(s@, n as nat),
{
    let mut at: usize = 0;
    let mut left: usize = n;
    assert(s@.skip(0) =~= s@);
    loop
        invariant
            at <= s@.len(),
            left <= n,
            behind(s@.skip(at as int), left as nat) == behind(s@, n as nat),
        ensures
            at <= s@.len(),
            s@.skip(at as int) == behind(s@, n as nat),
        decreases left,
    {
        let ghost here = s@.skip(at as int);
        while at < s.len() && is_ascii_space(s[at])
            invariant
                at <= s@.len(),
                from_word(s@.skip(at as int)) == from_word(here),
            decreases s@.len() - at,
        {
            assert(s@.skip(at as int).skip(1) =~= s@.skip(at + 1));
            at = at + 1;
        }
        assert(s@.skip(at as int) == from_word(here));
        if left == 0 {
            break;
        }
        let ghost word = s@.skip(at as int);
        while at < s.len() && !is_ascii_space(s[at])
            invariant
                at <= s@.len(),
                from_space(s@.skip(at as int)) == from_space(word),
            decreases s@.len() - at,
        {
            assert(s@.skip(at as int).skip(1) =~= s@.skip(at + 1));
            at = at + 1;
        }
        assert(s@.skip(at as int) == from_space(word));
        left = left - 1;
    }
    at
}

/// What is found from the left stands there.
pub proof fn lemma_find_found(s: Seq<char>, needle: Seq<char>, from: int)
    ensures
        find_from(s, needle, from) matches Some(i) ==> from <= i && occurs_at(s, needle, i),
    decreases s.len() - from + 1,
{
    if 0 <= from <= s.len() - needle.len() && !occurs_at(s, needle, from) {
        lemma_find_found(s, needle, from + 1);
    }
}

/// A character that does not separate stands in a piece if it stands in the text.
pub proof fn lemma_pieces_have_char(s: Seq<char>, at: Separator, c: char)
    requires
        !at.separates(c),
        s.contains(c),
    ensures
        exists|k: int| 0 <= k < split(s, at).len() && (#[trigger] split(s, at)[k]).contains(c),
    decreases s.len(),
{
    let init = s.drop_last();
    let a = split(init, at);
    let b = split(s, at);
    lemma_split_nonempty(init, at);
    if s.last() == c {
        let p = b[b.len() - 1];
        assert(p[p.len() - 1] == c);
        assert(b[b.len() - 1].contains(c));
    } else {
        let i = choose|i: int| 0 <= i < s.len() && s[i] == c;
        assert(init[i] == c);
        lemma_pieces_have_char(init, at, c);
        let k = choose|k: int| 0 <= k < a.len() && (#[trigger] a[k]).contains(c);
        if k < a.len() - 1 || at.separates(s.last()) {
            assert(b[k] == a[k]);
        } else {
            let j = choose|j: int| 0 <= j < a[k].len() && a[k][j] == c;
            assert(b[k][j] == c);
        }
        assert(b[k].contains(c));
    }
}

/// Splits `s` at every separator.
pub fn split_at(s: &[char], at: Separator) -> (r: Vec<Vec<char>>)
    ensures
        texts(r@) == split(s@, at),
{
    let mut done: Vec<Vec<char>> = Vec::new();
    let mut cur: Vec<char> = Vec::new();
    assert(s@.take(0) =~= Seq::<char>::empty());
    assert(texts(done@).push(cur@) =~= split(s@.take(0), at));
    for i in 0..s.len()
        invariant
            texts(done@).push(cur@) == split(s@.take(i as int), at),
    {
        let c = s[i];
        let ghost before = texts(done@);
        let ghost word = cur@;
        assert(s@.take(i + 1).drop_last() =~= s@.take(i as int));
        let hit = match at {
            Separator::Is(x) => c == x,
            Separator::AsciiSpace => is_ascii_space(c),
        };
        if hit {
            done.push(cur);
            assert(texts(done@) =~= before.push(word));
            cur = Vec::new();
        } else {
            cur.push(c);
            assert(before.push(word).drop_last() =~= before);
        }
        assert(texts(done@).push(cur@) =~= split(s@.take(i + 1), at));
    }
    let ghost before = texts(done@);
    let ghost word = cur@;
    done.push(cur);
    assert(s@.take(s@.len() as int) =~= s@);
    assert(texts(done@) =~= before.push(word));
    done
}

/// Keeps the non-empty texts.
pub fn keep_non_empty(v: Vec<Vec<char>>) -> (r: Vec<Vec<char>>)
    ensures
        texts(r@) == texts(v@).filter(non_empty()),
{
    let mut out: Vec<Vec<char>> = Vec::new();
    let ghost all = texts(v@);
    assert(all.take(0) =~= Seq::empty());
    proof {
        reveal_with_fuel(Seq::filter, 1);
    }
    assert(texts(out@) =~= all.take(0).filter(non_empty()));
    for i in 0..v.len()
        invariant
            all == texts(v@),
            texts(out@) == all.take(i as int).filter(non_empty()),
    {
        let ghost before = texts(out@);
        assert(all.take(i + 1).drop_last() =~= all.take(i as int));
        assert(all.take(i + 1).last() == v@[i as int]@);
        proof {
            reveal_with_fuel(Seq::filter, 1);
        }
        if v[i].len() > 0 {
            let w = copy_of(v[i].as_slice());
            out.push(w);
            assert(texts(out@) =~= before.push(v@[i as int]@));
        }
    }
    assert(all.take(all.len() as int) =~= all);
    out
}

/// The words of `s`.
pub fn words_of(s: &[char]) -> (r: Vec<Vec<char>>)
    ensures
        texts(r@) == words(s@),
{
    keep_non_empty(split_at(s, Separator::AsciiSpace))
}

/// The lines of `s`.
pub fn lines_of(s: &str) -> (r: Vec<Vec<char>>)
    ensures
        texts(r@) == lines(s@),
{
    let chars = chars_of(s);
    let pieces = split_at(chars.as_slice(), Separator::Is('\n'));
    let ghost all = texts(pieces@);
    proof {
        lemma_split_nonempty(s@, Separator::Is('\n'));
    }
    let n = pieces.len() - 1;
    let mut out: Vec<Vec<char>> = Vec::new();
    for i in 0..n
        invariant
            all == texts(pieces@),
            n == pieces@.len() - 1,
            out@.len() == i,
            forall|j: int| 0 <= j < i ==> (#[trigger] out@[j])@ == without_return(all[j]),
    {
        let p = &pieces[i];
        if p.len() > 0 && p[p.len() - 1] == '\r' {
            let line = part(p.as_slice(), 0, p.len() - 1);
            assert(line@ =~= all[i as int].drop_last());
            out.push(line);
        } else {
            out.push(copy_of(p.as_slice()));
        }
    }
    let ghost ended = all.drop_last().map_values(|l: Seq<char>| without_return(l));
    assert(texts(out@) =~= ended);
    assert(all.last() == pieces@[n as int]@);
    if pieces[n].len() > 0 {
        let last = copy_of(pieces[n].as_slice());
        out.push(last);
        assert(texts(out@) =~= ended.push(all.last()));
    }
    out
}

/// The part of `s` from `from` up to `to`.
pub fn part(s: &[char], from: usize, to: usize) -> (r: Vec<char>)
    requires
        from <= to <= s@.len(),
    ensures
        r@ == s@.subrange(from as int, to as int),
{
    let mut out: Vec<char> = Vec::new();
    for i in from..to
        invariant
            from <= to <= s@.len(),
            out@ == s@.subrange(from as int, i as int),
    {
        out.push(s[i]);
        assert(s@.subrange(from as int, i + 1) =~= s@.subrange(from as int, i as int).push(
            s@[i as int],
        ));
    }
    out
}

/// Whether `needle` stands in `s` at position `i`.
pub fn is_at(s: &[char], needle: &[char], i: usize) -> (r: bool)
    ensures
        r == occurs_at(s@, needle@, i as int),
{
    if needle.len() > s.len() || i > s.len() - needle.len() {
        return false;
    }
    for k in 0..needle.len()
        invariant
            i + needle.len() <= s.len(),
            forall|j: int| 0 <= j < k ==> s@[i + j] == needle@[j],
    {
        if s[i + k] != needle[k] {
            assert(s@.subrange(i as int, i + needle@.len())[k as int] != needle@[k as int]);
            return false;
        }
    }
    assert(s@.subrange(i as int, i + needle@.len()) =~= needle@);
    true
}

/// Whether `s` starts with `prefix`.
pub fn starts_with(s: &[char], prefix: &str) -> (r: bool)
    ensures
        r == prefix@.is_prefix_of(s@),
{
    let p = chars_of(prefix);
    is_at(s, p.as_slice(), 0)
}

/// Whether `needle` stands anywhere in `s`.
pub fn has(s: &[char], needle: &[char]) -> (r: bool)
    ensures
        r == contains(s@, needle@),
{
    if needle.len() > s.len() {
        return false;
    }
    let top = s.len() - needle.len();
    let mut i: usize = 0;
    while i <= top
        invariant
            top == s@.len() - needle@.len(),
            0 <= i <= top + 1,
            forall|j: int| 0 <= j < i ==> !occurs_at(s@, needle@, j),
        decreases top + 1 - i,
    {
        if is_at(s, needle, i) {
            return true;
        }
        if i == top {
            assert forall|j: int| !occurs_at(s@, needle@, j) by {
            }
            return false;
        }
        i = i + 1;
    }
    false
}

/// Whether `needle` stands anywhere in `s`.
pub fn has_str(s: &str, needle: &str) -> (r: bool)
    ensures
        r == contains(s@, needle@),
{
    let a = chars_of(s);
    let b = chars_of(needle);
    has(a.as_slice(), b.as_slice())
}

/// Whether the character `c` stands anywhere in `s`.
pub fn has_char(s: &[char], c: char) -> (r: bool)
    ensures
        r == s@.contains(c),
{
    for i in 0..s.len()
        invariant
            forall|j: int| 0 <= j < i ==> s@[j] != c,
    {
        if s[i] == c {
            return true;
        }
    }
    false
}

/// The first position at which `needle` stands in `s`.
pub fn first_position(s: &[char], needle: &[char]) -> (r: Option<usize>)
    ensures
        match r {
            Some(i) => find_from(s@, needle@, 0) == Some(i as int) && i + needle@.len() <= s@.len(),
            None => find_from(s@, needle@, 0) is None,
        },
{
    if needle.len() > s.len() {
        return None;
    }
    let top = s.len() - needle.len();
    let mut i: usize = 0;
    loop
        invariant
            top == s@.len() - needle@.len(),
            0 <= i <= top,
            find_from(s@, needle@, 0) == find_from(s@, needle@, i as int),
        decreases top - i,
    {
        if is_at(s, needle, i) {
            return Some(i);
        }
        if i == top {
            assert(find_from(s@, needle@, i + 1) is None);
            return None;
        }
        i = i + 1;
    }
}

/// `s` without the white space at its end.
pub fn trimmed_end(s: &[char]) -> (r: Vec<char>)
    ensures
        r@ == trim_end(s@),
{
    let mut n = s.len();
    assert(s@.subrange(0, n as int) =~= s@);
    while n > 0 && is_white_space(s[n - 1])
        invariant
            n <= s@.len(),
            trim_end(s@) == trim_end(s@.subrange(0, n as int)),
        decreases n,
    {
        assert(s@.subrange(0, n as int).drop_last() =~= s@.subrange(0, n - 1));
        n = n - 1;
    }
    part(s, 0, n)
}

/// `s` without the white space at both ends.
pub fn trimmed(s: &[char]) -> (r: Vec<char>)
    ensures
        r@ == trim(s@),
{
    let t = trimmed_end(s);
    let mut n: usize = 0;
    assert(t@.subrange(0, t@.len() as int) =~= t@);
    while n < t.len() && is_white_space(t[n])
        invariant
            n <= t@.len(),
            trim_start(t@) == trim_start(t@.subrange(n as int, t@.len() as int)),
        decreases t@.len() - n,
    {
        assert(t@.subrange(n as int, t@.len() as int).drop_first() =~= t@.subrange(
            n + 1,
            t@.len() as int,
        ));
        n = n + 1;
    }
    part(t.as_slice(), n, t.len())
}

/// The ASCII lower case of `s`.
pub fn lower_case(s: &[char]) -> (r: Vec<char>)
    ensures
        r@ == lower(s@),
{
    let mut out: Vec<char> = Vec::new();
    for i in 0..s.len()
        invariant
            out@.len() == i,
            forall|j: int| 0 <= j < i ==> out@[j] == lower_char(s@[j]),
    {
        let c = s[i];
        if 'A' <= c && c <= 'Z' {
            let n: u8 = c as u8;
            out.push((n + 32) as char);
        } else {
            out.push(c);
        }
    }
    assert(out@ =~= lower(s@));
    out
}

/// Appends a decimal number to `out`.
pub fn push_decimal(out: &mut String, n: u64)
    ensures
        final(out)@ == old(out)@ + decimal(n as nat),
    decreases n,
{
    let ghost before = out@;
    if n >= 10 {
        push_decimal(out, n / 10);
    }
    let d: u8 = (n % 10) as u8;
    out.push((48 + d) as char);
    assert(out@ =~= before + decimal(n as nat));
}

/// A number in decimal.
pub fn decimal_string(n: u64) -> (r: String)
    ensures
        r@ == decimal(n as nat),
{
    let mut out = String::new();
    push_decimal(&mut out, n);
    assert(out@ =~= decimal(n as nat));
    out
}

/// Rounding gives the nearest whole number.
pub proof fn rounding_is_to_the_nearest(n: int, d: int, q: int)
    requires
        n >= 0,
        d > 0,
        -d < 2 * (q * d - n) < d,
    ensures
        rounded(n, d) == q,
{
    vstd::arithmetic::div_mod::lemma_fundamental_div_mod(n, d);
    let p = n / d;
    let rest = n % d;
    assert(d * p == p * d) by (nonlinear_arith);
    assert((q - p) * d == q * d - p * d) by (nonlinear_arith);
    assert(q - p == 0 || q - p == 1) by (nonlinear_arith)
        requires
            -d < 2 * ((q - p) * d - rest) < d,
            0 <= rest < d,
    ;
    assert(q == p || q == p + 1);
    assert((p + 1) * d == p * d + d) by (nonlinear_arith);
}

/// Of two whole numbers that are equally near, rounding gives the even one.
pub proof fn halves_go_to_the_even_number(n: int, d: int)
    requires
        n >= 0,
        d > 0,
        2 * (n % d) == d,
    ensures
        rounded(n, d) % 2 == 0,
        2 * (rounded(n, d) * d - n) == d || 2 * (rounded(n, d) * d - n) == -d,
{
    vstd::arithmetic::div_mod::lemma_fundamental_div_mod(n, d);
    let p = n / d;
    assert(d * p == p * d) by (nonlinear_arith);
    assert((p + 1) * d == p * d + d) by (nonlinear_arith);
}

/// Pieces with `c` between each two.
pub open spec fn joined(pieces: Seq<Seq<char>>, c: char) -> Seq<char>
    decreases pieces.len(),
{
    if pieces.len() == 0 {
        Seq::empty()
    } else if pieces.len() == 1 {
        pieces[0]
    } else {
        joined(pieces.drop_last(), c).push(c) + pieces.last()
    }
}

/// Splitting loses nothing: the pieces, with the separator between them, are the text again.
pub proof fn pieces_join_to_the_text(s: Seq<char>, c: char)
    ensures
        joined(split(s, Separator::Is(c)), c) == s,
    decreases s.len(),
{
    reveal_with_fuel(joined, 2);
    let at = Separator::Is(c);
    let all = split(s, at);
    if s.len() > 0 {
        let init = split(s.drop_last(), at);
        lemma_split_nonempty(s.drop_last(), at);
        pieces_join_to_the_text(s.drop_last(), c);
        if s.last() == c {
            assert(all.drop_last() =~= init);
            assert(joined(all, c) =~= s);
        } else {
            assert(all.drop_last() =~= init.drop_last());
            assert(joined(all, c) =~= joined(init, c).push(s.last()));
            assert(joined(all, c) =~= s);
        }
    }
}

/// White space in front of a text changes nothing about its words.
pub proof fn leading_space_makes_no_word(c: char, rest: Seq<char>)
    requires
        ascii_space(c),
    ensures
        words(seq![c] + rest) == words(rest),
{
    let at = Separator::AsciiSpace;
    let e = Seq::<char>::empty();
    lemma_split_concat(e, c, rest, at);
    assert(e.push(c) + rest =~= seq![c] + rest);
    assert(split(e, at) =~= seq![e]);
    let (a, b) = (split(e, at), split(rest, at));
    lemma_filter_concat(a, b, non_empty());
    reveal_with_fuel(Seq::filter, 2);
    assert(a.drop_last() =~= Seq::empty());
    assert(a.filter(non_empty()) =~= Seq::empty());
    assert(Seq::<Seq<char>>::empty() + b.filter(non_empty()) =~= b.filter(non_empty()));
}

/// Filtering two lists one after the other is filtering each.
pub proof fn lemma_filter_concat(
    a: Seq<Seq<char>>,
    b: Seq<Seq<char>>,
    keep: spec_fn(Seq<char>) -> bool,
)
    ensures
        (a + b).filter(keep) == a.filter(keep) + b.filter(keep),
    decreases b.len(),
{
    reveal_with_fuel(Seq::filter, 1);
    if b.len() == 0 {
        assert(a + b =~= a);
    } else {
        assert((a + b).drop_last() =~= a + b.drop_last());
        lemma_filter_concat(a, b.drop_last(), keep);
        assert((a + b).filter(keep) =~= a.filter(keep) + b.filter(keep));
    }
}

/// The ASCII white space characters by their numbers.
pub proof fn ascii_space_by_number(c: char)
    ensures
        ascii_space(c) <==> c as u32 == 9 || c as u32 == 10 || c as u32 == 12 || c as u32 == 13
            || c as u32 == 32,
        ascii_space(c) ==> white_space(c),
        white_space(c) && (c as u32) < 128 ==> ascii_space(c) || c as u32 == 11,
        (c as u32) > 0x3000 ==> !white_space(c),
{
}

/// White space beyond ASCII: the fixed, the thin and the wide spaces, and the separators.
pub proof fn other_white_space_by_number(c: char)
    requires
        (c as u32) >= 128,
    ensures
        white_space(c) <==> (c as u32 == 0x85 || c as u32 == 0xA0 || c as u32 == 0x1680 || 0x2000
            <= c as u32 <= 0x200A || 0x2028 <= c as u32 <= 0x2029 || c as u32 == 0x202F || c as u32
            == 0x205F || c as u32 == 0x3000),
{
}

/// Trimming the end takes off white space alone, and all of it.
pub proof fn trimming_the_end_takes_space_alone(s: Seq<char>)
    ensures
        trim_end(s).is_prefix_of(s),
        forall|i: int| trim_end(s).len() <= i < s.len() ==> white_space(#[trigger] s[i]),
        trim_end(s).len() > 0 ==> !white_space(trim_end(s).last()),
    decreases s.len(),
{
    if s.len() > 0 && white_space(s.last()) {
        trimming_the_end_takes_space_alone(s.drop_last());
        assert forall|i: int| trim_end(s).len() <= i < s.len() implies white_space(
            #[trigger] s[i],
        ) by {
            if i < s.len() - 1 {
                assert(s.drop_last()[i] == s[i]);
            }
        }
    }
}

/// Trimming the start takes off white space alone, and all of it.
pub proof fn trimming_the_start_takes_space_alone(s: Seq<char>)
    ensures
        trim_start(s).len() <= s.len(),
        trim_start(s) == s.skip(s.len() - trim_start(s).len()),
        forall|i: int|
            0 <= i < s.len() - trim_start(s).len() ==> white_space(#[trigger] s[i]),
        trim_start(s).len() > 0 ==> !white_space(trim_start(s)[0]),
    decreases s.len(),
{
    if s.len() > 0 && white_space(s.first()) {
        let t = s.drop_first();
        trimming_the_start_takes_space_alone(t);
        assert(trim_start(s) =~= s.skip(s.len() - trim_start(s).len()));
        assert forall|i: int| 0 <= i < s.len() - trim_start(s).len() implies white_space(
            #[trigger] s[i],
        ) by {
            if i > 0 {
                assert(t[i - 1] == s[i]);
            }
        }
    } else {
        assert(s.skip(0) =~= s);
    }
}

/// A trimmed text has no white space at either end, and is a part of what it was.
pub proof fn trimmed_text_is_the_middle(s: Seq<char>) -> (from: int)
    ensures
        0 <= from <= from + trim(s).len() <= s.len(),
        trim(s) == s.subrange(from, from + trim(s).len()),
        forall|i: int|
            0 <= i < from || from + trim(s).len() <= i < s.len() ==> white_space(
                #[trigger] s[i],
            ),
        trim(s).len() > 0 ==> !white_space(trim(s)[0]) && !white_space(trim(s).last()),
{
    let t = trim_end(s);
    trimming_the_end_takes_space_alone(s);
    trimming_the_start_takes_space_alone(t);
    let from = t.len() - trim(s).len();
    assert(trim(s) =~= s.subrange(from, from + trim(s).len()));
    assert forall|i: int| 0 <= i < from implies white_space(#[trigger] s[i]) by {
        assert(t[i] == s[i]);
    }
    if trim(s).len() > 0 {
        assert(trim(s).last() == t.last());
    }
    from
}

/// What is found is the first: `needle` stands nowhere before, and nowhere if nothing is found.
pub proof fn first_occurrence_is_found(s: Seq<char>, needle: Seq<char>, from: int, j: int)
    requires
        0 <= from <= j,
        occurs_at(s, needle, j),
    ensures
        find_from(s, needle, from) is Some,
        find_from(s, needle, from)->0 <= j,
        occurs_at(s, needle, find_from(s, needle, from)->0),
        find_from(s, needle, from)->0 >= from,
    decreases j - from,
{
    lemma_find_found(s, needle, from);
    if !occurs_at(s, needle, from) {
        first_occurrence_is_found(s, needle, from + 1, j);
    }
}

/// `needle` stands at a position if its characters stand there one by one.
pub proof fn occurrence_is_character_by_character(s: Seq<char>, needle: Seq<char>, i: int)
    ensures
        occurs_at(s, needle, i) <==> 0 <= i && i + needle.len() <= s.len() && forall|k: int|
            0 <= k < needle.len() ==> s[i + k] == #[trigger] needle[k],
{
    if 0 <= i && i + needle.len() <= s.len() {
        let t = s.subrange(i, i + needle.len());
        if occurs_at(s, needle, i) {
            assert forall|k: int| 0 <= k < needle.len() implies s[i + k] == #[trigger] needle[k] by {
                assert(t[k] == s[i + k]);
            }
        } else if forall|k: int| 0 <= k < needle.len() ==> s[i + k] == #[trigger] needle[k] {
            assert(t =~= needle);
        }
    }
}

/// Capital letters of ASCII become small, and nothing else changes.
pub proof fn lower_case_changes_capitals_alone(s: Seq<char>, i: int)
    requires
        0 <= i < s.len(),
    ensures
        lower(s).len() == s.len(),
        65 <= s[i] as u32 <= 90 ==> lower(s)[i] as u32 == s[i] as u32 + 32,
        !(65 <= s[i] as u32 <= 90) ==> lower(s)[i] == s[i],
{
}

/// What decimal digits say.
pub open spec fn value(digits: Seq<char>) -> int
    decreases digits.len(),
{
    if digits.len() == 0 {
        0
    } else {
        value(digits.drop_last()) * 10 + (digits.last() as u32 - 48)
    }
}

/// A decimal number is made of digits, says its value and has no zero in front.
pub proof fn decimal_says_its_value(n: nat)
    ensures
        value(decimal(n)) == n,
        decimal(n).len() > 0,
        decimal(n)[0] == '0' ==> n == 0,
        forall|i: int| 0 <= i < decimal(n).len() ==> '0' <= #[trigger] decimal(n)[i] <= '9',
    decreases n,
{
    reveal_with_fuel(value, 2);
    if n < 10 {
        assert(decimal(n).drop_last() =~= Seq::empty());
    } else {
        decimal_says_its_value(n / 10);
        assert(decimal(n).drop_last() =~= decimal(n / 10));
        assert forall|i: int| 0 <= i < decimal(n).len() implies '0' <= #[trigger] decimal(n)[i]
            <= '9' by {
            if i < decimal(n).len() - 1 {
                assert(decimal(n / 10)[i] == decimal(n)[i]);
            }
        }
        assert(decimal(n)[0] == decimal(n / 10)[0]);
    }
}

/// A truth value is spelled out.
pub proof fn truth_is_spelled_out(b: bool)
    ensures
        b ==> bool_text(b) == "true"@,
        !b ==> bool_text(b) == "false"@,
{
}

/// The first line ends at the first line feed, without a carriage return in front of it; what
/// stands behind has its own lines.
pub proof fn first_line_ends_at_the_line_feed(line: Seq<char>, rest: Seq<char>)
    requires
        !line.contains('\n'),
    ensures
        lines(line.push('\n') + rest) == seq![
            if line.len() > 0 && line.last() == '\r' {
                line.drop_last()
            } else {
                line
            },
        ] + lines(rest),
        lines(line) == if line.len() == 0 {
            Seq::<Seq<char>>::empty()
        } else {
            seq![line]
        },
{
    let at = Separator::Is('\n');
    assert(unbroken(line, at)) by {
        assert forall|i: int| 0 <= i < line.len() implies !at.separates(#[trigger] line[i]) by {
            assert(line.contains(line[i]));
        }
    }
    lemma_split_unbroken(line, at);
    lemma_split_concat(line, '\n', rest, at);
    lemma_split_nonempty(rest, at);
    let p = split(line.push('\n') + rest, at);
    let q = split(rest, at);
    assert(p =~= seq![line] + q);
    assert(p.last() == q.last());
    let without = |l: Seq<char>| without_return(l);
    assert(p.drop_last().map_values(without) =~= seq![without_return(line)]
        + q.drop_last().map_values(without));
    assert(lines(line.push('\n') + rest) =~= seq![without_return(line)] + lines(rest));
    assert(seq![line].drop_last() =~= Seq::empty());
    assert(seq![line].drop_last().map_values(without) =~= Seq::empty());
    assert(lines(line) =~= if line.len() == 0 {
        Seq::<Seq<char>>::empty()
    } else {
        seq![line]
    });
}

/// Lists of texts are read item by item.
pub proof fn lists_are_read_item_by_item(a: Seq<Vec<char>>, b: Seq<String>, i: int)
    ensures
        texts(a).len() == a.len(),
        strings(b).len() == b.len(),
        0 <= i < a.len() ==> texts(a)[i] == a[i]@,
        0 <= i < b.len() ==> strings(b)[i] == b[i]@,
{
}

} // verus!

use vstd::prelude::*;

verus! {

// ---------------------------------------------------------------------------
// Mathematical model of the string operations the library relies on.
// ---------------------------------------------------------------------------

/// `pat` occurs in `s` starting at index `i`.
pub open spec fn occurs_at(s: Seq<char>, pat: Seq<char>, i: int) -> bool {
    0 <= i && i + pat.len() <= s.len() && s.subrange(i, i + pat.len()) == pat
}

/// `pat` occurs somewhere in `s` (the meaning of `str::contains` for a string pattern).
pub open spec fn contains_seq(s: Seq<char>, pat: Seq<char>) -> bool {
    exists|i: int| occurs_at(s, pat, i)
}

/// `s` begins with `p` (the meaning of `str::starts_with`).
pub open spec fn starts_with_seq(s: Seq<char>, p: Seq<char>) -> bool {
    p.len() <= s.len() && s.subrange(0, p.len() as int) == p
}

/// The first index at or after `from` where `pat` occurs in `s`.
pub open spec fn index_of_from(s: Seq<char>, pat: Seq<char>, from: int) -> Option<int>
    decreases s.len() + 1 - from,
{
    if from < 0 || from + pat.len() > s.len() {
        None
    } else if occurs_at(s, pat, from) {
        Some(from)
    } else {
        index_of_from(s, pat, from + 1)
    }
}

/// The first index of the character `c` in `s` (the meaning of `str::find` with a `char`).
pub open spec fn index_of_char(s: Seq<char>, c: char) -> Option<int> {
    index_of_from(s, seq![c], 0)
}

/// The pieces of `s[start..]` separated by the non-empty separator `sep`, as
/// `str::split` produces them: scanning left to right, each leftmost
/// occurrence of `sep` ends one piece, and the text after the last
/// occurrence is the final piece.
pub open spec fn split_from(s: Seq<char>, sep: Seq<char>, start: int) -> Seq<Seq<char>>
    decreases s.len() - start,
{
    if sep.len() == 0 || start < 0 || start > s.len() {
        seq![]
    } else {
        match index_of_from(s, sep, start) {
            Some(i) => if i >= start && i + sep.len() <= s.len() {
                seq![s.subrange(start, i)] + split_from(s, sep, i + sep.len())
            } else {
                seq![]
            },
            None => seq![s.subrange(start, s.len() as int)],
        }
    }
}

/// `s.split(sep)` for a non-empty separator.
pub open spec fn split_seq(s: Seq<char>, sep: Seq<char>) -> Seq<Seq<char>> {
    split_from(s, sep, 0)
}

/// Characters with the Unicode `White_Space` property, which is what
/// `char::is_whitespace` and `str::trim` test for.
pub open spec fn is_white_space(c: char) -> bool {
    let u = c as u32;
    (0x09 <= u && u <= 0x0d) || u == 0x20 || u == 0x85 || u == 0xa0 || u == 0x1680 || (0x2000
        <= u && u <= 0x200a) || u == 0x2028 || u == 0x2029 || u == 0x202f || u == 0x205f || u
        == 0x3000
}

/// A quote character: `'` or `"`.
pub open spec fn is_quote(c: char) -> bool {
    c == '\'' || c == '"'
}

/// Which characters a trim removes.
pub enum TrimSet {
    WhiteSpace,
    Quotes,
}

pub open spec fn in_trim_set(set: TrimSet, c: char) -> bool {
    match set {
        TrimSet::WhiteSpace => is_white_space(c),
        TrimSet::Quotes => is_quote(c),
    }
}

/// `s` without its leading characters from `set`.
pub open spec fn trim_start_by(s: Seq<char>, set: TrimSet) -> Seq<char>
    decreases s.len(),
{
    if s.len() > 0 && in_trim_set(set, s[0]) {
        trim_start_by(s.drop_first(), set)
    } else {
        s
    }
}

/// `s` without its trailing characters from `set`.
pub open spec fn trim_end_by(s: Seq<char>, set: TrimSet) -> Seq<char>
    decreases s.len(),
{
    if s.len() > 0 && in_trim_set(set, s.last()) {
        trim_end_by(s.drop_last(), set)
    } else {
        s
    }
}

/// `s` without leading and trailing characters from `set`
/// (`str::trim` for white space, `str::trim_matches` for quotes).
pub open spec fn trim_by(s: Seq<char>, set: TrimSet) -> Seq<char> {
    trim_end_by(trim_start_by(s, set), set)
}

/// `str::trim`.
pub open spec fn trim_ws(s: Seq<char>) -> Seq<char> {
    trim_by(s, TrimSet::WhiteSpace)
}

/// `s` with every occurrence of `from` replaced by `to` (`str::replace` with two characters).
pub open spec fn replace_char(s: Seq<char>, from: char, to: char) -> Seq<char> {
    s.map_values(|c: char| if c == from { to } else { c })
}

/// Lower-cased text as `str::to_lowercase` returns it (Unicode `Lowercase` mapping).
pub uninterp spec fn lowercase(s: Seq<char>) -> Seq<char>;

/// Whether `char::is_alphanumeric` holds of `c` (Unicode `Alphabetic` or `Numeric`).
pub uninterp spec fn is_alphanumeric(c: char) -> bool;

/// Every character of `s` is ASCII.
pub open spec fn is_ascii_text(s: Seq<char>) -> bool {
    forall|i: int| 0 <= i < s.len() ==> (#[trigger] s[i] as u32) < 128
}

/// An ASCII upper-case letter lowered; any other character unchanged.
pub open spec fn ascii_lower_char(c: char) -> char {
    if 'A' <= c && c <= 'Z' {
        ((c as u32) + 32) as char
    } else {
        c
    }
}

/// `s` with its ASCII upper-case letters lowered.
pub open spec fn ascii_lowercase(s: Seq<char>) -> Seq<char> {
    s.map_values(|c: char| ascii_lower_char(c))
}

/// ASCII letters and digits.
pub open spec fn is_ascii_alphanumeric(c: char) -> bool {
    ('a' <= c && c <= 'z') || ('A' <= c && c <= 'Z') || ('0' <= c && c <= '9')
}

/// The decimal digits of `n`, as `Display` prints an unsigned integer.
pub open spec fn decimal(n: nat) -> Seq<char>
    decreases n,
{
    if n < 10 {
        seq![digit_char(n)]
    } else {
        decimal(n / 10).push(digit_char(n % 10))
    }
}

pub open spec fn digit_char(d: nat) -> char {
    if d == 0 {
        '0'
    } else if d == 1 {
        '1'
    } else if d == 2 {
        '2'
    } else if d == 3 {
        '3'
    } else if d == 4 {
        '4'
    } else if d == 5 {
        '5'
    } else if d == 6 {
        '6'
    } else if d == 7 {
        '7'
    } else if d == 8 {
        '8'
    } else {
        '9'
    }
}

// ---------------------------------------------------------------------------
// Calls into `std` that vstd does not specify.
// ---------------------------------------------------------------------------

/// Appends one character at the end of a string.
///
/// Calls `String::push`, which its documentation describes as appending the
/// given `char` to the end of the `String`.
#[verifier::external_body]
pub(crate) fn push_char(s: &mut String, c: char)
    ensures
        final(s)@ == old(s)@.push(c),
{
    s.push(c);
}


/// Whether `c` is alphanumeric.
///
/// Calls `char::is_alphanumeric` (Unicode `Alphabetic` or `Numeric`). The
/// contract names the result and states only what holds on ASCII: there it
/// holds exactly of letters and digits. The rest of the Unicode tables is left unsaid.
#[verifier::external_body]
pub(crate) fn char_is_alphanumeric(c: char) -> (r: bool)
    ensures
        r == is_alphanumeric(c),
        (c as u32) < 128 ==> (r <==> is_ascii_alphanumeric(c)),
{
    c.is_alphanumeric()
}

/// Lower-cases a string.
///
/// Calls `str::to_lowercase`. Its result is a function of the text alone; the
/// Unicode case mapping is named, not written out, except on ASCII text, where
/// it maps `A`..`Z` to `a`..`z` and leaves every other character as it is.
#[verifier::external_body]
pub(crate) fn to_lowercase(s: &str) -> (r: String)
    ensures
        r@ == lowercase(s@),
        is_ascii_text(s@) ==> r@ == ascii_lowercase(s@),
{
    s.to_lowercase()
}

// ---------------------------------------------------------------------------
// Verified string operations.
// ---------------------------------------------------------------------------

/// Whether `c` is white space: what `char::is_whitespace` answers, the
/// Unicode `White_Space` property, tested on the code points that have it.
pub(crate) fn char_is_whitespace(c: char) -> (r: bool)
    ensures
        r == is_white_space(c),
{
    let u = c as u32;
    (0x09 <= u && u <= 0x0d) || u == 0x20 || u == 0x85 || u == 0xa0 || u == 0x1680 || (0x2000
        <= u && u <= 0x200a) || u == 0x2028 || u == 0x2029 || u == 0x202f || u == 0x205f || u
        == 0x3000
}

/// The characters of a string slice, in order.
pub fn chars_of(s: &str) -> (r: Vec<char>)
    ensures
        r@ == s@,
{
    let mut r: Vec<char> = Vec::new();
    for c in it: s.chars()
        invariant
            r@ == it.seq().take(it.index()),
    {
        r.push(c);
    }
    r
}

/// The string made of the given characters.
pub fn string_of(v: &[char]) -> (r: String)
    ensures
        r@ == v@,
{
    let mut r = String::new();
    let mut i: usize = 0;
    while i < v.len()
        invariant
            0 <= i <= v@.len(),
            r@ == v@.take(i as int),
        decreases v@.len() - i,
    {
        push_char(&mut r, v[i]);
        assert(v@.take(i + 1) == v@.take(i as int).push(v@[i as int]));
        i += 1;
    }
    assert(v@.take(v@.len() as int) == v@);
    r
}

/// The characters `v[from..to]` as a new vector.
pub fn slice_chars(v: &[char], from: usize, to: usize) -> (r: Vec<char>)
    requires
        from <= to <= v@.len(),
    ensures
        r@ == v@.subrange(from as int, to as int),
{
    let mut r: Vec<char> = Vec::new();
    let mut i: usize = from;
    while i < to
        invariant
            from <= i <= to <= v@.len(),
            r@ == v@.subrange(from as int, i as int),
        decreases to - i,
    {
        r.push(v[i]);
        assert(v@.subrange(from as int, i + 1) == v@.subrange(from as int, i as int).push(
            v@[i as int],
        ));
        i += 1;
    }
    r
}

/// Whether `pat` occurs in `s` at index `i`.
pub fn occurs_at_exec(s: &[char], pat: &[char], i: usize) -> (r: bool)
    ensures
        r == occurs_at(s@, pat@, i as int),
{
    let slen = s.len();
    if pat.len() > slen || i > slen - pat.len() {
        return false;
    }
    let mut k: usize = 0;
    while k < pat.len()
        invariant
            slen == s@.len(),
            i + pat@.len() <= s@.len(),
            0 <= k <= pat@.len(),
            forall|j: int| 0 <= j < k ==> s@[i + j] == pat@[j],
        decreases pat@.len() - k,
    {
        if s[i + k] != pat[k] {
            assert(s@.subrange(i as int, i + pat@.len())[k as int] != pat@[k as int]);
            return false;
        }
        k += 1;
    }
    assert(s@.subrange(i as int, i + pat@.len()) =~= pat@);
    true
}

/// The first index at or after `from` where `pat` occurs in `s`.
pub fn index_of_from_exec(s: &[char], pat: &[char], from: usize) -> (r: Option<usize>)
    ensures
        r matches Some(i) ==> index_of_from(s@, pat@, from as int) == Some(i as int),
        r is None ==> index_of_from(s@, pat@, from as int) is None,
{
    if pat.len() > s.len() {
        return None;
    }
    let last = s.len() - pat.len();
    if from > last {
        return None;
    }
    let mut i: usize = from;
    loop
        invariant
            from <= i <= last,
            last == s@.len() - pat@.len(),
            index_of_from(s@, pat@, from as int) == index_of_from(s@, pat@, i as int),
        decreases last - i,
    {
        if occurs_at_exec(s, pat, i) {
            return Some(i);
        }
        if i >= last {
            assert(index_of_from(s@, pat@, i + 1) is None);
            return None;
        }
        i += 1;
    }
}

/// Whether `pat` occurs in `s` (`str::contains`).
pub fn contains_exec(s: &[char], pat: &[char]) -> (r: bool)
    ensures
        r == contains_seq(s@, pat@),
{
    let found = index_of_from_exec(s, pat, 0);
    proof {
        lemma_index_of_from_contains(s@, pat@, 0);
    }
    found.is_some()
}

/// Whether `s` begins with `p` (`str::starts_with`).
pub fn starts_with_exec(s: &[char], p: &[char]) -> (r: bool)
    ensures
        r == starts_with_seq(s@, p@),
{
    occurs_at_exec(s, p, 0)
}

/// Whether the two character sequences are equal.
pub fn chars_eq(a: &[char], b: &[char]) -> (r: bool)
    ensures
        r == (a@ == b@),
{
    if a.len() != b.len() {
        return false;
    }
    let r = occurs_at_exec(a, b, 0);
    proof {
        if r {
            assert(a@.subrange(0, b@.len() as int) =~= a@);
        } else {
            assert(a@.subrange(0, b@.len() as int) =~= a@);
        }
    }
    r
}

/// The first index of `c` in `s` (`str::find` with a `char`).
pub fn index_of_char_exec(s: &[char], c: char) -> (r: Option<usize>)
    ensures
        r matches Some(i) ==> index_of_char(s@, c) == Some(i as int),
        r is None ==> index_of_char(s@, c) is None,
{
    let pat: Vec<char> = vec![c];
    assert(pat@ =~= seq![c]);
    index_of_from_exec(s, pat.as_slice(), 0)
}

/// Whether `c` is in the given trim set.
pub fn in_trim_set_exec(set: &TrimSet, c: char) -> (r: bool)
    ensures
        r == in_trim_set(*set, c),
{
    match set {
        TrimSet::WhiteSpace => char_is_whitespace(c),
        TrimSet::Quotes => c == '\'' || c == '"',
    }
}

/// `s` without leading and trailing characters of `set`.
pub fn trim_exec(s: &[char], set: TrimSet) -> (r: Vec<char>)
    ensures
        r@ == trim_by(s@, set),
{
    let len = s.len();
    let mut a: usize = 0;
    assert(s@.subrange(0, len as int) =~= s@);
    while a < len && in_trim_set_exec(&set, s[a])
        invariant
            0 <= a <= len,
            len == s@.len(),
            trim_start_by(s@, set) == trim_start_by(s@.subrange(a as int, len as int), set),
        decreases len - a,
    {
        assert(s@.subrange(a as int, len as int).drop_first() =~= s@.subrange(
            a + 1,
            len as int,
        ));
        a += 1;
    }
    assert(trim_start_by(s@, set) == s@.subrange(a as int, len as int));
    let mut b: usize = len;
    while b > a && in_trim_set_exec(&set, s[b - 1])
        invariant
            a <= b <= len,
            len == s@.len(),
            trim_by(s@, set) == trim_end_by(s@.subrange(a as int, b as int), set),
        decreases b - a,
    {
        assert(s@.subrange(a as int, b as int).drop_last() =~= s@.subrange(
            a as int,
            b - 1,
        ));
        b -= 1;
    }
    slice_chars(s, a, b)
}

/// `s` with every `from` character replaced by `to`.
pub fn replace_char_exec(s: &[char], from: char, to: char) -> (r: Vec<char>)
    ensures
        r@ == replace_char(s@, from, to),
{
    let mut r: Vec<char> = Vec::new();
    let mut i: usize = 0;
    while i < s.len()
        invariant
            0 <= i <= s@.len(),
            r@ == replace_char(s@.take(i as int), from, to),
        decreases s@.len() - i,
    {
        let c = s[i];
        r.push(if c == from { to } else { c });
        assert(s@.take(i + 1) == s@.take(i as int).push(c));
        assert(replace_char(s@.take(i + 1), from, to) =~= replace_char(
            s@.take(i as int),
            from,
            to,
        ).push(if c == from { to } else { c }));
        i += 1;
    }
    assert(s@.take(s@.len() as int) == s@);
    r
}

/// Appends the decimal digits of `n` to `out`.
pub fn push_decimal(out: &mut String, n: usize)
    ensures
        final(out)@ == old(out)@ + decimal(n as nat),
    decreases n,
{
    if n >= 10 {
        push_decimal(out, n / 10);
    }
    let d = n % 10;
    let c = if d == 0 {
        '0'
    } else if d == 1 {
        '1'
    } else if d == 2 {
        '2'
    } else if d == 3 {
        '3'
    } else if d == 4 {
        '4'
    } else if d == 5 {
        '5'
    } else if d == 6 {
        '6'
    } else if d == 7 {
        '7'
    } else if d == 8 {
        '8'
    } else {
        '9'
    };
    push_char(out, c);
    proof {
        if n < 10 {
            assert(d == n);
            assert(old(out)@ + decimal(n as nat) =~= old(out)@.push(c));
        } else {
            assert(old(out)@ + decimal(n as nat) =~= (old(out)@ + decimal((n / 10) as nat)).push(
                c,
            ));
        }
    }
}

/// Appends the characters of `s` to `out`.
pub fn push_chars(out: &mut String, s: &[char])
    ensures
        final(out)@ == old(out)@ + s@,
{
    let mut i: usize = 0;
    while i < s.len()
        invariant
            0 <= i <= s@.len(),
            out@ == old(out)@ + s@.take(i as int),
        decreases s@.len() - i,
    {
        push_char(out, s[i]);
        assert(old(out)@ + s@.take(i + 1) =~= old(out)@ + s@.take(i as int) + seq![s@[i as int]]);
        i += 1;
    }
    assert(s@.take(s@.len() as int) == s@);
}

/// The texts held in a sequence of strings.
pub open spec fn string_views(v: Seq<String>) -> Seq<Seq<char>> {
    v.map_values(|x: String| x@)
}

/// The character sequences held in a vector of character vectors.
pub open spec fn views(v: Seq<Vec<char>>) -> Seq<Seq<char>> {
    v.map_values(|x: Vec<char>| x@)
}

/// The pieces of `s` between occurrences of the non-empty separator `sep` (`str::split`).
pub fn split_exec(s: &[char], sep: &[char]) -> (r: Vec<Vec<char>>)
    requires
        sep@.len() > 0,
    ensures
        views(r@) == split_seq(s@, sep@),
{
    let mut pieces: Vec<Vec<char>> = Vec::new();
    let mut start: usize = 0;
    let slen = s.len();
    loop
        invariant
            slen == s@.len(),
            sep@.len() > 0,
            start <= s@.len(),
            split_seq(s@, sep@) == views(pieces@) + split_from(s@, sep@, start as int),
        decreases s@.len() - start,
    {
        let found = index_of_from_exec(s, sep, start);
        proof {
            lemma_index_of_from_contains(s@, sep@, start as int);
        }
        match found {
            Some(i) => {
                let piece = slice_chars(s, start, i);
                let ghost old_pieces = pieces@;
                pieces.push(piece);
                proof {
                    assert(views(pieces@) =~= views(old_pieces).push(piece@));
                    assert(split_from(s@, sep@, start as int) =~= seq![piece@] + split_from(
                        s@,
                        sep@,
                        i + sep@.len(),
                    ));
                    assert(views(pieces@) + split_from(s@, sep@, i + sep@.len()) =~= views(
                        old_pieces,
                    ) + split_from(s@, sep@, start as int));
                }
                start = i + sep.len();
            },
            None => {
                let piece = slice_chars(s, start, s.len());
                let ghost old_pieces = pieces@;
                pieces.push(piece);
                proof {
                    assert(views(pieces@) =~= views(old_pieces).push(piece@));
                    assert(split_from(s@, sep@, start as int) =~= seq![piece@]);
                }
                return pieces;
            },
        }
    }
}

// ---------------------------------------------------------------------------
// Lemmas.
// ---------------------------------------------------------------------------

/// `index_of_from` finds an occurrence exactly when one exists at or after `from`.
pub proof fn lemma_index_of_from_contains(s: Seq<char>, pat: Seq<char>, from: int)
    requires
        0 <= from,
    ensures
        index_of_from(s, pat, from) is Some <==> exists|i: int| i >= from && occurs_at(s, pat, i),
        index_of_from(s, pat, from) matches Some(i) ==> i >= from && occurs_at(s, pat, i),
    decreases s.len() + 1 - from,
{
    if from + pat.len() > s.len() {
        assert forall|i: int| i >= from implies !occurs_at(s, pat, i) by {}
    } else if occurs_at(s, pat, from) {
    } else {
        lemma_index_of_from_contains(s, pat, from + 1);
        assert forall|i: int| i >= from && occurs_at(s, pat, i) implies i >= from + 1 by {}
    }
}

/// A split on a non-empty separator yields at least one piece.
pub proof fn lemma_split_nonempty(s: Seq<char>, sep: Seq<char>)
    requires
        sep.len() > 0,
    ensures
        split_seq(s, sep).len() >= 1,
{
    lemma_index_of_from_contains(s, sep, 0);
}

/// No occurrence of `pat` lies between `from` and the index that
/// `index_of_from` finds.
pub proof fn lemma_index_of_from_first(s: Seq<char>, pat: Seq<char>, from: int)
    requires
        0 <= from,
    ensures
        index_of_from(s, pat, from) matches Some(i) ==> forall|j: int|
            from <= j < i ==> !occurs_at(s, pat, j),
    decreases s.len() + 1 - from,
{
    if from + pat.len() > s.len() {
    } else if occurs_at(s, pat, from) {
    } else {
        lemma_index_of_from_first(s, pat, from + 1);
    }
}

/// No character of `s` is `c`.
pub open spec fn lacks_char(s: Seq<char>, c: char) -> bool {
    forall|i: int| 0 <= i < s.len() ==> s[i] != c
}

/// Trimming removes characters and adds none.
pub proof fn lemma_trim_lacks_char(s: Seq<char>, set: TrimSet, c: char)
    requires
        lacks_char(s, c),
    ensures
        lacks_char(trim_by(s, set), c),
{
    lemma_trim_start_lacks_char(s, set, c);
    lemma_trim_end_lacks_char(trim_start_by(s, set), set, c);
}

proof fn lemma_trim_start_lacks_char(s: Seq<char>, set: TrimSet, c: char)
    requires
        lacks_char(s, c),
    ensures
        lacks_char(trim_start_by(s, set), c),
    decreases s.len(),
{
    if s.len() > 0 {
        assert(lacks_char(s.drop_first(), c)) by {
            assert forall|i: int| 0 <= i < s.drop_first().len() implies s.drop_first()[i] != c by {
                assert(s.drop_first()[i] == s[i + 1]);
            }
        }
        lemma_trim_start_lacks_char(s.drop_first(), set, c);
    }
}

proof fn lemma_trim_end_lacks_char(s: Seq<char>, set: TrimSet, c: char)
    requires
        lacks_char(s, c),
    ensures
        lacks_char(trim_end_by(s, set), c),
    decreases s.len(),
{
    if s.len() > 0 {
        assert(lacks_char(s.drop_last(), c)) by {
            assert forall|i: int| 0 <= i < s.drop_last().len() implies s.drop_last()[i] != c by {
                assert(s.drop_last()[i] == s[i]);
            }
        }
        lemma_trim_end_lacks_char(s.drop_last(), set, c);
    }
}

/// What a trim leaves does not end with a character of its set.
pub proof fn lemma_trim_end_last(s: Seq<char>, set: TrimSet)
    ensures
        trim_end_by(s, set).len() > 0 ==> !in_trim_set(set, trim_end_by(s, set).last()),
    decreases s.len(),
{
    if s.len() > 0 && in_trim_set(set, s.last()) {
        lemma_trim_end_last(s.drop_last(), set);
    }
}

} // verus!

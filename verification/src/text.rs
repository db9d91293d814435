//! Operations on text, stated over sequences of characters.

use vstd::prelude::*;
use vstd::string::*;
use vstd::utf8::*;

verus! {

/// A class of characters to trim away or to split at.
#[derive(Clone, Copy)]
pub enum CharClass {
    /// The characters with the Unicode property `White_Space`.
    WhiteSpace,
    /// One single character.
    Exactly(char),
}

/// Whether `c` has the Unicode property `White_Space`.
pub open spec fn is_white_space(c: char) -> bool {
    ||| '\u{9}' <= c <= '\u{d}'
    ||| c == ' '
    ||| c == '\u{85}'
    ||| c == '\u{a0}'
    ||| c == '\u{1680}'
    ||| '\u{2000}' <= c <= '\u{200a}'
    ||| c == '\u{2028}'
    ||| c == '\u{2029}'
    ||| c == '\u{202f}'
    ||| c == '\u{205f}'
    ||| c == '\u{3000}'
}

impl CharClass {
    pub open spec fn holds(self, c: char) -> bool {
        match self {
            CharClass::WhiteSpace => is_white_space(c),
            CharClass::Exactly(d) => c == d,
        }
    }

    /// Whether `c` belongs to the class.
    pub fn contains(self, c: char) -> (r: bool)
        ensures
            r == self.holds(c),
    {
        match self {
            CharClass::WhiteSpace => ('\u{9}' <= c && c <= '\u{d}') || c == ' ' || c == '\u{85}'
                || c == '\u{a0}' || c == '\u{1680}' || ('\u{2000}' <= c && c <= '\u{200a}') || c
                == '\u{2028}' || c == '\u{2029}' || c == '\u{202f}' || c == '\u{205f}' || c
                == '\u{3000}',
            CharClass::Exactly(d) => c == d,
        }
    }
}

/// `s` without its longest prefix of characters in `class`.
pub open spec fn trimmed_start(s: Seq<char>, class: CharClass) -> Seq<char>
    decreases s.len(),
{
    if s.len() > 0 && class.holds(s.first()) {
        trimmed_start(s.drop_first(), class)
    } else {
        s
    }
}

/// `s` without its longest suffix of characters in `class`.
pub open spec fn trimmed_end(s: Seq<char>, class: CharClass) -> Seq<char>
    decreases s.len(),
{
    if s.len() > 0 && class.holds(s.last()) {
        trimmed_end(s.drop_last(), class)
    } else {
        s
    }
}

/// `s` without its characters in `class` at either end.
pub open spec fn trimmed(s: Seq<char>, class: CharClass) -> Seq<char> {
    trimmed_end(trimmed_start(s, class), class)
}

/// `s` without white space at either end.
pub open spec fn trim_spec(s: Seq<char>) -> Seq<char> {
    trimmed(s, CharClass::WhiteSpace)
}

/// The characters of `s`.
pub fn chars_of(s: &str) -> (r: Vec<char>)
    ensures
        r@ == s@,
{
    let mut r: Vec<char> = Vec::new();
    for c in it: s.chars()
        invariant
            it.seq() == s@,
            r@ == s@.take(it.index() as int),
    {
        r.push(c);
    }
    r
}

/// Whether `a` and `b` are the same text.
pub fn same_text(a: &str, b: &str) -> (r: bool)
    ensures
        r == (a@ == b@),
{
    let x = chars_of(a);
    let y = chars_of(b);
    if x.len() != y.len() {
        return false;
    }
    for i in 0..x.len()
        invariant
            x@ == a@,
            y@ == b@,
            x.len() == y.len(),
            x@.take(i as int) == y@.take(i as int),
    {
        if x[i] != y[i] {
            return false;
        }
        assert(x@.take(i + 1) == x@.take(i as int).push(x@[i as int]));
        assert(y@.take(i + 1) == y@.take(i as int).push(y@[i as int]));
    }
    assert(x@.take(x.len() as int) == x@);
    assert(y@.take(x.len() as int) == y@);
    true
}

/// `s` without its characters in `class` at the end.
pub fn trim_end_matches<'a>(s: &'a str, class: CharClass) -> (r: &'a str)
    ensures
        r@ == trimmed_end(s@, class),
{
    let chars = chars_of(s);
    let mut end: usize = chars.len();
    assert(s@.take(end as int) == s@);
    while end > 0 && class.contains(chars[end - 1])
        invariant
            chars@ == s@,
            end <= s@.len(),
            trimmed_end(s@.take(end as int), class) == trimmed_end(s@, class),
        decreases end,
    {
        assert(s@.take(end as int).drop_last() == s@.take(end - 1));
        end = end - 1;
    }
    assert(s@.take(end as int) == s@.subrange(0, end as int));
    s.substring_char(0, end)
}

/// `s` without its characters in `class` at the start.
pub fn trim_start_matches<'a>(s: &'a str, class: CharClass) -> (r: &'a str)
    ensures
        r@ == trimmed_start(s@, class),
{
    let chars = chars_of(s);
    let mut start: usize = 0;
    assert(s@.skip(0) == s@);
    while start < chars.len() && class.contains(chars[start])
        invariant
            chars@ == s@,
            start <= s@.len(),
            trimmed_start(s@.skip(start as int), class) == trimmed_start(s@, class),
        decreases chars.len() - start,
    {
        assert(s@.skip(start as int).drop_first() == s@.skip(start + 1));
        start = start + 1;
    }
    assert(s@.skip(start as int) == s@.subrange(start as int, s@.len() as int));
    s.substring_char(start, chars.len())
}

/// `s` without its characters in `class` at either end.
pub fn trim_matches<'a>(s: &'a str, class: CharClass) -> (r: &'a str)
    ensures
        r@ == trimmed(s@, class),
{
    trim_end_matches(trim_start_matches(s, class), class)
}

/// `s` without white space at either end.
pub fn trim<'a>(s: &'a str) -> (r: &'a str)
    ensures
        r@ == trim_spec(s@),
{
    trim_matches(s, CharClass::WhiteSpace)
}

/// The texts that a sequence of string slices holds.
pub open spec fn texts(v: Seq<&str>) -> Seq<Seq<char>> {
    v.map_values(|s: &str| s@)
}

/// The texts that a sequence of strings holds.
pub open spec fn strings(v: Seq<String>) -> Seq<Seq<char>> {
    v.map_values(|s: String| s@)
}

/// The pieces of `s` between the characters in `class`; one piece more than
/// there are such characters.
pub open spec fn pieces(s: Seq<char>, class: CharClass) -> Seq<Seq<char>>
    decreases s.len(),
{
    if s.len() == 0 {
        seq![Seq::empty()]
    } else {
        let before = pieces(s.drop_last(), class);
        if class.holds(s.last()) {
            before.push(Seq::empty())
        } else {
            before.drop_last().push(before.last().push(s.last()))
        }
    }
}

/// The pieces of `s` between the characters in `class`.
pub fn split<'a>(s: &'a str, class: CharClass) -> (r: Vec<&'a str>)
    ensures
        texts(r@) == pieces(s@, class),
{
    let chars = chars_of(s);
    let mut out: Vec<&'a str> = Vec::new();
    let mut start: usize = 0;
    assert(s@.subrange(0, 0) == Seq::<char>::empty());
    assert(texts(out@).push(s@.subrange(0, 0)) == seq![Seq::<char>::empty()]);
    for i in 0..chars.len()
        invariant
            chars@ == s@,
            start <= i,
            texts(out@).push(s@.subrange(start as int, i as int)) == pieces(
                s@.take(i as int),
                class,
            ),
    {
        let ghost before = texts(out@).push(s@.subrange(start as int, i as int));
        assert(s@.take(i + 1).drop_last() == s@.take(i as int));
        assert(before.last() == s@.subrange(start as int, i as int));
        assert(before.drop_last() == texts(out@));
        if class.contains(chars[i]) {
            out.push(s.substring_char(start, i));
            assert(texts(out@) == before);
            start = i + 1;
            assert(s@.subrange(start as int, i + 1) == Seq::<char>::empty());
        } else {
            assert(s@.subrange(start as int, i + 1) == s@.subrange(start as int, i as int).push(
                s@[i as int],
            ));
        }
    }
    assert(s@.take(s@.len() as int) == s@);
    let ghost before = texts(out@);
    out.push(s.substring_char(start, chars.len()));
    assert(texts(out@) == before.push(s@.subrange(start as int, s@.len() as int)));
    out
}

/// `list` with `sep` between neighbours.
pub open spec fn joined(list: Seq<Seq<char>>, sep: Seq<char>) -> Seq<char>
    decreases list.len(),
{
    if list.len() == 0 {
        Seq::empty()
    } else if list.len() == 1 {
        list[0]
    } else {
        joined(list.drop_last(), sep) + sep + list.last()
    }
}

/// The elements of `list` in one text, with `sep` between neighbours.
pub fn join(list: &Vec<String>, sep: &str) -> (r: String)
    ensures
        r@ == joined(strings(list@), sep@),
{
    let mut out = String::new();
    for i in 0..list.len()
        invariant
            out@ == joined(strings(list@).take(i as int), sep@),
    {
        assert(strings(list@).take(i + 1).drop_last() == strings(list@).take(i as int));
        if i > 0 {
            out.append(sep);
        }
        out.append(list[i].as_str());
    }
    assert(strings(list@).take(list@.len() as int) == strings(list@));
    out
}

/// Whether `needle` stands in `hay` at position `i`.
pub open spec fn stands_at(hay: Seq<char>, needle: Seq<char>, i: int) -> bool {
    0 <= i && i + needle.len() <= hay.len() && hay.subrange(i, i + needle.len()) == needle
}

/// Whether `needle` stands somewhere in `hay`.
pub open spec fn contains_spec(hay: Seq<char>, needle: Seq<char>) -> bool {
    exists|i: int| stands_at(hay, needle, i)
}

/// Whether `needle` stands in `hay` at position `i`.
fn matches_at(hay: &Vec<char>, needle: &Vec<char>, i: usize) -> (r: bool)
    requires
        i <= hay.len(),
    ensures
        r == stands_at(hay@, needle@, i as int),
{
    if hay.len() - i < needle.len() {
        return false;
    }
    for j in 0..needle.len()
        invariant
            i + needle.len() <= hay.len(),
            forall|k: int| 0 <= k < j ==> hay@[i + k] == needle@[k],
    {
        if hay[i + j] != needle[j] {
            assert(hay@.subrange(i as int, i + needle.len())[j as int] != needle@[j as int]);
            return false;
        }
    }
    assert(hay@.subrange(i as int, i + needle.len()) == needle@);
    true
}

/// Whether `needle` stands somewhere in `hay`.
pub fn contains(hay: &str, needle: &str) -> (r: bool)
    ensures
        r == contains_spec(hay@, needle@),
{
    let h = chars_of(hay);
    let n = chars_of(needle);
    let mut i: usize = 0;
    while i < h.len()
        invariant
            h@ == hay@,
            n@ == needle@,
            i <= h.len(),
            forall|k: int| 0 <= k < i ==> !stands_at(hay@, needle@, k),
        decreases h.len() - i,
    {
        if matches_at(&h, &n, i) {
            return true;
        }
        i = i + 1;
    }
    if matches_at(&h, &n, i) {
        return true;
    }
    false
}

/// `s` with each occurrence of `pattern`, taken from the left and without
/// overlap, replaced by `with`.
pub open spec fn replaced(s: Seq<char>, pattern: Seq<char>, with: Seq<char>) -> Seq<char>
    decreases s.len(),
{
    if pattern.len() == 0 || s.len() < pattern.len() {
        s
    } else if s.take(pattern.len() as int) == pattern {
        with + replaced(s.skip(pattern.len() as int), pattern, with)
    } else {
        seq![s[0]] + replaced(s.skip(1), pattern, with)
    }
}

/// `s` with each occurrence of `pattern` replaced by `with`.
pub(crate) fn replace(s: &str, pattern: &str, with: &str) -> (r: String)
    requires
        pattern@.len() > 0,
    ensures
        r@ == replaced(s@, pattern@, with@),
{
    let chars = chars_of(s);
    let pat = chars_of(pattern);
    let mut out = String::new();
    let mut kept: usize = 0;
    let mut i: usize = 0;
    assert(s@.skip(0) == s@);
    while i < chars.len()
        invariant
            chars@ == s@,
            pat@ == pattern@,
            pattern@.len() > 0,
            kept <= i <= s@.len(),
            out@ + s@.subrange(kept as int, i as int) + replaced(s@.skip(i as int), pattern@, with@)
                == replaced(s@, pattern@, with@),
        decreases chars.len() - i,
    {
        let ghost rest = s@.skip(i as int);
        let ghost run = s@.subrange(kept as int, i as int);
        let ghost n = pattern@.len() as int;
        if matches_at(&chars, &pat, i) {
            assert(rest.take(n) == s@.subrange(i as int, i + n));
            assert(rest.skip(n) == s@.skip(i + n));
            let ghost tail = replaced(s@.skip(i + n), pattern@, with@);
            assert(out@ + run + (with@ + tail) == out@ + run + with@ + Seq::<char>::empty() + tail);
            out.append(s.substring_char(kept, i));
            out.append(with);
            i = i + pat.len();
            kept = i;
            assert(s@.subrange(kept as int, i as int) == Seq::<char>::empty());
        } else {
            let ghost tail = replaced(s@.skip(i + 1), pattern@, with@);
            assert(rest.skip(1) == s@.skip(i + 1));
            assert(replaced(rest, pattern@, with@) == seq![s@[i as int]] + tail) by {
                if rest.len() < n {
                    assert(s@.skip(i + 1).len() < n);
                    assert(rest == seq![s@[i as int]] + rest.skip(1));
                } else {
                    assert(rest.take(n) == s@.subrange(i as int, i + n));
                }
            }
            assert(s@.subrange(kept as int, i + 1) == run.push(s@[i as int]));
            assert(out@ + run + (seq![s@[i as int]] + tail) == out@ + run.push(s@[i as int]) + tail);
            i = i + 1;
        }
    }
    assert(s@.skip(i as int) == Seq::<char>::empty());
    out.append(s.substring_char(kept, i));
    out
}

/// The words of `s`: its longest runs without white space.
pub open spec fn words(s: Seq<char>) -> Seq<Seq<char>> {
    pieces(s, CharClass::WhiteSpace).filter(|w: Seq<char>| w.len() > 0)
}

/// The words of `s`, in order.
pub fn split_whitespace<'a>(s: &'a str) -> (r: Vec<&'a str>)
    ensures
        texts(r@) == words(s@),
{
    let parts = split(s, CharClass::WhiteSpace);
    let ghost all = texts(parts@);
    let ghost keep = |w: Seq<char>| w.len() > 0;
    let mut out: Vec<&'a str> = Vec::new();
    assert(all.take(0).filter(keep) == Seq::<Seq<char>>::empty()) by {
        reveal(Seq::filter);
    }
    assert(texts(out@) == Seq::<Seq<char>>::empty());
    for i in 0..parts.len()
        invariant
            all == texts(parts@),
            keep == (|w: Seq<char>| w.len() > 0),
            texts(out@) == all.take(i as int).filter(keep),
    {
        proof {
            reveal(Seq::filter);
            assert(all.take(i + 1).drop_last() == all.take(i as int));
            assert(all.take(i + 1).last() == parts@[i as int]@);
        }
        if !parts[i].is_empty() {
            let ghost before = texts(out@);
            out.push(parts[i]);
            assert(texts(out@) == before.push(parts@[i as int]@));
        }
    }
    assert(all.take(parts@.len() as int) == all);
    out
}

/// The position of the first `c` in `s`.
pub open spec fn first_position(s: Seq<char>, c: char) -> Option<int>
    decreases s.len(),
{
    if s.len() == 0 {
        None
    } else if s[0] == c {
        Some(0int)
    } else {
        match first_position(s.skip(1), c) {
            Some(i) => Some(i + 1),
            None => None,
        }
    }
}

/// The position, counted in characters, of the first `c` in `s`.
pub fn find(s: &str, c: char) -> (r: Option<usize>)
    ensures
        match r {
            Some(i) => first_position(s@, c) == Some(i as int) && i < s@.len(),
            None => first_position(s@, c) is None,
        },
{
    let chars = chars_of(s);
    assert(s@.skip(0) == s@);
    for i in 0..chars.len()
        invariant
            chars@ == s@,
            first_position(s@, c) == match first_position(s@.skip(i as int), c) {
                Some(k) => Some(k + i),
                None => None,
            },
    {
        if chars[i] == c {
            return Some(i);
        }
        assert(s@.skip(i as int).skip(1) == s@.skip(i + 1));
    }
    None
}

/// The first position of a character is the least one where it stands, and a
/// character without one does not stand in the text.
pub proof fn first_position_is_first(s: Seq<char>, c: char)
    ensures
        match first_position(s, c) {
            Some(i) => 0 <= i < s.len() && s[i] == c && forall|k: int|
                0 <= k < i ==> s[k] != c,
            None => !s.contains(c),
        },
    decreases s.len(),
{
    if s.len() > 0 && s[0] != c {
        first_position_is_first(s.skip(1), c);
        let t = s.skip(1);
        assert forall|k: int| 0 < k < s.len() implies s[k] == t[k - 1] by {}
        if first_position(t, c) is None && s.contains(c) {
            let k = choose|k: int| 0 <= k < s.len() && s[k] == c;
            assert(t[k - 1] == c);
        }
    }
}

/// Whether `a` comes strictly before `b` when texts are ordered
/// lexicographically by their code points.
pub open spec fn comes_before(a: Seq<char>, b: Seq<char>) -> bool
    decreases a.len(),
{
    if b.len() == 0 {
        false
    } else if a.len() == 0 {
        true
    } else if a[0] != b[0] {
        a[0] < b[0]
    } else {
        comes_before(a.skip(1), b.skip(1))
    }
}

/// Whether `a` comes strictly before `b`.
pub fn precedes(a: &str, b: &str) -> (r: bool)
    ensures
        r == comes_before(a@, b@),
{
    let x = chars_of(a);
    let y = chars_of(b);
    let mut i: usize = 0;
    assert(a@.skip(0) == a@);
    assert(b@.skip(0) == b@);
    while i < x.len() && i < y.len()
        invariant
            x@ == a@,
            y@ == b@,
            i <= x.len(),
            i <= y.len(),
            comes_before(a@.skip(i as int), b@.skip(i as int)) == comes_before(a@, b@),
        decreases x.len() - i,
    {
        if x[i] != y[i] {
            return x[i] < y[i];
        }
        assert(a@.skip(i as int).skip(1) == a@.skip(i + 1));
        assert(b@.skip(i as int).skip(1) == b@.skip(i + 1));
        i = i + 1;
    }
    i < y.len()
}

/// `s` in lower case, as Unicode defines it.
pub uninterp spec fn lowercase(s: Seq<char>) -> Seq<char>;

/// `c` in lower case, where `c` is an ASCII letter; otherwise `c`.
pub open spec fn ascii_lower(c: char) -> char {
    if 'A' <= c <= 'Z' {
        ((c as u8) + 32) as char
    } else {
        c
    }
}

/// Whether `s` holds no letter from `A` to `Z`.
pub open spec fn no_ascii_capital(s: Seq<char>) -> bool {
    forall|i: int| 0 <= i < s.len() ==> !('A' <= #[trigger] s[i] <= 'Z')
}

/// `str::to_lowercase`: the result depends on the text alone; where the text
/// is ASCII, each letter from `A` to `Z` becomes its small letter and every
/// other character stays. Every character has a lower case of one or more
/// characters, so that only the empty text becomes empty, and none of them is
/// a letter from `A` to `Z`.
pub assume_specification[ str::to_lowercase ](s: &str) -> (r: String)
    ensures
        r@ == lowercase(s@),
        is_ascii_chars(s@) ==> r@ == s@.map_values(|c: char| ascii_lower(c)),
        s@.len() > 0 ==> r@.len() > 0,
        no_ascii_capital(r@),
;

/// `s` in lower case: letter by letter where it is ASCII, otherwise as Unicode
/// defines it.
pub open spec fn lower_spec(s: Seq<char>) -> Seq<char> {
    if is_ascii_chars(s) {
        s.map_values(|c: char| ascii_lower(c))
    } else {
        lowercase(s)
    }
}

/// `s` in lower case.
pub fn lower(s: &str) -> (r: String)
    ensures
        r@ == lower_spec(s@),
        s@.len() > 0 ==> r@.len() > 0,
        no_ascii_capital(r@),
{
    s.to_lowercase()
}

/// `bytes` read as UTF-8, with replacement characters where they are not.
pub uninterp spec fn utf8_lossy(bytes: Seq<u8>) -> Seq<char>;

/// `String::from_utf8_lossy`: the result depends on the bytes alone; where
/// they are valid UTF-8, it is the text that they encode.
#[verifier::external_body]
fn from_utf8_lossy(bytes: &[u8]) -> (r: String)
    ensures
        r@ == utf8_lossy(bytes@),
        valid_utf8(bytes@) ==> r@ == decode_utf8(bytes@),
{
    String::from_utf8_lossy(bytes).into_owned()
}

/// The text that `bytes` encode; with replacement characters where they are
/// not valid UTF-8.
pub open spec fn decoded(bytes: Seq<u8>) -> Seq<char> {
    if valid_utf8(bytes) {
        decode_utf8(bytes)
    } else {
        utf8_lossy(bytes)
    }
}

/// The text that `bytes` encode.
pub fn decode(bytes: &[u8]) -> (r: String)
    ensures
        r@ == decoded(bytes@),
{
    from_utf8_lossy(bytes)
}

/// The pieces of a text hold no separator.
pub proof fn pieces_hold_no_separator(s: Seq<char>, class: CharClass)
    ensures
        pieces(s, class).len() > 0,
        forall|i: int, j: int|
            0 <= i < pieces(s, class).len() && 0 <= j < pieces(s, class)[i].len() ==> !class.holds(
                #[trigger] pieces(s, class)[i][j],
            ),
    decreases s.len(),
{
    if s.len() > 0 {
        pieces_hold_no_separator(s.drop_last(), class);
    }
}

/// Joining the pieces of a text with the character that separated them gives
/// the text back.
pub proof fn joined_pieces(s: Seq<char>, c: char)
    ensures
        joined(pieces(s, CharClass::Exactly(c)), seq![c]) == s,
    decreases s.len(),
{
    let class = CharClass::Exactly(c);
    if s.len() > 0 {
        let before = pieces(s.drop_last(), class);
        joined_pieces(s.drop_last(), c);
        pieces_hold_no_separator(s.drop_last(), class);
        assert(s == s.drop_last().push(s.last()));
        if class.holds(s.last()) {
            assert(before.push(Seq::empty()).drop_last() == before);
        } else {
            let after = before.drop_last().push(before.last().push(s.last()));
            assert(after.drop_last() == before.drop_last());
            if before.len() > 1 {
                let head = joined(before.drop_last(), seq![c]) + seq![c];
                assert(head + before.last().push(s.last()) == (head + before.last()).push(s.last()));
            }
        }
    }
}

/// Splitting what was joined with a character that no element holds gives the
/// elements back, where there is at least one.
pub proof fn pieces_of_joined(list: Seq<Seq<char>>, c: char)
    requires
        list.len() > 0,
        forall|i: int| 0 <= i < list.len() ==> !(#[trigger] list[i]).contains(c),
    ensures
        pieces(joined(list, seq![c]), CharClass::Exactly(c)) == list,
    decreases list.len(),
{
    let class = CharClass::Exactly(c);
    if list.len() == 1 {
        pieces_after(Seq::empty(), list[0], c);
        assert(Seq::<char>::empty() + list[0] == list[0]);
        assert(seq![Seq::<char>::empty()].drop_last().push(Seq::<char>::empty() + list[0]) == list);
    } else {
        let front = list.drop_last();
        let head = joined(front, seq![c]);
        assert forall|i: int| 0 <= i < front.len() implies !(#[trigger] front[i]).contains(c) by {
            assert(front[i] == list[i]);
        }
        pieces_of_joined(front, c);
        assert((head + seq![c]).drop_last() == head);
        assert((head + seq![c]).last() == c);
        assert(pieces(head + seq![c], class) == front.push(Seq::empty()));
        pieces_after(head + seq![c], list.last(), c);
        assert(front.push(Seq::empty()).drop_last() == front);
        assert(Seq::<char>::empty() + list.last() == list.last());
        assert(front.push(list.last()) == list);
    }
}

/// Text without the separator lengthens the last piece.
pub proof fn pieces_after(head: Seq<char>, t: Seq<char>, c: char)
    requires
        !t.contains(c),
    ensures
        pieces(head + t, CharClass::Exactly(c)) == ({
            let before = pieces(head, CharClass::Exactly(c));
            before.drop_last().push(before.last() + t)
        }),
    decreases t.len(),
{
    let class = CharClass::Exactly(c);
    let before = pieces(head, class);
    pieces_hold_no_separator(head, class);
    if t.len() == 0 {
        assert(head + t == head);
        assert(before.last() + t == before.last());
        assert(before.drop_last().push(before.last()) == before);
    } else {
        let u = t.drop_last();
        assert(!u.contains(c)) by {
            if u.contains(c) {
                let k = choose|k: int| 0 <= k < u.len() && u[k] == c;
                assert(t[k] == c);
            }
        }
        pieces_after(head, u, c);
        assert((head + t).drop_last() == head + u);
        assert((head + t).last() == t.last());
        assert(t.last() != c) by {
            assert(t.contains(t.last()));
        }
        let mid = before.drop_last().push(before.last() + u);
        assert(mid.drop_last() == before.drop_last());
        assert((before.last() + u).push(t.last()) == before.last() + t);
    }
}

/// What trimming leaves has no character of the class at either end.
pub proof fn trimmed_ends(s: Seq<char>, class: CharClass)
    ensures
        trimmed(s, class).len() > 0 ==> !class.holds(trimmed(s, class).first()) && !class.holds(
            trimmed(s, class).last(),
        ),
{
    trimmed_start_first(s, class);
    trimmed_end_last(trimmed_start(s, class), class);
}

proof fn trimmed_start_first(s: Seq<char>, class: CharClass)
    ensures
        trimmed_start(s, class).len() > 0 ==> !class.holds(trimmed_start(s, class).first()),
    decreases s.len(),
{
    if s.len() > 0 && class.holds(s.first()) {
        trimmed_start_first(s.drop_first(), class);
    }
}

proof fn trimmed_end_last(s: Seq<char>, class: CharClass)
    ensures
        trimmed_end(s, class).len() > 0 ==> !class.holds(trimmed_end(s, class).last())
            && trimmed_end(s, class).first() == s.first(),
    decreases s.len(),
{
    if s.len() > 0 && class.holds(s.last()) {
        trimmed_end_last(s.drop_last(), class);
    }
}

/// Trimming a second time changes nothing.
pub proof fn trimmed_twice(s: Seq<char>, class: CharClass)
    ensures
        trimmed(trimmed(s, class), class) == trimmed(s, class),
{
    trimmed_ends(s, class);
}

/// No text comes before itself, and of two different texts exactly one comes
/// before the other.
pub proof fn order_is_total(a: Seq<char>, b: Seq<char>)
    ensures
        a == b ==> !comes_before(a, b),
        a != b ==> comes_before(a, b) != comes_before(b, a),
    decreases a.len(),
{
    if a.len() > 0 && b.len() > 0 {
        if a[0] == b[0] {
            order_is_total(a.skip(1), b.skip(1));
            assert(a == seq![a[0]] + a.skip(1));
            assert(b == seq![b[0]] + b.skip(1));
        }
    } else if a.len() == 0 && b.len() == 0 {
        assert(a == b);
    }
}

/// The order of texts is transitive.
pub proof fn order_is_transitive(a: Seq<char>, b: Seq<char>, c: Seq<char>)
    requires
        comes_before(a, b),
        comes_before(b, c),
    ensures
        comes_before(a, c),
    decreases a.len(),
{
    if a.len() > 0 && a[0] == b[0] && b[0] == c[0] {
        order_is_transitive(a.skip(1), b.skip(1), c.skip(1));
    }
}

/// White space is what Unicode lists under `White_Space`, by code point; the
/// class of one character holds that character and no other.
pub proof fn classes_by_code_point(c: char, d: char)
    ensures
        CharClass::WhiteSpace.holds(c) <==> {
            let n = c as int;
            ||| 0x09 <= n <= 0x0d
            ||| n == 0x20
            ||| n == 0x85
            ||| n == 0xa0
            ||| n == 0x1680
            ||| 0x2000 <= n <= 0x200a
            ||| 0x2028 <= n <= 0x2029
            ||| n == 0x202f
            ||| n == 0x205f
            ||| n == 0x3000
        },
        is_white_space(c) == CharClass::WhiteSpace.holds(c),
        CharClass::Exactly(d).holds(c) <==> c == d,
{
}

proof fn start_goes(a: Seq<char>, t: Seq<char>, class: CharClass)
    requires
        forall|i: int| 0 <= i < a.len() ==> class.holds(#[trigger] a[i]),
        t.len() > 0 ==> !class.holds(t.first()),
    ensures
        trimmed_start(a + t, class) == t,
    decreases a.len(),
{
    if a.len() > 0 {
        start_goes(a.drop_first(), t, class);
        assert((a + t).drop_first() == a.drop_first() + t);
        assert((a + t).first() == a[0]);
    } else {
        assert(a + t == t);
    }
}

/// Trimming the end takes off the characters of the class there, all of them
/// and nothing else.
pub proof fn end_goes(t: Seq<char>, b: Seq<char>, class: CharClass)
    requires
        forall|i: int| 0 <= i < b.len() ==> class.holds(#[trigger] b[i]),
        t.len() > 0 ==> !class.holds(t.last()),
    ensures
        trimmed_end(t + b, class) == t,
    decreases b.len(),
{
    if b.len() > 0 {
        end_goes(t, b.drop_last(), class);
        assert((t + b).drop_last() == t + b.drop_last());
        assert((t + b).last() == b.last());
    } else {
        assert(t + b == t);
    }
}

/// Trimming takes off the characters of the class at both ends, all of them
/// and nothing else: what stands between them is left as it is.
pub proof fn both_ends_go(a: Seq<char>, t: Seq<char>, b: Seq<char>, class: CharClass)
    requires
        forall|i: int| 0 <= i < a.len() ==> class.holds(#[trigger] a[i]),
        forall|i: int| 0 <= i < b.len() ==> class.holds(#[trigger] b[i]),
        t.len() > 0 ==> !class.holds(t.first()) && !class.holds(t.last()),
    ensures
        trimmed(a + t + b, class) == t,
        class == CharClass::WhiteSpace ==> trim_spec(a + t + b) == t,
{
    if t.len() > 0 {
        assert(a + t + b == a + (t + b));
        start_goes(a, t + b, class);
        end_goes(t, b, class);
    } else {
        let none = Seq::<char>::empty();
        assert forall|i: int| 0 <= i < (a + b).len() implies class.holds(#[trigger] (a + b)[i]) by {
            if i >= a.len() {
                assert((a + b)[i] == b[i - a.len()]);
            }
        }
        start_goes(a + b, none, class);
        assert(a + t + b == a + b + none);
    }
}

/// A text is contained in another if and only if that is some text, the
/// contained one, and some text again.
pub proof fn contained_stands_between(hay: Seq<char>, needle: Seq<char>)
    ensures
        contains_spec(hay, needle) <==> exists|a: Seq<char>, b: Seq<char>|
            #[trigger] (a + needle + b) == hay,
{
    if contains_spec(hay, needle) {
        let i = choose|i: int| stands_at(hay, needle, i);
        let a = hay.take(i);
        let b = hay.skip(i + needle.len());
        assert(a + needle + b == hay);
    }
    if exists|a: Seq<char>, b: Seq<char>| #[trigger] (a + needle + b) == hay {
        let (a, b) = choose|a: Seq<char>, b: Seq<char>| #[trigger] (a + needle + b) == hay;
        let i = a.len() as int;
        assert((a + needle + b).subrange(i, i + needle.len()) == needle);
        assert(stands_at(hay, needle, i));
    }
}

/// Replacing puts the new text in the place of the first occurrence, leaves
/// what stands before it, and goes on behind it.
pub proof fn first_occurrence_is_replaced(
    a: Seq<char>,
    pattern: Seq<char>,
    b: Seq<char>,
    with: Seq<char>,
)
    requires
        pattern.len() > 0,
        forall|i: int, j: int|
            0 <= i < a.len() && j == i + pattern.len() ==> #[trigger] (a + pattern + b).subrange(
                i,
                j,
            ) != pattern,
    ensures
        replaced(a + pattern + b, pattern, with) == a + with + replaced(b, pattern, with),
    decreases a.len(),
{
    let s = a + pattern + b;
    let n = pattern.len() as int;
    if a.len() == 0 {
        assert(s.take(n) == pattern);
        assert(s.skip(n) == b);
        assert(a + with == with);
    } else {
        let c = a.skip(1);
        let u = c + pattern + b;
        assert(s.subrange(0, n) == s.take(n));
        assert(s.skip(1) == u);
        assert forall|i: int, j: int|
            0 <= i < c.len() && j == i + n implies #[trigger] u.subrange(i, j) != pattern by {
            assert(u.subrange(i, j) == s.subrange(i + 1, j + 1));
        }
        first_occurrence_is_replaced(c, pattern, b, with);
        assert(seq![s[0]] + (c + with + replaced(b, pattern, with)) == a + with + replaced(
            b,
            pattern,
            with,
        ));
    }
}

/// Where there is no occurrence, replacing changes nothing.
pub proof fn nothing_is_replaced(s: Seq<char>, pattern: Seq<char>, with: Seq<char>)
    requires
        pattern.len() > 0,
        forall|i: int, j: int|
            0 <= i && j == i + pattern.len() <= s.len() ==> #[trigger] s.subrange(i, j) != pattern,
    ensures
        replaced(s, pattern, with) == s,
    decreases s.len(),
{
    let n = pattern.len() as int;
    if s.len() >= n {
        let u = s.skip(1);
        assert(s.subrange(0, n) == s.take(n));
        assert forall|i: int, j: int| 0 <= i && j == i + n <= u.len() implies #[trigger] u.subrange(
            i,
            j,
        ) != pattern by {
            assert(u.subrange(i, j) == s.subrange(i + 1, j + 1));
        }
        nothing_is_replaced(u, pattern, with);
        assert(seq![s[0]] + u == s);
    }
}

/// One text alone is joined to itself, and one more is joined behind the
/// separator.
pub proof fn joined_one_more(list: Seq<Seq<char>>, x: Seq<char>, sep: Seq<char>)
    ensures
        joined(Seq::empty(), sep) == Seq::<char>::empty(),
        joined(seq![x], sep) == x,
        list.len() > 0 ==> joined(list.push(x), sep) == joined(list, sep) + sep + x,
{
    assert(list.push(x).drop_last() == list);
}

proof fn white_space_ends_a_word(s: Seq<char>, c: char)
    requires
        CharClass::WhiteSpace.holds(c),
    ensures
        words(s.push(c)) == words(s),
{
    reveal(Seq::filter);
    let before = pieces(s, CharClass::WhiteSpace);
    assert(s.push(c).drop_last() == s);
    assert(before.push(Seq::empty()).drop_last() == before);
}

proof fn word_lengthens_last_piece(s: Seq<char>, w: Seq<char>)
    requires
        forall|i: int| 0 <= i < w.len() ==> !CharClass::WhiteSpace.holds(#[trigger] w[i]),
    ensures
        pieces(s + w, CharClass::WhiteSpace) == ({
            let before = pieces(s, CharClass::WhiteSpace);
            before.drop_last().push(before.last() + w)
        }),
    decreases w.len(),
{
    let before = pieces(s, CharClass::WhiteSpace);
    pieces_hold_no_separator(s, CharClass::WhiteSpace);
    if w.len() == 0 {
        assert(s + w == s);
        assert(before.last() + w == before.last());
        assert(before.drop_last().push(before.last()) == before);
    } else {
        let u = w.drop_last();
        word_lengthens_last_piece(s, u);
        assert((s + w).drop_last() == s + u);
        assert((s + w).last() == w.last());
        let mid = before.drop_last().push(before.last() + u);
        assert(mid.drop_last() == before.drop_last());
        assert((before.last() + u).push(w.last()) == before.last() + w);
    }
}

/// The words of a text are its runs without white space: the last run, with
/// white space before it or none at all, is the last word, and white space
/// behind it does not matter. White space alone holds no word.
pub proof fn last_word(s: Seq<char>, w: Seq<char>, space: Seq<char>)
    requires
        s.len() > 0 ==> CharClass::WhiteSpace.holds(s.last()),
        forall|i: int| 0 <= i < w.len() ==> !CharClass::WhiteSpace.holds(#[trigger] w[i]),
        forall|i: int| 0 <= i < space.len() ==> CharClass::WhiteSpace.holds(#[trigger] space[i]),
    ensures
        w.len() > 0 ==> words(s + w + space) == words(s).push(w),
        words(space) == Seq::<Seq<char>>::empty(),
    decreases space.len(),
{
    reveal(Seq::filter);
    let none = Seq::<char>::empty();
    if space.len() == 0 {
        reveal_with_fuel(Seq::filter, 2);
        assert(space == none);
        assert(seq![none].drop_last() == Seq::<Seq<char>>::empty());
        if w.len() > 0 {
            let before = pieces(s, CharClass::WhiteSpace);
            word_lengthens_last_piece(s, w);
            pieces_hold_no_separator(s, CharClass::WhiteSpace);
            assert(before.last() == none);
            assert(none + w == w);
            assert(before.drop_last().push(w).drop_last() == before.drop_last());
            assert(s + w + space == s + w);
        }
    } else {
        last_word(s, w, space.drop_last());
        white_space_ends_a_word(s + w + space.drop_last(), space.last());
        white_space_ends_a_word(space.drop_last(), space.last());
        assert((s + w + space.drop_last()).push(space.last()) == s + w + space);
        assert(space.drop_last().push(space.last()) == space);
    }
}

/// Texts are ordered by the code points of their first difference, and a text
/// comes before its continuations.
pub proof fn first_difference_decides(p: Seq<char>, a: Seq<char>, b: Seq<char>)
    ensures
        comes_before(p + a, p + b) == comes_before(a, b),
        comes_before(p, p + b) <==> b.len() > 0,
        !comes_before(p + b, p),
        a.len() > 0 && b.len() > 0 && (a[0] as int) < (b[0] as int) ==> comes_before(p + a, p + b)
            && !comes_before(p + b, p + a),
    decreases p.len(),
{
    if p.len() > 0 {
        first_difference_decides(p.skip(1), a, b);
        assert((p + a).skip(1) == p.skip(1) + a);
        assert((p + b).skip(1) == p.skip(1) + b);
    } else {
        assert(p + a == a);
        assert(p + b == b);
    }
}

/// The lower case of an ASCII text has the small letter of each capital, and
/// every other character as it was. That of any other text is its Unicode
/// lower case.
pub proof fn lower_case_by_code_point(s: Seq<char>)
    ensures
        (forall|i: int| 0 <= i < s.len() ==> 0 <= ((#[trigger] s[i]) as int) < 0x80) ==> {
            &&& lower_spec(s).len() == s.len()
            &&& forall|i: int|
                0 <= i < s.len() ==> (#[trigger] lower_spec(s)[i]) as int == if 0x41 <= s[i] as int
                    <= 0x5a {
                    s[i] as int + 0x20
                } else {
                    s[i] as int
                }
        },
        (exists|i: int| 0 <= i < s.len() && !(0 <= ((#[trigger] s[i]) as int) < 0x80)) ==> lower_spec(s)
            == lowercase(s),
{
    if forall|i: int| 0 <= i < s.len() ==> 0 <= ((#[trigger] s[i]) as int) < 0x80 {
        assert(is_ascii_chars(s));
    } else {
        let i = choose|i: int| 0 <= i < s.len() && !(0 <= ((#[trigger] s[i]) as int) < 0x80);
        assert(!('\0' <= s[i] <= '\u{7f}'));
        assert(!is_ascii_chars(s));
    }
}

/// Decoding gives back the text that was encoded as UTF-8.
pub proof fn decoding_undoes_encoding(s: Seq<char>, bytes: Seq<u8>)
    ensures
        decoded(encode_utf8(s)) == s,
        valid_utf8(bytes) ==> encode_utf8(decoded(bytes)) == bytes,
        !valid_utf8(bytes) ==> decoded(bytes) == utf8_lossy(bytes),
{
    encode_utf8_valid_utf8(s);
    encode_utf8_decode_utf8(s);
    if valid_utf8(bytes) {
        decode_utf8_encode_utf8(bytes);
    }
}

/// Lists of texts are taken as they are, one by one.
pub proof fn lists_are_taken_as_they_are(v: Seq<&str>, w: Seq<String>)
    ensures
        texts(v).len() == v.len(),
        forall|i: int| 0 <= i < v.len() ==> #[trigger] texts(v)[i] == v[i]@,
        strings(w).len() == w.len(),
        forall|i: int| 0 <= i < w.len() ==> #[trigger] strings(w)[i] == w[i]@,
{
}

} // verus!

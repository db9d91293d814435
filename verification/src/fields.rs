//! The `KEY=VALUE` files in which logind keeps its sessions and seats.

use crate::text;
use crate::text::CharClass;
use vstd::hash_map::StringHashMap;
use vstd::prelude::*;
use vstd::string::*;

verus! {

/// The fields of a session or seat file, by their keys.
pub struct Fields {
    map: StringHashMap<String>,
}

impl View for Fields {
    type V = Map<Seq<char>, Seq<char>>;

    closed spec fn view(&self) -> Map<Seq<char>, Seq<char>> {
        self.map@.map_values(|v: String| v@)
    }
}

impl Fields {
    /// No fields.
    pub fn new() -> (r: Self)
        ensures
            r@ == Map::<Seq<char>, Seq<char>>::empty(),
    {
        let r = Fields { map: StringHashMap::new() };
        assert(r@ =~= Map::<Seq<char>, Seq<char>>::empty());
        r
    }

    /// Sets the field `key` to `value`, whatever it was.
    pub fn insert(&mut self, key: String, value: String)
        ensures
            final(self)@ == old(self)@.insert(key@, value@),
    {
        let ghost before = self@;
        let ghost k = key@;
        self.map.insert(key, value);
        assert(self@ =~= before.insert(k, value@));
    }

    /// The value of the field `key`.
    pub fn get(&self, key: &str) -> (r: Option<&String>)
        ensures
            match r {
                Some(v) => self@.contains_key(key@) && v@ == self@[key@],
                None => !self@.contains_key(key@),
            },
    {
        self.map.get(key)
    }
}

/// The field `key`, without white space around it.
pub open spec fn trimmed_field(fields: Map<Seq<char>, Seq<char>>, key: Seq<char>) -> Option<
    Seq<char>,
> {
    if fields.contains_key(key) {
        Some(text::trim_spec(fields[key]))
    } else {
        None
    }
}

/// Whether the field `key` is there and is `value`, but for white space
/// around it.
pub open spec fn field_is(
    fields: Map<Seq<char>, Seq<char>>,
    key: Seq<char>,
    value: Seq<char>,
) -> bool {
    trimmed_field(fields, key) == Some(value)
}

/// The key and value that a line gives: none for a blank line, a comment, or
/// a line without `=`; otherwise what stands before and after its first `=`.
pub open spec fn line_entry(line: Seq<char>) -> Option<(Seq<char>, Seq<char>)> {
    let t = text::trim_spec(line);
    if t.len() == 0 || t[0] == '#' {
        None
    } else {
        match text::first_position(t, '=') {
            Some(i) => Some((text::trim_spec(t.take(i)), text::trim_spec(t.skip(i + 1)))),
            None => None,
        }
    }
}

/// The fields that `lines` give; of two with the same key the later counts.
pub open spec fn fields_of_lines(lines: Seq<Seq<char>>) -> Map<Seq<char>, Seq<char>>
    decreases lines.len(),
{
    if lines.len() == 0 {
        Map::empty()
    } else {
        let before = fields_of_lines(lines.drop_last());
        match line_entry(lines.last()) {
            Some((key, value)) => before.insert(key, value),
            None => before,
        }
    }
}

/// The fields of a file with the given content.
///
/// A line ends at a line feed. A carriage return before it is white space at
/// the end of the line, and goes with it.
pub open spec fn fields_of(content: Seq<char>) -> Map<Seq<char>, Seq<char>> {
    fields_of_lines(text::pieces(content, CharClass::Exactly('\n')))
}

/// The key and value that a line gives.
fn parse_line(line: &str) -> (r: Option<(String, String)>)
    ensures
        match r {
            Some((key, value)) => line_entry(line@) == Some((key@, value@)),
            None => line_entry(line@) is None,
        },
{
    let t = text::trim(line);
    let n = t.unicode_len();
    if n == 0 || t.get_char(0) == '#' {
        return None;
    }
    match text::find(t, '=') {
        Some(i) => {
            let key = text::trim(t.substring_char(0, i)).to_owned();
            let value = text::trim(t.substring_char(i + 1, n)).to_owned();
            assert(t@.subrange(0, i as int) == t@.take(i as int));
            assert(t@.subrange(i + 1, n as int) == t@.skip(i + 1));
            Some((key, value))
        },
        None => None,
    }
}

/// The fields of a session or seat file, from its content; `content` is
/// `None` where the file could not be read.
///
/// Lines starting with `#` and blank lines are ignored. This is the same data
/// that `loginctl` prints.
pub fn parse_key_value_file(content: Option<&str>) -> (r: Option<Fields>)
    ensures
        match content {
            Some(c) => r matches Some(fields) && fields@ == fields_of(c@),
            None => r is None,
        },
{
    match content {
        None => None,
        Some(c) => Some(parse_fields(c)),
    }
}

/// The fields of a file with the given content.
pub fn parse_fields(content: &str) -> (r: Fields)
    ensures
        r@ == fields_of(content@),
{
    let lines = text::split(content, CharClass::Exactly('\n'));
    let ghost all = text::texts(lines@);
    let mut fields = Fields::new();
    for i in 0..lines.len()
        invariant
            all == text::texts(lines@),
            fields@ == fields_of_lines(all.take(i as int)),
    {
        assert(all.take(i + 1).drop_last() == all.take(i as int));
        assert(all.take(i + 1).last() == lines@[i as int]@);
        if let Some((key, value)) = parse_line(lines[i]) {
            fields.insert(key, value);
        }
    }
    assert(all.take(lines@.len() as int) == all);
    fields
}

/// A line added at the end of a file sets its field, and leaves all others; a
/// comment, a blank line or one without `=` leaves all fields.
pub proof fn line_added(content: Seq<char>, line: Seq<char>)
    requires
        !line.contains('\n'),
    ensures
        fields_of(content + seq!['\n'] + line) == match line_entry(line) {
            Some((key, value)) => fields_of(content).insert(key, value),
            None => fields_of(content),
        },
{
    let class = CharClass::Exactly('\n');
    let head = content + seq!['\n'];
    assert(head.drop_last() == content);
    assert(head.last() == '\n');
    let before = text::pieces(content, class);
    text::pieces_after(head, line, '\n');
    assert(before.push(Seq::empty()).drop_last() == before);
    assert(Seq::<char>::empty() + line == line);
    assert(before.push(line).drop_last() == before);
}

/// The lines that give a key and value suffice for the fields.
proof fn lines_with_an_entry_suffice(lines: Seq<Seq<char>>)
    ensures
        fields_of_lines(lines) == fields_of_lines(
            lines.filter(|l: Seq<char>| line_entry(l) is Some),
        ),
    decreases lines.len(),
{
    reveal(Seq::filter);
    if lines.len() > 0 {
        let kept = lines.drop_last().filter(|l: Seq<char>| line_entry(l) is Some);
        lines_with_an_entry_suffice(lines.drop_last());
        assert(kept.push(lines.last()).drop_last() == kept);
    }
}

/// Blank lines, comments and lines without `=` do not matter, wherever they
/// stand: files that are the same but for those have the same fields.
pub proof fn lines_without_an_entry_are_ignored(a: Seq<char>, b: Seq<char>)
    requires
        text::pieces(a, CharClass::Exactly('\n')).filter(|l: Seq<char>| line_entry(l) is Some)
            == text::pieces(b, CharClass::Exactly('\n')).filter(
            |l: Seq<char>| line_entry(l) is Some,
        ),
    ensures
        fields_of(a) == fields_of(b),
{
    lines_with_an_entry_suffice(text::pieces(a, CharClass::Exactly('\n')));
    lines_with_an_entry_suffice(text::pieces(b, CharClass::Exactly('\n')));
}

/// A line `key=value` gives back its key and value, where neither has white
/// space around it, the key holds no `=` and the line is no comment.
pub proof fn key_value_line(key: Seq<char>, value: Seq<char>)
    requires
        text::trim_spec(key) == key,
        text::trim_spec(value) == value,
        !key.contains('='),
        key.len() > 0 ==> key[0] != '#',
    ensures
        line_entry(key + seq!['='] + value) == Some((key, value)),
{
    let line = key + seq!['='] + value;
    let ws = CharClass::WhiteSpace;
    text::trimmed_ends(key, ws);
    text::trimmed_ends(value, ws);
    assert(line.first() == if key.len() > 0 {
        key.first()
    } else {
        '='
    });
    assert(line.last() == if value.len() > 0 {
        value.last()
    } else {
        '='
    });
    assert(text::trim_spec(line) == line);
    assert(line[key.len() as int] == '=');
    text::first_position_is_first(line, '=');
    let i = text::first_position(line, '=')->0;
    assert(line.contains('='));
    if i < key.len() {
        assert(key[i] == '=');
    }
    assert(i == key.len());
    assert(line.take(i) == key);
    assert(line.skip(i + 1) == value);
}

/// A line sets the key before its first `=` to the value behind it. White
/// space around the line, the key and the value does not count.
pub proof fn setting_line(
    w1: Seq<char>,
    key: Seq<char>,
    w2: Seq<char>,
    w3: Seq<char>,
    value: Seq<char>,
    w4: Seq<char>,
)
    requires
        forall|i: int| 0 <= i < w1.len() ==> text::is_white_space(#[trigger] w1[i]),
        forall|i: int| 0 <= i < w2.len() ==> text::is_white_space(#[trigger] w2[i]),
        forall|i: int| 0 <= i < w3.len() ==> text::is_white_space(#[trigger] w3[i]),
        forall|i: int| 0 <= i < w4.len() ==> text::is_white_space(#[trigger] w4[i]),
        key.len() > 0 ==> !text::is_white_space(key.first()) && !text::is_white_space(key.last()),
        value.len() > 0 ==> !text::is_white_space(value.first()) && !text::is_white_space(
            value.last(),
        ),
        !key.contains('='),
        key.len() > 0 ==> key[0] != '#',
    ensures
        line_entry(w1 + key + w2 + seq!['='] + w3 + value + w4) == Some((key, value)),
{
    let ws = CharClass::WhiteSpace;
    let none = Seq::<char>::empty();
    let line = w1 + key + w2 + seq!['='] + w3 + value + w4;
    let (a, k) = if key.len() > 0 {
        (w1, key + w2)
    } else {
        (w1 + w2, none)
    };
    let (v, b) = if value.len() > 0 {
        (w3 + value, w4)
    } else {
        (none, w3 + w4)
    };
    let t = k + seq!['='] + v;
    assert(line =~= a + t + b);
    assert forall|i: int| 0 <= i < a.len() implies ws.holds(#[trigger] a[i]) by {
        if i >= w1.len() {
            assert(a[i] == w2[i - w1.len()]);
        }
    }
    assert forall|i: int| 0 <= i < b.len() implies ws.holds(#[trigger] b[i]) by {
        if value.len() == 0 && i >= w3.len() {
            assert(b[i] == w4[i - w3.len()]);
        }
    }
    text::both_ends_go(a, t, b, ws);
    assert(t[k.len() as int] == '=');
    text::first_position_is_first(t, '=');
    let i = text::first_position(t, '=')->0;
    assert(t.contains('='));
    if i < k.len() {
        assert(k[i] == '=');
        if i < key.len() {
            assert(key[i] == '=');
        } else {
            assert(w2[i - key.len()] == '=');
        }
    }
    assert(i == k.len());
    assert(t.take(i) == k);
    assert(t.skip(i + 1) == v);
    if key.len() > 0 {
        text::both_ends_go(none, key, w2, ws);
        assert(none + key + w2 == k);
    } else {
        assert(key == none);
        text::both_ends_go(none, none, none, ws);
        assert(none + none + none == k);
    }
    if value.len() > 0 {
        text::both_ends_go(w3, value, none, ws);
        assert(w3 + value + none == v);
    } else {
        assert(value == none);
        text::both_ends_go(none, none, none, ws);
        assert(none + none + none == v);
    }
}

/// A line that is white space alone, that begins with `#`, be it behind white
/// space, or that holds no `=` sets nothing.
pub proof fn other_lines_set_nothing(space: Seq<char>, rest: Seq<char>)
    requires
        forall|i: int| 0 <= i < space.len() ==> text::is_white_space(#[trigger] space[i]),
    ensures
        line_entry(space) is None,
        line_entry(space + seq!['#'] + rest) is None,
        !rest.contains('=') ==> line_entry(rest) is None,
{
    let ws = CharClass::WhiteSpace;
    let none = Seq::<char>::empty();
    text::both_ends_go(space, none, none, ws);
    assert(space + none + none == space);
    let line = space + seq!['#'] + rest;
    trimming_keeps_the_front(space, seq!['#'] + rest);
    assert(line == space + (seq!['#'] + rest));
    trimming_adds_nothing(rest);
    let t = text::trim_spec(rest);
    text::first_position_is_first(t, '=');
    if !rest.contains('=') {
        assert(!t.contains('=')) by {
            if t.contains('=') {
                let k = choose|k: int| 0 <= k < t.len() && t[k] == '=';
                assert(rest.contains(t[k]));
            }
        }
        if text::first_position(t, '=') is Some {
            assert(t.contains(t[text::first_position(t, '=')->0]));
        }
    }
}

/// White space goes, and the first other character stays the first.
proof fn trimming_keeps_the_front(space: Seq<char>, s: Seq<char>)
    requires
        forall|i: int| 0 <= i < space.len() ==> text::is_white_space(#[trigger] space[i]),
        s.len() > 0,
        !text::is_white_space(s[0]),
    ensures
        text::trim_spec(space + s).len() > 0,
        text::trim_spec(space + s)[0] == s[0],
    decreases s.len(),
{
    let ws = CharClass::WhiteSpace;
    let none = Seq::<char>::empty();
    let n = s.len() - 1;
    if text::is_white_space(s[n]) {
        trimming_keeps_the_front(space, s.drop_last());
        trimming_drops_last(space + s.drop_last(), s[n]);
        assert((space + s.drop_last()).push(s[n]) == space + s);
    } else {
        text::both_ends_go(space, s, none, ws);
        assert(space + s + none == space + s);
    }
}

proof fn trimming_drops_last(s: Seq<char>, c: char)
    requires
        text::is_white_space(c),
    ensures
        text::trim_spec(s.push(c)) == text::trim_spec(s),
    decreases s.len(),
{
    let ws = CharClass::WhiteSpace;
    if s.len() > 0 && ws.holds(s[0]) {
        trimming_drops_last(s.drop_first(), c);
        assert(s.push(c).drop_first() == s.drop_first().push(c));
    } else if s.len() > 0 {
        assert(text::trimmed_start(s.push(c), ws) == s.push(c));
        assert(s.push(c).drop_last() == s);
    } else {
        reveal_with_fuel(text::trimmed_start, 2);
        assert(s.push(c).drop_first() == s);
    }
}

proof fn trimming_adds_nothing(s: Seq<char>)
    ensures
        forall|k: int|
            0 <= k < text::trim_spec(s).len() ==> s.contains(#[trigger] text::trim_spec(s)[k]),
    decreases s.len(),
{
    let ws = CharClass::WhiteSpace;
    let t = text::trim_spec(s);
    if s.len() > 0 && ws.holds(s.first()) {
        let u = s.drop_first();
        trimming_adds_nothing(u);
        assert(t == text::trim_spec(u));
        assert forall|k: int| 0 <= k < t.len() implies s.contains(#[trigger] t[k]) by {
            assert(u.contains(text::trim_spec(u)[k]));
            let j = choose|j: int| 0 <= j < u.len() && u[j] == t[k];
            assert(s[j + 1] == t[k]);
        }
    } else if s.len() > 0 && ws.holds(s.last()) {
        let u = s.drop_last();
        trimming_adds_nothing(u);
        trimming_drops_last(u, s.last());
        assert(u.push(s.last()) == s);
        assert forall|k: int| 0 <= k < t.len() implies s.contains(#[trigger] t[k]) by {
            let j = choose|j: int| 0 <= j < u.len() && u[j] == t[k];
            assert(s[j] == t[k]);
        }
    }
}

/// The fields of a file grow line by line: a line `key=value` behind a line
/// feed sets that key to that value and leaves all others, and a comment there
/// leaves all. A file of one such line holds that field alone, and an empty
/// one holds none.
pub proof fn later_line_wins(
    content: Seq<char>,
    key: Seq<char>,
    value: Seq<char>,
    comment: Seq<char>,
)
    requires
        key.len() > 0 ==> !text::is_white_space(key.first()) && !text::is_white_space(key.last()),
        value.len() > 0 ==> !text::is_white_space(value.first()) && !text::is_white_space(
            value.last(),
        ),
        !key.contains('='),
        !key.contains('\n'),
        !value.contains('\n'),
        !comment.contains('\n'),
        key.len() > 0 ==> key[0] != '#',
    ensures
        fields_of(content + seq!['\n'] + key + seq!['='] + value) == fields_of(content).insert(
            key,
            value,
        ),
        fields_of(content + seq!['\n', '#'] + comment) == fields_of(content),
        fields_of(key + seq!['='] + value) == Map::<Seq<char>, Seq<char>>::empty().insert(
            key,
            value,
        ),
        fields_of(Seq::empty()) == Map::<Seq<char>, Seq<char>>::empty(),
{
    let none = Seq::<char>::empty();
    let class = CharClass::Exactly('\n');
    let line = key + seq!['='] + value;
    setting_line(none, key, none, none, value, none);
    assert(none + key + none + seq!['='] + none + value + none =~= line);
    assert(!line.contains('\n')) by {
        if line.contains('\n') {
            let k = choose|k: int| 0 <= k < line.len() && line[k] == '\n';
            if k < key.len() {
                assert(key[k] == '\n');
            } else if k > key.len() {
                assert(value[k - key.len() - 1] == '\n');
            }
        }
    }
    line_added(content, line);
    assert(content + seq!['\n'] + line =~= content + seq!['\n'] + key + seq!['='] + value);
    let remark = seq!['#'] + comment;
    other_lines_set_nothing(none, comment);
    assert(none + seq!['#'] + comment =~= remark);
    assert(!remark.contains('\n')) by {
        if remark.contains('\n') {
            let k = choose|k: int| 0 <= k < remark.len() && remark[k] == '\n';
            assert(comment[k - 1] == '\n');
        }
    }
    line_added(content, remark);
    assert(content + seq!['\n'] + remark =~= content + seq!['\n', '#'] + comment);
    text::pieces_after(none, line, '\n');
    assert(none + line == line);
    reveal_with_fuel(fields_of_lines, 2);
    assert(text::pieces(none, class).drop_last() == Seq::<Seq<char>>::empty());
    assert(text::pieces(line, class) == seq![line]);
    assert(seq![line].drop_last() == Seq::<Seq<char>>::empty());
    assert(line_entry(none) is None);
}

} // verus!

//! Sessions as logind's files describe them.

use crate::fields;
use crate::fields::Fields;
use crate::text;
use vstd::prelude::*;
use vstd::string::*;

verus! {

/// An entry of the directory that holds the session files.
pub struct SessionFile {
    /// The entry's name, as the directory lists it.
    pub name: Vec<u8>,
    /// What the file holds; `None` where it was not or could not be read.
    pub content: Option<String>,
}

/// What a `SessionFile` stands for.
pub struct SessionFileView {
    pub name: Seq<u8>,
    pub content: Option<Seq<char>>,
}

impl View for SessionFile {
    type V = SessionFileView;

    open spec fn view(&self) -> SessionFileView {
        SessionFileView {
            name: self.name@,
            content: match self.content {
                Some(c) => Some(c@),
                None => None,
            },
        }
    }
}

/// A session: its id and the fields of its file.
pub struct Session {
    pub sid: String,
    pub fields: Fields,
}

/// What a `Session` stands for.
#[verifier::ext_equal]
pub struct SessionView {
    pub sid: Seq<char>,
    pub fields: Map<Seq<char>, Seq<char>>,
}

impl View for Session {
    type V = SessionView;

    open spec fn view(&self) -> SessionView {
        SessionView { sid: self.sid@, fields: self.fields@ }
    }
}

/// The sessions that `v` holds.
pub open spec fn sessions(v: Seq<Session>) -> Seq<SessionView> {
    v.map_values(|s: Session| s@)
}

/// The entries that `v` holds.
pub open spec fn session_files(v: Seq<SessionFile>) -> Seq<SessionFileView> {
    v.map_values(|f: SessionFile| f@)
}

/// The position of the last `.` in a file name, or -1.
pub open spec fn last_dot(name: Seq<u8>) -> int
    decreases name.len(),
{
    if name.len() == 0 {
        -1
    } else if name.last() == 0x2e {
        name.len() - 1
    } else {
        last_dot(name.drop_last())
    }
}

/// A file name without its extension. A `.` at the very start begins no
/// extension.
pub open spec fn file_stem(name: Seq<u8>) -> Seq<u8> {
    if last_dot(name) <= 0 {
        name
    } else {
        name.take(last_dot(name))
    }
}

/// Whether a file name has the extension `ref`.
pub open spec fn has_ref_extension(name: Seq<u8>) -> bool {
    last_dot(name) > 0 && name.skip(last_dot(name) + 1) == seq![0x72u8, 0x65u8, 0x66u8]
}

/// The id of the session whose file has the given name: none for the `.ref`
/// FIFOs and for `..`, which names no file.
pub open spec fn session_id_spec(name: Seq<u8>) -> Option<Seq<char>> {
    if has_ref_extension(name) || name == seq![0x2eu8, 0x2eu8] {
        None
    } else {
        Some(text::decoded(file_stem(name)))
    }
}

/// The id of the session whose file has the given name; `None` where the
/// entry is to be left unread.
pub fn session_id(name: &[u8]) -> (r: Option<String>)
    ensures
        match r {
            Some(sid) => session_id_spec(name@) == Some(sid@),
            None => session_id_spec(name@) is None,
        },
{
    let n = name.len();
    let mut dot: usize = n;
    assert(name@.take(n as int) == name@);
    while dot > 0 && name[dot - 1] != 0x2e
        invariant
            n == name@.len(),
            dot <= n,
            last_dot(name@.take(dot as int)) == last_dot(name@),
        decreases dot,
    {
        assert(name@.take(dot as int).drop_last() == name@.take(dot - 1));
        dot = dot - 1;
    }
    assert(last_dot(name@) == dot - 1);
    if n == 2 && name[0] == 0x2e && name[1] == 0x2e {
        assert(name@ == seq![0x2eu8, 0x2eu8]);
        return None;
    }
    if dot <= 1 {
        return Some(text::decode(name));
    }
    if n - dot == 3 && name[dot] == 0x72 && name[dot + 1] == 0x65 && name[dot + 2] == 0x66 {
        assert(name@.skip(dot as int) == seq![0x72u8, 0x65u8, 0x66u8]);
        return None;
    }
    proof {
        if name@.skip(dot as int) == seq![0x72u8, 0x65u8, 0x66u8] {
            assert(name@.skip(dot as int).len() == 3);
            assert(name@.skip(dot as int)[0] == 0x72u8);
            assert(name@.skip(dot as int)[1] == 0x65u8);
            assert(name@.skip(dot as int)[2] == 0x66u8);
        }
    }
    let stem = vstd::slice::slice_subrange(name, 0, dot - 1);
    assert(name@.subrange(0, dot - 1) == name@.take(dot - 1));
    Some(text::decode(stem))
}

/// The session that a directory entry describes, if it does.
pub open spec fn session_of(file: SessionFileView) -> Option<SessionView> {
    match (session_id_spec(file.name), file.content) {
        (Some(sid), Some(content)) => Some(
            SessionView { sid, fields: fields::fields_of(content) },
        ),
        _ => None,
    }
}

/// The sessions that the entries describe, in the entries' order.
pub open spec fn sessions_of(files: Seq<SessionFileView>) -> Seq<SessionView>
    decreases files.len(),
{
    if files.len() == 0 {
        Seq::empty()
    } else {
        let before = sessions_of(files.drop_last());
        match session_of(files.last()) {
            Some(s) => before.push(s),
            None => before,
        }
    }
}

/// The sessions that a listing of the session directory describes; none where
/// the directory could not be read or describes no session.
pub open spec fn listed_sessions(files: Option<Seq<SessionFileView>>) -> Option<
    Seq<SessionView>,
> {
    match files {
        Some(f) => if sessions_of(f).len() == 0 {
            None
        } else {
            Some(sessions_of(f))
        },
        None => None,
    }
}

/// The listing that an optional vector of entries holds.
pub open spec fn listing(files: Option<Vec<SessionFile>>) -> Option<Seq<SessionFileView>> {
    match files {
        Some(f) => Some(session_files(f@)),
        None => None,
    }
}

/// Every session that the entries of `/run/systemd/sessions` describe,
/// skipping the `.ref` FIFOs and unreadable entries. `files` is `None` where
/// the directory could not be read.
pub fn list_sessions(files: Option<Vec<SessionFile>>) -> (r: Option<Vec<Session>>)
    ensures
        match r {
            Some(s) => listed_sessions(listing(files)) == Some(sessions(s@)),
            None => listed_sessions(listing(files)) is None,
        },
{
    let files = match files {
        Some(f) => f,
        None => {
            return None;
        },
    };
    let ghost all = session_files(files@);
    let mut out: Vec<Session> = Vec::new();
    assert(sessions(out@) == sessions_of(all.take(0)));
    for i in 0..files.len()
        invariant
            all == session_files(files@),
            sessions(out@) == sessions_of(all.take(i as int)),
    {
        assert(all.take(i + 1).drop_last() == all.take(i as int));
        assert(all.take(i + 1).last() == files@[i as int]@);
        let ghost before = sessions(out@);
        if let Some(sid) = session_id(files[i].name.as_slice()) {
            if let Some(content) = &files[i].content {
                let s = Session { sid, fields: fields::parse_fields(content.as_str()) };
                out.push(s);
                assert(sessions(out@) == before.push(s@));
            }
        }
    }
    assert(all.take(files@.len() as int) == all);
    if out.len() == 0 {
        None
    } else {
        Some(out)
    }
}

/// Whether the fields say that the session is active.
pub open spec fn active(fields: Map<Seq<char>, Seq<char>>) -> bool {
    ||| fields::field_is(fields, "STATE"@, "active"@)
    ||| fields::field_is(fields, "ACTIVE"@, "1"@)
}

/// Whether the fields say that the session sits at `seat0`.
pub open spec fn at_seat0(fields: Map<Seq<char>, Seq<char>>) -> bool {
    fields::field_is(fields, "SEAT"@, "seat0"@)
}

/// Whether the field `key` is there and is `value`, but for white space
/// around it.
fn field_equals(fields: &Fields, key: &str, value: &str) -> (r: bool)
    ensures
        r == fields::field_is(fields@, key@, value@),
{
    match fields.get(key) {
        Some(v) => text::same_text(text::trim(v.as_str()), value),
        None => false,
    }
}

/// Whether the fields say that the session is active.
pub fn is_active_fields(fields: &Fields) -> (r: bool)
    ensures
        r == active(fields@),
{
    field_equals(fields, "STATE", "active") || field_equals(fields, "ACTIVE", "1")
}

/// Whether the fields say that the session sits at `seat0`.
pub fn is_seat0_fields(fields: &Fields) -> (r: bool)
    ensures
        r == at_seat0(fields@),
{
    field_equals(fields, "SEAT", "seat0")
}

/// The field `key` without white space around it, or the empty text.
pub open spec fn field_or_empty(fields: Map<Seq<char>, Seq<char>>, key: Seq<char>) -> Seq<char> {
    match fields::trimmed_field(fields, key) {
        Some(v) => v,
        None => Seq::empty(),
    }
}

/// The value of a session at one index: 0 is its id, 1 its user's id, 2 its
/// user's name; there is nothing at any other.
pub open spec fn session_value(session: SessionView, index: usize) -> Seq<char> {
    if index == 0 {
        session.sid
    } else if index == 1 {
        field_or_empty(session.fields, "UID"@)
    } else if index == 2 {
        field_or_empty(session.fields, "USER"@)
    } else {
        Seq::empty()
    }
}

/// The values of a session at the given indices.
pub open spec fn session_values(session: SessionView, indices: Seq<usize>) -> Seq<Seq<char>> {
    indices.map_values(|i: usize| session_value(session, i))
}

/// The field `key` without white space around it, or the empty text.
fn field_value(fields: &Fields, key: &str) -> (r: String)
    ensures
        r@ == field_or_empty(fields@, key@),
{
    match fields.get(key) {
        Some(v) => text::trim(v.as_str()).to_owned(),
        None => String::new(),
    }
}

/// The values of a session at the given indices: index 0 = sid, 1 = uid,
/// 2 = username.
pub fn map_session_values(sid: &str, fields: &Fields, indices: &[usize]) -> (r: Vec<String>)
    ensures
        text::strings(r@) == session_values(
            (SessionView { sid: sid@, fields: fields@ }),
            indices@,
        ),
{
    let ghost session = SessionView { sid: sid@, fields: fields@ };
    let mut out: Vec<String> = Vec::new();
    for i in 0..indices.len()
        invariant
            session == (SessionView { sid: sid@, fields: fields@ }),
            text::strings(out@) == session_values(session, indices@.take(i as int)),
    {
        let ghost before = text::strings(out@);
        let value = match indices[i] {
            0 => sid.to_owned(),
            1 => field_value(fields, "UID"),
            2 => field_value(fields, "USER"),
            _ => String::new(),
        };
        out.push(value);
        assert(text::strings(out@) == before.push(value@));
        assert(session_values(session, indices@.take(i + 1)) == session_values(
            session,
            indices@.take(i as int),
        ).push(session_value(session, indices@[i as int])));
    }
    assert(indices@.take(indices@.len() as int) == indices@);
    out
}

/// The words of `line` at the given indices; the empty text where there is no
/// such word.
pub open spec fn words_at(line: Seq<char>, indices: Seq<usize>) -> Seq<Seq<char>> {
    indices.map_values(
        |i: usize|
            if i < text::words(line).len() {
                text::words(line)[i as int]
            } else {
                Seq::empty()
            },
    )
}

/// The words of `line` at the given indices.
pub fn line_values(indices: &[usize], line: &str) -> (r: Vec<String>)
    ensures
        text::strings(r@) == words_at(line@, indices@),
{
    let words = text::split_whitespace(line);
    let mut out: Vec<String> = Vec::new();
    for i in 0..indices.len()
        invariant
            text::texts(words@) == text::words(line@),
            text::strings(out@) == words_at(line@, indices@.take(i as int)),
    {
        let ghost before = text::strings(out@);
        let k = indices[i];
        let value = if k < words.len() {
            assert(text::texts(words@)[k as int] == words@[k as int]@);
            words[k].to_owned()
        } else {
            String::new()
        };
        out.push(value);
        assert(text::strings(out@) == before.push(value@));
        assert(words_at(line@, indices@.take(i + 1)) == words_at(
            line@,
            indices@.take(i as int),
        ).push(value@));
    }
    assert(indices@.take(indices@.len() as int) == indices@);
    out
}

/// Where a session with the id `sid` goes in `list`: before the first session
/// whose id comes after `sid`.
pub open spec fn slot(list: Seq<SessionView>, sid: Seq<char>) -> int
    decreases list.len(),
{
    if list.len() == 0 || text::comes_before(sid, list[0].sid) {
        0
    } else {
        1 + slot(list.skip(1), sid)
    }
}

/// `list` in the order of the ids; sessions with the same id stay in the order
/// they had.
pub open spec fn by_id(list: Seq<SessionView>) -> Seq<SessionView>
    decreases list.len(),
{
    if list.len() == 0 {
        list
    } else {
        let before = by_id(list.drop_last());
        before.insert(slot(before, list.last().sid), list.last())
    }
}

/// Sorts sessions by their ids; sessions with the same id stay in the order
/// they had.
pub fn sort_sessions(list: Vec<Session>) -> (r: Vec<Session>)
    ensures
        sessions(r@) == by_id(sessions(list@)),
{
    let ghost all = sessions(list@);
    let n = list.len();
    let mut rest = list;
    let mut out: Vec<Session> = Vec::new();
    assert(all.take(0) == Seq::<SessionView>::empty());
    assert(sessions(out@) == by_id(all.take(0)));
    for i in 0..n
        invariant
            n == all.len(),
            sessions(rest@) == all.skip(i as int),
            sessions(out@) == by_id(all.take(i as int)),
    {
        assert(rest@.len() == all.skip(i as int).len());
        assert(sessions(rest@)[0] == rest@[0]@);
        let ghost rest_before = rest@;
        let s = rest.remove(0);
        assert(s@ == all[i as int]);
        assert(sessions(rest@) == sessions(rest_before).skip(1));
        assert(all.skip(i as int).skip(1) == all.skip(i + 1));
        let mut k: usize = 0;
        let ghost before = sessions(out@);
        assert(before.skip(0) == before);
        while k < out.len() && !text::precedes(s.sid.as_str(), out[k].sid.as_str())
            invariant
                k <= out.len(),
                before == sessions(out@),
                k + slot(before.skip(k as int), s.sid@) == slot(before, s.sid@),
            decreases out.len() - k,
        {
            assert(before.skip(k as int)[0] == out@[k as int]@);
            assert(before.skip(k as int).skip(1) == before.skip(k + 1));
            k = k + 1;
        }
        proof {
            if k < out.len() {
                assert(before.skip(k as int)[0] == out@[k as int]@);
            }
        }
        out.insert(k, s);
        assert(sessions(out@) == before.insert(k as int, s@));
        assert(all.take(i + 1).drop_last() == all.take(i as int));
        assert(all.take(i + 1).last() == s@);
    }
    assert(all.take(n as int) == all);
    out
}

/// Whether no session of `list` has an id that comes before an earlier one's.
pub open spec fn in_order(list: Seq<SessionView>) -> bool {
    forall|i: int, j: int|
        0 <= i < j < list.len() ==> !text::comes_before(
            (#[trigger] list[j]).sid,
            (#[trigger] list[i]).sid,
        )
}

proof fn slot_splits(list: Seq<SessionView>, sid: Seq<char>)
    requires
        in_order(list),
    ensures
        0 <= slot(list, sid) <= list.len(),
        forall|i: int|
            0 <= i < slot(list, sid) ==> !text::comes_before(sid, (#[trigger] list[i]).sid),
        forall|i: int|
            slot(list, sid) <= i < list.len() ==> text::comes_before(sid, (#[trigger] list[i]).sid),
    decreases list.len(),
{
    if list.len() > 0 {
        if text::comes_before(sid, list[0].sid) {
            assert forall|i: int| 0 <= i < list.len() implies text::comes_before(
                sid,
                (#[trigger] list[i]).sid,
            ) by {
                text::order_is_total(list[i].sid, list[0].sid);
                if list[i].sid != list[0].sid {
                    text::order_is_transitive(sid, list[0].sid, list[i].sid);
                }
            }
        } else {
            let tail = list.skip(1);
            slot_splits(tail, sid);
            assert forall|i: int| 0 < i < list.len() implies list[i] == tail[i - 1] by {}
        }
    }
}

/// Sorting by id puts the ids in order.
pub proof fn by_id_is_in_order(list: Seq<SessionView>)
    ensures
        in_order(by_id(list)),
    decreases list.len(),
{
    if list.len() > 0 {
        let before = by_id(list.drop_last());
        let sid = list.last().sid;
        by_id_is_in_order(list.drop_last());
        slot_splits(before, sid);
        let k = slot(before, sid);
        before.insert_ensures(k, list.last());
        let after = before.insert(k, list.last());
        assert forall|i: int, j: int| 0 <= i < j < after.len() implies !text::comes_before(
            (#[trigger] after[j]).sid,
            (#[trigger] after[i]).sid,
        ) by {
            if i < k {
                assert(after[i] == before[i]);
            } else if i > k {
                assert(after[i] == before[i - 1]);
            }
            if j < k {
                assert(after[j] == before[j]);
            } else if j > k {
                assert(after[j] == before[j - 1]);
            }
            text::order_is_total(after[j].sid, after[i].sid);
        }
    }
}

/// Sorting by id keeps every session, as often as it was there.
pub proof fn by_id_keeps_sessions(list: Seq<SessionView>)
    ensures
        by_id(list).to_multiset() == list.to_multiset(),
        by_id(list).len() == list.len(),
    decreases list.len(),
{
    if list.len() > 0 {
        let before = by_id(list.drop_last());
        by_id_keeps_sessions(list.drop_last());
        by_id_is_in_order(list.drop_last());
        slot_splits(before, list.last().sid);
        let k = slot(before, list.last().sid);
        let after = before.insert(k, list.last());
        before.insert_ensures(k, list.last());
        assert(after.remove(k) == before);
        after.to_multiset_ensures();
        list.drop_last().to_multiset_ensures();
        assert(list.drop_last().push(list.last()) == list);
        assert(after.contains(after[k]));
        assert(after.to_multiset() =~= before.to_multiset().insert(list.last()));
    }
}

/// Sorting by id leaves sessions with the same id in the order they had.
pub proof fn by_id_is_stable(list: Seq<SessionView>, sid: Seq<char>)
    ensures
        by_id(list).filter(|s: SessionView| s.sid == sid) == list.filter(
            |s: SessionView| s.sid == sid,
        ),
    decreases list.len(),
{
    let same = |s: SessionView| s.sid == sid;
    reveal(Seq::filter);
    if list.len() > 0 {
        let before = by_id(list.drop_last());
        let x = list.last();
        by_id_is_stable(list.drop_last(), sid);
        by_id_is_in_order(list.drop_last());
        slot_splits(before, x.sid);
        let k = slot(before, x.sid);
        let low = before.subrange(0, k);
        let high = before.subrange(k, before.len() as int);
        assert(low + high == before);
        Seq::filter_distributes_over_add(low, high, same);
        Seq::filter_distributes_over_add(low.push(x), high, same);
        assert(low.push(x).drop_last() == low);
        if same(x) {
            assert forall|i: int| 0 <= i < high.len() implies !same(#[trigger] high[i]) by {
                assert(high[i] == before[i + k]);
                text::order_is_total(x.sid, high[i].sid);
            }
            assert forall|s: SessionView| #[trigger] high.contains(s) implies !same(s) by {
                let i = choose|i: int| 0 <= i < high.len() && high[i] == s;
            }
            high.lemma_all_neg_filter_empty(same);
            assert(high.filter(same) == Seq::<SessionView>::empty());
        }
        assert(list.filter(same) == if same(x) {
            list.drop_last().filter(same).push(x)
        } else {
            list.drop_last().filter(same)
        });
    }
}

/// A directory entry that describes no session, be it a `.ref` FIFO or a file
/// that cannot be read, changes nothing.
pub proof fn other_entries_are_skipped(files: Seq<SessionFileView>, file: SessionFileView)
    requires
        has_ref_extension(file.name) || file.content is None,
    ensures
        listed_sessions(Some(files.push(file))) == listed_sessions(Some(files)),
{
    assert(files.push(file).drop_last() == files);
}

/// A name that ends in `.ref` after at least one other character has the
/// extension `ref`.
pub proof fn ref_names_have_ref_extension(stem: Seq<u8>)
    requires
        stem.len() > 0,
    ensures
        has_ref_extension(stem + seq![0x2eu8, 0x72u8, 0x65u8, 0x66u8]),
{
    let name = stem + seq![0x2eu8, 0x72u8, 0x65u8, 0x66u8];
    reveal_with_fuel(last_dot, 5);
    let n = stem.len() as int;
    assert(name.drop_last().last() == 0x65u8);
    assert(name.drop_last().drop_last().last() == 0x72u8);
    assert(name.drop_last().drop_last().drop_last().last() == 0x2eu8);
    assert(last_dot(name) == n);
    assert(name.skip(n + 1) =~= seq![0x72u8, 0x65u8, 0x66u8]);
}

/// Whether no two sessions of `list` have the same id.
pub open spec fn distinct_ids(list: Seq<SessionView>) -> bool {
    forall|i: int, j: int|
        0 <= i < j < list.len() ==> (#[trigger] list[i]).sid != (#[trigger] list[j]).sid
}

/// Lists with the same sessions both have distinct ids, or neither.
proof fn same_members_same_ids(a: Seq<SessionView>, b: Seq<SessionView>)
    requires
        a.to_multiset() == b.to_multiset(),
        distinct_ids(a),
    ensures
        distinct_ids(b),
        a.len() == b.len(),
{
    a.to_multiset_ensures();
    b.to_multiset_ensures();
    assert(a.no_duplicates());
    a.lemma_multiset_has_no_duplicates();
    assert forall|x: SessionView| b.to_multiset().contains(x) implies b.to_multiset().count(x)
        == 1 by {}
    b.lemma_multiset_has_no_duplicates_conv();
    assert forall|i: int, j: int| 0 <= i < j < b.len() implies (#[trigger] b[i]).sid != (
    #[trigger] b[j]).sid by {
        assert(b.contains(b[i]) && b.contains(b[j]));
        assert(a.to_multiset().count(b[i]) > 0 && a.to_multiset().count(b[j]) > 0);
        assert(a.contains(b[i]) && a.contains(b[j]));
        let k = choose|k: int| 0 <= k < a.len() && a[k] == b[i];
        let l = choose|l: int| 0 <= l < a.len() && a[l] == b[j];
        assert(b[i] != b[j]);
        assert(k != l);
        if k < l {
            assert(a[k].sid != a[l].sid);
        } else {
            assert(a[l].sid != a[k].sid);
        }
    }
}

proof fn ordered_lists_are_equal(a: Seq<SessionView>, b: Seq<SessionView>)
    requires
        a.to_multiset() == b.to_multiset(),
        distinct_ids(a),
        in_order(a),
        in_order(b),
    ensures
        a == b,
    decreases a.len(),
{
    same_members_same_ids(a, b);
    a.to_multiset_ensures();
    b.to_multiset_ensures();
    if a.len() > 0 {
        let n = a.len() - 1;
        assert(a.contains(a[n]) && b.contains(b[n]));
        assert(b.to_multiset().count(a[n]) > 0 && a.to_multiset().count(b[n]) > 0);
        assert(b.contains(a[n]) && a.contains(b[n]));
        let i = choose|i: int| 0 <= i < b.len() && b[i] == a[n];
        let j = choose|j: int| 0 <= j < a.len() && a[j] == b[n];
        text::order_is_total(a[n].sid, b[n].sid);
        assert(i < n ==> !text::comes_before(b[n].sid, b[i].sid));
        assert(j < n ==> !text::comes_before(a[n].sid, a[j].sid));
        assert(a[n].sid == b[n].sid);
        if j < n {
            assert(a[j].sid != a[n].sid);
        }
        assert(a[n] == b[n]);
        assert(a.remove(n) =~= a.drop_last());
        assert(b.remove(n) =~= b.drop_last());
        ordered_lists_are_equal(a.drop_last(), b.drop_last());
        assert(a =~= a.drop_last().push(a[n]));
        assert(b =~= b.drop_last().push(b[n]));
    } else {
        assert(a =~= b);
    }
}

/// Where no two sessions have the same id, the order in which the directory
/// lists them does not matter.
pub proof fn listing_order_does_not_matter(a: Seq<SessionView>, b: Seq<SessionView>)
    requires
        a.to_multiset() == b.to_multiset(),
        distinct_ids(a),
    ensures
        by_id(a) == by_id(b),
{
    by_id_keeps_sessions(a);
    by_id_keeps_sessions(b);
    by_id_is_in_order(a);
    by_id_is_in_order(b);
    same_members_same_ids(a, by_id(a));
    ordered_lists_are_equal(by_id(a), by_id(b));
}

/// Two lists of entries, one after the other, describe the sessions of the
/// one and then those of the other.
proof fn sessions_of_parts(a: Seq<SessionFileView>, b: Seq<SessionFileView>)
    ensures
        sessions_of(a + b) == sessions_of(a) + sessions_of(b),
    decreases b.len(),
{
    if b.len() == 0 {
        assert(a + b =~= a);
    } else {
        sessions_of_parts(a, b.drop_last());
        assert((a + b).drop_last() =~= a + b.drop_last());
    }
}

/// What an entry adds to the sessions that a list of entries describes.
spec fn with_session(
    sessions: vstd::multiset::Multiset<SessionView>,
    file: SessionFileView,
) -> vstd::multiset::Multiset<SessionView> {
    match session_of(file) {
        Some(s) => sessions.insert(s),
        None => sessions,
    }
}

/// An entry adds the same to the sessions wherever it stands.
proof fn sessions_without_entry(files: Seq<SessionFileView>, i: int)
    requires
        0 <= i < files.len(),
    ensures
        sessions_of(files).to_multiset() == with_session(
            sessions_of(files.remove(i)).to_multiset(),
            files[i],
        ),
{
    let low = files.take(i);
    let one = seq![files[i]];
    let high = files.skip(i + 1);
    assert(files =~= low + one + high);
    assert(files.remove(i) =~= low + high);
    sessions_of_parts(low + one, high);
    sessions_of_parts(low, one);
    sessions_of_parts(low, high);
    assert(one.drop_last() == Seq::<SessionFileView>::empty());
    vstd::seq_lib::lemma_multiset_commutative(sessions_of(low) + sessions_of(one), sessions_of(high));
    vstd::seq_lib::lemma_multiset_commutative(sessions_of(low), sessions_of(one));
    vstd::seq_lib::lemma_multiset_commutative(sessions_of(low), sessions_of(high));
    let none = Seq::<SessionView>::empty();
    none.to_multiset_ensures();
    match session_of(files[i]) {
        Some(s) => {
            assert(sessions_of(one) == none.push(s)) by {
                reveal_with_fuel(sessions_of, 2);
            }
            assert(sessions_of(files).to_multiset() =~= sessions_of(files.remove(
                i,
            )).to_multiset().insert(s));
        },
        None => {
            assert(sessions_of(one) == none) by {
                reveal_with_fuel(sessions_of, 2);
            }
            assert(sessions_of(files).to_multiset() =~= sessions_of(
                files.remove(i),
            ).to_multiset());
        },
    }
}

/// The same entries in another order describe the same sessions.
pub proof fn same_entries_same_sessions(a: Seq<SessionFileView>, b: Seq<SessionFileView>)
    requires
        a.to_multiset() == b.to_multiset(),
    ensures
        sessions_of(a).to_multiset() == sessions_of(b).to_multiset(),
    decreases a.len(),
{
    a.to_multiset_ensures();
    b.to_multiset_ensures();
    if a.len() > 0 {
        let n = a.len() - 1;
        assert(b.to_multiset().count(a[n]) > 0);
        let i = choose|i: int| 0 <= i < b.len() && b[i] == a[n];
        sessions_without_entry(a, n);
        sessions_without_entry(b, i);
        same_entries_same_sessions(a.remove(n), b.remove(i));
    }
}

/// A session is active if and only if its field `STATE` is `active` or its
/// field `ACTIVE` is `1`, but for white space around them; no other field
/// matters. It sits at `seat0` if and only if its field `SEAT` says so.
pub proof fn state_and_active_tell(
    f: Map<Seq<char>, Seq<char>>,
    g: Map<Seq<char>, Seq<char>>,
)
    ensures
        active(f) <==> {
            ||| f.contains_key("STATE"@) && text::trim_spec(f["STATE"@]) == "active"@
            ||| f.contains_key("ACTIVE"@) && text::trim_spec(f["ACTIVE"@]) == "1"@
        },
        at_seat0(f) <==> f.contains_key("SEAT"@) && text::trim_spec(f["SEAT"@]) == "seat0"@,
        ({
            &&& f.contains_key("STATE"@) == g.contains_key("STATE"@)
            &&& f.contains_key("STATE"@) ==> f["STATE"@] == g["STATE"@]
            &&& f.contains_key("ACTIVE"@) == g.contains_key("ACTIVE"@)
            &&& f.contains_key("ACTIVE"@) ==> f["ACTIVE"@] == g["ACTIVE"@]
        }) ==> active(f) == active(g),
{
}

/// There is one value for each index: at 0 the session's id as it is, at 1 and
/// 2 its fields `UID` and `USER` without white space around them, and the
/// empty text for a field that is missing and at any other index.
pub proof fn values_by_index(s: SessionView, indices: Seq<usize>)
    ensures
        session_values(s, indices).len() == indices.len(),
        forall|k: int|
            0 <= k < indices.len() ==> {
                let v = #[trigger] session_values(s, indices)[k];
                &&& indices[k] == 0 ==> v == s.sid
                &&& indices[k] == 1 && s.fields.contains_key("UID"@) ==> v == text::trim_spec(
                    s.fields["UID"@],
                )
                &&& indices[k] == 1 && !s.fields.contains_key("UID"@) ==> v.len() == 0
                &&& indices[k] == 2 && s.fields.contains_key("USER"@) ==> v == text::trim_spec(
                    s.fields["USER"@],
                )
                &&& indices[k] == 2 && !s.fields.contains_key("USER"@) ==> v.len() == 0
                &&& indices[k] > 2 ==> v.len() == 0
            },
{
}

/// There is one word of a line for each index, counted from 0, and the empty
/// text where the line has no such word.
pub proof fn words_by_index(line: Seq<char>, indices: Seq<usize>)
    ensures
        words_at(line, indices).len() == indices.len(),
        forall|k: int|
            0 <= k < indices.len() ==> {
                let w = #[trigger] words_at(line, indices)[k];
                let i = indices[k] as int;
                &&& i < text::words(line).len() ==> w == text::words(line)[i]
                &&& i >= text::words(line).len() ==> w.len() == 0
            },
{
}

proof fn last_dot_parts(stem: Seq<u8>, rest: Seq<u8>)
    requires
        !rest.contains(0x2e),
    ensures
        last_dot(rest) == -1,
        last_dot(stem + seq![0x2eu8] + rest) == stem.len(),
    decreases rest.len(),
{
    let name = stem + seq![0x2eu8] + rest;
    if rest.len() == 0 {
        assert(name.last() == 0x2e);
    } else {
        let front = rest.drop_last();
        assert(rest.contains(rest.last()));
        assert(!front.contains(0x2e)) by {
            if front.contains(0x2e) {
                let k = choose|k: int| 0 <= k < front.len() && front[k] == 0x2e;
                assert(rest[k] == 0x2e);
            }
        }
        last_dot_parts(stem, front);
        assert(name.drop_last() == stem + seq![0x2eu8] + front);
        assert(name.last() == rest.last());
    }
}

/// A session's id is the name of its file up to the last `.`, or the whole
/// name where there is no `.` or only one at the start. A name with the
/// extension `ref`, and `..`, gives none.
pub proof fn ids_of_names(stem: Seq<u8>, rest: Seq<u8>)
    requires
        !rest.contains(0x2e),
    ensures
        ({
            let extension = seq![0x72u8, 0x65u8, 0x66u8];
            let name = stem + seq![0x2eu8] + rest;
            &&& session_id_spec(rest) == Some(text::decoded(rest))
            &&& session_id_spec(seq![0x2eu8] + rest) == Some(text::decoded(seq![0x2eu8] + rest))
            &&& stem.len() > 0 && rest == extension ==> session_id_spec(name) is None
            &&& stem.len() > 0 && rest != extension && name != seq![0x2eu8, 0x2eu8]
                ==> session_id_spec(name) == Some(text::decoded(stem))
            &&& session_id_spec(seq![0x2eu8, 0x2eu8]) is None
        }),
{
    let none = Seq::<u8>::empty();
    let name = stem + seq![0x2eu8] + rest;
    last_dot_parts(stem, rest);
    last_dot_parts(none, rest);
    assert(none + seq![0x2eu8] + rest == seq![0x2eu8] + rest);
    assert(name.skip(stem.len() as int + 1) == rest);
    assert(name.take(stem.len() as int) == stem);
    if rest == seq![0x2eu8, 0x2eu8] {
        assert(rest[0] == 0x2e);
    }
    if seq![0x2eu8] + rest == seq![0x2eu8, 0x2eu8] {
        assert((seq![0x2eu8] + rest)[1] == 0x2e);
        assert(rest[0] == 0x2e);
    }
}

/// Each entry with the name of a session and a content adds one session behind
/// those before it, with the id of its name and the fields of its content; any
/// other entry adds none. A directory without sessions is as one that cannot
/// be read.
pub proof fn entries_add_their_sessions(files: Seq<SessionFileView>, file: SessionFileView)
    ensures
        sessions_of(Seq::empty()) == Seq::<SessionView>::empty(),
        match (session_id_spec(file.name), file.content) {
            (Some(sid), Some(content)) => {
                let more = sessions_of(files.push(file));
                &&& more.len() == sessions_of(files).len() + 1
                &&& more.drop_last() == sessions_of(files)
                &&& more.last().sid == sid
                &&& more.last().fields == fields::fields_of(content)
            },
            _ => sessions_of(files.push(file)) == sessions_of(files),
        },
        sessions_of(files).len() > 0 ==> listed_sessions(Some(files)) == Some(sessions_of(files)),
        sessions_of(files).len() == 0 ==> listed_sessions(Some(files)) is None,
        listed_sessions(None) is None,
{
    assert(files.push(file).drop_last() == files);
}

/// Entries and sessions are taken as they are.
pub proof fn entries_are_taken_as_they_are(
    f: SessionFile,
    s: Session,
    files: Seq<SessionFile>,
    list: Seq<Session>,
)
    ensures
        f@.name == f.name@,
        f.content matches Some(c) ==> f@.content == Some(c@),
        f.content is None ==> f@.content is None,
        s@.sid == s.sid@,
        s@.fields == s.fields@,
        session_files(files).len() == files.len(),
        forall|i: int| 0 <= i < files.len() ==> #[trigger] session_files(files)[i] == files[i]@,
        sessions(list).len() == list.len(),
        forall|i: int| 0 <= i < list.len() ==> #[trigger] sessions(list)[i] == list[i]@,
{
}

} // verus!

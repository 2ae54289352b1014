//! The registry of device push tokens per recipient key (`supplier:<ref>`,
//! `werka:werka`, ...): a token is registered under one key at a time.
use vstd::prelude::*;

use crate::text::{
    chars_eq, chars_of, lemma_trim_idempotent, string_of, trim, trim_chars, trimmed_string,
};

verus! {

/// A registered device token.
#[derive(Clone, Debug)]
pub struct PushTokenRecord {
    pub token: String,
    pub platform: String,
    /// When the token was registered, in nanoseconds since the Unix epoch.
    pub updated_at_nanos: i128,
}

/// The view of a token record: token, platform, registration time.
pub type RecordView = (Seq<char>, Seq<char>, i128);

impl PushTokenRecord {
    /// The view of the record.
    pub open spec fn view_of(self) -> RecordView {
        (self.token@, self.platform@, self.updated_at_nanos)
    }

    /// A copy of the record.
    pub fn duplicate(&self) -> (r: Self)
        ensures
            r.view_of() == self.view_of(),
    {
        PushTokenRecord {
            token: self.token.clone(),
            platform: self.platform.clone(),
            updated_at_nanos: self.updated_at_nanos,
        }
    }
}

/// The views of a list of records.
pub open spec fn records_view(v: Seq<PushTokenRecord>) -> Seq<RecordView> {
    v.map_values(|r: PushTokenRecord| r.view_of())
}

/// `rs` without the records whose trimmed token is `t`.
pub open spec fn drop_token(rs: Seq<RecordView>, t: Seq<char>) -> Seq<RecordView>
    decreases rs.len(),
{
    if rs.len() == 0 {
        Seq::empty()
    } else if trim(rs.last().0) == t {
        drop_token(rs.drop_last(), t)
    } else {
        drop_token(rs.drop_last(), t).push(rs.last())
    }
}

/// The records registered under `key` (none when the key is unknown).
pub open spec fn list_spec(m: Map<Seq<char>, Seq<RecordView>>, key: Seq<char>) -> Seq<RecordView> {
    if m.contains_key(key) {
        m[key]
    } else {
        Seq::empty()
    }
}

/// The registry after registering token `t` with platform `p` at `now`
/// under key `k`: the token leaves every list, lists left empty disappear,
/// and the record is appended to `k`'s list.
pub open spec fn move_spec(
    m: Map<Seq<char>, Seq<RecordView>>,
    k: Seq<char>,
    t: Seq<char>,
    p: Seq<char>,
    now: i128,
) -> Map<Seq<char>, Seq<RecordView>> {
    let cleaned = Map::new(
        |key: Seq<char>| m.contains_key(key) && drop_token(m[key], t).len() > 0,
        |key: Seq<char>| drop_token(m[key], t),
    );
    cleaned.insert(k, list_spec(cleaned, k).push((t, p, now)))
}

/// The registry after removing token `t` from key `k`; the key disappears
/// when its list becomes empty.
pub open spec fn delete_spec(m: Map<Seq<char>, Seq<RecordView>>, k: Seq<char>, t: Seq<char>) -> Map<
    Seq<char>,
    Seq<RecordView>,
> {
    if m.contains_key(k) {
        if drop_token(m[k], t).len() == 0 {
            m.remove(k)
        } else {
            m.insert(k, drop_token(m[k], t))
        }
    } else {
        m
    }
}

/// One recipient key and its records.
#[derive(Debug)]
pub struct PushTokenEntry {
    pub key: String,
    pub records: Vec<PushTokenRecord>,
}

/// The device tokens registered per recipient key.
#[derive(Debug)]
pub struct PushTokenCache {
    entries: Vec<PushTokenEntry>,
}

/// Whether the entries have distinct keys.
pub open spec fn distinct_keys(e: Seq<PushTokenEntry>) -> bool {
    forall|i: int, j: int|
        0 <= i < e.len() && 0 <= j < e.len() && i != j ==> (#[trigger] e[i]).key@ != (#[trigger] e[j]).key@
}

/// Whether some entry has key `k`.
pub open spec fn has_key(e: Seq<PushTokenEntry>, k: Seq<char>) -> bool {
    exists|i: int| 0 <= i < e.len() && (#[trigger] e[i]).key@ == k
}

/// The registry that a list of entries with distinct keys stands for.
pub open spec fn entries_map(e: Seq<PushTokenEntry>) -> Map<Seq<char>, Seq<RecordView>> {
    Map::new(
        |k: Seq<char>| has_key(e, k),
        |k: Seq<char>| records_view(e[choose|i: int| 0 <= i < e.len() && (#[trigger] e[i]).key@ == k].records@),
    )
}

proof fn lemma_entries_map_at(e: Seq<PushTokenEntry>, i: int)
    requires
        distinct_keys(e),
        0 <= i < e.len(),
    ensures
        entries_map(e).contains_key(e[i].key@),
        entries_map(e)[e[i].key@] == records_view(e[i].records@),
{
    let k = e[i].key@;
    assert(has_key(e, k));
    let j = choose|j: int| 0 <= j < e.len() && (#[trigger] e[j]).key@ == k;
    assert(j == i);
}

proof fn lemma_drop_token_free(rs: Seq<RecordView>, t: Seq<char>)
    ensures
        forall|i: int| 0 <= i < drop_token(rs, t).len() ==> trim(#[trigger] drop_token(rs, t)[i].0) != t,
    decreases rs.len(),
{
    if rs.len() > 0 {
        lemma_drop_token_free(rs.drop_last(), t);
        let d = drop_token(rs.drop_last(), t);
        if trim(rs.last().0) != t {
            assert forall|i: int| 0 <= i < d.len() + 1 implies trim(
                #[trigger] d.push(rs.last())[i].0,
            ) != t by {
                if i < d.len() {
                    assert(d.push(rs.last())[i] == d[i]);
                }
            }
        }
    }
}

proof fn lemma_drop_token_noop(rs: Seq<RecordView>, t: Seq<char>)
    requires
        forall|i: int| 0 <= i < rs.len() ==> trim(#[trigger] rs[i].0) != t,
    ensures
        drop_token(rs, t) == rs,
    decreases rs.len(),
{
    if rs.len() > 0 {
        assert(trim(rs[rs.len() - 1].0) != t);
        lemma_drop_token_noop(rs.drop_last(), t);
        assert(rs.drop_last().push(rs.last()) =~= rs);
    }
}

fn drop_token_exec(rs: &Vec<PushTokenRecord>, t: &[char]) -> (r: Vec<PushTokenRecord>)
    ensures
        records_view(r@) == drop_token(records_view(rs@), t@),
{
    let mut out: Vec<PushTokenRecord> = Vec::new();
    let mut i: usize = 0;
    while i < rs.len()
        invariant
            i <= rs@.len(),
            records_view(out@) == drop_token(records_view(rs@).take(i as int), t@),
        decreases rs@.len() - i,
    {
        let tok = trim_chars(chars_of(rs[i].token.as_str()).as_slice());
        let ghost prefix = records_view(rs@).take(i + 1);
        assert(prefix.drop_last() =~= records_view(rs@).take(i as int));
        assert(prefix.last() == rs@[i as int].view_of());
        if !chars_eq(tok.as_slice(), t) {
            let ghost before = records_view(out@);
            out.push(rs[i].duplicate());
            assert(records_view(out@) =~= before.push(rs@[i as int].view_of()));
        }
        i = i + 1;
    }
    assert(records_view(rs@).take(rs@.len() as int) =~= records_view(rs@));
    out
}

fn copy_records(rs: &Vec<PushTokenRecord>) -> (r: Vec<PushTokenRecord>)
    ensures
        records_view(r@) == records_view(rs@),
{
    let mut out: Vec<PushTokenRecord> = Vec::new();
    let mut i: usize = 0;
    while i < rs.len()
        invariant
            i <= rs@.len(),
            records_view(out@) == records_view(rs@).take(i as int),
        decreases rs@.len() - i,
    {
        let ghost before = records_view(out@);
        out.push(rs[i].duplicate());
        assert(records_view(out@) =~= before.push(rs@[i as int].view_of()));
        assert(records_view(rs@).take(i + 1) =~= records_view(rs@).take(i as int).push(
            rs@[i as int].view_of(),
        ));
        i = i + 1;
    }
    assert(records_view(rs@).take(rs@.len() as int) =~= records_view(rs@));
    out
}

impl PushTokenCache {
    #[verifier::type_invariant]
    spec fn keys_distinct(self) -> bool {
        distinct_keys(self.entries@)
    }

    /// The registry: the records per recipient key.
    pub closed spec fn view(&self) -> Map<Seq<char>, Seq<RecordView>> {
        entries_map(self.entries@)
    }

    /// An empty registry.
    pub fn new() -> (r: Self)
        ensures
            r.view() == Map::<Seq<char>, Seq<RecordView>>::empty(),
    {
        let r = PushTokenCache { entries: Vec::new() };
        assert(r.view() =~= Map::<Seq<char>, Seq<RecordView>>::empty());
        r
    }

    fn index_of(&self, key: &[char]) -> (r: Option<usize>)
        ensures
            match r {
                Some(i) => i < self.entries@.len() && self.entries@[i as int].key@ == key@,
                None => !has_key(self.entries@, key@),
            },
    {
        let mut i: usize = 0;
        while i < self.entries.len()
            invariant
                i <= self.entries@.len(),
                forall|j: int| 0 <= j < i ==> (#[trigger] self.entries@[j]).key@ != key@,
            decreases self.entries@.len() - i,
        {
            let k = chars_of(self.entries[i].key.as_str());
            if chars_eq(k.as_slice(), key) {
                return Some(i);
            }
            i = i + 1;
        }
        None
    }

    /// The records registered under `key` (trimmed).
    pub fn list(&self, key: &str) -> (r: Vec<PushTokenRecord>)
        ensures
            records_view(r@) == list_spec(self.view(), trim(key@)),
    {
        proof {
            use_type_invariant(self);
        }
        let k = trim_chars(chars_of(key).as_slice());
        match self.index_of(k.as_slice()) {
            Some(i) => {
                proof {
                    lemma_entries_map_at(self.entries@, i as int);
                }
                copy_records(&self.entries[i].records)
            },
            None => {
                assert(!self.view().contains_key(k@));
                Vec::new()
            },
        }
    }

    /// Registers `token` (trimmed) with `platform` (trimmed) at time
    /// `now_nanos` under `target_key` (trimmed), taking it away from every
    /// other key.
    pub fn move_token_to_key(&mut self, target_key: &str, token: &str, platform: &str, now_nanos: i128)
        ensures
            final(self).view() == move_spec(
                old(self).view(),
                trim(target_key@),
                trim(token@),
                trim(platform@),
                now_nanos,
            ),
    {
        proof {
            use_type_invariant(&*self);
        }
        let t = trim_chars(chars_of(token).as_slice());
        let k = trim_chars(chars_of(target_key).as_slice());
        let ghost m = self.view();
        let ghost old_e = self.entries@;
        let ghost cleaned = Map::new(
            |key: Seq<char>| m.contains_key(key) && drop_token(m[key], t@).len() > 0,
            |key: Seq<char>| drop_token(m[key], t@),
        );
        let mut next: Vec<PushTokenEntry> = Vec::new();
        let mut target_base: Vec<PushTokenRecord> = Vec::new();
        let mut i: usize = 0;
        while i < self.entries.len()
            invariant
                old_e == self.entries@,
                distinct_keys(old_e),
                m == entries_map(old_e),
                cleaned == Map::new(
                    |key: Seq<char>| m.contains_key(key) && drop_token(m[key], t@).len() > 0,
                    |key: Seq<char>| drop_token(m[key], t@),
                ),
                i <= old_e.len(),
                distinct_keys(next@),
                forall|j: int| 0 <= j < next@.len() ==> (#[trigger] next@[j]).key@ != k@,
                forall|j: int|
                    0 <= j < next@.len() ==> cleaned.contains_key((#[trigger] next@[j]).key@)
                        && records_view(next@[j].records@) == cleaned[next@[j].key@],
                forall|j: int|
                    0 <= j < next@.len() ==> exists|a: int| 0 <= a < i && old_e[a].key@ == (#[trigger] next@[j]).key@,
                forall|a: int|
                    0 <= a < i && old_e[a].key@ != k@ && cleaned.contains_key((#[trigger] old_e[a]).key@)
                        ==> has_key(next@, old_e[a].key@),
                records_view(target_base@) == (if exists|a: int| 0 <= a < i && (#[trigger] old_e[a]).key@ == k@ {
                    drop_token(m[k@], t@)
                } else {
                    Seq::<RecordView>::empty()
                }),
            decreases old_e.len() - i,
        {
            proof {
                lemma_entries_map_at(old_e, i as int);
            }
            let filtered = drop_token_exec(&self.entries[i].records, t.as_slice());
            let key_chars = chars_of(self.entries[i].key.as_str());
            if chars_eq(key_chars.as_slice(), k.as_slice()) {
                target_base = filtered;
                proof {
                    assert forall|a: int| 0 <= a < i + 1 && old_e[a].key@ != k@ && cleaned.contains_key(
                        (#[trigger] old_e[a]).key@,
                    ) implies has_key(next@, old_e[a].key@) by {
                        assert(a != i);
                    }
                }
            } else if filtered.len() > 0 {
                proof {
                    assert(records_view(filtered@).len() == filtered@.len());
                    assert(m.contains_key(old_e[i as int].key@));
                    assert(m[old_e[i as int].key@] == records_view(old_e[i as int].records@));
                    assert(drop_token(m[old_e[i as int].key@], t@).len() > 0);
                }
                let ghost before = next@;
                let entry = PushTokenEntry { key: self.entries[i].key.clone(), records: filtered };
                next.push(entry);
                proof {
                    assert(next@[before.len() as int] == entry);
                    assert forall|x: int, y: int|
                        0 <= x < next@.len() && 0 <= y < next@.len() && x != y implies (
                        #[trigger] next@[x]).key@ != (#[trigger] next@[y]).key@ by {
                        if x < before.len() && y < before.len() {
                            assert(next@[x] == before[x]);
                            assert(next@[y] == before[y]);
                        } else if x < before.len() {
                            assert(next@[x] == before[x]);
                            let a = choose|a: int| 0 <= a < i && old_e[a].key@ == before[x].key@;
                            assert(a != i);
                        } else {
                            assert(next@[y] == before[y]);
                            let a = choose|a: int| 0 <= a < i && old_e[a].key@ == before[y].key@;
                            assert(a != i);
                        }
                    }
                    assert forall|j: int| 0 <= j < next@.len() implies exists|a: int|
                        0 <= a < i + 1 && old_e[a].key@ == (#[trigger] next@[j]).key@ by {
                        if j < before.len() {
                            assert(next@[j] == before[j]);
                        } else {
                            assert(old_e[i as int].key@ == next@[j].key@);
                        }
                    }
                    assert forall|a: int| 0 <= a < i + 1 && old_e[a].key@ != k@ && cleaned.contains_key(
                        (#[trigger] old_e[a]).key@,
                    ) implies has_key(next@, old_e[a].key@) by {
                        if a < i {
                            let j = choose|j: int| 0 <= j < before.len() && (#[trigger] before[j]).key@ == old_e[a].key@;
                            assert(next@[j] == before[j]);
                        } else {
                            assert(next@[before.len() as int].key@ == old_e[a].key@);
                        }
                    }
                    assert forall|j: int| 0 <= j < next@.len() implies (#[trigger] next@[j]).key@ != k@ by {
                        if j < before.len() {
                            assert(next@[j] == before[j]);
                        }
                    }
                    assert(cleaned.contains_key(old_e[i as int].key@));
                    assert forall|j: int|
                        0 <= j < next@.len() implies cleaned.contains_key((#[trigger] next@[j]).key@)
                            && records_view(next@[j].records@) == cleaned[next@[j].key@] by {
                        if j < before.len() {
                            assert(next@[j] == before[j]);
                        } else {
                            assert(next@[j] == entry);
                        }
                    }
                }
            } else {
                proof {
                    assert(!cleaned.contains_key(old_e[i as int].key@));
                    assert forall|a: int| 0 <= a < i + 1 && old_e[a].key@ != k@ && cleaned.contains_key(
                        (#[trigger] old_e[a]).key@,
                    ) implies has_key(next@, old_e[a].key@) by {
                        assert(a != i);
                    }
                }
            }
            proof {
                if exists|a: int| 0 <= a < i && (#[trigger] old_e[a]).key@ == k@ {
                    let a = choose|a: int| 0 <= a < i && (#[trigger] old_e[a]).key@ == k@;
                    assert(old_e[a].key@ == old_e[i as int].key@ ==> a == i);
                }
            }
            i = i + 1;
        }
        proof {
            lemma_drop_token_free(records_view(target_base@), t@);
            if has_key(old_e, k@) {
                let a = choose|a: int| 0 <= a < old_e.len() && (#[trigger] old_e[a]).key@ == k@;
                lemma_entries_map_at(old_e, a);
            }
        }
        let record = PushTokenRecord {
            token: string_of(t.as_slice()),
            platform: trimmed_string(platform),
            updated_at_nanos: now_nanos,
        };
        let ghost base_view = records_view(target_base@);
        target_base.push(record);
        assert(records_view(target_base@) =~= base_view.push((t@, trim(platform@), now_nanos)));
        let ghost before = next@;
        let entry = PushTokenEntry { key: string_of(k.as_slice()), records: target_base };
        next.push(entry);
        proof {
            assert(next@[before.len() as int] == entry);
            assert forall|x: int, y: int|
                0 <= x < next@.len() && 0 <= y < next@.len() && x != y implies (
                #[trigger] next@[x]).key@ != (#[trigger] next@[y]).key@ by {
                if x < before.len() {
                    assert(next@[x] == before[x]);
                }
                if y < before.len() {
                    assert(next@[y] == before[y]);
                }
            }
            let want = move_spec(m, k@, t@, trim(platform@), now_nanos);
            assert(list_spec(cleaned, k@) == base_view);
            assert forall|key: Seq<char>| #[trigger] entries_map(next@).contains_key(key) <==> want.contains_key(key) by {
                if want.contains_key(key) && key != k@ {
                    let a = choose|a: int| 0 <= a < old_e.len() && (#[trigger] old_e[a]).key@ == key;
                    let j = choose|j: int| 0 <= j < before.len() && (#[trigger] before[j]).key@ == key;
                    assert(next@[j] == before[j]);
                }
                if entries_map(next@).contains_key(key) && key != k@ {
                    let j = choose|j: int| 0 <= j < next@.len() && (#[trigger] next@[j]).key@ == key;
                    assert(j < before.len());
                    assert(next@[j] == before[j]);
                }
            }
            assert forall|key: Seq<char>| #[trigger] want.contains_key(key) implies entries_map(next@)[key] == want[key] by {
                assert(entries_map(next@).contains_key(key));
                let j = choose|j: int| 0 <= j < next@.len() && (#[trigger] next@[j]).key@ == key;
                lemma_entries_map_at(next@, j);
                if key != k@ {
                    assert(j < before.len());
                    assert(next@[j] == before[j]);
                } else {
                    assert(j == before.len());
                }
            }
            assert(entries_map(next@) =~= want);
        }
        self.entries = next;
    }

    /// Removes `token` (trimmed) from the records of `key` (trimmed); the key
    /// disappears when no record is left.
    pub fn delete(&mut self, key: &str, token: &str)
        ensures
            final(self).view() == delete_spec(old(self).view(), trim(key@), trim(token@)),
    {
        proof {
            use_type_invariant(&*self);
        }
        let k = trim_chars(chars_of(key).as_slice());
        let t = trim_chars(chars_of(token).as_slice());
        let ghost m = self.view();
        let ghost old_e = self.entries@;
        let idx = self.index_of(k.as_slice());
        match idx {
            None => {
                assert(!m.contains_key(k@));
            },
            Some(i) => {
                proof {
                    lemma_entries_map_at(old_e, i as int);
                }
                let mut entries: Vec<PushTokenEntry> = Vec::new();
                std::mem::swap(&mut entries, &mut self.entries);
                assert(entries@ == old_e);
                let removed = entries.remove(i);
                let ghost rest = entries@;
                assert(rest =~= old_e.remove(i as int));
                let filtered = drop_token_exec(&removed.records, t.as_slice());
                let ghost want = delete_spec(m, k@, t@);
                proof {
                    assert forall|x: int, y: int|
                        0 <= x < rest.len() && 0 <= y < rest.len() && x != y implies (
                        #[trigger] rest[x]).key@ != (#[trigger] rest[y]).key@ by {
                        let ox = if x < i { x } else { x + 1 };
                        let oy = if y < i { y } else { y + 1 };
                        assert(rest[x] == old_e[ox]);
                        assert(rest[y] == old_e[oy]);
                    }
                    assert forall|x: int| 0 <= x < rest.len() implies (#[trigger] rest[x]).key@ != k@ by {
                        let ox = if x < i { x } else { x + 1 };
                        assert(rest[x] == old_e[ox]);
                    }
                }
                if filtered.len() > 0 {
                    let entry = PushTokenEntry { key: string_of(k.as_slice()), records: filtered };
                    entries.push(entry);
                    proof {
                        let e = entries@;
                        assert(e[rest.len() as int] == entry);
                        assert forall|x: int, y: int|
                            0 <= x < e.len() && 0 <= y < e.len() && x != y implies (
                            #[trigger] e[x]).key@ != (#[trigger] e[y]).key@ by {
                            if x < rest.len() {
                                assert(e[x] == rest[x]);
                            }
                            if y < rest.len() {
                                assert(e[y] == rest[y]);
                            }
                        }
                        assert forall|key2: Seq<char>| #[trigger] entries_map(e).contains_key(key2) <==> want.contains_key(key2) by {
                            if want.contains_key(key2) && key2 != k@ {
                                let a = choose|a: int| 0 <= a < old_e.len() && (#[trigger] old_e[a]).key@ == key2;
                                assert(a != i);
                                let x = if a < i { a } else { a - 1 };
                                assert(rest[x] == old_e[a]);
                                assert(e[x] == rest[x]);
                            }
                            if entries_map(e).contains_key(key2) && key2 != k@ {
                                let x = choose|x: int| 0 <= x < e.len() && (#[trigger] e[x]).key@ == key2;
                                assert(x < rest.len());
                                assert(e[x] == rest[x]);
                                let ox = if x < i { x } else { x + 1 };
                                assert(rest[x] == old_e[ox]);
                            }
                            if key2 == k@ {
                                assert(e[rest.len() as int].key@ == k@);
                            }
                        }
                        assert forall|key2: Seq<char>| #[trigger] want.contains_key(key2) implies entries_map(e)[key2] == want[key2] by {
                            assert(entries_map(e).contains_key(key2));
                            let x = choose|x: int| 0 <= x < e.len() && (#[trigger] e[x]).key@ == key2;
                            lemma_entries_map_at(e, x);
                            if key2 != k@ {
                                assert(x < rest.len());
                                assert(e[x] == rest[x]);
                                let ox = if x < i { x } else { x + 1 };
                                assert(rest[x] == old_e[ox]);
                                lemma_entries_map_at(old_e, ox);
                            } else {
                                assert(x == rest.len());
                            }
                        }
                        assert(entries_map(e) =~= want);
                    }
                } else {
                    proof {
                        let e = entries@;
                        assert forall|key2: Seq<char>| #[trigger] entries_map(e).contains_key(key2) <==> want.contains_key(key2) by {
                            if want.contains_key(key2) {
                                let a = choose|a: int| 0 <= a < old_e.len() && (#[trigger] old_e[a]).key@ == key2;
                                assert(a != i);
                                let x = if a < i { a } else { a - 1 };
                                assert(rest[x] == old_e[a]);
                            }
                            if entries_map(e).contains_key(key2) {
                                let x = choose|x: int| 0 <= x < e.len() && (#[trigger] e[x]).key@ == key2;
                                let ox = if x < i { x } else { x + 1 };
                                assert(rest[x] == old_e[ox]);
                            }
                        }
                        assert forall|key2: Seq<char>| #[trigger] want.contains_key(key2) implies entries_map(e)[key2] == want[key2] by {
                            assert(entries_map(e).contains_key(key2));
                            let x = choose|x: int| 0 <= x < e.len() && (#[trigger] e[x]).key@ == key2;
                            lemma_entries_map_at(e, x);
                            let ox = if x < i { x } else { x + 1 };
                            assert(rest[x] == old_e[ox]);
                            lemma_entries_map_at(old_e, ox);
                        }
                        assert(entries_map(e) =~= want);
                    }
                }
                self.entries = entries;
            },
        }
    }

    /// Sets the records of `key` to `records` (as loading a stored list does).
    pub fn put_list(&mut self, key: String, records: Vec<PushTokenRecord>)
        ensures
            final(self).view() == old(self).view().insert(key@, records_view(records@)),
    {
        proof {
            use_type_invariant(&*self);
        }
        let ghost m = self.view();
        let ghost old_e = self.entries@;
        let ghost k = key@;
        let kc = chars_of(key.as_str());
        let idx = self.index_of(kc.as_slice());
        let mut entries: Vec<PushTokenEntry> = Vec::new();
        std::mem::swap(&mut entries, &mut self.entries);
        assert(entries@ == old_e);
        let ghost rest: Seq<PushTokenEntry>;
        match idx {
            Some(i) => {
                let _removed = entries.remove(i);
                proof {
                    rest = entries@;
                    assert(rest =~= old_e.remove(i as int));
                    assert forall|x: int| 0 <= x < rest.len() implies (#[trigger] rest[x]).key@ != k by {
                        let ox = if x < i { x } else { x + 1 };
                        assert(rest[x] == old_e[ox]);
                    }
                    assert forall|x: int, y: int|
                        0 <= x < rest.len() && 0 <= y < rest.len() && x != y implies (
                        #[trigger] rest[x]).key@ != (#[trigger] rest[y]).key@ by {
                        let ox = if x < i { x } else { x + 1 };
                        let oy = if y < i { y } else { y + 1 };
                        assert(rest[x] == old_e[ox]);
                        assert(rest[y] == old_e[oy]);
                    }
                    assert forall|key2: Seq<char>| key2 != k implies (#[trigger] has_key(rest, key2) <==> has_key(
                        old_e,
                        key2,
                    )) && (has_key(rest, key2) ==> entries_map(rest)[key2] == m[key2]) by {
                        if has_key(old_e, key2) {
                            let a = choose|a: int| 0 <= a < old_e.len() && (#[trigger] old_e[a]).key@ == key2;
                            assert(a != i);
                            let x = if a < i { a } else { a - 1 };
                            assert(rest[x] == old_e[a]);
                            lemma_entries_map_at(rest, x);
                            lemma_entries_map_at(old_e, a);
                        }
                        if has_key(rest, key2) {
                            let x = choose|x: int| 0 <= x < rest.len() && (#[trigger] rest[x]).key@ == key2;
                            let ox = if x < i { x } else { x + 1 };
                            assert(rest[x] == old_e[ox]);
                        }
                    }
                }
            },
            None => {
                proof {
                    rest = entries@;
                    assert forall|x: int| 0 <= x < rest.len() implies (#[trigger] rest[x]).key@ != k by {
                        assert(!has_key(old_e, k));
                    }
                    assert forall|key2: Seq<char>| key2 != k implies (#[trigger] has_key(rest, key2) <==> has_key(
                        old_e,
                        key2,
                    )) && (has_key(rest, key2) ==> entries_map(rest)[key2] == m[key2]) by {
                    }
                }
            },
        }
        let ghost rv = records_view(records@);
        let entry = PushTokenEntry { key, records };
        entries.push(entry);
        proof {
            let e = entries@;
            assert(e[rest.len() as int] == entry);
            assert forall|x: int, y: int|
                0 <= x < e.len() && 0 <= y < e.len() && x != y implies (#[trigger] e[x]).key@ != (
                #[trigger] e[y]).key@ by {
                if x < rest.len() {
                    assert(e[x] == rest[x]);
                }
                if y < rest.len() {
                    assert(e[y] == rest[y]);
                }
            }
            let want = m.insert(k, rv);
            assert forall|key2: Seq<char>| #[trigger] entries_map(e).contains_key(key2) <==> want.contains_key(key2) by {
                if key2 == k {
                    assert(e[rest.len() as int].key@ == k);
                } else {
                    if has_key(rest, key2) {
                        let x = choose|x: int| 0 <= x < rest.len() && (#[trigger] rest[x]).key@ == key2;
                        assert(e[x] == rest[x]);
                    }
                    if has_key(e, key2) {
                        let x = choose|x: int| 0 <= x < e.len() && (#[trigger] e[x]).key@ == key2;
                        assert(x < rest.len());
                        assert(e[x] == rest[x]);
                    }
                }
            }
            assert forall|key2: Seq<char>| #[trigger] want.contains_key(key2) implies entries_map(e)[key2] == want[key2] by {
                assert(entries_map(e).contains_key(key2));
                let x = choose|x: int| 0 <= x < e.len() && (#[trigger] e[x]).key@ == key2;
                lemma_entries_map_at(e, x);
                if key2 != k {
                    assert(x < rest.len());
                    assert(e[x] == rest[x]);
                    lemma_entries_map_at(rest, x);
                }
            }
            assert(entries_map(e) =~= want);
        }
        self.entries = entries;
    }

    /// A registry holding the stored lists `lists`, later lists of one key
    /// replacing earlier ones.
    pub fn from_lists(lists: Vec<(String, Vec<PushTokenRecord>)>) -> (r: Self)
        ensures
            r.view() == load_spec(list_views(lists@)),
    {
        let mut r = PushTokenCache::new();
        let mut lists = lists;
        let ghost all = list_views(lists@);
        while lists.len() > 0
            invariant
                load_spec(all) == load_onto(r.view(), list_views(lists@)),
            decreases lists@.len(),
        {
            let ghost before = list_views(lists@);
            let (key, records) = lists.remove(0);
            assert(list_views(lists@) =~= before.drop_first());
            assert(before[0] == (key@, records_view(records@)));
            r.put_list(key, records);
        }
        assert(list_views(lists@) =~= Seq::<(Seq<char>, Seq<RecordView>)>::empty());
        r
    }

    /// The stored lists, one per key, for saving.
    pub fn lists(&self) -> (r: Vec<(String, Vec<PushTokenRecord>)>)
        ensures
            forall|i: int, j: int|
                0 <= i < r@.len() && 0 <= j < r@.len() && i != j ==> (#[trigger] r@[i]).0@ != (
                #[trigger] r@[j]).0@,
            forall|i: int|
                0 <= i < r@.len() ==> self.view().contains_key((#[trigger] r@[i]).0@)
                    && self.view()[r@[i].0@] == records_view(r@[i].1@),
            forall|k: Seq<char>|
                #[trigger] self.view().contains_key(k) ==> exists|i: int| 0 <= i < r@.len() && r@[i].0@ == k,
    {
        proof {
            use_type_invariant(self);
        }
        let e = &self.entries;
        let mut out: Vec<(String, Vec<PushTokenRecord>)> = Vec::new();
        let mut i: usize = 0;
        while i < e.len()
            invariant
                e@ == self.entries@,
                distinct_keys(e@),
                i <= e@.len(),
                out@.len() == i,
                forall|x: int| 0 <= x < i ==> (#[trigger] out@[x]).0@ == e@[x].key@ && records_view(
                    out@[x].1@,
                ) == records_view(e@[x].records@),
            decreases e@.len() - i,
        {
            out.push((e[i].key.clone(), copy_records(&e[i].records)));
            i = i + 1;
        }
        proof {
            assert forall|x: int| 0 <= x < out@.len() implies self.view().contains_key((#[trigger] out@[x]).0@)
                && self.view()[out@[x].0@] == records_view(out@[x].1@) by {
                lemma_entries_map_at(e@, x);
            }
            assert forall|k: Seq<char>| #[trigger] self.view().contains_key(k) implies exists|x: int|
                0 <= x < out@.len() && out@[x].0@ == k by {
                let x = choose|x: int| 0 <= x < e@.len() && (#[trigger] e@[x]).key@ == k;
                assert(out@[x].0@ == k);
            }
        }
        out
    }
}

/// The views of stored lists.
pub open spec fn list_views(s: Seq<(String, Vec<PushTokenRecord>)>) -> Seq<(Seq<char>, Seq<RecordView>)> {
    s.map_values(|p: (String, Vec<PushTokenRecord>)| (p.0@, records_view(p.1@)))
}

/// `m` with the lists `s` stored in order.
pub open spec fn load_onto(m: Map<Seq<char>, Seq<RecordView>>, s: Seq<(Seq<char>, Seq<RecordView>)>) -> Map<
    Seq<char>,
    Seq<RecordView>,
>
    decreases s.len(),
{
    if s.len() == 0 {
        m
    } else {
        load_onto(m.insert(s[0].0, s[0].1), s.drop_first())
    }
}

/// The registry holding the lists `s`, later lists of one key replacing
/// earlier ones.
pub open spec fn load_spec(s: Seq<(Seq<char>, Seq<RecordView>)>) -> Map<Seq<char>, Seq<RecordView>> {
    load_onto(Map::empty(), s)
}


proof fn lemma_drop_token_twice(rs: Seq<RecordView>, t: Seq<char>)
    ensures
        drop_token(drop_token(rs, t), t) == drop_token(rs, t),
{
    lemma_drop_token_free(rs, t);
    lemma_drop_token_noop(drop_token(rs, t), t);
}

proof fn lemma_drop_token_push_match(rs: Seq<RecordView>, r: RecordView, t: Seq<char>)
    requires
        trim(r.0) == t,
    ensures
        drop_token(rs.push(r), t) == drop_token(rs, t),
{
    assert(rs.push(r).drop_last() =~= rs);
}

/// After a token is registered under a key, that key's list is its former
/// list without the token, followed by the new record.
pub proof fn law_move_appends_record(
    m: Map<Seq<char>, Seq<RecordView>>,
    k: Seq<char>,
    t: Seq<char>,
    p: Seq<char>,
    now: i128,
)
    ensures
        list_spec(move_spec(m, k, t, p, now), k) == drop_token(list_spec(m, k), t).push((t, p, now)),
{
}

/// After a token is registered under a key, it is registered nowhere else:
/// the only record of the token is the new last record of that key.
pub proof fn law_move_registers_token_once(
    m: Map<Seq<char>, Seq<RecordView>>,
    k: Seq<char>,
    token: Seq<char>,
    p: Seq<char>,
    now: i128,
)
    ensures
        ({
            let t = trim(token);
            let m2 = move_spec(m, k, t, p, now);
            forall|key: Seq<char>, i: int|
                #![trigger m2[key][i]]
                m2.contains_key(key) && 0 <= i < m2[key].len() && trim(m2[key][i].0) == t ==> key == k
                    && i == m2[k].len() - 1
        }),
{
    let t = trim(token);
    lemma_trim_idempotent(token);
    let m2 = move_spec(m, k, t, p, now);
    assert forall|key: Seq<char>, i: int|
        #![trigger m2[key][i]]
        m2.contains_key(key) && 0 <= i < m2[key].len() && trim(m2[key][i].0) == t implies key == k && i
            == m2[k].len() - 1 by {
        if key != k {
            lemma_drop_token_free(m[key], t);
        } else {
            let cleaned = Map::new(
                |key: Seq<char>| m.contains_key(key) && drop_token(m[key], t).len() > 0,
                |key: Seq<char>| drop_token(m[key], t),
            );
            let base = list_spec(cleaned, k);
            if m.contains_key(k) {
                lemma_drop_token_free(m[k], t);
            }
            if i < base.len() {
                assert(m2[k][i] == base[i]);
            }
        }
    }
}

/// Registering a token again under the same key with the same platform
/// gives the registry that one registration at the later time gives.
pub proof fn law_move_repeated(
    m: Map<Seq<char>, Seq<RecordView>>,
    k: Seq<char>,
    token: Seq<char>,
    p: Seq<char>,
    n1: i128,
    n2: i128,
)
    ensures
        move_spec(move_spec(m, k, trim(token), p, n1), k, trim(token), p, n2) == move_spec(
            m,
            k,
            trim(token),
            p,
            n2,
        ),
{
    let t = trim(token);
    lemma_trim_idempotent(token);
    let c1 = Map::new(
        |key: Seq<char>| m.contains_key(key) && drop_token(m[key], t).len() > 0,
        |key: Seq<char>| drop_token(m[key], t),
    );
    let m1 = move_spec(m, k, t, p, n1);
    let c2 = Map::new(
        |key: Seq<char>| m1.contains_key(key) && drop_token(m1[key], t).len() > 0,
        |key: Seq<char>| drop_token(m1[key], t),
    );
    let l1 = list_spec(c1, k);
    if m.contains_key(k) {
        lemma_drop_token_free(m[k], t);
        lemma_drop_token_twice(m[k], t);
    }
    lemma_drop_token_push_match(l1, (t, p, n1), t);
    lemma_drop_token_noop(l1, t);
    assert(drop_token(m1[k], t) == l1);
    assert forall|key: Seq<char>| key != k implies (#[trigger] c2.contains_key(key) <==> c1.contains_key(key))
        && (c1.contains_key(key) ==> c2[key] == c1[key]) by {
        if m.contains_key(key) {
            lemma_drop_token_twice(m[key], t);
        }
    }
    assert(list_spec(c2, k) == l1);
    assert(move_spec(m1, k, t, p, n2) =~= move_spec(m, k, t, p, n2));
}

/// Removing a token from one key leaves every other key's list as it was,
/// and leaves the token out of that key's list.
pub proof fn law_delete_touches_only_key(
    m: Map<Seq<char>, Seq<RecordView>>,
    k: Seq<char>,
    t: Seq<char>,
    other: Seq<char>,
)
    ensures
        other != k ==> list_spec(delete_spec(m, k, t), other) == list_spec(m, other),
        list_spec(delete_spec(m, k, t), k) == drop_token(list_spec(m, k), t),
{
}


// ---------------------------------------------------------------------------
// The steps of the keyed store: per-key record lists and a token owner index
// ---------------------------------------------------------------------------

/// A record with token and platform trimmed.
pub fn normalize_record(record: PushTokenRecord) -> (r: PushTokenRecord)
    ensures
        r.view_of() == (trim(record.token@), trim(record.platform@), record.updated_at_nanos),
{
    PushTokenRecord {
        token: trimmed_string(record.token.as_str()),
        platform: trimmed_string(record.platform.as_str()),
        updated_at_nanos: record.updated_at_nanos,
    }
}

/// A token record as the keyed store encodes it.
#[derive(Debug)]
pub struct StoredPushTokenRecord {
    pub token: String,
    pub platform: String,
    pub updated_at_nanos: i128,
}

impl StoredPushTokenRecord {
    /// The stored form of `record`.
    pub fn from_record(record: &PushTokenRecord) -> (r: Self)
        ensures
            r.token@ == record.token@,
            r.platform@ == record.platform@,
            r.updated_at_nanos == record.updated_at_nanos,
    {
        StoredPushTokenRecord {
            token: record.token.clone(),
            platform: record.platform.clone(),
            updated_at_nanos: record.updated_at_nanos,
        }
    }

    /// The record this stored form holds.
    pub fn into_record(self) -> (r: PushTokenRecord)
        ensures
            r.view_of() == (self.token@, self.platform@, self.updated_at_nanos),
    {
        PushTokenRecord {
            token: self.token,
            platform: self.platform,
            updated_at_nanos: self.updated_at_nanos,
        }
    }
}

/// A key's records after `record` is moved to it: the records of the same
/// (trimmed) token leave, and `record` is appended.
pub fn records_with(records: &Vec<PushTokenRecord>, record: PushTokenRecord) -> (r: Vec<PushTokenRecord>)
    ensures
        records_view(r@) == drop_token(records_view(records@), trim(record.token@)).push(
            record.view_of(),
        ),
{
    let t = trim_chars(chars_of(record.token.as_str()).as_slice());
    let mut out = drop_token_exec(records, t.as_slice());
    let ghost before = records_view(out@);
    let ghost rv = record.view_of();
    out.push(record);
    assert(records_view(out@) =~= before.push(rv));
    out
}

/// What becomes of a key's stored records when a token is removed.
#[derive(Debug)]
pub enum RecordsUpdate {
    /// Nothing to write: the token was not there.
    Unchanged,
    /// No record is left: the key is deleted.
    Delete,
    /// The remaining records are written back.
    Put(Vec<PushTokenRecord>),
}

/// The update that removing token `token` (already trimmed) makes to a
/// key's records, and whether a record was removed.
pub fn remove_token_update(records: &Vec<PushTokenRecord>, token: &str) -> (r: (RecordsUpdate, bool))
    ensures
        ({
            let rest = drop_token(records_view(records@), token@);
            &&& r.1 == (rest.len() != records@.len())
            &&& (r.0 is Delete <==> rest.len() == 0)
            &&& (r.0 is Unchanged <==> rest.len() > 0 && rest.len() == records@.len())
            &&& r.0 matches RecordsUpdate::Put(v) ==> records_view(v@) == rest
        }),
{
    let t = chars_of(token);
    let rest = drop_token_exec(records, t.as_slice());
    proof {
        assert(records_view(records@).len() == records@.len());
    }
    let changed = rest.len() != records.len();
    if rest.len() == 0 {
        (RecordsUpdate::Delete, changed)
    } else if changed {
        (RecordsUpdate::Put(rest), changed)
    } else {
        (RecordsUpdate::Unchanged, changed)
    }
}

/// Whether a record of token `t` with platform `p` is among the records.
pub open spec fn has_registration(rs: Seq<RecordView>, t: Seq<char>, p: Seq<char>) -> bool {
    exists|i: int| 0 <= i < rs.len() && trim((#[trigger] rs[i]).0) == t && trim(rs[i].1) == p
}

/// Whether registering token `token` with `platform` under `target_key` has
/// nothing to do: the owner index names `target_key` as the token's owner,
/// and the key's records hold the token with that platform. `owner` is the
/// index entry of the token; all texts are already trimmed.
pub fn token_already_registered(
    owner: Option<&str>,
    target_key: &str,
    records: &Vec<PushTokenRecord>,
    token: &str,
    platform: &str,
) -> (r: bool)
    ensures
        r == (owner matches Some(o) && o@ == target_key@ && has_registration(
            records_view(records@),
            token@,
            platform@,
        )),
{
    let owned_here = match owner {
        Some(o) => {
            let a = chars_of(o);
            let b = chars_of(target_key);
            chars_eq(a.as_slice(), b.as_slice())
        },
        None => false,
    };
    if !owned_here {
        return false;
    }
    let t = chars_of(token);
    let p = chars_of(platform);
    let ghost rv = records_view(records@);
    let mut i: usize = 0;
    while i < records.len()
        invariant
            i <= records@.len(),
            rv == records_view(records@),
            t@ == token@,
            p@ == platform@,
            owner matches Some(o) && o@ == target_key@,
            forall|j: int| 0 <= j < i ==> !(trim((#[trigger] rv[j]).0) == t@ && trim(rv[j].1) == p@),
        decreases records@.len() - i,
    {
        let rt = trim_chars(chars_of(records[i].token.as_str()).as_slice());
        let rp = trim_chars(chars_of(records[i].platform.as_str()).as_slice());
        assert(rv[i as int] == records@[i as int].view_of());
        if chars_eq(rt.as_slice(), t.as_slice()) && chars_eq(rp.as_slice(), p.as_slice()) {
            assert(trim(rv[i as int].0) == token@ && trim(rv[i as int].1) == platform@);
            return true;
        }
        i = i + 1;
    }
    false
}

/// The key to take the token away from before it moves to `target_key`:
/// its previous owner, when that is another key.
pub fn previous_owner_to_clear(previous: Option<&str>, target_key: &str) -> (r: Option<String>)
    ensures
        match previous {
            Some(p) => if p@ != target_key@ {
                r matches Some(k) && k@ == p@
            } else {
                r is None
            },
            None => r is None,
        },
{
    match previous {
        Some(p) => {
            let a = chars_of(p);
            let b = chars_of(target_key);
            if chars_eq(a.as_slice(), b.as_slice()) {
                None
            } else {
                Some(p.to_owned())
            }
        },
        None => None,
    }
}

/// The moves that carry a legacy registry into the keyed store, in order:
/// for each key (trimmed) that is not blank, each of its records,
/// normalized, whose token is not blank.
pub open spec fn legacy_moves_spec(data: Seq<(Seq<char>, Seq<RecordView>)>) -> Seq<(Seq<char>, RecordView)>
    decreases data.len(),
{
    if data.len() == 0 {
        Seq::empty()
    } else {
        let head = if trim(data[0].0).len() == 0 {
            Seq::empty()
        } else {
            key_moves(trim(data[0].0), data[0].1)
        };
        head + legacy_moves_spec(data.drop_first())
    }
}

/// The moves of one legacy key: its normalized records with a token.
pub open spec fn key_moves(k: Seq<char>, rs: Seq<RecordView>) -> Seq<(Seq<char>, RecordView)>
    decreases rs.len(),
{
    if rs.len() == 0 {
        Seq::empty()
    } else {
        let r = rs[0];
        let n = (trim(r.0), trim(r.1), r.2);
        let head = if n.0.len() == 0 {
            Seq::empty()
        } else {
            seq![(k, n)]
        };
        head + key_moves(k, rs.drop_first())
    }
}

/// The views of legacy moves.
pub open spec fn moves_view(v: Seq<(String, PushTokenRecord)>) -> Seq<(Seq<char>, RecordView)> {
    v.map_values(|m: (String, PushTokenRecord)| (m.0@, m.1.view_of()))
}

fn push_key_moves(out: &mut Vec<(String, PushTokenRecord)>, key: &Vec<char>, records: &Vec<PushTokenRecord>)
    ensures
        moves_view(final(out)@) == moves_view(old(out)@) + key_moves(key@, records_view(records@)),
{
    let ghost rv = records_view(records@);
    let ghost start = moves_view(out@);
    let mut i: usize = 0;
    assert(rv.subrange(0, rv.len() as int) =~= rv);
    while i < records.len()
        invariant
            i <= records@.len(),
            rv == records_view(records@),
            start + key_moves(key@, rv) == moves_view(out@) + key_moves(key@, rv.subrange(i as int, rv.len() as int)),
        decreases records@.len() - i,
    {
        let ghost rest = rv.subrange(i as int, rv.len() as int);
        assert(rest[0] == records@[i as int].view_of());
        assert(rest.drop_first() =~= rv.subrange(i + 1, rv.len() as int));
        let record = normalize_record(records[i].duplicate());
        let token_chars = chars_of(record.token.as_str());
        if token_chars.len() != 0 {
            let ghost before = moves_view(out@);
            let k = string_of(key.as_slice());
            let ghost mv = (k@, record.view_of());
            out.push((k, record));
            assert(moves_view(out@) =~= before.push(mv));
            assert(before.push(mv) + key_moves(key@, rest.drop_first()) =~= before + (seq![mv] + key_moves(key@, rest.drop_first())));
        } else {
            assert(key_moves(key@, rest) =~= key_moves(key@, rest.drop_first()));
        }
        i = i + 1;
    }
    assert(rv.subrange(i as int, rv.len() as int) =~= Seq::<RecordView>::empty());
    assert(moves_view(out@) + Seq::<(Seq<char>, RecordView)>::empty() =~= moves_view(out@));
}

/// The moves that carry a legacy registry (key and records, in file order)
/// into the keyed store.
pub fn legacy_moves(data: &Vec<(String, Vec<PushTokenRecord>)>) -> (r: Vec<(String, PushTokenRecord)>)
    ensures
        moves_view(r@) == legacy_moves_spec(list_views(data@)),
{
    let ghost dv = list_views(data@);
    let mut out: Vec<(String, PushTokenRecord)> = Vec::new();
    let mut i: usize = 0;
    assert(dv.subrange(0, dv.len() as int) =~= dv);
    while i < data.len()
        invariant
            i <= data@.len(),
            dv == list_views(data@),
            dv.len() == data@.len(),
            legacy_moves_spec(dv) == moves_view(out@) + legacy_moves_spec(dv.subrange(i as int, dv.len() as int)),
        decreases data@.len() - i,
    {
        let ghost rest = dv.subrange(i as int, dv.len() as int);
        assert(rest[0] == dv[i as int]);
        assert(rest.drop_first() =~= dv.subrange(i + 1, dv.len() as int));
        let key = trim_chars(chars_of(data[i].0.as_str()).as_slice());
        let ghost before = moves_view(out@);
        if key.len() != 0 {
            push_key_moves(&mut out, &key, &data[i].1);
            assert(before + key_moves(key@, dv[i as int].1) + legacy_moves_spec(rest.drop_first()) =~= before + (key_moves(key@, dv[i as int].1) + legacy_moves_spec(rest.drop_first())));
        } else {
            assert(legacy_moves_spec(rest) =~= legacy_moves_spec(rest.drop_first()));
        }
        i = i + 1;
    }
    assert(dv.subrange(i as int, dv.len() as int) =~= Seq::<(Seq<char>, Seq<RecordView>)>::empty());
    assert(moves_view(out@) + Seq::<(Seq<char>, RecordView)>::empty() =~= moves_view(out@));
    out
}

/// The SHA-256 digest of `bytes`.
pub uninterp spec fn sha256_of(bytes: Seq<u8>) -> Seq<u8>;

/// Calls `sha2::Sha256::digest`. Trusted: the 32 bytes returned are the
/// digest that `sha256_of` names for `bytes`.
#[verifier::external_body]
fn sha256(bytes: &[u8]) -> (r: [u8; 32])
    ensures
        r@ == sha256_of(bytes@),
{
    <sha2::Sha256 as sha2::Digest>::digest(bytes).into()
}

/// The owner-index key of a token: the SHA-256 digest of its UTF-8 bytes.
pub fn push_token_hash(token: &str) -> (r: [u8; 32])
    ensures
        r@ == sha256_of(vstd::utf8::encode_utf8(token@)),
{
    let bytes = token.as_bytes();
    sha256(bytes)
}

// ---------------------------------------------------------------------------
// The keyed store as a whole: one owner per token
// ---------------------------------------------------------------------------

/// Whether some record of `rs` has the (trimmed) token `t`.
pub open spec fn has_token(rs: Seq<RecordView>, t: Seq<char>) -> bool {
    exists|i: int| 0 <= i < rs.len() && trim((#[trigger] rs[i]).0) == t
}

/// Whether the owner index agrees with the record lists: every token found
/// under a key is owned by that key.
pub open spec fn owners_consistent(records: Map<Seq<char>, Seq<RecordView>>, owner: Map<Seq<char>, Seq<char>>) -> bool {
    forall|k: Seq<char>, t: Seq<char>|
        #![trigger has_token(records[k], t)]
        records.contains_key(k) && has_token(records[k], t) ==> owner.contains_key(t) && owner[t] == k
}

/// The record lists after token `t` is removed from key `k`: the key is
/// dropped when nothing is left under it.
pub open spec fn remove_token_from(records: Map<Seq<char>, Seq<RecordView>>, k: Seq<char>, t: Seq<char>) -> Map<
    Seq<char>,
    Seq<RecordView>,
> {
    if !records.contains_key(k) {
        records
    } else if drop_token(records[k], t).len() == 0 {
        records.remove(k)
    } else {
        records.insert(k, drop_token(records[k], t))
    }
}

/// The keyed store after moving record `r` to key `k`, step by step as the
/// store does it: the token leaves its previous owner when that is another
/// key, the target's list loses the token and gains `r` at its end, and the
/// index names `k` as the token's owner.
pub open spec fn keyed_move(
    records: Map<Seq<char>, Seq<RecordView>>,
    owner: Map<Seq<char>, Seq<char>>,
    k: Seq<char>,
    r: RecordView,
) -> (Map<Seq<char>, Seq<RecordView>>, Map<Seq<char>, Seq<char>>) {
    let t = trim(r.0);
    let cleared = if owner.contains_key(t) && owner[t] != k {
        remove_token_from(records, owner[t], t)
    } else {
        records
    };
    let base = if cleared.contains_key(k) {
        cleared[k]
    } else {
        Seq::empty()
    };
    (cleared.insert(k, drop_token(base, t).push(r)), owner.insert(t, k))
}

proof fn lemma_drop_token_tokens(rs: Seq<RecordView>, t: Seq<char>, u: Seq<char>)
    ensures
        has_token(drop_token(rs, t), u) ==> has_token(rs, u) && u != t,
    decreases rs.len(),
{
    lemma_drop_token_free(rs, t);
    if rs.len() > 0 {
        lemma_drop_token_tokens(rs.drop_last(), t, u);
        let d = drop_token(rs.drop_last(), t);
        if has_token(drop_token(rs, t), u) {
            let w = drop_token(rs, t);
            let i = choose|i: int| 0 <= i < w.len() && trim((#[trigger] w[i]).0) == u;
            if trim(rs.last().0) == t {
                assert(w == d);
                let j = choose|j: int| 0 <= j < rs.drop_last().len() && trim((#[trigger] rs.drop_last()[j]).0) == u;
                assert(rs[j] == rs.drop_last()[j]);
            } else {
                assert(w == d.push(rs.last()));
                if i < d.len() {
                    assert(w[i] == d[i]);
                    assert(has_token(d, u));
                    let j = choose|j: int| 0 <= j < rs.drop_last().len() && trim((#[trigger] rs.drop_last()[j]).0) == u;
                    assert(rs[j] == rs.drop_last()[j]);
                } else {
                    assert(w[i] == rs.last());
                    assert(rs[rs.len() - 1] == rs.last());
                }
            }
            assert(u != t);
        }
    }
}

proof fn lemma_cleared_tokens(
    records: Map<Seq<char>, Seq<RecordView>>,
    owner: Map<Seq<char>, Seq<char>>,
    k: Seq<char>,
    t: Seq<char>,
    k2: Seq<char>,
    u: Seq<char>,
)
    requires
        owners_consistent(records, owner),
        ({
            let cleared = if owner.contains_key(t) && owner[t] != k {
                remove_token_from(records, owner[t], t)
            } else {
                records
            };
            cleared.contains_key(k2) && has_token(cleared[k2], u)
        }),
    ensures
        records.contains_key(k2),
        has_token(records[k2], u),
        owner.contains_key(u) && owner[u] == k2,
        u == t ==> k2 == k,
{
    if owner.contains_key(t) && owner[t] != k && k2 == owner[t] {
        let p = owner[t];
        assert(records.contains_key(p));
        lemma_drop_token_tokens(records[p], t, u);
        assert(remove_token_from(records, p, t)[k2] == drop_token(records[p], t));
    } else if owner.contains_key(t) && owner[t] != k {
        assert(remove_token_from(records, owner[t], t)[k2] == records[k2]);
    }
    assert(records.contains_key(k2) && has_token(records[k2], u));
    assert(owner.contains_key(u) && owner[u] == k2);
}

/// Moving a record keeps one owner per token: when the index agreed with
/// the lists before, it agrees after, and the moved token is found under
/// the target key only.
pub proof fn law_keyed_move_single_owner(
    records: Map<Seq<char>, Seq<RecordView>>,
    owner: Map<Seq<char>, Seq<char>>,
    k: Seq<char>,
    r: RecordView,
)
    requires
        owners_consistent(records, owner),
    ensures
        ({
            let (records2, owner2) = keyed_move(records, owner, k, r);
            &&& owners_consistent(records2, owner2)
            &&& records2.contains_key(k) && has_token(records2[k], trim(r.0))
            &&& forall|k2: Seq<char>|
                #![trigger records2[k2]]
                records2.contains_key(k2) && k2 != k ==> !has_token(records2[k2], trim(r.0))
        }),
{
    let t = trim(r.0);
    let (records2, owner2) = keyed_move(records, owner, k, r);
    let cleared = if owner.contains_key(t) && owner[t] != k {
        remove_token_from(records, owner[t], t)
    } else {
        records
    };
    let base = if cleared.contains_key(k) {
        cleared[k]
    } else {
        Seq::empty()
    };
    let newk = drop_token(base, t).push(r);
    assert(records2 == cleared.insert(k, newk));
    // every token under a key of `cleared` was under that key before
    assert forall|k2: Seq<char>, u: Seq<char>|
        cleared.contains_key(k2) && has_token(cleared[k2], u) implies records.contains_key(k2) && has_token(
            records[k2],
            u,
        ) && (owner.contains_key(t) && owner[t] != k && k2 == owner[t] ==> u != t) by {
        if owner.contains_key(t) && owner[t] != k && k2 == owner[t] {
            lemma_drop_token_tokens(records[k2], t, u);
        }
    }
    assert(newk[newk.len() - 1] == r);
    assert(has_token(newk, t));
    assert forall|k2: Seq<char>, u: Seq<char>|
        #![trigger has_token(records2[k2], u)]
        records2.contains_key(k2) && has_token(records2[k2], u) implies owner2.contains_key(u) && owner2[u] == k2 by {
        if u == t {
            if k2 != k {
                assert(records2[k2] == cleared[k2]);
                assert(cleared.contains_key(k2));
                assert(has_token(cleared[k2], t));
                lemma_cleared_tokens(records, owner, k, t, k2, t);
                assert(false);
            }
        } else if k2 == k {
            let i = choose|i: int| 0 <= i < newk.len() && trim((#[trigger] newk[i]).0) == u;
            if i == newk.len() - 1 {
                assert(newk[i] == r);
            } else {
                assert(newk[i] == drop_token(base, t)[i]);
                assert(has_token(drop_token(base, t), u));
                lemma_drop_token_tokens(base, t, u);
                assert(cleared.contains_key(k));
                assert(has_token(cleared[k], u));
                assert(records.contains_key(k) && has_token(records[k], u));
            }
        } else {
            assert(records2[k2] == cleared[k2]);
            assert(records.contains_key(k2) && has_token(records[k2], u));
        }
    }
    assert forall|k2: Seq<char>|
        #![trigger records2[k2]]
        records2.contains_key(k2) && k2 != k implies !has_token(records2[k2], t) by {
        assert(records2[k2] == cleared[k2]);
        if has_token(cleared[k2], t) {
            lemma_cleared_tokens(records, owner, k, t, k2, t);
        }
    }
}

/// The keyed store after removing token `t` from key `k`: the key's list
/// loses the token, and the index forgets the token when `k` owned it.
pub open spec fn keyed_delete(
    records: Map<Seq<char>, Seq<RecordView>>,
    owner: Map<Seq<char>, Seq<char>>,
    k: Seq<char>,
    t: Seq<char>,
) -> (Map<Seq<char>, Seq<RecordView>>, Map<Seq<char>, Seq<char>>) {
    let owner2 = if owner.contains_key(t) && owner[t] == k {
        owner.remove(t)
    } else {
        owner
    };
    (remove_token_from(records, k, t), owner2)
}

/// Removing a token keeps the index in agreement with the lists, and the
/// token is no longer found under the key it was removed from.
pub proof fn law_keyed_delete_consistent(
    records: Map<Seq<char>, Seq<RecordView>>,
    owner: Map<Seq<char>, Seq<char>>,
    k: Seq<char>,
    t: Seq<char>,
)
    requires
        owners_consistent(records, owner),
    ensures
        ({
            let (records2, owner2) = keyed_delete(records, owner, k, t);
            &&& owners_consistent(records2, owner2)
            &&& records2.contains_key(k) ==> !has_token(records2[k], t)
        }),
{
    let (records2, owner2) = keyed_delete(records, owner, k, t);
    if records.contains_key(k) {
        lemma_drop_token_free(records[k], t);
        lemma_drop_token_tokens(records[k], t, t);
    }
    assert forall|k2: Seq<char>, u: Seq<char>|
        #![trigger has_token(records2[k2], u)]
        records2.contains_key(k2) && has_token(records2[k2], u) implies owner2.contains_key(u) && owner2[u] == k2 by {
        if k2 == k {
            lemma_drop_token_tokens(records[k], t, u);
            assert(records2[k2] == drop_token(records[k], t));
            assert(has_token(records[k], u));
        } else {
            assert(records2[k2] == records[k2]);
            assert(has_token(records[k2], u));
        }
    }
}

/// Whether the stored lists `s` name key `k`.
pub open spec fn lists_name(s: Seq<(Seq<char>, Seq<RecordView>)>, k: Seq<char>) -> bool {
    exists|i: int| 0 <= i < s.len() && (#[trigger] s[i]).0 == k
}

proof fn lemma_load_onto(m0: Map<Seq<char>, Seq<RecordView>>, s: Seq<(Seq<char>, Seq<RecordView>)>)
    requires
        forall|i: int, j: int|
            0 <= i < s.len() && 0 <= j < s.len() && i != j ==> (#[trigger] s[i]).0 != (#[trigger] s[j]).0,
    ensures
        forall|i: int|
            0 <= i < s.len() ==> load_onto(m0, s).contains_key((#[trigger] s[i]).0) && load_onto(m0, s)[s[i].0]
                == s[i].1,
        forall|k: Seq<char>|
            !lists_name(s, k) ==> (#[trigger] load_onto(m0, s).contains_key(k) == m0.contains_key(k)) && (
            m0.contains_key(k) ==> load_onto(m0, s)[k] == m0[k]),
    decreases s.len(),
{
    if s.len() > 0 {
        let t = s.drop_first();
        let m1 = m0.insert(s[0].0, s[0].1);
        assert forall|i: int, j: int|
            0 <= i < t.len() && 0 <= j < t.len() && i != j implies (#[trigger] t[i]).0 != (#[trigger] t[j]).0 by {
            assert(t[i] == s[i + 1] && t[j] == s[j + 1]);
        }
        lemma_load_onto(m1, t);
        let l = load_onto(m1, t);
        assert(load_onto(m0, s) == l);
        assert forall|i: int| 0 <= i < s.len() implies load_onto(m0, s).contains_key((#[trigger] s[i]).0)
            && load_onto(m0, s)[s[i].0] == s[i].1 by {
            if i == 0 {
                if lists_name(t, s[0].0) {
                    let j = choose|j: int| 0 <= j < t.len() && (#[trigger] t[j]).0 == s[0].0;
                    assert(t[j] == s[j + 1]);
                }
                assert(l.contains_key(s[0].0) == m1.contains_key(s[0].0));
            } else {
                assert(t[i - 1] == s[i]);
                assert(l.contains_key(t[i - 1].0) && l[t[i - 1].0] == t[i - 1].1);
            }
        }
        assert forall|k: Seq<char>| !lists_name(s, k) implies (#[trigger] load_onto(m0, s).contains_key(k)
            == m0.contains_key(k)) && (m0.contains_key(k) ==> load_onto(m0, s)[k] == m0[k]) by {
            if lists_name(t, k) {
                let j = choose|j: int| 0 <= j < t.len() && (#[trigger] t[j]).0 == k;
                assert(t[j] == s[j + 1]);
            }
            assert(s[0].0 != k);
            assert(l.contains_key(k) == m1.contains_key(k));
        }
    }
}

/// Saving the registry and loading it back gives the same registry: lists
/// with distinct keys that hold exactly the registry's keys and records load
/// into that registry.
pub proof fn law_saved_lists_load_back(
    m: Map<Seq<char>, Seq<RecordView>>,
    r: Seq<(String, Vec<PushTokenRecord>)>,
)
    requires
        forall|i: int, j: int|
            0 <= i < r.len() && 0 <= j < r.len() && i != j ==> (#[trigger] r[i]).0@ != (#[trigger] r[j]).0@,
        forall|i: int|
            0 <= i < r.len() ==> m.contains_key((#[trigger] r[i]).0@) && m[r[i].0@] == records_view(r[i].1@),
        forall|k: Seq<char>| #[trigger] m.contains_key(k) ==> exists|i: int| 0 <= i < r.len() && r[i].0@ == k,
    ensures
        load_spec(list_views(r)) == m,
{
    let s = list_views(r);
    assert forall|i: int, j: int|
        0 <= i < s.len() && 0 <= j < s.len() && i != j implies (#[trigger] s[i]).0 != (#[trigger] s[j]).0 by {
        assert(s[i].0 == r[i].0@ && s[j].0 == r[j].0@);
    }
    lemma_load_onto(Map::empty(), s);
    let l = load_spec(s);
    assert forall|k: Seq<char>| #[trigger] l.contains_key(k) == m.contains_key(k) by {
        if m.contains_key(k) {
            let i = choose|i: int| 0 <= i < r.len() && r[i].0@ == k;
            assert(s[i].0 == k);
        }
        if lists_name(s, k) {
            let i = choose|i: int| 0 <= i < s.len() && (#[trigger] s[i]).0 == k;
            assert(s[i].0 == r[i].0@);
            assert(m.contains_key(r[i].0@));
        }
    }
    assert forall|k: Seq<char>| #[trigger] l.contains_key(k) implies l[k] == m[k] by {
        if lists_name(s, k) {
            let i = choose|i: int| 0 <= i < s.len() && (#[trigger] s[i]).0 == k;
            assert(s[i] == (r[i].0@, records_view(r[i].1@)));
        }
    }
    assert(l =~= m);
}

proof fn lemma_drop_token_len(rs: Seq<RecordView>, t: Seq<char>)
    ensures
        drop_token(rs, t).len() <= rs.len(),
        drop_token(rs, t).len() == rs.len() ==> drop_token(rs, t) == rs,
    decreases rs.len(),
{
    if rs.len() > 0 {
        lemma_drop_token_len(rs.drop_last(), t);
        if trim(rs.last().0) != t && drop_token(rs, t).len() == rs.len() {
            assert(rs.drop_last().push(rs.last()) =~= rs);
        }
    }
}

/// What a key's list becomes after a token leaves it: `None` when nothing
/// is left (the key is removed), else the remaining list.
pub open spec fn list_after_removal(rs: Seq<RecordView>, t: Seq<char>) -> Option<Seq<RecordView>> {
    if drop_token(rs, t).len() == 0 {
        None
    } else {
        Some(drop_token(rs, t))
    }
}

/// The list that an update leaves, `prev` being the list before it.
pub open spec fn list_after_update(u: RecordsUpdate, prev: Seq<RecordView>) -> Option<Seq<RecordView>> {
    match u {
        RecordsUpdate::Delete => None,
        RecordsUpdate::Put(v) => Some(records_view(v@)),
        RecordsUpdate::Unchanged => Some(prev),
    }
}

/// The writes that move a record to a key: what becomes of the previous
/// owner's list, if another key owned the token, and the target's new list.
#[derive(Debug)]
pub struct MovePlan {
    pub clear: Option<(String, RecordsUpdate)>,
    pub target_records: Vec<PushTokenRecord>,
}

/// The previous owner's key and its list after the token leaves it, when
/// the token is owned by another key that has a list.
pub open spec fn clear_spec(
    owner: Option<Seq<char>>,
    k: Seq<char>,
    previous: Option<Seq<RecordView>>,
    t: Seq<char>,
) -> Option<(Seq<char>, Option<Seq<RecordView>>)> {
    match (owner, previous) {
        (Some(o), Some(prev)) if o != k => Some((o, list_after_removal(prev, t))),
        _ => None,
    }
}

/// The target's list after record `r` moves to it.
pub open spec fn target_spec(target: Option<Seq<RecordView>>, r: RecordView) -> Seq<RecordView> {
    let base = match target {
        Some(v) => v,
        None => Seq::empty(),
    };
    drop_token(base, trim(r.0)).push(r)
}

/// The views of an optional list.
pub open spec fn opt_records_view(v: Option<&Vec<PushTokenRecord>>) -> Option<Seq<RecordView>> {
    match v {
        Some(l) => Some(records_view(l@)),
        None => None,
    }
}

/// The writes that move `record` to `target_key`, from what the store
/// holds: the token's owner, the target's list and the owner's list.
pub fn move_plan(
    owner: Option<&str>,
    target_key: &str,
    target_records: Option<&Vec<PushTokenRecord>>,
    previous_records: Option<&Vec<PushTokenRecord>>,
    record: PushTokenRecord,
) -> (r: MovePlan)
    ensures
        ({
            let t = trim(record.token@);
            let want = clear_spec(
                match owner {
                    Some(o) => Some(o@),
                    None => None,
                },
                target_key@,
                opt_records_view(previous_records),
                t,
            );
            &&& match (r.clear, want) {
                (Some((p, u)), Some((q, after))) => p@ == q && previous_records is Some
                    && list_after_update(u, records_view(previous_records->0@)) == after,
                (None, None) => true,
                _ => false,
            }
            &&& records_view(r.target_records@) == target_spec(
                opt_records_view(target_records),
                record.view_of(),
            )
        }),
{
    let t = trimmed_string(record.token.as_str());
    let clear = match previous_owner_to_clear(owner, target_key) {
        Some(p) => match previous_records {
            Some(prev) => {
                let (u, _) = remove_token_update(prev, t.as_str());
                proof {
                    lemma_drop_token_len(records_view(prev@), t@);
                }
                Some((p, u))
            },
            None => None,
        },
        None => None,
    };
    let empty: Vec<PushTokenRecord> = Vec::new();
    let base = match target_records {
        Some(v) => v,
        None => &empty,
    };
    let target = records_with(base, record);
    MovePlan { clear, target_records: target }
}

/// The store after applying the writes of a move of token `t` to key `k`.
pub open spec fn applied_move(
    records: Map<Seq<char>, Seq<RecordView>>,
    owner: Map<Seq<char>, Seq<char>>,
    k: Seq<char>,
    t: Seq<char>,
    clear: Option<(Seq<char>, Option<Seq<RecordView>>)>,
    target: Seq<RecordView>,
) -> (Map<Seq<char>, Seq<RecordView>>, Map<Seq<char>, Seq<char>>) {
    let cleared = match clear {
        Some((p, Some(v))) => records.insert(p, v),
        Some((p, None)) => records.remove(p),
        None => records,
    };
    (cleared.insert(k, target), owner.insert(t, k))
}

/// The writes that `move_plan` makes from the store's contents, applied to
/// the store, give the keyed move: what `move_plan` is handed is read from
/// the store (the token's owner, the target's list, the owner's list).
pub proof fn law_move_plan_is_keyed_move(
    records: Map<Seq<char>, Seq<RecordView>>,
    owner: Map<Seq<char>, Seq<char>>,
    k: Seq<char>,
    r: RecordView,
)
    ensures
        ({
            let t = trim(r.0);
            let o = if owner.contains_key(t) {
                Some(owner[t])
            } else {
                None
            };
            let prev = match o {
                Some(p) => if records.contains_key(p) {
                    Some(records[p])
                } else {
                    None
                },
                None => None,
            };
            let target = if records.contains_key(k) {
                Some(records[k])
            } else {
                None
            };
            applied_move(records, owner, k, t, clear_spec(o, k, prev, t), target_spec(target, r))
                == keyed_move(records, owner, k, r)
        }),
{
    let t = trim(r.0);
    let (a_records, a_owner) = keyed_move(records, owner, k, r);
    let o = if owner.contains_key(t) {
        Some(owner[t])
    } else {
        None
    };
    let prev = match o {
        Some(p) => if records.contains_key(p) {
            Some(records[p])
        } else {
            None
        },
        None => None,
    };
    let target = if records.contains_key(k) {
        Some(records[k])
    } else {
        None
    };
    let (b_records, b_owner) = applied_move(records, owner, k, t, clear_spec(o, k, prev, t), target_spec(target, r));
    let cleared = if owner.contains_key(t) && owner[t] != k {
        remove_token_from(records, owner[t], t)
    } else {
        records
    };
    if owner.contains_key(t) && owner[t] != k {
        assert(cleared.contains_key(k) == records.contains_key(k));
        if records.contains_key(k) {
            assert(cleared[k] == records[k]);
        }
    }
    assert(b_records =~= a_records);
    assert(b_owner =~= a_owner);
}

/// The writes that remove a token from a key: the key's list update, when
/// it has a list, and whether the owner index forgets the token.
#[derive(Debug)]
pub struct DeletePlan {
    pub update: Option<RecordsUpdate>,
    pub forget_owner: bool,
}

/// The writes that remove `token` (trimmed) from `key` (trimmed), from what
/// the store holds: the key's list and the token's owner.
pub fn delete_plan(owner: Option<&str>, key: &str, records: Option<&Vec<PushTokenRecord>>, token: &str) -> (r:
    DeletePlan)
    ensures
        match records {
            Some(l) => r.update matches Some(u) && list_after_update(u, records_view(l@))
                == list_after_removal(records_view(l@), token@),
            None => r.update is None,
        },
        r.forget_owner == (owner matches Some(o) && o@ == key@),
{
    let update = match records {
        Some(l) => {
            let (u, _) = remove_token_update(l, token);
            proof {
                lemma_drop_token_len(records_view(l@), token@);
            }
            Some(u)
        },
        None => None,
    };
    let forget_owner = match owner {
        Some(o) => {
            let a = chars_of(o);
            let b = chars_of(key);
            chars_eq(a.as_slice(), b.as_slice())
        },
        None => false,
    };
    DeletePlan { update, forget_owner }
}

/// The store after applying the writes of removing token `t` from key `k`.
pub open spec fn applied_delete(
    records: Map<Seq<char>, Seq<RecordView>>,
    owner: Map<Seq<char>, Seq<char>>,
    k: Seq<char>,
    t: Seq<char>,
    after: Option<Option<Seq<RecordView>>>,
    forget_owner: bool,
) -> (Map<Seq<char>, Seq<RecordView>>, Map<Seq<char>, Seq<char>>) {
    let records2 = match after {
        Some(Some(v)) => records.insert(k, v),
        Some(None) => records.remove(k),
        None => records,
    };
    (records2, if forget_owner { owner.remove(t) } else { owner })
}

/// The writes that `delete_plan` makes from the store's contents, applied
/// to the store, give the keyed delete.
pub proof fn law_delete_plan_is_keyed_delete(
    records: Map<Seq<char>, Seq<RecordView>>,
    owner: Map<Seq<char>, Seq<char>>,
    k: Seq<char>,
    t: Seq<char>,
)
    ensures
        ({
            let after = if records.contains_key(k) {
                Some(list_after_removal(records[k], t))
            } else {
                None
            };
            let forget = owner.contains_key(t) && owner[t] == k;
            applied_delete(records, owner, k, t, after, forget) == keyed_delete(records, owner, k, t)
        }),
{
    let after = if records.contains_key(k) {
        Some(list_after_removal(records[k], t))
    } else {
        None
    };
    let forget = owner.contains_key(t) && owner[t] == k;
    let (a, b) = applied_delete(records, owner, k, t, after, forget);
    let (c, d) = keyed_delete(records, owner, k, t);
    assert(a =~= c);
    assert(b =~= d);
}


/// One call on the keyed store: a record moved to a key, or a token
/// (trimmed) removed from a key.
pub enum StoreOp {
    Move(Seq<char>, RecordView),
    Delete(Seq<char>, Seq<char>),
}

/// The keyed store after one call.
pub open spec fn apply_op(
    records: Map<Seq<char>, Seq<RecordView>>,
    owner: Map<Seq<char>, Seq<char>>,
    op: StoreOp,
) -> (Map<Seq<char>, Seq<RecordView>>, Map<Seq<char>, Seq<char>>) {
    match op {
        StoreOp::Move(k, r) => keyed_move(records, owner, k, r),
        StoreOp::Delete(k, t) => keyed_delete(records, owner, k, t),
    }
}

/// The keyed store after the calls `ops`, one after another.
pub open spec fn run_ops(
    records: Map<Seq<char>, Seq<RecordView>>,
    owner: Map<Seq<char>, Seq<char>>,
    ops: Seq<StoreOp>,
) -> (Map<Seq<char>, Seq<RecordView>>, Map<Seq<char>, Seq<char>>)
    decreases ops.len(),
{
    if ops.len() == 0 {
        (records, owner)
    } else {
        let (r2, o2) = apply_op(records, owner, ops[0]);
        run_ops(r2, o2, ops.drop_first())
    }
}

/// Whether token `t` is listed under at most one key.
pub open spec fn listed_once(records: Map<Seq<char>, Seq<RecordView>>, t: Seq<char>) -> bool {
    forall|k1: Seq<char>, k2: Seq<char>|
        #![trigger has_token(records[k1], t), has_token(records[k2], t)]
        records.contains_key(k1) && records.contains_key(k2) && has_token(records[k1], t) && has_token(
            records[k2],
            t,
        ) ==> k1 == k2
}

proof fn lemma_consistent_listed_once(
    records: Map<Seq<char>, Seq<RecordView>>,
    owner: Map<Seq<char>, Seq<char>>,
    t: Seq<char>,
)
    requires
        owners_consistent(records, owner),
    ensures
        listed_once(records, t),
{
}

/// One owner per token over any run of calls: when the index agrees with
/// the lists at the start, it agrees after any run of moves and removals,
/// so every token is listed under at most one key.
pub proof fn law_run_keeps_single_owner(
    records: Map<Seq<char>, Seq<RecordView>>,
    owner: Map<Seq<char>, Seq<char>>,
    ops: Seq<StoreOp>,
)
    requires
        owners_consistent(records, owner),
    ensures
        owners_consistent(run_ops(records, owner, ops).0, run_ops(records, owner, ops).1),
        forall|t: Seq<char>| #[trigger] listed_once(run_ops(records, owner, ops).0, t),
    decreases ops.len(),
{
    if ops.len() > 0 {
        let (r2, o2) = apply_op(records, owner, ops[0]);
        match ops[0] {
            StoreOp::Move(k, r) => law_keyed_move_single_owner(records, owner, k, r),
            StoreOp::Delete(k, t) => law_keyed_delete_consistent(records, owner, k, t),
        }
        law_run_keeps_single_owner(r2, o2, ops.drop_first());
    } else {
        assert forall|t: Seq<char>| #[trigger] listed_once(records, t) by {
            lemma_consistent_listed_once(records, owner, t);
        }
    }
}

proof fn lemma_drop_token_keeps(rs: Seq<RecordView>, t: Seq<char>, u: Seq<char>)
    requires
        has_token(rs, u),
        u != t,
    ensures
        has_token(drop_token(rs, t), u),
    decreases rs.len(),
{
    let i = choose|i: int| 0 <= i < rs.len() && trim((#[trigger] rs[i]).0) == u;
    let d = drop_token(rs.drop_last(), t);
    if i == rs.len() - 1 {
        assert(rs.last() == rs[i]);
        assert(drop_token(rs, t) == d.push(rs.last()));
        assert(d.push(rs.last())[d.len() as int] == rs.last());
    } else {
        assert(rs.drop_last()[i] == rs[i]);
        lemma_drop_token_keeps(rs.drop_last(), t, u);
        let j = choose|j: int| 0 <= j < d.len() && trim((#[trigger] d[j]).0) == u;
        if trim(rs.last().0) != t {
            assert(d.push(rs.last())[j] == d[j]);
        }
    }
}

/// Whether a call neither moves token `t` again nor removes it from key `k`.
pub open spec fn leaves_token(op: StoreOp, k: Seq<char>, t: Seq<char>) -> bool {
    match op {
        StoreOp::Move(_, r) => trim(r.0) != t,
        StoreOp::Delete(k2, t2) => !(k2 == k && t2 == t),
    }
}

proof fn lemma_op_keeps_listing(
    records: Map<Seq<char>, Seq<RecordView>>,
    owner: Map<Seq<char>, Seq<char>>,
    op: StoreOp,
    k: Seq<char>,
    t: Seq<char>,
)
    requires
        owners_consistent(records, owner),
        records.contains_key(k),
        has_token(records[k], t),
        leaves_token(op, k, t),
    ensures
        apply_op(records, owner, op).0.contains_key(k),
        has_token(apply_op(records, owner, op).0[k], t),
{
    match op {
        StoreOp::Move(k2, r) => {
            let u = trim(r.0);
            let cleared = if owner.contains_key(u) && owner[u] != k2 {
                remove_token_from(records, owner[u], u)
            } else {
                records
            };
            assert(cleared.contains_key(k) && has_token(cleared[k], t)) by {
                if owner.contains_key(u) && owner[u] != k2 && owner[u] == k {
                    lemma_drop_token_keeps(records[k], u, t);
                    let d = drop_token(records[k], u);
                    let j = choose|j: int| 0 <= j < d.len() && trim((#[trigger] d[j]).0) == t;
                    assert(d.len() > 0);
                }
            }
            if k2 == k {
                let base = cleared[k];
                lemma_drop_token_keeps(base, u, t);
                let d = drop_token(base, u);
                let j = choose|j: int| 0 <= j < d.len() && trim((#[trigger] d[j]).0) == t;
                assert(d.push(r)[j] == d[j]);
            }
        },
        StoreOp::Delete(k2, t2) => {
            if k2 == k {
                lemma_drop_token_keeps(records[k], t2, t);
                let d = drop_token(records[k], t2);
                let j = choose|j: int| 0 <= j < d.len() && trim((#[trigger] d[j]).0) == t;
                assert(d.len() > 0);
            }
        },
    }
}

/// The last move of a token decides where it is listed: after a move of a
/// record with token `t` to key `k`, followed by calls that neither move
/// `t` again nor remove it from `k`, `t` is listed under `k` and under no
/// other key.
pub proof fn law_last_move_decides_owner(
    records: Map<Seq<char>, Seq<RecordView>>,
    owner: Map<Seq<char>, Seq<char>>,
    k: Seq<char>,
    r: RecordView,
    later: Seq<StoreOp>,
)
    requires
        owners_consistent(records, owner),
        forall|i: int| 0 <= i < later.len() ==> leaves_token(#[trigger] later[i], k, trim(r.0)),
    ensures
        ({
            let (r2, o2) = keyed_move(records, owner, k, r);
            let (r3, o3) = run_ops(r2, o2, later);
            &&& r3.contains_key(k) && has_token(r3[k], trim(r.0))
            &&& forall|k2: Seq<char>|
                #![trigger r3[k2]]
                r3.contains_key(k2) && k2 != k ==> !has_token(r3[k2], trim(r.0))
        }),
{
    law_keyed_move_single_owner(records, owner, k, r);
    let (r2, o2) = keyed_move(records, owner, k, r);
    lemma_run_keeps_listing(r2, o2, later, k, trim(r.0));
}

proof fn lemma_run_keeps_listing(
    records: Map<Seq<char>, Seq<RecordView>>,
    owner: Map<Seq<char>, Seq<char>>,
    ops: Seq<StoreOp>,
    k: Seq<char>,
    t: Seq<char>,
)
    requires
        owners_consistent(records, owner),
        records.contains_key(k),
        has_token(records[k], t),
        forall|i: int| 0 <= i < ops.len() ==> leaves_token(#[trigger] ops[i], k, t),
    ensures
        ({
            let (r3, o3) = run_ops(records, owner, ops);
            &&& r3.contains_key(k) && has_token(r3[k], t)
            &&& forall|k2: Seq<char>|
                #![trigger r3[k2]]
                r3.contains_key(k2) && k2 != k ==> !has_token(r3[k2], t)
        }),
    decreases ops.len(),
{
    if ops.len() > 0 {
        let (r2, o2) = apply_op(records, owner, ops[0]);
        assert(leaves_token(ops[0], k, t));
        lemma_op_keeps_listing(records, owner, ops[0], k, t);
        match ops[0] {
            StoreOp::Move(k1, r) => law_keyed_move_single_owner(records, owner, k1, r),
            StoreOp::Delete(k1, t1) => law_keyed_delete_consistent(records, owner, k1, t1),
        }
        let rest = ops.drop_first();
        assert forall|i: int| 0 <= i < rest.len() implies leaves_token(#[trigger] rest[i], k, t) by {
            assert(rest[i] == ops[i + 1]);
        }
        lemma_run_keeps_listing(r2, o2, rest, k, t);
    } else {
        assert forall|k2: Seq<char>|
            #![trigger records[k2]]
            records.contains_key(k2) && k2 != k implies !has_token(records[k2], t) by {
            if has_token(records[k2], t) {
                assert(owner[t] == k2);
                assert(owner[t] == k);
            }
        }
    }
}

} // verus!

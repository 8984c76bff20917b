//! Tables of strings: every key once, in ascending order.
use crate::config::Entry;
use crate::environment;
use crate::text;
use vstd::prelude::*;

verus! {

/// The keys of `entries` ascend, so none of them occurs twice.
pub open spec fn is_table(entries: Seq<Entry>) -> bool {
    forall|i: int, j: int|
        0 <= i < j < entries.len() ==> text::lex_before(
            (#[trigger] entries[i]).key@,
            (#[trigger] entries[j]).key@,
        )
}

/// The value of the last entry with the given key.
pub open spec fn latest_spec(entries: Seq<Entry>, key: Seq<char>) -> Option<Seq<char>>
    decreases entries.len(),
{
    if entries.len() == 0 {
        None
    } else if entries.last().key@ == key {
        Some(entries.last().value@)
    } else {
        latest_spec(entries.drop_last(), key)
    }
}

// ---------------------------------------------------------------------------------------------
// What a lookup finds
// ---------------------------------------------------------------------------------------------
proof fn lemma_lookup_from(entries: Seq<Entry>, key: Seq<char>, i: int)
    requires
        0 <= i <= entries.len(),
    ensures
        match environment::lookup_from(entries, key, i) {
            Some(v) => exists|j: int|
                i <= j < entries.len() && (#[trigger] entries[j]).key@ == key && entries[j].value@
                    == v,
            None => forall|j: int| i <= j < entries.len() ==> (#[trigger] entries[j]).key@ != key,
        },
    decreases entries.len() - i,
{
    if i < entries.len() && entries[i].key@ != key {
        lemma_lookup_from(entries, key, i + 1);
    }
}

/// A lookup comes back with nothing exactly where no entry has the key.
pub proof fn lemma_lookup_finds_what_is_there(entries: Seq<Entry>, key: Seq<char>)
    ensures
        environment::lookup_spec(entries, key) is None <==> forall|j: int|
            0 <= j < entries.len() ==> (#[trigger] entries[j]).key@ != key,
{
    lemma_lookup_from(entries, key, 0);
}

/// A lookup in a table gives the one entry under a key, wherever it stands.
pub proof fn lemma_lookup_gives_the_entry(entries: Seq<Entry>, i: int)
    requires
        is_table(entries),
        0 <= i < entries.len(),
    ensures
        environment::lookup_spec(entries, entries[i].key@) == Some(entries[i].value@),
        forall|j: int|
            0 <= j < entries.len() && j != i ==> (#[trigger] entries[j]).key@ != entries[i].key@,
{
    text::lemma_lex_irreflexive(entries[i].key@);
    lemma_lookup_from(entries, entries[i].key@, 0);
}

proof fn lemma_lookup_skips(entries: Seq<Entry>, key: Seq<char>, i: int)
    requires
        entries.len() > 0,
        0 <= i <= entries.len() - 1,
    ensures
        environment::lookup_from(entries.skip(1), key, i) == environment::lookup_from(
            entries,
            key,
            i + 1,
        ),
    decreases entries.len() - i,
{
    if i < entries.len() - 1 {
        lemma_lookup_skips(entries, key, i + 1);
    }
}

proof fn lemma_tail_is_table(entries: Seq<Entry>)
    requires
        is_table(entries),
        entries.len() > 0,
    ensures
        is_table(entries.skip(1)),
        environment::lookup_spec(entries.skip(1), entries[0].key@) is None,
        forall|k: Seq<char>|
            k != entries[0].key@ ==> #[trigger] environment::lookup_spec(entries.skip(1), k)
                == environment::lookup_spec(entries, k),
{
    let tail = entries.skip(1);
    assert forall|i: int, j: int| 0 <= i < j < tail.len() implies text::lex_before(
        (#[trigger] tail[i]).key@,
        (#[trigger] tail[j]).key@,
    ) by {
        assert(text::lex_before(entries[i + 1].key@, entries[j + 1].key@));
    }
    assert forall|j: int| 0 <= j < tail.len() implies (#[trigger] tail[j]).key@
        != entries[0].key@ by {
        assert(text::lex_before(entries[0].key@, entries[j + 1].key@));
        text::lemma_lex_irreflexive(entries[0].key@);
    }
    lemma_lookup_from(tail, entries[0].key@, 0);
    assert forall|k: Seq<char>| k != entries[0].key@ implies #[trigger] environment::lookup_spec(
        tail,
        k,
    ) == environment::lookup_spec(entries, k) by {
        lemma_lookup_skips(entries, k, 0);
    }
}

proof fn lemma_first_keys_agree(a: Seq<Entry>, b: Seq<Entry>)
    requires
        is_table(a),
        is_table(b),
        a.len() > 0,
        forall|k: Seq<char>| #[trigger]
            environment::lookup_spec(a, k) == environment::lookup_spec(b, k),
    ensures
        b.len() > 0,
        a[0].key@ == b[0].key@,
        a[0].value@ == b[0].value@,
{
    lemma_lookup_gives_the_entry(a, 0);
    lemma_lookup_from(b, a[0].key@, 0);
    assert(environment::lookup_spec(a, a[0].key@) == environment::lookup_spec(b, a[0].key@));
    let j = choose|j: int| 0 <= j < b.len() && (#[trigger] b[j]).key@ == a[0].key@;
    lemma_lookup_gives_the_entry(b, 0);
    lemma_lookup_from(a, b[0].key@, 0);
    assert(environment::lookup_spec(a, b[0].key@) == environment::lookup_spec(b, b[0].key@));
    let i = choose|i: int| 0 <= i < a.len() && (#[trigger] a[i]).key@ == b[0].key@;
    if j > 0 {
        assert(text::lex_before(b[0].key@, b[j].key@));
        if i > 0 {
            assert(text::lex_before(a[0].key@, a[i].key@));
            text::lemma_lex_transitive(a[0].key@, b[0].key@, a[0].key@);
        }
        text::lemma_lex_irreflexive(a[0].key@);
    }
}

/// A table is what its lookups say: two tables in which every key has the same value hold the same
/// entries in the same order.
pub proof fn lemma_tables_agree(a: Seq<Entry>, b: Seq<Entry>)
    requires
        is_table(a),
        is_table(b),
        forall|k: Seq<char>| #[trigger]
            environment::lookup_spec(a, k) == environment::lookup_spec(b, k),
    ensures
        environment::entry_views(a) == environment::entry_views(b),
    decreases a.len(),
{
    if a.len() == 0 {
        if b.len() > 0 {
            lemma_first_keys_agree(b, a);
        }
        assert(environment::entry_views(a) =~= environment::entry_views(b));
    } else {
        lemma_first_keys_agree(a, b);
        lemma_tail_is_table(a);
        lemma_tail_is_table(b);
        assert forall|k: Seq<char>| #[trigger]
            environment::lookup_spec(a.skip(1), k) == environment::lookup_spec(b.skip(1), k) by {
            if k != a[0].key@ {
                assert(environment::lookup_spec(a, k) == environment::lookup_spec(b, k));
                assert(environment::lookup_spec(b.skip(1), k) == environment::lookup_spec(b, k));
            }
        }
        lemma_tables_agree(a.skip(1), b.skip(1));
        let x = environment::entry_views(a);
        let y = environment::entry_views(b);
        assert(x.skip(1) =~= environment::entry_views(a.skip(1)));
        assert(y.skip(1) =~= environment::entry_views(b.skip(1)));
        assert(x[0] == y[0]);
        assert(x =~= seq![x[0]] + x.skip(1));
        assert(y =~= seq![y[0]] + y.skip(1));
    }
}

/// In a table the last entry with a key is the only one.
pub proof fn lemma_latest_in_a_table(entries: Seq<Entry>, key: Seq<char>)
    requires
        is_table(entries),
    ensures
        latest_spec(entries, key) == environment::lookup_spec(entries, key),
{
    lemma_latest(entries, key);
    lemma_lookup_from(entries, key, 0);
    if latest_spec(entries, key) is Some {
        let i = choose|i: int|
            0 <= i < entries.len() && (#[trigger] entries[i]).key@ == key && Some(entries[i].value@)
                == latest_spec(entries, key);
        lemma_lookup_gives_the_entry(entries, i);
    }
}

proof fn lemma_latest(entries: Seq<Entry>, key: Seq<char>)
    ensures
        match latest_spec(entries, key) {
            Some(v) => exists|i: int|
                0 <= i < entries.len() && (#[trigger] entries[i]).key@ == key && Some(
                    entries[i].value@,
                ) == latest_spec(entries, key),
            None => forall|i: int| 0 <= i < entries.len() ==> (#[trigger] entries[i]).key@ != key,
        },
    decreases entries.len(),
{
    if entries.len() > 0 {
        let init = entries.drop_last();
        if entries.last().key@ == key {
            assert(entries[entries.len() - 1].key@ == key);
        } else {
            lemma_latest(init, key);
            if latest_spec(init, key) is Some {
                let i = choose|i: int|
                    0 <= i < init.len() && (#[trigger] init[i]).key@ == key && Some(init[i].value@)
                        == latest_spec(init, key);
                assert(entries[i].key@ == key);
            } else {
                assert forall|i: int| 0 <= i < entries.len() implies (#[trigger] entries[i]).key@
                    != key by {
                    if i < init.len() {
                        assert(init[i].key@ != key);
                    }
                }
            }
        }
    }
}

// ---------------------------------------------------------------------------------------------
// Making a table
// ---------------------------------------------------------------------------------------------
/// `place` is where `key` stands in a table, or would stand.
spec fn is_place(entries: Seq<Entry>, key: Seq<char>, place: int) -> bool {
    &&& 0 <= place <= entries.len()
    &&& forall|j: int| 0 <= j < place ==> text::lex_before((#[trigger] entries[j]).key@, key)
    &&& place < entries.len() ==> entries[place].key@ == key || text::lex_before(
        key,
        entries[place].key@,
    )
    &&& forall|j: int|
        place < j < entries.len() ==> text::lex_before(key, (#[trigger] entries[j]).key@)
}

proof fn lemma_place(entries: Seq<Entry>, key: Seq<char>, place: int)
    requires
        is_table(entries),
        0 <= place <= entries.len(),
        forall|j: int| 0 <= j < place ==> text::lex_before((#[trigger] entries[j]).key@, key),
        place < entries.len() ==> !text::lex_before(entries[place].key@, key),
    ensures
        is_place(entries, key, place),
{
    if place < entries.len() {
        text::lemma_lex_total(entries[place].key@, key);
    }
    assert forall|j: int| place < j < entries.len() implies text::lex_before(
        key,
        (#[trigger] entries[j]).key@,
    ) by {
        assert(text::lex_before(entries[place].key@, entries[j].key@));
        if entries[place].key@ != key {
            text::lemma_lex_transitive(key, entries[place].key@, entries[j].key@);
        }
    }
}

/// The table with `entry` at its place, over the one that had its key.
spec fn with_entry(entries: Seq<Entry>, entry: Entry, place: int) -> Seq<Entry> {
    if place < entries.len() && entries[place].key@ == entry.key@ {
        entries.update(place, entry)
    } else {
        entries.insert(place, entry)
    }
}

proof fn lemma_with_entry(entries: Seq<Entry>, entry: Entry, place: int)
    requires
        is_table(entries),
        is_place(entries, entry.key@, place),
    ensures
        is_table(with_entry(entries, entry, place)),
        forall|k: Seq<char>| #[trigger]
            environment::lookup_spec(with_entry(entries, entry, place), k) == (if k == entry.key@ {
                Some(entry.value@)
            } else {
                environment::lookup_spec(entries, k)
            }),
{
    let out = with_entry(entries, entry, place);
    let same = place < entries.len() && entries[place].key@ == entry.key@;
    text::lemma_lex_irreflexive(entry.key@);
    assert forall|i: int, j: int| 0 <= i < j < out.len() implies text::lex_before(
        (#[trigger] out[i]).key@,
        (#[trigger] out[j]).key@,
    ) by {
        let x = if same || i <= place {
            i
        } else {
            i - 1
        };
        let y = if same || j <= place {
            j
        } else {
            j - 1
        };
        if i == place {
            assert(out[j].key@ == entries[y].key@);
            if same {
                assert(text::lex_before(entries[x].key@, entries[y].key@));
            }
        } else if j == place {
            assert(out[i].key@ == entries[x].key@);
        } else {
            assert(text::lex_before(entries[x].key@, entries[y].key@));
        }
    }
    assert(out[place].key@ == entry.key@);
    lemma_lookup_gives_the_entry(out, place);
    assert forall|k: Seq<char>| #[trigger]
        environment::lookup_spec(out, k) == (if k == entry.key@ {
            Some(entry.value@)
        } else {
            environment::lookup_spec(entries, k)
        }) by {
        if k != entry.key@ {
            lemma_other_keys_stay(entries, entry, place, k);
        }
    }
}

proof fn lemma_other_keys_stay(entries: Seq<Entry>, entry: Entry, place: int, k: Seq<char>)
    requires
        is_table(entries),
        is_table(with_entry(entries, entry, place)),
        0 <= place <= entries.len(),
        k != entry.key@,
    ensures
        environment::lookup_spec(with_entry(entries, entry, place), k) == environment::lookup_spec(
            entries,
            k,
        ),
{
    let out = with_entry(entries, entry, place);
    let same = place < entries.len() && entries[place].key@ == entry.key@;
    lemma_lookup_from(entries, k, 0);
    lemma_lookup_from(out, k, 0);
    if environment::lookup_spec(entries, k) is Some {
        let i = choose|i: int| 0 <= i < entries.len() && (#[trigger] entries[i]).key@ == k;
        let x = if same || i < place {
            i
        } else {
            i + 1
        };
        assert(out[x] == entries[i]);
        lemma_lookup_gives_the_entry(entries, i);
        lemma_lookup_gives_the_entry(out, x);
    } else if environment::lookup_spec(out, k) is Some {
        let x = choose|x: int| 0 <= x < out.len() && (#[trigger] out[x]).key@ == k;
        let i = if same || x <= place {
            x
        } else {
            x - 1
        };
        assert(out[x] == entries[i]);
    }
}

/// The pairs with `key` and `value` among them, in the order of the keys; one with the same key gives
/// way.
pub open spec fn with_pair(
    s: Seq<(Seq<char>, Seq<char>)>,
    key: Seq<char>,
    value: Seq<char>,
) -> Seq<(Seq<char>, Seq<char>)>
    decreases s.len(),
{
    if s.len() == 0 {
        seq![(key, value)]
    } else if text::lex_before(s[0].0, key) {
        seq![s[0]] + with_pair(s.drop_first(), key, value)
    } else if s[0].0 == key {
        s.update(0, (key, value))
    } else {
        seq![(key, value)] + s
    }
}

proof fn lemma_with_pair(
    s: Seq<(Seq<char>, Seq<char>)>,
    key: Seq<char>,
    value: Seq<char>,
    place: int,
)
    requires
        0 <= place <= s.len(),
        forall|j: int| 0 <= j < place ==> text::lex_before((#[trigger] s[j]).0, key),
        place < s.len() ==> !text::lex_before(s[place].0, key),
    ensures
        with_pair(s, key, value) == (if place < s.len() && s[place].0 == key {
            s.update(place, (key, value))
        } else {
            s.insert(place, (key, value))
        }),
    decreases place,
{
    if place == 0 {
        assert(s.insert(0, (key, value)) =~= seq![(key, value)] + s);
    } else {
        let tail = s.drop_first();
        assert(text::lex_before(s[0].0, key));
        assert forall|j: int| 0 <= j < place - 1 implies text::lex_before(
            (#[trigger] tail[j]).0,
            key,
        ) by {
            assert(text::lex_before(s[j + 1].0, key));
        }
        lemma_with_pair(tail, key, value, place - 1);
        if place < s.len() && s[place].0 == key {
            assert(seq![s[0]] + tail.update(place - 1, (key, value)) =~= s.update(
                place,
                (key, value),
            ));
        } else {
            assert(seq![s[0]] + tail.insert(place - 1, (key, value)) =~= s.insert(
                place,
                (key, value),
            ));
        }
    }
}

/// Puts an entry among the others by its key, over the one that had it.
pub fn put_entry(entries: &mut Vec<Entry>, key: &str, value: &str)
    ensures
        environment::entry_views(final(entries)@) == with_pair(
            environment::entry_views(old(entries)@),
            key@,
            value@,
        ),
        is_table(old(entries)@) ==> {
            &&& is_table(final(entries)@)
            &&& forall|k: Seq<char>| #[trigger]
                environment::lookup_spec(final(entries)@, k) == (if k == key@ {
                    Some(value@)
                } else {
                    environment::lookup_spec(old(entries)@, k)
                })
        },
{
    let entry = Entry { key: key.to_owned(), value: value.to_owned() };
    let mut i: usize = 0;
    while i < entries.len() && text::text_before(entries[i].key.as_str(), key)
        invariant
            i <= entries@.len(),
            entries@ == old(entries)@,
            forall|j: int| 0 <= j < i ==> text::lex_before((#[trigger] entries@[j]).key@, key@),
        decreases entries.len() - i,
    {
        i = i + 1;
    }
    let ghost before = entries@;
    let ghost out = with_entry(before, entry, i as int);
    proof {
        let pairs = environment::entry_views(before);
        assert forall|j: int| 0 <= j < i implies text::lex_before((#[trigger] pairs[j]).0, key@) by {
            assert(text::lex_before(before[j].key@, key@));
        }
        lemma_with_pair(pairs, key@, value@, i as int);
        if is_table(before) {
            lemma_place(before, key@, i as int);
            lemma_with_entry(before, entry, i as int);
        }
    }
    if i < entries.len() && text::same(entries[i].key.as_str(), key) {
        entries.set(i, entry);
    } else {
        entries.insert(i, entry);
    }
    assert(entries@ =~= out);
    assert(environment::entry_views(out) =~= with_pair(
        environment::entry_views(before),
        key@,
        value@,
    ));
}

/// A table of `entries`, in which the last of several entries with one key counts. A table comes out
/// as it went in.
pub fn table_of(entries: Vec<Entry>) -> (r: Vec<Entry>)
    ensures
        is_table(r@),
        forall|k: Seq<char>| #[trigger]
            environment::lookup_spec(r@, k) == latest_spec(entries@, k),
        is_table(entries@) ==> environment::entry_views(r@) == environment::entry_views(entries@),
{
    let mut out: Vec<Entry> = Vec::new();
    let mut i: usize = 0;
    assert(entries@.take(0) =~= Seq::<Entry>::empty());
    while i < entries.len()
        invariant
            i <= entries@.len(),
            is_table(out@),
            forall|k: Seq<char>| #[trigger]
                environment::lookup_spec(out@, k) == latest_spec(entries@.take(i as int), k),
        decreases entries.len() - i,
    {
        let ghost before = out@;
        put_entry(&mut out, entries[i].key.as_str(), entries[i].value.as_str());
        let ghost seen = entries@.take(i + 1);
        assert(seen.drop_last() =~= entries@.take(i as int));
        assert forall|k: Seq<char>| #[trigger]
            environment::lookup_spec(out@, k) == latest_spec(seen, k) by {
            assert(environment::lookup_spec(before, k) == latest_spec(seen.drop_last(), k));
        }
        i = i + 1;
    }
    assert(entries@.take(i as int) =~= entries@);
    proof {
        if is_table(entries@) {
            assert forall|k: Seq<char>| #[trigger]
                environment::lookup_spec(out@, k) == environment::lookup_spec(entries@, k) by {
                lemma_latest_in_a_table(entries@, k);
            }
            lemma_tables_agree(out@, entries@);
        }
    }
    out
}

/// Whether pairs stand in the order of their keys, each key once.
pub open spec fn pairs_ascend(s: Seq<(Seq<char>, Seq<char>)>) -> bool {
    forall|i: int, j: int|
        0 <= i < j < s.len() ==> text::lex_before((#[trigger] s[i]).0, (#[trigger] s[j]).0)
}

proof fn lemma_pair_place(s: Seq<(Seq<char>, Seq<char>)>, key: Seq<char>, from: int) -> (i: int)
    requires
        0 <= from <= s.len(),
        forall|j: int| 0 <= j < from ==> text::lex_before((#[trigger] s[j]).0, key),
    ensures
        from <= i <= s.len(),
        forall|j: int| 0 <= j < i ==> text::lex_before((#[trigger] s[j]).0, key),
        i < s.len() ==> !text::lex_before(s[i].0, key),
    decreases s.len() - from,
{
    if from < s.len() && text::lex_before(s[from].0, key) {
        lemma_pair_place(s, key, from + 1)
    } else {
        from
    }
}

/// A pair that is put among others is there once, in place of any other with its key, with all the
/// others, and in the order of the keys.
pub proof fn lemma_pair_is_put(s: Seq<(Seq<char>, Seq<char>)>, key: Seq<char>, value: Seq<char>)
    requires
        pairs_ascend(s),
    ensures
        pairs_ascend(with_pair(s, key, value)),
        forall|p: (Seq<char>, Seq<char>)| #[trigger]
            with_pair(s, key, value).contains(p) <==> p == (key, value) || (s.contains(p) && p.0
                != key),
{
    let i = lemma_pair_place(s, key, 0);
    lemma_with_pair(s, key, value, i);
    text::lemma_lex_irreflexive(key);
    let t = with_pair(s, key, value);
    let found = i < s.len() && s[i].0 == key;
    if i < s.len() {
        text::lemma_lex_total(s[i].0, key);
    }
    assert(t[i] == (key, value));
    assert forall|x: int, y: int| 0 <= x < y < t.len() implies text::lex_before(
        (#[trigger] t[x]).0,
        (#[trigger] t[y]).0,
    ) by {
        if found {
        } else if x == i {
            if y - 1 > i {
                text::lemma_lex_transitive(key, s[i].0, s[y - 1].0);
            }
        } else if y == i {
        } else if x < i && y > i {
            assert(text::lex_before(s[x].0, s[y - 1].0));
        }
    }
    assert forall|p: (Seq<char>, Seq<char>)| #[trigger] t.contains(p) implies p == (key, value) || (
    s.contains(p) && p.0 != key) by {
        let k = choose|k: int| 0 <= k < t.len() && t[k] == p;
        if k != i {
            let m = if found || k < i {
                k
            } else {
                k - 1
            };
            assert(s[m] == p);
            assert(p.0 != key) by {
                if k < i {
                    assert(text::lex_before(t[k].0, t[i].0));
                } else {
                    assert(text::lex_before(t[i].0, t[k].0));
                }
            }
        }
    }
    assert forall|p: (Seq<char>, Seq<char>)| p == (key, value) || (s.contains(p) && p.0
        != key) implies #[trigger] t.contains(p) by {
        if p == (key, value) {
            assert(t[i] == p);
        } else {
            let m = choose|m: int| 0 <= m < s.len() && s[m] == p;
            let k = if found || m < i {
                m
            } else {
                m + 1
            };
            assert(t[k] == p);
        }
    }
}

/// Among entries with one key the last counts, whatever is before it.
pub proof fn lemma_the_last_entry_counts(entries: Seq<Entry>, entry: Entry, key: Seq<char>)
    ensures
        entry.key@ == key ==> latest_spec(entries.push(entry), key) == Some(entry.value@),
        entry.key@ != key ==> latest_spec(entries.push(entry), key) == latest_spec(entries, key),
        latest_spec(Seq::empty(), key) is None,
{
    assert(entries.push(entry).drop_last() =~= entries);
}

} // verus!

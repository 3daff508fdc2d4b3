//! Ordered collections keyed by text.
use crate::text::{comes_before, same, text_less, texts};
use vstd::prelude::*;

verus! {

// ---------------------------------------------------------------------------------------------
// The order of strings
// ---------------------------------------------------------------------------------------------
/// No string comes before itself.
pub proof fn lemma_text_less_irreflexive(a: Seq<char>)
    ensures
        !text_less(a, a),
    decreases a.len(),
{
    if a.len() > 0 {
        lemma_text_less_irreflexive(a.drop_first());
    }
}

/// The order of strings is transitive.
pub proof fn lemma_text_less_transitive(a: Seq<char>, b: Seq<char>, c: Seq<char>)
    requires
        text_less(a, b),
        text_less(b, c),
    ensures
        text_less(a, c),
    decreases a.len(),
{
    if a.len() > 0 && a[0] == b[0] && b[0] == c[0] {
        lemma_text_less_transitive(a.drop_first(), b.drop_first(), c.drop_first());
    }
}

/// Of two different strings one comes before the other.
pub proof fn lemma_text_less_total(a: Seq<char>, b: Seq<char>)
    ensures
        text_less(a, b) || text_less(b, a) || a == b,
    decreases a.len(),
{
    if a.len() == 0 || b.len() == 0 {
        if a.len() == 0 && b.len() == 0 {
            assert(a =~= b);
        }
    } else if a[0] == b[0] {
        lemma_text_less_total(a.drop_first(), b.drop_first());
        if a.drop_first() == b.drop_first() {
            assert(a =~= seq![a[0]] + a.drop_first());
            assert(b =~= seq![b[0]] + b.drop_first());
        }
    }
}

/// Whether every string of `s` comes before all that follow it. Nothing then occurs twice.
pub open spec fn is_sorted(s: Seq<Seq<char>>) -> bool {
    forall|i: int, j: int| 0 <= i < j < s.len() ==> #[trigger] text_less(s[i], s[j])
}

/// A sorted list holds nothing twice.
pub proof fn lemma_sorted_distinct(s: Seq<Seq<char>>)
    requires
        is_sorted(s),
    ensures
        s.no_duplicates(),
{
    assert forall|i: int, j: int| 0 <= i < s.len() && 0 <= j < s.len() && i != j implies s[i]
        != s[j] by {
        if i < j {
            assert(text_less(s[i], s[j]));
        } else {
            assert(text_less(s[j], s[i]));
        }
        lemma_text_less_irreflexive(s[i]);
    }
}

/// Two sorted lists with the same members are equal.
pub proof fn lemma_sorted_unique(a: Seq<Seq<char>>, b: Seq<Seq<char>>)
    requires
        is_sorted(a),
        is_sorted(b),
        a.to_set() == b.to_set(),
    ensures
        a == b,
    decreases a.len(),
{
    if a.len() == 0 {
        if b.len() > 0 {
            assert(b.to_set().contains(b[0]));
            assert(a.contains(b[0]));
        }
        assert(a =~= b);
    } else if b.len() == 0 {
        assert(a.to_set().contains(a[0]));
        assert(b.contains(a[0]));
    } else {
        assert(a.to_set().contains(a[0]) && b.to_set().contains(b[0]));
        assert(b.contains(a[0]) && a.contains(b[0]));
        let i = choose|i: int| 0 <= i < b.len() && b[i] == a[0];
        let j = choose|j: int| 0 <= j < a.len() && a[j] == b[0];
        if i > 0 && j > 0 {
            assert(text_less(b[0], b[i]));
            assert(text_less(a[0], a[j]));
            lemma_text_less_transitive(a[0], b[0], a[0]);
            lemma_text_less_irreflexive(a[0]);
        }
        assert(a[0] == b[0]);
        lemma_sorted_distinct(a);
        lemma_sorted_distinct(b);
        let ra = a.drop_first();
        let rb = b.drop_first();
        assert(is_sorted(ra)) by {
            assert forall|x: int, y: int| 0 <= x < y < ra.len() implies #[trigger] text_less(
                ra[x],
                ra[y],
            ) by {
                assert(text_less(a[x + 1], a[y + 1]));
            }
        }
        assert(is_sorted(rb)) by {
            assert forall|x: int, y: int| 0 <= x < y < rb.len() implies #[trigger] text_less(
                rb[x],
                rb[y],
            ) by {
                assert(text_less(b[x + 1], b[y + 1]));
            }
        }
        lemma_drop_first_to_set(a);
        lemma_drop_first_to_set(b);
        lemma_sorted_unique(ra, rb);
        assert(a =~= seq![a[0]] + ra);
        assert(b =~= seq![b[0]] + rb);
    }
}

/// Without its first element, a list that holds nothing twice holds everything but that.
proof fn lemma_drop_first_to_set(s: Seq<Seq<char>>)
    requires
        s.len() > 0,
        s.no_duplicates(),
    ensures
        s.drop_first().to_set() == s.to_set().remove(s[0]),
{
    let r = s.drop_first();
    assert forall|x: Seq<char>| r.to_set().contains(x) == s.to_set().remove(s[0]).contains(x) by {
        if r.contains(x) {
            let k = choose|k: int| 0 <= k < r.len() && r[k] == x;
            assert(s[k + 1] == x);
        }
        if s.contains(x) && x != s[0] {
            let k = choose|k: int| 0 <= k < s.len() && s[k] == x;
            assert(r[k - 1] == x);
        }
    }
    assert(r.to_set() =~= s.to_set().remove(s[0]));
}

/// The strings of a list in ascending order, each once.
pub open spec fn sorted_texts(list: Seq<Seq<char>>) -> Seq<Seq<char>> {
    choose|s: Seq<Seq<char>>| is_sorted(s) && #[trigger] s.to_set() == list.to_set()
}

/// A sorted list with the members of `list` is what [`sorted_texts`] gives.
pub proof fn lemma_sorted_texts(list: Seq<Seq<char>>, s: Seq<Seq<char>>)
    requires
        is_sorted(s),
        s.to_set() == list.to_set(),
    ensures
        sorted_texts(list) == s,
{
    let t = sorted_texts(list);
    lemma_sorted_unique(s, t);
}

/// Appending a string to a list adds it to the set of members.
pub proof fn lemma_push_to_set<A>(s: Seq<A>, x: A)
    ensures
        s.push(x).to_set() == s.to_set().insert(x),
{
    let t = s.push(x);
    assert forall|y: A| t.to_set().contains(y) == s.to_set().insert(x).contains(y) by {
        if s.contains(y) {
            let k = choose|k: int| 0 <= k < s.len() && s[k] == y;
            assert(t[k] == y);
        }
        if y == x {
            assert(t[s.len() as int] == y);
        }
    }
    assert(t.to_set() =~= s.to_set().insert(x));
}

/// Putting a string between the smaller and the larger ones keeps a list sorted.
proof fn lemma_insert_sorted(s: Seq<Seq<char>>, at: int, x: Seq<char>)
    requires
        is_sorted(s),
        0 <= at <= s.len(),
        forall|i: int| 0 <= i < at ==> #[trigger] text_less(s[i], x),
        forall|i: int| at <= i < s.len() ==> #[trigger] text_less(x, s[i]),
    ensures
        is_sorted(s.insert(at, x)),
{
    let t = s.insert(at, x);
    assert forall|i: int, j: int| 0 <= i < j < t.len() implies #[trigger] text_less(t[i], t[j]) by {
        let a = if i < at {
            i
        } else {
            i - 1
        };
        let b = if j < at {
            j
        } else {
            j - 1
        };
        if i == at {
            assert(t[j] == s[b]);
            assert(text_less(x, s[b]));
        } else if j == at {
            assert(t[i] == s[a]);
            assert(text_less(s[a], x));
        } else {
            assert(t[i] == s[a] && t[j] == s[b]);
            assert(text_less(s[a], s[b]));
        }
    }
}

// ---------------------------------------------------------------------------------------------
// Sets of strings
// ---------------------------------------------------------------------------------------------
/// A set of strings, kept in order.
#[derive(Debug, PartialEq, Eq)]
pub struct TextSet {
    items: Vec<String>,
}

impl View for TextSet {
    type V = Seq<Seq<char>>;

    closed spec fn view(&self) -> Seq<Seq<char>> {
        texts(self.items@)
    }
}

/// Copies a list of strings.
pub fn clone_texts(list: &Vec<String>) -> (copy: Vec<String>)
    ensures
        texts(copy@) == texts(list@),
        copy@.len() == list@.len(),
{
    let mut copy: Vec<String> = Vec::new();
    let mut i: usize = 0;
    while i < list.len()
        invariant
            i <= list@.len(),
            copy@.len() == i,
            texts(copy@) == texts(list@).take(i as int),
        decreases list.len() - i,
    {
        let item = list[i].clone();
        assert(texts(copy@.push(item)) =~= texts(copy@).push(item@));
        assert(texts(list@).take(i + 1) =~= texts(list@).take(i as int).push(item@));
        copy.push(item);
        i += 1;
    }
    assert(texts(list@).take(i as int) =~= texts(list@));
    copy
}

impl Clone for TextSet {
    fn clone(&self) -> (copy: Self)
        ensures
            copy@ == self@,
    {
        proof {
            use_type_invariant(self);
        }
        TextSet { items: clone_texts(&self.items) }
    }
}

impl TextSet {
    #[verifier::type_invariant]
    spec fn inv(self) -> bool {
        is_sorted(texts(self.items@))
    }

    /// The empty set.
    pub fn new() -> (set: Self)
        ensures
            set@ == Seq::<Seq<char>>::empty(),
    {
        let items: Vec<String> = Vec::new();
        assert(texts(items@) =~= Seq::<Seq<char>>::empty());
        TextSet { items }
    }

    /// The number of members.
    pub fn len(&self) -> (length: usize)
        ensures
            length == self@.len(),
            is_sorted(self@),
    {
        proof {
            use_type_invariant(self);
        }
        self.items.len()
    }

    /// Whether the set has no member.
    pub fn is_empty(&self) -> (result: bool)
        ensures
            result == (self@.len() == 0),
    {
        self.items.len() == 0
    }

    /// The member at `index` in ascending order.
    pub fn get(&self, index: usize) -> (text: &str)
        requires
            index < self@.len(),
        ensures
            text@ == self@[index as int],
    {
        self.items[index].as_str()
    }

    /// Whether `text` is a member.
    pub fn contains(&self, text: &str) -> (result: bool)
        ensures
            result == self@.contains(text@),
    {
        let mut i: usize = 0;
        while i < self.items.len()
            invariant
                i <= self.items@.len(),
                forall|j: int| 0 <= j < i ==> #[trigger] self@[j] != text@,
            decreases self.items.len() - i,
        {
            if same(self.items[i].as_str(), text) {
                assert(self@[i as int] == text@);
                return true;
            }
            i += 1;
        }
        false
    }

    /// Adds a member.
    pub fn insert(&mut self, text: &str)
        ensures
            is_sorted(final(self)@),
            final(self)@.to_set() == old(self)@.to_set().insert(text@),
    {
        proof {
            use_type_invariant(&*self);
        }
        let ghost before = texts(self.items@);
        let mut at: usize = 0;
        while at < self.items.len() && comes_before(self.items[at].as_str(), text)
            invariant
                at <= self.items@.len(),
                before == texts(self.items@),
                forall|j: int| 0 <= j < at ==> #[trigger] text_less(before[j], text@),
            decreases self.items.len() - at,
        {
            assert(before[at as int] == self.items@[at as int]@);
            at += 1;
        }
        if at < self.items.len() && same(self.items[at].as_str(), text) {
            proof {
                assert(before[at as int] == text@);
                assert(before.contains(text@));
                assert(before.to_set().insert(text@) =~= before.to_set());
            }
            return;
        }
        proof {
            assert forall|i: int| at <= i < before.len() implies #[trigger] text_less(
                text@,
                before[i],
            ) by {
                lemma_text_less_total(text@, before[at as int]);
                if i > at {
                    assert(text_less(before[at as int], before[i]));
                    lemma_text_less_transitive(text@, before[at as int], before[i]);
                }
            }
            lemma_insert_sorted(before, at as int, text@);
        }
        let mut items: Vec<String> = clone_texts(&self.items);
        items.insert(at, text.to_owned());
        proof {
            assert(texts(items@) =~= before.insert(at as int, text@));
            let after = before.insert(at as int, text@);
            assert forall|x: Seq<char>| after.to_set().contains(x) == before.to_set().insert(
                text@,
            ).contains(x) by {
                if before.contains(x) {
                    let k = choose|k: int| 0 <= k < before.len() && before[k] == x;
                    if k < at {
                        assert(after[k] == x);
                    } else {
                        assert(after[k + 1] == x);
                    }
                }
                if x == text@ {
                    assert(after[at as int] == x);
                }
                if after.contains(x) {
                    let k = choose|k: int| 0 <= k < after.len() && after[k] == x;
                    if k < at {
                        assert(before[k] == x);
                    } else if k > at {
                        assert(before[k - 1] == x);
                    }
                }
            }
            assert(after.to_set() =~= before.to_set().insert(text@));
        }
        *self = TextSet { items };
    }

    /// The set of the members of a list.
    pub fn from_list(list: &Vec<String>) -> (set: Self)
        ensures
            is_sorted(set@),
            set@.to_set() == texts(list@).to_set(),
    {
        let mut set = TextSet::new();
        let mut i: usize = 0;
        assert(set@.to_set() =~= texts(list@).take(0).to_set());
        while i < list.len()
            invariant
                i <= list@.len(),
                is_sorted(set@),
                set@.to_set() == texts(list@).take(i as int).to_set(),
            decreases list.len() - i,
        {
            proof {
                let t = texts(list@);
                assert(t.take(i + 1) =~= t.take(i as int).push(list@[i as int]@));
                lemma_push_to_set(t.take(i as int), list@[i as int]@);
            }
            set.insert(list[i].as_str());
            i += 1;
        }
        assert(texts(list@).take(i as int) =~= texts(list@));
        set
    }
}

// ---------------------------------------------------------------------------------------------
// Maps from strings to strings
// ---------------------------------------------------------------------------------------------
/// The contents of a list of pairs of strings.
pub open spec fn pairs(list: Seq<(String, String)>) -> Seq<(Seq<char>, Seq<char>)> {
    list.map_values(|p: (String, String)| (p.0@, p.1@))
}

/// The keys of a list of pairs.
pub open spec fn keys(entries: Seq<(Seq<char>, Seq<char>)>) -> Seq<Seq<char>> {
    entries.map_values(|p: (Seq<char>, Seq<char>)| p.0)
}

/// The mapping that a list of pairs with different keys stands for.
pub open spec fn mapping(entries: Seq<(Seq<char>, Seq<char>)>) -> Map<Seq<char>, Seq<char>>
    decreases entries.len(),
{
    if entries.len() == 0 {
        Map::empty()
    } else {
        mapping(entries.drop_last()).insert(entries.last().0, entries.last().1)
    }
}

/// The mapping of a list of pairs is defined on its keys, and with keys that differ it gives each
/// key the value it is listed with.
pub proof fn lemma_mapping(entries: Seq<(Seq<char>, Seq<char>)>)
    ensures
        forall|k: Seq<char>| #[trigger]
            mapping(entries).dom().contains(k) <==> keys(entries).contains(k),
        keys(entries).no_duplicates() ==> forall|i: int|
            0 <= i < entries.len() ==> mapping(entries)[(#[trigger] entries[i]).0] == entries[i].1,
    decreases entries.len(),
{
    if entries.len() > 0 {
        let rest = entries.drop_last();
        lemma_mapping(rest);
        assert(keys(rest) =~= keys(entries).drop_last());
        assert forall|k: Seq<char>| #[trigger]
            mapping(entries).dom().contains(k) <==> keys(entries).contains(k) by {
            if keys(rest).contains(k) {
                let i = choose|i: int| 0 <= i < rest.len() && keys(rest)[i] == k;
                assert(keys(entries)[i] == k);
            }
            if k == entries.last().0 {
                assert(keys(entries)[entries.len() - 1] == k);
            }
            if keys(entries).contains(k) {
                let i = choose|i: int| 0 <= i < entries.len() && keys(entries)[i] == k;
                if i < rest.len() {
                    assert(keys(rest)[i] == k);
                    assert(mapping(rest).dom().contains(k));
                } else {
                    assert(i == entries.len() - 1);
                    assert(entries.last().0 == k);
                }
                assert(mapping(entries).dom().contains(k));
            }
            if mapping(entries).dom().contains(k) && k != entries.last().0 {
                assert(mapping(rest).dom().contains(k));
                assert(keys(rest).contains(k));
            }
        }
        if keys(entries).no_duplicates() {
            assert(keys(rest).no_duplicates());
            assert forall|i: int| 0 <= i < entries.len() implies mapping(entries)[(
            #[trigger] entries[i]).0] == entries[i].1 by {
                assert(keys(entries)[i] == entries[i].0);
                assert(keys(entries)[entries.len() - 1] == entries.last().0);
                if i < rest.len() {
                    assert(rest[i] == entries[i]);
                }
            }
        }
    }
}

/// The number of leading entries whose keys come before `key`.
pub open spec fn entry_position(entries: Seq<(Seq<char>, Seq<char>)>, key: Seq<char>) -> int
    decreases entries.len(),
{
    if entries.len() == 0 {
        0
    } else if text_less(entries[0].0, key) {
        1 + entry_position(entries.drop_first(), key)
    } else {
        0
    }
}

/// Entries in ascending order with one more at its place.
pub open spec fn insert_entry(
    entries: Seq<(Seq<char>, Seq<char>)>,
    key: Seq<char>,
    value: Seq<char>,
) -> Seq<(Seq<char>, Seq<char>)> {
    entries.insert(entry_position(entries, key), (key, value))
}

proof fn lemma_entry_position(entries: Seq<(Seq<char>, Seq<char>)>, key: Seq<char>, at: int)
    requires
        0 <= at <= entries.len(),
        forall|j: int| 0 <= j < at ==> text_less((#[trigger] entries[j]).0, key),
        at < entries.len() ==> !text_less(entries[at].0, key),
    ensures
        entry_position(entries, key) == at,
    decreases entries.len(),
{
    if at > 0 {
        assert(text_less(entries[0].0, key));
        let rest = entries.drop_first();
        assert forall|j: int| 0 <= j < at - 1 implies text_less((#[trigger] rest[j]).0, key) by {
            assert(rest[j] == entries[j + 1]);
        }
        lemma_entry_position(rest, key, at - 1);
    }
}

pub proof fn lemma_entry_position_bounds(entries: Seq<(Seq<char>, Seq<char>)>, key: Seq<char>)
    ensures
        ({
            let at = entry_position(entries, key);
            &&& 0 <= at <= entries.len()
            &&& forall|j: int| 0 <= j < at ==> text_less((#[trigger] entries[j]).0, key)
            &&& at < entries.len() ==> !text_less(entries[at].0, key)
        }),
    decreases entries.len(),
{
    if entries.len() > 0 && text_less(entries[0].0, key) {
        let rest = entries.drop_first();
        lemma_entry_position_bounds(rest, key);
        let at = entry_position(entries, key);
        assert forall|j: int| 0 <= j < at implies text_less((#[trigger] entries[j]).0, key) by {
            if j > 0 {
                assert(rest[j - 1] == entries[j]);
            }
        }
    }
}

/// A new entry at its place keeps the keys in order, and the mapping gains it.
pub proof fn lemma_insert_entry(
    before: Seq<(Seq<char>, Seq<char>)>,
    key: Seq<char>,
    value: Seq<char>,
)
    requires
        is_sorted(keys(before)),
        !keys(before).contains(key),
    ensures
        is_sorted(keys(insert_entry(before, key, value))),
        mapping(insert_entry(before, key, value)) == mapping(before).insert(key, value),
{
    let at = entry_position(before, key);
    let after = insert_entry(before, key, value);
    lemma_entry_position_bounds(before, key);
    lemma_mapping(before);
    if at < before.len() {
        assert(keys(before)[at] == before[at].0);
        assert(keys(before).contains(keys(before)[at]));
        lemma_text_less_total(key, keys(before)[at]);
    }
    assert forall|i: int| 0 <= i < at implies #[trigger] text_less(keys(before)[i], key) by {
        assert(keys(before)[i] == before[i].0);
    }
    assert forall|i: int| at <= i < before.len() implies #[trigger] text_less(
        key,
        keys(before)[i],
    ) by {
        if i > at {
            assert(text_less(keys(before)[at], keys(before)[i]));
            lemma_text_less_transitive(key, keys(before)[at], keys(before)[i]);
        }
    }
    lemma_insert_sorted(keys(before), at, key);
    assert(keys(after) =~= keys(before).insert(at, key));
    lemma_mapping(after);
    lemma_sorted_distinct(keys(after));
    lemma_sorted_distinct(keys(before));
    assert forall|k: Seq<char>| mapping(after).dom().contains(k) == mapping(before).insert(
        key,
        value,
    ).dom().contains(k) by {
        if keys(before).contains(k) {
            let i = choose|i: int| 0 <= i < before.len() && keys(before)[i] == k;
            if i < at {
                assert(keys(after)[i] == k);
            } else {
                assert(keys(after)[i + 1] == k);
            }
        }
        if k == key {
            assert(keys(after)[at] == k);
        }
        if keys(after).contains(k) {
            let i = choose|i: int| 0 <= i < after.len() && keys(after)[i] == k;
            if i < at {
                assert(keys(before)[i] == k);
            } else if i > at {
                assert(keys(before)[i - 1] == k);
            }
        }
    }
    assert forall|k: Seq<char>| mapping(after).dom().contains(k) implies mapping(after)[k]
        == mapping(before).insert(key, value)[k] by {
        let i = choose|i: int| 0 <= i < after.len() && keys(after)[i] == k;
        assert(after[i].0 == k);
        assert(mapping(after)[k] == after[i].1);
        if i < at {
            assert(before[i] == after[i]);
            assert(keys(after)[at] == key);
        } else if i > at {
            assert(before[i - 1] == after[i]);
            assert(keys(after)[at] == key);
        }
    }
    assert(mapping(after) =~= mapping(before).insert(key, value));
}

/// A map from strings to strings, kept in the order of its keys.
#[derive(Debug, PartialEq, Eq)]
pub struct TextMap {
    entries: Vec<(String, String)>,
}

impl View for TextMap {
    type V = Seq<(Seq<char>, Seq<char>)>;

    closed spec fn view(&self) -> Seq<(Seq<char>, Seq<char>)> {
        pairs(self.entries@)
    }
}

/// Copies a list of pairs of strings.
pub fn clone_pairs(list: &Vec<(String, String)>) -> (copy: Vec<(String, String)>)
    ensures
        pairs(copy@) == pairs(list@),
        copy@.len() == list@.len(),
{
    let mut copy: Vec<(String, String)> = Vec::new();
    let mut i: usize = 0;
    while i < list.len()
        invariant
            i <= list@.len(),
            copy@.len() == i,
            pairs(copy@) == pairs(list@).take(i as int),
        decreases list.len() - i,
    {
        let item = (list[i].0.clone(), list[i].1.clone());
        assert(pairs(copy@.push(item)) =~= pairs(copy@).push((item.0@, item.1@)));
        assert(pairs(list@).take(i + 1) =~= pairs(list@).take(i as int).push((item.0@, item.1@)));
        copy.push(item);
        i += 1;
    }
    assert(pairs(list@).take(i as int) =~= pairs(list@));
    copy
}

impl Clone for TextMap {
    fn clone(&self) -> (copy: Self)
        ensures
            copy@ == self@,
    {
        proof {
            use_type_invariant(self);
        }
        TextMap { entries: clone_pairs(&self.entries) }
    }
}

impl TextMap {
    #[verifier::type_invariant]
    spec fn inv(self) -> bool {
        is_sorted(keys(pairs(self.entries@)))
    }

    /// The empty map.
    pub fn new() -> (map: Self)
        ensures
            map@ == Seq::<(Seq<char>, Seq<char>)>::empty(),
    {
        let entries: Vec<(String, String)> = Vec::new();
        assert(pairs(entries@) =~= Seq::<(Seq<char>, Seq<char>)>::empty());
        TextMap { entries }
    }

    /// The number of entries.
    pub fn len(&self) -> (length: usize)
        ensures
            length == self@.len(),
            is_sorted(keys(self@)),
    {
        proof {
            use_type_invariant(self);
        }
        self.entries.len()
    }

    /// Whether the map has no entry.
    pub fn is_empty(&self) -> (result: bool)
        ensures
            result == (self@.len() == 0),
    {
        self.entries.len() == 0
    }

    /// The key of the entry at `index` in ascending order.
    pub fn key_at(&self, index: usize) -> (key: &str)
        requires
            index < self@.len(),
        ensures
            key@ == self@[index as int].0,
    {
        self.entries[index].0.as_str()
    }

    /// The value of the entry at `index` in ascending order of keys.
    pub fn value_at(&self, index: usize) -> (value: &str)
        requires
            index < self@.len(),
        ensures
            value@ == self@[index as int].1,
    {
        self.entries[index].1.as_str()
    }

    /// The value stored for `key`.
    pub fn get(&self, key: &str) -> (result: Option<&str>)
        ensures
            result is Some <==> mapping(self@).dom().contains(key@),
            result is Some ==> result->0@ == mapping(self@)[key@],
    {
        proof {
            use_type_invariant(self);
            lemma_mapping(self@);
            lemma_sorted_distinct(keys(self@));
        }
        let mut i: usize = 0;
        while i < self.entries.len()
            invariant
                i <= self.entries@.len(),
                forall|j: int| 0 <= j < i ==> #[trigger] keys(self@)[j] != key@,
                forall|k: Seq<char>| #[trigger]
                    mapping(self@).dom().contains(k) <==> keys(self@).contains(k),
                forall|j: int|
                    0 <= j < self@.len() ==> mapping(self@)[(#[trigger] self@[j]).0] == self@[j].1,
            decreases self.entries.len() - i,
        {
            assert(self@[i as int] == (self.entries@[i as int].0@, self.entries@[i as int].1@));
            assert(keys(self@)[i as int] == self.entries@[i as int].0@);
            if same(self.entries[i].0.as_str(), key) {
                assert(keys(self@).contains(key@));
                return Some(self.entries[i].1.as_str());
            }
            i += 1;
        }
        None
    }

    /// Whether there is an entry for `key`.
    pub fn contains_key(&self, key: &str) -> (result: bool)
        ensures
            result == mapping(self@).dom().contains(key@),
    {
        self.get(key).is_some()
    }

    /// Stores `value` for a key that has no entry yet.
    pub fn insert_new(&mut self, key: &str, value: &str)
        requires
            !mapping(old(self)@).dom().contains(key@),
        ensures
            is_sorted(keys(final(self)@)),
            mapping(final(self)@) == mapping(old(self)@).insert(key@, value@),
            final(self)@ == insert_entry(old(self)@, key@, value@),
    {
        proof {
            use_type_invariant(&*self);
        }
        let ghost before = pairs(self.entries@);
        let mut at: usize = 0;
        while at < self.entries.len() && comes_before(self.entries[at].0.as_str(), key)
            invariant
                at <= self.entries@.len(),
                before == pairs(self.entries@),
                forall|j: int| 0 <= j < at ==> #[trigger] text_less(keys(before)[j], key@),
            decreases self.entries.len() - at,
        {
            assert(keys(before)[at as int] == self.entries@[at as int].0@);
            at += 1;
        }
        proof {
            lemma_mapping(before);
            if at < before.len() {
                assert(keys(before)[at as int] == before[at as int].0);
            }
            assert forall|j: int| 0 <= j < at implies text_less((#[trigger] before[j]).0, key@) by {
                assert(text_less(keys(before)[j], key@));
            }
            lemma_entry_position(before, key@, at as int);
            lemma_insert_entry(before, key@, value@);
        }
        let mut entries: Vec<(String, String)> = clone_pairs(&self.entries);
        entries.insert(at, (key.to_owned(), value.to_owned()));
        assert(pairs(entries@) =~= insert_entry(before, key@, value@));
        *self = TextMap { entries };
    }

    /// Stores `value` for `key`, in place of what was stored before.
    pub fn insert(&mut self, key: &str, value: &str)
        ensures
            is_sorted(keys(final(self)@)),
            mapping(final(self)@) == mapping(old(self)@).insert(key@, value@),
    {
        if !self.contains_key(key) {
            self.insert_new(key, value);
            return;
        }
        proof {
            use_type_invariant(&*self);
            lemma_mapping(self@);
        }
        let ghost before = pairs(self.entries@);
        let mut at: usize = 0;
        while at < self.entries.len() && !same(self.entries[at].0.as_str(), key)
            invariant
                at <= self.entries@.len(),
                before == pairs(self.entries@),
                forall|j: int| 0 <= j < at ==> #[trigger] keys(before)[j] != key@,
            decreases self.entries.len() - at,
        {
            assert(keys(before)[at as int] == self.entries@[at as int].0@);
            at += 1;
        }
        proof {
            if at == self.entries@.len() {
                assert(keys(before).contains(key@));
            }
        }
        let mut entries: Vec<(String, String)> = clone_pairs(&self.entries);
        entries.set(at, (key.to_owned(), value.to_owned()));
        proof {
            let after = before.update(at as int, (key@, value@));
            assert(pairs(entries@) =~= after);
            assert(keys(before)[at as int] == key@);
            assert(keys(after) =~= keys(before));
            lemma_mapping(before);
            lemma_mapping(after);
            lemma_sorted_distinct(keys(before));
            assert forall|k: Seq<char>| mapping(after).dom().contains(k) implies mapping(after)[k]
                == mapping(before).insert(key@, value@)[k] by {
                let i = choose|i: int| 0 <= i < after.len() && keys(after)[i] == k;
                assert(after[i].0 == k);
                assert(mapping(after)[k] == after[i].1);
                if i != at {
                    assert(before[i] == after[i]);
                }
            }
            assert(mapping(before).dom().contains(key@)) by {
                assert(keys(before).contains(key@));
            }
            assert(mapping(after).dom() =~= mapping(before).insert(key@, value@).dom());
            assert(mapping(after) =~= mapping(before).insert(key@, value@));
        }
        *self = TextMap { entries };
    }
}

} // verus!

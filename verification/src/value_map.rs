//! A map from text to text that keeps its entries in the order of their keys.
use vstd::prelude::*;
use vstd::utf8::*;

verus! {

/// A key with its value.
pub type Pair = (Seq<char>, Seq<char>);

/// Lexicographic order of byte strings.
pub open spec fn bytes_before(a: Seq<u8>, b: Seq<u8>) -> bool
    decreases a.len(),
{
    if b.len() == 0 {
        false
    } else if a.len() == 0 {
        true
    } else if a[0] != b[0] {
        a[0] < b[0]
    } else {
        bytes_before(a.drop_first(), b.drop_first())
    }
}

/// The order of keys: that of their UTF-8 bytes.
pub open spec fn key_before(a: Seq<char>, b: Seq<char>) -> bool {
    bytes_before(encode_utf8(a), encode_utf8(b))
}

/// Whether the keys of `pairs` strictly ascend, so that none occurs twice.
pub open spec fn ascending(pairs: Seq<Pair>) -> bool {
    forall|i: int, j: int|
        0 <= i < j < pairs.len() ==> key_before(#[trigger] pairs[i].0, #[trigger] pairs[j].0)
}

/// Whether `key` is the key of one of `pairs`.
pub open spec fn has_key(pairs: Seq<Pair>, key: Seq<char>) -> bool {
    exists|i: int| 0 <= i < pairs.len() && #[trigger] pairs[i].0 == key
}

/// The map that `pairs` describes.
pub open spec fn contents(pairs: Seq<Pair>) -> Map<Seq<char>, Seq<char>> {
    Map::new(
        |key: Seq<char>| has_key(pairs, key),
        |key: Seq<char>| pairs[choose|i: int| 0 <= i < pairs.len() && #[trigger] pairs[i].0 == key].1,
    )
}

/// The entries of a map in the order of their keys.
pub open spec fn entries_of(values: Map<Seq<char>, Seq<char>>) -> Seq<Pair> {
    choose|pairs: Seq<Pair>| ascending(pairs) && #[trigger] contents(pairs) == values
}

/// The pairs of text that a vector of strings holds.
pub open spec fn pairs_of(entries: Seq<(String, String)>) -> Seq<Pair> {
    entries.map_values(|entry: (String, String)| (entry.0@, entry.1@))
}

proof fn bytes_before_is_strict(a: Seq<u8>, b: Seq<u8>)
    ensures
        !(bytes_before(a, b) && bytes_before(b, a)),
        !bytes_before(a, a),
    decreases a.len(),
{
    if a.len() > 0 && b.len() > 0 {
        bytes_before_is_strict(a.drop_first(), b.drop_first());
    } else if a.len() > 0 {
        bytes_before_is_strict(a.drop_first(), b);
    }
}

proof fn bytes_before_chains(a: Seq<u8>, b: Seq<u8>, c: Seq<u8>)
    requires
        bytes_before(a, b),
        bytes_before(b, c),
    ensures
        bytes_before(a, c),
    decreases a.len(),
{
    if a.len() > 0 && a[0] == b[0] && b[0] == c[0] {
        bytes_before_chains(a.drop_first(), b.drop_first(), c.drop_first());
    }
}

/// The order of keys is a strict total order: of two different keys exactly one comes
/// before the other, no key comes before itself, and the order is transitive.
pub proof fn key_order_is_total(a: Seq<char>, b: Seq<char>, c: Seq<char>)
    ensures
        !key_before(a, a),
        a != b ==> (key_before(a, b) <==> !key_before(b, a)),
        key_before(a, b) && key_before(b, c) ==> key_before(a, c),
{
    let (x, y, z) = (encode_utf8(a), encode_utf8(b), encode_utf8(c));
    bytes_before_is_strict(x, y);
    if key_before(a, b) && key_before(b, c) {
        bytes_before_chains(x, y, z);
    }
    if a != b && !key_before(a, b) && !key_before(b, a) {
        bytes_before_is_connected(x, y);
        encode_utf8_decode_utf8(a);
        encode_utf8_decode_utf8(b);
    }
}

proof fn bytes_before_is_connected(a: Seq<u8>, b: Seq<u8>)
    requires
        !bytes_before(a, b),
        !bytes_before(b, a),
    ensures
        a == b,
    decreases a.len(),
{
    if a.len() > 0 && b.len() > 0 {
        bytes_before_is_connected(a.drop_first(), b.drop_first());
        assert(a =~= seq![a[0]] + a.drop_first());
        assert(b =~= seq![b[0]] + b.drop_first());
    } else {
        assert(a =~= b);
    }
}

/// In ascending pairs, the map has at the key of each pair the value of that pair.
proof fn contents_at(pairs: Seq<Pair>, i: int)
    requires
        ascending(pairs),
        0 <= i < pairs.len(),
    ensures
        contents(pairs).contains_key(pairs[i].0),
        contents(pairs)[pairs[i].0] == pairs[i].1,
{
    let key = pairs[i].0;
    let k = choose|k: int| 0 <= k < pairs.len() && #[trigger] pairs[k].0 == key;
    assert(has_key(pairs, key));
    key_order_is_total(key, key, key);
    if k < i {
        assert(key_before(pairs[k].0, pairs[i].0));
    } else if i < k {
        assert(key_before(pairs[i].0, pairs[k].0));
    }
}

proof fn equal_contents_agree_at(a: Seq<Pair>, b: Seq<Pair>, i: int)
    requires
        ascending(a),
        ascending(b),
        contents(a) == contents(b),
        0 <= i < a.len(),
    ensures
        i < b.len(),
        a[i] == b[i],
    decreases i,
{
    assert forall|j: int| 0 <= j < i implies j < b.len() && #[trigger] a[j] == b[j] by {
        equal_contents_agree_at(a, b, j);
    }
    let key = a[i].0;
    contents_at(a, i);
    assert(contents(b).contains_key(key));
    let p = choose|p: int| 0 <= p < b.len() && #[trigger] b[p].0 == key;
    key_order_is_total(key, key, key);
    if p < i {
        assert(a[p] == b[p]);
        assert(key_before(a[p].0, a[i].0));
    }
    if i < p {
        let other = b[i].0;
        assert(key_before(other, b[p].0));
        contents_at(b, i);
        assert(contents(a).contains_key(other));
        let q = choose|q: int| 0 <= q < a.len() && #[trigger] a[q].0 == other;
        key_order_is_total(other, key, other);
        if q < i {
            assert(a[q] == b[q]);
            assert(key_before(b[q].0, b[i].0));
        } else if i < q {
            assert(key_before(a[i].0, a[q].0));
        }
    }
    contents_at(b, i);
}

/// Ascending pairs are the one way to write a map down: two of them that describe the
/// same map are the same.
pub proof fn ascending_pairs_are_canonical(a: Seq<Pair>, b: Seq<Pair>)
    requires
        ascending(a),
        ascending(b),
        contents(a) == contents(b),
    ensures
        a == b,
{
    assert forall|i: int| 0 <= i < a.len() implies i < b.len() && #[trigger] a[i] == b[i] by {
        equal_contents_agree_at(a, b, i);
    }
    if a.len() < b.len() {
        equal_contents_agree_at(b, a, a.len() as int);
    } else if b.len() < a.len() {
        equal_contents_agree_at(a, b, b.len() as int);
    }
    assert(a =~= b);
}

/// Ascending pairs are the entries of the map that they describe.
pub proof fn entries_of_contents(pairs: Seq<Pair>)
    requires
        ascending(pairs),
    ensures
        entries_of(contents(pairs)) == pairs,
{
    ascending_pairs_are_canonical(entries_of(contents(pairs)), pairs);
}

/// Pairs describe a finite map.
pub proof fn contents_are_finite(pairs: Seq<Pair>)
    ensures
        contents(pairs).dom().finite(),
{
    let keys = pairs.map_values(|pair: Pair| pair.0);
    vstd::seq_lib::seq_to_set_is_finite(keys);
    assert forall|key: Seq<char>| contents(pairs).dom().contains(key) == keys.to_set().contains(
        key,
    ) by {
        if has_key(pairs, key) {
            let i = choose|i: int| 0 <= i < pairs.len() && #[trigger] pairs[i].0 == key;
            assert(keys[i] == key);
        }
        if keys.to_set().contains(key) {
            let i = choose|i: int| 0 <= i < keys.len() && keys[i] == key;
            assert(pairs[i].0 == key);
        }
    }
    assert(contents(pairs).dom() =~= keys.to_set());
}

/// How many of the first `n` pairs come before `key`, where those that do stand in front.
spec fn place_of(pairs: Seq<Pair>, key: Seq<char>, n: nat) -> nat
    decreases n,
{
    if n == 0 || key_before(pairs[n - 1].0, key) {
        n
    } else {
        place_of(pairs, key, (n - 1) as nat)
    }
}

proof fn place_splits(pairs: Seq<Pair>, key: Seq<char>, n: nat)
    requires
        ascending(pairs),
        n <= pairs.len(),
    ensures
        place_of(pairs, key, n) <= n,
        forall|i: int|
            0 <= i < place_of(pairs, key, n) ==> key_before(#[trigger] pairs[i].0, key),
        forall|i: int|
            place_of(pairs, key, n) <= i < n ==> !key_before(#[trigger] pairs[i].0, key),
    decreases n,
{
    if n == 0 {
    } else if key_before(pairs[n - 1].0, key) {
        assert forall|i: int| 0 <= i < n implies key_before(#[trigger] pairs[i].0, key) by {
            if i < n - 1 {
                assert(key_before(pairs[i].0, pairs[n - 1].0));
                key_order_is_total(pairs[i].0, pairs[n - 1].0, key);
            }
        }
    } else {
        place_splits(pairs, key, (n - 1) as nat);
    }
}

/// Every finite map has entries in the order of their keys.
pub proof fn finite_map_has_entries(values: Map<Seq<char>, Seq<char>>)
    requires
        values.dom().finite(),
    ensures
        ascending(entries_of(values)),
        contents(entries_of(values)) == values,
    decreases values.dom().len(),
{
    if values.dom().len() == 0 {
        let none = Seq::<Pair>::empty();
        assert(ascending(none));
        assert(values.dom() =~= Set::empty());
        assert(contents(none) =~= values);
    } else {
        let key = values.dom().choose();
        let rest = values.remove(key);
        assert(rest.dom() =~= values.dom().remove(key));
        finite_map_has_entries(rest);
        let before = entries_of(rest);
        let at = place_of(before, key, before.len()) as int;
        place_splits(before, key, before.len());
        let pair = (key, values[key]);
        assert forall|i: int| at <= i < before.len() implies key_before(
            key,
            #[trigger] before[i].0,
        ) by {
            contents_at(before, i);
            assert(rest.contains_key(before[i].0));
            key_order_is_total(key, before[i].0, key);
        }
        inserted_pair(before, at, pair);
        let after = before.insert(at, pair);
        assert(contents(after) =~= values);
    }
}

/// One key comes before another where, after the bytes that both begin with, it ends or has
/// the smaller byte.
pub proof fn key_order_is_lexicographic(a: Seq<char>, b: Seq<char>)
    ensures
        key_before(a, b) <==> exists|k: int|
            0 <= k <= encode_utf8(a).len() && k < encode_utf8(b).len() && #[trigger] encode_utf8(
                a,
            ).take(k) == encode_utf8(b).take(k) && (k == encode_utf8(a).len() || encode_utf8(a)[k]
                < encode_utf8(b)[k]),
{
    bytes_before_at(encode_utf8(a), encode_utf8(b));
}

proof fn bytes_before_at(a: Seq<u8>, b: Seq<u8>)
    ensures
        bytes_before(a, b) <==> exists|k: int|
            0 <= k <= a.len() && k < b.len() && #[trigger] a.take(k) == b.take(k) && (k == a.len()
                || a[k] < b[k]),
    decreases a.len(),
{
    if b.len() > 0 {
        assert(a.take(0) =~= b.take(0));
    }
    if a.len() > 0 && b.len() > 0 {
        let (x, y) = (a.drop_first(), b.drop_first());
        bytes_before_at(x, y);
        if a[0] == b[0] && bytes_before(x, y) {
            let k = choose|k: int|
                0 <= k <= x.len() && k < y.len() && #[trigger] x.take(k) == y.take(k) && (k
                    == x.len() || x[k] < y[k]);
            assert forall|i: int| 0 <= i < k + 1 implies a[i] == b[i] by {
                if i > 0 {
                    assert(x.take(k)[i - 1] == y.take(k)[i - 1]);
                }
            }
            assert(a.take(k + 1) =~= b.take(k + 1));
        }
        if exists|k: int|
            0 <= k <= a.len() && k < b.len() && #[trigger] a.take(k) == b.take(k) && (k == a.len()
                || a[k] < b[k]) {
            let k = choose|k: int|
                0 <= k <= a.len() && k < b.len() && #[trigger] a.take(k) == b.take(k) && (k
                    == a.len() || a[k] < b[k]);
            if k > 0 {
                assert(a.take(k)[0] == b.take(k)[0]);
                assert forall|i: int| 0 <= i < k - 1 implies x[i] == y[i] by {
                    assert(a.take(k)[i + 1] == b.take(k)[i + 1]);
                }
                assert(x.take(k - 1) =~= y.take(k - 1));
            }
        }
    }
}

/// The entries of a finite map are all that it holds and nothing else, each once, in the
/// order of their keys.
pub proof fn entries_are_all_of_the_map(values: Map<Seq<char>, Seq<char>>)
    requires
        values.dom().finite(),
    ensures
        forall|i: int|
            0 <= i < entries_of(values).len() ==> values.contains_key(
                #[trigger] entries_of(values)[i].0,
            ) && values[entries_of(values)[i].0] == entries_of(values)[i].1,
        forall|key: Seq<char>|
            #[trigger] values.contains_key(key) ==> exists|i: int|
                0 <= i < entries_of(values).len() && #[trigger] entries_of(values)[i].0 == key,
        forall|i: int, j: int|
            0 <= i < j < entries_of(values).len() ==> key_before(
                #[trigger] entries_of(values)[i].0,
                #[trigger] entries_of(values)[j].0,
            ),
{
    let pairs = entries_of(values);
    finite_map_has_entries(values);
    assert forall|i: int| 0 <= i < pairs.len() implies values.contains_key(#[trigger] pairs[i].0)
        && values[pairs[i].0] == pairs[i].1 by {
        contents_at(pairs, i);
    }
    assert forall|key: Seq<char>| #[trigger] values.contains_key(key) implies exists|i: int|
        0 <= i < pairs.len() && #[trigger] pairs[i].0 == key by {
        assert(contents(pairs).contains_key(key));
        assert(has_key(pairs, key));
    }
}

/// How one key stands to another.
enum KeyOrder {
    Before,
    Same,
    After,
}

/// Tells how the key `a` stands to the key `b`.
fn key_order(a: &str, b: &str) -> (order: KeyOrder)
    ensures
        match order {
            KeyOrder::Before => key_before(a@, b@),
            KeyOrder::Same => a@ == b@,
            KeyOrder::After => key_before(b@, a@),
        },
{
    let x: &[u8] = a.as_bytes();
    let y: &[u8] = b.as_bytes();
    proof {
        encode_utf8_decode_utf8(a@);
        encode_utf8_decode_utf8(b@);
    }
    let mut i: usize = 0;
    assert(x@.skip(0) =~= x@);
    assert(y@.skip(0) =~= y@);
    while i < x.len() && i < y.len() && x[i] == y[i]
        invariant
            i <= x@.len(),
            i <= y@.len(),
            x@ == encode_utf8(a@),
            y@ == encode_utf8(b@),
            x@.take(i as int) == y@.take(i as int),
            bytes_before(x@, y@) == bytes_before(x@.skip(i as int), y@.skip(i as int)),
            bytes_before(y@, x@) == bytes_before(y@.skip(i as int), x@.skip(i as int)),
        decreases x@.len() - i,
    {
        proof {
            let (u, v) = (x@.skip(i as int), y@.skip(i as int));
            assert(u.drop_first() =~= x@.skip(i + 1));
            assert(v.drop_first() =~= y@.skip(i + 1));
            assert(x@.take(i + 1) =~= x@.take(i as int).push(x@[i as int]));
            assert(y@.take(i + 1) =~= y@.take(i as int).push(y@[i as int]));
        }
        i = i + 1;
    }
    if i < x.len() && i < y.len() {
        if x[i] < y[i] {
            KeyOrder::Before
        } else {
            KeyOrder::After
        }
    } else if i < y.len() {
        KeyOrder::Before
    } else if i < x.len() {
        KeyOrder::After
    } else {
        assert(x@.take(i as int) =~= x@);
        assert(y@.take(i as int) =~= y@);
        KeyOrder::Same
    }
}

/// A map from text to text. Its entries stand in the order of their keys and no key
/// occurs twice, so two maps with the same contents are stored alike.
#[derive(Debug, Hash)]
pub struct ValueMap {
    entries: Vec<(String, String)>,
}

impl View for ValueMap {
    type V = Map<Seq<char>, Seq<char>>;

    closed spec fn view(&self) -> Map<Seq<char>, Seq<char>> {
        contents(pairs_of(self.entries@))
    }
}

impl ValueMap {
    #[verifier::type_invariant]
    spec fn well_formed(self) -> bool {
        ascending(pairs_of(self.entries@))
    }

    /// A map without entries.
    pub fn new() -> (map: ValueMap)
        ensures
            map@ == Map::<Seq<char>, Seq<char>>::empty(),
    {
        let map = ValueMap { entries: Vec::new() };
        assert(map@ =~= Map::<Seq<char>, Seq<char>>::empty());
        map
    }

    /// Whether the map has no entries.
    pub fn is_empty(&self) -> (empty: bool)
        ensures
            empty == (self@ == Map::<Seq<char>, Seq<char>>::empty()),
    {
        proof {
            if self.entries@.len() > 0 {
                let pairs = pairs_of(self.entries@);
                assert(pairs[0].0 == pairs[0].0);
                assert(has_key(pairs, pairs[0].0));
                assert(self@.contains_key(pairs[0].0));
            } else {
                assert(self@ =~= Map::<Seq<char>, Seq<char>>::empty());
            }
        }
        self.entries.len() == 0
    }

    /// The entries, in the order of their keys.
    pub fn pairs(&self) -> (pairs: &Vec<(String, String)>)
        ensures
            ascending(pairs_of(pairs@)),
            contents(pairs_of(pairs@)) == self@,
            self@.dom().finite(),
            forall|i: int|
                0 <= i < pairs@.len() ==> self@.contains_key(#[trigger] pairs@[i].0@)
                    && self@[pairs@[i].0@] == pairs@[i].1@,
            forall|key: Seq<char>|
                #[trigger] self@.contains_key(key) ==> exists|i: int|
                    0 <= i < pairs@.len() && #[trigger] pairs@[i].0@ == key,
            forall|i: int, j: int|
                0 <= i < j < pairs@.len() ==> key_before(
                    #[trigger] pairs@[i].0@,
                    #[trigger] pairs@[j].0@,
                ),
    {
        proof {
            use_type_invariant(self);
            contents_are_finite(pairs_of(self.entries@));
            let pairs = pairs_of(self.entries@);
            assert(forall|i: int|
                0 <= i < pairs.len() ==> #[trigger] pairs[i] == (
                    self.entries@[i].0@,
                    self.entries@[i].1@,
                ));
            assert forall|i: int| 0 <= i < self.entries@.len() implies self@.contains_key(
                #[trigger] self.entries@[i].0@,
            ) && self@[self.entries@[i].0@] == self.entries@[i].1@ by {
                contents_at(pairs, i);
                assert(pairs[i].0 == self.entries@[i].0@);
            }
            assert forall|key: Seq<char>| #[trigger] self@.contains_key(key) implies exists|i: int|
                0 <= i < self.entries@.len() && #[trigger] self.entries@[i].0@ == key by {
                let i = choose|i: int| 0 <= i < pairs.len() && #[trigger] pairs[i].0 == key;
                assert(self.entries@[i].0@ == key);
            }
            assert forall|i: int, j: int| 0 <= i < j < self.entries@.len() implies key_before(
                #[trigger] self.entries@[i].0@,
                #[trigger] self.entries@[j].0@,
            ) by {
                assert(key_before(pairs[i].0, pairs[j].0));
            }
        }
        &self.entries
    }

    /// The first position whose key does not come before `key`.
    fn position(entries: &Vec<(String, String)>, key: &str) -> (at: usize)
        requires
            ascending(pairs_of(entries@)),
        ensures
            at <= entries@.len(),
            forall|i: int| 0 <= i < at ==> key_before(#[trigger] pairs_of(entries@)[i].0, key@),
            forall|i: int|
                at <= i < entries@.len() ==> !key_before(#[trigger] pairs_of(entries@)[i].0, key@),
    {
        let ghost pairs = pairs_of(entries@);
        let mut low: usize = 0;
        let mut high: usize = entries.len();
        while low < high
            invariant
                pairs == pairs_of(entries@),
                ascending(pairs),
                low <= high <= entries@.len(),
                forall|i: int| 0 <= i < low ==> key_before(#[trigger] pairs[i].0, key@),
                forall|i: int| high <= i < entries@.len() ==> !key_before(#[trigger] pairs[i].0, key@),
            decreases high - low,
        {
            let mid: usize = low + (high - low) / 2;
            let order = key_order(entries[mid].0.as_str(), key);
            assert(pairs[mid as int].0 == entries@[mid as int].0@);
            match order {
                KeyOrder::Before => {
                    assert forall|i: int| 0 <= i < mid + 1 implies key_before(
                        #[trigger] pairs[i].0,
                        key@,
                    ) by {
                        if i < mid {
                            assert(key_before(pairs[i].0, pairs[mid as int].0));
                            key_order_is_total(pairs[i].0, pairs[mid as int].0, key@);
                        }
                    }
                    low = mid + 1;
                },
                _ => {
                    assert forall|i: int| mid <= i < entries@.len() implies !key_before(
                        #[trigger] pairs[i].0,
                        key@,
                    ) by {
                        key_order_is_total(key@, pairs[mid as int].0, key@);
                        if mid < i {
                            assert(key_before(pairs[mid as int].0, pairs[i].0));
                            key_order_is_total(pairs[mid as int].0, pairs[i].0, key@);
                        }
                    }
                    high = mid;
                },
            }
        }
        low
    }

    /// The value at `key`, if there is one.
    pub fn get(&self, key: &str) -> (value: Option<&String>)
        ensures
            match value {
                Some(v) => self@.contains_key(key@) && v@ == self@[key@],
                None => !self@.contains_key(key@),
            },
    {
        proof {
            use_type_invariant(self);
        }
        let ghost pairs = pairs_of(self.entries@);
        let at: usize = ValueMap::position(&self.entries, key);
        if at < self.entries.len() {
            let order = key_order(self.entries[at].0.as_str(), key);
            assert(pairs[at as int].0 == self.entries@[at as int].0@);
            if let KeyOrder::Same = order {
                proof {
                    contents_at(pairs, at as int);
                }
                return Some(&self.entries[at].1);
            }
        }
        proof {
            if has_key(pairs, key@) {
                let i = choose|i: int| 0 <= i < pairs.len() && #[trigger] pairs[i].0 == key@;
                key_order_is_total(key@, key@, key@);
                assert(at <= i);
                if at < i {
                    assert(key_before(pairs[at as int].0, pairs[i].0));
                }
            }
        }
        None
    }

    /// Sets the value at `key`, in place of any that was there.
    pub fn insert(&mut self, key: String, value: String)
        ensures
            final(self)@ == old(self)@.insert(key@, value@),
    {
        proof {
            use_type_invariant(&*self);
        }
        let mut entries: Vec<(String, String)> = Vec::new();
        std::mem::swap(&mut entries, &mut self.entries);
        let ghost before = pairs_of(entries@);
        let at: usize = ValueMap::position(&entries, key.as_str());
        let ghost pair = (key@, value@);
        let mut present: bool = false;
        if at < entries.len() {
            let order = key_order(entries[at].0.as_str(), key.as_str());
            assert(before[at as int].0 == entries@[at as int].0@);
            if let KeyOrder::Same = order {
                present = true;
            }
        }
        if present {
            entries.set(at, (key, value));
            proof {
                assert(pairs_of(entries@) =~= before.update(at as int, pair));
                replaced_pair(before, at as int, pair);
            }
        } else {
            entries.insert(at, (key, value));
            proof {
                assert(pairs_of(entries@) =~= before.insert(at as int, pair));
                assert forall|i: int| at <= i < before.len() implies key_before(
                    pair.0,
                    #[trigger] before[i].0,
                ) by {
                    if at < i {
                        assert(key_before(before[at as int].0, before[i].0));
                    }
                    key_order_is_total(pair.0, before[at as int].0, before[i].0);
                }
                inserted_pair(before, at as int, pair);
            }
        }
        self.entries = entries;
    }

    /// Whether both maps have the same entries.
    pub fn same_as(&self, other: &ValueMap) -> (same: bool)
        ensures
            same == (self@ == other@),
    {
        proof {
            use_type_invariant(self);
            use_type_invariant(other);
        }
        let ghost a = pairs_of(self.entries@);
        let ghost b = pairs_of(other.entries@);
        proof {
            if self@ == other@ {
                ascending_pairs_are_canonical(a, b);
            }
        }
        if self.entries.len() != other.entries.len() {
            return false;
        }
        let mut i: usize = 0;
        while i < self.entries.len()
            invariant
                a == pairs_of(self.entries@),
                b == pairs_of(other.entries@),
                self@ == other@ ==> a == b,
                self.entries@.len() == other.entries@.len(),
                i <= self.entries@.len(),
                forall|j: int| 0 <= j < i ==> #[trigger] a[j] == b[j],
            decreases self.entries@.len() - i,
        {
            assert(a[i as int] == (self.entries@[i as int].0@, self.entries@[i as int].1@));
            assert(b[i as int] == (other.entries@[i as int].0@, other.entries@[i as int].1@));
            if self.entries[i].0 != other.entries[i].0 || self.entries[i].1 != other.entries[i].1 {
                return false;
            }
            i = i + 1;
        }
        assert(a =~= b);
        true
    }
}

proof fn replaced_pair(before: Seq<Pair>, at: int, pair: Pair)
    requires
        ascending(before),
        0 <= at < before.len(),
        before[at].0 == pair.0,
    ensures
        ascending(before.update(at, pair)),
        contents(before.update(at, pair)) == contents(before).insert(pair.0, pair.1),
{
    let after = before.update(at, pair);
    assert(forall|i: int| 0 <= i < after.len() ==> #[trigger] after[i].0 == before[i].0);
    assert forall|i: int, j: int| 0 <= i < j < after.len() implies key_before(
        #[trigger] after[i].0,
        #[trigger] after[j].0,
    ) by {
        assert(key_before(before[i].0, before[j].0));
    }
    let (m, n) = (contents(after), contents(before).insert(pair.0, pair.1));
    contents_at(after, at);
    assert forall|key: Seq<char>| m.contains_key(key) == n.contains_key(key) by {
        if has_key(before, key) {
            let i = choose|i: int| 0 <= i < before.len() && #[trigger] before[i].0 == key;
            assert(after[i].0 == key);
        }
        if has_key(after, key) {
            let i = choose|i: int| 0 <= i < after.len() && #[trigger] after[i].0 == key;
            assert(before[i].0 == key);
        }
    }
    assert forall|key: Seq<char>| m.contains_key(key) implies m[key] == n[key] by {
        let i = choose|i: int| 0 <= i < after.len() && #[trigger] after[i].0 == key;
        contents_at(after, i);
        contents_at(before, i);
        if i == at {
        } else {
            key_order_is_total(key, pair.0, key);
            if i < at {
                assert(key_before(before[i].0, before[at].0));
            } else {
                assert(key_before(before[at].0, before[i].0));
            }
        }
    }
    assert(m =~= n);
}

proof fn inserted_pair(before: Seq<Pair>, at: int, pair: Pair)
    requires
        ascending(before),
        0 <= at <= before.len(),
        forall|i: int| 0 <= i < at ==> key_before(#[trigger] before[i].0, pair.0),
        forall|i: int| at <= i < before.len() ==> key_before(pair.0, #[trigger] before[i].0),
    ensures
        ascending(before.insert(at, pair)),
        contents(before.insert(at, pair)) == contents(before).insert(pair.0, pair.1),
{
    let after = before.insert(at, pair);
    assert forall|i: int, j: int| 0 <= i < j < after.len() implies key_before(
        #[trigger] after[i].0,
        #[trigger] after[j].0,
    ) by {
        let p = if i < at { i } else { i - 1 };
        let q = if j < at { j } else { j - 1 };
        if i == at {
            assert(after[j] == before[q]);
        } else if j == at {
            assert(after[i] == before[p]);
        } else {
            assert(after[i] == before[p] && after[j] == before[q]);
            assert(key_before(before[p].0, before[q].0));
        }
    }
    let (m, n) = (contents(after), contents(before).insert(pair.0, pair.1));
    assert(after[at] == pair);
    contents_at(after, at);
    assert forall|key: Seq<char>| m.contains_key(key) == n.contains_key(key) by {
        if has_key(before, key) {
            let i = choose|i: int| 0 <= i < before.len() && #[trigger] before[i].0 == key;
            let k = if i < at { i } else { i + 1 };
            assert(after[k] == before[i]);
            assert(after[k].0 == key);
        }
        if has_key(after, key) {
            let i = choose|i: int| 0 <= i < after.len() && #[trigger] after[i].0 == key;
            if i != at {
                let k = if i < at { i } else { i - 1 };
                assert(after[i] == before[k]);
                assert(before[k].0 == key);
            }
        }
    }
    assert forall|key: Seq<char>| m.contains_key(key) implies m[key] == n[key] by {
        let i = choose|i: int| 0 <= i < after.len() && #[trigger] after[i].0 == key;
        contents_at(after, i);
        if i != at {
            let k = if i < at { i } else { i - 1 };
            assert(after[i] == before[k]);
            contents_at(before, k);
            key_order_is_total(key, pair.0, key);
            if i < at {
                assert(key_before(before[k].0, pair.0));
            } else {
                assert(key_before(pair.0, before[k].0));
            }
        }
    }
    assert(m =~= n);
}

impl Clone for ValueMap {
    fn clone(&self) -> (copy: ValueMap)
        ensures
            copy@ == self@,
    {
        proof {
            use_type_invariant(self);
        }
        let mut entries: Vec<(String, String)> = Vec::new();
        let mut i: usize = 0;
        while i < self.entries.len()
            invariant
                i <= self.entries@.len(),
                entries@ == self.entries@.take(i as int),
            decreases self.entries@.len() - i,
        {
            entries.push((self.entries[i].0.clone(), self.entries[i].1.clone()));
            assert(entries@ =~= self.entries@.take(i + 1));
            i = i + 1;
        }
        assert(entries@ =~= self.entries@);
        ValueMap { entries }
    }
}

} // verus!

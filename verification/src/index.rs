//! Finding a position by a key: the map from each key of a list to the last
//! position at which it stands.
use crate::tokenfile::texts;
use vstd::hash_map::StringHashMap;
use vstd::prelude::*;

verus! {

/// The map from each key of `keys` to its position. Of a key that stands
/// more than once, the last position counts.
pub open spec fn index_of_keys(keys: Seq<Seq<char>>) -> Map<Seq<char>, usize>
    decreases keys.len(),
{
    if keys.len() == 0 {
        Map::empty()
    } else {
        index_of_keys(keys.drop_last()).insert(keys.last(), (keys.len() - 1) as usize)
    }
}

/// Whether no key stands twice in `keys`.
pub open spec fn distinct(keys: Seq<Seq<char>>) -> bool {
    forall|i: int, j: int| 0 <= i < j < keys.len() ==> keys[i] != keys[j]
}

/// The index holds exactly the keys of the list, and each key with a
/// position at which it stands and after which it stands no more.
pub proof fn lemma_index_of_keys(keys: Seq<Seq<char>>, key: Seq<char>)
    requires
        keys.len() <= usize::MAX,
    ensures
        index_of_keys(keys).contains_key(key) <==> exists|i: int|
            0 <= i < keys.len() && keys[i] == key,
        index_of_keys(keys).contains_key(key) ==> {
            let at = index_of_keys(keys)[key];
            &&& at < keys.len()
            &&& keys[at as int] == key
            &&& forall|i: int| at < i < keys.len() ==> keys[i] != key
        },
    decreases keys.len(),
{
    if keys.len() > 0 {
        let front = keys.drop_last();
        lemma_index_of_keys(front, key);
        if keys.last() == key {
            assert(keys[keys.len() - 1] == key);
        } else if index_of_keys(front).contains_key(key) {
            let i = choose|i: int| 0 <= i < front.len() && front[i] == key;
            assert(keys[i] == key);
            let at = index_of_keys(front)[key];
            assert(keys[at as int] == front[at as int]);
            assert forall|i: int| at < i < keys.len() implies keys[i] != key by {
                if i < front.len() {
                    assert(front[i] == keys[i]);
                }
            }
        } else {
            assert forall|i: int| 0 <= i < keys.len() implies keys[i] != key by {
                if i < front.len() {
                    assert(front[i] == keys[i]);
                }
            }
        }
    }
}

/// Where no key stands twice, each key is found at its own position.
pub proof fn lemma_index_of_distinct_keys(keys: Seq<Seq<char>>, i: int)
    requires
        keys.len() <= usize::MAX,
        distinct(keys),
        0 <= i < keys.len(),
    ensures
        index_of_keys(keys).contains_key(keys[i]),
        index_of_keys(keys)[keys[i]] == i,
{
    lemma_index_of_keys(keys, keys[i]);
}

/// Builds the index of `keys`.
pub fn build_index(keys: &Vec<String>) -> (index: StringHashMap<usize>)
    ensures
        index@ == index_of_keys(texts(keys@)),
{
    let mut index: StringHashMap<usize> = StringHashMap::new();
    let mut i: usize = 0;
    while i < keys.len()
        invariant
            i <= keys@.len(),
            index@ == index_of_keys(texts(keys@).take(i as int)),
        decreases keys@.len() - i,
    {
        proof {
            let longer = texts(keys@).take(i + 1);
            assert(longer.drop_last() == texts(keys@).take(i as int));
            assert(longer.last() == keys@[i as int]@);
        }
        index.insert(keys[i].clone(), i);
        i += 1;
    }
    assert(texts(keys@).take(i as int) == texts(keys@));
    index
}

/// Builds the index of `keys` where no key stands twice in them, and
/// gives `None` where one does.
pub fn build_distinct_index(keys: &Vec<String>) -> (index: Option<StringHashMap<usize>>)
    ensures
        match index {
            Some(index) => distinct(texts(keys@)) && index@ == index_of_keys(texts(keys@)),
            None => !distinct(texts(keys@)),
        },
{
    let mut index: StringHashMap<usize> = StringHashMap::new();
    let mut i: usize = 0;
    while i < keys.len()
        invariant
            i <= keys@.len(),
            index@ == index_of_keys(texts(keys@).take(i as int)),
            distinct(texts(keys@).take(i as int)),
        decreases keys@.len() - i,
    {
        let ghost front = texts(keys@).take(i as int);
        let ghost longer = texts(keys@).take(i + 1);
        proof {
            assert(longer.drop_last() == front);
            assert(longer.last() == keys@[i as int]@);
            lemma_index_of_keys(front, keys@[i as int]@);
        }
        if index.contains_key(keys[i].as_str()) {
            proof {
                let k = choose|k: int| 0 <= k < front.len() && front[k] == keys@[i as int]@;
                assert(texts(keys@)[k] == texts(keys@)[i as int]);
            }
            return None;
        }
        index.insert(keys[i].clone(), i);
        proof {
            assert forall|a: int, b: int| 0 <= a < b < longer.len() implies longer[a] != longer[b] by {
                if b < i {
                    assert(front[a] == longer[a] && front[b] == longer[b]);
                } else {
                    assert(front[a] == longer[a]);
                }
            }
        }
        i += 1;
    }
    assert(texts(keys@).take(i as int) == texts(keys@));
    Some(index)
}

} // verus!

//! Decoding of the query fragment of a request path into a multi-valued mapping.
use vstd::prelude::*;
use crate::text::{find_char, first_index_of, is_first_index_of, split_on, split_text, views};

verus! {

/// What a key of a query string maps to: the one value it was given, or all of
/// them in order of appearance when it was given more than once.
#[derive(Debug, PartialEq, Eq)]
pub enum Value {
    Single(String),
    Multiple(Vec<String>),
}

impl View for Value {
    type V = Seq<Seq<char>>;

    /// The values in order of appearance.
    open spec fn view(&self) -> Seq<Seq<char>> {
        match self {
            Value::Single(s) => seq![s@],
            Value::Multiple(v) => views(v@),
        }
    }
}

impl Value {
    /// A key given more than once holds all its values.
    pub open spec fn wf(&self) -> bool {
        self is Multiple ==> self@.len() >= 2
    }

    /// A well-formed value holds at least one value, and it is `Single`
    /// exactly when it holds one.
    pub proof fn lemma_nonempty(v: Value)
        requires
            v.wf(),
        ensures
            v@.len() >= 1,
            v is Single <==> v@.len() == 1,
    {
    }
}

/// The key of a fragment: the text before its first `=`, or all of it.
pub open spec fn key_of(fragment: Seq<char>) -> Seq<char> {
    match first_index_of(fragment, '=') {
        Some(i) => fragment.subrange(0, i),
        None => fragment,
    }
}

/// The value of a fragment: the text after its first `=`, or empty.
pub open spec fn value_of(fragment: Seq<char>) -> Seq<char> {
    match first_index_of(fragment, '=') {
        Some(i) => fragment.subrange(i + 1, fragment.len() as int),
        None => Seq::empty(),
    }
}

/// The values given to key `k` by the fragments, in order.
pub open spec fn values_for(fragments: Seq<Seq<char>>, k: Seq<char>) -> Seq<Seq<char>>
    decreases fragments.len(),
{
    if fragments.len() == 0 {
        Seq::empty()
    } else {
        let prev = values_for(fragments.drop_last(), k);
        if key_of(fragments.last()) == k {
            prev.push(value_of(fragments.last()))
        } else {
            prev
        }
    }
}

/// The mapping that a query fragment decodes to: each key that occurs maps
/// to the values given to it, in order.
pub open spec fn query_of(s: Seq<char>) -> Map<Seq<char>, Seq<Seq<char>>> {
    let fragments = split_on(s, '&');
    Map::new(|k: Seq<char>| values_for(fragments, k).len() > 0, |k: Seq<char>| values_for(fragments, k))
}

/// A decoded query string: a mapping from keys to values.
#[derive(Debug)]
pub struct QueryString {
    data: Vec<(String, Value)>,
}

impl View for QueryString {
    type V = Map<Seq<char>, Seq<Seq<char>>>;

    closed spec fn view(&self) -> Map<Seq<char>, Seq<Seq<char>>> {
        Map::new(
            |k: Seq<char>| exists|i: int| 0 <= i < self.data@.len() && self.data@[i].0@ == k,
            |k: Seq<char>|
                self.data@[choose|i: int| 0 <= i < self.data@.len() && self.data@[i].0@ == k].1@,
        )
    }
}

/// Where `key` stands among the entries, if it does.
fn find_key(data: &Vec<(String, Value)>, key: &String) -> (r: Option<usize>)
    ensures
        match r {
            Some(i) => i < data@.len() && data@[i as int].0@ == key@,
            None => forall|i: int| 0 <= i < data@.len() ==> data@[i].0@ != key@,
        },
{
    let mut i: usize = 0;
    while i < data.len()
        invariant
            i <= data@.len(),
            forall|j: int| 0 <= j < i ==> data@[j].0@ != key@,
        decreases data@.len() - i,
    {
        if data[i].0 == *key {
            return Some(i);
        }
        i = i + 1;
    }
    None
}

impl QueryString {
    /// The value stored for `key`, if the query string holds it.
    pub fn get(&self, key: &str) -> (r: Option<&Value>)
        requires
            self.wf(),
        ensures
            r is Some <==> self@.contains_key(key@),
            r is Some ==> r->0@ == self@[key@] && r->0.wf(),
    {
        let key = key.to_owned();
        match find_key(&self.data, &key) {
            Some(i) => {
                let ghost j = choose|j: int| 0 <= j < self.data@.len() && self.data@[j].0@ == key@;
                assert(j == i);
                Some(&self.data[i].1)
            },
            None => None,
        }
    }

    /// Keys are unique and each entry is well formed.
    pub closed spec fn wf(&self) -> bool {
        &&& forall|i: int, j: int|
            0 <= i < j < self.data@.len() ==> self.data@[i].0@ != self.data@[j].0@
        &&& forall|i: int| 0 <= i < self.data@.len() ==> (#[trigger] self.data@[i]).1.wf()
    }

    /// Decodes a query fragment (everything after the first `?` of a path).
    /// Never fails: every text decodes to some mapping.
    pub fn parse(s: &str) -> (r: QueryString)
        ensures
            r.wf(),
            r@ == query_of(s@),
    {
        let fragments = split_text(s, '&');
        let ghost frags = split_on(s@, '&');
        let mut data: Vec<(String, Value)> = Vec::new();
        let mut n: usize = 0;
        while n < fragments.len()
            invariant
                views(fragments@) == frags,
                n <= fragments@.len(),
                forall|i: int, j: int| 0 <= i < j < data@.len() ==> data@[i].0@ != data@[j].0@,
                forall|i: int|
                    0 <= i < data@.len() ==> (#[trigger] data@[i]).1.wf() && data@[i].1@
                        == values_for(frags.subrange(0, n as int), data@[i].0@),
                forall|k: Seq<char>|
                    #[trigger] values_for(frags.subrange(0, n as int), k).len() > 0 ==> exists|
                        i: int,
                    | 0 <= i < data@.len() && data@[i].0@ == k,
            decreases fragments@.len() - n,
        {
            let fragment = &fragments[n];
            let ghost f = fragment@;
            assert(f == frags[n as int]);
            let len = fragment.as_str().unicode_len();
            let (key, val) = match find_char(fragment.as_str(), '=') {
                Some(e) => {
                    assert(is_first_index_of(f, '=', e as int));
                    (
                        fragment.as_str().substring_char(0, e).to_owned(),
                        fragment.as_str().substring_char(e + 1, len).to_owned(),
                    )
                },
                None => (fragment.clone(), String::new()),
            };
            assert(key@ == key_of(f) && val@ == value_of(f));
            let ghost done = frags.subrange(0, n as int);
            let ghost next = frags.subrange(0, n + 1);
            assert(next.drop_last() =~= done);
            assert(next.last() == f);
            assert forall|k: Seq<char>| #[trigger]
                values_for(next, k) == if key_of(f) == k {
                    values_for(done, k).push(value_of(f))
                } else {
                    values_for(done, k)
                } by {}
            let ghost old_data = data@;
            match find_key(&data, &key) {
                Some(j) => {
                    let (k, old) = data.remove(j);
                    let updated = match old {
                        Value::Single(first) => {
                            let v = vec![first, val];
                            assert(views(v@) =~= seq![first@, val@]);
                            Value::Multiple(v)
                        },
                        Value::Multiple(mut v) => {
                            let ghost before = views(v@);
                            v.push(val);
                            assert(views(v@) =~= before.push(val@));
                            Value::Multiple(v)
                        },
                    };
                    let ghost rest = data@;
                    data.push((k, updated));
                    assert forall|i: int| 0 <= i < rest.len() implies rest[i].0@ != key@ by {
                        if i < j {
                            assert(rest[i] == old_data[i]);
                        } else {
                            assert(rest[i] == old_data[i + 1]);
                        }
                    }
                    assert forall|k2: Seq<char>| #[trigger]
                        values_for(next, k2).len() > 0 implies exists|i: int|
                        0 <= i < data@.len() && data@[i].0@ == k2 by {
                        if k2 == key@ {
                            assert(data@[data@.len() - 1].0@ == k2);
                        } else {
                            assert(values_for(done, k2).len() > 0);
                            let i = choose|i: int| 0 <= i < old_data.len() && old_data[i].0@ == k2;
                            if i < j {
                                assert(data@[i] == old_data[i]);
                            } else {
                                assert(data@[i - 1] == old_data[i]);
                            }
                        }
                    }
                },
                None => {
                    proof {
                        if values_for(done, key@).len() > 0 {
                            let i = choose|i: int| 0 <= i < old_data.len() && old_data[i].0@ == key@;
                        }
                    }
                    data.push((key, Value::Single(val)));
                    assert(data@[data@.len() - 1].1@ =~= values_for(done, key@).push(val@));
                    assert forall|k2: Seq<char>| #[trigger]
                        values_for(next, k2).len() > 0 implies exists|i: int|
                        0 <= i < data@.len() && data@[i].0@ == k2 by {
                        if k2 == key@ {
                            assert(data@[data@.len() - 1].0@ == k2);
                        } else {
                            assert(values_for(done, k2).len() > 0);
                            let i = choose|i: int| 0 <= i < old_data.len() && old_data[i].0@ == k2;
                            assert(data@[i] == old_data[i]);
                        }
                    }
                },
            }
            n = n + 1;
        }
        assert(frags.subrange(0, n as int) =~= frags);
        let r = QueryString { data };
        assert forall|i: int| 0 <= i < r.data@.len() implies (#[trigger] r.data@[i]).1@.len() > 0 by {
            Value::lemma_nonempty(r.data@[i].1);
        }
        assert(r@ =~= query_of(s@));
        r
    }
}

/// The values given to `k` when the fragments at `i` and `j` are the only
/// ones with that key, counted over the first `n` fragments.
proof fn lemma_values_two(fragments: Seq<Seq<char>>, k: Seq<char>, i: int, j: int, n: int)
    requires
        0 <= i < j < fragments.len(),
        key_of(fragments[i]) == k,
        key_of(fragments[j]) == k,
        forall|m: int|
            0 <= m < fragments.len() && m != i && m != j ==> key_of(#[trigger] fragments[m]) != k,
        0 <= n <= fragments.len(),
    ensures
        values_for(fragments.subrange(0, n), k) == if n > j {
            seq![value_of(fragments[i]), value_of(fragments[j])]
        } else if n > i {
            seq![value_of(fragments[i])]
        } else {
            Seq::empty()
        },
    decreases n,
{
    if n > 0 {
        lemma_values_two(fragments, k, i, j, n - 1);
        assert(fragments.subrange(0, n).drop_last() =~= fragments.subrange(0, n - 1));
        assert(fragments.subrange(0, n).last() == fragments[n - 1]);
        if n - 1 == j {
            assert(seq![value_of(fragments[i])].push(value_of(fragments[j])) =~= seq![
                value_of(fragments[i]),
                value_of(fragments[j]),
            ]);
        }
        if n - 1 == i {
            assert(Seq::<Seq<char>>::empty().push(value_of(fragments[i])) =~= seq![
                value_of(fragments[i]),
            ]);
        }
    }
}

/// The values given to `k` over the first `n` fragments, when no two
/// fragments share a key.
proof fn lemma_values_distinct(fragments: Seq<Seq<char>>, k: Seq<char>, n: int)
    requires
        forall|a: int, b: int|
            0 <= a < b < fragments.len() ==> key_of(#[trigger] fragments[a]) != key_of(
                #[trigger] fragments[b],
            ),
        0 <= n <= fragments.len(),
    ensures
        forall|a: int|
            0 <= a < n && key_of(#[trigger] fragments[a]) == k ==> values_for(
                fragments.subrange(0, n),
                k,
            ) == seq![value_of(fragments[a])],
        (forall|a: int| 0 <= a < n ==> key_of(#[trigger] fragments[a]) != k) ==> values_for(
            fragments.subrange(0, n),
            k,
        ) == Seq::<Seq<char>>::empty(),
    decreases n,
{
    if n > 0 {
        lemma_values_distinct(fragments, k, n - 1);
        assert(fragments.subrange(0, n).drop_last() =~= fragments.subrange(0, n - 1));
        assert(fragments.subrange(0, n).last() == fragments[n - 1]);
        if key_of(fragments[n - 1]) == k {
            assert(forall|a: int| 0 <= a < n - 1 ==> key_of(#[trigger] fragments[a]) != k);
            assert(Seq::<Seq<char>>::empty().push(value_of(fragments[n - 1])) =~= seq![
                value_of(fragments[n - 1]),
            ]);
        }
    }
}

/// When no key repeats in a query fragment, every key that occurs maps to
/// exactly one value: the text after the first `=` of its fragment, or the
/// empty text when the fragment has no `=`; and no other key is present.
pub proof fn lemma_unique_keys_single(s: Seq<char>)
    requires
        forall|a: int, b: int|
            0 <= a < b < split_on(s, '&').len() ==> key_of(#[trigger] split_on(s, '&')[a])
                != key_of(#[trigger] split_on(s, '&')[b]),
    ensures
        forall|a: int|
            0 <= a < split_on(s, '&').len() ==> query_of(s).contains_key(
                key_of(#[trigger] split_on(s, '&')[a]),
            ) && query_of(s)[key_of(split_on(s, '&')[a])] == seq![
                value_of(split_on(s, '&')[a]),
            ],
        forall|k: Seq<char>| #[trigger]
            query_of(s).contains_key(k) ==> exists|a: int|
                0 <= a < split_on(s, '&').len() && key_of(split_on(s, '&')[a]) == k,
{
    let fragments = split_on(s, '&');
    let n = fragments.len() as int;
    assert(fragments.subrange(0, n) =~= fragments);
    assert forall|a: int| 0 <= a < n implies query_of(s).contains_key(
        key_of(#[trigger] fragments[a]),
    ) && query_of(s)[key_of(fragments[a])] == seq![value_of(fragments[a])] by {
        lemma_values_distinct(fragments, key_of(fragments[a]), n);
    }
    assert forall|k: Seq<char>| #[trigger] query_of(s).contains_key(k) implies exists|a: int|
        0 <= a < n && key_of(fragments[a]) == k by {
        lemma_values_distinct(fragments, k, n);
    }
}

/// When a key occurs in exactly two fragments of a query fragment, it maps
/// to both values, the first one first.
pub proof fn lemma_repeated_key_multiple(s: Seq<char>, i: int, j: int)
    requires
        0 <= i < j < split_on(s, '&').len(),
        key_of(split_on(s, '&')[i]) == key_of(split_on(s, '&')[j]),
        forall|m: int|
            0 <= m < split_on(s, '&').len() && m != i && m != j ==> key_of(
                #[trigger] split_on(s, '&')[m],
            ) != key_of(split_on(s, '&')[i]),
    ensures
        query_of(s).contains_key(key_of(split_on(s, '&')[i])),
        query_of(s)[key_of(split_on(s, '&')[i])] == seq![
            value_of(split_on(s, '&')[i]),
            value_of(split_on(s, '&')[j]),
        ],
{
    let fragments = split_on(s, '&');
    let n = fragments.len() as int;
    assert(fragments.subrange(0, n) =~= fragments);
    lemma_values_two(fragments, key_of(fragments[i]), i, j, n);
}

} // verus!

//! Character-level helpers shared by the request parser, the query-string
//! decoder and the address parser: their models over `Seq<char>` and the
//! executable scans that meet them.
use vstd::prelude::*;
use vstd::utf8::{decode_utf8, valid_utf8};

verus! {

/// A token of the request line ends at a space or a carriage return.
pub open spec fn is_delimiter(c: char) -> bool {
    c == ' ' || c == '\r'
}

/// `i` is the position of the first delimiter in `s`.
pub open spec fn is_first_delimiter(s: Seq<char>, i: int) -> bool {
    &&& 0 <= i < s.len()
    &&& is_delimiter(s[i])
    &&& forall|j: int| 0 <= j < i ==> !is_delimiter(#[trigger] s[j])
}

/// The text before the first delimiter and the text after it, if `s` holds one.
pub open spec fn next_word(s: Seq<char>) -> Option<(Seq<char>, Seq<char>)> {
    if exists|i: int| is_first_delimiter(s, i) {
        let i = choose|i: int| is_first_delimiter(s, i);
        Some((s.subrange(0, i), s.subrange(i + 1, s.len() as int)))
    } else {
        None
    }
}

/// `i` is the position of the first `c` in `s`.
pub open spec fn is_first_index_of(s: Seq<char>, c: char, i: int) -> bool {
    &&& 0 <= i < s.len()
    &&& s[i] == c
    &&& forall|j: int| 0 <= j < i ==> #[trigger] s[j] != c
}

/// The position of the first `c` in `s`, if there is one.
pub open spec fn first_index_of(s: Seq<char>, c: char) -> Option<int> {
    if exists|i: int| is_first_index_of(s, c, i) {
        Some(choose|i: int| is_first_index_of(s, c, i))
    } else {
        None
    }
}

/// The pieces of `s` between occurrences of `sep`, in order. There is always
/// at least one piece: the empty text splits into one empty piece.
pub open spec fn split_on(s: Seq<char>, sep: char) -> Seq<Seq<char>>
    decreases s.len(),
{
    if s.len() == 0 {
        seq![Seq::empty()]
    } else {
        let prev = split_on(s.drop_last(), sep);
        if s.last() == sep {
            prev.push(Seq::empty())
        } else {
            prev.update(prev.len() - 1, prev.last().push(s.last()))
        }
    }
}

/// The texts held by a sequence of strings.
pub open spec fn views(v: Seq<String>) -> Seq<Seq<char>> {
    v.map_values(|x: String| x@)
}

proof fn lemma_split_on_nonempty(s: Seq<char>, sep: char)
    ensures
        split_on(s, sep).len() >= 1,
    decreases s.len(),
{
    if s.len() > 0 {
        lemma_split_on_nonempty(s.drop_last(), sep);
    }
}

/// Relies on std::str::from_utf8: it succeeds exactly on well-formed UTF-8,
/// and the text it returns is what those bytes encode.
#[verifier::external_body]
pub(crate) fn decode_text(buf: &[u8]) -> (r: Option<&str>)
    ensures
        r is Some <==> valid_utf8(buf@),
        r is Some ==> r->0@ == decode_utf8(buf@),
{
    std::str::from_utf8(buf).ok()
}

/// The characters of `s`, in order.
pub fn chars_of(s: &str) -> (r: Vec<char>)
    ensures
        r@ == s@,
{
    let mut r: Vec<char> = Vec::new();
    for c in it: s.chars()
        invariant
            r@ == it.seq().subrange(0, it.index() as int),
    {
        r.push(c);
    }
    r
}

/// Whether two character sequences are equal.
pub fn same_chars(a: &[char], b: &[char]) -> (r: bool)
    ensures
        r == (a@ == b@),
{
    if a.len() != b.len() {
        return false;
    }
    let mut i: usize = 0;
    while i < a.len()
        invariant
            a@.len() == b@.len(),
            i <= a@.len(),
            forall|j: int| 0 <= j < i ==> a@[j] == b@[j],
        decreases a@.len() - i,
    {
        if a[i] != b[i] {
            return false;
        }
        i = i + 1;
    }
    assert(a@ =~= b@);
    true
}

/// The position of the first `c` in `s`, counted in characters.
pub fn find_char(s: &str, c: char) -> (r: Option<usize>)
    ensures
        match r {
            Some(i) => first_index_of(s@, c) == Some(i as int),
            None => first_index_of(s@, c) is None,
        },
{
    let chars = chars_of(s);
    let mut i: usize = 0;
    while i < chars.len()
        invariant
            chars@ == s@,
            i <= chars@.len(),
            forall|j: int| 0 <= j < i ==> #[trigger] s@[j] != c,
        decreases chars@.len() - i,
    {
        if chars[i] == c {
            assert(is_first_index_of(s@, c, i as int));
            let ghost k = choose|k: int| is_first_index_of(s@, c, k);
            assert(k == i as int);
            return Some(i);
        }
        i = i + 1;
    }
    None
}

/// The text before the first delimiter and the text after it; `None` when
/// `buf_req` holds no delimiter.
pub fn get_next_word(buf_req: &str) -> (r: Option<(&str, &str)>)
    ensures
        match (r, next_word(buf_req@)) {
            (Some((word, rest)), Some((w, t))) => word@ == w && rest@ == t,
            (None, None) => true,
            _ => false,
        },
{
    let chars = chars_of(buf_req);
    let mut i: usize = 0;
    while i < chars.len()
        invariant
            chars@ == buf_req@,
            i <= chars@.len(),
            forall|j: int| 0 <= j < i ==> !is_delimiter(#[trigger] buf_req@[j]),
        decreases chars@.len() - i,
    {
        if chars[i] == ' ' || chars[i] == '\r' {
            assert(is_first_delimiter(buf_req@, i as int));
            let ghost k = choose|k: int| is_first_delimiter(buf_req@, k);
            assert(k == i as int);
            let word = buf_req.substring_char(0, i);
            let rest = buf_req.substring_char(i + 1, chars.len());
            return Some((word, rest));
        }
        i = i + 1;
    }
    None
}

/// The pieces of `s` between occurrences of `sep`, as owned strings.
pub fn split_text(s: &str, sep: char) -> (r: Vec<String>)
    ensures
        views(r@) == split_on(s@, sep),
{
    let chars = chars_of(s);
    let mut pieces: Vec<String> = Vec::new();
    let mut start: usize = 0;
    let mut i: usize = 0;
    assert(views(pieces@) =~= Seq::<Seq<char>>::empty());
    assert(s@.subrange(0, 0) =~= Seq::<char>::empty());
    assert(split_on(Seq::<char>::empty(), sep) == seq![Seq::<char>::empty()]);
    assert(views(pieces@).push(s@.subrange(0, 0)) =~= split_on(s@.subrange(0, 0), sep));
    while i < chars.len()
        invariant
            chars@ == s@,
            start <= i <= chars@.len(),
            split_on(s@.subrange(0, i as int), sep) == views(pieces@).push(
                s@.subrange(start as int, i as int),
            ),
        decreases chars@.len() - i,
    {
        let ghost prefix = s@.subrange(0, i as int);
        let ghost next = s@.subrange(0, i + 1);
        assert(next.drop_last() =~= prefix);
        proof {
            lemma_split_on_nonempty(prefix, sep);
        }
        let ghost before = views(pieces@);
        if chars[i] == sep {
            let piece = s.substring_char(start, i).to_owned();
            pieces.push(piece);
            assert(views(pieces@) =~= before.push(s@.subrange(start as int, i as int)));
            start = i + 1;
            assert(s@.subrange(start as int, i + 1) =~= Seq::<char>::empty());
        } else {
            assert(s@.subrange(start as int, i + 1) =~= s@.subrange(start as int, i as int).push(
                chars@[i as int],
            ));
        }
        i = i + 1;
    }
    let last = s.substring_char(start, chars.len()).to_owned();
    let ghost before = views(pieces@);
    pieces.push(last);
    assert(views(pieces@) =~= before.push(last@));
    assert(s@.subrange(0, s@.len() as int) =~= s@);
    pieces
}

} // verus!

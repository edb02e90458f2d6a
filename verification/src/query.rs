//! The query string of a request: its key and value pairs, and the value
//! that a parameter has in it.

use crate::record::optional_text;
use crate::text::same_text;
use vstd::prelude::*;

verus! {

/// The number of characters of `s` that stand before its first `sep`; the
/// length of `s` where it holds no `sep`.
pub open spec fn offset_of(s: Seq<char>, sep: char) -> nat
    decreases s.len(),
{
    if s.len() == 0 || s.first() == sep {
        0
    } else {
        1 + offset_of(s.drop_first(), sep)
    }
}

/// The pieces that `sep` cuts `s` into, empty ones included. A text without
/// `sep` is one piece.
pub open spec fn pieces(s: Seq<char>, sep: char) -> Seq<Seq<char>>
    decreases s.len(),
{
    let n = offset_of(s, sep) as int;
    if n >= s.len() {
        seq![s]
    } else {
        seq![s.take(n)] + pieces(s.skip(n + 1), sep)
    }
}

/// The key and the value that one piece of a query string stands for. A
/// piece without `=` stands for nothing. The key is what precedes the first
/// `=`; the value is what follows it, up to a second `=` or the end.
pub open spec fn pair_of(piece: Seq<char>) -> Option<(Seq<char>, Seq<char>)> {
    let n = offset_of(piece, '=') as int;
    if n >= piece.len() {
        None
    } else {
        let rest = piece.skip(n + 1);
        Some((piece.take(n), rest.take(offset_of(rest, '=') as int)))
    }
}

/// The pairs that the given pieces stand for, in the order of the pieces.
pub open spec fn pairs_of(parts: Seq<Seq<char>>) -> Seq<(Seq<char>, Seq<char>)>
    decreases parts.len(),
{
    if parts.len() == 0 {
        Seq::empty()
    } else {
        let front = pairs_of(parts.drop_last());
        match pair_of(parts.last()) {
            Some(pair) => front.push(pair),
            None => front,
        }
    }
}

/// The pairs of a query string: its pieces between `&`, each read as
/// `key=value`, those without `=` left out. Nothing is unescaped.
pub open spec fn query_pairs(query: Seq<char>) -> Seq<(Seq<char>, Seq<char>)> {
    pairs_of(pieces(query, '&'))
}

/// The value that the last pair with the given key holds.
pub open spec fn last_value(pairs: Seq<(Seq<char>, Seq<char>)>, key: Seq<char>) -> Option<
    Seq<char>,
>
    decreases pairs.len(),
{
    if pairs.len() == 0 {
        None
    } else if pairs.last().0 == key {
        Some(pairs.last().1)
    } else {
        last_value(pairs.drop_last(), key)
    }
}

/// The value of the parameter `key` in a query string. Where the key occurs
/// more than once, its last occurrence counts.
pub open spec fn parameter(query: Seq<char>, key: Seq<char>) -> Option<Seq<char>> {
    last_value(query_pairs(query), key)
}

/// The characters of each pair.
pub open spec fn pair_views(pairs: Seq<(String, String)>) -> Seq<(Seq<char>, Seq<char>)> {
    pairs.map_values(|p: (String, String)| (p.0@, p.1@))
}

/// Trusted: `querystring::querify`. It cuts the text at every `&`, cuts each
/// piece at `=`, and keeps, in order, the first two parts of every piece that
/// has two. The contract says this over [`query_pairs`]; the body only copies
/// the borrowed parts into owned strings.
#[verifier::external_body]
fn querify(query: &str) -> (pairs: Vec<(String, String)>)
    ensures
        pair_views(pairs@) == query_pairs(query@),
{
    querystring::querify(query).into_iter().map(|(k, v)| (k.to_owned(), v.to_owned())).collect()
}

/// The value that the last of `pairs` with the given key holds.
pub fn lookup(pairs: &Vec<(String, String)>, key: &str) -> (r: Option<String>)
    ensures
        optional_text(r) == last_value(pair_views(pairs@), key@),
{
    let ghost all = pair_views(pairs@);
    let mut i: usize = pairs.len();
    proof {
        assert(all.take(i as int) =~= all);
    }
    while i > 0
        invariant
            i <= pairs@.len(),
            all == pair_views(pairs@),
            last_value(all, key@) == last_value(all.take(i as int), key@),
        decreases i,
    {
        i -= 1;
        proof {
            assert(all.take(i + 1).drop_last() =~= all.take(i as int));
            assert(all.take(i + 1).last() == (pairs@[i as int].0@, pairs@[i as int].1@));
        }
        if same_text(pairs[i].0.as_str(), key) {
            return Some(pairs[i].1.clone());
        }
    }
    None
}

/// The value of the parameter `key` in the query string of a request. Where
/// the key occurs more than once, its last occurrence counts.
pub fn query_parameter(query: &str, key: &str) -> (r: Option<String>)
    ensures
        optional_text(r) == parameter(query@, key@),
{
    let pairs = querify(query);
    lookup(&pairs, key)
}

/// Whether `s` holds no `sep`.
pub open spec fn is_free_of(s: Seq<char>, sep: char) -> bool {
    forall|i: int| 0 <= i < s.len() ==> s[i] != sep
}

/// The offset of the first `sep` lies within the text or at its end; it is
/// at the end exactly where the text holds no `sep`, and otherwise points at
/// the first one.
pub proof fn lemma_offset_of(s: Seq<char>, sep: char)
    ensures
        offset_of(s, sep) <= s.len(),
        is_free_of(s.take(offset_of(s, sep) as int), sep),
        offset_of(s, sep) < s.len() ==> s[offset_of(s, sep) as int] == sep,
        offset_of(s, sep) == s.len() <==> is_free_of(s, sep),
    decreases s.len(),
{
    if s.len() > 0 && s.first() != sep {
        let rest = s.drop_first();
        lemma_offset_of(rest, sep);
        let n = offset_of(rest, sep) as int;
        let front = s.take(n + 1);
        assert forall|i: int| 0 <= i < front.len() implies front[i] != sep by {
            if i > 0 {
                assert(front[i] == rest.take(n)[i - 1]);
            }
        }
        if is_free_of(s, sep) {
            assert forall|i: int| 0 <= i < rest.len() implies rest[i] != sep by {
                assert(rest[i] == s[i + 1]);
            }
        }
        if n == rest.len() {
            assert forall|i: int| 0 <= i < s.len() implies s[i] != sep by {
                if i > 0 {
                    assert(s[i] == rest[i - 1]);
                }
            }
        } else {
            assert(s[n + 1] == rest[n]);
        }
    } else if s.len() > 0 {
        assert(s[0] == sep);
    }
}

/// The first `sep` of a text followed by another is the first `sep` of the
/// text, where it has one, and otherwise the first `sep` of the other.
pub proof fn lemma_offset_of_joined(a: Seq<char>, b: Seq<char>, sep: char)
    ensures
        offset_of(a + b, sep) == if offset_of(a, sep) < a.len() {
            offset_of(a, sep)
        } else {
            a.len() + offset_of(b, sep)
        },
    decreases a.len(),
{
    lemma_offset_of(a, sep);
    if a.len() == 0 {
        assert(a + b =~= b);
    } else {
        assert((a + b).first() == a.first());
        assert((a + b).drop_first() =~= a.drop_first() + b);
        if a.first() != sep {
            lemma_offset_of(a.drop_first(), sep);
            lemma_offset_of_joined(a.drop_first(), b, sep);
        }
    }
}

/// Cutting two texts that are joined by `sep` gives the pieces of the one
/// followed by the pieces of the other.
pub proof fn lemma_pieces_joined(a: Seq<char>, b: Seq<char>, sep: char)
    ensures
        pieces(a + seq![sep] + b, sep) == pieces(a, sep) + pieces(b, sep),
    decreases a.len(),
{
    let whole = a + seq![sep] + b;
    let n = offset_of(a, sep) as int;
    lemma_offset_of(a, sep);
    lemma_offset_of_joined(a, seq![sep] + b, sep);
    assert(whole =~= a + (seq![sep] + b));
    assert((seq![sep] + b).first() == sep);
    if n >= a.len() {
        assert(offset_of(whole, sep) == a.len());
        assert(whole.take(a.len() as int) =~= a);
        assert(whole.skip(a.len() as int + 1) =~= b);
    } else {
        assert(offset_of(whole, sep) == n);
        assert(whole.take(n) =~= a.take(n));
        assert(whole.skip(n + 1) =~= a.skip(n + 1) + seq![sep] + b);
        lemma_pieces_joined(a.skip(n + 1), b, sep);
        assert(pieces(whole, sep) =~= pieces(a, sep) + pieces(b, sep));
    }
}

/// The pairs of pieces that follow one another are the pairs of the first
/// followed by the pairs of the second.
pub proof fn lemma_pairs_of_joined(x: Seq<Seq<char>>, y: Seq<Seq<char>>)
    ensures
        pairs_of(x + y) == pairs_of(x) + pairs_of(y),
    decreases y.len(),
{
    if y.len() == 0 {
        assert(x + y =~= x);
        assert(pairs_of(x) + pairs_of(y) =~= pairs_of(x));
    } else {
        assert((x + y).drop_last() =~= x + y.drop_last());
        assert((x + y).last() == y.last());
        lemma_pairs_of_joined(x, y.drop_last());
        assert(pairs_of(x + y) =~= pairs_of(x) + pairs_of(y));
    }
}

/// Among pairs that follow one another, a key has the value that it has in
/// the later ones, and only where it has none there, the value that it has
/// in the earlier ones.
pub proof fn lemma_last_value_joined(
    x: Seq<(Seq<char>, Seq<char>)>,
    y: Seq<(Seq<char>, Seq<char>)>,
    key: Seq<char>,
)
    ensures
        last_value(x + y, key) == if last_value(y, key) is Some {
            last_value(y, key)
        } else {
            last_value(x, key)
        },
    decreases y.len(),
{
    if y.len() == 0 {
        assert(x + y =~= x);
    } else {
        assert((x + y).drop_last() =~= x + y.drop_last());
        assert((x + y).last() == y.last());
        lemma_last_value_joined(x, y.drop_last(), key);
    }
}

/// In two query strings joined by `&`, a parameter has the value that it has
/// in the second, and only where it has none there, the value that it has in
/// the first.
pub proof fn lemma_parameter_joined(a: Seq<char>, b: Seq<char>, key: Seq<char>)
    ensures
        parameter(a + seq!['&'] + b, key) == if parameter(b, key) is Some {
            parameter(b, key)
        } else {
            parameter(a, key)
        },
{
    lemma_pieces_joined(a, b, '&');
    lemma_pairs_of_joined(pieces(a, '&'), pieces(b, '&'));
    lemma_last_value_joined(query_pairs(a), query_pairs(b), key);
}

/// The pairs of a single piece: its pair, where it stands for one.
pub proof fn lemma_pairs_of_one(piece: Seq<char>)
    ensures
        pairs_of(seq![piece]) == match pair_of(piece) {
            Some(pair) => seq![pair],
            None => Seq::empty(),
        },
{
    reveal_with_fuel(pairs_of, 2);
    assert(seq![piece].drop_last() =~= Seq::<Seq<char>>::empty());
    assert(seq![piece].last() == piece);
    match pair_of(piece) {
        Some(pair) => {
            assert(Seq::<(Seq<char>, Seq<char>)>::empty().push(pair) =~= seq![pair]);
        },
        None => {},
    }
}

/// In the query string `key=value`, the parameter `key` has the value
/// `value`, provided that neither holds `&` or `=`.
pub proof fn lemma_parameter_alone(key: Seq<char>, value: Seq<char>)
    requires
        is_free_of(key, '&'),
        is_free_of(key, '='),
        is_free_of(value, '&'),
        is_free_of(value, '='),
    ensures
        parameter(key + seq!['='] + value, key) == Some(value),
{
    let query = key + seq!['='] + value;
    assert(query =~= key + (seq!['='] + value));
    assert((seq!['='] + value).first() == '=');
    assert(is_free_of(query, '&'));
    lemma_offset_of(query, '&');
    lemma_offset_of(key, '=');
    lemma_offset_of(value, '=');
    lemma_offset_of_joined(key, seq!['='] + value, '=');
    assert(offset_of(query, '=') == key.len());
    assert(query.take(key.len() as int) =~= key);
    assert(query.skip(key.len() as int + 1) =~= value);
    assert(value.take(value.len() as int) =~= value);
    assert(pair_of(query) == Some((key, value)));
    lemma_pairs_of_one(query);
    assert(seq![(key, value)].drop_last() =~= Seq::<(Seq<char>, Seq<char>)>::empty());
}

/// A query string without `=` has no parameters.
pub proof fn lemma_parameter_none(query: Seq<char>, key: Seq<char>)
    requires
        is_free_of(query, '='),
    ensures
        parameter(query, key) is None,
    decreases query.len(),
{
    lemma_offset_of(query, '&');
    let n = offset_of(query, '&') as int;
    if n >= query.len() {
        lemma_offset_of(query, '=');
        lemma_pairs_of_one(query);
    } else {
        let head = query.take(n);
        let tail = query.skip(n + 1);
        assert(query =~= head + seq!['&'] + tail);
        assert(is_free_of(head, '=')) by {
            assert forall|i: int| 0 <= i < head.len() implies head[i] != '=' by {
                assert(head[i] == query[i]);
            }
        }
        assert(is_free_of(tail, '=')) by {
            assert forall|i: int| 0 <= i < tail.len() implies tail[i] != '=' by {
                assert(tail[i] == query[i + n + 1]);
            }
        }
        lemma_offset_of(head, '&');
        lemma_offset_of(head, '=');
        assert(offset_of(head, '&') == head.len());
        lemma_pairs_of_one(head);
        assert(parameter(head, key) is None);
        lemma_parameter_none(tail, key);
        lemma_parameter_joined(head, tail, key);
    }
}

} // verus!

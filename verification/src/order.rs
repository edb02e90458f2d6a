//! The ordering policy: which key a request sorts the trips by, and the
//! sorting itself.

use crate::query::{
    is_free_of, lemma_parameter_alone, lemma_parameter_joined, lemma_parameter_none, parameter,
    query_parameter,
};
use crate::record::{trip_views, Trip, TripView};
use crate::text::{
    lemma_text_le_reflexive, lemma_text_le_total, lemma_text_le_transitive, same_text, text_le,
    text_no_later,
};
use vstd::prelude::*;
use vstd::seq_lib::{to_multiset_contains, to_multiset_insert, to_multiset_remove};

verus! {

/// The field that the trips of a page are sorted by.
#[derive(Debug, Clone, Copy, PartialEq, Eq)]
pub enum SortKey {
    Waterway,
    County,
}

/// The key that a value of the `sort` parameter selects: `county` selects the
/// county, and every other value, like no value at all, the waterway.
pub open spec fn selected_key(sort: Option<Seq<char>>) -> SortKey {
    if sort == Some("county"@) {
        SortKey::County
    } else {
        SortKey::Waterway
    }
}

/// The key that the query string of a request selects.
pub open spec fn requested_key(query: Seq<char>) -> SortKey {
    selected_key(parameter(query, "sort"@))
}

/// The text of a trip that `key` sorts by.
pub open spec fn sort_text(trip: TripView, key: SortKey) -> Seq<char> {
    match key {
        SortKey::Waterway => trip.waterway,
        SortKey::County => trip.county,
    }
}

/// Whether `a` may stand before `b` where the trips are sorted by `key`.
pub open spec fn may_precede(a: TripView, b: TripView, key: SortKey) -> bool {
    text_le(sort_text(a, key), sort_text(b, key))
}

/// Whether the trips ascend by `key`. Trips with equal keys may stand in any
/// order.
pub open spec fn ordered(trips: Seq<TripView>, key: SortKey) -> bool {
    forall|i: int, j: int|
        0 <= i <= j < trips.len() ==> may_precede(#[trigger] trips[i], #[trigger] trips[j], key)
}

/// Whether `sorted` holds the trips of `trips`, each as often as it occurs
/// there, in ascending order of `key`.
pub open spec fn is_ordering_of(sorted: Seq<TripView>, trips: Seq<TripView>, key: SortKey) -> bool {
    &&& sorted.to_multiset() == trips.to_multiset()
    &&& ordered(sorted, key)
}

impl SortKey {
    /// The name under which a page reports this key.
    pub open spec fn label_text(self) -> Seq<char> {
        match self {
            SortKey::Waterway => "waterway"@,
            SortKey::County => "county"@,
        }
    }

    /// The name under which a page reports this key.
    pub fn label(&self) -> (r: &'static str)
        ensures
            r@ == self.label_text(),
    {
        match self {
            SortKey::Waterway => "waterway",
            SortKey::County => "county",
        }
    }

    /// The key that a value of the `sort` parameter selects.
    pub fn select(sort: Option<&str>) -> (r: SortKey)
        ensures
            r == selected_key(
                match sort {
                    Some(s) => Some(s@),
                    None => None,
                },
            ),
    {
        match sort {
            Some(s) => {
                if same_text(s, "county") {
                    SortKey::County
                } else {
                    SortKey::Waterway
                }
            },
            None => SortKey::Waterway,
        }
    }

    /// The key that the query string of a request selects.
    pub fn requested(query: &str) -> (r: SortKey)
        ensures
            r == requested_key(query@),
    {
        match query_parameter(query, "sort") {
            Some(value) => SortKey::select(Some(value.as_str())),
            None => SortKey::select(None),
        }
    }
}

/// The query string `sort=county` is the key `sort`, an `=` and the value
/// `county`, and neither of the two holds `&` or `=`.
proof fn lemma_sort_county_text()
    ensures
        "sort=county"@ == "sort"@ + seq!['='] + "county"@,
        is_free_of("sort"@, '&'),
        is_free_of("sort"@, '='),
        is_free_of("county"@, '&'),
        is_free_of("county"@, '='),
{
    reveal_strlit("sort=county");
    reveal_strlit("sort");
    reveal_strlit("county");
    assert("sort=county"@ =~= "sort"@ + seq!['='] + "county"@);
}

/// A request whose query string holds `sort=county` is sorted by county: be
/// it the whole query string, or preceded by other parameters, or followed
/// by parameters among which `sort` does not occur again.
pub proof fn lemma_county_requested(before: Seq<char>, after: Seq<char>)
    requires
        parameter(after, "sort"@) is None,
    ensures
        requested_key("sort=county"@) == SortKey::County,
        requested_key(before + seq!['&'] + "sort=county"@) == SortKey::County,
        requested_key("sort=county"@ + seq!['&'] + after) == SortKey::County,
        requested_key(before + seq!['&'] + "sort=county"@ + seq!['&'] + after) == SortKey::County,
{
    lemma_sort_county_text();
    lemma_parameter_alone("sort"@, "county"@);
    lemma_parameter_joined(before, "sort=county"@, "sort"@);
    lemma_parameter_joined("sort=county"@, after, "sort"@);
    lemma_parameter_joined(before + seq!['&'] + "sort=county"@, after, "sort"@);
}

/// A request is sorted by waterway where its query string holds no `=`, as
/// the empty one does, and where it is `sort=` followed by any value but
/// `county`.
pub proof fn lemma_waterway_requested(query: Seq<char>, value: Seq<char>)
    ensures
        is_free_of(query, '=') ==> requested_key(query) == SortKey::Waterway,
        value != "county"@ && is_free_of(value, '&') && is_free_of(value, '=') ==> requested_key(
            "sort"@ + seq!['='] + value,
        ) == SortKey::Waterway,
{
    lemma_sort_county_text();
    if is_free_of(query, '=') {
        lemma_parameter_none(query, "sort"@);
    }
    if is_free_of(value, '&') && is_free_of(value, '=') {
        lemma_parameter_alone("sort"@, value);
    }
}

/// Whether `a` may stand before `b` where the trips are sorted by `key`.
pub fn precedes(a: &Trip, b: &Trip, key: SortKey) -> (r: bool)
    ensures
        r == may_precede(a@, b@, key),
{
    match key {
        SortKey::Waterway => text_no_later(a.waterway.as_str(), b.waterway.as_str()),
        SortKey::County => text_no_later(a.county.as_str(), b.county.as_str()),
    }
}

/// Sorts the trips by `key`, ascending. The trips stay the same; among trips
/// with equal keys no order is promised.
pub fn sort_trips(trips: &mut Vec<Trip>, key: SortKey)
    ensures
        is_ordering_of(trip_views(final(trips)@), trip_views(old(trips)@), key),
{
    let mut i: usize = 0;
    proof {
        assert(trip_views(trips@).take(0) =~= Seq::empty());
    }
    while i < trips.len()
        invariant
            i <= trips@.len(),
            trip_views(trips@).to_multiset() == trip_views(old(trips)@).to_multiset(),
            ordered(trip_views(trips@).take(i as int), key),
        decreases trips@.len() - i,
    {
        let ghost before = trips@;
        let trip = trips.remove(i);
        let ghost rest = trips@;
        proof {
            assert(trip_views(rest) =~= trip_views(before).remove(i as int));
            to_multiset_remove(trip_views(before), i as int);
            assert(trip_views(rest).take(i as int) =~= trip_views(before).take(i as int));
        }
        let mut j: usize = i;
        while j > 0 && !precedes(&trips[j - 1], &trip, key)
            invariant
                j <= i <= trips@.len(),
                trips@ == rest,
                forall|k: int| j <= k < i ==> may_precede(trip@, #[trigger] trip_views(rest)[k], key),
            decreases j,
        {
            proof {
                lemma_text_le_total(sort_text(trip@, key), sort_text(rest[j - 1]@, key));
            }
            j -= 1;
        }
        trips.insert(j, trip);
        proof {
            let views = trip_views(rest);
            let placed = trip_views(trips@);
            assert(placed =~= views.insert(j as int, trip@));
            to_multiset_insert(views, j as int, trip@);
            assert(trip_views(before).to_multiset().count(trip@) > 0) by {
                assert(trip_views(before)[i as int] == trip@);
                to_multiset_contains(trip_views(before), trip@);
            }
            assert(placed.to_multiset() =~= trip_views(before).to_multiset());
            let prefix = placed.take(i + 1);
            assert forall|a: int, b: int| 0 <= a <= b < prefix.len() implies may_precede(
                #[trigger] prefix[a],
                #[trigger] prefix[b],
                key,
            ) by {
                let sorted = views.take(i as int);
                if a == b {
                    lemma_text_le_reflexive(sort_text(prefix[a], key));
                } else if b < j {
                    assert(prefix[a] == sorted[a] && prefix[b] == sorted[b]);
                } else if b == j {
                    assert(prefix[a] == sorted[a]);
                    assert(sorted[j - 1] == views[j - 1]);
                    assert(may_precede(sorted[a], sorted[j - 1], key));
                    lemma_text_le_transitive(
                        sort_text(sorted[a], key),
                        sort_text(sorted[j - 1], key),
                        sort_text(trip@, key),
                    );
                } else if a < j {
                    assert(prefix[a] == sorted[a] && prefix[b] == sorted[b - 1]);
                } else if a == j {
                    assert(prefix[b] == views[b - 1]);
                } else {
                    assert(prefix[a] == sorted[a - 1] && prefix[b] == sorted[b - 1]);
                }
            }
        }
        i += 1;
    }
    proof {
        assert(trip_views(trips@).take(i as int) =~= trip_views(trips@));
    }
}

} // verus!

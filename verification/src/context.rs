//! The render context: the name of the active sort key and the ordered
//! trips, and the form in which the template engine receives them.

use crate::engine::{
    context_entries, context_insert, field_shapes, list_value, new_context, number_value,
    record_value, text_value, value_shape, value_shapes, Shape,
};
use crate::order::{is_ordering_of, ordered, requested_key, sort_trips, SortKey};
use crate::query::parameter;
use crate::record::{optional_text, trip_views, Trip, TripView};
use vstd::prelude::*;

verus! {

/// What one page shows: the key that its trips are sorted by, and the trips,
/// ascending by that key.
#[derive(Debug)]
pub struct RenderContext {
    sort: SortKey,
    trips: Vec<Trip>,
}

/// The mathematical content of a [`RenderContext`].
pub ghost struct RenderContextView {
    pub sort: SortKey,
    pub trips: Seq<TripView>,
}

impl RenderContextView {
    /// The name of the active sort key, as the page reports it.
    pub open spec fn sort_type(self) -> Seq<char> {
        self.sort.label_text()
    }
}

impl View for RenderContext {
    type V = RenderContextView;

    closed spec fn view(&self) -> RenderContextView {
        RenderContextView { sort: self.sort, trips: trip_views(self.trips@) }
    }
}

/// The shape of a text that may be unknown.
pub open spec fn optional_shape(text: Option<Seq<char>>) -> Shape {
    match text {
        Some(s) => Shape::Text(s),
        None => Shape::Absent,
    }
}

/// The shape in which a template sees one trip: a record of its six fields.
pub open spec fn trip_shape(trip: TripView) -> Shape {
    Shape::Record(
        Map::empty().insert("id"@, Shape::Number(trip.id as nat)).insert(
            "waterway"@,
            Shape::Text(trip.waterway),
        ).insert("county"@, Shape::Text(trip.county)).insert(
            "start"@,
            Shape::Text(trip.start),
        ).insert("finish"@, optional_shape(trip.finish)).insert(
            "contributor"@,
            optional_shape(trip.contributor),
        ),
    )
}

/// The shapes of the trips, in their order.
pub open spec fn trip_shapes(trips: Seq<TripView>) -> Seq<Shape> {
    trips.map_values(|t: TripView| trip_shape(t))
}

/// The entries that the engine's context holds for a page: `sort_type`, the
/// name of the active sort key, and `trips`, the list of the trips.
pub open spec fn page_entries(context: RenderContextView) -> Map<Seq<char>, Shape> {
    Map::empty().insert("sort_type"@, Shape::Text(context.sort_type())).insert(
        "trips"@,
        Shape::List(trip_shapes(context.trips)),
    )
}

/// The text that a shape stands for, where it is a text.
pub open spec fn shape_text(shape: Shape) -> Option<Seq<char>> {
    match shape {
        Shape::Text(s) => Some(s),
        _ => None,
    }
}

/// Whether a shape is a text or stands for nothing.
pub open spec fn is_optional_text(shape: Shape) -> bool {
    shape is Text || shape is Absent
}

/// Whether a record has the fields of a trip, and no others, each of the
/// right kind.
pub open spec fn is_trip_record(fields: Map<Seq<char>, Shape>) -> bool {
    &&& fields.dom() =~= set![
        "id"@,
        "waterway"@,
        "county"@,
        "start"@,
        "finish"@,
        "contributor"@,
    ]
    &&& fields["id"@] matches Shape::Number(n) && n <= u32::MAX
    &&& fields["waterway"@] is Text
    &&& fields["county"@] is Text
    &&& fields["start"@] is Text
    &&& is_optional_text(fields["finish"@])
    &&& is_optional_text(fields["contributor"@])
}

/// The trip that a shape stands for, read back field by field.
pub open spec fn shape_trip(shape: Shape) -> Option<TripView> {
    match shape {
        Shape::Record(fields) => if is_trip_record(fields) {
            Some(
                TripView {
                    id: fields["id"@]->Number_0 as u32,
                    waterway: fields["waterway"@]->Text_0,
                    county: fields["county"@]->Text_0,
                    start: fields["start"@]->Text_0,
                    finish: shape_text(fields["finish"@]),
                    contributor: shape_text(fields["contributor"@]),
                },
            )
        } else {
            None
        },
        _ => None,
    }
}

/// The trips that a shape stands for, read back item by item: nothing unless
/// it is a list of trips.
pub open spec fn shape_trips(shape: Shape) -> Option<Seq<TripView>> {
    match shape {
        Shape::List(items) => if forall|i: int|
            0 <= i < items.len() ==> (#[trigger] shape_trip(items[i])) is Some {
            Some(items.map_values(|s: Shape| shape_trip(s)->Some_0))
        } else {
            None
        },
        _ => None,
    }
}

/// The names of a trip's fields differ from one another, and so do the two
/// names of a page's entries.
pub proof fn lemma_names_differ()
    ensures
        "id"@ != "waterway"@,
        "id"@ != "county"@,
        "id"@ != "start"@,
        "id"@ != "finish"@,
        "id"@ != "contributor"@,
        "waterway"@ != "county"@,
        "waterway"@ != "start"@,
        "waterway"@ != "finish"@,
        "waterway"@ != "contributor"@,
        "county"@ != "start"@,
        "county"@ != "finish"@,
        "county"@ != "contributor"@,
        "start"@ != "finish"@,
        "start"@ != "contributor"@,
        "finish"@ != "contributor"@,
        "sort_type"@ != "trips"@,
{
    reveal_strlit("id");
    reveal_strlit("waterway");
    reveal_strlit("county");
    reveal_strlit("start");
    reveal_strlit("finish");
    reveal_strlit("contributor");
    reveal_strlit("sort_type");
    reveal_strlit("trips");
    assert("id"@.len() == 2);
    assert("waterway"@.len() == 8);
    assert("county"@.len() == 6);
    assert("start"@.len() == 5);
    assert("finish"@.len() == 6);
    assert("contributor"@.len() == 11);
    assert("sort_type"@.len() == 9);
    assert("trips"@.len() == 5);
    assert("county"@[0] != "finish"@[0]);
}

/// Reading a trip back from its shape gives the trip.
pub proof fn lemma_trip_round_trip(trip: TripView)
    ensures
        shape_trip(trip_shape(trip)) == Some(trip),
{
    lemma_names_differ();
    let fields = trip_shape(trip)->Record_0;
    assert(is_trip_record(fields));
    let back = shape_trip(trip_shape(trip))->Some_0;
    assert(back.finish == trip.finish);
    assert(back.contributor == trip.contributor);
}

/// Reading the trips back from the `trips` entry of a page's context gives
/// the trips of the page: as many, in the same order, with every field as it
/// was. The `sort_type` entry is the name of the page's sort key.
pub proof fn lemma_context_round_trip(context: RenderContextView)
    ensures
        page_entries(context).dom() =~= set!["sort_type"@, "trips"@],
        shape_text(page_entries(context)["sort_type"@]) == Some(context.sort_type()),
        shape_trips(page_entries(context)["trips"@]) == Some(context.trips),
{
    lemma_names_differ();
    let items = trip_shapes(context.trips);
    assert forall|i: int| 0 <= i < items.len() implies #[trigger] shape_trip(items[i]) == Some(
        context.trips[i],
    ) by {
        lemma_trip_round_trip(context.trips[i]);
    }
    assert(items.map_values(|s: Shape| shape_trip(s)->Some_0) =~= context.trips);
}

/// Adding one more named value to a record adds its shape under its name.
proof fn lemma_field_shapes_push(fields: Seq<(String, tera::Value)>, name: String, value: tera::Value)
    ensures
        field_shapes(fields.push((name, value))) == field_shapes(fields).insert(
            name@,
            value_shape(value),
        ),
{
    let longer = fields.push((name, value));
    assert(longer.drop_last() =~= fields);
    assert(longer.last() == (name, value));
}

/// The engine value of a text that may be unknown.
fn optional_value(text: &Option<String>) -> (v: tera::Value)
    ensures
        value_shape(v) == optional_shape(optional_text(*text)),
{
    match text {
        Some(s) => text_value(Some(s.as_str())),
        None => text_value(None),
    }
}

/// The engine value of one trip.
pub fn trip_value(trip: &Trip) -> (v: tera::Value)
    ensures
        value_shape(v) == trip_shape(trip@),
{
    let mut fields: Vec<(String, tera::Value)> = Vec::new();
    let id = number_value(trip.id);
    let waterway = text_value(Some(trip.waterway.as_str()));
    let county = text_value(Some(trip.county.as_str()));
    let start = text_value(Some(trip.start.as_str()));
    let finish = optional_value(&trip.finish);
    let contributor = optional_value(&trip.contributor);
    proof {
        lemma_names_differ();
        assert(field_shapes(fields@) =~= Map::empty());
    }
    let name = "id".to_owned();
    proof {
        lemma_field_shapes_push(fields@, name, id);
    }
    fields.push((name, id));
    let name = "waterway".to_owned();
    proof {
        lemma_field_shapes_push(fields@, name, waterway);
    }
    fields.push((name, waterway));
    let name = "county".to_owned();
    proof {
        lemma_field_shapes_push(fields@, name, county);
    }
    fields.push((name, county));
    let name = "start".to_owned();
    proof {
        lemma_field_shapes_push(fields@, name, start);
    }
    fields.push((name, start));
    let name = "finish".to_owned();
    proof {
        lemma_field_shapes_push(fields@, name, finish);
    }
    fields.push((name, finish));
    let name = "contributor".to_owned();
    proof {
        lemma_field_shapes_push(fields@, name, contributor);
    }
    fields.push((name, contributor));
    record_value(fields)
}

/// The engine value of the trips: the list of their values, in their order.
pub fn trips_value(trips: &Vec<Trip>) -> (v: tera::Value)
    ensures
        value_shape(v) == Shape::List(trip_shapes(trip_views(trips@))),
{
    let ghost shapes = trip_shapes(trip_views(trips@));
    let mut items: Vec<tera::Value> = Vec::new();
    let mut i: usize = 0;
    proof {
        assert(value_shapes(items@) =~= shapes.take(0));
    }
    while i < trips.len()
        invariant
            i <= trips@.len(),
            shapes == trip_shapes(trip_views(trips@)),
            value_shapes(items@) == shapes.take(i as int),
        decreases trips@.len() - i,
    {
        let item = trip_value(&trips[i]);
        proof {
            assert(value_shapes(items@.push(item)) =~= value_shapes(items@).push(
                value_shape(item),
            ));
            assert(shapes.take(i + 1) =~= shapes.take(i as int).push(shapes[i as int]));
        }
        items.push(item);
        i += 1;
    }
    proof {
        assert(shapes.take(i as int) =~= shapes);
    }
    list_value(items)
}

impl RenderContext {
    #[verifier::type_invariant]
    spec fn ascending(self) -> bool {
        ordered(trip_views(self.trips@), self.sort)
    }

    /// The context of a page that shows the given trips sorted by `sort`.
    pub fn new(sort: SortKey, trips: Vec<Trip>) -> (context: RenderContext)
        ensures
            context@.sort == sort,
            is_ordering_of(context@.trips, trip_views(trips@), sort),
    {
        let mut trips = trips;
        sort_trips(&mut trips, sort);
        RenderContext { sort, trips }
    }

    /// The context of the page that answers a request with the given query
    /// string: the trips sorted by county where the `sort` parameter is
    /// `county`, and by waterway for every other query string.
    pub fn for_request(query: &str, trips: Vec<Trip>) -> (context: RenderContext)
        ensures
            context@.sort == requested_key(query@),
            is_ordering_of(context@.trips, trip_views(trips@), requested_key(query@)),
            parameter(query@, "sort"@) == Some("county"@) ==> context@.sort_type() == "county"@
                && ordered(context@.trips, SortKey::County),
            parameter(query@, "sort"@) != Some("county"@) ==> context@.sort_type() == "waterway"@
                && ordered(context@.trips, SortKey::Waterway),
    {
        RenderContext::new(SortKey::requested(query), trips)
    }

    /// The key that the trips are sorted by.
    pub fn sort(&self) -> (r: SortKey)
        ensures
            r == self@.sort,
    {
        self.sort
    }

    /// The name of the active sort key: `county` or `waterway`.
    pub fn sort_type(&self) -> (r: &'static str)
        ensures
            r@ == self@.sort_type(),
    {
        self.sort.label()
    }

    /// The trips, ascending by the active sort key.
    pub fn trips(&self) -> (r: &Vec<Trip>)
        ensures
            trip_views(r@) == self@.trips,
            ordered(self@.trips, self@.sort),
    {
        proof {
            use_type_invariant(self);
        }
        &self.trips
    }

    /// The engine's context for this page: the entry `sort_type` with the
    /// name of the sort key, and the entry `trips` with the trips.
    pub fn to_engine(&self) -> (c: tera::Context)
        ensures
            context_entries(c) == page_entries(self@),
    {
        let mut c = new_context();
        context_insert(&mut c, "sort_type", text_value(Some(self.sort.label())));
        context_insert(&mut c, "trips", trips_value(&self.trips));
        c
    }
}

} // verus!

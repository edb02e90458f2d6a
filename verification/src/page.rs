//! The page itself: the compiled template, the rendering of a context, the
//! framing of the response and the handling of one request.

use crate::context::RenderContext;
use crate::engine::{
    add_template, describe, new_engine, no_templates, render, template_accepted,
    template_sources,
};
use crate::order::{is_ordering_of, ordered, requested_key, SortKey};
use crate::query::parameter;
use crate::record::{
    decode_rows, decoded_all, is_decode_failure, row_views, FromRowError, RawRow,
};
use vstd::prelude::*;
use vstd::string::StringExecFns;

verus! {

/// The name under which the engine keeps the page's template.
pub const TEMPLATE_NAME: &'static str = "sorttemplate.htm";

/// The header of every response, with the empty line that ends it.
pub const RESPONSE_HEADER: &'static str = "Content-Type: text/html\n\n";

/// The template of the page. It reads `sort_type` and, of each item of
/// `trips`, the fields `id`, `waterway`, `county`, `start`, `finish` and
/// `contributor`.
pub const PAGE_TEMPLATE: &'static str = "<!DOCTYPE html>
<html>
<head>
<meta charset=\"utf-8\">
<title>Trips by {{ sort_type }}</title>
</head>
<body>
<h1>Trips</h1>
<p>Sorted by <b id=\"sort_type\">{{ sort_type }}</b>: <a href=\"?sort=waterway\">waterway</a> | <a href=\"?sort=county\">county</a></p>
<table>
<tr><th>Waterway</th><th>County</th><th>Start</th><th>Finish</th><th>Contributor</th></tr>
{% for trip in trips %}<tr id=\"trip-{{ trip.id }}\"><td class=\"waterway\">{{ trip.waterway }}</td><td class=\"county\">{{ trip.county }}</td><td class=\"start\">{{ trip.start }}</td><td class=\"finish\">{% if trip.finish %}{{ trip.finish }}{% endif %}</td><td class=\"contributor\">{% if trip.contributor %}{{ trip.contributor }}{% endif %}</td></tr>
{% endfor %}</table>
</body>
</html>
";

/// Why a template could not be compiled, in the engine's words.
#[derive(Debug, Clone, PartialEq, Eq)]
pub struct TemplateError {
    pub message: String,
}

/// Why a page could not be rendered, in the engine's words.
#[derive(Debug, Clone, PartialEq, Eq)]
pub struct RenderError {
    pub message: String,
}

/// Why a request got no response.
#[derive(Debug, Clone, PartialEq, Eq)]
pub enum PageError {
    /// A row could not be decoded.
    Decode(FromRowError),
    /// The engine could not render the page.
    Render(RenderError),
}

/// The page's template, compiled once and then only read: an engine that
/// holds one template, that of the page, under [`TEMPLATE_NAME`].
pub struct PageTemplate {
    engine: tera::Tera,
}

/// The text of a response with the given body: the header line, an empty
/// line, and the body.
pub open spec fn response_text(body: Seq<char>) -> Seq<char> {
    RESPONSE_HEADER@ + body
}

/// The text of a response with the given body.
pub fn response(body: &str) -> (r: String)
    ensures
        r@ == response_text(body@),
{
    let mut text = RESPONSE_HEADER.to_owned();
    text.append(body);
    text
}

/// What the engine's answer to a compilation means for the caller: the
/// template with the engine that now holds it, or the engine's reason.
fn compiled(engine: tera::Tera, outcome: Result<(), tera::Error>) -> (r: Result<
    PageTemplate,
    TemplateError,
>)
    requires
        outcome is Ok ==> template_sources(engine).dom() == set![TEMPLATE_NAME@],
    ensures
        r is Ok <==> outcome is Ok,
        r is Ok ==> r->Ok_0.sources() == template_sources(engine),
{
    match outcome {
        Ok(()) => Ok(PageTemplate { engine }),
        Err(e) => Err(TemplateError { message: describe(&e) }),
    }
}

/// What the engine's answer to a rendering means for the caller: the body,
/// or the engine's reason.
fn rendered(outcome: Result<String, tera::Error>) -> (r: Result<String, RenderError>)
    ensures
        match outcome {
            Ok(body) => r == Ok::<String, RenderError>(body),
            Err(_) => r is Err,
        },
{
    match outcome {
        Ok(body) => Ok(body),
        Err(e) => Err(RenderError { message: describe(&e) }),
    }
}

/// The outcome of a request, given the outcome of rendering its page: the
/// framed body, or the rendering's error.
pub fn respond(page: Result<String, RenderError>) -> (r: Result<String, PageError>)
    ensures
        match page {
            Ok(body) => r is Ok && r->Ok_0@ == response_text(body@),
            Err(e) => r == Err::<String, PageError>(PageError::Render(e)),
        },
{
    match page {
        Ok(body) => Ok(response(body.as_str())),
        Err(e) => Err(PageError::Render(e)),
    }
}

impl PageTemplate {
    #[verifier::type_invariant]
    spec fn holds_the_page(self) -> bool {
        template_sources(self.engine).dom() == set![TEMPLATE_NAME@]
    }

    /// The templates that the engine of this template holds: for each name,
    /// the source that the template was made from.
    pub closed spec fn sources(&self) -> Map<Seq<char>, Seq<char>> {
        template_sources(self.engine)
    }

    /// Compiles the source of the page's template. It succeeds exactly where
    /// an engine that holds no template yet takes the source under
    /// [`TEMPLATE_NAME`]. The result is then that engine, which now holds
    /// one template: this source, under that name.
    pub fn compile(source: &str) -> (r: Result<PageTemplate, TemplateError>)
        ensures
            exists|fresh: tera::Tera|
                template_sources(fresh) == no_templates() && (r is Ok <==> template_accepted(
                    fresh,
                    TEMPLATE_NAME@,
                    source@,
                )),
            r is Ok ==> r->Ok_0.sources() == no_templates().insert(TEMPLATE_NAME@, source@),
    {
        let mut engine = new_engine();
        let ghost fresh = engine;
        let outcome = add_template(&mut engine, TEMPLATE_NAME, source);
        proof {
            assert(no_templates().insert(TEMPLATE_NAME@, source@).dom() =~= set![TEMPLATE_NAME@]);
        }
        let r = compiled(engine, outcome);
        proof {
            assert(template_sources(fresh) == no_templates() && (r is Ok <==> template_accepted(
                fresh,
                TEMPLATE_NAME@,
                source@,
            )));
        }
        r
    }

    /// Renders the page for a context. The engine is handed the entries of
    /// [`RenderContext::to_engine`]; what it makes of them, a body or an
    /// error, is the engine's to say.
    pub fn render(&self, context: &RenderContext) -> (r: Result<String, RenderError>) {
        let entries = context.to_engine();
        rendered(render(&self.engine, TEMPLATE_NAME, &entries))
    }
}

/// The context of the page that answers a request: the rows that the fetch
/// brought, decoded and sorted by the key that the query string asks for.
///
/// A row that cannot be decoded ends the request with the error of the first
/// such row, which holds the row and the reason. Otherwise the context names
/// `county` and holds the trips in ascending order of their counties where
/// the `sort` parameter is `county`, and names `waterway` and holds them in
/// ascending order of their waterways for every other query string.
pub fn page_context(query: &str, rows: Vec<RawRow>) -> (r: Result<RenderContext, FromRowError>)
    ensures
        match decoded_all(row_views(rows@)) {
            Err(_) => r is Err && is_decode_failure(rows@, r->Err_0),
            Ok(trips) => {
                &&& r is Ok
                &&& r->Ok_0@.sort == requested_key(query@)
                &&& is_ordering_of(r->Ok_0@.trips, trips, requested_key(query@))
                &&& parameter(query@, "sort"@) == Some("county"@) ==> r->Ok_0@.sort_type()
                    == "county"@ && ordered(r->Ok_0@.trips, SortKey::County)
                &&& parameter(query@, "sort"@) != Some("county"@) ==> r->Ok_0@.sort_type()
                    == "waterway"@ && ordered(r->Ok_0@.trips, SortKey::Waterway)
            },
        },
{
    match decode_rows(rows) {
        Err(e) => Err(e),
        Ok(trips) => Ok(RenderContext::for_request(query, trips)),
    }
}

/// Handles one request: decodes the rows that the fetch brought, sorts the
/// trips by the key that the query string asks for, renders the page and
/// frames it as a response.
///
/// A row that cannot be decoded ends the request with the error of the first
/// such row, which holds the row and the reason. Otherwise the outcome is
/// that of the rendering: a response with the rendered body, or the
/// rendering's error.
pub fn sort_page_handler(query: &str, rows: Vec<RawRow>, template: &PageTemplate) -> (r: Result<
    String,
    PageError,
>)
    ensures
        match decoded_all(row_views(rows@)) {
            Err(_) => r matches Err(PageError::Decode(e)) && is_decode_failure(rows@, e),
            Ok(_) => match r {
                Ok(text) => exists|body: Seq<char>| text@ == response_text(body),
                Err(e) => e is Render,
            },
        },
{
    match page_context(query, rows) {
        Err(e) => Err(PageError::Decode(e)),
        Ok(context) => {
            let page = template.render(&context);
            let ghost body = page;
            let r = respond(page);
            proof {
                if body is Ok {
                    assert(r->Ok_0@ == response_text(body->Ok_0@));
                }
            }
            r
        },
    }
}

} // verus!

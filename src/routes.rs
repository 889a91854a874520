//! The agent's index page, listing the routes it serves, and its health text.

use vstd::prelude::*;
use vstd::string::*;

verus! {

/// The start of the index page, up to the routes section.
pub const PAGE_HEAD: &'static str = r#"
    <!DOCTYPE html>
    <html>
    <head>
        <title>OmniAgent</title>
        <style>
            :root {
                --bg-color: #f8f9fa;
                --container-bg: #ffffff;
                --text-color: #333333;
                --heading-color: #2c3e50;
                --border-color: #3498db;
                --secondary-text: #555555;
                --shadow-color: rgba(0,0,0,0.1);
                --get-color: #61affe;
                --post-color: #49cc90;
                --put-color: #fca130;
                --delete-color: #f93e3e;
            }
            
            @media (prefers-color-scheme: dark) {
                :root {
                    --bg-color: #121212;
                    --container-bg: #1e1e1e;
                    --text-color: #e0e0e0;
                    --heading-color: #81a1c1;
                    --border-color: #5e81ac;
                    --secondary-text: #c0c0c0;
                    --shadow-color: rgba(0,0,0,0.3);
                }
            }
            
            body {
                font-family: 'Inter', system-ui, -apple-system, sans-serif;
                line-height: 1.7;
                max-width: 800px;
                margin: 0 auto;
                padding: 2.5rem;
                color: var(--text-color);
                background-color: var(--bg-color);
                transition: background-color 0.3s, color 0.3s;
            }
            
            h1, h2 {
                color: var(--heading-color);
                margin-top: 0;
                font-weight: 600;
            }
            
            h1 {
                border-bottom: 2px solid var(--border-color);
                padding-bottom: 0.7rem;
            }
            
            p {
                font-size: 1.1rem;
                color: var(--secondary-text);
                margin-bottom: 1.5rem;
            }
            
            .container {
                background-color: var(--container-bg);
                border-radius: 12px;
                padding: 2.5rem;
                box-shadow: 0 4px 20px var(--shadow-color);
                margin-bottom: 1.5rem;
            }
            
            .routes-section {
                background-color: var(--container-bg);
                border-radius: 12px;
                padding: 2rem;
                box-shadow: 0 4px 20px var(--shadow-color);
            }
            
            .routes-table {
                width: 100%;
                border-collapse: collapse;
                margin-top: 1rem;
            }
            
            .routes-table th, .routes-table td {
                padding: 0.75rem;
                text-align: left;
                border-bottom: 1px solid var(--border-color);
            }
            
            .routes-table th {
                font-weight: 600;
            }
            
            .method {
                font-weight: bold;
                padding: 0.25rem 0.5rem;
                border-radius: 4px;
                display: inline-block;
                text-align: center;
            }
            
            .method-get { background-color: var(--get-color); color: white; }
            .method-post { background-color: var(--post-color); color: white; }
            .method-put { background-color: var(--put-color); color: white; }
            .method-delete { background-color: var(--delete-color); color: white; }
        </style>
    </head>
    <body>
        <div class="container">
            <h1>Welcome to OmniAgent</h1>
            <p>OmniAgent is a lightweight agent for managing Docker containers. Please refer to the API documentation for the agent to get started!</p>
        </div>
        
        "#;

/// The end of the index page, after the routes section.
pub const PAGE_TAIL: &'static str = r#"
    </body>
    </html>
    "#;

/// The start of the routes section, up to the first row.
pub const ROUTES_HEAD: &'static str = r#"<div class="routes-section">
        <h2>Available Routes</h2>
        <table class="routes-table">
            <thead>
                <tr>
                    <th>Method</th>
                    <th>Path</th>
                    <th>Format</th>
                </tr>
            </thead>
            <tbody>
    "#;

/// The end of the routes section, after the last row.
pub const ROUTES_FOOT: &'static str = r#"
            </tbody>
        </table>
    </div>"#;

/// A row starts here and continues with the method's lower-case name.
pub const ROW_START: &'static str = r#"
            <tr>
                <td class="method method-"#;

/// Between the method's lower-case name and its name.
pub const ROW_METHOD: &'static str = r#"">"#;

/// Between two cells of a row.
pub const ROW_CELL: &'static str = r#"</td>
                <td>"#;

/// The end of a row.
pub const ROW_END: &'static str = r#"</td>
            </tr>
        "#;

/// The format cell of a route that accepts any format.
pub const ANY_FORMAT: &'static str = "any";

/// The text of the health check.
pub const HEALTHY: &'static str = "App Manager is healthy";

/// The HTTP method of a route.
#[derive(Clone, Copy, PartialEq, Eq, Structural)]
pub enum HttpMethod {
    Get,
    Post,
    Put,
    Delete,
    Options,
    Head,
    Patch,
    Other,
}

/// The name under which a method is listed.
pub open spec fn method_name(m: HttpMethod) -> Seq<char> {
    match m {
        HttpMethod::Get => "GET"@,
        HttpMethod::Post => "POST"@,
        HttpMethod::Put => "PUT"@,
        HttpMethod::Delete => "DELETE"@,
        HttpMethod::Options => "OPTIONS"@,
        HttpMethod::Head => "HEAD"@,
        HttpMethod::Patch => "PATCH"@,
        HttpMethod::Other => "OTHER"@,
    }
}

/// The lower-case name of a method, used in its style class.
pub open spec fn method_class(m: HttpMethod) -> Seq<char> {
    match m {
        HttpMethod::Get => "get"@,
        HttpMethod::Post => "post"@,
        HttpMethod::Put => "put"@,
        HttpMethod::Delete => "delete"@,
        HttpMethod::Options => "options"@,
        HttpMethod::Head => "head"@,
        HttpMethod::Patch => "patch"@,
        HttpMethod::Other => "other"@,
    }
}

impl HttpMethod {
    /// The name under which the method is listed.
    pub fn name(&self) -> (r: &'static str)
        ensures
            r@ == method_name(*self),
    {
        match self {
            HttpMethod::Get => "GET",
            HttpMethod::Post => "POST",
            HttpMethod::Put => "PUT",
            HttpMethod::Delete => "DELETE",
            HttpMethod::Options => "OPTIONS",
            HttpMethod::Head => "HEAD",
            HttpMethod::Patch => "PATCH",
            HttpMethod::Other => "OTHER",
        }
    }

    /// The lower-case name of the method.
    pub fn class(&self) -> (r: &'static str)
        ensures
            r@ == method_class(*self),
    {
        match self {
            HttpMethod::Get => "get",
            HttpMethod::Post => "post",
            HttpMethod::Put => "put",
            HttpMethod::Delete => "delete",
            HttpMethod::Options => "options",
            HttpMethod::Head => "head",
            HttpMethod::Patch => "patch",
            HttpMethod::Other => "other",
        }
    }
}

/// A route that the agent serves: its method, path and accepted format
/// (`None` for any).
pub struct RouteInfo {
    pub method: HttpMethod,
    pub path: String,
    pub format: Option<String>,
}

/// The format cell of a route.
pub open spec fn format_text(r: RouteInfo) -> Seq<char> {
    match r.format {
        Some(f) => f@,
        None => ANY_FORMAT@,
    }
}

/// The table row of one route.
pub open spec fn route_row(r: RouteInfo) -> Seq<char> {
    ROW_START@ + method_class(r.method) + ROW_METHOD@ + method_name(r.method) + ROW_CELL@ + r.path@
        + ROW_CELL@ + format_text(r) + ROW_END@
}

/// The rows of the routes, in order.
pub open spec fn route_rows(rs: Seq<RouteInfo>) -> Seq<char>
    decreases rs.len(),
{
    if rs.len() == 0 {
        Seq::empty()
    } else {
        route_rows(rs.drop_last()) + route_row(rs.last())
    }
}

/// The routes section of the index page.
pub open spec fn routes_section(rs: Seq<RouteInfo>) -> Seq<char> {
    ROUTES_HEAD@ + route_rows(rs) + ROUTES_FOOT@
}

fn push_row(out: &mut String, r: &RouteInfo)
    ensures
        final(out)@ == old(out)@ + route_row(*r),
{
    out.append(ROW_START);
    out.append(r.method.class());
    out.append(ROW_METHOD);
    out.append(r.method.name());
    out.append(ROW_CELL);
    out.append(r.path.as_str());
    out.append(ROW_CELL);
    match &r.format {
        Some(f) => out.append(f.as_str()),
        None => out.append(ANY_FORMAT),
    }
    out.append(ROW_END);
    assert(final(out)@ =~= old(out)@ + route_row(*r));
}

/// The routes section of the index page: a table with one row per route, in order.
pub fn generate_routes_html(routes: &[RouteInfo]) -> (r: String)
    ensures
        r@ == routes_section(routes@),
{
    let mut out = String::from_str(ROUTES_HEAD);
    let mut i: usize = 0;
    assert(routes@.take(0) =~= Seq::<RouteInfo>::empty());
    while i < routes.len()
        invariant
            i <= routes@.len(),
            out@ == ROUTES_HEAD@ + route_rows(routes@.take(i as int)),
        decreases routes@.len() - i,
    {
        push_row(&mut out, &routes[i]);
        assert(routes@.take(i + 1).drop_last() =~= routes@.take(i as int));
        i = i + 1;
    }
    assert(routes@.take(i as int) =~= routes@);
    out.append(ROUTES_FOOT);
    out
}

/// The index page: a welcome text and the table of the routes served.
pub fn index(routes: &[RouteInfo]) -> (r: String)
    ensures
        r@ == PAGE_HEAD@ + routes_section(routes@) + PAGE_TAIL@,
{
    let mut out = String::from_str(PAGE_HEAD);
    let section = generate_routes_html(routes);
    out.append(section.as_str());
    out.append(PAGE_TAIL);
    out
}

/// The health check text.
pub fn health_check() -> (r: String)
    ensures
        r@ == HEALTHY@,
{
    String::from_str(HEALTHY)
}

} // verus!

use omni_agent::routes::{generate_routes_html, health_check, index, HttpMethod, RouteInfo};

fn route(method: HttpMethod, path: &str, format: Option<&str>) -> RouteInfo {
    RouteInfo { method, path: path.to_string(), format: format.map(|f| f.to_string()) }
}

#[test]
fn health_text() {
    assert_eq!(health_check(), "App Manager is healthy");
}

#[test]
fn routes_table_rows() {
    let routes = vec![
        route(HttpMethod::Get, "/health", None),
        route(HttpMethod::Post, "/instances", Some("application/json")),
    ];
    let html = generate_routes_html(&routes);
    assert!(html.starts_with("<div class=\"routes-section\">"));
    assert!(html.ends_with("</tbody>\n        </table>\n    </div>"));
    assert!(html.contains("<td class=\"method method-get\">GET</td>\n                <td>/health</td>\n                <td>any</td>"));
    assert!(html.contains("<td class=\"method method-post\">POST</td>\n                <td>/instances</td>\n                <td>application/json</td>"));
    assert!(html.find("/health").unwrap() < html.find("/instances").unwrap());
}

#[test]
fn routes_table_empty() {
    let html = generate_routes_html(&[]);
    assert!(!html.contains("<tr>\n                <td"));
    assert!(html.contains("<th>Method</th>"));
}

#[test]
fn method_names() {
    let all = [
        (HttpMethod::Get, "GET", "get"),
        (HttpMethod::Post, "POST", "post"),
        (HttpMethod::Put, "PUT", "put"),
        (HttpMethod::Delete, "DELETE", "delete"),
        (HttpMethod::Options, "OPTIONS", "options"),
        (HttpMethod::Head, "HEAD", "head"),
        (HttpMethod::Patch, "PATCH", "patch"),
        (HttpMethod::Other, "OTHER", "other"),
    ];
    for (m, name, class) in all {
        assert_eq!(m.name(), name);
        assert_eq!(m.class(), class);
    }
}

#[test]
fn index_page_wraps_routes() {
    let routes = vec![route(HttpMethod::Delete, "/instances/<id>", None)];
    let page = index(&routes);
    assert!(page.contains("<title>OmniAgent</title>"));
    assert!(page.contains(":root {\n                --bg-color: #f8f9fa;"));
    assert!(page.contains(&generate_routes_html(&routes)));
    assert!(page.trim_end().ends_with("</html>"));
}

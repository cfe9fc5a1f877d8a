use storage_gateway::config::{default_gateway_port, default_management_port, AppConfig};
use storage_gateway::domain::{is_allow_domain, is_pattern_match, split_at_dots};
use storage_gateway::key::get_object_key;
use storage_gateway::request::get_host;
use storage_gateway::service::{ManagementService, Reply};

fn domains(list: &[&str]) -> Vec<String> {
    list.iter().map(|d| d.to_string()).collect()
}

fn key(path: &str, root: Option<&str>, subdir: Option<&str>) -> Option<String> {
    get_object_key(path, &root.map(|s| s.to_string()), &subdir.map(|s| s.to_string()))
}

#[test]
fn test_get_host() {
    assert_eq!(get_host("example.com").unwrap(), "example.com");
    assert_eq!(get_host("example.com:8080").unwrap(), "example.com");
}

#[test]
fn test_get_object_key() {
    assert_eq!(key("/", None, None), None);
    assert_eq!(key("/", Some("index.html"), None), Some("index.html".to_string()));
    assert_eq!(key("/", None, Some("index.html")), None);
    assert_eq!(key("/dir", None, None), Some("dir".to_string()));
    assert_eq!(key("/dir", Some("index.html"), None), Some("dir".to_string()));
    assert_eq!(key("/dir", None, Some("index.html")), Some("dir/index.html".to_string()));
}

#[test]
fn test_handle_self() {
    let svc = ManagementService;
    let res = svc.route(true, "/health");
    assert!(matches!(res, Reply::Plain(200)));
    assert_eq!(res.status(), 200);

    let res = svc.route(true, "/foo");
    assert_eq!(res.status(), 404);
}

#[test]
fn health_needs_get() {
    assert_eq!(ManagementService.route(false, "/health").status(), 404);
}

#[test]
fn get_host_empty_is_none() {
    assert_eq!(get_host(""), None);
    assert_eq!(get_host(":80"), None);
    assert_eq!(get_host("a:b:c").unwrap(), "a");
}

#[test]
fn key_of_directory_with_trailing_slash() {
    assert_eq!(key("/dir/", None, Some("index.html")), Some("dir/index.html".to_string()));
    assert_eq!(key("/dir/", None, None), Some("dir/".to_string()));
    assert_eq!(key("/a/b/", None, Some("index.html")), Some("a/b/index.html".to_string()));
}

#[test]
fn key_of_file_keeps_the_stem() {
    assert_eq!(key("/index.html", Some("root.html"), Some("index.html")), Some("index.html".to_string()));
    assert_eq!(key("/a/b/c.txt", None, Some("index.html")), Some("a/b/c.txt".to_string()));
}

#[test]
fn key_looks_at_the_last_segment_only() {
    assert_eq!(key("/v1.2/docs", None, Some("index.html")), Some("v1.2/docs/index.html".to_string()));
    assert_eq!(key("/v1.2/docs", None, None), Some("v1.2/docs".to_string()));
}

#[test]
fn key_of_empty_path_is_the_root_object() {
    assert_eq!(key("", None, Some("index.html")), None);
    assert_eq!(key("", Some("index.html"), None), Some("index.html".to_string()));
}

#[test]
fn exact_pattern_matches_only_itself() {
    assert!(is_allow_domain(&domains(&["foo.example.com"]), "foo.example.com"));
    assert!(!is_allow_domain(&domains(&["foo.example.com"]), "bar.example.com"));
    assert!(!is_allow_domain(&domains(&["foo.example.com"]), "foo.example.co"));
    assert!(!is_allow_domain(&domains(&["foo.example.com"]), "xfoo.example.com"));
    assert!(!is_allow_domain(&domains(&["foo.example.com"]), "Foo.example.com"));
}

#[test]
fn wildcard_matches_one_label() {
    let list = domains(&["*.example.com"]);
    assert!(is_allow_domain(&list, "foo.example.com"));
    assert!(is_allow_domain(&list, "a-b.example.com"));
    assert!(!is_allow_domain(&list, "example.com"));
    assert!(!is_allow_domain(&list, "a.b.example.com"));
    assert!(!is_allow_domain(&list, "bar.example.net"));
    assert!(!is_allow_domain(&list, "foo.bar.example.net"));
    assert!(!is_allow_domain(&list, ".example.com"));
    assert!(!is_allow_domain(&list, "-a.example.com"));
    assert!(!is_allow_domain(&list, "a--b.example.com"));
}

#[test]
fn wildcard_with_subdomain() {
    assert!(is_allow_domain(&domains(&["*.bar.example.com"]), "foo.bar.example.com"));
    assert!(!is_allow_domain(&domains(&["*.bar.example.com"]), "bar.example.com"));
}

#[test]
fn malformed_patterns_match_nothing() {
    assert!(!is_allow_domain(&domains(&["*example.com"]), "foo.example.com"));
    assert!(!is_allow_domain(&domains(&["*example.com"]), "*example.com"));
    assert!(!is_allow_domain(&domains(&["*.*.example.com"]), "foo.bar.example.com"));
    assert!(!is_allow_domain(&domains(&["*.*.example.com"]), "*.*.example.com"));
    assert!(!is_allow_domain(&domains(&["hoge.example.*"]), "foo.example.net"));
    assert!(!is_allow_domain(&domains(&["hoge.example.*"]), "hoge.example.net"));
    assert!(!is_allow_domain(&domains(&["localhost"]), "localhost"));
    assert!(!is_allow_domain(&domains(&["example.c0m"]), "example.c0m"));
    assert!(!is_allow_domain(&domains(&["*"]), "foo"));
}

#[test]
fn any_pattern_of_the_list_may_match() {
    let list = domains(&["*.example.com", "bar.*.*", "bar.*.net", "*"]);
    assert!(is_allow_domain(&list, "foo.example.com"));
    assert!(!is_allow_domain(&list, "bar.example.net"));
    assert!(!is_allow_domain(&domains(&[]), "foo.example.com"));
}

#[test]
fn pattern_match_single() {
    assert!(is_pattern_match("*.example.com", "x1.example.com"));
    assert!(!is_pattern_match("*.example.com", "x_1.example.com"));
}

#[test]
fn split_keeps_empty_labels() {
    let chars: Vec<char> = "a..b.".chars().collect();
    let labels = split_at_dots(&chars);
    assert_eq!(labels, vec![vec!['a'], vec![], vec!['b'], vec![]]);
}

#[test]
fn config_defaults() {
    assert_eq!(default_gateway_port(), 80);
    assert_eq!(default_management_port(), 8080);
    let c = AppConfig::new(domains(&["*.example.com"]), None, None, None, None, None, None);
    assert_eq!(c.gateway_port, 80);
    assert_eq!(c.management_port, 8080);
    assert!(!c.allow_cross_account);
    assert_eq!(c.allow_domains, domains(&["*.example.com"]));
    let c = AppConfig::new(vec![], Some("i.html".to_string()), None, None, Some(true), Some(8000), Some(9000));
    assert_eq!(c.gateway_port, 8000);
    assert_eq!(c.management_port, 9000);
    assert!(c.allow_cross_account);
    assert_eq!(c.root_object.as_deref(), Some("i.html"));
}

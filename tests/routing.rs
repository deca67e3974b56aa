use loony::params::Params;
use loony::radix::{RadixRouter, RouteError};
use loony::router::{AllRouteServices, Router, Scope};

fn templates(list: &[&str]) -> Vec<String> {
    list.iter().map(|s| s.to_string()).collect()
}

fn demo_router() -> RadixRouter {
    let t = templates(&["/", "/user/all", "/user/get/:user_id", "/user/get/:user_id/:user_name"]);
    match RadixRouter::build(&t) {
        Ok(r) => r,
        Err(_) => panic!("the demo routes do not clash"),
    }
}

#[test]
fn round_trip_root() {
    let r = demo_router();
    let (h, params) = r.find_route("/").unwrap();
    assert_eq!(h, 0);
    assert!(params.is_empty());
    assert_eq!(params.len(), 0);
}

#[test]
fn round_trip_one_param() {
    let r = demo_router();
    let (h, params) = r.find_route("/user/get/42").unwrap();
    assert_eq!(h, 2);
    assert_eq!(params.len(), 1);
    assert_eq!(params.get("user_id").unwrap(), "42");
}

#[test]
fn round_trip_two_params() {
    let r = demo_router();
    let (h, params) = r.find_route("/user/get/42/john-doe").unwrap();
    assert_eq!(h, 3);
    assert_eq!(params.len(), 2);
    assert_eq!(params.get("user_id").unwrap(), "42");
    assert_eq!(params.get("user_name").unwrap(), "john-doe");
}

#[test]
fn round_trip_missing_param_is_no_match() {
    let r = demo_router();
    assert!(r.find_route("/user/get").is_none());
}

#[test]
fn round_trip_extra_segments_are_no_match() {
    let r = demo_router();
    assert!(r.find_route("/user/get/42/extra/segment").is_none());
}

#[test]
fn literal_wins_over_parameter() {
    let t = templates(&["/user/:id", "/user/all"]);
    let r = RadixRouter::build(&t).ok().unwrap();
    let (h, params) = r.find_route("/user/all").unwrap();
    assert_eq!(h, 1);
    assert!(params.is_empty());
    let (h, params) = r.find_route("/user/7").unwrap();
    assert_eq!(h, 0);
    assert_eq!(params.get("id").unwrap(), "7");
}

#[test]
fn no_fallback_to_shorter_route() {
    let t = templates(&["/user", "/user/:id"]);
    let r = RadixRouter::build(&t).ok().unwrap();
    assert_eq!(r.find_route("/user").unwrap().0, 0);
    assert_eq!(r.find_route("/user/5").unwrap().0, 1);
    assert!(r.find_route("/user/5/more").is_none());
    assert!(r.find_route("/other").is_none());
}

#[test]
fn backtracking_undoes_bindings() {
    // "/a/:x/c" fails at the third segment, so "/:y/b/d" is the match and
    // the binding of x must not survive.
    let t = templates(&["/a/:x/c", "/:y/b/d"]);
    let r = RadixRouter::build(&t).ok().unwrap();
    let (h, params) = r.find_route("/a/b/d").unwrap();
    assert_eq!(h, 1);
    assert_eq!(params.len(), 1);
    assert_eq!(params.get("y").unwrap(), "a");
    assert!(params.get("x").is_none());
}

#[test]
fn slashes_are_ignored_at_the_edges() {
    let r = demo_router();
    assert_eq!(r.find_route("//user//all/").unwrap().0, 1);
    assert_eq!(r.find_route("").unwrap().0, 0);
}

#[test]
fn conflicting_parameter_names_fail() {
    let t = templates(&["/user/:id", "/user/:name/x"]);
    assert!(matches!(RadixRouter::build(&t), Err(RouteError::ConflictingParameterName)));
    let mut r = RadixRouter::new();
    assert!(r.add_route("/user/:id", 0).is_ok());
    assert!(r.add_route("/user/:name", 1).is_err());
    // the table is as it was
    let (h, params) = r.find_route("/user/3").unwrap();
    assert_eq!(h, 0);
    assert_eq!(params.get("id").unwrap(), "3");
}

#[test]
fn same_parameter_name_is_shared() {
    let t = templates(&["/user/:id", "/user/:id/posts"]);
    let r = RadixRouter::build(&t).ok().unwrap();
    assert_eq!(r.find_route("/user/9/posts").unwrap().0, 1);
}

#[test]
fn duplicate_template_last_wins() {
    let t = templates(&["/a", "/a"]);
    let r = RadixRouter::build(&t).ok().unwrap();
    assert_eq!(r.find_route("/a").unwrap().0, 1);
}

#[test]
fn empty_table_finds_nothing() {
    let r = RadixRouter::new();
    assert!(r.find_route("/").is_none());
    assert!(r.find_route("/x").is_none());
}

#[test]
fn route_services_lookup() {
    let mut s: AllRouteServices<&str> = AllRouteServices::new();
    assert!(s.add_route("/", "index").is_ok());
    assert!(s.add_route("/user/get/:user_id", "get_user").is_ok());
    assert!(s.add_route("/user/get/:other", "clash").is_err());
    let (svc, params) = s.find_route("/user/get/12").unwrap();
    assert_eq!(*svc, "get_user");
    assert_eq!(params.get("user_id").unwrap(), "12");
    assert_eq!(*s.find_route("/").unwrap().0, "index");
    assert!(s.find_route("/nothing").is_none());
}

#[test]
fn params_insert_remove() {
    let mut p = Params::new();
    assert!(p.insert("a".to_string(), "1".to_string()).is_none());
    assert_eq!(p.insert("a".to_string(), "2".to_string()).unwrap(), "1");
    assert_eq!(p.len(), 1);
    assert_eq!(p.get("a").unwrap(), "2");
    assert_eq!(p.remove("a").unwrap(), "2");
    assert!(p.remove("a").is_none());
    assert!(p.is_empty());
}

#[test]
fn router_with_scope_builds_table() {
    let table = Router::new()
        .route("/", "index")
        .service(
            Scope::new("/user")
                .route("/all", "users")
                .route("/get/:user_id", "get_user")
                .route("/delete/:user_id", "delete_user"),
        )
        .into_table()
        .ok()
        .unwrap();
    assert_eq!(*table.find_route("/").unwrap().0, "index");
    assert_eq!(*table.find_route("/user/all").unwrap().0, "users");
    let (svc, params) = table.find_route("/user/delete/3").unwrap();
    assert_eq!(*svc, "delete_user");
    assert_eq!(params.get("user_id").unwrap(), "3");
    assert!(table.find_route("/all").is_none());
}

#[test]
fn router_clash_fails() {
    let r = Router::new().service(Scope::new("/u").route("/:a", 1).route("/:b/x", 2)).into_table();
    assert!(matches!(r, Err(RouteError::ConflictingParameterName)));
}

#[test]
fn router_later_route_wins() {
    let table = Router::new().route("/a", 1).route("/a/", 2).into_table().ok().unwrap();
    assert_eq!(*table.find_route("/a").unwrap().0, 2);
}

#[test]
fn add_route_one_by_one_succeeds_without_clashes() {
    let list = ["/", "/user/all", "/user/get/:user_id", "/user/get/:user_id/:user_name", "/user/:id/x"];
    let mut r = RadixRouter::new();
    for (i, t) in list.iter().enumerate() {
        assert!(r.add_route(t, i).is_ok(), "template {}", t);
    }
    assert_eq!(r.find_route("/user/get/1/ann").unwrap().0, 3);
    assert_eq!(r.find_route("/user/7/x").unwrap().0, 4);
    assert!(r.add_route("/user/:uid", 9).is_err());
}

use topaz::location::{Field, HostSetter, Location, LocationData};

fn session(href: &str, hash: &str) -> Location {
    Location::from_host(
        href.to_string(),
        "https:".to_string(),
        "/x".to_string(),
        "?a=1&b=2&a=3".to_string(),
        hash.to_string(),
    )
}

#[test]
fn aliases_equal_their_fields() {
    let d = LocationData::from_parts(
        "https://a.test/p?q=1#f".to_string(),
        "https:".to_string(),
        "/p".to_string(),
        "?q=1".to_string(),
        "#f".to_string(),
    );
    assert_eq!(d.path, "/p");
    assert_eq!(d.pathname, d.path);
    assert_eq!(d.protocol, "https:");
    assert_eq!(d.scheme, d.protocol);
    assert_eq!(d.href, "https://a.test/p?q=1#f");
    assert_eq!(d.search, "?q=1");
}

#[test]
fn anchor_is_hash_without_its_mark() {
    let d = LocationData::from_parts(
        "https://a.test/#top".to_string(),
        "https:".to_string(),
        "/".to_string(),
        "".to_string(),
        "#top".to_string(),
    );
    assert_eq!(d.hash, "#top");
    assert_eq!(d.anchor, "top");
    assert_eq!(format!("#{}", d.anchor), d.hash);
}

#[test]
fn empty_hash_gives_empty_anchor_and_query() {
    let d = LocationData::from_parts(
        "https://a.test/".to_string(),
        "https:".to_string(),
        "/".to_string(),
        "".to_string(),
        "".to_string(),
    );
    assert_eq!(d.hash, "");
    assert_eq!(d.anchor, "");
    assert!(d.query_is_empty());
}

#[test]
fn query_lookups() {
    let loc = session("https://a.test/x", "");
    assert_eq!(
        loc.query_values("a"),
        Some(vec!["1".to_string(), "3".to_string()])
    );
    assert_eq!(loc.query_first("a"), Some("1".to_string()));
    assert_eq!(loc.query_first("b"), Some("2".to_string()));
    assert_eq!(loc.query_values("c"), None);
    assert_eq!(loc.query_first("c"), None);
    assert!(!loc.query_is_empty());
}

#[test]
fn edits_do_not_reach_the_read_view() {
    let mut loc = session("https://a.test/x", "#one");
    loc.edit().href = "https://a.test/y".to_string();
    loc.hash = "#two".to_string();
    loc.anchor = "two".to_string();
    loc.pathname = "/z".to_string();
    loc.query.insert("c".to_string(), "4".to_string());
    assert_eq!(loc.href, "https://a.test/x");
    assert_eq!(loc.original().hash, "#one");
    assert_eq!(loc.anchor, "one");
    assert_eq!(loc.pathname, "/x");
    assert_eq!(loc.query_values("c"), None);
    assert_eq!(loc.working().href, "https://a.test/y");
    assert_eq!(loc.working().query_values("c"), Some(vec!["4".to_string()]));
}

#[test]
fn working_copy_starts_equal() {
    let loc = session("https://a.test/x", "#f");
    let w = loc.working();
    assert_eq!(w.href, loc.original().href);
    assert_eq!(w.anchor, "f");
    assert_eq!(w.query_values("a"), loc.query_values("a"));
}

#[test]
fn changed_href_is_written_once() {
    let mut loc = session("https://a.test/x", "");
    loc.href = "https://a.test/y".to_string();
    let writes = loc.pending_writes();
    assert_eq!(writes.len(), 1);
    assert_eq!(writes[0].field, Field::Href);
    assert_eq!(writes[0].field.setter(), HostSetter::Href);
    assert_eq!(writes[0].old_value, "https://a.test/x");
    assert_eq!(writes[0].new_value, "https://a.test/y");
}

#[test]
fn no_edits_no_writes() {
    let loc = session("https://a.test/x", "#f");
    assert!(loc.pending_writes().is_empty());
}

#[test]
fn edit_back_to_original_is_no_write() {
    let mut loc = session("https://a.test/x", "#f");
    loc.href = "https://a.test/y".to_string();
    loc.href = "https://a.test/x".to_string();
    assert!(loc.pending_writes().is_empty());
}

#[test]
fn other_fields_are_never_written() {
    let mut loc = session("https://a.test/x", "#f");
    loc.pathname = "/other".to_string();
    loc.path = "/other".to_string();
    loc.protocol = "http:".to_string();
    loc.scheme = "http:".to_string();
    loc.search = "?z=1".to_string();
    loc.query.insert("z".to_string(), "1".to_string());
    assert!(loc.pending_writes().is_empty());
}

#[test]
fn hash_edit_is_written_through_fragment_setter() {
    let mut loc = session("https://a.test/x", "#f");
    loc.hash = "#g".to_string();
    let writes = loc.pending_writes();
    assert_eq!(writes.len(), 1);
    assert_eq!(writes[0].field, Field::Hash);
    assert_eq!(writes[0].field.setter(), HostSetter::Hash);
    assert_eq!(writes[0].new_value, "#g");
}

#[test]
fn anchor_edit_is_written_through_fragment_setter() {
    let mut loc = session("https://a.test/x", "#f");
    loc.anchor = "g".to_string();
    let writes = loc.pending_writes();
    assert_eq!(writes.len(), 1);
    assert_eq!(writes[0].field, Field::Anchor);
    assert_eq!(writes[0].field.setter(), HostSetter::Hash);
    assert_eq!(writes[0].old_value, "f");
    assert_eq!(writes[0].new_value, "g");
}

#[test]
fn anchor_wins_over_hash() {
    let mut loc = session("https://a.test/x", "#f");
    loc.hash = "#from-hash".to_string();
    loc.anchor = "from-anchor".to_string();
    let writes = loc.pending_writes();
    assert_eq!(writes.len(), 1);
    assert_eq!(writes[0].field, Field::Anchor);
    assert_eq!(writes[0].new_value, "from-anchor");
}

#[test]
fn href_is_written_before_fragment() {
    let mut loc = session("https://a.test/x", "");
    loc.anchor = "a".to_string();
    loc.href = "https://b.test/".to_string();
    let writes = loc.pending_writes();
    assert_eq!(writes.len(), 2);
    assert_eq!(writes[0].field, Field::Href);
    assert_eq!(writes[1].field, Field::Anchor);
    assert_eq!(writes[1].old_value, "");
    assert_eq!(writes[1].new_value, "a");
}

#[test]
fn notice_names_field_and_values() {
    let mut loc = session("https://a.test/x", "#f");
    loc.href = "https://a.test/y".to_string();
    loc.anchor = "g".to_string();
    let writes = loc.pending_writes();
    assert_eq!(
        writes[0].notice(),
        "Href changed from https://a.test/x to https://a.test/y"
    );
    assert_eq!(writes[1].notice(), "Anchor changed from f to g");
}

#[test]
fn duplicate_is_independent() {
    let d = LocationData::from_parts(
        "https://a.test/".to_string(),
        "https:".to_string(),
        "/".to_string(),
        "?k=v".to_string(),
        "#h".to_string(),
    );
    let mut e = d.duplicate();
    e.query.insert("k".to_string(), "w".to_string());
    assert_eq!(d.query_values("k"), Some(vec!["v".to_string()]));
    assert_eq!(e.query_values("k"), Some(vec!["v".to_string(), "w".to_string()]));
    assert_eq!(e.anchor, "h");
}

#[test]
fn clone_keeps_every_field() {
    let d = LocationData::from_parts(
        "https://a.test/p#h".to_string(),
        "https:".to_string(),
        "/p".to_string(),
        "?k=v&k=w".to_string(),
        "#h".to_string(),
    );
    let c = d.clone();
    assert_eq!(c.href, d.href);
    assert_eq!(c.path, "/p");
    assert_eq!(c.scheme, "https:");
    assert_eq!(c.search, d.search);
    assert_eq!(c.hash, "#h");
    assert_eq!(c.anchor, "h");
    assert_eq!(c.query_values("k"), Some(vec!["v".to_string(), "w".to_string()]));
}

//! Installing filters and handing requests on.

use not_modified::chain::{next_filter, postconfiguration, Next, NGX_ERROR, NGX_OK};

#[test]
fn installing_saves_the_head_and_replaces_it() {
    let installed = postconfiguration(Some("range"), "not_modified");
    assert_eq!(installed.next, Some("range"));
    assert_eq!(installed.top, Some("not_modified"));
    assert_eq!(installed.status, NGX_OK);
}

#[test]
fn the_first_filter_saves_nothing() {
    let installed = postconfiguration(None, "header");
    assert_eq!(installed.next, None);
    assert_eq!(installed.top, Some("header"));
}

#[test]
fn the_module_initialized_last_runs_first() {
    let names = ["header", "range", "not_modified"];
    let mut top: Option<usize> = None;
    let mut saved: Vec<Option<usize>> = Vec::new();
    for i in 0..names.len() {
        let installed = postconfiguration(top, i);
        saved.push(installed.next);
        top = installed.top;
    }
    let mut order = Vec::new();
    let mut next = top;
    while let Next::Call(i) = next_filter(next) {
        order.push(names[i]);
        next = saved[i];
    }
    assert_eq!(order, ["not_modified", "range", "header"]);
}

#[test]
fn a_chain_without_a_next_filter_is_an_error() {
    let next: Next<usize> = next_filter(None);
    assert!(matches!(next, Next::Fail(status) if status == NGX_ERROR && status == -1));
}

#[test]
fn the_saved_filter_is_called() {
    assert!(matches!(next_filter(Some(7)), Next::Call(7)));
}

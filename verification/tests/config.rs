use ice_triage::config::{toolchain_name, toolchain_names};

#[test]
fn toolchain_name_prefixes_the_channel() {
    assert_eq!(toolchain_name("2020-01-01"), "nightly-2020-01-01");
    assert_eq!(toolchain_name(""), "nightly-");
}

#[test]
fn toolchain_names_keep_the_order() {
    let identifiers = vec!["2019-12-24".to_owned(), "2020-01-01".to_owned(), "2019-06-01".to_owned()];
    assert_eq!(
        toolchain_names(&identifiers),
        vec!["nightly-2019-12-24", "nightly-2020-01-01", "nightly-2019-06-01"]
    );
    assert_eq!(toolchain_names(&Vec::new()), Vec::<String>::new());
}

use nxs_interface::config::{
    contains_marker, contains_path, read_attr, read_attrs, read_auto_traits, read_base_traits,
    read_crate_path, read_marker, read_option, same_markers, same_paths, ConfigError,
};
use nxs_interface::marker::AutoTrait;
use nxs_interface::meta::{Attribute, Meta, MetaList, MetaNameValue, NestedMeta};
use nxs_interface::path::Path;

fn path(leading_colon: bool, segments: &[&str]) -> Path {
    let mut p = Path::root(leading_colon);
    for s in segments {
        p.push(s);
    }
    p
}

fn word(name: &str) -> NestedMeta {
    NestedMeta::Meta(Meta::Path(Path::from_ident(name)))
}

fn at(p: Path) -> NestedMeta {
    NestedMeta::Meta(Meta::Path(p))
}

fn lit(text: &str) -> NestedMeta {
    NestedMeta::Lit(text.to_string())
}

fn meta_list(name: &str, items: Vec<NestedMeta>) -> MetaList {
    MetaList { path: Path::from_ident(name), nested: items }
}

fn list(name: &str, items: Vec<NestedMeta>) -> NestedMeta {
    NestedMeta::Meta(Meta::List(meta_list(name, items)))
}

fn name_value(name: &str, value: &str) -> NestedMeta {
    NestedMeta::Meta(Meta::NameValue(MetaNameValue {
        path: Path::from_ident(name),
        lit: value.to_string(),
    }))
}

fn attr(name: &str, options: Vec<NestedMeta>) -> Attribute {
    Attribute {
        path: Path::from_ident(name),
        meta: Some(Meta::List(meta_list(name, options))),
    }
}

struct Places {
    base_traits: Option<Vec<Path>>,
    auto_traits: Option<Vec<AutoTrait>>,
    crate_path: Option<Path>,
}

fn nothing() -> Places {
    Places { base_traits: None, auto_traits: None, crate_path: None }
}

fn read_one(a: &Attribute, p: &mut Places) -> Result<(), ConfigError> {
    read_attr(a, &mut p.base_traits, &mut p.auto_traits, &mut p.crate_path)
}

fn read_all(a: &Vec<Attribute>, p: &mut Places) -> Result<(), ConfigError> {
    read_attrs(a, &mut p.base_traits, &mut p.auto_traits, &mut p.crate_path)
}

#[test]
fn error_messages() {
    assert_eq!(
        ConfigError::InvalidArguments.message(),
        "Invalid arguments to the `dyn_cast` attribute."
    );
    assert_eq!(
        ConfigError::UnknownMarker.message(),
        "Invalid arguments to the `dyn_cast` attribute."
    );
    assert_eq!(
        ConfigError::DuplicateMarker.message(),
        "An auto trait may not be specified more than once."
    );
    assert_eq!(
        ConfigError::RepeatedCratePath.message(),
        "`path` may not be specified more than once."
    );
    assert_eq!(
        ConfigError::ConflictingOption.message(),
        "An option may not be specified twice with different content."
    );
}

#[test]
fn contains_path_finds_equal_paths() {
    let paths = vec![path(false, &["A"]), path(true, &["m", "B"])];
    assert!(contains_path(&paths, &path(false, &["A"])));
    assert!(contains_path(&paths, &path(true, &["m", "B"])));
    assert!(!contains_path(&paths, &path(false, &["m", "B"])));
    assert!(!contains_path(&paths, &path(false, &["B"])));
    assert!(!contains_path(&vec![], &path(false, &["A"])));
}

#[test]
fn contains_marker_finds_markers() {
    let markers = vec![AutoTrait::Send, AutoTrait::Unpin];
    assert!(contains_marker(&markers, AutoTrait::Send));
    assert!(contains_marker(&markers, AutoTrait::Unpin));
    assert!(!contains_marker(&markers, AutoTrait::Sync));
    assert!(!contains_marker(&vec![], AutoTrait::Sync));
}

#[test]
fn same_paths_compares_members() {
    let ab = vec![path(false, &["A"]), path(false, &["B"])];
    let ba = vec![path(false, &["B"]), path(false, &["A"])];
    let a = vec![path(false, &["A"])];
    let abc = vec![path(false, &["A"]), path(false, &["B"]), path(false, &["C"])];
    assert!(same_paths(&ab, &ab));
    assert!(same_paths(&ab, &ba));
    assert!(same_paths(&vec![], &vec![]));
    assert!(!same_paths(&ab, &a));
    assert!(!same_paths(&a, &ab));
    assert!(!same_paths(&ab, &abc));
    assert!(!same_paths(&a, &vec![]));
    assert!(!same_paths(&a, &vec![path(true, &["A"])]));
}

#[test]
fn same_markers_compares_members() {
    let send_sync = vec![AutoTrait::Send, AutoTrait::Sync];
    let sync_send = vec![AutoTrait::Sync, AutoTrait::Send];
    assert!(same_markers(&send_sync, &sync_send));
    assert!(same_markers(&vec![], &vec![]));
    assert!(!same_markers(&send_sync, &vec![AutoTrait::Send]));
    assert!(!same_markers(&vec![AutoTrait::Send], &send_sync));
    assert!(!same_markers(&vec![], &vec![AutoTrait::Unpin]));
    assert!(!same_markers(&vec![AutoTrait::Send], &vec![AutoTrait::Sync]));
}

#[test]
fn base_traits_are_read_in_order() {
    let mut bases = None;
    let l = meta_list("base_traits", vec![word("Get0"), at(path(false, &["my", "Get1"]))]);
    assert_eq!(read_base_traits(&l, &mut bases), Ok(()));
    assert_eq!(bases, Some(vec![path(false, &["Get0"]), path(false, &["my", "Get1"])]));
}

#[test]
fn base_traits_may_be_empty() {
    let mut bases = None;
    assert_eq!(read_base_traits(&meta_list("base_traits", vec![]), &mut bases), Ok(()));
    assert_eq!(bases, Some(vec![]));
}

#[test]
fn a_repeated_base_trait_counts_once() {
    let mut bases = None;
    let l = meta_list("base_traits", vec![word("A"), word("B"), word("A"), word("C")]);
    assert_eq!(read_base_traits(&l, &mut bases), Ok(()));
    assert_eq!(
        bases,
        Some(vec![path(false, &["A"]), path(false, &["B"]), path(false, &["C"])])
    );
}

#[test]
fn differently_written_paths_are_different_base_traits() {
    let mut bases = None;
    let l = meta_list(
        "base_traits",
        vec![at(path(false, &["m", "A"])), at(path(true, &["m", "A"])), word("A")],
    );
    assert_eq!(read_base_traits(&l, &mut bases), Ok(()));
    assert_eq!(bases.map(|b| b.len()), Some(3));
}

#[test]
fn a_base_trait_that_is_no_path_is_refused() {
    let mut bases = None;
    let l = meta_list("base_traits", vec![word("A"), lit("\"B\""), word("C")]);
    assert_eq!(read_base_traits(&l, &mut bases), Err(ConfigError::InvalidArguments));
    assert_eq!(bases, Some(vec![path(false, &["A"])]));

    let mut bases = None;
    let l = meta_list("base_traits", vec![list("A", vec![])]);
    assert_eq!(read_base_traits(&l, &mut bases), Err(ConfigError::InvalidArguments));
    assert_eq!(bases, Some(vec![]));

    let mut bases = None;
    let l = meta_list("base_traits", vec![name_value("A", "1")]);
    assert_eq!(read_base_traits(&l, &mut bases), Err(ConfigError::InvalidArguments));
}

#[test]
fn base_traits_given_again_with_other_content_are_refused() {
    for second in [
        vec![word("B")],
        vec![],
        vec![word("A"), word("B")],
        vec![at(path(true, &["A"]))],
    ] {
        let mut bases = Some(vec![path(false, &["A"])]);
        let l = meta_list("base_traits", second);
        assert_eq!(read_base_traits(&l, &mut bases), Err(ConfigError::ConflictingOption));
        assert_eq!(bases, Some(vec![path(false, &["A"])]));
    }
    let mut bases = Some(vec![]);
    let l = meta_list("base_traits", vec![word("A")]);
    assert_eq!(read_base_traits(&l, &mut bases), Err(ConfigError::ConflictingOption));
    assert_eq!(bases, Some(vec![]));
}

#[test]
fn base_traits_given_again_with_the_same_content_are_accepted() {
    let first = vec![path(false, &["A"]), path(false, &["B"])];
    for second in [
        vec![word("A"), word("B")],
        vec![word("B"), word("A")],
        vec![word("A"), word("B"), word("A")],
    ] {
        let mut bases = Some(first.clone());
        let l = meta_list("base_traits", second);
        assert_eq!(read_base_traits(&l, &mut bases), Ok(()));
        assert_eq!(bases, Some(first.clone()));
    }
    let mut bases = Some(vec![]);
    assert_eq!(read_base_traits(&meta_list("base_traits", vec![]), &mut bases), Ok(()));
    assert_eq!(bases, Some(vec![]));
}

#[test]
fn base_traits_given_again_with_a_bad_item_are_refused_for_the_item() {
    let mut bases = Some(vec![path(false, &["A"])]);
    let l = meta_list("base_traits", vec![word("A"), lit("1")]);
    assert_eq!(read_base_traits(&l, &mut bases), Err(ConfigError::InvalidArguments));
    assert_eq!(bases, Some(vec![path(false, &["A"])]));
}

#[test]
fn read_marker_names_a_marker() {
    assert_eq!(read_marker(&word("Send")), Ok(AutoTrait::Send));
    assert_eq!(read_marker(&word("RefUnwindSafe")), Ok(AutoTrait::RefUnwindSafe));
    assert_eq!(read_marker(&word("Copy")), Err(ConfigError::UnknownMarker));
    assert_eq!(
        read_marker(&at(path(true, &["std", "marker", "Send"]))),
        Err(ConfigError::UnknownMarker)
    );
    assert_eq!(read_marker(&lit("Send")), Err(ConfigError::InvalidArguments));
    assert_eq!(read_marker(&list("Send", vec![])), Err(ConfigError::InvalidArguments));
}

#[test]
fn auto_traits_are_read_in_order() {
    let mut markers = None;
    let l = meta_list("auto_traits", vec![word("Send"), word("Unpin")]);
    assert_eq!(read_auto_traits(&l, &mut markers), Ok(()));
    assert_eq!(markers, Some(vec![AutoTrait::Send, AutoTrait::Unpin]));
}

#[test]
fn an_empty_auto_traits_list_is_explicit() {
    let mut markers = None;
    assert_eq!(read_auto_traits(&meta_list("auto_traits", vec![]), &mut markers), Ok(()));
    assert_eq!(markers, Some(vec![]));
}

#[test]
fn auto_traits_given_again_with_other_content_are_refused() {
    for second in [
        vec![word("Send")],
        vec![],
        vec![word("Sync"), word("Send")],
        vec![word("Unpin")],
    ] {
        let mut markers = Some(vec![AutoTrait::Sync]);
        let l = meta_list("auto_traits", second);
        assert_eq!(read_auto_traits(&l, &mut markers), Err(ConfigError::ConflictingOption));
        assert_eq!(markers, Some(vec![AutoTrait::Sync]));
    }
    let mut markers = Some(vec![]);
    let l = meta_list("auto_traits", vec![word("Send")]);
    assert_eq!(read_auto_traits(&l, &mut markers), Err(ConfigError::ConflictingOption));
    assert_eq!(markers, Some(vec![]));
}

#[test]
fn auto_traits_given_again_with_the_same_content_are_accepted() {
    let mut markers = Some(vec![AutoTrait::Sync, AutoTrait::Send]);
    let l = meta_list("auto_traits", vec![word("Send"), word("Sync")]);
    assert_eq!(read_auto_traits(&l, &mut markers), Ok(()));
    assert_eq!(markers, Some(vec![AutoTrait::Sync, AutoTrait::Send]));
    let l = meta_list("auto_traits", vec![word("Sync"), word("Send")]);
    assert_eq!(read_auto_traits(&l, &mut markers), Ok(()));
    assert_eq!(markers, Some(vec![AutoTrait::Sync, AutoTrait::Send]));

    let mut markers = Some(vec![]);
    assert_eq!(read_auto_traits(&meta_list("auto_traits", vec![]), &mut markers), Ok(()));
    assert_eq!(markers, Some(vec![]));
}

#[test]
fn auto_traits_given_again_with_a_bad_item_are_refused_for_the_item() {
    let mut markers = Some(vec![AutoTrait::Sync]);
    let l = meta_list("auto_traits", vec![word("Sync"), word("Sized")]);
    assert_eq!(read_auto_traits(&l, &mut markers), Err(ConfigError::UnknownMarker));
    assert_eq!(markers, Some(vec![AutoTrait::Sync]));
    let l = meta_list("auto_traits", vec![word("Sync"), word("Sync")]);
    assert_eq!(read_auto_traits(&l, &mut markers), Err(ConfigError::DuplicateMarker));
    assert_eq!(markers, Some(vec![AutoTrait::Sync]));
}

#[test]
fn an_unknown_marker_is_refused() {
    let mut markers = None;
    let l = meta_list("auto_traits", vec![word("Send"), word("Sized"), word("Sync")]);
    assert_eq!(read_auto_traits(&l, &mut markers), Err(ConfigError::UnknownMarker));
    assert_eq!(markers, Some(vec![AutoTrait::Send]));
}

#[test]
fn a_marker_path_is_refused() {
    let mut markers = None;
    let l = meta_list("auto_traits", vec![at(path(false, &["marker", "Send"]))]);
    assert_eq!(read_auto_traits(&l, &mut markers), Err(ConfigError::UnknownMarker));
    assert_eq!(markers, Some(vec![]));
}

#[test]
fn a_duplicate_marker_is_refused() {
    let mut markers = None;
    let l = meta_list("auto_traits", vec![word("Send"), word("Sync"), word("Send")]);
    assert_eq!(read_auto_traits(&l, &mut markers), Err(ConfigError::DuplicateMarker));
    assert_eq!(markers, Some(vec![AutoTrait::Send, AutoTrait::Sync]));

    let mut markers = None;
    let l = meta_list("auto_traits", vec![word("Unpin"), word("Unpin")]);
    assert_eq!(read_auto_traits(&l, &mut markers), Err(ConfigError::DuplicateMarker));
    assert_eq!(markers, Some(vec![AutoTrait::Unpin]));
}

#[test]
fn a_marker_that_is_no_path_is_refused() {
    let mut markers = None;
    let l = meta_list("auto_traits", vec![lit("Send")]);
    assert_eq!(read_auto_traits(&l, &mut markers), Err(ConfigError::InvalidArguments));
    assert_eq!(markers, Some(vec![]));
}

#[test]
fn crate_path_is_read_once() {
    let mut crate_path = None;
    let l = meta_list("crate", vec![at(path(true, &["my", "lib"]))]);
    assert_eq!(read_crate_path(&l, &mut crate_path), Ok(()));
    assert_eq!(crate_path, Some(path(true, &["my", "lib"])));

    assert_eq!(read_crate_path(&l, &mut crate_path), Err(ConfigError::RepeatedCratePath));
    assert_eq!(crate_path, Some(path(true, &["my", "lib"])));

    let other = meta_list("crate", vec![word("other")]);
    assert_eq!(read_crate_path(&other, &mut crate_path), Err(ConfigError::RepeatedCratePath));
    assert_eq!(crate_path, Some(path(true, &["my", "lib"])));
}

#[test]
fn crate_path_must_be_a_path() {
    let mut crate_path = None;
    assert_eq!(
        read_crate_path(&meta_list("crate", vec![lit("\"lib\"")]), &mut crate_path),
        Err(ConfigError::InvalidArguments)
    );
    assert_eq!(crate_path, None);
    assert_eq!(
        read_crate_path(&meta_list("crate", vec![]), &mut crate_path),
        Err(ConfigError::InvalidArguments)
    );
    assert_eq!(
        read_crate_path(&meta_list("crate", vec![list("lib", vec![])]), &mut crate_path),
        Err(ConfigError::InvalidArguments)
    );
    assert_eq!(crate_path, None);
}

#[test]
fn a_repeated_crate_path_wins_over_a_bad_one() {
    let mut crate_path = Some(path(false, &["lib"]));
    assert_eq!(
        read_crate_path(&meta_list("crate", vec![lit("1")]), &mut crate_path),
        Err(ConfigError::RepeatedCratePath)
    );
    assert_eq!(
        read_crate_path(&meta_list("crate", vec![]), &mut crate_path),
        Err(ConfigError::RepeatedCratePath)
    );
}

#[test]
fn options_are_told_apart_by_name() {
    let mut p = nothing();
    assert_eq!(
        read_option(
            &list("base_traits", vec![word("A")]),
            &mut p.base_traits,
            &mut p.auto_traits,
            &mut p.crate_path
        ),
        Ok(())
    );
    assert_eq!(
        read_option(
            &list("auto_traits", vec![word("Sync")]),
            &mut p.base_traits,
            &mut p.auto_traits,
            &mut p.crate_path
        ),
        Ok(())
    );
    assert_eq!(
        read_option(
            &list("crate", vec![word("lib")]),
            &mut p.base_traits,
            &mut p.auto_traits,
            &mut p.crate_path
        ),
        Ok(())
    );
    assert_eq!(p.base_traits, Some(vec![path(false, &["A"])]));
    assert_eq!(p.auto_traits, Some(vec![AutoTrait::Sync]));
    assert_eq!(p.crate_path, Some(path(false, &["lib"])));
}

#[test]
fn an_option_of_another_shape_is_refused() {
    for bad in [
        word("base_traits"),
        name_value("base_traits", "A"),
        lit("base_traits"),
        list("traits", vec![]),
        list("crate", vec![]),
        list("crate", vec![word("a"), word("b")]),
        NestedMeta::Meta(Meta::List(MetaList {
            path: path(true, &["base_traits"]),
            nested: vec![],
        })),
    ] {
        let mut p = nothing();
        assert_eq!(
            read_option(&bad, &mut p.base_traits, &mut p.auto_traits, &mut p.crate_path),
            Err(ConfigError::InvalidArguments)
        );
        assert_eq!(p.base_traits, None);
        assert_eq!(p.auto_traits, None);
        assert_eq!(p.crate_path, None);
    }
}

#[test]
fn other_attributes_are_passed_over() {
    let mut p = nothing();
    let doc = Attribute { path: Path::from_ident("doc"), meta: None };
    assert_eq!(read_one(&doc, &mut p), Ok(()));
    let derive = attr("derive", vec![word("DynCast")]);
    assert_eq!(read_one(&derive, &mut p), Ok(()));
    let other = attr("leaf_module", vec![list("crate", vec![word("lib")])]);
    assert_eq!(read_one(&other, &mut p), Ok(()));
    let qualified = Attribute {
        path: path(false, &["nxs", "dyn_cast"]),
        meta: Some(Meta::List(meta_list("dyn_cast", vec![list("crate", vec![word("lib")])]))),
    };
    assert_eq!(read_one(&qualified, &mut p), Ok(()));
    assert_eq!(p.base_traits, None);
    assert_eq!(p.auto_traits, None);
    assert_eq!(p.crate_path, None);
}

#[test]
fn an_attribute_reads_its_options_in_order() {
    let mut p = nothing();
    let a = attr(
        "dyn_cast",
        vec![
            list("base_traits", vec![word("Get0"), word("Get1")]),
            list("auto_traits", vec![word("Send"), word("Unpin")]),
            list("crate", vec![at(path(true, &["my", "lib"]))]),
        ],
    );
    assert_eq!(read_one(&a, &mut p), Ok(()));
    assert_eq!(p.base_traits, Some(vec![path(false, &["Get0"]), path(false, &["Get1"])]));
    assert_eq!(p.auto_traits, Some(vec![AutoTrait::Send, AutoTrait::Unpin]));
    assert_eq!(p.crate_path, Some(path(true, &["my", "lib"])));
}

#[test]
fn an_attribute_without_options_declares_nothing() {
    let mut p = nothing();
    assert_eq!(read_one(&attr("dyn_cast", vec![]), &mut p), Ok(()));
    assert_eq!(p.base_traits, None);
    assert_eq!(p.auto_traits, None);
    assert_eq!(p.crate_path, None);
}

#[test]
fn an_attribute_that_is_no_list_is_refused() {
    let mut p = nothing();
    let bare = Attribute {
        path: Path::from_ident("dyn_cast"),
        meta: Some(Meta::Path(Path::from_ident("dyn_cast"))),
    };
    assert_eq!(read_one(&bare, &mut p), Err(ConfigError::InvalidArguments));
    let valued = Attribute {
        path: Path::from_ident("dyn_cast"),
        meta: Some(Meta::NameValue(MetaNameValue {
            path: Path::from_ident("dyn_cast"),
            lit: "\"x\"".to_string(),
        })),
    };
    assert_eq!(read_one(&valued, &mut p), Err(ConfigError::InvalidArguments));
    let unreadable = Attribute { path: Path::from_ident("dyn_cast"), meta: None };
    assert_eq!(read_one(&unreadable, &mut p), Err(ConfigError::InvalidArguments));
}

#[test]
fn reading_stops_at_the_first_bad_option() {
    let mut p = nothing();
    let a = attr(
        "dyn_cast",
        vec![
            list("base_traits", vec![word("Get0")]),
            list("auto_traits", vec![word("Send"), word("Nope")]),
            list("crate", vec![word("lib")]),
        ],
    );
    assert_eq!(read_one(&a, &mut p), Err(ConfigError::UnknownMarker));
    assert_eq!(p.base_traits, Some(vec![path(false, &["Get0"])]));
    assert_eq!(p.auto_traits, Some(vec![AutoTrait::Send]));
    assert_eq!(p.crate_path, None);
}

#[test]
fn a_literal_among_the_options_is_refused() {
    let mut p = nothing();
    let a = attr("dyn_cast", vec![list("base_traits", vec![word("A")]), lit("1")]);
    assert_eq!(read_one(&a, &mut p), Err(ConfigError::InvalidArguments));
    assert_eq!(p.base_traits, Some(vec![path(false, &["A"])]));
}

#[test]
fn attributes_are_read_in_order() {
    let mut p = nothing();
    let attrs = vec![
        attr("derive", vec![word("DynCast")]),
        attr("dyn_cast", vec![list("base_traits", vec![word("A")])]),
        Attribute { path: Path::from_ident("doc"), meta: None },
        attr("dyn_cast", vec![list("auto_traits", vec![])]),
        attr("dyn_cast", vec![list("crate", vec![word("lib")])]),
    ];
    assert_eq!(read_all(&attrs, &mut p), Ok(()));
    assert_eq!(p.base_traits, Some(vec![path(false, &["A"])]));
    assert_eq!(p.auto_traits, Some(vec![]));
    assert_eq!(p.crate_path, Some(path(false, &["lib"])));
}

#[test]
fn a_key_in_two_attributes_with_other_content_is_refused() {
    let mut p = nothing();
    let attrs = vec![
        attr("dyn_cast", vec![list("base_traits", vec![word("A")])]),
        attr("dyn_cast", vec![list("auto_traits", vec![word("Unpin")])]),
        attr("dyn_cast", vec![list("base_traits", vec![word("B")])]),
        attr("dyn_cast", vec![list("crate", vec![word("lib")])]),
    ];
    assert_eq!(read_all(&attrs, &mut p), Err(ConfigError::ConflictingOption));
    assert_eq!(p.base_traits, Some(vec![path(false, &["A"])]));
    assert_eq!(p.auto_traits, Some(vec![AutoTrait::Unpin]));
    assert_eq!(p.crate_path, None);
}

#[test]
fn a_key_twice_in_one_attribute_with_other_content_is_refused() {
    let mut p = nothing();
    let a = attr(
        "dyn_cast",
        vec![list("auto_traits", vec![word("Send")]), list("auto_traits", vec![word("Sync")])],
    );
    assert_eq!(read_one(&a, &mut p), Err(ConfigError::ConflictingOption));
    assert_eq!(p.auto_traits, Some(vec![AutoTrait::Send]));

    let mut p = nothing();
    let a = attr(
        "dyn_cast",
        vec![list("base_traits", vec![word("A")]), list("base_traits", vec![word("B")])],
    );
    assert_eq!(read_one(&a, &mut p), Err(ConfigError::ConflictingOption));
    assert_eq!(p.base_traits, Some(vec![path(false, &["A"])]));
}

#[test]
fn a_key_given_again_with_the_same_content_changes_nothing() {
    let mut p = nothing();
    let attrs = vec![
        attr(
            "dyn_cast",
            vec![
                list("base_traits", vec![word("A"), word("B")]),
                list("auto_traits", vec![word("Send"), word("Sync")]),
            ],
        ),
        attr(
            "dyn_cast",
            vec![
                list("auto_traits", vec![word("Sync"), word("Send")]),
                list("base_traits", vec![word("B"), word("A")]),
            ],
        ),
    ];
    assert_eq!(read_all(&attrs, &mut p), Ok(()));
    assert_eq!(p.base_traits, Some(vec![path(false, &["A"]), path(false, &["B"])]));
    assert_eq!(p.auto_traits, Some(vec![AutoTrait::Send, AutoTrait::Sync]));
}

#[test]
fn a_crate_path_in_two_attributes_is_refused() {
    let mut p = nothing();
    let attrs = vec![
        attr("dyn_cast", vec![list("crate", vec![word("lib")])]),
        attr("dyn_cast", vec![list("base_traits", vec![word("A")])]),
        attr("dyn_cast", vec![list("crate", vec![word("lib")])]),
        attr("dyn_cast", vec![list("auto_traits", vec![word("Send")])]),
    ];
    assert_eq!(read_all(&attrs, &mut p), Err(ConfigError::RepeatedCratePath));
    assert_eq!(p.base_traits, Some(vec![path(false, &["A"])]));
    assert_eq!(p.auto_traits, None);
    assert_eq!(p.crate_path, Some(path(false, &["lib"])));
}

#[test]
fn markers_in_two_attributes_with_other_content_are_refused() {
    let mut p = nothing();
    let attrs = vec![
        attr("dyn_cast", vec![list("auto_traits", vec![word("Send")])]),
        attr("dyn_cast", vec![list("auto_traits", vec![word("Sync"), word("Send")])]),
    ];
    assert_eq!(read_all(&attrs, &mut p), Err(ConfigError::ConflictingOption));
    assert_eq!(p.auto_traits, Some(vec![AutoTrait::Send]));
}

#[test]
fn no_attributes_declare_nothing() {
    let mut p = nothing();
    assert_eq!(read_all(&vec![], &mut p), Ok(()));
    assert_eq!(p.base_traits, None);
    assert_eq!(p.auto_traits, None);
    assert_eq!(p.crate_path, None);
}

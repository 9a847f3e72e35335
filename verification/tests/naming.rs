use influxdb_dispatcher::naming::series_name;

#[test]
fn series_name_is_last_segment_of_a_path() {
    assert_eq!(series_name("app::metrics::CpuLoad"), "CpuLoad");
    assert_eq!(series_name("metrics::CpuLoad"), "CpuLoad");
}

#[test]
fn series_name_without_separator_is_the_whole_name() {
    assert_eq!(series_name("CpuLoad"), "CpuLoad");
    assert_eq!(series_name("a:b"), "a:b");
    assert_eq!(series_name(":"), ":");
}

#[test]
fn series_name_of_empty_name_is_empty() {
    assert_eq!(series_name(""), "");
}

#[test]
fn series_name_after_trailing_separator_is_empty() {
    assert_eq!(series_name("a::"), "");
    assert_eq!(series_name("::"), "");
}

#[test]
fn series_name_after_leading_separator() {
    assert_eq!(series_name("::a"), "a");
}

#[test]
fn series_name_takes_the_rightmost_of_overlapping_separators() {
    assert_eq!(series_name("a:::b"), "b");
    assert_eq!(series_name("a::::b"), "b");
    assert_eq!(series_name(":::"), "");
}

#[test]
fn series_name_cuts_inside_generic_arguments() {
    assert_eq!(series_name("alloc::vec::Vec<core::option::Option<u8>>"), "Option<u8>>");
}

#[test]
fn series_name_counts_characters_not_bytes() {
    assert_eq!(series_name("módulo::Métrica"), "Métrica");
    assert_eq!(series_name("計測::温度"), "温度");
    assert_eq!(series_name("温度"), "温度");
}

#[test]
fn series_name_agrees_with_splitting_at_the_last_separator() {
    let paths = vec![
        "a", "a::b", "a::b::c", "::", ":::", "a:::b", "x::y:", "x:::", "", ":a:", "a: :b",
    ];
    for path in paths {
        let expected = match path.rsplit_once("::") {
            Some((_, name)) => name,
            None => path,
        };
        assert_eq!(series_name(path), expected);
    }
}

#[test]
fn series_name_holds_no_separator_and_ends_the_path() {
    let paths = vec!["a::b::c", "a:::b", "plain", "x::", "::y", "p::q::r::s"];
    for path in paths {
        let name = series_name(path);
        assert!(!name.contains("::"));
        assert!(path.ends_with(name));
        assert_eq!(series_name(name), name);
    }
}

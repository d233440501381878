use open_ams::entity::epath::EPath;

#[test]
fn test_epath_new() {
    let segments = vec!["segment1".to_string(), "segment2".to_string()];
    let epath = EPath::new(segments.clone());
    assert_eq!(epath.segments, segments);
}

#[test]
fn test_epath_to_string() {
    let segments = vec!["segment1".to_string(), "segment2".to_string()];
    let epath = EPath::new(segments);
    assert_eq!(epath.to_string(), "segment1/segment2");
}

#[test]
fn test_epath_from_str() {
    let s = "segment1/segment2";
    let epath = EPath::from_str(s);
    assert_eq!(epath.to_string(), s);
}

#[test]
fn test_epath_empty() {
    let epath = EPath::new(vec![]);
    assert_eq!(epath.to_string(), "");
}

#[test]
fn test_epath_single_segment() {
    let epath = EPath::new(vec!["segment1".to_string()]);
    assert_eq!(epath.to_string(), "segment1");
}

#[test]
fn test_epath_trailing_slash() {
    let s = "segment1/segment2/";
    let epath = EPath::from_str(s);
    assert_eq!(epath.to_string(), "segment1/segment2/");
}

#[test]
fn epath_round_trip_multi_segment() {
    let epath = EPath::new(vec!["a".to_string(), "b".to_string(), "c".to_string()]);
    assert_eq!(EPath::from_str(&epath.to_string()), epath);
}

#[test]
fn epath_extended_appends() {
    let epath = EPath::from_str("a/b");
    let extended = epath.extended("c");
    assert_eq!(extended.to_string(), "a/b/c");
    assert_eq!(epath.to_string(), "a/b");
}

#[test]
fn epath_from_str_empty_is_one_empty_segment() {
    let epath = EPath::from_str("");
    assert_eq!(epath.segments, vec!["".to_string()]);
}

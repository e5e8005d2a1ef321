use freactor::{add, sub, version};

#[test]
fn test_add() {
    let result = add(2, 2);
    assert_eq!(result, 4);
}

#[test]
fn test_sub() {
    let result = sub(2, 2);
    assert_eq!(result, 0);
}

#[test]
fn add_and_sub_undo_each_other() {
    assert_eq!(sub(add(40, 2), 2), 40);
    assert_eq!(add(usize::MAX - 1, 1), usize::MAX);
    assert_eq!(sub(7, 0), 7);
}

#[test]
fn version_without_features() {
    assert_eq!(version("0.1.3", false, false, false), "version: 0.1.3, features: []");
}

#[test]
fn version_with_one_feature() {
    assert_eq!(
        version("0.1.3", false, true, false),
        "version: 0.1.3, features: [\"runtime-tokio\"]"
    );
}

#[test]
fn version_with_all_features_in_order() {
    assert_eq!(
        version("1.2.0", true, true, true),
        "version: 1.2.0, features: [\"tracing\", \"runtime-tokio\", \"runtime-async-std\"]"
    );
}

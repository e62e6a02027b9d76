use iv::extract::{plain_member, plan_extraction, ZipError};

fn names(v: &[&str]) -> Vec<String> {
    v.iter().map(|s| s.to_string()).collect()
}

#[test]
fn traversal_names_are_rejected() {
    assert!(!plain_member("../../etc/passwd"));
    assert!(!plain_member("/etc/passwd"));
    assert!(!plain_member("a\0b"));
    assert!(!plain_member("a/../../b"));
    assert!(!plain_member("a/.."));
    assert!(!plain_member(".."));
    assert!(!plain_member("./a"));
    assert!(!plain_member("a/./b"));
    assert!(!plain_member(""));
}

#[test]
fn plain_names_are_accepted() {
    assert!(plain_member("x.png"));
    assert!(plain_member("dir/"));
    assert!(plain_member("dir/sub/y.png"));
    assert!(plain_member("..a/b"));
    assert!(plain_member("a../b"));
    assert!(plain_member(".hidden"));
    assert!(plain_member("a/...b"));
}

#[test]
fn plan_keeps_order_and_marks_directories() {
    let plan = plan_extraction(&names(&["d/", "d/x.png", "y.png"])).unwrap();
    assert_eq!(plan.len(), 3);
    assert_eq!(plan[0].name, "d/");
    assert!(plan[0].is_dir);
    assert_eq!(plan[1].name, "d/x.png");
    assert!(!plan[1].is_dir);
    assert_eq!(plan[2].name, "y.png");
    assert!(!plan[2].is_dir);
}

#[test]
fn plan_rejects_whole_archive_on_first_bad_name() {
    for bad in ["../../etc/passwd", "/etc/passwd", "evil\0.png"] {
        let r = plan_extraction(&names(&["ok.png", bad, "also/../bad"]));
        match r {
            Err(ZipError::MaliciousPath(p)) => assert_eq!(p, bad),
            _ => panic!("expected a malicious path"),
        }
    }
}

#[test]
fn plan_of_empty_archive_is_empty() {
    assert!(plan_extraction(&names(&[])).unwrap().is_empty());
}

#[test]
fn traversal_name_anywhere_rejects_archive() {
    assert!(plan_extraction(&names(&["a.png", "b.png", "../../etc/passwd"])).is_err());
    assert!(plan_extraction(&names(&["a.png", "/etc/passwd"])).is_err());
    match plan_extraction(&names(&["a.png", "../../etc/passwd"])) {
        Err(ZipError::MaliciousPath(p)) => assert_eq!(p, "../../etc/passwd"),
        _ => panic!("expected a malicious path"),
    }
}

use iv::navigator::{Navigator, Outcome};

fn paths(names: &[&str]) -> Vec<String> {
    names.iter().map(|s| s.to_string()).collect()
}

fn expanded(files: &[&str]) -> Outcome {
    Outcome::Expanded {
        files: paths(files),
        tmp_dir: tempfile::TempDir::new().unwrap(),
    }
}

#[test]
fn start_shows_first_entry() {
    let mut nav = Navigator::new(paths(&["a.png", "b.png"]));
    assert_eq!(nav.jump_to_start(), Some("a.png".to_string()));
    assert_eq!(nav.report(Outcome::Shown), None);
    assert_eq!(nav.index(), 0);
    assert_eq!(nav.paths(), &paths(&["a.png", "b.png"]));
}

#[test]
fn scenario_skip_text_then_enter_archive() {
    let mut nav = Navigator::new(paths(&["a.png", "b.txt", "c.zip"]));
    assert_eq!(nav.jump_to_start(), Some("a.png".to_string()));
    assert_eq!(nav.report(Outcome::Shown), None);

    assert_eq!(nav.next(), Some("b.txt".to_string()));
    assert_eq!(nav.report(Outcome::Failed), Some("c.zip".to_string()));
    assert_eq!(nav.paths(), &paths(&["a.png", "c.zip"]));
    assert_eq!(nav.index(), 1);
    assert_eq!(
        nav.report(expanded(&["x.png", "y.png"])),
        Some("x.png".to_string())
    );
    assert_eq!(nav.report(Outcome::Shown), None);
    assert_eq!(nav.paths(), &paths(&["a.png", "x.png", "y.png"]));
    assert_eq!(nav.index(), 1);

    let dirs = nav.quit();
    assert_eq!(dirs.len(), 1);
    assert_eq!(nav.quit().len(), 0);
}

#[test]
fn next_skips_every_unshowable_entry() {
    let mut nav = Navigator::new(paths(&["a", "bad1", "bad2", "bad3", "good", "tail"]));
    assert_eq!(nav.next(), Some("bad1".to_string()));
    assert_eq!(nav.report(Outcome::Failed), Some("bad2".to_string()));
    assert_eq!(nav.report(Outcome::Failed), Some("bad3".to_string()));
    assert_eq!(nav.report(Outcome::Failed), Some("good".to_string()));
    assert_eq!(nav.report(Outcome::Shown), None);
    assert_eq!(nav.paths(), &paths(&["a", "good", "tail"]));
    assert_eq!(nav.index(), 1);
}

#[test]
fn next_past_last_is_noop() {
    let mut nav = Navigator::new(paths(&["a", "b"]));
    assert_eq!(nav.next(), Some("b".to_string()));
    assert_eq!(nav.report(Outcome::Shown), None);
    assert_eq!(nav.next(), None);
    assert_eq!(nav.index(), 1);
    assert_eq!(nav.paths().len(), 2);
}

#[test]
fn next_with_only_bad_entries_returns_to_previous() {
    let mut nav = Navigator::new(paths(&["a", "bad1", "bad2"]));
    assert_eq!(nav.next(), Some("bad1".to_string()));
    assert_eq!(nav.report(Outcome::Failed), Some("bad2".to_string()));
    assert_eq!(nav.report(Outcome::Failed), None);
    assert_eq!(nav.paths(), &paths(&["a"]));
    assert_eq!(nav.index(), 0);
}

#[test]
fn prev_at_start_is_noop() {
    let mut nav = Navigator::new(paths(&["a", "b"]));
    assert_eq!(nav.prev(), None);
    assert_eq!(nav.index(), 0);
}

#[test]
fn prev_skips_unshowable_entries() {
    let mut nav = Navigator::new(paths(&["good", "bad1", "bad2", "cur"]));
    assert_eq!(nav.jump_to_end(), Some("cur".to_string()));
    assert_eq!(nav.report(Outcome::Shown), None);
    assert_eq!(nav.prev(), Some("bad2".to_string()));
    assert_eq!(nav.report(Outcome::Failed), Some("bad1".to_string()));
    assert_eq!(nav.report(Outcome::Failed), Some("good".to_string()));
    assert_eq!(nav.report(Outcome::Shown), None);
    assert_eq!(nav.paths(), &paths(&["good", "cur"]));
    assert_eq!(nav.index(), 0);
}

#[test]
fn prev_with_only_bad_entries_stays_on_current() {
    let mut nav = Navigator::new(paths(&["bad", "cur"]));
    assert_eq!(nav.jump_to_end(), Some("cur".to_string()));
    assert_eq!(nav.report(Outcome::Shown), None);
    assert_eq!(nav.prev(), Some("bad".to_string()));
    assert_eq!(nav.report(Outcome::Failed), None);
    assert_eq!(nav.paths(), &paths(&["cur"]));
    assert_eq!(nav.index(), 0);
}

#[test]
fn jump_to_start_exhausts_unshowable_sequence() {
    let mut nav = Navigator::new(paths(&["x", "y"]));
    assert_eq!(nav.jump_to_start(), Some("x".to_string()));
    assert_eq!(nav.report(Outcome::Failed), Some("y".to_string()));
    assert_eq!(nav.report(Outcome::Failed), None);
    assert!(nav.paths().is_empty());
    assert_eq!(nav.index(), 0);
    assert_eq!(nav.jump_to_start(), None);
    assert_eq!(nav.jump_to_end(), None);
    assert_eq!(nav.next(), None);
    assert_eq!(nav.prev(), None);
}

#[test]
fn jump_to_start_twice_shows_same_entry() {
    let mut nav = Navigator::new(paths(&["bad", "a", "b"]));
    assert_eq!(nav.jump_to_start(), Some("bad".to_string()));
    assert_eq!(nav.report(Outcome::Failed), Some("a".to_string()));
    assert_eq!(nav.report(Outcome::Shown), None);
    let first = (nav.index(), nav.paths().clone());
    assert_eq!(nav.jump_to_start(), Some("a".to_string()));
    assert_eq!(nav.report(Outcome::Shown), None);
    assert_eq!((nav.index(), nav.paths().clone()), first);
}

#[test]
fn jump_to_end_scans_backwards() {
    let mut nav = Navigator::new(paths(&["a", "b", "bad"]));
    assert_eq!(nav.jump_to_end(), Some("bad".to_string()));
    assert_eq!(nav.report(Outcome::Failed), Some("b".to_string()));
    assert_eq!(nav.report(Outcome::Shown), None);
    assert_eq!(nav.paths(), &paths(&["a", "b"]));
    assert_eq!(nav.index(), 1);
}

#[test]
fn jump_to_end_into_archive_removes_failed_member() {
    let mut nav = Navigator::new(paths(&["a", "c.zip"]));
    assert_eq!(nav.jump_to_end(), Some("c.zip".to_string()));
    assert_eq!(nav.report(expanded(&["x", "y"])), Some("x".to_string()));
    assert_eq!(nav.report(Outcome::Failed), Some("a".to_string()));
    assert_eq!(nav.report(Outcome::Shown), None);
    assert_eq!(nav.paths(), &paths(&["a", "y"]));
    assert_eq!(nav.index(), 0);
}

#[test]
fn splice_keeps_surrounding_entries() {
    let mut nav = Navigator::new(paths(&["a", "b.zip", "c", "d"]));
    assert_eq!(nav.next(), Some("b.zip".to_string()));
    assert_eq!(
        nav.report(expanded(&["m1", "m2", "m3"])),
        Some("m1".to_string())
    );
    assert_eq!(nav.paths(), &paths(&["a", "m1", "m2", "m3", "c", "d"]));
    assert_eq!(nav.index(), 1);
    assert_eq!(nav.paths().len(), 4 + 3 - 1);
}

#[test]
fn empty_archive_counts_as_failure() {
    let mut nav = Navigator::new(paths(&["a", "empty.zip", "c"]));
    assert_eq!(nav.next(), Some("empty.zip".to_string()));
    assert_eq!(nav.report(expanded(&[])), Some("c".to_string()));
    assert_eq!(nav.paths(), &paths(&["a", "c"]));
    assert_eq!(nav.quit().len(), 1);
}

#[test]
fn nested_archives_are_bounded() {
    let mut nav = Navigator::new(paths(&["a", "z0"]));
    let mut pending = nav.next();
    let mut entered = 0;
    while let Some(p) = pending {
        assert!(p.starts_with('z'));
        entered += 1;
        assert!(entered <= 100);
        pending = nav.report(expanded(&[&format!("z{}", entered)]));
    }
    assert_eq!(entered, iv::navigator::MAX_ARCHIVES_PER_STEP + 1);
    assert_eq!(nav.paths(), &paths(&["a"]));
    assert_eq!(nav.index(), 0);
    assert_eq!(nav.quit().len(), entered);
}

#[test]
fn show_current_failure_changes_nothing() {
    let mut nav = Navigator::new(paths(&["a", "b"]));
    assert_eq!(nav.show_current(), Some("a".to_string()));
    assert_eq!(nav.report(Outcome::Failed), None);
    assert_eq!(nav.paths(), &paths(&["a", "b"]));
    assert_eq!(nav.index(), 0);
}

#[test]
fn report_without_pending_path_is_ignored() {
    let mut nav = Navigator::new(paths(&["a"]));
    assert_eq!(nav.pending(), None);
    assert_eq!(nav.report(Outcome::Failed), None);
    assert_eq!(nav.paths(), &paths(&["a"]));
}

#[test]
fn pending_reports_path_awaiting_outcome() {
    let mut nav = Navigator::new(paths(&["a", "b"]));
    nav.next();
    assert_eq!(nav.pending(), Some("b".to_string()));
    nav.report(Outcome::Shown);
    assert_eq!(nav.pending(), None);
}

#[test]
fn show_current_splices_out_empty_archive() {
    let mut nav = Navigator::new(paths(&["e.zip", "c.png"]));
    assert_eq!(nav.show_current(), Some("e.zip".to_string()));
    assert_eq!(nav.report(expanded(&[])), Some("c.png".to_string()));
    assert_eq!(nav.paths(), &paths(&["c.png"]));
    assert_eq!(nav.index(), 0);
    assert_eq!(nav.report(Outcome::Shown), None);
}

#[test]
fn show_current_empty_archive_at_end_leaves_nothing_pending() {
    let mut nav = Navigator::new(paths(&["a.png", "e.zip"]));
    assert_eq!(nav.next(), Some("e.zip".to_string()));
    assert_eq!(nav.report(Outcome::Shown), None);
    assert_eq!(nav.show_current(), Some("e.zip".to_string()));
    assert_eq!(nav.report(expanded(&[])), None);
    assert_eq!(nav.paths(), &paths(&["a.png"]));
    assert_eq!(nav.index(), 0);
    assert_eq!(nav.quit().len(), 1);
}

#[test]
fn show_current_empty_archive_as_only_entry() {
    let mut nav = Navigator::new(paths(&["e.zip"]));
    assert_eq!(nav.show_current(), Some("e.zip".to_string()));
    assert_eq!(nav.report(expanded(&[])), None);
    assert!(nav.paths().is_empty());
    assert_eq!(nav.index(), 0);
}

#[test]
fn next_from_middle_skips_unshowable() {
    let mut nav = Navigator::new(paths(&["a", "b", "bad1", "bad2", "c"]));
    assert_eq!(nav.next(), Some("b".to_string()));
    assert_eq!(nav.report(Outcome::Shown), None);
    let mut attempts = 0;
    let mut pending = nav.next();
    while let Some(p) = pending {
        attempts += 1;
        pending = nav.report(if p.starts_with("bad") {
            Outcome::Failed
        } else {
            Outcome::Shown
        });
    }
    assert!(attempts <= 5 - 1 - 1);
    assert_eq!(attempts, 3);
    assert_eq!(nav.paths(), &paths(&["a", "b", "c"]));
    assert_eq!(nav.index(), 2);
}

use rssh::materialize::{MatError, MatPhase, Materializer, StatOutcome};

#[test]
fn empty_target_is_done_before_any_remote_call() {
    let m = Materializer::new("/");
    assert_eq!(m.phase, MatPhase::Done);
    let m2 = Materializer::new("");
    assert_eq!(m2.phase, MatPhase::Done);
}

#[test]
fn walk_queries_prefixes_in_order() {
    let mut m = Materializer::new("/a/b/c");
    assert_eq!(m.phase, MatPhase::Stat);
    assert_eq!(m.target(), "/a".to_string());
    m.on_stat(StatOutcome::IsDir);
    assert_eq!(m.target(), "/a/b".to_string());
    m.on_stat(StatOutcome::IsDir);
    assert_eq!(m.target(), "/a/b/c".to_string());
    m.on_stat(StatOutcome::IsDir);
    assert_eq!(m.phase, MatPhase::Done);
}

#[test]
fn walk_creates_missing_prefixes() {
    let mut m = Materializer::new("/a/b");
    m.on_stat(StatOutcome::Missing);
    assert_eq!(m.phase, MatPhase::Mkdir);
    assert_eq!(m.target(), "/a".to_string());
    m.on_mkdir(true);
    assert_eq!(m.phase, MatPhase::Stat);
    m.on_stat(StatOutcome::Missing);
    assert_eq!(m.target(), "/a/b".to_string());
    m.on_mkdir(true);
    assert_eq!(m.phase, MatPhase::Done);
    assert_eq!(m.error, None);
}

#[test]
fn second_walk_over_created_tree_only_looks() {
    // First walk creates both components; a second walk over the same
    // target sees directories everywhere, creates nothing, and succeeds.
    let mut first = Materializer::new("/a/b");
    first.on_stat(StatOutcome::Missing);
    first.on_mkdir(true);
    first.on_stat(StatOutcome::Missing);
    first.on_mkdir(true);
    assert_eq!(first.phase, MatPhase::Done);

    let mut second = Materializer::new("/a/b");
    second.on_stat(StatOutcome::IsDir);
    assert_ne!(second.phase, MatPhase::Mkdir);
    second.on_stat(StatOutcome::IsDir);
    assert_eq!(second.phase, MatPhase::Done);
    assert_eq!(second.error, None);
}

#[test]
fn existing_non_directory_stops_the_walk() {
    let mut m = Materializer::new("/a/b");
    m.on_stat(StatOutcome::IsDir);
    m.on_stat(StatOutcome::NotDir);
    assert_eq!(m.phase, MatPhase::Failed);
    assert_eq!(m.error, Some(MatError::NotADirectory));
}

#[test]
fn failed_creation_stops_the_walk() {
    let mut m = Materializer::new("/a");
    m.on_stat(StatOutcome::Missing);
    m.on_mkdir(false);
    assert_eq!(m.phase, MatPhase::Failed);
    assert_eq!(m.error, Some(MatError::MkdirFailed));
}

#[test]
fn relative_segments_are_not_walked() {
    let mut m = Materializer::new("/a/../b//./c");
    assert_eq!(m.target(), "/a".to_string());
    m.on_stat(StatOutcome::IsDir);
    assert_eq!(m.target(), "/a/b".to_string());
    m.on_stat(StatOutcome::IsDir);
    assert_eq!(m.target(), "/a/b/c".to_string());
    m.on_stat(StatOutcome::IsDir);
    assert_eq!(m.phase, MatPhase::Done);
}

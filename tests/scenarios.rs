use std::collections::{HashMap, HashSet};
use tidy::coordinator::{Action, Coordinator, Found, Reply};
use tidy::run::{Orchestrator, Summary};
use tidy::worker::{destination, on_copied, on_reply, plan, FileTask, Outcome, SourceEntry, WorkerStep};

#[derive(Clone, Copy, PartialEq, Debug)]
enum Kind {
    Dir,
    File,
}

/// A disk in memory, counting invocations of directory creation.
struct Disk {
    entries: HashMap<String, Kind>,
    refused: HashSet<String>,
    creations: Vec<String>,
    files: Vec<String>,
}

impl Disk {
    fn new() -> Disk {
        Disk {
            entries: HashMap::new(),
            refused: HashSet::new(),
            creations: Vec::new(),
            files: Vec::new(),
        }
    }
}

/// Serves one request to the end, doing what each action asks on `disk`.
fn serve(c: &mut Coordinator, disk: &mut Disk, dir: &str) -> Reply {
    let mut action = c.request(dir.to_string());
    loop {
        action = match action {
            Action::Reply(r) => return r,
            Action::Probe(d) => {
                let found = match disk.entries.get(&d) {
                    Some(Kind::Dir) => Found::Directory,
                    Some(Kind::File) => Found::NotDirectory,
                    None => Found::Missing,
                };
                c.probed(found)
            }
            Action::Create(d) => {
                disk.creations.push(d.clone());
                let outcome = if disk.refused.contains(&d) {
                    Err("permission denied".to_string())
                } else {
                    disk.entries.insert(d, Kind::Dir);
                    Ok(())
                };
                return c.created(outcome);
            }
        }
    }
}

fn entry(dir: &str, name: &str, is_file: bool) -> SourceEntry {
    SourceEntry {
        path: format!("{}/{}", dir, name),
        name: name.to_string(),
        is_file,
    }
}

/// A whole run over `entries`: plan, one worker per task, shutdown.
fn run(root: &str, entries: &Vec<SourceEntry>, disk: &mut Disk) -> Summary {
    let p = plan(root, entries);
    let mut c = Coordinator::new();
    let mut o = Orchestrator::new(p.skipped);
    for _ in 0..p.tasks.len() {
        assert!(o.can_spawn());
        o.worker_spawned();
    }
    for task in &p.tasks {
        let reply = serve(&mut c, disk, &task.target);
        let outcome = match on_reply(task, reply) {
            WorkerStep::Copy { from, to } => {
                let result = match disk.entries.get(&task.target) {
                    Some(Kind::Dir) => {
                        disk.files.push(to.clone());
                        Ok(())
                    }
                    _ => Err("no such directory".to_string()),
                };
                on_copied(from, to, result)
            }
            WorkerStep::Done(outcome) => outcome,
        };
        assert!(!o.close());
        o.worker_finished(outcome);
    }
    assert!(o.close());
    assert!(c.shutdown());
    o.into_summary()
}

fn junk_drawer() -> Vec<SourceEntry> {
    vec![
        entry("junk", "a.txt", true),
        entry("junk", "b.txt", true),
        entry("junk", "c.md", true),
        entry("junk", "readme", true),
    ]
}

#[test]
fn sorts_by_extension_and_skips_extensionless() {
    let mut disk = Disk::new();
    let summary = run("./sorted", &junk_drawer(), &mut disk);
    assert_eq!(summary.copied, 3);
    assert_eq!(summary.skipped, 1);
    assert_eq!(summary.failed.len(), 0);
    let files: HashSet<String> = disk.files.iter().cloned().collect();
    let expected: HashSet<String> = ["./sorted/txt/a.txt", "./sorted/txt/b.txt", "./sorted/md/c.md"]
        .iter()
        .map(|s| s.to_string())
        .collect();
    assert_eq!(files, expected);
    assert!(!disk.files.iter().any(|f| f.contains("readme")));
}

#[test]
fn plain_file_in_place_of_target_directory() {
    let mut disk = Disk::new();
    disk.entries.insert("./sorted/txt".to_string(), Kind::File);
    let summary = run("./sorted", &junk_drawer(), &mut disk);
    assert_eq!(summary.copied, 1);
    assert_eq!(summary.skipped, 1);
    assert_eq!(summary.failed.len(), 2);
    for f in &summary.failed {
        match f {
            Outcome::NotADirectory { source, target } => {
                assert!(source.ends_with(".txt"));
                assert_eq!(target, "./sorted/txt");
            }
            other => panic!("expected a directory failure, got {:?}", other),
        }
    }
    assert_eq!(disk.files, vec!["./sorted/md/c.md".to_string()]);
    assert!(disk.creations.iter().all(|d| d != "./sorted/txt"));
}

#[test]
fn one_creation_per_distinct_directory() {
    let mut disk = Disk::new();
    let mut c = Coordinator::new();
    let requests = ["o/a", "o/b", "o/a", "o/c", "o/b", "o/a", "o/c"];
    for d in requests.iter() {
        match serve(&mut c, &mut disk, d) {
            Reply::Ready(r) => assert_eq!(&r, d),
            other => panic!("expected ready, got {:?}", other),
        }
    }
    assert_eq!(disk.creations, vec!["o/a", "o/b", "o/c"]);
}

#[test]
fn many_requests_for_one_missing_directory() {
    let mut disk = Disk::new();
    let mut c = Coordinator::new();
    for _ in 0..16 {
        match serve(&mut c, &mut disk, "out/log") {
            Reply::Ready(d) => assert_eq!(d, "out/log"),
            other => panic!("expected ready, got {:?}", other),
        }
    }
    assert_eq!(disk.creations, vec!["out/log".to_string()]);
}

#[test]
fn second_run_takes_the_existing_path() {
    let mut disk = Disk::new();
    let first = run("./sorted", &junk_drawer(), &mut disk);
    let dirs_after_first = disk.entries.clone();
    let created_first = disk.creations.len();
    assert_eq!(created_first, 2);
    let second = run("./sorted", &junk_drawer(), &mut disk);
    assert_eq!(disk.creations.len(), created_first);
    assert_eq!(disk.entries, dirs_after_first);
    assert_eq!(second.copied, first.copied);
    assert_eq!(second.skipped, first.skipped);
}

#[test]
fn refused_creation_fails_each_requester_and_is_retried() {
    let mut disk = Disk::new();
    disk.refused.insert("./sorted/txt".to_string());
    let summary = run("./sorted", &junk_drawer(), &mut disk);
    assert_eq!(summary.copied, 1);
    assert_eq!(summary.failed.len(), 2);
    for f in &summary.failed {
        match f {
            Outcome::CreateFailed { target, cause, .. } => {
                assert_eq!(target, "./sorted/txt");
                assert_eq!(cause, "permission denied");
            }
            other => panic!("expected a creation failure, got {:?}", other),
        }
    }
    let txt_attempts = disk.creations.iter().filter(|d| *d == "./sorted/txt").count();
    assert_eq!(txt_attempts, 2);
}

#[test]
fn plan_passes_over_directories() {
    let entries = vec![
        entry("src", "x.rs", true),
        entry("src", "nested.d", false),
        entry("src", "Makefile", true),
        entry("src", ".env", true),
    ];
    let p = plan("out", &entries);
    assert_eq!(p.skipped, 2);
    assert_eq!(p.tasks.len(), 1);
    assert_eq!(p.tasks[0].source, "src/x.rs");
    assert_eq!(p.tasks[0].name, "x.rs");
    assert_eq!(p.tasks[0].target, "out/rs");
}

#[test]
fn plan_of_empty_directory() {
    let p = plan("out", &Vec::new());
    assert_eq!(p.skipped, 0);
    assert!(p.tasks.is_empty());
}

fn task() -> FileTask {
    FileTask {
        source: "junk/a.txt".to_string(),
        name: "a.txt".to_string(),
        target: "sorted/txt".to_string(),
    }
}

#[test]
fn destination_joins_target_and_name() {
    assert_eq!(destination(&task()), "sorted/txt/a.txt");
}

#[test]
fn worker_copies_on_ready() {
    match on_reply(&task(), Reply::Ready("sorted/txt".to_string())) {
        WorkerStep::Copy { from, to } => {
            assert_eq!(from, "junk/a.txt");
            assert_eq!(to, "sorted/txt/a.txt");
        }
        other => panic!("expected a copy, got {:?}", other),
    }
}

#[test]
fn worker_stops_on_directory_failure() {
    match on_reply(&task(), Reply::NotADirectory("sorted/txt".to_string())) {
        WorkerStep::Done(Outcome::NotADirectory { source, target }) => {
            assert_eq!(source, "junk/a.txt");
            assert_eq!(target, "sorted/txt");
        }
        other => panic!("expected a directory failure, got {:?}", other),
    }
    match on_reply(
        &task(),
        Reply::CreateFailed("sorted/txt".to_string(), "disk full".to_string()),
    ) {
        WorkerStep::Done(Outcome::CreateFailed { cause, .. }) => assert_eq!(cause, "disk full"),
        other => panic!("expected a creation failure, got {:?}", other),
    }
}

#[test]
fn copy_result_becomes_outcome() {
    let ok = on_copied("a".to_string(), "b/a".to_string(), Ok(()));
    assert!(ok.succeeded());
    match on_copied("a".to_string(), "b/a".to_string(), Err("io".to_string())) {
        Outcome::CopyFailed { source, destination, cause } => {
            assert_eq!(source, "a");
            assert_eq!(destination, "b/a");
            assert_eq!(cause, "io");
        }
        other => panic!("expected a copy failure, got {:?}", other),
    }
}

#[test]
fn orchestrator_closes_only_when_all_finished() {
    let mut o = Orchestrator::new(4);
    o.worker_spawned();
    o.worker_spawned();
    assert!(o.has_running());
    assert!(!o.close());
    o.worker_finished(on_copied("a".to_string(), "b".to_string(), Ok(())));
    assert!(!o.close());
    o.worker_finished(on_copied("c".to_string(), "d".to_string(), Err("io".to_string())));
    assert!(!o.has_running());
    assert!(o.close());
    assert!(!o.can_spawn());
    let s = o.into_summary();
    assert_eq!(s.copied, 1);
    assert_eq!(s.skipped, 4);
    assert_eq!(s.failed.len(), 1);
}

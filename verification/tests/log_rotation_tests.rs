use pmr::config::LogRotationConfig;
use pmr::error::Error;
use pmr::log_rotation::{
    backup_path_of, locate, paths_between, LogRotator, RotationStep,
};
use std::collections::BTreeMap;

/// Files kept in memory, by path.
struct Files {
    content: BTreeMap<String, Vec<u8>>,
}

impl Files {
    fn new() -> Files {
        Files { content: BTreeMap::new() }
    }

    fn write(&mut self, path: &str, bytes: &[u8]) {
        self.content.insert(path.to_string(), bytes.to_vec());
    }

    fn has(&self, path: &str) -> bool {
        self.content.contains_key(path)
    }

    fn size(&self, path: &str) -> Option<u64> {
        self.content.get(path).map(|c| c.len() as u64)
    }

    fn present(&self, rotator: &LogRotator, log_path: &str) -> Vec<bool> {
        rotator.backup_candidates(log_path).unwrap().iter().map(|p| self.has(p)).collect()
    }

    fn carry_out(&mut self, steps: Vec<RotationStep>) {
        for step in steps {
            match step {
                RotationStep::ShiftBackup { from, to, .. } => {
                    if let Some(content) = self.content.remove(&from) {
                        self.content.insert(to, content);
                    }
                }
                RotationStep::ArchiveLive { from, to } => {
                    let content = self.content.remove(&from).unwrap();
                    self.content.insert(to, content);
                }
                RotationStep::CreateLive { path } => {
                    self.content.insert(path, Vec::new());
                }
            }
        }
    }

    fn rotate_if_needed(&mut self, rotator: &LogRotator, log_path: &str) {
        let present = self.present(rotator, log_path);
        let steps = rotator.rotate_if_needed(log_path, self.size(log_path), &present).unwrap();
        self.carry_out(steps);
    }

    fn force_rotate(&mut self, rotator: &LogRotator, log_path: &str) {
        let present = self.present(rotator, log_path);
        let steps = rotator.force_rotate(log_path, self.has(log_path), &present).unwrap();
        self.carry_out(steps);
    }
}

fn policy(max_file_size: u64, max_files: usize, enabled: bool) -> LogRotationConfig {
    LogRotationConfig { max_file_size, max_files, enabled }
}

#[test]
fn test_log_rotation() {
    let log_path = "/tmp/rot/test.log";
    let rotator = LogRotator::new(policy(100, 3, true));
    let mut files = Files::new();

    files.write(log_path, &vec![b'x'; 150]);

    files.rotate_if_needed(&rotator, log_path);

    assert!(files.has(log_path));
    assert_eq!(files.size(log_path), Some(0));

    let rotated_file = "/tmp/rot/test.1.log";
    assert!(files.has(rotated_file));
    assert_eq!(files.size(rotated_file), Some(150));
}

#[test]
fn test_needs_rotation() {
    let rotator = LogRotator::new(policy(100, 3, true));

    assert!(!rotator.needs_rotation(None));

    assert!(!rotator.needs_rotation(Some(b"small".len() as u64)));

    assert!(rotator.needs_rotation(Some(150)));
}

#[test]
fn test_multiple_rotations() {
    let log_path = "/tmp/rot/test.log";
    let rotator = LogRotator::new(policy(50, 3, true));
    let mut files = Files::new();

    files.write(log_path, b"first rotation content that is longer than 50 bytes");
    files.force_rotate(&rotator, log_path);

    files.write(log_path, b"second rotation content that is also longer than 50 bytes");
    files.force_rotate(&rotator, log_path);

    let rotated_file_1 = "/tmp/rot/test.1.log";
    let rotated_file_2 = "/tmp/rot/test.2.log";

    assert!(files.has(rotated_file_1));
    assert!(files.has(rotated_file_2));

    let content_1 = String::from_utf8(files.content[rotated_file_1].clone()).unwrap();
    let content_2 = String::from_utf8(files.content[rotated_file_2].clone()).unwrap();

    assert!(content_1.contains("second rotation"));
    assert!(content_2.contains("first rotation"));
}

#[test]
fn test_disabled_rotation() {
    let rotator = LogRotator::new(policy(10, 3, false));

    assert!(!rotator.needs_rotation(Some(150)));
}

#[test]
fn test_get_rotated_files() {
    let log_path = "/tmp/rot/test.log";
    let rotator = LogRotator::new(policy(100, 5, true));
    let mut files = Files::new();

    files.write(log_path, b"");
    files.write("/tmp/rot/test.1.log", b"");
    files.write("/tmp/rot/test.2.log", b"");
    files.write("/tmp/rot/test.3.log", b"");

    let present = files.present(&rotator, log_path);
    let rotated_files = rotator.get_rotated_files(log_path, &present).unwrap();
    assert_eq!(rotated_files.len(), 3);

    assert!(rotated_files[0].contains("test.1.log"));
    assert!(rotated_files[1].contains("test.2.log"));
    assert!(rotated_files[2].contains("test.3.log"));
}

#[test]
fn needs_rotation_is_strictly_above_the_threshold() {
    let rotator = LogRotator::new(policy(100, 3, true));
    assert!(!rotator.needs_rotation(Some(100)));
    assert!(rotator.needs_rotation(Some(101)));
    assert!(!rotator.needs_rotation(Some(0)));
    assert_eq!(rotator.get_log_size(None), 0);
    assert_eq!(rotator.get_log_size(Some(77)), 77);
    assert_eq!(rotator.config(), policy(100, 3, true));
}

#[test]
fn rotate_if_needed_plans_nothing_below_the_threshold() {
    let rotator = LogRotator::new(policy(100, 3, true));
    let present = vec![true, true, true];
    assert!(rotator.rotate_if_needed("/l/a.log", Some(100), &present).unwrap().is_empty());
    assert!(rotator.rotate_if_needed("/l/a.log", None, &present).unwrap().is_empty());
    let off = LogRotator::new(policy(100, 3, false));
    assert!(off.rotate_if_needed("/l/a.log", Some(900), &present).unwrap().is_empty());
    assert!(rotator.force_rotate("/l/a.log", false, &present).unwrap().is_empty());
}

#[test]
fn rotation_plan_shifts_from_the_oldest_down() {
    let rotator = LogRotator::new(policy(100, 4, true));
    let steps = rotator.rotate_log("/l/a.log", &vec![true, false, true, true]).unwrap();
    assert_eq!(
        steps,
        vec![
            RotationStep::ShiftBackup {
                index: 3,
                from: "/l/a.3.log".to_string(),
                to: "/l/a.4.log".to_string()
            },
            RotationStep::ShiftBackup {
                index: 1,
                from: "/l/a.1.log".to_string(),
                to: "/l/a.2.log".to_string()
            },
            RotationStep::ArchiveLive {
                from: "/l/a.log".to_string(),
                to: "/l/a.1.log".to_string()
            },
            RotationStep::CreateLive { path: "/l/a.log".to_string() },
        ]
    );
}

#[test]
fn rotation_plan_treats_a_short_snapshot_as_absent() {
    let rotator = LogRotator::new(policy(100, 4, true));
    let steps = rotator.rotate_log("/l/a.log", &vec![true]).unwrap();
    assert_eq!(steps.len(), 3);
    let none = rotator.rotate_log("/l/a.log", &Vec::new()).unwrap();
    assert_eq!(none.len(), 2);
}

#[test]
fn rotation_with_no_backups_kept_still_archives_the_log() {
    let rotator = LogRotator::new(policy(100, 0, true));
    let steps = rotator.rotate_log("/l/a.log", &Vec::new()).unwrap();
    assert_eq!(
        steps,
        vec![
            RotationStep::ArchiveLive {
                from: "/l/a.log".to_string(),
                to: "/l/a.1.log".to_string()
            },
            RotationStep::CreateLive { path: "/l/a.log".to_string() },
        ]
    );
    assert!(rotator.get_rotated_files("/l/a.log", &vec![true]).unwrap().is_empty());
    assert!(rotator.backup_candidates("/l/a.log").unwrap().is_empty());
}

#[test]
fn rotating_once_more_than_the_window_keeps_the_window() {
    let log_path = "/tmp/rot/app.log";
    let rotator = LogRotator::new(policy(10, 3, true));
    let mut files = Files::new();
    for round in 1..=4u8 {
        files.write(log_path, &vec![b'0' + round; 20]);
        files.rotate_if_needed(&rotator, log_path);
        assert_eq!(files.size(log_path), Some(0));
        assert_eq!(files.content["/tmp/rot/app.1.log"], vec![b'0' + round; 20]);
    }
    let present = files.present(&rotator, log_path);
    assert_eq!(present, vec![true, true, true]);
    let listed = rotator.get_rotated_files(log_path, &present).unwrap();
    assert_eq!(
        listed,
        vec![
            "/tmp/rot/app.1.log".to_string(),
            "/tmp/rot/app.2.log".to_string(),
            "/tmp/rot/app.3.log".to_string()
        ]
    );
    assert_eq!(files.content["/tmp/rot/app.1.log"], vec![b'4'; 20]);
    assert_eq!(files.content["/tmp/rot/app.2.log"], vec![b'3'; 20]);
    assert_eq!(files.content["/tmp/rot/app.3.log"], vec![b'2'; 20]);
    assert!(!files.has("/tmp/rot/app.4.log"));
    assert_eq!(files.content.len(), 4);
}

fn names(items: &[&str]) -> Vec<String> {
    items.iter().map(|s| s.to_string()).collect()
}

#[test]
fn cleanup_names_the_backups_beyond_the_window() {
    let rotator = LogRotator::new(policy(10, 3, true));
    let found = names(&[
        "a.log",
        "a.1.log",
        "a.3.log",
        "a.4.log",
        "a.21.log",
        "a.25.log",
        "a.100000000000000000000000.log",
        "b.9.log",
        "a.9.txt",
        "a.09.log",
        "a.0.log",
        "a..log",
        "a.9.log.log",
        "a.x9.log",
        "a.9",
        "xa.9.log",
    ]);
    assert_eq!(
        rotator.cleanup_old_files("/l/a.log", &found).unwrap(),
        vec![
            "/l/a.4.log".to_string(),
            "/l/a.21.log".to_string(),
            "/l/a.25.log".to_string(),
            "/l/a.100000000000000000000000.log".to_string(),
        ]
    );
    assert!(rotator.cleanup_old_files("/l/a.log", &Vec::new()).unwrap().is_empty());
    let none = LogRotator::new(policy(10, 0, true));
    assert_eq!(
        none.cleanup_old_files("/l/a.log", &names(&["a.1.log", "a.0.log"])).unwrap(),
        vec!["/l/a.1.log".to_string()]
    );
    let wide = LogRotator::new(policy(10, usize::MAX, true));
    assert_eq!(
        wide.cleanup_old_files("/l/a.log", &names(&["a.18446744073709551615.log"])).unwrap(),
        Vec::<String>::new()
    );
    assert_eq!(
        wide.cleanup_old_files("/l/a.log", &names(&["a.18446744073709551616.log"])).unwrap(),
        vec!["/l/a.18446744073709551616.log".to_string()]
    );
    assert_eq!(
        rotator.stale_backups_in("logs", "my.service", &names(&["my.service.7.log", "my.7.log"])),
        vec!["logs/my.service.7.log".to_string()]
    );
}

#[test]
fn cleanup_leaves_the_window_and_the_log_alone() {
    let log_path = "/tmp/rot/app.log";
    let rotator = LogRotator::new(policy(10, 3, true));
    let mut files = Files::new();
    files.write(log_path, b"live");
    for number in [1usize, 2, 3, 4, 7, 25] {
        files.write(&backup_path_of("/tmp/rot", "app", number), number.to_string().as_bytes());
    }
    files.write("/tmp/rot/other.25.log", b"other");
    let listing = |files: &Files| -> Vec<String> {
        files.content.keys().map(|p| p.trim_start_matches("/tmp/rot/").to_string()).collect()
    };
    let stale = rotator.cleanup_old_files(log_path, &listing(&files)).unwrap();
    assert_eq!(stale.len(), 3);
    for path in stale {
        assert!(files.content.remove(&path).is_some());
    }
    assert_eq!(files.content[log_path], b"live".to_vec());
    assert_eq!(files.content["/tmp/rot/app.1.log"], b"1".to_vec());
    assert_eq!(files.content["/tmp/rot/app.2.log"], b"2".to_vec());
    assert_eq!(files.content["/tmp/rot/app.3.log"], b"3".to_vec());
    assert_eq!(files.content["/tmp/rot/other.25.log"], b"other".to_vec());
    assert_eq!(files.content.len(), 5);
    assert!(rotator.cleanup_old_files(log_path, &listing(&files)).unwrap().is_empty());
}

#[test]
fn paths_without_directory_or_name_are_refused() {
    let rotator = LogRotator::new(policy(10, 3, true));
    let present = vec![false, false, false];
    assert_eq!(
        rotator.rotate_log("/", &present),
        Err(Error::Other("Invalid log path".to_string()))
    );
    assert_eq!(
        rotator.get_rotated_files("", &present),
        Err(Error::Other("Invalid log path".to_string()))
    );
    assert_eq!(
        rotator.cleanup_old_files("/l/..", &Vec::new()),
        Err(Error::Other("Invalid log file name".to_string()))
    );
    assert_eq!(
        rotator.backup_candidates("/l/.."),
        Err(Error::Other("Invalid log file name".to_string()))
    );
}

#[test]
fn backup_names_carry_stem_and_number() {
    assert_eq!(backup_path_of("/var/log", "app", 1), "/var/log/app.1.log");
    assert_eq!(backup_path_of("/var/log", "app", 12), "/var/log/app.12.log");
    assert_eq!(backup_path_of("", "app", 3), "app.3.log");
    let rotator = LogRotator::new(policy(10, 2, true));
    assert_eq!(
        rotator.backup_candidates("logs/my.service.log").unwrap(),
        vec!["logs/my.service.1.log".to_string(), "logs/my.service.2.log".to_string()]
    );
    assert_eq!(
        rotator.backup_candidates("plain.log").unwrap(),
        vec!["plain.1.log".to_string(), "plain.2.log".to_string()]
    );
}

#[test]
fn plans_are_made_from_directory_and_stem() {
    let rotator = LogRotator::new(policy(10, 2, true));
    assert_eq!(locate("/var/log/app.log"), Ok(("/var/log".to_string(), "app".to_string())));
    assert_eq!(locate("app.tar.gz"), Ok(("".to_string(), "app.tar".to_string())));
    assert_eq!(
        rotator.rotation_plan("/var/log", "app", "/var/log/app.log", &vec![true, true]),
        rotator.rotate_log("/var/log/app.log", &vec![true, true]).unwrap()
    );
    assert_eq!(
        rotator.rotated_files_in("/var/log", "app", &vec![false, true]),
        vec!["/var/log/app.2.log".to_string()]
    );
    assert_eq!(
        paths_between("d", "s", 3, 5),
        vec!["d/s.4.log".to_string(), "d/s.5.log".to_string()]
    );
    assert!(paths_between("d", "s", 5, 3).is_empty());
}

#[test]
fn only_the_shift_of_a_backup_may_fail() {
    let rotator = LogRotator::new(policy(10, 3, true));
    let steps = rotator.rotate_log("/l/a.log", &vec![true, true, false]).unwrap();
    let required: Vec<bool> = steps.iter().map(|s| s.must_succeed()).collect();
    assert_eq!(required, vec![false, false, true, true]);
}

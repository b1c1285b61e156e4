use caverr::path::Component;
use caverr::stats::{report, CurrentStats, StatMessage, StatWorker};
use caverr::transformer::transform;
use caverr::worker::rsa::handler::Transformed;
use caverr::xor::XorCipher;
use rayon::iter::{IntoParallelIterator, ParallelIterator};
use std::sync::Mutex;

type Path = Vec<Component<String>>;

fn path(name: &str) -> Path {
    vec![Component::Normal(name.to_string())]
}

fn name_of(path: &Path) -> String {
    match path.last() {
        Some(Component::Normal(name)) => name.clone(),
        _ => String::new(),
    }
}

fn current(worker: &mut StatWorker) -> CurrentStats {
    worker.handle_message(StatMessage::Request).expect("an answer")
}

#[test]
fn should_handle_stats() {
    let mut stats = StatWorker::new();
    let current_stats = current(&mut stats);
    assert_eq!(current_stats.bytes, 0);
    assert_eq!(current_stats.files, 0);
    assert!(current_stats.last.is_empty());

    assert!(stats.handle_message(StatMessage::Update(10, path("1"))).is_none());
    assert!(stats.handle_message(StatMessage::Update(5, path("2"))).is_none());

    let current_stats = current(&mut stats);
    assert_eq!(current_stats.bytes, 15);
    assert_eq!(current_stats.files, 2);
    assert_eq!(name_of(&current_stats.last), "2");
}

#[test]
fn open_files_are_counted_up_and_down() {
    let mut stats = StatWorker::new();
    assert!(stats.handle_message(StatMessage::IncrementCount).is_none());
    assert!(stats.handle_message(StatMessage::IncrementCount).is_none());
    assert!(stats.handle_message(StatMessage::IncrementCount).is_none());
    assert_eq!(current(&mut stats).counter, 3);
    assert!(stats.handle_message(StatMessage::DecrementCount).is_none());
    assert_eq!(current(&mut stats).counter, 2);
    assert_eq!(current(&mut stats).files, 0);
    assert_eq!(current(&mut stats).bytes, 0);
}

#[test]
fn count_of_open_files_stays_at_zero() {
    let mut stats = StatWorker::new();
    assert!(stats.handle_message(StatMessage::DecrementCount).is_none());
    assert_eq!(current(&mut stats).counter, 0);
    stats.handle_message(StatMessage::IncrementCount);
    stats.handle_message(StatMessage::DecrementCount);
    stats.handle_message(StatMessage::DecrementCount);
    assert_eq!(current(&mut stats).counter, 0);
}

#[test]
fn request_changes_nothing() {
    let mut stats = StatWorker::new();
    stats.handle_message(StatMessage::Update(7, path("a")));
    stats.handle_message(StatMessage::IncrementCount);
    let first = current(&mut stats);
    let second = current(&mut stats);
    assert_eq!(first.bytes, second.bytes);
    assert_eq!(first.files, second.files);
    assert_eq!(first.counter, second.counter);
    assert_eq!(name_of(&first.last), name_of(&second.last));
}

#[test]
fn processed_file_is_reported_as_done_and_counted() {
    let messages = report::<String>(Ok(Transformed::Processed(42, path("out"))));
    assert_eq!(messages.len(), 2);
    assert!(matches!(messages[0], StatMessage::DecrementCount));
    match &messages[1] {
        StatMessage::Update(bytes, last) => {
            assert_eq!(*bytes, 42);
            assert_eq!(name_of(last), "out");
        }
        _ => panic!("the file is not counted"),
    }
}

#[test]
fn skipped_and_failed_files_are_only_done() {
    let messages = report::<String>(Ok(Transformed::Skipped));
    assert_eq!(messages.len(), 1);
    assert!(matches!(messages[0], StatMessage::DecrementCount));
    let messages = report(Err("failed".to_string()));
    assert_eq!(messages.len(), 1);
    assert!(matches!(messages[0], StatMessage::DecrementCount));
}

#[test]
fn hundred_files_side_by_side() {
    let stats = Mutex::new(StatWorker::new());
    let files: Vec<usize> = (0..100).collect();
    for _ in files.iter() {
        stats.lock().unwrap().handle_message(StatMessage::IncrementCount);
    }
    assert_eq!(current(&mut stats.lock().unwrap()).counter, 100);
    files.into_par_iter().for_each(|number| {
        let source: Vec<u8> = (0..65536usize).map(|i| ((i * 31 + number) % 256) as u8).collect();
        let mut encrypted = Vec::new();
        let cipher = XorCipher::new(vec![number as u8 + 1]).expect("a cipher");
        let written = transform(&source, cipher, 256, &mut encrypted).expect("never fails");
        assert_eq!(written, 65536);
        assert_ne!(encrypted, source);

        let mut decrypted = Vec::new();
        let cipher = XorCipher::new(vec![number as u8 + 1]).expect("a cipher");
        transform(&encrypted, cipher, 512, &mut decrypted).expect("never fails");
        assert_eq!(decrypted, source);

        let outcome: Result<Transformed, String> =
            Ok(Transformed::Processed(source.len() as u64, path(&number.to_string())));
        for message in report(outcome) {
            stats.lock().unwrap().handle_message(message);
        }
    });
    let mut stats = stats.into_inner().unwrap();
    let end = current(&mut stats);
    assert_eq!(end.bytes, 100 * 65536);
    assert_eq!(end.files, 100);
    assert_eq!(end.counter, 0);
}

#[test]
fn counters_take_what_fits_in_64_bits() {
    let mut stats = StatWorker::new();
    assert!(stats.accepts(&StatMessage::Update(u64::MAX, path("a"))));
    stats.handle_message(StatMessage::Update(u64::MAX - 1, path("a")));
    assert!(stats.accepts(&StatMessage::Update(1, path("b"))));
    assert!(stats.accepts(&StatMessage::Update(0, path("b"))));
    assert!(!stats.accepts(&StatMessage::Update(2, path("b"))));
    assert!(stats.accepts(&StatMessage::IncrementCount));
    assert!(stats.accepts(&StatMessage::DecrementCount));
    assert!(stats.accepts(&StatMessage::Request));
    stats.handle_message(StatMessage::Update(1, path("b")));
    let end = current(&mut stats);
    assert_eq!(end.bytes, u64::MAX);
    assert_eq!(end.files, 2);
    assert!(!stats.accepts(&StatMessage::Update(1, path("c"))));
    assert!(stats.accepts(&StatMessage::Update(0, path("c"))));
}

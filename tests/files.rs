use nginx_logs_generator::date::Date;
use nginx_logs_generator::files::{get_number_of_logs_to_write, FileCompressor, FileNameGenerator};
use nginx_logs_generator::log::FieldChoices;
use nginx_logs_generator::run::{next_record, FileTask, SizeShortfall};
use std::io::Read;

#[test]
fn file_name_generator_creates_all_names_correctly() {
    let number_of_files_to_create = 3;
    let mut file_name_generator = FileNameGenerator::new(number_of_files_to_create);
    assert_eq!("access.log.2", file_name_generator.name());
    assert_eq!("access.log.1", file_name_generator.name());
    assert_eq!("access.log", file_name_generator.name());
}

#[test]
fn file_name_compressor_must_compress_the_file() {
    assert!(!FileCompressor::new("/tmp/access.log".to_string()).must_compress_the_file());
    assert!(!FileCompressor::new("/tmp/access.log.1".to_string()).must_compress_the_file());
    assert!(FileCompressor::new("/tmp/access.log.2".to_string()).must_compress_the_file());
    assert!(FileCompressor::new("/tmp/access.log.10".to_string()).must_compress_the_file());
    assert!(FileCompressor::new("/tmp/access.log.11".to_string()).must_compress_the_file());
}

#[test]
fn file_name_generator_counts_down_past_ten() {
    let mut names = FileNameGenerator::new(12);
    assert_eq!("access.log.11", names.name());
    assert_eq!("access.log.10", names.name());
    assert_eq!("access.log.9", names.name());
}

#[test]
fn single_file_is_the_live_file() {
    let mut names = FileNameGenerator::new(1);
    assert_eq!("access.log", names.name());
    assert_eq!("access.log", names.name());
}

#[test]
fn number_of_logs_for_one_and_a_half_gigabytes() {
    assert_eq!(1_500_000_000 / 149 + 1, get_number_of_logs_to_write(1_500_000_000));
    assert_eq!(10_067_115, get_number_of_logs_to_write(1_500_000_000));
}

#[test]
fn number_of_logs_at_the_edges() {
    assert_eq!(1, get_number_of_logs_to_write(0));
    assert_eq!(1, get_number_of_logs_to_write(148));
    assert_eq!(2, get_number_of_logs_to_write(149));
    assert_eq!(123_803_651_501_406_387, get_number_of_logs_to_write(u64::MAX));
}

#[test]
fn compressed_path_adds_gz() {
    let compressor = FileCompressor::new("/tmp/logs/access.log.2".to_string());
    assert_eq!("/tmp/logs/access.log.2.gz", compressor.compressed_file_path_name());
}

#[test]
fn compressed_contents_decode_to_the_original() {
    let compressor = FileCompressor::new("/tmp/logs/access.log.2".to_string());
    let contents = b"line one\nline two\n".to_vec();
    let compressed = compressor.compress_contents(&contents);
    assert_ne!(contents, compressed);
    assert_eq!(&compressed[..2], &[0x1f, 0x8b]);
    let mut decoder = flate2::read::GzDecoder::new(&compressed[..]);
    let mut decoded = Vec::new();
    decoder.read_to_end(&mut decoded).unwrap();
    assert_eq!(contents, decoded);
}

#[test]
fn file_task_plans_name_and_records() {
    let mut names = FileNameGenerator::new(2);
    let task = FileTask::new(&mut names, 100_000);
    assert_eq!("access.log.1", task.name);
    assert_eq!(100_000, task.target_bytes);
    assert_eq!(672, task.planned_records);
    assert_eq!(Ok(100_000), task.check_size(100_000));
    assert_eq!(
        Err(SizeShortfall { expected: 100_000, created: 99_999 }),
        task.check_size(99_999)
    );
}

#[test]
fn two_small_files_in_order() {
    let mut names = FileNameGenerator::new(2);
    let mut date = Date::new(2022, 1, 1, 0, 0, 0);
    let mut last_days = Vec::new();
    let mut first_days = Vec::new();
    let mut tasks = Vec::new();
    for target in [100_000u64, 100_000u64] {
        let task = FileTask::new(&mut names, target);
        first_days.push((date.year, date.month, date.day));
        let mut written: u64 = 0;
        for _ in 0..task.planned_records {
            let line = next_record(&mut date, FieldChoices::fixed());
            written += line.len() as u64;
        }
        assert!(task.check_size(written).is_ok());
        let compressor = FileCompressor::new(format!("/tmp/logs/{}", task.name));
        assert!(!compressor.must_compress_the_file());
        last_days.push((date.year, date.month, date.day));
        date.set_next_day();
        tasks.push(task);
    }
    assert_eq!("access.log.1", tasks[0].name);
    assert_eq!("access.log", tasks[1].name);
    assert_eq!((2022, 1, 1), last_days[0]);
    assert_eq!((2022, 1, 2), first_days[1]);
}

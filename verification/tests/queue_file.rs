use tuitunes::queue_file::{format_queue, is_space_char, parse_queue};
use tuitunes::track::Track;

fn saved(text: &str) -> Vec<String> {
    parse_queue(text).iter().map(|t| t.path().to_string()).collect()
}

fn queue_from(paths: &[&str]) -> Vec<Track> {
    paths.iter().map(|p| Track::new(p.to_string())).collect()
}

#[test]
fn white_space_is_what_std_calls_white_space() {
    let mut code: u32 = 0;
    while code <= 0x10FFFF {
        if let Some(c) = char::from_u32(code) {
            assert_eq!(is_space_char(c), c.is_whitespace(), "code point {:x}", code);
        }
        code += 1;
    }
}

#[test]
fn parse_queue_takes_one_path_per_line() {
    assert_eq!(saved("/m/a.mp3\n/m/b.mp3\n/m/c.wav"), vec!["/m/a.mp3", "/m/b.mp3", "/m/c.wav"]);
}

#[test]
fn parse_queue_skips_blank_lines() {
    assert_eq!(saved("\n/m/a.mp3\n\n   \n\t\n/m/b.mp3\n"), vec!["/m/a.mp3", "/m/b.mp3"]);
    assert!(saved("").is_empty());
    assert!(saved("\n\n").is_empty());
    assert!(saved("  \n \u{a0}\n").is_empty());
}

#[test]
fn parse_queue_keeps_a_line_as_it_stands() {
    assert_eq!(saved("  /m/a b.mp3 \n/m/é.ogg\r\n"), vec!["  /m/a b.mp3 ", "/m/é.ogg\r"]);
}

#[test]
fn format_queue_joins_paths_with_line_breaks() {
    assert_eq!(
        format_queue(&queue_from(&["/m/a.mp3", "/m/b.mp3", "/m/c.wav"])),
        Some("/m/a.mp3\n/m/b.mp3\n/m/c.wav".to_string())
    );
    assert_eq!(format_queue(&queue_from(&["only.mp3"])), Some("only.mp3".to_string()));
}

#[test]
fn format_queue_of_empty_queue_is_nothing() {
    assert_eq!(format_queue(&Vec::new()), None);
}

#[test]
fn saved_queue_reads_back_as_written() {
    let paths = ["/m/z.mp3", "/m/y y.flac", "/m/é.ogg"];
    let text = format_queue(&queue_from(&paths)).unwrap();
    assert_eq!(saved(&text), paths.to_vec());
}

use prompt_triage::dataset::Framed;
use prompt_triage::error::TriageError;
use prompt_triage::store::Store;
use std::io::BufRead;
use std::path::PathBuf;

fn entries(framed: &Framed) -> Vec<(usize, String)> {
    framed.entries.iter().map(|e| (e.number, e.text.clone())).collect()
}

fn read(text: &str) -> Vec<(usize, String)> {
    let framed = Store::read_dataset(Some(text.as_bytes()));
    assert_eq!(framed.broken, None);
    entries(&framed)
}

/// The non-blank lines as std's line reader finds them.
fn expected(bytes: &[u8]) -> Vec<(usize, String)> {
    bytes
        .lines()
        .enumerate()
        .map(|(i, line)| (i + 1, line.unwrap()))
        .filter(|(_, line)| !line.trim().is_empty())
        .collect()
}

#[test]
fn missing_file_is_an_empty_dataset() {
    let framed = Store::read_dataset(None);
    assert!(framed.entries.is_empty());
    assert_eq!(framed.broken, None);
    assert!(read("").is_empty());
}

#[test]
fn blank_lines_are_skipped_but_counted() {
    let text = "{\"a\":1}\n\n  \t\n{\"b\":2}\r\n\u{3000}\n{\"c\":3}";
    assert_eq!(
        read(text),
        vec![
            (1, "{\"a\":1}".to_string()),
            (4, "{\"b\":2}".to_string()),
            (6, "{\"c\":3}".to_string()),
        ]
    );
}

#[test]
fn lines_are_cut_as_the_line_reader_cuts_them() {
    let texts = [
        "", "\n", "\r\n", "\r", "a", "a\n", "a\r\n", "a\r", "a\r\r\n", "a\nb", "a\n\nb\n", "\n\na",
        "é\n\u{2028}\nü\r\n", "a\rb\nc", " a \n",
    ];
    for text in texts {
        assert_eq!(read(text), expected(text.as_bytes()), "{text:?}");
    }
}

#[test]
fn all_whitespace_is_blank() {
    let spaces = [
        '\u{9}', '\u{b}', '\u{c}', '\u{20}', '\u{85}', '\u{a0}', '\u{1680}', '\u{2000}', '\u{2001}',
        '\u{2002}', '\u{2003}', '\u{2004}', '\u{2005}', '\u{2006}', '\u{2007}', '\u{2008}', '\u{2009}',
        '\u{200a}', '\u{2028}', '\u{2029}', '\u{202f}', '\u{205f}', '\u{3000}',
    ];
    for c in spaces {
        assert!(read(&format!("{c}{c}\n")).is_empty(), "{:x}", c as u32);
    }
    for c in ['\u{200b}', '\u{180e}', '\u{2060}', '\u{feff}', '\u{1f}', '\u{84}', '\u{8}'] {
        assert_eq!(read(&format!("{c}\n")).len(), 1, "{:x}", c as u32);
    }
}

#[test]
fn reading_stops_at_a_line_that_is_not_text() {
    let framed = Store::read_dataset(Some(b"a\n\nb\n\xff\xfe\nc\n"));
    assert_eq!(entries(&framed), vec![(1, "a".to_string()), (3, "b".to_string())]);
    assert_eq!(framed.broken, Some(4));
}

#[test]
fn appended_row_is_read_back() {
    let mut file = String::new();
    let lines = ["{\"prompt\":\"a\\nb\"}", "{\"prompt\":\"é\u{2028}\"}", "{ }"];
    for (i, line) in lines.iter().enumerate() {
        let before = read(&file);
        file.push_str(&Store::append_row(line));
        let after = read(&file);
        assert_eq!(after[..i], before[..]);
        assert_eq!(after[i], (i + 1, line.to_string()));
        let added = Store::append_row(line);
        assert_eq!(added.matches('\n').count(), 1);
        assert!(added.ends_with('\n'));
    }
}

#[test]
fn appending_behind_a_broken_line_stays_unread() {
    let mut file = b"a\n\xff\n".to_vec();
    file.extend_from_slice(Store::append_row("b").as_bytes());
    let framed = Store::read_dataset(Some(&file));
    assert_eq!(entries(&framed), vec![(1, "a".to_string())]);
    assert_eq!(framed.broken, Some(2));
}

#[test]
fn rows_stay_in_front_of_what_is_appended() {
    let front = "a\n\nb\n";
    for more in ["", "c", "c\nd\n", "\n", "\r\n x"] {
        let all = read(&format!("{front}{more}"));
        assert_eq!(all[..2], read(front)[..], "{more:?}");
    }
}

#[test]
fn appended_row_ends_its_line() {
    assert_eq!(Store::append_row("{}"), "{}\n");
    assert_eq!(Store::append_row(""), "\n");
}

#[test]
fn chosen_directory_wins() {
    let store = Store::resolve(Some(PathBuf::from("/tmp/x")), Some(PathBuf::from("/home/u/.local/share"))).unwrap();
    assert_eq!(store.dir, PathBuf::from("/tmp/x"));
    assert_eq!(Store::open(Some(PathBuf::from("/tmp/y"))).unwrap().dir, PathBuf::from("/tmp/y"));
}

#[test]
fn data_directory_is_the_default() {
    let store = Store::resolve(None, Some(PathBuf::from("/home/u/.local/share"))).unwrap();
    assert_eq!(store.dir, PathBuf::from("/home/u/.local/share/prompt-triage"));
}

#[test]
fn open_asks_the_system_for_the_data_directory() {
    match (Store::open(None), dirs::data_dir()) {
        (Ok(store), Some(data)) => assert_eq!(store.dir, data.join("prompt-triage")),
        (Err(failure), None) => assert!(matches!(failure, TriageError::NoDataDir)),
        (found, data) => panic!("{found:?} {data:?}"),
    }
}

#[test]
fn nowhere_to_keep_the_data() {
    let failure = Store::resolve(None, None).unwrap_err();
    assert!(matches!(failure, TriageError::NoDataDir));
    assert_eq!(failure.message(), "no data directory on this system");
}

#[test]
fn everything_is_inside_the_directory() {
    for dir in ["/data/triage", "/", "relative", "", "with space/", "a/./b"] {
        let store = Store::open(Some(PathBuf::from(dir))).unwrap();
        let all = [
            (store.models_dir(), "models"),
            (store.dataset_path(), "dataset.jsonl"),
            (store.pending_path(), "pending.json"),
            (store.weights_path(), "weights.json"),
        ];
        for (path, name) in &all {
            let mut parts: Vec<String> =
                store.dir.components().map(|c| c.as_os_str().to_string_lossy().into_owned()).collect();
            parts.push(name.to_string());
            let found: Vec<String> =
                path.components().map(|c| c.as_os_str().to_string_lossy().into_owned()).collect();
            assert_eq!(found, parts, "{dir}");
        }
    }
}

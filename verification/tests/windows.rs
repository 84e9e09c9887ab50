use find_program_by_name::windows::{
    find_program_by_name, find_program_by_name_at_paths, Search, Step, MAX_PATH,
};

/// A stand-in for the search primitive of the operating system: the files of
/// a host, the directories that it searches when it is given no list, and a
/// record of the calls made.
struct Primitive {
    files: Vec<String>,
    default_dirs: Vec<String>,
    calls: Vec<(String, usize)>,
}

impl Primitive {
    fn new(files: &[&str]) -> Primitive {
        Primitive {
            files: files.iter().map(|file| file.to_string()).collect(),
            default_dirs: Vec::new(),
            calls: Vec::new(),
        }
    }

    /// Looks for `file_name` in each directory of `path_list` in turn. A path
    /// that fits is copied to `buffer` with a terminating zero, and its length
    /// without the zero is returned. For one that does not fit, the length
    /// that the buffer needs is returned, the zero included. Zero is returned
    /// where there is no such file.
    fn search_path(&mut self, path_list: Option<&str>, file_name: &str, buffer: &mut [u16]) -> u32 {
        self.calls.push((file_name.to_string(), buffer.len()));
        let dirs: Vec<String> = match path_list {
            Some(list) => list.split(';').map(|dir| dir.to_string()).collect(),
            None => self.default_dirs.clone(),
        };
        for dir in dirs {
            let path = format!("{dir}\\{file_name}");
            if self.files.contains(&path) {
                let units: Vec<u16> = path.encode_utf16().collect();
                if units.len() < buffer.len() {
                    buffer[..units.len()].copy_from_slice(&units);
                    buffer[units.len()] = 0;
                    return units.len() as u32;
                }
                return units.len() as u32 + 1;
            }
        }
        0
    }
}

/// Drives `search` to its end as a program on Windows would, with
/// `primitive` in place of the operating system.
fn drive(mut search: Search, pathext: Option<&str>, primitive: &mut Primitive) -> Option<String> {
    let mut buffer: Vec<u16> = Vec::new();
    loop {
        match search.step() {
            Step::ReadPathext => search = search.pathext_returned(pathext),
            Step::Lookup => {
                buffer.resize(search.buffer_len() as usize, 0);
                let returned =
                    primitive.search_path(search.path_list(), search.file_name(), &mut buffer);
                search = search.lookup_returned(returned);
            }
            Step::Verbatim => return Some(search.name().to_string()),
            Step::Found { length } => {
                buffer.resize(length as usize, 0);
                return Some(String::from_utf16(&buffer).unwrap());
            }
            Step::NotFound => return None,
        }
    }
}

/// The files of this tree, below `test_dir`:
///
/// ```text
/// test_dir\
///   foo\
///     a\
///       a.exe
///     b.exe
///   bar\
///     a.exe
///   non-executables\
///     impostor.exe
///   a.exe
/// ```
fn create_test_tree(test_dir: &str) -> Primitive {
    Primitive::new(&[
        &format!("{test_dir}\\foo\\a\\a.exe"),
        &format!("{test_dir}\\foo\\b.exe"),
        &format!("{test_dir}\\a.exe"),
        &format!("{test_dir}\\bar\\a.exe"),
        &format!("{test_dir}\\non-executables\\impostor.exe"),
    ])
}

#[test]
fn test_has_backslashes_windows() {
    let mut primitive = Primitive::new(&[]);
    let search = find_program_by_name_at_paths("nonexistent\\file.exe", &["nonexistent_dir"]);
    assert_eq!(
        drive(search, None, &mut primitive),
        Some("nonexistent\\file.exe".to_string())
    );
    assert!(primitive.calls.is_empty());
}

#[test]
fn test_appends_extension() {
    let test_dir = "test_appends_extension";
    let mut primitive = create_test_tree(test_dir);
    let foo = format!("{test_dir}\\foo");
    let bar = format!("{test_dir}\\bar");
    let search = find_program_by_name_at_paths("a", &[&foo, test_dir, &bar]);
    assert_eq!(
        drive(search, None, &mut primitive),
        Some(format!("{test_dir}\\a.exe"))
    );
}

#[test]
fn test_has_slashes_windows() {
    let search = find_program_by_name_at_paths("nonexistent/file.exe", &["nonexistent_dir"]);
    assert_eq!(search.step(), Step::Verbatim);
    assert_eq!(search.name(), "nonexistent/file.exe");
    assert_eq!(search.path_list(), None);
    assert_eq!(search.file_name(), "");
    assert_eq!(search.buffer_len(), 0);

    let search = find_program_by_name("C:\\tools\\a.exe");
    assert_eq!(search.step(), Step::Verbatim);
    assert_eq!(search.name(), "C:\\tools\\a.exe");
}

#[test]
fn directories_are_joined_with_semicolons() {
    let search = find_program_by_name_at_paths("a", &["C:\\one", "D:\\two", "three"]);
    assert_eq!(search.step(), Step::ReadPathext);
    assert_eq!(search.path_list(), Some("C:\\one;D:\\two;three"));

    let search = find_program_by_name_at_paths("a", &["C:\\one"]);
    assert_eq!(search.path_list(), Some("C:\\one"));

    let search = find_program_by_name_at_paths("a", &[""]);
    assert_eq!(search.path_list(), Some(""));

    let search = find_program_by_name_at_paths("a", &["", "x", ""]);
    assert_eq!(search.path_list(), Some(";x;"));
}

#[test]
fn without_directories_the_system_order_is_used() {
    let search = find_program_by_name("a");
    assert_eq!(search.step(), Step::ReadPathext);
    assert_eq!(search.path_list(), None);
    let search = find_program_by_name_at_paths("a", &[]).pathext_returned(None);
    assert_eq!(search.step(), Step::Lookup);
    assert_eq!(search.path_list(), None);

    let mut primitive = Primitive::new(&["C:\\Windows\\cmd.exe"]);
    primitive.default_dirs = vec![".".to_string(), "C:\\Windows".to_string()];
    assert_eq!(
        drive(find_program_by_name("cmd"), None, &mut primitive),
        Some("C:\\Windows\\cmd.exe".to_string())
    );
}

#[test]
fn extensions_are_tried_in_order() {
    let mut search = find_program_by_name_at_paths("tool", &["d"])
        .pathext_returned(Some(".COM;.BAT;;.CMD"));
    let mut tried = Vec::new();
    while search.step() == Step::Lookup {
        assert_eq!(search.buffer_len(), MAX_PATH);
        assert_eq!(search.path_list(), Some("d"));
        tried.push(search.file_name().to_string());
        search = search.lookup_returned(0);
    }
    assert_eq!(
        tried,
        vec!["tool", "tool.exe", "tool.COM", "tool.BAT", "tool", "tool.CMD"]
    );
    assert_eq!(search.step(), Step::NotFound);
    assert_eq!(search.file_name(), "");
}

#[test]
fn default_extensions_without_pathext() {
    let mut search = find_program_by_name("aaa.bbb").pathext_returned(None);
    let mut tried = Vec::new();
    while search.step() == Step::Lookup {
        tried.push(search.file_name().to_string());
        search = search.lookup_returned(0);
    }
    assert_eq!(tried, vec!["aaa.bbb", "aaa.bbb.exe"]);
    assert_eq!(search.step(), Step::NotFound);
}

#[test]
fn extension_comes_before_directory() {
    let mut primitive = Primitive::new(&["first\\tool.exe", "second\\tool"]);
    let search = find_program_by_name_at_paths("tool", &["first", "second"]);
    assert_eq!(
        drive(search, Some(".EXE"), &mut primitive),
        Some("second\\tool".to_string())
    );
    assert_eq!(primitive.calls, vec![("tool".to_string(), 260)]);
}

#[test]
fn first_answer_that_is_not_zero_ends_the_search() {
    let search = find_program_by_name_at_paths("tool", &["d"]).pathext_returned(Some(".COM"));
    let search = search.lookup_returned(0);
    assert_eq!(search.file_name(), "tool.exe");
    let search = search.lookup_returned(10);
    assert_eq!(search.step(), Step::Found { length: 10 });
    assert_eq!(search.file_name(), "");
    let search = search.lookup_returned(0).lookup_returned(500);
    assert_eq!(search.step(), Step::Found { length: 10 });
}

#[test]
fn buffer_grows_to_the_length_asked_for() {
    let search = find_program_by_name("tool").pathext_returned(None);
    assert_eq!(search.buffer_len(), 260);
    let search = search.lookup_returned(261);
    assert_eq!(search.step(), Step::Lookup);
    assert_eq!(search.buffer_len(), 261);
    assert_eq!(search.file_name(), "tool");
    let search = search.lookup_returned(1000);
    assert_eq!(search.step(), Step::Lookup);
    assert_eq!(search.buffer_len(), 1000);
    assert_eq!(search.file_name(), "tool");
    let search = search.lookup_returned(0);
    assert_eq!(search.step(), Step::Lookup);
    assert_eq!(search.buffer_len(), 1000);
    assert_eq!(search.file_name(), "tool.exe");
    let search = search.lookup_returned(1000);
    assert_eq!(search.step(), Step::Found { length: 1000 });
}

#[test]
fn answer_as_long_as_the_buffer_is_a_path() {
    let search = find_program_by_name("tool").pathext_returned(None);
    let search = search.lookup_returned(260);
    assert_eq!(search.step(), Step::Found { length: 260 });
    let search = find_program_by_name("tool").pathext_returned(None);
    let search = search.lookup_returned(u32::MAX);
    assert_eq!(search.buffer_len(), u32::MAX);
    let search = search.lookup_returned(u32::MAX);
    assert_eq!(search.step(), Step::Found { length: u32::MAX });
}

#[test]
fn long_path_is_returned_whole() {
    let dir = format!("C:\\{}", "long\\".repeat(80));
    let file = format!("{dir}\\tool.exe");
    assert!(file.len() > 400);
    let mut primitive = Primitive::new(&[&file]);
    let search = find_program_by_name_at_paths("tool", &["C:\\short", &dir]);
    assert_eq!(drive(search, None, &mut primitive), Some(file.clone()));
    assert_eq!(
        primitive.calls,
        vec![
            ("tool".to_string(), 260),
            ("tool.exe".to_string(), 260),
            ("tool.exe".to_string(), file.len() + 1),
        ]
    );
}

#[test]
fn no_extension_gives_a_file() {
    let test_dir = "test_no_extension";
    let mut primitive = create_test_tree(test_dir);
    let search = find_program_by_name_at_paths("c", &[test_dir]);
    assert_eq!(drive(search, Some(".COM;.BAT"), &mut primitive), None);
    assert_eq!(primitive.calls.len(), 4);
}

#[test]
fn answers_out_of_turn_change_nothing_on_windows() {
    let search = find_program_by_name("tool").lookup_returned(5);
    assert_eq!(search.step(), Step::ReadPathext);
    let search = search.pathext_returned(None).pathext_returned(Some(".X"));
    assert_eq!(search.file_name(), "tool");
    let search = search.lookup_returned(0).lookup_returned(0);
    assert_eq!(search.step(), Step::NotFound);
    let search = search.pathext_returned(Some(".X"));
    assert_eq!(search.step(), Step::NotFound);
}

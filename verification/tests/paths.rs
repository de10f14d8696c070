use movie_player::{history_label, MediaPath, PersistedState};
use std::path::{Path, PathBuf};

const SPELLINGS: [&str; 29] = [
    "", ".", "..", "/", "//", "./", "/.", "a", "a/", "./a", "a/.", "a//b", "a/b", "a/./b", "a/../b",
    "/a", "//a", "/./a", "/a/", "/a/b.mp4", "/a//b.mp4", "/a/b.mp4/", "/a/b.mp4/.", "a/..", "../a",
    "...", ".a", "/動画/映画.mkv", "./.",
];

#[test]
fn paths_are_the_same_exactly_where_std_says_so() {
    for a in SPELLINGS {
        for b in SPELLINGS {
            let ours = MediaPath::from_text(a).same(&MediaPath::from_text(b));
            assert_eq!(ours, Path::new(a) == Path::new(b), "{:?} {:?}", a, b);
        }
    }
}

#[test]
fn file_names_are_those_of_std() {
    for a in SPELLINGS {
        let ours = MediaPath::from_text(a).file_name();
        let theirs = Path::new(a)
            .file_name()
            .and_then(|name| name.to_str())
            .map(|name| name.as_bytes().to_vec());
        assert_eq!(ours, theirs, "{:?}", a);
    }
}

#[test]
fn joining_is_that_of_std() {
    for a in SPELLINGS {
        for b in SPELLINGS {
            let ours = MediaPath::from_text(a).join(b);
            let theirs = PathBuf::from(a).join(b);
            assert_eq!(ours.bytes, theirs.to_str().unwrap().as_bytes(), "{:?} {:?}", a, b);
        }
    }
}

#[test]
fn sameness_is_an_equivalence() {
    let a = MediaPath::from_text("/v/./a.mp4");
    let b = MediaPath::from_text("/v//a.mp4");
    let c = MediaPath::from_text("/v/a.mp4/");
    assert!(a.same(&a));
    assert!(a.same(&b) && b.same(&a));
    assert!(b.same(&c) && a.same(&c));
    assert!(!a.same(&MediaPath::from_text("v/a.mp4")));
}

#[test]
fn text_of_a_path_replaces_what_is_not_utf8() {
    assert_eq!(MediaPath::from_text("/v/映画.mp4").to_text(), "/v/映画.mp4");
    let broken = MediaPath {
        bytes: vec![b'/', b'v', 0xff, b'x'],
    };
    assert_eq!(broken.to_text(), "/v\u{FFFD}x");
}

#[test]
fn labels_number_the_files_from_one() {
    assert_eq!(history_label(0, &MediaPath::from_text("/v/a.mp4")), "1. a.mp4");
    assert_eq!(history_label(49, &MediaPath::from_text("/v/映画.mkv/")), "50. 映画.mkv");
    assert_eq!(history_label(122, &MediaPath::from_text("b")), "123. b");
}

#[test]
fn labels_of_files_without_a_readable_name() {
    assert_eq!(history_label(0, &MediaPath::from_text("/")), "1. (unknown)");
    assert_eq!(history_label(1, &MediaPath::from_text("/v/..")), "2. (unknown)");
    assert_eq!(history_label(2, &MediaPath::from_text(".")), "3. (unknown)");
    let broken = MediaPath {
        bytes: vec![b'/', b'v', b'/', 0xff],
    };
    assert_eq!(history_label(3, &broken), "4. (unknown)");
    let broken_folder = MediaPath {
        bytes: vec![b'/', 0xff, b'/', b'a'],
    };
    assert_eq!(history_label(4, &broken_folder), "5. a");
}

#[test]
fn state_file_stands_below_the_home_directory() {
    let home = MediaPath::from_text("/Users/me");
    let mac = PersistedState::state_file_path(Some(&home), true).unwrap();
    assert_eq!(
        mac.to_text(),
        "/Users/me/Library/Application Support/movie_player/state.txt"
    );
    let other = PersistedState::state_file_path(Some(&home), false).unwrap();
    assert_eq!(other.to_text(), "/Users/me/.config/movie_player/state.txt");
    let root = PersistedState::state_file_path(Some(&MediaPath::from_text("/")), false).unwrap();
    assert_eq!(root.to_text(), "/.config/movie_player/state.txt");
    let empty = PersistedState::state_file_path(Some(&MediaPath::from_text("")), false).unwrap();
    assert_eq!(empty.to_text(), ".config/movie_player/state.txt");
    assert!(PersistedState::state_file_path(None, true).is_none());
}

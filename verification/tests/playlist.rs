use playout::playlist::{
    back_index, drawn_index, playlist_of, skip_index, ListedFile, Scan, ScanError,
};

fn listed(path: &str) -> ListedFile {
    let parts: Vec<&str> = path.split('/').filter(|p| !p.is_empty()).collect();
    let name = parts[parts.len() - 1].to_string();
    let extension = name.rsplit_once('.').map(|(_, e)| e.to_string());
    ListedFile {
        path: path.to_string(),
        key: parts.iter().map(|p| p.as_bytes().to_vec()).collect(),
        name: Some(name),
        extension,
    }
}

#[test]
fn skip_wraps_and_floors_to_one() {
    assert_eq!(skip_index(0, 1, 5), 1);
    assert_eq!(skip_index(3, 3, 5), 1); // 3+3=6 % 5
    assert_eq!(skip_index(4, 1, 5), 0); // wrap
    assert_eq!(skip_index(2, 0, 5), 3); // n<1 treated as 1
    assert_eq!(skip_index(2, -4, 5), 3);
}

#[test]
fn back_wraps_and_floors_to_one() {
    assert_eq!(back_index(1, 1, 5), 0);
    assert_eq!(back_index(0, 1, 5), 4); // wrap
    assert_eq!(back_index(2, 3, 5), 4); // 2-3 mod 5
    assert_eq!(back_index(3, 0, 5), 2); // n<1 treated as 1
}

#[test]
fn back_undoes_skip() {
    for active in 0..5usize {
        for n in [1, 2, 5, 7, i32::MAX] {
            assert_eq!(back_index(skip_index(active, n, 5), n, 5), active);
            assert_eq!(skip_index(back_index(active, n, 5), n, 5), active);
        }
    }
}

#[test]
fn moves_at_the_limits_stay_in_the_playlist() {
    assert_eq!(skip_index(0, i32::MAX, 3), 2_147_483_647 % 3);
    assert_eq!(back_index(0, i32::MIN, 3), 2);
    assert_eq!(skip_index(0, 1, 1), 0);
    assert_eq!(back_index(0, 1, 1), 0);
}

#[test]
fn playlist_keeps_clips_in_path_order() {
    let files = vec![
        listed("/corpus/b.mp4"),
        listed("/corpus/sub/b.mp4"),
        listed("/corpus/notes.txt"),
        listed("/corpus/a.MP4"),
        listed("/corpus/noext"),
        listed("/corpus/a/z.Mp4"),
    ];
    let clips = playlist_of("/corpus", files).unwrap();
    let paths: Vec<&str> = clips.iter().map(|c| c.path.as_str()).collect();
    // By component, so that a directory comes before the names it is a prefix of.
    assert_eq!(
        paths,
        ["/corpus/a/z.Mp4", "/corpus/a.MP4", "/corpus/b.mp4", "/corpus/sub/b.mp4"]
    );
    assert_eq!(clips[1].name.as_deref(), Some("a.MP4"));
}

#[test]
fn playlist_without_clips_is_an_error() {
    let err = playlist_of("/corpus", vec![listed("/corpus/notes.txt")]).err().unwrap();
    assert!(matches!(&err, ScanError::NoClips { dir } if dir == "/corpus"));
    assert_eq!(err.message(), "no .mp4 files found in /corpus");
    assert!(playlist_of("/corpus", Vec::new()).is_err());
}

#[test]
fn scan_reads_every_directory_of_the_tree() {
    // 0 holds 1 and 2; 1 holds 3.
    let subdirs: [&[u64]; 4] = [&[1, 2], &[3], &[], &[]];
    let found: [&[&str]; 4] = [
        &["/r/a.MP4"],
        &["/r/sub/b.mp4", "/r/sub/notes.txt"],
        &[],
        &["/r/sub/deep/c.mp4"],
    ];
    let mut scan = Scan::new(0);
    let mut read = Vec::new();
    while let Some(dir) = scan.next_dir() {
        read.push(dir);
        for sub in subdirs[dir as usize] {
            scan.found_dir(*sub);
        }
        for file in found[dir as usize] {
            scan.found_file(listed(file));
        }
    }
    read.sort();
    assert_eq!(read, [0, 1, 2, 3]);
    let clips = playlist_of("/r", scan.files).unwrap();
    let names: Vec<&str> = clips.iter().map(|c| c.name.as_deref().unwrap()).collect();
    assert_eq!(names, ["a.MP4", "b.mp4", "c.mp4"]);
}

#[test]
fn drawn_index_is_the_remainder() {
    assert_eq!(drawn_index(0, 7), 0);
    assert_eq!(drawn_index(23, 7), 2);
    assert_eq!(drawn_index(u64::MAX, 10), 5);
    assert_eq!(drawn_index(u64::MAX, 1), 0);
}

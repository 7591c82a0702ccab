use test262_harness::{Error, Harness, WalkEntry};

fn file(path: &str, name: &str) -> Result<WalkEntry, String> {
    Ok(WalkEntry { path: path.to_string(), file_name: name.to_string(), is_dir: false })
}

fn dir(path: &str, name: &str) -> Result<WalkEntry, String> {
    Ok(WalkEntry { path: path.to_string(), file_name: name.to_string(), is_dir: true })
}

#[test]
fn walker_keeps_scripts_only() {
    let entries = vec![
        dir("root/sub", "sub"),
        file("root/sub/a.js", "a.js"),
        file("root/sub/b_FIXTURE.js", "b_FIXTURE.js"),
        file("root/sub/notes.txt", "notes.txt"),
        file("root/sub/.js", ".js"),
        file("root/sub/d.js", "d.js"),
    ];
    let mut harness = Harness::new(entries).unwrap();
    assert_eq!(harness.next_path(), Some("root/sub/a.js".to_string()));
    assert_eq!(harness.next_path(), Some("root/sub/d.js".to_string()));
    assert_eq!(harness.next_path(), None);
    assert_eq!(harness.next_path(), None);
}

#[test]
fn walker_aborts_on_first_failure() {
    let entries = vec![
        file("root/a.js", "a.js"),
        Err("permission denied".to_string()),
        file("root/b.js", "b.js"),
    ];
    let err = Harness::new(entries).unwrap_err();
    assert_eq!(err, Error::WalkDir("permission denied".to_string()));
}

#[test]
fn end_to_end_excludes_fixture_before_extraction() {
    let valid = "/*---\nid: good\n---*/\nlet x = 1;";
    let malformed = "/*---\nflags: [whatIsThis]\n---*/\nlet y = 2;";
    let entries = vec![
        file("root/good.js", "good.js"),
        file("root/bad.js", "bad.js"),
        file("root/aux_FIXTURE.js", "aux_FIXTURE.js"),
    ];
    let mut harness = Harness::new(entries).unwrap();
    let mut results = Vec::new();
    while let Some(path) = harness.next_path() {
        let contents = if path == "root/good.js" { valid } else { malformed };
        results.push(Harness::create_test(contents.to_string(), path));
    }
    assert_eq!(results.len(), 2);
    let good = results[0].as_ref().unwrap();
    assert_eq!(good.path, "root/good.js");
    assert_eq!(good.desc.id, Some("good".to_string()));
    assert!(matches!(results[1], Err(Error::Yaml(_))));
}

use msod_stat::item::{Item, ItemType, Parent};
use msod_stat::size::{
    add_name, bucket_by_size, choose_hash, dirname, ignore_path, list_item, HashBucket, ItemHash,
};

fn file(name: &str, size: u64, drive_type: &str, path: Option<&str>, sha: Option<&str>, xor: Option<&str>) -> Item {
    Item {
        id: format!("id-{}", name),
        name: name.to_string(),
        size,
        parent: Parent { path: path.map(|p| p.to_string()), drive_type: drive_type.to_string() },
        item_type: ItemType::File {
            hashes: Some(msod_stat::item::Hash { sha: sha.map(|s| s.to_string()), xor: xor.map(|s| s.to_string()) }),
        },
        deleted: None,
    }
}

fn personal(name: &str, size: u64, path: &str, sha: &str) -> Item {
    file(name, size, "personal", Some(path), Some(sha), None)
}

fn names(buckets: &Vec<HashBucket>, hash: &ItemHash) -> Vec<String> {
    buckets.iter().filter(|b| &b.hash == hash).flat_map(|b| b.names.clone()).collect()
}

fn sha(text: &str) -> ItemHash {
    ItemHash::Sha1(text.to_string())
}

#[test]
fn duplicate_bucketing() {
    let items = vec![
        personal("A", 1000, "/drive/root:/d", "X"),
        personal("B", 1000, "/drive/root:/d2", "X"),
        personal("C", 1000, "/drive/root:/d3", "Y"),
        personal("file.svn-base", 1000, "/drive/root:/.svn/pristine/ab", "X"),
    ];
    let (files, folders, by_size) = bucket_by_size(&items);
    assert_eq!(files, 4);
    assert_eq!(folders, 0);
    assert_eq!(by_size.len(), 1);
    let buckets = &by_size[&1000];
    assert_eq!(buckets.len(), 2);
    assert_eq!(names(buckets, &sha("X")), vec!["d/A".to_string(), "d2/B".to_string()]);
    assert_eq!(names(buckets, &sha("Y")), vec!["d3/C".to_string()]);
    assert!(buckets.iter().find(|b| b.hash == sha("X")).unwrap().is_duplicate());
    assert!(!buckets.iter().find(|b| b.hash == sha("Y")).unwrap().is_duplicate());
}

#[test]
fn svn_pristine_copies_are_ignored() {
    assert!(ignore_path("proj/.svn/pristine/ab", "abcdef.svn-base"));
    assert!(ignore_path("/.svn/pristine/", ".svn-base"));
    assert!(!ignore_path("proj/.svn/pristine/ab", "abcdef.svn-base.txt"));
    assert!(!ignore_path("proj/.svn/pristine", "abcdef.svn-base"));
    assert!(!ignore_path("proj/svn/pristine/ab", "abcdef.svn-base"));
    assert!(!ignore_path(".svn/pristine/ab", "abcdef.svn-base"));
    assert!(!ignore_path("", ""));
    assert!(!ignore_path("abcdef.svn-base", "proj/.svn/pristine/ab"));
}

#[test]
fn the_root_prefix_is_stripped_once() {
    assert_eq!(dirname("/drive/root:/d"), "d");
    assert_eq!(dirname("/drive/root:/"), "");
    assert_eq!(dirname("/drive/root:/a/b/c"), "a/b/c");
    assert_eq!(dirname("/drive/root:"), "/drive/root:");
    assert_eq!(dirname("x/drive/root:/d"), "x/drive/root:/d");
    assert_eq!(dirname("/drive/root:/drive/root:/d"), "drive/root:/d");
    assert_eq!(dirname("/drive/root://drive/root:/d"), "/drive/root:/d");
    assert_eq!(dirname(""), "");
    assert_eq!(dirname("/drive/root:/é"), "é");
}

#[test]
fn the_hash_goes_by_the_kind_of_drive() {
    let both = |kind: &str| file("n", 1, kind, Some("/drive/root:/d"), Some("S"), Some("Q"));
    assert_eq!(choose_hash(&both("personal")), Some(ItemHash::Sha1("S".to_string())));
    assert_eq!(choose_hash(&both("business")), Some(ItemHash::QuickXor("Q".to_string())));
    assert_eq!(choose_hash(&both("documentLibrary")), Some(ItemHash::QuickXor("Q".to_string())));
    assert_eq!(choose_hash(&both("other")), None);
    assert_eq!(choose_hash(&both("Personal")), None);
    assert_eq!(choose_hash(&both("")), None);
    assert_eq!(choose_hash(&file("n", 1, "personal", None, None, Some("Q"))), None);
    assert_eq!(choose_hash(&file("n", 1, "business", None, Some("S"), None)), None);
    let mut folder = both("personal");
    folder.item_type = ItemType::Folder {};
    assert_eq!(choose_hash(&folder), None);
    let mut bare = both("personal");
    bare.item_type = ItemType::File { hashes: None };
    assert_eq!(choose_hash(&bare), None);
}

#[test]
fn an_item_is_listed_under_its_directory_and_name() {
    let item = personal("report.txt", 7, "/drive/root:/docs/2020", "S");
    assert_eq!(list_item(&item), Some((sha("S"), "docs/2020/report.txt".to_string())));
    let at_root = personal("report.txt", 7, "/drive/root:/", "S");
    assert_eq!(list_item(&at_root), Some((sha("S"), "/report.txt".to_string())));
    let elsewhere = personal("report.txt", 7, "/drives/x", "S");
    assert_eq!(list_item(&elsewhere), Some((sha("S"), "/drives/x/report.txt".to_string())));
}

#[test]
fn files_that_are_not_listed_are_still_counted() {
    let mut folder = personal("dir", 0, "/drive/root:/", "S");
    folder.item_type = ItemType::Folder {};
    let mut package = personal("notes", 5, "/drive/root:/", "S");
    package.item_type = ItemType::Package {};
    let mut no_hashes = personal("one.one", 5, "/drive/root:/n", "S");
    no_hashes.item_type = ItemType::File { hashes: None };
    let items = vec![
        file("orphan", 5, "personal", None, Some("S"), None),
        no_hashes,
        file("nosha", 5, "personal", Some("/drive/root:/d"), None, Some("Q")),
        file("noxor", 5, "business", Some("/drive/root:/d"), Some("S"), None),
        file("alien", 5, "mystery", Some("/drive/root:/d"), Some("S"), Some("Q")),
        personal("x.svn-base", 5, "/drive/root:/w/.svn/pristine/00", "S"),
        folder,
        package,
        file("kept", 5, "documentLibrary", Some("/drive/root:/d"), None, Some("Q")),
    ];
    let (files, folders, by_size) = bucket_by_size(&items);
    assert_eq!(files, 7);
    assert_eq!(folders, 2);
    assert_eq!(by_size.len(), 1);
    assert_eq!(by_size[&5].len(), 1);
    assert_eq!(by_size[&5][0].hash, ItemHash::QuickXor("Q".to_string()));
    assert_eq!(by_size[&5][0].names, vec!["d/kept".to_string()]);
}

#[test]
fn sizes_come_in_rising_order_and_hashes_of_two_kinds_stay_apart() {
    let items = vec![
        personal("a", 30, "/drive/root:/p", "H"),
        file("b", 30, "business", Some("/drive/root:/p"), None, Some("H")),
        personal("c", 10, "/drive/root:/p", "H"),
        personal("d", 20, "/drive/root:/p", "H"),
        personal("e", 30, "/drive/root:/q", "H"),
        personal("f", 0, "/drive/root:/q", "H"),
    ];
    let (files, folders, by_size) = bucket_by_size(&items);
    assert_eq!((files, folders), (6, 0));
    assert_eq!(by_size.keys().copied().collect::<Vec<u64>>(), vec![0, 10, 20, 30]);
    let largest_first: Vec<u64> = by_size.keys().rev().copied().collect();
    assert_eq!(largest_first, vec![30, 20, 10, 0]);
    let thirty = &by_size[&30];
    assert_eq!(thirty.len(), 2);
    assert_eq!(names(thirty, &sha("H")), vec!["p/a".to_string(), "q/e".to_string()]);
    assert_eq!(names(thirty, &ItemHash::QuickXor("H".to_string())), vec!["p/b".to_string()]);
    assert_eq!(names(&by_size[&10], &sha("H")), vec!["p/c".to_string()]);
}

#[test]
fn every_listed_file_stands_once_under_its_size_and_hash() {
    let mut items = Vec::new();
    for n in 0..60u64 {
        let name = format!("f{}", n);
        let path = format!("/drive/root:/dir{}", n % 4);
        let hash = format!("H{}", n % 3);
        items.push(personal(&name, n % 5, &path, &hash));
    }
    let (files, folders, by_size) = bucket_by_size(&items);
    assert_eq!((files, folders), (60, 0));
    let mut seen = 0;
    for (size, buckets) in by_size.iter() {
        assert!(!buckets.is_empty());
        for (at, bucket) in buckets.iter().enumerate() {
            assert!(!bucket.names.is_empty());
            assert!(buckets.iter().skip(at + 1).all(|other| other.hash != bucket.hash));
            let expected: Vec<String> = items
                .iter()
                .filter(|i| i.size == *size && choose_hash(i).as_ref() == Some(&bucket.hash))
                .map(|i| list_item(i).unwrap().1)
                .collect();
            assert_eq!(bucket.names, expected);
            seen += bucket.names.len();
        }
    }
    assert_eq!(seen, 60);
}

#[test]
fn no_items_give_no_buckets() {
    let (files, folders, by_size) = bucket_by_size(&Vec::new());
    assert_eq!((files, folders), (0, 0));
    assert!(by_size.is_empty());
}

#[test]
fn a_name_goes_to_the_bucket_of_its_hash() {
    let mut buckets = Vec::new();
    add_name(&mut buckets, sha("X"), "one".to_string());
    add_name(&mut buckets, sha("Y"), "two".to_string());
    add_name(&mut buckets, sha("X"), "three".to_string());
    add_name(&mut buckets, ItemHash::QuickXor("X".to_string()), "four".to_string());
    assert_eq!(
        buckets,
        vec![
            HashBucket { hash: sha("X"), names: vec!["one".to_string(), "three".to_string()] },
            HashBucket { hash: sha("Y"), names: vec!["two".to_string()] },
            HashBucket { hash: ItemHash::QuickXor("X".to_string()), names: vec!["four".to_string()] },
        ]
    );
    assert!(sha("X").same_as(&sha("X")));
    assert!(!sha("X").same_as(&sha("Y")));
    assert!(!sha("X").same_as(&ItemHash::QuickXor("X".to_string())));
}

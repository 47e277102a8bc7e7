use xkcdfs::file::{File, FileType};

#[test]
fn file_from_inode() {
    // Root-level
    assert_eq!(File::from_inode(0), None);
    assert_eq!(File::from_inode(1), Some(File::Root));
    assert_eq!(File::from_inode(2), Some(File::Refresh));
    assert_eq!(File::from_inode(3), Some(File::Credits));
    assert_eq!(File::from_inode(4), None);

    // Image 1
    assert_eq!(File::from_inode(0x00000001_00000000), Some(File::Image(1)));
    assert_eq!(File::from_inode(0x00000001_00000001), Some(File::MetaFolder(1)));
    assert_eq!(File::from_inode(0x00000001_00000002), Some(File::AltText(1)));
    assert_eq!(File::from_inode(0x00000001_00000003), Some(File::Title(1)));
    assert_eq!(File::from_inode(0x00000001_00000004), Some(File::Transcript(1)));
    assert_eq!(File::from_inode(0x00000001_00000005), Some(File::Date(1)));
    assert_eq!(File::from_inode(0x00000001_00000006), Some(File::RawImage(1)));
    assert_eq!(File::from_inode(0x00000001_00000007), None);

    // Image 0xFFFFFFFF
    assert_eq!(File::from_inode(0xFFFFFFFF_00000000), Some(File::Image(0xFFFFFFFF)));
    assert_eq!(File::from_inode(0xFFFFFFFF_00000001), Some(File::MetaFolder(0xFFFFFFFF)));
    assert_eq!(File::from_inode(0xFFFFFFFF_00000002), Some(File::AltText(0xFFFFFFFF)));
    assert_eq!(File::from_inode(0xFFFFFFFF_00000003), Some(File::Title(0xFFFFFFFF)));
    assert_eq!(File::from_inode(0xFFFFFFFF_00000004), Some(File::Transcript(0xFFFFFFFF)));
    assert_eq!(File::from_inode(0xFFFFFFFF_00000005), Some(File::Date(0xFFFFFFFF)));
    assert_eq!(File::from_inode(0xFFFFFFFF_00000006), Some(File::RawImage(0xFFFFFFFF)));
    assert_eq!(File::from_inode(0xFFFFFFFF_00000007), None);
}

#[test]
fn file_inode_both_ways() {
    let mut interesting_numbers: Vec<u32> = Vec::new();

    interesting_numbers.extend(0..0x2FF);
    interesting_numbers.extend(0xFFFFFFF0..=0xFFFFFFFF);

    for lower_half in interesting_numbers.iter() {
        for upper_half in interesting_numbers.iter() {
            let inode: u64 = (*upper_half as u64) << 32 | (*lower_half as u64);

            let file = File::from_inode(inode);

            match file {
                Some(f) => assert_eq!(f.inode(), inode),
                None => {}
            }
        }
    }
}

#[test]
fn file_has_name() {
    assert_eq!(File::Root.filename(), "");

    assert_eq!(File::Refresh.filename(), "refresh");

    assert_eq!(File::Image(1).filename(), "comic_0001.png");
    assert_eq!(File::Image(123456).filename(), "comic_123456.png");

    assert_eq!(File::MetaFolder(1).filename(), "info_0001");
    assert_eq!(File::MetaFolder(123456).filename(), "info_123456");

    assert_eq!(File::AltText(1).filename(), "alt");
    assert_eq!(File::AltText(123456).filename(), "alt");
}

#[test]
fn file_from_name() {
    // Successes: Parent is root
    assert_eq!(Some(File::Refresh), File::from_filename(&File::Root, "refresh"));
    assert_eq!(Some(File::Credits), File::from_filename(&File::Root, "credits"));
    assert_eq!(Some(File::Image(1)), File::from_filename(&File::Root, "comic_1.png"));
    assert_eq!(Some(File::Image(123456)), File::from_filename(&File::Root, "comic_123456.png"));
    assert_eq!(Some(File::MetaFolder(1)), File::from_filename(&File::Root, "info_1"));
    assert_eq!(Some(File::MetaFolder(123456)), File::from_filename(&File::Root, "info_123456"));

    // Failures: Parent is root
    assert_eq!(None, File::from_filename(&File::Root, "foobar.png"));
    assert_eq!(None, File::from_filename(&File::Root, "comic_asdf.png"));
    assert_eq!(None, File::from_filename(&File::Root, "info_baz"));
    assert_eq!(None, File::from_filename(&File::Root, "alt"));
    assert_eq!(None, File::from_filename(&File::Root, "title"));
    assert_eq!(None, File::from_filename(&File::Root, "transcript"));
    assert_eq!(None, File::from_filename(&File::Root, "date"));
    assert_eq!(None, File::from_filename(&File::Root, "raw_image"));

    // Successes: Parent is metafolder
    assert_eq!(Some(File::AltText(1)), File::from_filename(&File::MetaFolder(1), "alt"));
    assert_eq!(Some(File::AltText(123456)), File::from_filename(&File::MetaFolder(123456), "alt"));
    assert_eq!(Some(File::Title(1)), File::from_filename(&File::MetaFolder(1), "title"));
    assert_eq!(Some(File::Title(123456)), File::from_filename(&File::MetaFolder(123456), "title"));
    assert_eq!(Some(File::Transcript(1)), File::from_filename(&File::MetaFolder(1), "transcript"));
    assert_eq!(
        Some(File::Transcript(123456)),
        File::from_filename(&File::MetaFolder(123456), "transcript")
    );
    assert_eq!(Some(File::Date(1)), File::from_filename(&File::MetaFolder(1), "date"));
    assert_eq!(Some(File::Date(123456)), File::from_filename(&File::MetaFolder(123456), "date"));
    assert_eq!(Some(File::RawImage(1)), File::from_filename(&File::MetaFolder(1), "raw_image"));
    assert_eq!(
        Some(File::RawImage(123456)),
        File::from_filename(&File::MetaFolder(123456), "raw_image")
    );

    // Failures: Parent is a metafolder but we request a root file
    assert_eq!(None, File::from_filename(&File::MetaFolder(1), "comic_1.png"));
    assert_eq!(None, File::from_filename(&File::MetaFolder(1), "info_1"));
    assert_eq!(None, File::from_filename(&File::MetaFolder(1), "foobar"));

    // Failures: Parent is a regular file
    assert_eq!(None, File::from_filename(&File::Image(1), ""));
    assert_eq!(None, File::from_filename(&File::Image(123456), ""));

    assert_eq!(None, File::from_filename(&File::AltText(1), ""));
    assert_eq!(None, File::from_filename(&File::AltText(123456), ""));

    assert_eq!(None, File::from_filename(&File::Title(1), ""));
    assert_eq!(None, File::from_filename(&File::Title(123456), ""));

    assert_eq!(None, File::from_filename(&File::Transcript(1), ""));
    assert_eq!(None, File::from_filename(&File::Transcript(123456), ""));

    assert_eq!(None, File::from_filename(&File::Date(1), ""));
    assert_eq!(None, File::from_filename(&File::Date(123456), ""));

    assert_eq!(None, File::from_filename(&File::RawImage(1), ""));
    assert_eq!(None, File::from_filename(&File::RawImage(123456), ""));
}

fn exp_child(f: File) -> Option<(u64, FileType, String)> {
    Some((f.inode(), f.filetype(), f.filename()))
}

#[test]
fn root_child_by_index_1_comic() {
    assert_eq!(
        Some((File::Root.inode(), File::Root.filetype(), ".".to_string())),
        File::Root.child_by_index(0, 1)
    );
    assert_eq!(
        Some((File::Root.inode(), File::Root.filetype(), "..".to_string())),
        File::Root.child_by_index(1, 1)
    );
    assert_eq!(exp_child(File::Refresh), File::Root.child_by_index(2, 1));
    assert_eq!(exp_child(File::Credits), File::Root.child_by_index(3, 1));
    assert_eq!(exp_child(File::Image(1)), File::Root.child_by_index(4, 1));
    assert_eq!(exp_child(File::MetaFolder(1)), File::Root.child_by_index(5, 1));
    assert_eq!(None, File::Root.child_by_index(6, 1));
}

#[test]
fn root_child_by_index_10000_comics() {
    assert_eq!(
        Some((File::Root.inode(), File::Root.filetype(), ".".to_string())),
        File::Root.child_by_index(0, 10_000)
    );
    assert_eq!(
        Some((File::Root.inode(), File::Root.filetype(), "..".to_string())),
        File::Root.child_by_index(1, 10_000)
    );
    assert_eq!(exp_child(File::Refresh), File::Root.child_by_index(2, 10_000));
    assert_eq!(exp_child(File::Credits), File::Root.child_by_index(3, 10_000));

    for i in 4..10_004 {
        assert_eq!(exp_child(File::Image(i - 3)), File::Root.child_by_index(i as u64, 10_000));
    }

    for i in 10_004..20_004 {
        assert_eq!(
            exp_child(File::MetaFolder(i - 10_003)),
            File::Root.child_by_index(i as u64, 10_000)
        );
    }

    assert_eq!(None, File::Root.child_by_index(20_004, 10_000));
}

#[test]
fn metafile_child_by_index() {
    assert_eq!(
        Some((File::MetaFolder(1).inode(), File::MetaFolder(1).filetype(), ".".to_string())),
        File::MetaFolder(1).child_by_index(0, 1)
    );

    assert_eq!(
        Some((File::Root.inode(), File::MetaFolder(1).filetype(), "..".to_string())),
        File::MetaFolder(1).child_by_index(1, 1)
    );

    assert_eq!(
        Some((File::AltText(1).inode(), File::AltText(1).filetype(), "alt".to_string())),
        File::MetaFolder(1).child_by_index(2, 1)
    );

    assert_eq!(
        Some((File::Title(1).inode(), File::Title(1).filetype(), "title".to_string())),
        File::MetaFolder(1).child_by_index(3, 1)
    );

    assert_eq!(
        Some((File::Transcript(1).inode(), File::Transcript(1).filetype(), "transcript".to_string())),
        File::MetaFolder(1).child_by_index(4, 1)
    );

    assert_eq!(
        Some((File::Date(1).inode(), File::Date(1).filetype(), "date".to_string())),
        File::MetaFolder(1).child_by_index(5, 1)
    );

    assert_eq!(
        Some((File::RawImage(1).inode(), File::RawImage(1).filetype(), "raw_image".to_string())),
        File::MetaFolder(1).child_by_index(6, 1)
    );

    assert_eq!(None, File::MetaFolder(1).child_by_index(7, 1));

    assert_eq!(None, File::MetaFolder(2).child_by_index(0, 1));
}

#[test]
fn every_file_decodes_from_its_inode() {
    let numbers: [u32; 5] = [1, 2, 42, 0x1234_5678, u32::MAX];
    for &n in numbers.iter() {
        let files = [
            File::Image(n),
            File::MetaFolder(n),
            File::AltText(n),
            File::Title(n),
            File::Transcript(n),
            File::Date(n),
            File::RawImage(n),
        ];
        for f in files.iter() {
            assert_eq!(File::from_inode(f.inode()), Some(*f));
        }
    }
    for f in [File::Root, File::Refresh, File::Credits].iter() {
        assert_eq!(File::from_inode(f.inode()), Some(*f));
    }
    assert_eq!(File::Title(7).inode(), 0x00000007_00000003);
}

#[test]
fn every_name_resolves_in_its_parent() {
    let numbers: [u32; 6] = [1, 9, 10, 999, 1000, u32::MAX];
    for &n in numbers.iter() {
        let image = File::Image(n);
        assert_eq!(File::from_filename(&File::Root, &image.filename()), Some(image));
        let folder = File::MetaFolder(n);
        assert_eq!(File::from_filename(&File::Root, &folder.filename()), Some(folder));
        for f in [
            File::AltText(n),
            File::Title(n),
            File::Transcript(n),
            File::Date(n),
            File::RawImage(n),
        ]
        .iter()
        {
            assert_eq!(File::from_filename(&folder, &f.filename()), Some(*f));
            assert_eq!(File::from_filename(&File::Root, &f.filename()), None);
        }
    }
    assert_eq!(File::from_filename(&File::Root, "credits"), Some(File::Credits));
}

#[test]
fn names_outside_the_convention_resolve_to_nothing() {
    assert_eq!(File::from_filename(&File::Root, "comic_0.png"), None);
    assert_eq!(File::from_filename(&File::Root, "comic_0000.png"), None);
    assert_eq!(File::from_filename(&File::Root, "info_0"), None);
    assert_eq!(File::from_filename(&File::Root, "comic_4294967296.png"), None);
    assert_eq!(File::from_filename(&File::Root, "comic_4294967295.png"), Some(File::Image(u32::MAX)));
    assert_eq!(File::from_filename(&File::Root, "comic_.png"), None);
    assert_eq!(File::from_filename(&File::Root, "info_"), None);
    assert_eq!(File::from_filename(&File::Root, "comic_0042.png"), Some(File::Image(42)));
    assert_eq!(File::from_filename(&File::Root, "info_0042"), Some(File::MetaFolder(42)));
    assert_eq!(File::from_filename(&File::Root, ""), None);
    assert_eq!(File::from_filename(&File::MetaFolder(3), ".."), None);
}

#[test]
fn a_plus_sign_may_lead_a_number() {
    assert_eq!(File::from_filename(&File::Root, "comic_+1.png"), Some(File::Image(1)));
    assert_eq!(File::from_filename(&File::Root, "info_+1"), Some(File::MetaFolder(1)));
    assert_eq!(File::from_filename(&File::Root, "comic_+0.png"), None);
    assert_eq!(File::from_filename(&File::Root, "comic_+.png"), None);
    assert_eq!(File::from_filename(&File::Root, "info_++1"), None);
    assert_eq!(File::from_filename(&File::Root, "info_-1"), None);
}

#[test]
fn the_folder_of_no_comic_lists_nothing() {
    assert_eq!(File::MetaFolder(0).child_by_index(0, 10), None);
    assert_eq!(File::MetaFolder(0).child_by_index(2, 10), None);
}

#[test]
fn root_listing_bounds() {
    for k in [0u64, 1, 2, 5].iter() {
        let k = *k;
        let dot = File::Root.child_by_index(0, k).unwrap();
        assert_eq!(dot.2, ".");
        let dotdot = File::Root.child_by_index(1, k).unwrap();
        assert_eq!(dotdot.2, "..");
        for i in 0..(2 * k + 4) {
            assert!(File::Root.child_by_index(i, k).is_some());
        }
        assert_eq!(File::Root.child_by_index(2 * k + 4, k), None);
    }
}

#[test]
fn info_folder_lists_seven_entries() {
    let folder = File::from_filename(&File::Root, "info_0042").unwrap();
    let mut names: Vec<String> = Vec::new();
    let mut i: u64 = 0;
    while let Some((_, _, name)) = folder.child_by_index(i, 42) {
        names.push(name);
        i += 1;
    }
    assert_eq!(names, vec![".", "..", "alt", "title", "transcript", "date", "raw_image"]);
    assert_eq!(folder.child_by_index(0, 41), None);
}

use filebrowser::browse::{
    check_access, check_is_dir, check_root, check_target, has_role, is_within, listing_response,
    make_dir_entry, relative_sub_path, select_volume, sort_listing, EntryMetadata,
};
use filebrowser::browse::{continue_listing, start_listing, ListingAnswer, ListingStep, ListingWait};
use filebrowser::types::{BrowseResponse, DirEntry, EntryType, Permission, UtcTime};
use filebrowser::volume::Volume;

fn entry(name: &str, dir: bool) -> DirEntry {
    DirEntry {
        name: name.to_string(),
        entry_type: if dir { EntryType::Directory } else { EntryType::File },
        size: 0,
        created_at: None,
        updated_at: None,
    }
}

fn names(entries: &[DirEntry]) -> Vec<String> {
    entries.iter().map(|e| e.name.clone()).collect()
}

fn volume(id: u64, role_id: u64) -> Volume {
    Volume {
        id,
        name: format!("v{}", id),
        path: format!("/srv/v{}", id),
        role_id,
        permission: Permission::ReadOnly,
    }
}

fn error_message(r: &BrowseResponse) -> Option<String> {
    match r {
        BrowseResponse::Error { message } => Some(message.clone()),
        _ => None,
    }
}

#[test]
fn listing_puts_directories_first_then_names() {
    let entries = vec![
        entry("b.txt", false),
        entry("Music", true),
        entry("a.txt", false),
        entry("docs", true),
        entry("C.md", false),
    ];
    let sorted = sort_listing(&entries);
    assert_eq!(names(&sorted), vec!["docs", "Music", "a.txt", "b.txt", "C.md"]);
}

#[test]
fn listing_is_stable_for_equal_names() {
    let entries = vec![entry("README", false), entry("x", true), entry("readme", false), entry("Readme", false)];
    let sorted = sort_listing(&entries);
    assert_eq!(names(&sorted), vec!["x", "README", "readme", "Readme"]);
}

#[test]
fn listing_of_nothing() {
    assert!(sort_listing(&Vec::new()).is_empty());
}

#[test]
fn listing_sorted_twice_is_unchanged() {
    let entries = vec![entry("z", false), entry("y", true), entry("Y", true), entry("a", false)];
    let once = sort_listing(&entries);
    let twice = sort_listing(&once);
    assert_eq!(once, twice);
}

#[test]
fn volume_lookup() {
    let volumes = vec![volume(1, 10), volume(2, 20), volume(2, 30)];
    assert_eq!(select_volume(&volumes, 2), Ok(volume(2, 20)));
    let missing = select_volume(&volumes, 9).unwrap_err();
    assert_eq!(error_message(&missing), Some("Volume not found".to_string()));
}

#[test]
fn access_needs_the_volume_role() {
    let v = volume(1, 10);
    assert!(has_role(&vec![5, 10], 10));
    assert!(!has_role(&vec![], 10));
    assert_eq!(check_access(&Some(vec![3, 10]), &v), Ok(()));
    let denied = check_access(&Some(vec![3]), &v).unwrap_err();
    assert_eq!(error_message(&denied), Some("Access denied".to_string()));
    let unknown = check_access(&None, &v).unwrap_err();
    assert_eq!(error_message(&unknown), Some("Access denied".to_string()));
}

#[test]
fn resolving_paths() {
    assert_eq!(check_root(Some("/srv".to_string())), Ok("/srv".to_string()));
    assert_eq!(
        error_message(&check_root(None).unwrap_err()),
        Some("Volume directory does not exist".to_string())
    );
    assert_eq!(relative_sub_path("///a/b"), "a/b");
    assert_eq!(relative_sub_path("a/b/"), "a/b/");
    assert_eq!(relative_sub_path("/"), "");
    assert_eq!(relative_sub_path(""), "");
}

#[test]
fn targets_stay_inside_the_root() {
    assert!(is_within("/srv/data", "/srv/data"));
    assert!(is_within("/srv/data", "/srv/data/photos"));
    assert!(!is_within("/srv/data", "/srv/database"));
    assert!(!is_within("/srv/data", "/srv"));
    assert!(!is_within("/srv/data", "/etc/passwd"));
    assert!(is_within("/", "/etc"));
    assert_eq!(check_target("/srv/data", Some("/srv/data/a".to_string())), Ok("/srv/data/a".to_string()));
    assert_eq!(
        error_message(&check_target("/srv/data", Some("/srv/other".to_string())).unwrap_err()),
        Some("Access denied".to_string())
    );
    assert_eq!(
        error_message(&check_target("/srv/data", None).unwrap_err()),
        Some("Directory not found".to_string())
    );
    assert_eq!(check_is_dir(true), Ok(()));
    assert_eq!(error_message(&check_is_dir(false).unwrap_err()), Some("Not a directory".to_string()));
}

#[test]
fn entries_from_metadata() {
    let t = UtcTime { secs: 1431648000, nanos: 5 };
    let m = EntryMetadata { is_dir: true, len: 4096, created: Some(t), modified: None };
    let e = make_dir_entry("docs".to_string(), Some(m));
    assert_eq!(e.entry_type, EntryType::Directory);
    assert_eq!(e.size, 4096);
    assert_eq!(e.created_at, Some(t));
    assert_eq!(e.updated_at, None);
    let f = make_dir_entry("x".to_string(), None);
    assert_eq!(f, entry("x", false));
}

#[test]
fn listing_answers() {
    let r = listing_response(Ok(vec![entry("b", false), entry("a", true)]));
    match r {
        BrowseResponse::DirectoryListing { entries } => assert_eq!(names(&entries), vec!["a", "b"]),
        _ => panic!("expected a listing"),
    }
    let e = listing_response(Err("permission denied".to_string()));
    assert_eq!(error_message(&e), Some("Failed to read directory: permission denied".to_string()));
}

fn error(msg: &str) -> ListingStep {
    ListingStep::Reply(BrowseResponse::Error { message: msg.to_string() })
}

fn waiting(step: ListingStep) -> ListingWait {
    match step {
        ListingStep::Wait(w) => w,
        ListingStep::Reply(r) => panic!("unexpected reply {:?}", r),
    }
}

#[test]
fn listing_steps_in_order() {
    let volumes = vec![volume(1, 7), volume(2, 8)];
    assert_eq!(start_listing(&volumes, 9, "/"), error("Volume not found"));
    let w = waiting(start_listing(&volumes, 2, "//docs"));
    assert_eq!(w, ListingWait::MemberRoles { volume: volume(2, 8), relative: "docs".to_string() });
    assert_eq!(continue_listing(w, ListingAnswer::Roles(Some(vec![7]))), error("Access denied"));
    let w = waiting(start_listing(&volumes, 2, "/docs"));
    assert_eq!(continue_listing(w, ListingAnswer::Roles(None)), error("Access denied"));

    let w = waiting(start_listing(&volumes, 2, "/docs"));
    let w = waiting(continue_listing(w, ListingAnswer::Roles(Some(vec![8]))));
    assert_eq!(w, ListingWait::Root { volume_path: "/srv/v2".to_string(), relative: "docs".to_string() });
    assert_eq!(
        continue_listing(ListingWait::Root { volume_path: "/srv/v2".into(), relative: "docs".into() }, ListingAnswer::Canonical(None)),
        error("Volume directory does not exist")
    );
    let w = waiting(continue_listing(w, ListingAnswer::Canonical(Some("/srv/v2".into()))));
    assert_eq!(w, ListingWait::Target { root: "/srv/v2".to_string(), relative: "docs".to_string() });
    assert_eq!(
        continue_listing(ListingWait::Target { root: "/srv/v2".into(), relative: "docs".into() }, ListingAnswer::Canonical(None)),
        error("Directory not found")
    );
    assert_eq!(
        continue_listing(ListingWait::Target { root: "/srv/v2".into(), relative: "..".into() }, ListingAnswer::Canonical(Some("/srv".into()))),
        error("Access denied")
    );
    let w = waiting(continue_listing(w, ListingAnswer::Canonical(Some("/srv/v2/docs".into()))));
    assert_eq!(w, ListingWait::IsDir { target: "/srv/v2/docs".to_string() });
    assert_eq!(
        continue_listing(ListingWait::IsDir { target: "/srv/v2/docs".into() }, ListingAnswer::IsDirectory(false)),
        error("Not a directory")
    );
    let w = waiting(continue_listing(w, ListingAnswer::IsDirectory(true)));
    assert_eq!(
        continue_listing(ListingWait::Entries { target: "/srv/v2/docs".into() }, ListingAnswer::Read(Err("denied".into()))),
        error("Failed to read directory: denied")
    );
    match continue_listing(w, ListingAnswer::Read(Ok(vec![entry("b.txt", false), entry("a", true)]))) {
        ListingStep::Reply(BrowseResponse::DirectoryListing { entries }) => assert_eq!(names(&entries), vec!["a", "b.txt"]),
        other => panic!("unexpected {:?}", other),
    }
}

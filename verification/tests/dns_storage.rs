//! Where the journal is kept, and who may touch it.

use vapour_protection::dns_storage::{
    acl_length, build_journal_path, check_allowed_entry, check_descriptor, check_entry_header,
    check_entry_sid, check_entry_size, descriptor_read, descriptor_words, entry_shape,
    object_info, object_missing, prepare_storage, range_in_region, sid_accepted,
    sid_header_in_region, sid_length, storage_path, trusted_journal_path, validate_acl_shape,
    validate_file_acl_shape, wide_path, win32_code, AceKind, AclEntryShape, AclShape, Creation,
    ObjectInfo, Principal, Storage, StorageAction, StorageEvent, StoragePart, StoragePhase,
    FULL_CONTROL_MASK,
};

#[test]
fn builds_the_fixed_journal_leaf_beneath_program_data() {
    let path = build_journal_path(r"C:\ProgramData").unwrap();
    assert_eq!(path, r"C:\ProgramData\Vapour\Protection\dns-recovery.json");
}

#[test]
fn rejects_program_data_paths_that_are_not_local_absolute_roots() {
    for path in [
        "relative",
        r"\\server\share\ProgramData",
        r"C:\ProgramData\..\Other",
        r"C:\ProgramData\.\Other",
    ] {
        assert!(build_journal_path(path).is_err(), "accepted {path:?}");
    }
}

fn secure() -> AclShape {
    AclShape {
        owner: Principal::Administrators,
        dacl_present: true,
        dacl_protected: true,
        entries: vec![
            AclEntryShape::allow(Principal::Administrators),
            AclEntryShape::allow(Principal::LocalSystem),
        ],
    }
}

#[test]
fn acl_policy_allows_only_admin_and_system_full_control() {
    let shape = AclShape {
        owner: Principal::Administrators,
        dacl_present: true,
        dacl_protected: true,
        entries: vec![
            AclEntryShape::allow(Principal::Administrators),
            AclEntryShape::allow(Principal::LocalSystem),
        ],
    };
    assert!(validate_acl_shape(&shape).is_ok());
}

#[test]
fn acl_policy_rejects_missing_protection_or_extra_principals() {
    let mut shape = AclShape {
        owner: Principal::Administrators,
        dacl_present: true,
        dacl_protected: false,
        entries: vec![
            AclEntryShape::allow(Principal::Administrators),
            AclEntryShape::allow(Principal::LocalSystem),
        ],
    };
    assert!(validate_acl_shape(&shape).is_err());

    shape.dacl_protected = true;
    shape
        .entries
        .push(AclEntryShape::allow(Principal::Everyone));
    assert!(validate_acl_shape(&shape).is_err());
}

#[test]
fn acl_policy_rejects_denies_and_inherited_entries() {
    let mut shape = AclShape {
        owner: Principal::LocalSystem,
        dacl_present: true,
        dacl_protected: true,
        entries: vec![
            AclEntryShape::allow(Principal::Administrators),
            AclEntryShape::allow(Principal::LocalSystem),
        ],
    };
    shape.entries[0].kind = AceKind::Deny;
    assert!(validate_acl_shape(&shape).is_err());

    shape.entries[0].kind = AceKind::Allow;
    shape.entries[0].inherited = true;
    assert!(validate_acl_shape(&shape).is_err());
}

#[test]
fn acl_policy_rejects_non_full_control_masks_and_inheritance_flags() {
    let mut shape = AclShape {
        owner: Principal::Administrators,
        dacl_present: true,
        dacl_protected: true,
        entries: vec![
            AclEntryShape::allow(Principal::Administrators),
            AclEntryShape::allow(Principal::LocalSystem),
        ],
    };
    shape.entries[0].mask = 0x120089;
    assert!(validate_acl_shape(&shape).is_err());
    shape.entries[0].mask = FULL_CONTROL_MASK;
    shape.entries[0].flags = 0;
    assert!(validate_acl_shape(&shape).is_err());
}

#[test]
fn file_policy_accepts_only_inherited_admin_and_system_entries() {
    let mut shape = AclShape {
        owner: Principal::Administrators,
        dacl_present: true,
        dacl_protected: false,
        entries: vec![
            AclEntryShape::allow(Principal::Administrators),
            AclEntryShape::allow(Principal::LocalSystem),
        ],
    };
    shape.entries[0].flags = 0;
    shape.entries[1].flags = 0;
    shape.entries[0].inherited = true;
    shape.entries[1].inherited = true;
    assert!(validate_file_acl_shape(&shape).is_ok());

    shape.entries[1].inherited = false;
    assert!(validate_file_acl_shape(&shape).is_err());
}

#[test]
fn each_fault_of_an_access_list_is_named() {
    let fault = |change: fn(&mut AclShape)| {
        let mut shape = secure();
        change(&mut shape);
        validate_acl_shape(&shape).unwrap_err()
    };
    assert_eq!(
        fault(|shape| shape.owner = Principal::Other),
        "the storage owner is not Administrators or SYSTEM"
    );
    assert_eq!(
        fault(|shape| shape.dacl_present = false),
        "the storage object has no DACL"
    );
    assert_eq!(
        fault(|shape| shape.entries.truncate(1)),
        "the storage DACL must contain exactly two entries"
    );
    assert_eq!(
        fault(|shape| shape.dacl_protected = false),
        "the storage directory DACL is not protected"
    );
    assert_eq!(
        fault(|shape| shape.entries[1].mask = 0),
        "the storage DACL contains an unsafe entry"
    );
    assert_eq!(
        fault(|shape| shape.entries[1].inherited = true),
        "the storage directory DACL contains inherited entries"
    );
    assert_eq!(
        fault(|shape| shape.entries[1].principal = Principal::Administrators),
        "the storage DACL contains an unexpected principal"
    );
    let mut mixed = secure();
    mixed.dacl_protected = false;
    assert_eq!(
        validate_file_acl_shape(&mixed),
        Err("the inherited journal DACL contains explicit entries")
    );
}

#[test]
fn each_fault_of_the_folder_is_named() {
    let fault = |path: &str| build_journal_path(path).unwrap_err();
    assert_eq!(
        fault(r"C:\a\..\b"),
        "ProgramData contains traversal components"
    );
    assert_eq!(
        fault("C:/a/./b"),
        "ProgramData contains traversal components"
    );
    assert_eq!(
        fault(r"\\.\C:\data"),
        "ProgramData contains traversal components"
    );
    for path in [
        r"\\server\share\data",
        "//server/share/data",
        r"\\?\UNC\server\share",
        r"\\?\C:data",
        r"\\?\Volume\data",
    ] {
        assert_eq!(fault(path), "ProgramData must be on a local drive", "{path}");
    }
    for path in ["", "data", r"\data", "/data", r"\\server", r"\\\share", "1:\\data"] {
        assert_eq!(
            fault(path),
            "ProgramData must be an absolute local path",
            "{path}"
        );
    }
    for path in ["C:", "C:data", r"\\?\C:"] {
        assert_eq!(
            fault(path),
            "ProgramData must have a rooted local path",
            "{path}"
        );
    }
    for path in [r"C:\", r"C:\\/", r"\\?\C:\"] {
        assert_eq!(fault(path), "ProgramData must name a directory", "{path}");
    }
}

#[test]
fn parts_of_the_storage_lie_below_the_folder() {
    assert_eq!(
        storage_path("d:/Data/", StoragePart::Product),
        Ok(r"d:/Data/Vapour".to_owned())
    );
    assert_eq!(
        storage_path(r"C:\Data", StoragePart::Protection),
        Ok(r"C:\Data\Vapour\Protection".to_owned())
    );
    assert_eq!(
        storage_path(r"C:\Data", StoragePart::Root),
        Ok(r"C:\Data".to_owned())
    );
    assert_eq!(
        build_journal_path(r"\\?\C:\Data\\Own\"),
        Ok(r"\\?\C:\Data\Own\Vapour\Protection\dns-recovery.json".to_owned())
    );
}

const DIRECTORY: ObjectInfo = ObjectInfo {
    directory: true,
    reparse: false,
};

const FILE: ObjectInfo = ObjectInfo {
    directory: false,
    reparse: false,
};

fn found(object: ObjectInfo) -> StorageEvent {
    StorageEvent::Inspected(Ok(Some(object)))
}

#[test]
fn a_secure_layout_is_trusted() {
    let mut storage = trusted_journal_path(Ok(r"C:\ProgramData".to_owned())).unwrap();
    assert_eq!(storage.phase(), StoragePhase::Inspect);
    assert_eq!(
        storage.step(found(DIRECTORY)),
        StorageAction::Inspect(StoragePart::Product)
    );
    assert_eq!(
        storage.path(StoragePart::Product),
        r"C:\ProgramData\Vapour"
    );
    assert_eq!(
        storage.step(found(DIRECTORY)),
        StorageAction::Describe(StoragePart::Product)
    );
    assert_eq!(
        storage.step(StorageEvent::Described(Ok(secure()))),
        StorageAction::Inspect(StoragePart::Protection)
    );
    storage.step(found(DIRECTORY));
    assert_eq!(
        storage.step(StorageEvent::Described(Ok(secure()))),
        StorageAction::Inspect(StoragePart::Journal)
    );
    assert_eq!(
        storage.step(found(FILE)),
        StorageAction::Describe(StoragePart::Journal)
    );
    assert_eq!(
        storage.step(StorageEvent::Described(Ok(secure()))),
        StorageAction::Finish
    );
    assert_eq!(
        storage.outcome(),
        Ok(r"C:\ProgramData\Vapour\Protection\dns-recovery.json".to_owned())
    );
}

#[test]
fn missing_directories_are_made_and_looked_at_again() {
    let mut storage = prepare_storage(Ok(r"C:\ProgramData".to_owned())).unwrap();
    storage.step(found(DIRECTORY));
    assert_eq!(
        storage.step(StorageEvent::Inspected(Ok(None))),
        StorageAction::Create(StoragePart::Product)
    );
    assert_eq!(
        storage.step(StorageEvent::Created(Creation::Exists)),
        StorageAction::Inspect(StoragePart::Product)
    );
    storage.step(found(DIRECTORY));
    storage.step(StorageEvent::Described(Ok(secure())));
    assert_eq!(
        storage.step(StorageEvent::Inspected(Ok(None))),
        StorageAction::Create(StoragePart::Protection)
    );
    storage.step(StorageEvent::Created(Creation::Created));
    storage.step(found(DIRECTORY));
    storage.step(StorageEvent::Described(Ok(secure())));
    assert_eq!(
        storage.step(StorageEvent::Inspected(Ok(None))),
        StorageAction::Finish
    );
    assert!(storage.outcome().is_ok());

    let mut raced = prepare_storage(Ok(r"C:\ProgramData".to_owned())).unwrap();
    raced.step(found(DIRECTORY));
    raced.step(StorageEvent::Inspected(Ok(None)));
    raced.step(StorageEvent::Created(Creation::Exists));
    assert_eq!(
        raced.step(StorageEvent::Inspected(Ok(None))),
        StorageAction::Finish
    );
    assert_eq!(
        raced.outcome(),
        Err("Vapour storage directory is missing".to_owned())
    );
}

#[test]
fn unsafe_layouts_are_refused() {
    let begun = |prepare: bool| {
        let folder = Ok(r"C:\ProgramData".to_owned());
        if prepare {
            prepare_storage(folder).unwrap()
        } else {
            trusted_journal_path(folder).unwrap()
        }
    };
    assert_eq!(
        trusted_journal_path(Err("no folder".to_owned())).unwrap_err(),
        "no folder"
    );
    assert!(prepare_storage(Ok("relative".to_owned())).is_err());

    let mut gone = begun(true);
    gone.step(StorageEvent::Inspected(Ok(None)));
    assert_eq!(gone.outcome(), Err("ProgramData does not exist".to_owned()));

    let mut link = begun(true);
    link.step(found(ObjectInfo {
        directory: true,
        reparse: true,
    }));
    assert_eq!(
        link.outcome(),
        Err("ProgramData is a reparse point".to_owned())
    );

    let mut missing = begun(false);
    missing.step(found(DIRECTORY));
    missing.step(StorageEvent::Inspected(Ok(None)));
    assert_eq!(
        missing.outcome(),
        Err("Vapour storage directory is missing".to_owned())
    );

    let mut file = begun(true);
    file.step(found(DIRECTORY));
    file.step(found(FILE));
    assert_eq!(
        file.outcome(),
        Err("Vapour storage component is not a directory".to_owned())
    );

    let mut open = begun(true);
    open.step(found(DIRECTORY));
    open.step(found(DIRECTORY));
    let mut shape = secure();
    shape.dacl_protected = false;
    open.step(StorageEvent::Described(Ok(shape)));
    assert_eq!(
        open.outcome(),
        Err("Vapour ACL rejected: the storage directory DACL is not protected".to_owned())
    );

    let mut denied = begun(true);
    denied.step(found(DIRECTORY));
    denied.step(StorageEvent::Inspected(Ok(None)));
    denied.step(StorageEvent::Created(Creation::Failed("denied".to_owned())));
    assert_eq!(
        denied.outcome(),
        Err("creating Vapour storage directory failed: denied".to_owned())
    );
}

#[test]
fn descriptors_are_measured_before_they_are_read() {
    assert_eq!(descriptor_words(false, 122, 10), Ok(3));
    assert!(descriptor_words(true, 0, 10).is_err());
    assert_eq!(
        descriptor_words(false, 5, 10),
        Err("GetFileSecurityW sizing failed (5)".to_owned())
    );
    assert_eq!(
        descriptor_words(false, 122, 65_537),
        Err("security descriptor exceeds the validation limit".to_owned())
    );
    assert_eq!(descriptor_read(true, 0, 12, 3), Ok(12));
    assert!(descriptor_read(true, 0, 13, 3).is_err());
    assert_eq!(
        descriptor_read(false, 5, 0, 3),
        Err("GetFileSecurityW read failed (5)".to_owned())
    );
    assert!(check_descriptor(StoragePart::Product, true, true, 32).is_ok());
    assert_eq!(
        check_descriptor(StoragePart::Product, true, true, 33),
        Err("Vapour DACL contains too many entries".to_owned())
    );
    assert_eq!(
        check_descriptor(StoragePart::Journal, false, true, 0),
        Err("DNS recovery journal has an invalid owner SID".to_owned())
    );
}

#[test]
fn memory_is_looked_at_inside_its_region() {
    assert!(range_in_region(100, 10, 100, 10));
    assert!(!range_in_region(100, 11, 100, 10));
    assert!(!range_in_region(99, 5, 100, 10));
    assert!(!range_in_region(usize::MAX, 2, 100, 10));
    assert!(!range_in_region(usize::MAX, 0, usize::MAX, 2));
    assert_eq!(acl_length(100, 28, 100, 28), Some(28));
    assert_eq!(acl_length(100, 28, 100, 27), None);
    assert_eq!(acl_length(100, 4, 100, 28), None);
    assert_eq!(acl_length(100, 10, 100, 28), None);
    assert!(check_entry_header(108, 100, 28).is_ok());
    assert!(check_entry_header(126, 100, 28).is_err());
    assert!(check_entry_size(108, 20, 100, 28, 100, 28).is_ok());
    assert!(check_entry_size(108, 24, 100, 28, 100, 64).is_err());
    assert!(check_entry_size(108, 6, 100, 28, 100, 64).is_err());
    assert!(check_allowed_entry(12).is_ok());
    assert!(check_allowed_entry(8).is_err());
    assert!(sid_header_in_region(100, 8, 100, 8));
    assert!(!sid_header_in_region(100, 7, 100, 8));
    assert_eq!(sid_length(100, 2, 16, 100, 16), Some(16));
    assert_eq!(sid_length(100, 2, 15, 100, 16), None);
    assert_eq!(sid_length(100, 16, 100, 100, 100), None);
    assert_eq!(sid_accepted(16, true, 16), Some(16));
    assert_eq!(sid_accepted(16, true, 12), None);
    assert_eq!(sid_accepted(16, false, 16), None);
    assert!(check_entry_sid(Some(16)).is_ok());
    assert!(check_entry_sid(None).is_err());
}

#[test]
fn entries_other_than_allowing_ones_deny() {
    assert_eq!(
        entry_shape(0, 0x13, FULL_CONTROL_MASK, Principal::LocalSystem),
        AclEntryShape {
            principal: Principal::LocalSystem,
            kind: AceKind::Allow,
            mask: FULL_CONTROL_MASK,
            flags: 0x03,
            inherited: true
        }
    );
    let denied = entry_shape(1, 0x03, FULL_CONTROL_MASK, Principal::LocalSystem);
    assert_eq!(denied.kind, AceKind::Deny);
    assert_eq!(denied.principal, Principal::Other);
    assert_eq!(denied.mask, 0);
    assert!(!denied.inherited);
}

#[test]
fn paths_and_codes_of_the_system_are_checked() {
    assert_eq!(wide_path(vec![67, 58]), Ok(vec![67, 58, 0]));
    assert!(wide_path(Vec::new()).is_err());
    assert!(wide_path(vec![67, 0, 58]).is_err());
    assert!(wide_path(vec![67; 32_768]).is_err());
    assert_eq!(win32_code(0x8007_00b7), 183);
    assert_eq!(win32_code(0x8000_4005), 0x8000_4005);
    assert_eq!(object_info(0x10, 0x10), DIRECTORY);
    assert_eq!(
        object_info(0x20, 0x400),
        ObjectInfo {
            directory: false,
            reparse: true
        }
    );
    assert_eq!(object_missing(2), Ok(()));
    assert_eq!(object_missing(3), Ok(()));
    assert_eq!(
        object_missing(5),
        Err("reading storage path attributes failed (5)".to_owned())
    );
}

/// Looks through the storage with the directories that are there, and makes those that
/// are asked for.
fn look_through(mut storage: Storage, directories: &mut Vec<StoragePart>) -> Result<String, String> {
    let mut action = StorageAction::Inspect(StoragePart::Root);
    loop {
        let event = match action {
            StorageAction::Inspect(part) if directories.contains(&part) => found(DIRECTORY),
            StorageAction::Inspect(_) => StorageEvent::Inspected(Ok(None)),
            StorageAction::Create(part) => {
                directories.push(part);
                StorageEvent::Created(Creation::Created)
            }
            StorageAction::Describe(_) => StorageEvent::Described(Ok(secure())),
            StorageAction::Finish => return storage.outcome(),
        };
        action = storage.step(event);
    }
}

#[test]
fn storage_that_was_prepared_is_trusted() {
    let folder = || Ok(r"C:\ProgramData".to_owned());
    let mut directories = vec![StoragePart::Root];
    let before = look_through(trusted_journal_path(folder()).unwrap(), &mut directories);
    assert_eq!(
        before,
        Err("Vapour storage directory is missing".to_owned())
    );
    assert_eq!(directories, [StoragePart::Root]);
    let prepared = look_through(prepare_storage(folder()).unwrap(), &mut directories);
    assert!(prepared.is_ok());
    let made = directories.clone();
    assert_eq!(
        made,
        [
            StoragePart::Root,
            StoragePart::Product,
            StoragePart::Protection
        ]
    );
    let trusted = look_through(trusted_journal_path(folder()).unwrap(), &mut directories);
    assert_eq!(trusted, prepared);
    assert_eq!(directories, made);
}

//! Where the recovery journal is kept, and who may touch it.
//!
//! The place is derived from the folder that the system names, never from what a user
//! or the environment says. What is there already is accepted only where every part of
//! it belongs to administrators and the system alone; it is never repaired.

use crate::dns_session::text_option;
use crate::net::{part_views, parts_name_something, split, split_at};
use crate::text::{chars_of, decimal, decimal_text, join, join3, part, string_of};
use vstd::prelude::*;
use vstd::string::*;

verus! {

/// The right to do everything with a file.
pub const FULL_CONTROL_MASK: u32 = 0x001F_01FF;

/// The flags of an entry that files and directories inherit.
pub const DIRECTORY_ACE_FLAGS: u8 = 0x03;

/// The flag of an entry that was inherited.
pub const INHERITED_ACE: u8 = 0x10;

/// The flags of an entry other than that it was inherited.
pub const OWN_ACE_FLAGS: u8 = 0xEF;

/// How large a security descriptor may be, in bytes.
pub const MAX_SECURITY_DESCRIPTOR_BYTES: usize = 65_536;

/// How long a path may be, in code units.
pub const MAX_PATH_UTF16_UNITS: usize = 32_767;

/// How many entries an access list may have to be looked at.
pub const ACL_MAX_ENTRIES: u32 = 32;

/// Someone who may have rights.
#[derive(Clone, Copy, Debug, PartialEq, Eq, Structural)]
pub enum Principal {
    Administrators,
    LocalSystem,
    Everyone,
    Other,
}

/// What an entry does.
#[derive(Clone, Copy, Debug, PartialEq, Eq, Structural)]
pub enum AceKind {
    Allow,
    Deny,
}

/// An entry of an access list.
#[derive(Clone, Copy, Debug, PartialEq, Eq, Structural)]
pub struct AclEntryShape {
    pub principal: Principal,
    pub kind: AceKind,
    pub mask: u32,
    pub flags: u8,
    pub inherited: bool,
}

impl AclEntryShape {
    /// The entry that a directory has for someone who may do everything.
    pub fn allow(principal: Principal) -> (result: Self)
        ensures
            result == (AclEntryShape {
                principal,
                kind: AceKind::Allow,
                mask: FULL_CONTROL_MASK,
                flags: DIRECTORY_ACE_FLAGS,
                inherited: false,
            }),
    {
        AclEntryShape {
            principal,
            kind: AceKind::Allow,
            mask: FULL_CONTROL_MASK,
            flags: DIRECTORY_ACE_FLAGS,
            inherited: false,
        }
    }
}

/// Who owns something, and who may touch it.
#[derive(Clone, Debug, PartialEq, Eq)]
pub struct AclShape {
    pub owner: Principal,
    pub dacl_present: bool,
    pub dacl_protected: bool,
    pub entries: Vec<AclEntryShape>,
}

/// Whether an entry gives all rights and nothing strange.
pub open spec fn safe_entry(entry: AclEntryShape, directory: bool) -> bool {
    &&& entry.kind == AceKind::Allow
    &&& entry.mask == FULL_CONTROL_MASK
    &&& entry.flags == DIRECTORY_ACE_FLAGS || (!directory && entry.flags == 0)
}

/// What is wrong with an entry, given who has one before it.
pub open spec fn entry_fault(
    entry: AclEntryShape,
    directory: bool,
    administrators: bool,
    system: bool,
) -> Option<Seq<char>> {
    if !safe_entry(entry, directory) {
        Some("the storage DACL contains an unsafe entry"@)
    } else if directory && entry.inherited {
        Some("the storage directory DACL contains inherited entries"@)
    } else if (entry.principal == Principal::Administrators && !administrators) || (entry.principal
        == Principal::LocalSystem && !system) {
        None
    } else {
        Some("the storage DACL contains an unexpected principal"@)
    }
}

/// What is wrong with an access list.
pub open spec fn acl_fault(
    owner: Principal,
    dacl_present: bool,
    dacl_protected: bool,
    entries: Seq<AclEntryShape>,
    directory: bool,
) -> Option<Seq<char>> {
    if owner != Principal::Administrators && owner != Principal::LocalSystem {
        Some("the storage owner is not Administrators or SYSTEM"@)
    } else if !dacl_present {
        Some("the storage object has no DACL"@)
    } else if entries.len() != 2 {
        Some("the storage DACL must contain exactly two entries"@)
    } else if directory && !dacl_protected {
        Some("the storage directory DACL is not protected"@)
    } else if !directory && !dacl_protected && !(entries[0].inherited && entries[1].inherited) {
        Some("the inherited journal DACL contains explicit entries"@)
    } else if entry_fault(entries[0], directory, false, false) is Some {
        entry_fault(entries[0], directory, false, false)
    } else {
        entry_fault(
            entries[1],
            directory,
            entries[0].principal == Principal::Administrators,
            entries[0].principal == Principal::LocalSystem,
        )
    }
}

fn check_entry(entry: &AclEntryShape, directory: bool, administrators: bool, system: bool) -> (result:
    Option<&'static str>)
    ensures
        match entry_fault(*entry, directory, administrators, system) {
            Some(reason) => result matches Some(text) && text@ == reason,
            None => result is None,
        },
{
    if entry.kind != AceKind::Allow || entry.mask != FULL_CONTROL_MASK || (directory && entry.flags
        != DIRECTORY_ACE_FLAGS) || (!directory && entry.flags != 0 && entry.flags
        != DIRECTORY_ACE_FLAGS) {
        return Some("the storage DACL contains an unsafe entry");
    }
    if directory && entry.inherited {
        return Some("the storage directory DACL contains inherited entries");
    }
    match entry.principal {
        Principal::Administrators => if administrators {
            Some("the storage DACL contains an unexpected principal")
        } else {
            None
        },
        Principal::LocalSystem => if system {
            Some("the storage DACL contains an unexpected principal")
        } else {
            None
        },
        _ => Some("the storage DACL contains an unexpected principal"),
    }
}

fn validate_acl_shape_with_inheritance(shape: &AclShape, directory: bool) -> (result: Result<
    (),
    &'static str,
>)
    ensures
        match acl_fault(
            shape.owner,
            shape.dacl_present,
            shape.dacl_protected,
            shape.entries@,
            directory,
        ) {
            Some(reason) => result matches Err(text) && text@ == reason,
            None => result is Ok,
        },
{
    match shape.owner {
        Principal::Administrators => {},
        Principal::LocalSystem => {},
        _ => {
            return Err("the storage owner is not Administrators or SYSTEM");
        },
    }
    if !shape.dacl_present {
        return Err("the storage object has no DACL");
    }
    if shape.entries.len() != 2 {
        return Err("the storage DACL must contain exactly two entries");
    }
    if directory && !shape.dacl_protected {
        return Err("the storage directory DACL is not protected");
    }
    if !directory && !shape.dacl_protected && !(shape.entries[0].inherited
        && shape.entries[1].inherited) {
        return Err("the inherited journal DACL contains explicit entries");
    }
    if let Some(reason) = check_entry(&shape.entries[0], directory, false, false) {
        return Err(reason);
    }
    let administrators = shape.entries[0].principal == Principal::Administrators;
    let system = shape.entries[0].principal == Principal::LocalSystem;
    match check_entry(&shape.entries[1], directory, administrators, system) {
        Some(reason) => Err(reason),
        None => Ok(()),
    }
}

/// Checks who may touch a directory.
pub fn validate_acl_shape(shape: &AclShape) -> (result: Result<(), &'static str>)
    ensures
        match acl_fault(
            shape.owner,
            shape.dacl_present,
            shape.dacl_protected,
            shape.entries@,
            true,
        ) {
            Some(reason) => result matches Err(text) && text@ == reason,
            None => result is Ok,
        },
{
    validate_acl_shape_with_inheritance(shape, true)
}

/// Checks who may touch the journal; its entries may come from its directory.
pub fn validate_file_acl_shape(shape: &AclShape) -> (result: Result<(), &'static str>)
    ensures
        match acl_fault(
            shape.owner,
            shape.dacl_present,
            shape.dacl_protected,
            shape.entries@,
            false,
        ) {
            Some(reason) => result matches Err(text) && text@ == reason,
            None => result is Ok,
        },
{
    validate_acl_shape_with_inheritance(shape, false)
}

/// Who has an entry in a list that is accepted: administrators and the system, each
/// once and with all rights, and nobody else. One of them owns it.
pub proof fn accepted_lists_name_only_administrators_and_the_system(
    owner: Principal,
    dacl_present: bool,
    dacl_protected: bool,
    entries: Seq<AclEntryShape>,
    directory: bool,
)
    requires
        acl_fault(owner, dacl_present, dacl_protected, entries, directory) is None,
    ensures
        owner == Principal::Administrators || owner == Principal::LocalSystem,
        dacl_present,
        directory ==> dacl_protected,
        entries.len() == 2,
        entries[0].principal != entries[1].principal,
        forall|i: int|
            0 <= i < 2 ==> ((#[trigger] entries[i]).principal == Principal::Administrators
                || entries[i].principal == Principal::LocalSystem) && entries[i].kind
                == AceKind::Allow && entries[i].mask == FULL_CONTROL_MASK && (directory
                ==> !entries[i].inherited) && (!dacl_protected ==> entries[i].inherited),
{
    assert(entries[0].kind == AceKind::Allow && entries[1].kind == AceKind::Allow);
}

/// Whether a character separates the parts of a path.
pub open spec fn separator(c: char) -> bool {
    c == '\\' || c == '/'
}

/// A path with one kind of separator.
pub open spec fn unified(text: Seq<char>) -> Seq<char> {
    Seq::new(
        text.len(),
        |i: int|
            if text[i] == '/' {
                '\\'
            } else {
                text[i]
            },
    )
}

/// What a path begins with.
#[derive(Clone, Copy, Debug, PartialEq, Eq, Structural)]
pub enum RootKind {
    /// A drive.
    Drive,
    /// A drive, in a path that the system takes as it is.
    VerbatimDrive,
    /// A share, a device or another name.
    OtherPrefix,
    NoPrefix,
}

/// Whether a text begins with a drive.
pub open spec fn drive_at(text: Seq<char>, at: int) -> bool {
    at + 1 < text.len() && ('a' <= text[at] <= 'z' || 'A' <= text[at] <= 'Z') && text[at + 1] == ':'
}

/// Whether a path that begins with two separators names a server and a share.
pub open spec fn names_share(path: Seq<char>) -> bool {
    let parts = split(path.skip(2), '\\');
    parts.len() >= 2 && parts[0].len() > 0 && parts[1].len() > 0
}

/// What a path begins with.
pub open spec fn root_kind(text: Seq<char>) -> RootKind {
    let path = unified(text);
    if text.len() >= 4 && text[0] == '\\' && text[1] == '\\' && text[2] == '?' && text[3] == '\\' {
        if drive_at(text, 4) && (text.len() == 6 || separator(text[6])) {
            RootKind::VerbatimDrive
        } else {
            RootKind::OtherPrefix
        }
    } else if path.len() >= 2 && path[0] == '\\' && path[1] == '\\' {
        if (path.len() >= 4 && path[2] == '.' && path[3] == '\\') || names_share(path) {
            RootKind::OtherPrefix
        } else {
            RootKind::NoPrefix
        }
    } else if drive_at(text, 0) {
        RootKind::Drive
    } else {
        RootKind::NoPrefix
    }
}

/// How long the drive at the beginning of a path is.
pub open spec fn drive_length(kind: RootKind) -> int {
    if kind == RootKind::VerbatimDrive {
        6
    } else {
        2
    }
}

/// The parts of a path behind its drive.
pub open spec fn path_parts(text: Seq<char>, kind: RootKind) -> Seq<Seq<char>> {
    let rest = text.skip(drive_length(kind));
    if kind == RootKind::VerbatimDrive {
        split(seq!['\\'] + rest.skip(1), '\\')
    } else {
        split(unified(rest), '\\')
    }
}

/// Whether some part of a path is not empty.
pub open spec fn names_something(parts: Seq<Seq<char>>) -> bool {
    exists|i: int| 0 <= i < parts.len() && (#[trigger] parts[i]).len() > 0
}

/// Whether a path leads through a place that it names relatively.
pub open spec fn traverses(text: Seq<char>) -> bool {
    let parts = split(unified(text), '\\');
    exists|i: int|
        0 <= i < parts.len() && ((#[trigger] parts[i]) == seq!['.'] || parts[i] == seq!['.', '.'])
}

/// What is wrong with the folder that the system names.
pub open spec fn folder_fault(text: Seq<char>) -> Option<Seq<char>> {
    let kind = root_kind(text);
    if traverses(text) {
        Some("ProgramData contains traversal components"@)
    } else if kind == RootKind::OtherPrefix {
        Some("ProgramData must be on a local drive"@)
    } else if kind == RootKind::NoPrefix {
        Some("ProgramData must be an absolute local path"@)
    } else if text.len() == drive_length(kind) || !separator(text[drive_length(kind)]) {
        Some("ProgramData must have a rooted local path"@)
    } else if !names_something(path_parts(text, kind)) {
        Some("ProgramData must name a directory"@)
    } else {
        None
    }
}

fn unify(text: &[char]) -> (result: Vec<char>)
    ensures
        result@ == unified(text@),
{
    let mut path: Vec<char> = Vec::new();
    let mut i: usize = 0;
    while i < text.len()
        invariant
            i <= text.len(),
            path@ =~= unified(text@).take(i as int),
        decreases text.len() - i,
    {
        let c = text[i];
        path.push(if c == '/' {
            '\\'
        } else {
            c
        });
        assert(path@ =~= unified(text@).take(i + 1));
        i += 1;
    }
    assert(unified(text@).take(i as int) =~= unified(text@));
    path
}

fn is_separator(c: char) -> (result: bool)
    ensures
        result == separator(c),
{
    c == '\\' || c == '/'
}

fn is_drive_at(text: &Vec<char>, at: usize) -> (result: bool)
    requires
        at <= 4,
    ensures
        result == drive_at(text@, at as int),
{
    if at + 1 >= text.len() {
        return false;
    }
    let c = text[at];
    (('a' <= c && c <= 'z') || ('A' <= c && c <= 'Z')) && text[at + 1] == ':'
}

fn find_root(text: &Vec<char>) -> (result: RootKind)
    ensures
        result == root_kind(text@),
{
    let path = unify(text.as_slice());
    let n: usize = text.len();
    if n >= 4 && text[0] == '\\' && text[1] == '\\' && text[2] == '?' && text[3] == '\\' {
        if is_drive_at(text, 4) && (n == 6 || is_separator(text[6])) {
            return RootKind::VerbatimDrive;
        }
        return RootKind::OtherPrefix;
    }
    if n >= 2 && path[0] == '\\' && path[1] == '\\' {
        if n >= 4 && path[2] == '.' && path[3] == '\\' {
            return RootKind::OtherPrefix;
        }
        let rest = part(path.as_slice(), 2, n);
        assert(rest@ =~= path@.skip(2));
        let parts = split_at(rest.as_slice(), '\\');
        let ghost views = part_views(parts@);
        if parts.len() >= 2 {
            assert(views[0] == parts@[0]@ && views[1] == parts@[1]@);
        }
        if parts.len() >= 2 && parts[0].len() > 0 && parts[1].len() > 0 {
            return RootKind::OtherPrefix;
        }
        return RootKind::NoPrefix;
    }
    if is_drive_at(text, 0) {
        RootKind::Drive
    } else {
        RootKind::NoPrefix
    }
}

fn is_traversing(text: &Vec<char>) -> (result: bool)
    ensures
        result == traverses(text@),
{
    let path = unify(text.as_slice());
    let parts = split_at(path.as_slice(), '\\');
    let ghost views = part_views(parts@);
    let mut i: usize = 0;
    while i < parts.len()
        invariant
            i <= parts.len(),
            views == part_views(parts@),
            views == split(unified(text@), '\\'),
            forall|j: int|
                0 <= j < i ==> (#[trigger] views[j]) != seq!['.'] && views[j] != seq!['.', '.'],
        decreases parts.len() - i,
    {
        let own = &parts[i];
        assert(views[i as int] == own@);
        if own.len() == 1 && own[0] == '.' {
            assert(views[i as int] =~= seq!['.']);
            return true;
        }
        if own.len() == 2 && own[0] == '.' && own[1] == '.' {
            assert(views[i as int] =~= seq!['.', '.']);
            return true;
        }
        i += 1;
    }
    false
}

fn collect_parts(text: &Vec<char>, kind: RootKind) -> (result: Vec<Vec<char>>)
    requires
        kind == RootKind::VerbatimDrive || kind == RootKind::Drive,
        text@.len() > drive_length(kind),
    ensures
        part_views(result@) == path_parts(text@, kind),
{
    match kind {
        RootKind::VerbatimDrive => {
            let mut rest: Vec<char> = Vec::new();
            rest.push('\\');
            let mut tail = part(text.as_slice(), 7, text.len());
            rest.append(&mut tail);
            assert(rest@ =~= seq!['\\'] + text@.skip(6).skip(1));
            split_at(rest.as_slice(), '\\')
        },
        _ => {
            let rest = part(text.as_slice(), 2, text.len());
            assert(rest@ =~= text@.skip(2));
            let path = unify(rest.as_slice());
            split_at(path.as_slice(), '\\')
        },
    }
}

fn any_named(parts: &Vec<Vec<char>>) -> (result: bool)
    ensures
        result == names_something(part_views(parts@)),
{
    let ghost views = part_views(parts@);
    let mut i: usize = 0;
    while i < parts.len()
        invariant
            i <= parts.len(),
            views == part_views(parts@),
            forall|j: int| 0 <= j < i ==> (#[trigger] views[j]).len() == 0,
        decreases parts.len() - i,
    {
        assert(views[i as int] == parts@[i as int]@);
        if parts[i].len() > 0 {
            assert(views[i as int].len() > 0);
            return true;
        }
        i += 1;
    }
    false
}

/// Checks the folder that the system names.
pub fn validate_program_data_path(program_data: &str) -> (result: Result<(), String>)
    ensures
        match folder_fault(program_data@) {
            Some(reason) => result matches Err(text) && text@ == reason,
            None => result is Ok,
        },
{
    let text = chars_of(program_data);
    if is_traversing(&text) {
        return Err("ProgramData contains traversal components".to_owned());
    }
    let kind = find_root(&text);
    match kind {
        RootKind::OtherPrefix => {
            return Err("ProgramData must be on a local drive".to_owned());
        },
        RootKind::NoPrefix => {
            return Err("ProgramData must be an absolute local path".to_owned());
        },
        _ => {},
    }
    let at: usize = if kind == RootKind::VerbatimDrive {
        6
    } else {
        2
    };
    if text.len() == at || !is_separator(text[at]) {
        return Err("ProgramData must have a rooted local path".to_owned());
    }
    let parts = collect_parts(&text, kind);
    if !any_named(&parts) {
        return Err("ProgramData must name a directory".to_owned());
    }
    Ok(())
}

/// The parts of a path that are not empty, each behind a separator.
pub open spec fn joined_parts(parts: Seq<Seq<char>>) -> Seq<char>
    decreases parts.len(),
{
    if parts.len() == 0 {
        Seq::empty()
    } else {
        let front = joined_parts(parts.drop_last());
        if parts.last().len() == 0 {
            front
        } else {
            front + seq!['\\'] + parts.last()
        }
    }
}

fn join_parts(parts: &Vec<Vec<char>>) -> (result: Vec<char>)
    ensures
        result@ == joined_parts(part_views(parts@)),
{
    let ghost views = part_views(parts@);
    let mut joined: Vec<char> = Vec::new();
    let mut i: usize = 0;
    assert(views.take(0) =~= Seq::<Seq<char>>::empty());
    while i < parts.len()
        invariant
            i <= parts.len(),
            views == part_views(parts@),
            joined@ == joined_parts(views.take(i as int)),
        decreases parts.len() - i,
    {
        assert(views.take(i + 1).drop_last() =~= views.take(i as int));
        assert(views.take(i + 1).last() == parts@[i as int]@);
        if parts[i].len() > 0 {
            joined.push('\\');
            let mut own = part(parts[i].as_slice(), 0, parts[i].len());
            assert(own@ =~= parts@[i as int]@);
            let ghost front = joined@;
            joined.append(&mut own);
            assert(joined@ =~= front + parts@[i as int]@);
        }
        i += 1;
    }
    assert(views.take(i as int) =~= views);
    joined
}

/// A place below the folder that the system names.
pub open spec fn below(folder: Seq<char>, tail: Seq<char>) -> Seq<char> {
    if root_kind(folder) == RootKind::VerbatimDrive {
        folder.take(6) + joined_parts(path_parts(folder, RootKind::VerbatimDrive)) + seq!['\\']
            + tail
    } else if separator(folder.last()) {
        folder + tail
    } else {
        folder + seq!['\\'] + tail
    }
}

fn place_below(folder: &str, tail: &str) -> (result: String)
    requires
        folder_fault(folder@) is None,
    ensures
        result@ == below(folder@, tail@),
{
    let text = chars_of(folder);
    let kind = find_root(&text);
    if kind == RootKind::VerbatimDrive {
        let parts = collect_parts(&text, kind);
        let mut chars = part(text.as_slice(), 0, 6);
        assert(chars@ =~= text@.take(6));
        let mut joined = join_parts(&parts);
        chars.append(&mut joined);
        chars.push('\\');
        let front = string_of(chars.as_slice());
        return join(front.as_str(), tail);
    }
    if is_separator(text[text.len() - 1]) {
        join(folder, tail)
    } else {
        proof {
            reveal_strlit("\\");
            assert("\\"@ =~= seq!['\\']);
        }
        join3(folder, "\\", tail)
    }
}

/// A part of the place where the journal is kept.
#[derive(Clone, Copy, Debug, PartialEq, Eq, Structural)]
pub enum StoragePart {
    /// The folder that the system names.
    Root,
    Product,
    Protection,
    Journal,
}

impl StoragePart {
    /// What is told of the part.
    pub open spec fn spec_label(self) -> Seq<char> {
        match self {
            StoragePart::Root => "ProgramData"@,
            StoragePart::Product => "Vapour"@,
            StoragePart::Protection => "Protection"@,
            StoragePart::Journal => "DNS recovery journal"@,
        }
    }

    pub fn label(self) -> (result: &'static str)
        ensures
            result@ == self.spec_label(),
    {
        match self {
            StoragePart::Root => "ProgramData",
            StoragePart::Product => "Vapour",
            StoragePart::Protection => "Protection",
            StoragePart::Journal => "DNS recovery journal",
        }
    }

    /// Where the part is, below the folder that the system names.
    pub open spec fn place(self, folder: Seq<char>) -> Seq<char> {
        match self {
            StoragePart::Root => folder,
            StoragePart::Product => below(folder, "Vapour"@),
            StoragePart::Protection => below(folder, "Vapour\\Protection"@),
            StoragePart::Journal => below(folder, "Vapour\\Protection\\dns-recovery.json"@),
        }
    }
}

/// Where a part of the storage is.
pub fn storage_path(folder: &str, part: StoragePart) -> (result: Result<String, String>)
    ensures
        match folder_fault(folder@) {
            Some(reason) => result matches Err(text) && text@ == reason,
            None => result matches Ok(path) && path@ == part.place(folder@),
        },
{
    if let Err(reason) = validate_program_data_path(folder) {
        return Err(reason);
    }
    Ok(
        match part {
            StoragePart::Root => folder.to_owned(),
            StoragePart::Product => place_below(folder, "Vapour"),
            StoragePart::Protection => place_below(folder, "Vapour\\Protection"),
            StoragePart::Journal => place_below(folder, "Vapour\\Protection\\dns-recovery.json"),
        },
    )
}

/// Where the journal is, below the folder that the system names.
pub fn build_journal_path(program_data: &str) -> (result: Result<String, String>)
    ensures
        match folder_fault(program_data@) {
            Some(reason) => result matches Err(text) && text@ == reason,
            None => result matches Ok(path) && path@ == StoragePart::Journal.place(program_data@),
        },
{
    storage_path(program_data, StoragePart::Journal)
}

/// What is found at a place.
#[derive(Clone, Copy, Debug, PartialEq, Eq, Structural)]
pub struct ObjectInfo {
    pub directory: bool,
    /// Whether it leads somewhere else.
    pub reparse: bool,
}

/// What is found at a place, from the attributes that it has by name and when opened.
pub fn object_info(attributes: u32, opened: u32) -> (result: ObjectInfo)
    ensures
        result.directory == (attributes & 0x10 != 0),
        result.reparse == (attributes & 0x400 != 0 || opened & 0x400 != 0),
{
    ObjectInfo {
        directory: attributes & 0x10 != 0,
        reparse: attributes & 0x400 != 0 || opened & 0x400 != 0,
    }
}

/// Takes the code of attributes that could not be read: `Ok` where there is nothing.
pub fn object_missing(code: u32) -> (result: Result<(), String>)
    ensures
        result is Ok <==> code == 2 || code == 3,
        result matches Err(text) ==> text@ == "reading storage path attributes failed ("@ + decimal(
            code as nat,
        ) + ")"@,
{
    if code == 2 || code == 3 {
        return Ok(());
    }
    Err(
        join3(
            "reading storage path attributes failed (",
            decimal_text(code as u64).as_str(),
            ")",
        ),
    )
}

/// What became of making a directory.
#[derive(Debug, PartialEq, Eq)]
pub enum Creation {
    Created,
    /// Something is there already.
    Exists,
    /// The directory could not be described.
    Unprepared(String),
    Failed(String),
}

/// What happened while the storage is looked through.
#[derive(Debug, PartialEq, Eq)]
pub enum StorageEvent {
    Inspected(Result<Option<ObjectInfo>, String>),
    Created(Creation),
    Described(Result<AclShape, String>),
}

/// What looking through the storage waits for.
#[derive(Clone, Copy, Debug, PartialEq, Eq, Structural)]
pub enum StoragePhase {
    Inspect,
    Create,
    Describe,
    Finished,
}

/// What the caller does next. The part says where.
#[derive(Clone, Copy, Debug, PartialEq, Eq, Structural)]
pub enum StorageAction {
    Inspect(StoragePart),
    Create(StoragePart),
    Describe(StoragePart),
    Finish,
}

/// Looking through the storage.
#[derive(Debug, PartialEq, Eq)]
pub struct Storage {
    folder: String,
    prepare: bool,
    part: StoragePart,
    phase: StoragePhase,
    created: bool,
    error: Option<String>,
}

/// Looking through the storage, as mathematical values.
pub ghost struct StorageView {
    pub folder: Seq<char>,
    /// Whether directories that are missing are made.
    pub prepare: bool,
    pub part: StoragePart,
    pub phase: StoragePhase,
    /// Whether the part was just made.
    pub created: bool,
    pub error: Option<Seq<char>>,
}

impl StorageView {
    pub open spec fn valid(self) -> bool {
        &&& folder_fault(self.folder) is None
        &&& self.phase == StoragePhase::Create ==> self.prepare && !self.created && (self.part
            == StoragePart::Product || self.part == StoragePart::Protection)
        &&& self.phase == StoragePhase::Describe ==> self.part != StoragePart::Root
        &&& self.error is Some ==> self.phase == StoragePhase::Finished
        &&& self.phase == StoragePhase::Finished && self.error is None ==> self.part
            == StoragePart::Journal
    }

    pub open spec fn expects(self, event: StorageEvent) -> bool {
        match event {
            StorageEvent::Inspected(_) => self.phase == StoragePhase::Inspect,
            StorageEvent::Created(_) => self.phase == StoragePhase::Create,
            StorageEvent::Described(_) => self.phase == StoragePhase::Describe,
        }
    }

    pub open spec fn refused(self, reason: Seq<char>) -> (StorageView, StorageAction) {
        (
            StorageView { phase: StoragePhase::Finished, error: Some(reason), ..self },
            StorageAction::Finish,
        )
    }

    /// The search that goes on to the next part, or ends.
    pub open spec fn passed(self) -> (StorageView, StorageAction) {
        let next = match self.part {
            StoragePart::Root => StoragePart::Product,
            StoragePart::Product => StoragePart::Protection,
            _ => StoragePart::Journal,
        };
        if self.part == StoragePart::Journal {
            (StorageView { phase: StoragePhase::Finished, ..self }, StorageAction::Finish)
        } else {
            (
                StorageView {
                    part: next,
                    phase: StoragePhase::Inspect,
                    created: false,
                    ..self
                },
                StorageAction::Inspect(next),
            )
        }
    }

    /// What a part that is not there does.
    pub open spec fn missing(self) -> (StorageView, StorageAction) {
        match self.part {
            StoragePart::Root => self.refused("ProgramData does not exist"@),
            StoragePart::Journal => self.passed(),
            _ => if self.prepare && !self.created {
                (
                    StorageView { phase: StoragePhase::Create, ..self },
                    StorageAction::Create(self.part),
                )
            } else {
                self.refused(self.part.spec_label() + " storage directory is missing"@)
            },
        }
    }

    /// What a part that is there does.
    pub open spec fn found(self, object: ObjectInfo) -> (StorageView, StorageAction) {
        match self.part {
            StoragePart::Root => if !object.directory {
                self.refused("ProgramData is not a directory"@)
            } else if object.reparse {
                self.refused("ProgramData is a reparse point"@)
            } else {
                self.passed()
            },
            StoragePart::Journal => if object.directory {
                self.refused("DNS recovery journal path is a directory"@)
            } else if object.reparse {
                self.refused("DNS recovery journal is a reparse point"@)
            } else {
                (
                    StorageView { phase: StoragePhase::Describe, ..self },
                    StorageAction::Describe(self.part),
                )
            },
            _ => if !object.directory {
                self.refused(self.part.spec_label() + " storage component is not a directory"@)
            } else if object.reparse {
                self.refused(self.part.spec_label() + " storage directory is a reparse point"@)
            } else {
                (
                    StorageView { phase: StoragePhase::Describe, ..self },
                    StorageAction::Describe(self.part),
                )
            },
        }
    }

    /// What an event does, and what comes next.
    pub open spec fn step(self, event: StorageEvent) -> (StorageView, StorageAction) {
        match event {
            StorageEvent::Inspected(Err(message)) => self.refused(message@),
            StorageEvent::Inspected(Ok(None)) => self.missing(),
            StorageEvent::Inspected(Ok(Some(object))) => self.found(object),
            StorageEvent::Created(Creation::Unprepared(message)) => self.refused(message@),
            StorageEvent::Created(Creation::Failed(message)) => self.refused(
                "creating "@ + self.part.spec_label() + " storage directory failed: "@ + message@,
            ),
            StorageEvent::Created(_) => (
                StorageView { phase: StoragePhase::Inspect, created: true, ..self },
                StorageAction::Inspect(self.part),
            ),
            StorageEvent::Described(Err(message)) => self.refused(message@),
            StorageEvent::Described(Ok(shape)) => match acl_fault(
                shape.owner,
                shape.dacl_present,
                shape.dacl_protected,
                shape.entries@,
                self.part != StoragePart::Journal,
            ) {
                Some(reason) => self.refused(
                    self.part.spec_label() + " ACL rejected: "@ + reason,
                ),
                None => self.passed(),
            },
        }
    }

    /// What a search that has ended came to.
    pub open spec fn outcome(self) -> Result<Seq<char>, Seq<char>> {
        match self.error {
            Some(reason) => Err(reason),
            None => Ok(StoragePart::Journal.place(self.folder)),
        }
    }
}

/// A part of the storage is passed only where its access list was accepted, unless it
/// is the folder of the system or a journal that is not there; directories are made
/// only when preparing, and looked at again once made.
pub proof fn storage_is_passed_only_when_secure(state: StorageView, event: StorageEvent)
    requires
        state.valid(),
        state.expects(event),
    ensures
        state.step(event).0.valid(),
        state.step(event).0.folder == state.folder,
        state.part != StoragePart::Root && (state.step(event).0.part != state.part || (state.step(
            event,
        ).1 == StorageAction::Finish && state.step(event).0.error is None)) ==> {
            ||| event matches StorageEvent::Described(Ok(shape)) && acl_fault(
                shape.owner,
                shape.dacl_present,
                shape.dacl_protected,
                shape.entries@,
                state.part != StoragePart::Journal,
            ) is None
            ||| state.part == StoragePart::Journal && event matches StorageEvent::Inspected(
                Ok(None),
            )
        },
        state.step(event).1 is Create ==> state.prepare,
        event matches StorageEvent::Created(Creation::Created) ==> state.step(event).1
            == StorageAction::Inspect(state.part),
{
}

/// What there is at the places of the storage.
pub ghost struct Disk {
    /// What looking at a place tells.
    pub objects: spec_fn(StoragePart) -> Result<Option<ObjectInfo>, String>,
    /// What the access list of a place tells.
    pub lists: spec_fn(StoragePart) -> Result<AclShape, String>,
}

impl Disk {
    pub open spec fn object(self, part: StoragePart) -> Result<Option<ObjectInfo>, String> {
        (self.objects)(part)
    }

    pub open spec fn list(self, part: StoragePart) -> Result<AclShape, String> {
        (self.lists)(part)
    }

    /// The disk once a directory is made at a place.
    pub open spec fn with_directory(self, made: StoragePart, making: Making) -> Disk {
        Disk {
            objects: |part: StoragePart|
                if part == made {
                    (making.objects)(part)
                } else {
                    self.object(part)
                },
            lists: |part: StoragePart|
                if part == made {
                    (making.lists)(part)
                } else {
                    self.list(part)
                },
        }
    }
}

/// What comes of making directories: whether one is made, and what it is then.
pub ghost struct Making {
    pub outcomes: spec_fn(StoragePart) -> Creation,
    pub objects: spec_fn(StoragePart) -> Result<Option<ObjectInfo>, String>,
    pub lists: spec_fn(StoragePart) -> Result<AclShape, String>,
}

/// What a search that is waited for finds, and what the disk holds afterwards: only a
/// directory that is made changes it.
pub open spec fn looked_at(state: StorageView, disk: Disk, making: Making) -> (StorageEvent, Disk) {
    let part = state.part;
    match state.phase {
        StoragePhase::Create => (
            StorageEvent::Created((making.outcomes)(part)),
            if (making.outcomes)(part) is Created {
                disk.with_directory(part, making)
            } else {
                disk
            },
        ),
        StoragePhase::Describe => (StorageEvent::Described(disk.list(part)), disk),
        _ => (StorageEvent::Inspected(disk.object(part)), disk),
    }
}

/// A search that goes on for so many steps, while nobody else changes the disk.
pub open spec fn searched(state: StorageView, disk: Disk, making: Making, steps: nat) -> (
    StorageView,
    Disk,
)
    decreases steps,
{
    if steps == 0 || state.phase == StoragePhase::Finished {
        (state, disk)
    } else {
        let (event, after) = looked_at(state, disk, making);
        searched(state.step(event).0, after, making, (steps - 1) as nat)
    }
}

/// A search from its beginning.
pub open spec fn search_of(folder: Seq<char>, prepare: bool) -> StorageView {
    StorageView {
        folder,
        prepare,
        part: StoragePart::Root,
        phase: StoragePhase::Inspect,
        created: false,
        error: None,
    }
}

/// As many steps as a search ever takes: at most four for each part.
pub open spec fn search_steps() -> nat {
    16
}

/// Whether a part of the storage is there and accepted, or is a journal that is not
/// there.
pub open spec fn accepted_part(disk: Disk, part: StoragePart) -> bool {
    match part {
        StoragePart::Root => disk.object(part) matches Ok(Some(object)) && object.directory
            && !object.reparse,
        StoragePart::Journal => (disk.object(part) matches Ok(None)) || (disk.object(part)
            matches Ok(Some(object)) && !object.directory && !object.reparse && (disk.list(part)
            matches Ok(shape) && acl_fault(
            shape.owner,
            shape.dacl_present,
            shape.dacl_protected,
            shape.entries@,
            false,
        ) is None)),
        _ => disk.object(part) matches Ok(Some(object)) && object.directory && !object.reparse && (
        disk.list(part) matches Ok(shape) && acl_fault(
            shape.owner,
            shape.dacl_present,
            shape.dacl_protected,
            shape.entries@,
            true,
        ) is None),
    }
}

/// Whether every part of the storage is accepted.
pub open spec fn accepted_disk(disk: Disk) -> bool {
    &&& accepted_part(disk, StoragePart::Root)
    &&& accepted_part(disk, StoragePart::Product)
    &&& accepted_part(disk, StoragePart::Protection)
    &&& accepted_part(disk, StoragePart::Journal)
}

/// Whether one disk differs from another only in directories of the product that were
/// missing.
pub open spec fn only_missing_made(disk: Disk, after: Disk) -> bool {
    forall|part: StoragePart| #[trigger]
        after.object(part) == disk.object(part) && after.list(part) == disk.list(part) || ((part
            == StoragePart::Product || part == StoragePart::Protection) && disk.object(part)
            matches Ok(None))
}

proof fn lemma_part_passed(state: StorageView, disk: Disk, making: Making, steps: nat) -> (result: (
    StorageView,
    Disk,
    nat,
))
    requires
        state.valid(),
        state.phase == StoragePhase::Inspect,
        !state.created,
        state.error is None,
        steps >= 4,
    ensures
        ({
            let (next, after, left) = result;
            &&& searched(state, disk, making, steps) == searched(next, after, making, left)
            &&& steps <= left + 4
            &&& next.valid()
            &&& next.folder == state.folder && next.prepare == state.prepare
            &&& next.error is Some ==> next.phase == StoragePhase::Finished
            &&& next.error is None ==> accepted_part(after, state.part) && next
                == state.passed().0
            &&& forall|part: StoragePart|
                part != state.part ==> #[trigger] after.object(part) == disk.object(part)
                    && after.list(part) == disk.list(part)
            &&& only_missing_made(disk, after)
            &&& !state.prepare ==> after == disk
            &&& !state.prepare && accepted_part(disk, state.part) ==> next.error is None
        }),
{
    reveal_with_fuel(searched, 5);
    let (event, first) = looked_at(state, disk, making);
    let one = state.step(event).0;
    storage_is_passed_only_when_secure(state, event);
    if one.phase == StoragePhase::Finished || one.part != state.part {
        (one, first, (steps - 1) as nat)
    } else {
        let (event, second) = looked_at(one, first, making);
        let two = one.step(event).0;
        storage_is_passed_only_when_secure(one, event);
        if two.phase == StoragePhase::Finished || two.part != state.part {
            (two, second, (steps - 2) as nat)
        } else {
            let (event, third) = looked_at(two, second, making);
            let three = two.step(event).0;
            storage_is_passed_only_when_secure(two, event);
            if three.phase == StoragePhase::Finished || three.part != state.part {
                (three, third, (steps - 3) as nat)
            } else {
                let (event, fourth) = looked_at(three, third, making);
                storage_is_passed_only_when_secure(three, event);
                (three.step(event).0, fourth, (steps - 4) as nat)
            }
        }
    }
}

proof fn lemma_search(folder: Seq<char>, prepare: bool, disk: Disk, making: Making)
    requires
        folder_fault(folder) is None,
    ensures
        ({
            let (end, after) = searched(
                search_of(folder, prepare),
                disk,
                making,
                search_steps(),
            );
            &&& end.valid()
            &&& end.phase == StoragePhase::Finished
            &&& end.folder == folder
            &&& end.error is None ==> accepted_disk(after)
            &&& only_missing_made(disk, after)
            &&& !prepare ==> after == disk
            &&& !prepare && accepted_disk(disk) ==> end.error is None
        }),
{
    let state = search_of(folder, prepare);
    let (one, first, left) = lemma_part_passed(state, disk, making, search_steps());
    if one.error is None {
        let (two, second, left) = lemma_part_passed(one, first, making, left);
        lemma_kept(disk, first, second, StoragePart::Product);
        if two.error is None {
            let (three, third, left) = lemma_part_passed(two, second, making, left);
            lemma_kept(disk, second, third, StoragePart::Protection);
            if three.error is None {
                let (four, fourth, left) = lemma_part_passed(three, third, making, left);
                lemma_kept(disk, third, fourth, StoragePart::Journal);
                assert(accepted_part(first, StoragePart::Root));
                assert(accepted_part(second, StoragePart::Root));
                assert(accepted_part(third, StoragePart::Root));
                assert(accepted_part(fourth, StoragePart::Root));
                assert(accepted_part(third, StoragePart::Product));
                assert(accepted_part(fourth, StoragePart::Product));
                assert(accepted_part(fourth, StoragePart::Protection));
            }
        }
    }
}

/// A part that is looked at leaves the others, and what was made before, as they are.
proof fn lemma_kept(disk: Disk, before: Disk, after: Disk, own: StoragePart)
    requires
        only_missing_made(disk, before),
        only_missing_made(before, after),
        forall|part: StoragePart|
            part != own ==> #[trigger] after.object(part) == before.object(part)
                && after.list(part) == before.list(part),
    ensures
        only_missing_made(disk, after),
        forall|part: StoragePart|
            part != own && #[trigger] accepted_part(before, part) ==> accepted_part(after, part),
{
    assert forall|part: StoragePart| #[trigger]
        after.object(part) == disk.object(part) && after.list(part) == disk.list(part) || ((part
            == StoragePart::Product || part == StoragePart::Protection) && disk.object(part)
            matches Ok(None)) by {
        let seen = before.object(part);
    }
    assert forall|part: StoragePart|
        part != own && #[trigger] accepted_part(before, part) implies accepted_part(after, part) by {
        assert(after.object(part) == before.object(part));
    }
}

/// Storage that was prepared is trusted afterwards, with the same place for the
/// journal, as long as nobody changes it; looking for it changes nothing. Preparing
/// makes only directories of the product that were missing: whatever else was there
/// stays as it was, a part that is not accepted gives an error, and no journal is made.
pub proof fn prepared_storage_is_trusted(folder: Seq<char>, disk: Disk, making: Making)
    requires
        folder_fault(folder) is None,
    ensures
        ({
            let (prepared, after) = searched(
                search_of(folder, true),
                disk,
                making,
                search_steps(),
            );
            let (trusted, end) = searched(search_of(folder, false), after, making, search_steps());
            &&& prepared.phase == StoragePhase::Finished
            &&& trusted.phase == StoragePhase::Finished
            &&& prepared.outcome() is Ok ==> trusted.outcome() == prepared.outcome()
            &&& prepared.outcome() is Ok ==> accepted_disk(after)
            &&& end == after
            &&& only_missing_made(disk, after)
        }),
{
    lemma_search(folder, true, disk, making);
    let after = searched(search_of(folder, true), disk, making, search_steps()).1;
    lemma_search(folder, false, after, making);
}

fn begin(folder: Result<String, String>, prepare: bool) -> (result: Result<Storage, String>)
    ensures
        match folder {
            Err(message) => result matches Err(text) && text@ == message@,
            Ok(folder) => match folder_fault(folder@) {
                Some(reason) => result matches Err(text) && text@ == reason,
                None => result matches Ok(storage) && storage@.valid() && storage@ == search_of(
                    folder@,
                    prepare,
                ),
            },
        },
{
    let folder = match folder {
        Ok(folder) => folder,
        Err(message) => {
            return Err(message);
        },
    };
    if let Err(reason) = validate_program_data_path(folder.as_str()) {
        return Err(reason);
    }
    Ok(
        Storage {
            folder,
            prepare,
            part: StoragePart::Root,
            phase: StoragePhase::Inspect,
            created: false,
            error: None,
        },
    )
}

/// Begins to look for the journal, without making anything. The folder that the system
/// names is inspected first.
pub fn trusted_journal_path(program_data: Result<String, String>) -> (result: Result<
    Storage,
    String,
>)
    ensures
        match program_data {
            Err(message) => result matches Err(text) && text@ == message@,
            Ok(folder) => match folder_fault(folder@) {
                Some(reason) => result matches Err(text) && text@ == reason,
                None => result matches Ok(storage) && storage@.valid() && storage@ == search_of(
                    folder@,
                    false,
                ),
            },
        },
{
    begin(program_data, false)
}

/// Begins to look for the journal, making the directories that are missing. What is
/// there already is looked at and left as it is.
pub fn prepare_storage(program_data: Result<String, String>) -> (result: Result<Storage, String>)
    ensures
        match program_data {
            Err(message) => result matches Err(text) && text@ == message@,
            Ok(folder) => match folder_fault(folder@) {
                Some(reason) => result matches Err(text) && text@ == reason,
                None => result matches Ok(storage) && storage@.valid() && storage@ == search_of(
                    folder@,
                    true,
                ),
            },
        },
{
    begin(program_data, true)
}

impl Storage {
    pub closed spec fn view(&self) -> StorageView {
        StorageView {
            folder: self.folder@,
            prepare: self.prepare,
            part: self.part,
            phase: self.phase,
            created: self.created,
            error: text_option(self.error),
        }
    }

    /// What the search waits for.
    pub fn phase(&self) -> (result: StoragePhase)
        ensures
            result == self@.phase,
    {
        self.phase
    }

    /// Where a part of the storage is.
    pub fn path(&self, part: StoragePart) -> (result: String)
        requires
            self@.valid(),
        ensures
            result@ == part.place(self@.folder),
    {
        match storage_path(self.folder.as_str(), part) {
            Ok(path) => path,
            Err(_) => String::new(),
        }
    }

    fn refuse(&mut self, reason: String) -> (result: StorageAction)
        ensures
            (final(self)@, result) == old(self)@.refused(reason@),
    {
        self.phase = StoragePhase::Finished;
        self.error = Some(reason);
        StorageAction::Finish
    }

    fn pass(&mut self) -> (result: StorageAction)
        ensures
            (final(self)@, result) == old(self)@.passed(),
    {
        let next = match self.part {
            StoragePart::Root => StoragePart::Product,
            StoragePart::Product => StoragePart::Protection,
            StoragePart::Protection => StoragePart::Journal,
            StoragePart::Journal => {
                self.phase = StoragePhase::Finished;
                return StorageAction::Finish;
            },
        };
        self.part = next;
        self.phase = StoragePhase::Inspect;
        self.created = false;
        StorageAction::Inspect(next)
    }

    fn took_missing(&mut self) -> (result: StorageAction)
        ensures
            (final(self)@, result) == old(self)@.missing(),
    {
        match self.part {
            StoragePart::Root => self.refuse("ProgramData does not exist".to_owned()),
            StoragePart::Journal => self.pass(),
            _ => {
                if self.prepare && !self.created {
                    self.phase = StoragePhase::Create;
                    return StorageAction::Create(self.part);
                }
                let reason = join(self.part.label(), " storage directory is missing");
                self.refuse(reason)
            },
        }
    }

    fn took_found(&mut self, object: ObjectInfo) -> (result: StorageAction)
        ensures
            (final(self)@, result) == old(self)@.found(object),
    {
        match self.part {
            StoragePart::Root => {
                if !object.directory {
                    return self.refuse("ProgramData is not a directory".to_owned());
                }
                if object.reparse {
                    return self.refuse("ProgramData is a reparse point".to_owned());
                }
                self.pass()
            },
            StoragePart::Journal => {
                if object.directory {
                    return self.refuse("DNS recovery journal path is a directory".to_owned());
                }
                if object.reparse {
                    return self.refuse("DNS recovery journal is a reparse point".to_owned());
                }
                self.phase = StoragePhase::Describe;
                StorageAction::Describe(self.part)
            },
            _ => {
                if !object.directory {
                    let reason = join(
                        self.part.label(),
                        " storage component is not a directory",
                    );
                    return self.refuse(reason);
                }
                if object.reparse {
                    let reason = join(
                        self.part.label(),
                        " storage directory is a reparse point",
                    );
                    return self.refuse(reason);
                }
                self.phase = StoragePhase::Describe;
                StorageAction::Describe(self.part)
            },
        }
    }

    /// Takes an event that is waited for.
    pub fn step(&mut self, event: StorageEvent) -> (result: StorageAction)
        requires
            old(self)@.valid(),
            old(self)@.expects(event),
        ensures
            final(self)@.valid(),
            (final(self)@, result) == old(self)@.step(event),
    {
        proof {
            storage_is_passed_only_when_secure(self@, event);
        }
        match event {
            StorageEvent::Inspected(Err(message)) => self.refuse(message),
            StorageEvent::Inspected(Ok(None)) => self.took_missing(),
            StorageEvent::Inspected(Ok(Some(object))) => self.took_found(object),
            StorageEvent::Created(Creation::Unprepared(message)) => self.refuse(message),
            StorageEvent::Created(Creation::Failed(message)) => {
                let front = join3(
                    "creating ",
                    self.part.label(),
                    " storage directory failed: ",
                );
                let reason = join(front.as_str(), message.as_str());
                self.refuse(reason)
            },
            StorageEvent::Created(_) => {
                self.phase = StoragePhase::Inspect;
                self.created = true;
                StorageAction::Inspect(self.part)
            },
            StorageEvent::Described(Err(message)) => self.refuse(message),
            StorageEvent::Described(Ok(shape)) => {
                let checked = match self.part {
                    StoragePart::Journal => validate_file_acl_shape(&shape),
                    _ => validate_acl_shape(&shape),
                };
                match checked {
                    Ok(()) => self.pass(),
                    Err(reason) => {
                        let text = join3(self.part.label(), " ACL rejected: ", reason);
                        self.refuse(text)
                    },
                }
            },
        }
    }

    /// What a search that has ended came to: where the journal is.
    pub fn outcome(self) -> (result: Result<String, String>)
        requires
            self@.valid(),
            self@.phase == StoragePhase::Finished,
        ensures
            match self@.outcome() {
                Ok(path) => result matches Ok(own) && own@ == path,
                Err(reason) => result matches Err(text) && text@ == reason,
            },
    {
        let path = self.path(StoragePart::Journal);
        match self.error {
            Some(reason) => Err(reason),
            None => Ok(path),
        }
    }
}

/// Whether some memory lies in a region: neither wraps, and it ends no later.
pub open spec fn in_region(address: int, length: int, start: int, region: int) -> bool {
    start + region <= usize::MAX && address >= start && address + length <= start + region
}

/// Whether some memory lies in a region.
pub fn range_in_region(address: usize, length: usize, start: usize, region: usize) -> (result: bool)
    ensures
        result == in_region(address as int, length as int, start as int, region as int),
{
    match start.checked_add(region) {
        None => false,
        Some(end) => match address.checked_add(length) {
            None => false,
            Some(finish) => address >= start && finish <= end,
        },
    }
}

/// The length of an access list that lies in its descriptor as a whole, given what its
/// header says.
pub fn acl_length(address: usize, declared: u16, start: usize, region: usize) -> (result: Option<
    usize,
>)
    ensures
        result is Some <==> declared >= 8 && declared % 4 == 0 && in_region(
            address as int,
            declared as int,
            start as int,
            region as int,
        ),
        result matches Some(length) ==> length == declared,
{
    let length: usize = declared as usize;
    if length >= 8 && length % 4 == 0 && range_in_region(address, length, start, region) {
        Some(length)
    } else {
        None
    }
}

/// Checks that the header of an entry lies in its list: it can be looked at then.
pub fn check_entry_header(address: usize, list: usize, list_length: usize) -> (result: Result<
    (),
    String,
>)
    ensures
        result is Ok <==> address != 0 && in_region(
            address as int,
            4,
            list as int,
            list_length as int,
        ),
        result matches Err(text) ==> text@ == "storage DACL entry is outside its descriptor"@,
{
    if address == 0 || !range_in_region(address, 4, list, list_length) {
        return Err("storage DACL entry is outside its descriptor".to_owned());
    }
    Ok(())
}

/// What is wrong with the size of an entry that begins in its list, given what its
/// header says.
pub fn check_entry_size(
    address: usize,
    declared: u16,
    list: usize,
    list_length: usize,
    start: usize,
    region: usize,
) -> (result: Result<(), String>)
    ensures
        result is Ok <==> declared >= 4 && declared % 4 == 0 && in_region(
            address as int,
            declared as int,
            list as int,
            list_length as int,
        ) && in_region(address as int, declared as int, start as int, region as int),
        result matches Err(text) ==> text@ == "storage DACL entry has an invalid length"@,
{
    let length: usize = declared as usize;
    if length < 4 || length % 4 != 0 || !range_in_region(address, length, list, list_length)
        || !range_in_region(address, length, start, region) {
        return Err("storage DACL entry has an invalid length".to_owned());
    }
    Ok(())
}

/// Checks that an entry that allows is large enough for a mask and an identity.
pub fn check_allowed_entry(declared: u16) -> (result: Result<(), String>)
    ensures
        result is Ok <==> declared >= 12,
        result matches Err(text) ==> text@ == "storage allow DACL entry has an invalid length"@,
{
    if declared < 12 {
        return Err("storage allow DACL entry has an invalid length".to_owned());
    }
    Ok(())
}

/// Checks that an entry holds an identity as a whole.
pub fn check_entry_sid(length: Option<usize>) -> (result: Result<(), String>)
    ensures
        result is Ok <==> length is Some && length->0 != 0,
        result matches Err(text) ==> text@ == "storage DACL entry has an invalid SID length"@,
{
    match length {
        Some(length) if length != 0 => Ok(()),
        _ => Err("storage DACL entry has an invalid SID length".to_owned()),
    }
}

/// The shape of an entry: only one that allows has a mask and someone it is for.
pub fn entry_shape(kind: u8, flags: u8, mask: u32, principal: Principal) -> (result: AclEntryShape)
    ensures
        result.flags == flags & OWN_ACE_FLAGS,
        result.inherited == (flags & INHERITED_ACE != 0),
        kind == 0 ==> result.kind == AceKind::Allow && result.mask == mask && result.principal
            == principal,
        kind != 0 ==> result.kind == AceKind::Deny && result.mask == 0 && result.principal
            == Principal::Other,
{
    if kind != 0 {
        return AclEntryShape {
            principal: Principal::Other,
            kind: AceKind::Deny,
            mask: 0,
            flags: flags & OWN_ACE_FLAGS,
            inherited: flags & INHERITED_ACE != 0,
        };
    }
    AclEntryShape {
        principal,
        kind: AceKind::Allow,
        mask,
        flags: flags & OWN_ACE_FLAGS,
        inherited: flags & INHERITED_ACE != 0,
    }
}

/// Whether the header of an identity lies in its descriptor: it can be looked at then.
pub fn sid_header_in_region(
    address: usize,
    max_length: usize,
    start: usize,
    region: usize,
) -> (result: bool)
    ensures
        result == (max_length >= 8 && in_region(
            address as int,
            8,
            start as int,
            region as int,
        )),
{
    max_length >= 8 && range_in_region(address, 8, start, region)
}

/// The length of an identity that lies in its descriptor as a whole, given how many
/// parts its header says it has.
pub fn sid_length(
    address: usize,
    count: u8,
    max_length: usize,
    start: usize,
    region: usize,
) -> (result: Option<usize>)
    ensures
        result is Some <==> count <= 15 && 8 + 4 * count <= max_length && in_region(
            address as int,
            8 + 4 * count,
            start as int,
            region as int,
        ),
        result matches Some(length) ==> length == 8 + 4 * count,
{
    if count > 15 {
        return None;
    }
    let length: usize = 8 + 4 * (count as usize);
    if length > max_length || !range_in_region(address, length, start, region) {
        return None;
    }
    Some(length)
}

/// Takes what the system says of an identity that lies in its descriptor: its length,
/// where the identity is sound and as long as it was taken to be.
pub fn sid_accepted(length: usize, valid: bool, reported: u32) -> (result: Option<usize>)
    ensures
        result == (if valid && reported == length {
            Some(length)
        } else {
            None
        }),
{
    if valid && reported as usize == length {
        Some(length)
    } else {
        None
    }
}

/// Checks the owner, the list and the number of entries of a part of the storage, each
/// where it is known; the owner first.
pub fn check_descriptor(
    part: StoragePart,
    owner_valid: bool,
    dacl_inside: bool,
    entry_count: u32,
) -> (result: Result<(), String>)
    ensures
        result is Ok <==> owner_valid && dacl_inside && entry_count <= ACL_MAX_ENTRIES,
        result matches Err(text) ==> text@ == (if !owner_valid {
            part.spec_label() + " has an invalid owner SID"@
        } else if !dacl_inside {
            part.spec_label() + " DACL is outside its descriptor"@
        } else {
            part.spec_label() + " DACL contains too many entries"@
        }),
{
    if !owner_valid {
        return Err(join(part.label(), " has an invalid owner SID"));
    }
    if !dacl_inside {
        return Err(join(part.label(), " DACL is outside its descriptor"));
    }
    if entry_count > ACL_MAX_ENTRIES {
        return Err(join(part.label(), " DACL contains too many entries"));
    }
    Ok(())
}

/// How many words a security descriptor takes, given the code of the first look and
/// the length that it told.
pub fn descriptor_words(succeeded: bool, code: u32, needed: u32) -> (result: Result<usize, String>)
    ensures
        result is Ok <==> !succeeded && code == 122 && 0 < needed <= MAX_SECURITY_DESCRIPTOR_BYTES,
        result matches Ok(words) ==> words == (needed + 3) / 4,
        result matches Err(text) ==> text@ == (if succeeded {
            "GetFileSecurityW unexpectedly succeeded with an empty buffer"@
        } else if code != 122 || needed == 0 {
            "GetFileSecurityW sizing failed ("@ + decimal(code as nat) + ")"@
        } else {
            "security descriptor exceeds the validation limit"@
        }),
{
    if succeeded {
        return Err("GetFileSecurityW unexpectedly succeeded with an empty buffer".to_owned());
    }
    if code != 122 || needed == 0 {
        return Err(
            join3("GetFileSecurityW sizing failed (", decimal_text(code as u64).as_str(), ")"),
        );
    }
    let length: usize = needed as usize;
    if length > MAX_SECURITY_DESCRIPTOR_BYTES {
        return Err("security descriptor exceeds the validation limit".to_owned());
    }
    Ok((length + 3) / 4)
}

/// Takes what reading a security descriptor came to: how many bytes it has.
pub fn descriptor_read(succeeded: bool, code: u32, reported: u32, words: usize) -> (result: Result<
    usize,
    String,
>)
    requires
        words <= 16_384,
    ensures
        result is Ok <==> succeeded && 0 < reported <= 4 * words,
        result matches Ok(length) ==> length == reported,
        result matches Err(text) ==> text@ == (if !succeeded {
            "GetFileSecurityW read failed ("@ + decimal(code as nat) + ")"@
        } else {
            "GetFileSecurityW returned a length outside its buffer"@
        }),
{
    if !succeeded {
        return Err(
            join3("GetFileSecurityW read failed (", decimal_text(code as u64).as_str(), ")"),
        );
    }
    let length: usize = reported as usize;
    if length == 0 || length > 4 * words {
        return Err("GetFileSecurityW returned a length outside its buffer".to_owned());
    }
    Ok(length)
}

/// The code units of a path with a terminator, unless it has none or holds one.
pub fn wide_path(units: Vec<u16>) -> (result: Result<Vec<u16>, String>)
    ensures
        result is Ok <==> 0 < units@.len() <= MAX_PATH_UTF16_UNITS && !units@.contains(0u16),
        result matches Ok(wide) ==> wide@ == units@.push(0u16),
        result matches Err(text) ==> text@
            == "storage path has an invalid length or embedded NUL"@,
{
    let mut valid = units.len() > 0 && units.len() <= MAX_PATH_UTF16_UNITS;
    let mut i: usize = 0;
    while valid && i < units.len()
        invariant
            i <= units.len(),
            valid ==> 0 < units@.len() <= MAX_PATH_UTF16_UNITS && forall|j: int|
                0 <= j < i ==> units@[j] != 0,
            !valid ==> !(0 < units@.len() <= MAX_PATH_UTF16_UNITS && !units@.contains(0u16)),
        decreases units.len() - i + (if valid {
            1int
        } else {
            0
        }),
    {
        if units[i] == 0 {
            assert(units@.contains(units@[i as int]));
            valid = false;
        } else {
            i += 1;
        }
    }
    if !valid {
        return Err("storage path has an invalid length or embedded NUL".to_owned());
    }
    let mut wide = units;
    wide.push(0);
    Ok(wide)
}

/// The code of an error of the system, without what marks it as such.
pub fn win32_code(code: u32) -> (result: u32)
    ensures
        result == (if code & 0xFFFF_0000 == 0x8007_0000 {
            code & 0xFFFF
        } else {
            code
        }),
{
    if code & 0xFFFF_0000 == 0x8007_0000 {
        code & 0xFFFF
    } else {
        code
    }
}

/// Whether someone is an administrator or the system.
pub open spec fn trusted(principal: Principal) -> bool {
    principal is Administrators || principal is LocalSystem
}

/// An access list is accepted exactly where administrators or the system own it, it is
/// there, and it has one entry for each of the two that allows everything and is passed
/// on to files and directories. A directory has to be protected and nothing of it
/// inherited; a journal has both entries inherited or is protected, and its entries need
/// not be passed on.
pub proof fn lists_are_accepted_exactly(
    owner: Principal,
    dacl_present: bool,
    dacl_protected: bool,
    entries: Seq<AclEntryShape>,
    directory: bool,
)
    ensures
        acl_fault(owner, dacl_present, dacl_protected, entries, directory) is None <==> {
            &&& trusted(owner) && dacl_present
            &&& entries.len() == 2
            &&& trusted(entries[0].principal) && trusted(entries[1].principal)
                && entries[0].principal != entries[1].principal
            &&& entries[0].kind is Allow && entries[1].kind is Allow
            &&& entries[0].mask == 0x1f01ff && entries[1].mask == 0x1f01ff
            &&& directory ==> dacl_protected && !entries[0].inherited && !entries[1].inherited
                && entries[0].flags == 3 && entries[1].flags == 3
            &&& !directory ==> (dacl_protected || (entries[0].inherited && entries[1].inherited))
                && (entries[0].flags == 3 || entries[0].flags == 0) && (entries[1].flags == 3
                || entries[1].flags == 0)
        },
        !trusted(owner) ==> acl_fault(owner, dacl_present, dacl_protected, entries, directory)
            == Some("the storage owner is not Administrators or SYSTEM"@),
        trusted(owner) && !dacl_present ==> acl_fault(
            owner,
            dacl_present,
            dacl_protected,
            entries,
            directory,
        ) == Some("the storage object has no DACL"@),
        trusted(owner) && dacl_present && entries.len() != 2 ==> acl_fault(
            owner,
            dacl_present,
            dacl_protected,
            entries,
            directory,
        ) == Some("the storage DACL must contain exactly two entries"@),
{
}

/// The flag of inheritance and the other flags make up all flags of an entry.
pub proof fn flags_are_split_in_two(flags: u8)
    ensures
        flags & INHERITED_ACE == 0 ==> flags & OWN_ACE_FLAGS == flags,
        flags & INHERITED_ACE != 0 ==> (flags & OWN_ACE_FLAGS) + 16 == flags,
{
    assert(flags & 0x10 == 0 ==> flags & 0xef == flags) by (bit_vector);
    assert(flags & 0x10 != 0 ==> (flags & 0xef) + 16 == flags) by (bit_vector);
}

/// Whether a place is one of those from the first up to the last, without that.
pub open spec fn place_within(place: int, first: int, last: int) -> bool {
    first <= place < last
}

/// Memory lies in a region that does not wrap exactly where each of its places does.
pub proof fn regions_hold_every_place(address: int, length: int, start: int, region: int)
    requires
        length > 0,
    ensures
        start + region > usize::MAX ==> !in_region(address, length, start, region),
        start + region <= usize::MAX ==> (in_region(address, length, start, region) <==> forall|
            place: int,
        |
            place_within(place, address, address + length) ==> #[trigger] place_within(
                place,
                start,
                start + region,
            )),
{
    if forall|place: int|
        place_within(place, address, address + length) ==> #[trigger] place_within(
            place,
            start,
            start + region,
        ) {
        assert(place_within(address, start, start + region));
        assert(place_within(address + length - 1, start, start + region));
    }
}

/// Each part of the place of the journal is below the one before it: the product below
/// the folder of the system, the protection below the product, and the journal in it.
pub proof fn journals_are_below_the_product(folder: Seq<char>)
    requires
        folder_fault(folder) is None,
    ensures
        StoragePart::Root.place(folder) == folder,
        StoragePart::Protection.place(folder) == StoragePart::Product.place(folder)
            + "\\Protection"@,
        StoragePart::Journal.place(folder) == StoragePart::Protection.place(folder)
            + "\\dns-recovery.json"@,
        !(root_kind(folder) is VerbatimDrive) && folder.last() != '\\' && folder.last() != '/'
            ==> StoragePart::Product.place(folder) == folder + "\\Vapour"@,
        !(root_kind(folder) is VerbatimDrive) && (folder.last() == '\\' || folder.last() == '/')
            ==> StoragePart::Product.place(folder) == folder + "Vapour"@,
        root_kind(folder) is VerbatimDrive ==> StoragePart::Product.place(folder).take(6)
            == folder.take(6),
{
    reveal_strlit("Vapour");
    reveal_strlit("\\Vapour");
    reveal_strlit("\\Protection");
    reveal_strlit("Vapour\\Protection");
    reveal_strlit("\\dns-recovery.json");
    reveal_strlit("Vapour\\Protection\\dns-recovery.json");
    let product = StoragePart::Product.place(folder);
    assert("Vapour\\Protection"@ =~= "Vapour"@ + "\\Protection"@);
    assert("Vapour\\Protection\\dns-recovery.json"@ =~= "Vapour\\Protection"@
        + "\\dns-recovery.json"@);
    assert(StoragePart::Protection.place(folder) =~= product + "\\Protection"@);
    assert(StoragePart::Journal.place(folder) =~= StoragePart::Protection.place(folder)
        + "\\dns-recovery.json"@);
    if !(root_kind(folder) is VerbatimDrive) && !separator(folder.last()) {
        assert(product =~= folder + "\\Vapour"@);
    }
    if root_kind(folder) is VerbatimDrive {
        assert(product.take(6) =~= folder.take(6));
    }
}

/// What a path begins with: a drive is a letter and a colon, or the same behind two
/// backslashes, a question mark and a backslash, with a separator or the end after it.
pub proof fn drives_begin_a_path(text: Seq<char>)
    ensures
        root_kind(text) is VerbatimDrive <==> {
            &&& text.len() >= 6
            &&& text.take(4) =~= seq!['\\', '\\', '?', '\\']
            &&& ('a' <= text[4] <= 'z' || 'A' <= text[4] <= 'Z') && text[5] == ':'
            &&& text.len() == 6 || text[6] == '\\' || text[6] == '/'
        },
        root_kind(text) is Drive <==> {
            &&& text.len() >= 2
            &&& ('a' <= text[0] <= 'z' || 'A' <= text[0] <= 'Z') && text[1] == ':'
        },
{
}

/// Parts are joined with a separator before each that is not empty.
pub proof fn parts_are_joined_behind_separators(first: Seq<Seq<char>>, second: Seq<Seq<char>>)
    ensures
        joined_parts(Seq::empty()) == Seq::<char>::empty(),
        joined_parts(first + second) == joined_parts(first) + joined_parts(second),
        first.len() == 1 ==> joined_parts(first) == if first[0].len() == 0 {
            Seq::<char>::empty()
        } else {
            seq!['\\'] + first[0]
        },
    decreases second.len(),
{
    reveal_with_fuel(joined_parts, 2);
    if first.len() == 1 {
        assert(first.drop_last() =~= Seq::empty());
        assert(Seq::<char>::empty() + seq!['\\'] + first[0] =~= seq!['\\'] + first[0]);
    }
    if second.len() > 0 {
        let whole = first + second;
        parts_are_joined_behind_separators(first, second.drop_last());
        assert(whole.drop_last() =~= first + second.drop_last());
        assert(whole.last() == second.last());
        assert(joined_parts(whole) =~= joined_parts(first) + joined_parts(second));
    } else {
        assert(first + second =~= first);
        assert(joined_parts(first) + joined_parts(second) =~= joined_parts(first));
    }
}

/// What each event does while the storage is looked through. A part that is not there is
/// made where that is asked for and it is one of the two directories; only the journal
/// may be missing. What is there has to be a directory, or no directory for the journal,
/// and not lead elsewhere; all but the folder of the system is then described.
pub proof fn storage_is_looked_through_in_order(state: StorageView, event: StorageEvent)
    requires
        state.valid(),
        state.expects(event),
    ensures
        ({
            let (after, action) = state.step(event);
            let own = state.part is Product || state.part is Protection;
            let wrong = match event {
                StorageEvent::Inspected(Err(_)) => true,
                StorageEvent::Inspected(Ok(None)) => state.part is Root || (own && (!state.prepare
                    || state.created)),
                StorageEvent::Inspected(Ok(Some(object))) => object.reparse || (object.directory
                    <==> state.part is Journal),
                StorageEvent::Created(creation) => creation is Unprepared || creation is Failed,
                StorageEvent::Described(Err(_)) => true,
                StorageEvent::Described(Ok(shape)) => acl_fault(
                    shape.owner,
                    shape.dacl_present,
                    shape.dacl_protected,
                    shape.entries@,
                    !(state.part is Journal),
                ) is Some,
            };
            let looks = event matches StorageEvent::Inspected(Ok(Some(_)));
            let makes = event matches StorageEvent::Inspected(Ok(None)) && own;
            let passes = !wrong && (event is Described || (event is Inspected && state.part is Root)
                || (event matches StorageEvent::Inspected(Ok(None)) && state.part is Journal));
            &&& after.error is Some <==> wrong
            &&& wrong ==> action is Finish && after.phase is Finished && after.part == state.part
            &&& !wrong && event is Inspected && looks && !(state.part is Root) ==> action
                == StorageAction::Describe(state.part) && after.phase is Describe && after.part
                == state.part
            &&& !wrong && makes ==> action == StorageAction::Create(state.part) && after.phase
                is Create && after.part == state.part
            &&& !wrong && event is Created ==> action == StorageAction::Inspect(state.part)
                && after.phase is Inspect && after.created && after.part == state.part
            &&& passes && state.part is Journal ==> action is Finish && after.phase is Finished
            &&& passes && state.part is Root ==> action == StorageAction::Inspect(
                StoragePart::Product,
            )
            &&& passes && state.part is Product ==> action == StorageAction::Inspect(
                StoragePart::Protection,
            )
            &&& passes && state.part is Protection ==> action == StorageAction::Inspect(
                StoragePart::Journal,
            )
            &&& passes && !(state.part is Journal) ==> after.phase is Inspect && !after.created
            &&& after.folder == state.folder && after.prepare == state.prepare
        }),
        state.outcome() is Ok <==> state.error is None,
        state.outcome() matches Ok(place) ==> place == StoragePart::Journal.place(state.folder),
        state.outcome() matches Err(reason) ==> state.error == Some(reason),
{
}

/// The folder of the system is accepted exactly where none of its parts is a dot or two
/// dots, it begins with a drive and a separator, and names something behind them.
pub proof fn folders_are_rooted_on_a_drive(text: Seq<char>)
    ensures
        folder_fault(text) is None <==> {
            let parts = split(unified(text), '\\');
            let plain = text.len() >= 3 && ('a' <= text[0] <= 'z' || 'A' <= text[0] <= 'Z')
                && text[1] == ':' && (text[2] == '\\' || text[2] == '/');
            let verbatim = text.len() >= 7 && text.take(4) =~= seq!['\\', '\\', '?', '\\'] && ('a'
                <= text[4] <= 'z' || 'A' <= text[4] <= 'Z') && text[5] == ':' && (text[6] == '\\'
                || text[6] == '/');
            &&& forall|i: int|
                0 <= i < parts.len() ==> (#[trigger] parts[i]) != seq!['.'] && parts[i] != seq![
                    '.',
                    '.',
                ]
            &&& plain || verbatim
            &&& plain ==> exists|i: int| 3 <= i < text.len() && #[trigger] text[i] != '\\' && text[i]
                != '/'
            &&& verbatim ==> exists|i: int| 7 <= i < text.len() && #[trigger] text[i] != '\\'
        },
{
    let kind = root_kind(text);
    if kind is Drive && text.len() >= 3 {
        let rest = unified(text.skip(2));
        parts_name_something(rest, '\\');
        assert forall|i: int| 3 <= i < text.len() implies rest[i - 2] == if text[i] == '/' {
            '\\'
        } else {
            text[i]
        } by {}
        if exists|i: int| 0 <= i < rest.len() && #[trigger] rest[i] != '\\' {
            let i = choose|i: int| 0 <= i < rest.len() && #[trigger] rest[i] != '\\';
            assert(text[i + 2] != '\\' && text[i + 2] != '/');
        }
        if exists|i: int| 3 <= i < text.len() && #[trigger] text[i] != '\\' && text[i] != '/' {
            let i = choose|i: int|
                3 <= i < text.len() && #[trigger] text[i] != '\\' && text[i] != '/';
            assert(rest[i - 2] != '\\');
        }
    }
    if kind is VerbatimDrive && text.len() >= 7 {
        let rest = seq!['\\'] + text.skip(6).skip(1);
        parts_name_something(rest, '\\');
        if exists|i: int| 0 <= i < rest.len() && #[trigger] rest[i] != '\\' {
            let i = choose|i: int| 0 <= i < rest.len() && #[trigger] rest[i] != '\\';
            assert(text[i + 6] != '\\');
        }
        if exists|i: int| 7 <= i < text.len() && #[trigger] text[i] != '\\' {
            let i = choose|i: int| 7 <= i < text.len() && #[trigger] text[i] != '\\';
            assert(rest[i - 6] != '\\');
        }
    }
}

} // verus!

//! The backup of the user's global environment that global routing keeps:
//! its records and their checks, registry value types, the check that
//! routing still owns what it wrote, and the registry writes of an apply and
//! of a restore, with the proof that a restore gives back the registry from
//! before routing first touched it.

use vstd::prelude::*;
use crate::global_env::{
    lemma_variable_index_of, lemma_variable_names_distinct, managed_variable_index, opt_backup_view, opt_view, reported,
    reported_upto, reported_variables, str_equals, variable_index, variable_name, variable_name_at,
    DesiredEnvironment, MANAGED_VARIABLE_COUNT,
};
use crate::cache_routing::{is_session_id, new_session_id};
use crate::text::{byte_len, push_str, utf8_len};

verus! {
/// One registry value as the backup file records it: the name of its type
/// and its raw bytes.
#[derive(Debug, Clone)]
pub struct RawRegistryValue {
    pub value_type: String,
    pub bytes: Vec<u8>,
}

/// What the backup remembers of one variable: its value before global
/// routing first touched it (`None` when it did not exist), and the text that
/// routing last wrote.
#[derive(Debug, Clone)]
pub struct GlobalEnvironmentBackupEntry {
    pub original: Option<RawRegistryValue>,
    pub written: String,
}

/// The backup of the variables that global routing has written, keyed by
/// variable name; a checked backup lists them in sorted order, each once.
#[derive(Debug, Clone)]
pub struct GlobalEnvironmentBackup {
    pub kind: String,
    pub managed_root: String,
    pub entries: Vec<(String, GlobalEnvironmentBackupEntry)>,
}

/// The marker that a backup file must carry.
pub const GLOBAL_ENV_BACKUP_KIND: &'static str = "tuzi-switch-development-cache-env-v1";

/// The largest registry value, in bytes, that is backed up or restored.
pub const MAX_REGISTRY_VALUE_BYTES: usize = 65536;

/// The entry recorded under `name`, if any (the first one, should there be
/// several).
pub open spec fn find_entry(
    entries: Seq<(String, GlobalEnvironmentBackupEntry)>,
    name: Seq<char>,
) -> Option<GlobalEnvironmentBackupEntry>
    decreases entries.len(),
{
    if entries.len() == 0 {
        None
    } else if entries[0].0@ == name {
        Some(entries[0].1)
    } else {
        find_entry(entries.drop_first(), name)
    }
}

/// The position of the entry recorded under `name`, if any.
pub fn find_entry_index(entries: &Vec<(String, GlobalEnvironmentBackupEntry)>, name: &str) -> (r: Option<usize>)
    ensures
        match r {
            Some(k) => k < entries.len() && entries@[k as int].0@ == name@ && find_entry(entries@, name@)
                == Some(entries@[k as int].1),
            None => find_entry(entries@, name@) is None,
        },
{
    let mut k: usize = 0;
    assert(entries@.skip(0) =~= entries@);
    while k < entries.len()
        invariant
            k <= entries.len(),
            find_entry(entries@, name@) == find_entry(entries@.skip(k as int), name@),
        decreases entries.len() - k,
    {
        if str_equals(entries[k].0.as_str(), name) {
            return Some(k);
        }
        assert(entries@.skip(k as int).drop_first() =~= entries@.skip(k + 1));
        k += 1;
    }
    None
}

/// An entry larger than the backup accepts.
pub open spec fn entry_too_large(e: GlobalEnvironmentBackupEntry) -> bool {
    ||| utf8_len(e.written@) > MAX_REGISTRY_VALUE_BYTES
    ||| (e.original matches Some(o) && o.bytes.len() > MAX_REGISTRY_VALUE_BYTES)
}

pub open spec fn invalid_kind_text() -> Seq<char> {
    "全局缓存环境变量备份标记无效"@
}

pub open spec fn unmanaged_text() -> Seq<char> {
    "全局缓存环境变量备份包含非托管变量"@
}

pub open spec fn unordered_text() -> Seq<char> {
    "全局缓存环境变量备份中的变量重复或顺序错误"@
}

/// The number of the managed variable that entry `e` records.
pub open spec fn entry_index(e: (String, GlobalEnvironmentBackupEntry)) -> int {
    variable_index(e.0@)->Some_0
}

/// The entries record managed variables in strictly ascending order, and so
/// each at most once.
pub open spec fn entries_ascending(entries: Seq<(String, GlobalEnvironmentBackupEntry)>) -> bool {
    forall|j: int, k: int|
        0 <= j < k < entries.len() ==> #[trigger] entry_index(entries[j]) < #[trigger] entry_index(entries[k])
}

pub open spec fn backup_too_large_text() -> Seq<char> {
    "全局缓存环境变量备份超过安全大小限制"@
}

/// The outcome of checking a backup.
pub open spec fn backup_check_spec(b: GlobalEnvironmentBackup) -> Result<(), Seq<char>> {
    if b.kind@ != GLOBAL_ENV_BACKUP_KIND@ {
        Err(invalid_kind_text())
    } else if b.entries.len() > 8 || exists|k: int|
        0 <= k < b.entries.len() && variable_index(#[trigger] b.entries@[k].0@) is None {
        Err(unmanaged_text())
    } else if !entries_ascending(b.entries@) {
        Err(unordered_text())
    } else if exists|k: int| 0 <= k < b.entries.len() && entry_too_large(#[trigger] b.entries@[k].1) {
        Err(backup_too_large_text())
    } else {
        Ok(())
    }
}

/// Checks a backup: its marker, that it records only managed variables, in
/// sorted order and each once, and that no recorded value exceeds the size
/// limit.
pub fn validate_global_backup(backup: &GlobalEnvironmentBackup) -> (r: Result<(), String>)
    ensures
        match r {
            Ok(()) => backup_check_spec(*backup) == Ok::<(), Seq<char>>(()),
            Err(e) => backup_check_spec(*backup) == Err::<(), Seq<char>>(e@),
        },
{
    if !str_equals(backup.kind.as_str(), GLOBAL_ENV_BACKUP_KIND) {
        return Err("全局缓存环境变量备份标记无效".to_owned());
    }
    if backup.entries.len() > MANAGED_VARIABLE_COUNT {
        return Err("全局缓存环境变量备份包含非托管变量".to_owned());
    }
    let mut k: usize = 0;
    while k < backup.entries.len()
        invariant
            k <= backup.entries.len(),
            backup.kind@ == GLOBAL_ENV_BACKUP_KIND@,
            forall|j: int| 0 <= j < k ==> variable_index(#[trigger] backup.entries@[j].0@) is Some,
        decreases backup.entries.len() - k,
    {
        if managed_variable_index(backup.entries[k].0.as_str()).is_none() {
            return Err("全局缓存环境变量备份包含非托管变量".to_owned());
        }
        k += 1;
    }
    let mut k: usize = 0;
    let mut prev: usize = 0;
    while k < backup.entries.len()
        invariant
            k <= backup.entries.len(),
            backup.kind@ == GLOBAL_ENV_BACKUP_KIND@,
            backup.entries.len() <= 8,
            forall|j: int|
                0 <= j < backup.entries.len() ==> variable_index(#[trigger] backup.entries@[j].0@) is Some,
            forall|j: int, l: int|
                0 <= j < l < k ==> #[trigger] entry_index(backup.entries@[j]) < #[trigger] entry_index(
                    backup.entries@[l],
                ),
            k > 0 ==> prev == entry_index(backup.entries@[k - 1]),
        decreases backup.entries.len() - k,
    {
        let idx = match managed_variable_index(backup.entries[k].0.as_str()) {
            Some(i) => i,
            None => return Err("全局缓存环境变量备份包含非托管变量".to_owned()),
        };
        assert(entry_index(backup.entries@[k as int]) == idx);
        if k > 0 && idx <= prev {
            assert(entry_index(backup.entries@[k - 1]) >= entry_index(backup.entries@[k as int]));
            return Err("全局缓存环境变量备份中的变量重复或顺序错误".to_owned());
        }
        assert forall|j: int, l: int| 0 <= j < l < k + 1 implies #[trigger] entry_index(backup.entries@[j])
            < #[trigger] entry_index(backup.entries@[l]) by {
            if l == k && j < k - 1 {
                assert(entry_index(backup.entries@[j]) < entry_index(backup.entries@[k - 1]));
            }
        }
        prev = idx;
        k += 1;
    }
    let mut k: usize = 0;
    while k < backup.entries.len()
        invariant
            k <= backup.entries.len(),
            backup.kind@ == GLOBAL_ENV_BACKUP_KIND@,
            backup.entries.len() <= 8,
            forall|j: int|
                0 <= j < backup.entries.len() ==> variable_index(#[trigger] backup.entries@[j].0@) is Some,
            entries_ascending(backup.entries@),
            forall|j: int| 0 <= j < k ==> !entry_too_large(#[trigger] backup.entries@[j].1),
        decreases backup.entries.len() - k,
    {
        let e = &backup.entries[k].1;
        let big_original = match &e.original {
            Some(o) => o.bytes.len() > MAX_REGISTRY_VALUE_BYTES,
            None => false,
        };
        if byte_len(&e.written) > MAX_REGISTRY_VALUE_BYTES || big_original {
            return Err("全局缓存环境变量备份超过安全大小限制".to_owned());
        }
        k += 1;
    }
    Ok(())
}


/// The type of a registry value.
#[derive(Clone, Copy, Debug, PartialEq, Eq, Structural)]
pub enum RegistryValueType {
    RegNone,
    RegSz,
    RegExpandSz,
    RegBinary,
    RegDword,
    RegDwordBigEndian,
    RegLink,
    RegMultiSz,
    RegResourceList,
    RegFullResourceDescriptor,
    RegResourceRequirementsList,
    RegQword,
}

pub open spec fn registry_type_name_spec(t: RegistryValueType) -> Seq<char> {
    match t {
        RegistryValueType::RegNone => "REG_NONE"@,
        RegistryValueType::RegSz => "REG_SZ"@,
        RegistryValueType::RegExpandSz => "REG_EXPAND_SZ"@,
        RegistryValueType::RegBinary => "REG_BINARY"@,
        RegistryValueType::RegDword => "REG_DWORD"@,
        RegistryValueType::RegDwordBigEndian => "REG_DWORD_BIG_ENDIAN"@,
        RegistryValueType::RegLink => "REG_LINK"@,
        RegistryValueType::RegMultiSz => "REG_MULTI_SZ"@,
        RegistryValueType::RegResourceList => "REG_RESOURCE_LIST"@,
        RegistryValueType::RegFullResourceDescriptor => "REG_FULL_RESOURCE_DESCRIPTOR"@,
        RegistryValueType::RegResourceRequirementsList => "REG_RESOURCE_REQUIREMENTS_LIST"@,
        RegistryValueType::RegQword => "REG_QWORD"@,
    }
}

/// The name under which the backup file records a registry value type.
pub fn registry_type_name(t: RegistryValueType) -> (r: &'static str)
    ensures
        r@ == registry_type_name_spec(t),
{
    match t {
            RegistryValueType::RegNone => "REG_NONE",
            RegistryValueType::RegSz => "REG_SZ",
            RegistryValueType::RegExpandSz => "REG_EXPAND_SZ",
            RegistryValueType::RegBinary => "REG_BINARY",
            RegistryValueType::RegDword => "REG_DWORD",
            RegistryValueType::RegDwordBigEndian => "REG_DWORD_BIG_ENDIAN",
            RegistryValueType::RegLink => "REG_LINK",
            RegistryValueType::RegMultiSz => "REG_MULTI_SZ",
            RegistryValueType::RegResourceList => "REG_RESOURCE_LIST",
            RegistryValueType::RegFullResourceDescriptor => "REG_FULL_RESOURCE_DESCRIPTOR",
            RegistryValueType::RegResourceRequirementsList => "REG_RESOURCE_REQUIREMENTS_LIST",
            RegistryValueType::RegQword => "REG_QWORD",
    }
}

/// The registry value type recorded under `name`, if it is one.
pub open spec fn registry_type_from_name_spec(name: Seq<char>) -> Option<RegistryValueType> {
    if exists|t: RegistryValueType| registry_type_name_spec(t) == name {
        Some(choose|t: RegistryValueType| registry_type_name_spec(t) == name)
    } else {
        None
    }
}

/// Different types are recorded under different names.
pub proof fn lemma_registry_type_names_distinct(a: RegistryValueType, b: RegistryValueType)
    requires
        a != b,
    ensures
        registry_type_name_spec(a) != registry_type_name_spec(b),
{
    reveal_strlit("REG_NONE");
    reveal_strlit("REG_SZ");
    reveal_strlit("REG_EXPAND_SZ");
    reveal_strlit("REG_BINARY");
    reveal_strlit("REG_DWORD");
    reveal_strlit("REG_DWORD_BIG_ENDIAN");
    reveal_strlit("REG_LINK");
    reveal_strlit("REG_MULTI_SZ");
    reveal_strlit("REG_RESOURCE_LIST");
    reveal_strlit("REG_FULL_RESOURCE_DESCRIPTOR");
    reveal_strlit("REG_RESOURCE_REQUIREMENTS_LIST");
    reveal_strlit("REG_QWORD");
    if registry_type_name_spec(a) == registry_type_name_spec(b) {
        let x = registry_type_name_spec(a);
        assert(x.len() == registry_type_name_spec(b).len());
        if x.len() >= 6 {
            assert(x[4] == registry_type_name_spec(b)[4]);
            assert(x[5] == registry_type_name_spec(b)[5]);
        }
        if x.len() >= 11 {
            assert(x[10] == registry_type_name_spec(b)[10]);
        }
    }
}

/// Reads a registry value type back from its recorded name.
pub fn registry_type_from_name(name: &str) -> (r: Option<RegistryValueType>)
    ensures
        r == registry_type_from_name_spec(name@),
{
    let r = registry_type_from_name_scan(name);
    proof {
        match r {
            Some(t) => {
                let c = choose|u: RegistryValueType| registry_type_name_spec(u) == name@;
                if c != t {
                    lemma_registry_type_names_distinct(c, t);
                }
            },
            None => {},
        }
    }
    r
}

fn registry_type_from_name_scan(name: &str) -> (r: Option<RegistryValueType>)
    ensures
        r matches Some(t) ==> registry_type_name_spec(t) == name@,
        r is None ==> forall|t: RegistryValueType| registry_type_name_spec(t) != name@,
{
    if str_equals(name, "REG_NONE") {
        return Some(RegistryValueType::RegNone);
    }
    if str_equals(name, "REG_SZ") {
        return Some(RegistryValueType::RegSz);
    }
    if str_equals(name, "REG_EXPAND_SZ") {
        return Some(RegistryValueType::RegExpandSz);
    }
    if str_equals(name, "REG_BINARY") {
        return Some(RegistryValueType::RegBinary);
    }
    if str_equals(name, "REG_DWORD") {
        return Some(RegistryValueType::RegDword);
    }
    if str_equals(name, "REG_DWORD_BIG_ENDIAN") {
        return Some(RegistryValueType::RegDwordBigEndian);
    }
    if str_equals(name, "REG_LINK") {
        return Some(RegistryValueType::RegLink);
    }
    if str_equals(name, "REG_MULTI_SZ") {
        return Some(RegistryValueType::RegMultiSz);
    }
    if str_equals(name, "REG_RESOURCE_LIST") {
        return Some(RegistryValueType::RegResourceList);
    }
    if str_equals(name, "REG_FULL_RESOURCE_DESCRIPTOR") {
        return Some(RegistryValueType::RegFullResourceDescriptor);
    }
    if str_equals(name, "REG_RESOURCE_REQUIREMENTS_LIST") {
        return Some(RegistryValueType::RegResourceRequirementsList);
    }
    if str_equals(name, "REG_QWORD") {
        return Some(RegistryValueType::RegQword);
    }
    assert forall|t: RegistryValueType| registry_type_name_spec(t) != name@ by {
        match t {
            RegistryValueType::RegNone => {},
            RegistryValueType::RegSz => {},
            RegistryValueType::RegExpandSz => {},
            RegistryValueType::RegBinary => {},
            RegistryValueType::RegDword => {},
            RegistryValueType::RegDwordBigEndian => {},
            RegistryValueType::RegLink => {},
            RegistryValueType::RegMultiSz => {},
            RegistryValueType::RegResourceList => {},
            RegistryValueType::RegFullResourceDescriptor => {},
            RegistryValueType::RegResourceRequirementsList => {},
            RegistryValueType::RegQword => {},
        }
    }
    None
}

/// Recording a type and reading it back gives the same type.
pub proof fn lemma_registry_type_round_trip(t: RegistryValueType)
    ensures
        registry_type_from_name_spec(registry_type_name_spec(t)) == Some(t),
{
    let c = choose|u: RegistryValueType| registry_type_name_spec(u) == registry_type_name_spec(t);
    if c != t {
        lemma_registry_type_names_distinct(c, t);
    }
}

/// A name that reads back as a type is that type's recorded name.
pub proof fn lemma_registry_type_name_round_trip(name: Seq<char>)
    requires
        registry_type_from_name_spec(name) is Some,
    ensures
        registry_type_name_spec(registry_type_from_name_spec(name)->Some_0) == name,
{
}

/// A registry value as read from or written to the registry.
#[derive(Debug, Clone)]
pub struct RegistryValue {
    pub vtype: RegistryValueType,
    pub bytes: Vec<u8>,
}

pub open spec fn raw_view(v: RawRegistryValue) -> (Seq<char>, Seq<u8>) {
    (v.value_type@, v.bytes@)
}

pub open spec fn original_view(o: Option<RawRegistryValue>) -> Option<(Seq<char>, Seq<u8>)> {
    match o {
        Some(v) => Some(raw_view(v)),
        None => None,
    }
}

fn copy_bytes(v: &Vec<u8>) -> (r: Vec<u8>)
    ensures
        r@ == v@,
{
    let mut r: Vec<u8> = Vec::new();
    let mut i: usize = 0;
    while i < v.len()
        invariant
            i <= v.len(),
            r@ == v@.take(i as int),
        decreases v.len() - i,
    {
        r.push(v[i]);
        i += 1;
        assert(r@ =~= v@.take(i as int));
    }
    assert(v@.take(v.len() as int) =~= v@);
    r
}

/// A copy of a recorded value.
pub fn copy_raw(v: &RawRegistryValue) -> (r: RawRegistryValue)
    ensures
        raw_view(r) == raw_view(*v),
{
    RawRegistryValue { value_type: v.value_type.clone(), bytes: copy_bytes(&v.bytes) }
}

/// A copy of a recorded original.
pub fn copy_original(o: &Option<RawRegistryValue>) -> (r: Option<RawRegistryValue>)
    ensures
        original_view(r) == original_view(*o),
{
    match o {
        Some(v) => Some(copy_raw(v)),
        None => None,
    }
}

/// The backup's record of a registry value.
pub fn raw_registry_to_backup(value: RegistryValue) -> (r: RawRegistryValue)
    ensures
        r.value_type@ == registry_type_name_spec(value.vtype),
        r.bytes@ == value.bytes@,
{
    RawRegistryValue { value_type: registry_type_name(value.vtype).to_owned(), bytes: value.bytes }
}

pub open spec fn oversized_backup_value_text() -> Seq<char> {
    "备份中的注册表值超过安全大小限制"@
}

pub open spec fn unknown_type_text(name: Seq<char>) -> Seq<char> {
    "备份包含未知注册表值类型: "@ + name
}

/// The registry value that a backup record stands for: refused when it is
/// larger than the limit or names an unknown type.
pub fn backup_to_raw_registry(value: &RawRegistryValue) -> (r: Result<RegistryValue, String>)
    ensures
        value.bytes.len() > MAX_REGISTRY_VALUE_BYTES ==> (r matches Err(e) && e@
            == oversized_backup_value_text()),
        value.bytes.len() <= MAX_REGISTRY_VALUE_BYTES ==> match registry_type_from_name_spec(
            value.value_type@,
        ) {
            Some(t) => r matches Ok(v) && v.vtype == t && v.bytes@ == value.bytes@,
            None => r matches Err(e) && e@ == unknown_type_text(value.value_type@),
        },
{
    if value.bytes.len() > MAX_REGISTRY_VALUE_BYTES {
        return Err("备份中的注册表值超过安全大小限制".to_owned());
    }
    match registry_type_from_name(value.value_type.as_str()) {
        Some(vtype) => Ok(RegistryValue { bytes: copy_bytes(&value.bytes), vtype }),
        None => {
            let mut e = "备份包含未知注册表值类型: ".to_owned();
            push_str(&mut e, value.value_type.as_str());
            Err(e)
        },
    }
}

pub open spec fn oversized_value_text(name: Seq<char>) -> Seq<char> {
    "用户环境变量 "@ + name + " 超过安全备份大小限制"@
}

/// Accepts a value read from the registry unless it exceeds the size limit.
pub fn check_registry_read(name: &str, value: RegistryValue) -> (r: Result<RegistryValue, String>)
    ensures
        value.bytes.len() > MAX_REGISTRY_VALUE_BYTES ==> (r matches Err(e) && e@ == oversized_value_text(
            name@,
        )),
        value.bytes.len() <= MAX_REGISTRY_VALUE_BYTES ==> r == Ok::<RegistryValue, String>(value),
{
    if value.bytes.len() > MAX_REGISTRY_VALUE_BYTES {
        let mut e = "用户环境变量 ".to_owned();
        push_str(&mut e, name);
        push_str(&mut e, " 超过安全备份大小限制");
        return Err(e);
    }
    Ok(value)
}


/// The names joined with `", "` between them.
pub open spec fn join_names(names: Seq<Seq<char>>) -> Seq<char>
    decreases names.len(),
{
    if names.len() == 0 {
        seq![]
    } else if names.len() == 1 {
        names[0]
    } else {
        join_names(names.drop_last()) + ", "@ + names.last()
    }
}

/// The names of the recorded variables whose registry text is no longer what
/// routing wrote, in backup order.
pub open spec fn conflict_names(
    entries: Seq<(String, GlobalEnvironmentBackupEntry)>,
    current: Seq<Option<String>>,
) -> Seq<Seq<char>>
    decreases entries.len(),
{
    if entries.len() == 0 {
        seq![]
    } else {
        let k = entries.len() - 1;
        let rest = conflict_names(entries.drop_last(), current);
        if opt_view(current[k]) != Some(entries[k].1.written@) {
            rest.push(entries[k].0@)
        } else {
            rest
        }
    }
}

pub open spec fn conflict_text(names: Seq<Seq<char>>) -> Seq<char> {
    "检测到环境变量被外部修改，已拒绝覆盖: "@ + join_names(names)
}

/// The outcome of checking that routing still owns the recorded variables.
pub open spec fn ownership_spec(b: GlobalEnvironmentBackup, current: Seq<Option<String>>) -> Result<(), Seq<char>> {
    match backup_check_spec(b) {
        Err(e) => Err(e),
        Ok(()) => {
            let names = conflict_names(b.entries@, current);
            if names.len() == 0 {
                Ok(())
            } else {
                Err(conflict_text(names))
            }
        },
    }
}

/// Checks a backup and that every variable it records still holds the text
/// routing wrote; `current[k]` is what the registry now holds as text for the
/// `k`-th recorded variable.  Refuses, naming every changed variable, when
/// someone else has changed one.
pub fn ensure_backup_owned(backup: &GlobalEnvironmentBackup, current: &Vec<Option<String>>) -> (r: Result<(), String>)
    requires
        current.len() == backup.entries.len(),
    ensures
        match r {
            Ok(()) => ownership_spec(*backup, current@) == Ok::<(), Seq<char>>(()),
            Err(e) => ownership_spec(*backup, current@) == Err::<(), Seq<char>>(e@),
        },
{
    validate_global_backup(backup)?;
    let mut names: Vec<String> = Vec::new();
    let mut k: usize = 0;
    while k < backup.entries.len()
        invariant
            k <= backup.entries.len(),
            current.len() == backup.entries.len(),
            names@.map_values(|s: String| s@) == conflict_names(backup.entries@.take(k as int), current@),
        decreases backup.entries.len() - k,
    {
        let e = &backup.entries[k];
        let owned = match &current[k] {
            Some(c) => str_equals(c.as_str(), e.1.written.as_str()),
            None => false,
        };
        let ghost before = names@;
        if !owned {
            names.push(e.0.clone());
        }
        assert(backup.entries@.take(k + 1).drop_last() =~= backup.entries@.take(k as int));
        k += 1;
        assert(names@.map_values(|s: String| s@) =~= conflict_names(backup.entries@.take(k as int), current@));
    }
    assert(backup.entries@.take(backup.entries.len() as int) =~= backup.entries@);
    if names.len() == 0 {
        return Ok(());
    }
    let mut msg = "检测到环境变量被外部修改，已拒绝覆盖: ".to_owned();
    let mut j: usize = 0;
    let ghost views = names@.map_values(|s: String| s@);
    while j < names.len()
        invariant
            j <= names.len(),
            names.len() > 0,
            views == names@.map_values(|s: String| s@),
            msg@ == "检测到环境变量被外部修改，已拒绝覆盖: "@ + join_names(views.take(j as int)),
        decreases names.len() - j,
    {
        if j > 0 {
            push_str(&mut msg, ", ");
        }
        push_str(&mut msg, names[j].as_str());
        j += 1;
        assert(views.take(j as int).drop_last() =~= views.take(j - 1));
        assert(msg@ =~= "检测到环境变量被外部修改，已拒绝覆盖: "@ + join_names(views.take(j as int)));
    }
    assert(views.take(names.len() as int) =~= views);
    Err(msg)
}


/// The entry that an optional backup records for variable `i`.
pub open spec fn existing_entry(existing: Option<GlobalEnvironmentBackup>, i: int) -> Option<
    GlobalEnvironmentBackupEntry,
> {
    match existing {
        Some(b) => find_entry(b.entries@, variable_name(i)),
        None => None,
    }
}

/// Whether an apply must read variable `i`'s present value to back it up:
/// it is wanted and the backup does not record it yet.
pub open spec fn needs_original(
    desired: DesiredEnvironment,
    existing: Option<GlobalEnvironmentBackup>,
    i: int,
) -> bool {
    desired.values@[i] is Some && existing_entry(existing, i) is None
}

/// The managed variables whose present values an apply must read to back
/// them up, in order.
pub fn original_reads(desired: &DesiredEnvironment, existing: Option<&GlobalEnvironmentBackup>) -> (r: Vec<
    usize,
>)
    requires
        desired.values.len() == 8,
    ensures
        forall|k: int| 0 <= k < r.len() ==> #[trigger] r@[k] < 8,
        forall|i: int|
            0 <= i < 8 ==> (needs_original(*desired, opt_backup_view(existing), i) <==> r@.contains(
                i as usize,
            )),
{
    let ghost ex = opt_backup_view(existing);
    let mut r: Vec<usize> = Vec::new();
    let mut i: usize = 0;
    while i < MANAGED_VARIABLE_COUNT
        invariant
            i <= MANAGED_VARIABLE_COUNT,
            desired.values.len() == 8,
            ex == opt_backup_view(existing),
            forall|k: int| 0 <= k < r.len() ==> #[trigger] r@[k] < i,
            forall|t: int| 0 <= t < i ==> (needs_original(*desired, ex, t) <==> r@.contains(t as usize)),
        decreases MANAGED_VARIABLE_COUNT - i,
    {
        let recorded = match existing {
            Some(bk) => find_entry_index(&bk.entries, variable_name_at(i)).is_some(),
            None => false,
        };
        let ghost before = r@;
        if desired.values[i].is_some() && !recorded {
            r.push(i);
            assert(r@[r.len() - 1] == i);
        }
        proof {
            assert forall|t: int| 0 <= t < i + 1 implies (needs_original(*desired, ex, t) <==> r@.contains(
                t as usize,
            )) by {
                if t < i {
                    if before.contains(t as usize) {
                        let k = choose|k: int| 0 <= k < before.len() && before[k] == t as usize;
                        assert(r@[k] == t as usize);
                    }
                    if r@.contains(t as usize) {
                        let k = choose|k: int| 0 <= k < r.len() && r@[k] == t as usize;
                        if k < before.len() {
                            assert(before[k] == t as usize);
                        }
                    }
                } else {
                    if r@.contains(t as usize) && !(desired.values@[t] is Some && !recorded) {
                        let k = choose|k: int| 0 <= k < r.len() && r@[k] == t as usize;
                        assert(before[k] < i);
                    }
                }
            }
        }
        i += 1;
    }
    r
}

/// The registry writes and the new backup that applying global routing makes.
///
/// Indices are managed-variable numbers.  `restores[i]` is `Some(v)` when
/// variable `i` is no longer wanted and gets its recorded original `v` back
/// (`None` inside meaning: delete it); `writes[i]` is the text to write;
/// `changed` lists, in order, every variable that is written or restored.
#[derive(Debug)]
pub struct ApplyPlan {
    pub restores: Vec<Option<Option<RawRegistryValue>>>,
    pub writes: Vec<Option<String>>,
    pub backup: GlobalEnvironmentBackup,
    pub changed: Vec<usize>,
}

/// `plan` is the apply plan for `desired` over the backup `existing`, with
/// `originals[i]` the value read for each variable that `needs_original`.
pub open spec fn is_apply_plan(
    plan: ApplyPlan,
    desired: DesiredEnvironment,
    existing: Option<GlobalEnvironmentBackup>,
    originals: Seq<Option<RawRegistryValue>>,
) -> bool {
    &&& plan.restores.len() == 8
    &&& plan.writes.len() == 8
    &&& plan.backup.kind@ == GLOBAL_ENV_BACKUP_KIND@
    &&& entries_ascending(plan.backup.entries@)
    &&& forall|k: int| 0 <= k < plan.backup.entries.len() ==> variable_index(#[trigger] plan.backup.entries@[k].0@) is Some
    &&& plan.backup.managed_root@ == desired.managed_root@
    &&& plan.changed@.map_values(|i: usize| i as int) == reported_variables(desired, existing)
    &&& forall|i: int|
        0 <= i < 8 ==> {
            &&& opt_view(#[trigger] plan.writes@[i]) == opt_view(desired.values@[i])
            &&& (plan.restores@[i] is Some <==> (desired.values@[i] is None && existing_entry(
                existing,
                i,
            ) is Some))
            &&& (plan.restores@[i] matches Some(o) ==> original_view(o) == original_view(
                existing_entry(existing, i)->Some_0.original,
            ))
            &&& match find_entry(plan.backup.entries@, variable_name(i)) {
                Some(e) => desired.values@[i] is Some && e.written@ == desired.values@[i]->Some_0@
                    && original_view(e.original) == if existing_entry(existing, i) is Some {
                    original_view(existing_entry(existing, i)->Some_0.original)
                } else {
                    original_view(originals[i])
                },
                None => desired.values@[i] is None,
            }
        }
}

proof fn lemma_find_entry_push(
    entries: Seq<(String, GlobalEnvironmentBackupEntry)>,
    item: (String, GlobalEnvironmentBackupEntry),
    name: Seq<char>,
)
    ensures
        find_entry(entries.push(item), name) == if find_entry(entries, name) is Some {
            find_entry(entries, name)
        } else if item.0@ == name {
            Some(item.1)
        } else {
            None
        },
    decreases entries.len(),
{
    if entries.len() == 0 {
        let e = Seq::<(String, GlobalEnvironmentBackupEntry)>::empty();
        assert(entries.push(item).drop_first() =~= e);
        assert(find_entry(e, name) is None);
        assert(entries.push(item)[0] == item);
    } else {
        assert(entries.push(item)[0] == entries[0]);
        assert(entries.push(item).drop_first() =~= entries.drop_first().push(item));
        lemma_find_entry_push(entries.drop_first(), item, name);
    }
}

/// Plans an apply of global routing.
///
/// `existing` is the checked backup, if any.  `originals[i]` is the value
/// read from the registry for each variable that `needs_original`; other
/// entries are ignored.  Recorded originals are kept as they are, so the
/// backup always holds the values from before routing first touched them.
pub fn plan_global_apply(
    desired: &DesiredEnvironment,
    existing: Option<&GlobalEnvironmentBackup>,
    originals: &Vec<Option<RawRegistryValue>>,
) -> (plan: ApplyPlan)
    requires
        desired.values.len() == 8,
        originals.len() == 8,
    ensures
        is_apply_plan(plan, *desired, opt_backup_view(existing), originals@),
{
    let ghost ex = opt_backup_view(existing);
    let mut restores: Vec<Option<Option<RawRegistryValue>>> = Vec::new();
    let mut writes: Vec<Option<String>> = Vec::new();
    let mut entries: Vec<(String, GlobalEnvironmentBackupEntry)> = Vec::new();
    let mut changed: Vec<usize> = Vec::new();
    let mut i: usize = 0;
    while i < MANAGED_VARIABLE_COUNT
        invariant
            i <= MANAGED_VARIABLE_COUNT,
            desired.values.len() == 8,
            originals.len() == 8,
            ex == opt_backup_view(existing),
            restores.len() == i,
            writes.len() == i,
            changed@.map_values(|j: usize| j as int) == reported_upto(*desired, ex, i as int),
            forall|t: int|
                i <= t < 8 ==> #[trigger] find_entry(entries@, variable_name(t)) is None,
            entries_ascending(entries@),
            forall|k: int|
                0 <= k < entries.len() ==> variable_index(#[trigger] entries@[k].0@) is Some && entry_index(
                    entries@[k],
                ) < i,
            forall|t: int|
                0 <= t < i ==> {
                    &&& opt_view(#[trigger] writes@[t]) == opt_view(desired.values@[t])
                    &&& (restores@[t] is Some <==> (desired.values@[t] is None && existing_entry(ex, t) is Some))
                    &&& (restores@[t] matches Some(o) ==> original_view(o) == original_view(
                        existing_entry(ex, t)->Some_0.original,
                    ))
                    &&& match find_entry(entries@, variable_name(t)) {
                        Some(e) => desired.values@[t] is Some && e.written@ == desired.values@[t]->Some_0@
                            && original_view(e.original) == if existing_entry(ex, t) is Some {
                            original_view(existing_entry(ex, t)->Some_0.original)
                        } else {
                            original_view(originals@[t])
                        },
                        None => desired.values@[t] is None,
                    }
                },
        decreases MANAGED_VARIABLE_COUNT - i,
    {
        let name = variable_name_at(i);
        let recorded: Option<usize> = match existing {
            Some(b) => find_entry_index(&b.entries, name),
            None => None,
        };
        let recorded_original: Option<Option<RawRegistryValue>> = match (existing, recorded) {
            (Some(b), Some(k)) => Some(copy_original(&b.entries[k].1.original)),
            _ => None,
        };
        assert(recorded_original is Some <==> existing_entry(ex, i as int) is Some);
        assert(recorded_original matches Some(o) ==> original_view(o) == original_view(
            existing_entry(ex, i as int)->Some_0.original,
        ));
        let ghost before_entries = entries@;
        let ghost before_changed = changed@;
        match &desired.values[i] {
            Some(v) => {
                let original = match recorded_original {
                    Some(o) => o,
                    None => copy_original(&originals[i]),
                };
                let item = (
                    name.to_owned(),
                    GlobalEnvironmentBackupEntry { original, written: v.clone() },
                );
                let ghost it = item;
                entries.push(item);
                proof {
                    lemma_variable_index_of(i as int);
                    assert(entries@[entries.len() - 1] == it);
                    assert(entry_index(it) == i);
                    assert forall|j: int, k: int| 0 <= j < k < entries.len() implies #[trigger] entry_index(
                        entries@[j],
                    ) < #[trigger] entry_index(entries@[k]) by {
                        assert(entries@[j] == before_entries[j]);
                        if k < before_entries.len() {
                            assert(entries@[k] == before_entries[k]);
                        }
                    }
                    assert forall|k: int| 0 <= k < entries.len() implies variable_index(
                        #[trigger] entries@[k].0@,
                    ) is Some && entry_index(entries@[k]) < i + 1 by {
                        if k < before_entries.len() {
                            assert(entries@[k] == before_entries[k]);
                        }
                    }
                    assert forall|t: int| 0 <= t < 8 implies find_entry(entries@, variable_name(t))
                        == if find_entry(before_entries, variable_name(t)) is Some {
                        find_entry(before_entries, variable_name(t))
                    } else if t == i {
                        Some(it.1)
                    } else {
                        None
                    } by {
                        lemma_find_entry_push(before_entries, it, variable_name(t));
                        if t != i {
                            lemma_variable_names_distinct(t, i as int);
                        }
                    }
                }
                restores.push(None);
                writes.push(Some(v.clone()));
                changed.push(i);
            },
            None => {
                let is_recorded = recorded_original.is_some();
                restores.push(recorded_original);
                writes.push(None);
                if is_recorded {
                    changed.push(i);
                }
            },
        }
        proof {
            assert(reported(*desired, ex, i as int) <==> (desired.values@[i as int] is Some || existing_entry(
                ex,
                i as int,
            ) is Some));
            assert(changed@.map_values(|j: usize| j as int) =~= reported_upto(*desired, ex, i + 1));
        }
        i += 1;
    }
    let backup = GlobalEnvironmentBackup {
        kind: GLOBAL_ENV_BACKUP_KIND.to_owned(),
        managed_root: desired.managed_root.clone(),
        entries,
    };
    ApplyPlan { restores, writes, backup, changed }
}


/// What the registry holds for one managed variable.
pub enum RegistryContent {
    Absent,
    /// A value of the recorded type name with these bytes.
    Raw(Seq<char>, Seq<u8>),
    /// Text written by routing.
    Text(Seq<char>),
}

/// What the registry holds after a recorded original is written back.
pub open spec fn original_content(o: Option<RawRegistryValue>) -> RegistryContent {
    match o {
        Some(v) => RegistryContent::Raw(v.value_type@, v.bytes@),
        None => RegistryContent::Absent,
    }
}

/// The registry after an apply plan has been carried out in full.
pub open spec fn apply_effect(r: Seq<RegistryContent>, plan: ApplyPlan) -> Seq<RegistryContent> {
    Seq::new(
        8,
        |i: int|
            if plan.writes@[i] is Some {
                RegistryContent::Text(plan.writes@[i]->Some_0@)
            } else if plan.restores@[i] is Some {
                original_content(plan.restores@[i]->Some_0)
            } else {
                r[i]
            },
    )
}

/// The registry after the originals recorded in `b` have been written back.
pub open spec fn restore_effect(r: Seq<RegistryContent>, b: GlobalEnvironmentBackup) -> Seq<RegistryContent> {
    Seq::new(
        8,
        |i: int|
            match find_entry(b.entries@, variable_name(i)) {
                Some(e) => original_content(e.original),
                None => r[i],
            },
    )
}

/// The backup remembers the registry `r0` from before routing touched it:
/// each recorded variable's original is its value in `r0`, and every other
/// variable still holds its value from `r0`.
pub open spec fn tracks_originals(
    r0: Seq<RegistryContent>,
    r: Seq<RegistryContent>,
    b: Option<GlobalEnvironmentBackup>,
) -> bool {
    &&& r0.len() == 8
    &&& r.len() == 8
    &&& forall|i: int|
        0 <= i < 8 ==> match #[trigger] existing_entry(b, i) {
            Some(e) => original_content(e.original) == r0[i],
            None => r[i] == r0[i],
        }
}

/// The originals handed to an apply were read from the registry `r`.
pub open spec fn originals_read_from(
    r: Seq<RegistryContent>,
    desired: DesiredEnvironment,
    existing: Option<GlobalEnvironmentBackup>,
    originals: Seq<Option<RawRegistryValue>>,
) -> bool {
    forall|i: int|
        0 <= i < 8 && #[trigger] needs_original(desired, existing, i) ==> original_content(originals[i])
            == r[i]
}

/// With no backup, the registry remembers itself.
pub proof fn lemma_tracks_originals_initially(r0: Seq<RegistryContent>)
    requires
        r0.len() == 8,
    ensures
        tracks_originals(r0, r0, None),
{
}

/// Applying global routing, any number of times and with any settings, keeps
/// in the backup the values from before routing first touched each variable,
/// and leaves every variable it does not record as it was.
pub proof fn lemma_apply_keeps_originals(
    r0: Seq<RegistryContent>,
    r: Seq<RegistryContent>,
    desired: DesiredEnvironment,
    existing: Option<GlobalEnvironmentBackup>,
    originals: Seq<Option<RawRegistryValue>>,
    plan: ApplyPlan,
)
    requires
        tracks_originals(r0, r, existing),
        originals_read_from(r, desired, existing, originals),
        is_apply_plan(plan, desired, existing, originals),
    ensures
        tracks_originals(r0, apply_effect(r, plan), Some(plan.backup)),
{
    let r2 = apply_effect(r, plan);
    assert forall|i: int| 0 <= i < 8 implies match #[trigger] existing_entry(Some(plan.backup), i) {
        Some(e) => original_content(e.original) == r0[i],
        None => r2[i] == r0[i],
    } by {
        assert(plan.writes@[i] == plan.writes@[i]);
        assert(existing_entry(existing, i) == existing_entry(existing, i));
        if desired.values@[i] is None && existing_entry(existing, i) is None {
            assert(needs_original(desired, existing, i) == false);
        }
        if desired.values@[i] is Some && existing_entry(existing, i) is None {
            assert(needs_original(desired, existing, i));
        }
    }
}

/// Restoring from a backup that remembers `r0` gives back `r0` exactly.
pub proof fn lemma_restore_recovers_originals(
    r0: Seq<RegistryContent>,
    r: Seq<RegistryContent>,
    b: GlobalEnvironmentBackup,
)
    requires
        tracks_originals(r0, r, Some(b)),
    ensures
        restore_effect(r, b) == r0,
{
    let r2 = restore_effect(r, b);
    assert forall|i: int| 0 <= i < 8 implies r2[i] == r0[i] by {
        assert(existing_entry(Some(b), i) == find_entry(b.entries@, variable_name(i)));
    }
    assert(r2 =~= r0);
}

/// The registry after part of an apply plan has run: the variables in
/// `done` have been written or restored as the plan says.
pub open spec fn partial_apply_effect(r: Seq<RegistryContent>, plan: ApplyPlan, done: Set<int>) -> Seq<
    RegistryContent,
> {
    Seq::new(8, |i: int| if done.contains(i) { apply_effect(r, plan)[i] } else { r[i] })
}

/// The registry after the snapshot `snap` of the variables in `names` has
/// been written back.
pub open spec fn rollback_effect(r: Seq<RegistryContent>, snap: Seq<RegistryContent>, names: Set<int>) -> Seq<
    RegistryContent,
> {
    Seq::new(8, |i: int| if names.contains(i) { snap[i] } else { r[i] })
}

/// An apply plan touches only the variables it lists as changed.
pub proof fn lemma_apply_touches_only_changed(
    r: Seq<RegistryContent>,
    desired: DesiredEnvironment,
    existing: Option<GlobalEnvironmentBackup>,
    originals: Seq<Option<RawRegistryValue>>,
    plan: ApplyPlan,
    i: int,
)
    requires
        r.len() == 8,
        is_apply_plan(plan, desired, existing, originals),
        0 <= i < 8,
        !plan.changed@.map_values(|j: usize| j as int).contains(i),
    ensures
        apply_effect(r, plan)[i] == r[i],
{
    lemma_reported_exact(desired, existing, 8, i);
}

/// `i` is among the reported variables below `n` exactly when it is
/// reported and below `n`.
pub proof fn lemma_reported_exact(
    desired: DesiredEnvironment,
    existing: Option<GlobalEnvironmentBackup>,
    n: int,
    i: int,
)
    requires
        0 <= n,
    ensures
        reported_upto(desired, existing, n).contains(i) <==> (0 <= i < n && reported(desired, existing, i)),
    decreases n,
{
    if n > 0 {
        lemma_reported_exact(desired, existing, n - 1, i);
        let prev = reported_upto(desired, existing, n - 1);
        if reported(desired, existing, n - 1) {
            let now = prev.push(n - 1);
            if prev.contains(i) {
                let k = choose|k: int| 0 <= k < prev.len() && prev[k] == i;
                assert(now[k] == i);
            }
            if i == n - 1 {
                assert(now[prev.len() as int] == i);
            }
            if now.contains(i) {
                let k = choose|k: int| 0 <= k < now.len() && now[k] == i;
                if k < prev.len() {
                    assert(prev[k] == i);
                }
            }
        }
    }
}

/// An apply that fails part way is undone: writing back the snapshot of the
/// changed variables, taken before the apply began, gives back the registry
/// as it was, whichever of the plan's writes had already happened.
pub proof fn lemma_apply_rollback_restores(
    r: Seq<RegistryContent>,
    desired: DesiredEnvironment,
    existing: Option<GlobalEnvironmentBackup>,
    originals: Seq<Option<RawRegistryValue>>,
    plan: ApplyPlan,
    done: Set<int>,
)
    requires
        r.len() == 8,
        is_apply_plan(plan, desired, existing, originals),
    ensures
        rollback_effect(
            partial_apply_effect(r, plan, done),
            r,
            plan.changed@.map_values(|j: usize| j as int).to_set(),
        ) == r,
{
    let names = plan.changed@.map_values(|j: usize| j as int);
    let after = rollback_effect(partial_apply_effect(r, plan, done), r, names.to_set());
    assert forall|i: int| 0 <= i < 8 implies after[i] == r[i] by {
        if !names.to_set().contains(i) {
            assert(!names.contains(i));
            lemma_apply_touches_only_changed(r, desired, existing, originals, plan, i);
        }
    }
    assert(after =~= r);
}

/// A restore that fails part way is undone: writing back the snapshot of the
/// recorded variables gives back the registry as it was.
pub proof fn lemma_restore_rollback_restores(
    r: Seq<RegistryContent>,
    b: GlobalEnvironmentBackup,
    done: Set<int>,
)
    requires
        r.len() == 8,
    ensures
        rollback_effect(
            Seq::new(8, |i: int| if done.contains(i) { restore_effect(r, b)[i] } else { r[i] }),
            r,
            Set::new(|i: int| 0 <= i < 8 && find_entry(b.entries@, variable_name(i)) is Some),
        ) == r,
{
    let names = Set::new(|i: int| 0 <= i < 8 && find_entry(b.entries@, variable_name(i)) is Some);
    let after = rollback_effect(
        Seq::new(8, |i: int| if done.contains(i) { restore_effect(r, b)[i] } else { r[i] }),
        r,
        names,
    );
    assert(after =~= r);
}

/// The originals to write back when global routing is switched off: for each
/// managed variable the backup records, its recorded original.
pub fn plan_global_restore(backup: &GlobalEnvironmentBackup) -> (r: Vec<Option<Option<RawRegistryValue>>>)
    ensures
        r.len() == 8,
        forall|i: int|
            0 <= i < 8 ==> match find_entry(backup.entries@, variable_name(i)) {
                Some(e) => #[trigger] r@[i] matches Some(o) && original_view(o) == original_view(e.original),
                None => r@[i] is None,
            },
{
    let mut r: Vec<Option<Option<RawRegistryValue>>> = Vec::new();
    let mut i: usize = 0;
    while i < MANAGED_VARIABLE_COUNT
        invariant
            i <= MANAGED_VARIABLE_COUNT,
            r.len() == i,
            forall|t: int|
                0 <= t < i ==> match find_entry(backup.entries@, variable_name(t)) {
                    Some(e) => #[trigger] r@[t] matches Some(o) && original_view(o) == original_view(
                        e.original,
                    ),
                    None => r@[t] is None,
                },
        decreases MANAGED_VARIABLE_COUNT - i,
    {
        match find_entry_index(&backup.entries, variable_name_at(i)) {
            Some(k) => r.push(Some(copy_original(&backup.entries[k].1.original))),
            None => r.push(None),
        }
        i += 1;
    }
    r
}

/// The variables that a restore plan writes back, in ascending order.
pub fn restored_variables(restores: &Vec<Option<Option<RawRegistryValue>>>) -> (r: Vec<usize>)
    ensures
        forall|k: int| 0 <= k < r.len() ==> #[trigger] r@[k] < restores.len(),
        forall|j: int, k: int| 0 <= j < k < r.len() ==> #[trigger] r@[j] < #[trigger] r@[k],
        forall|i: int| 0 <= i < restores.len() ==> (#[trigger] restores@[i] is Some <==> r@.contains(i as usize)),
{
    let mut r: Vec<usize> = Vec::new();
    let mut i: usize = 0;
    while i < restores.len()
        invariant
            i <= restores.len(),
            forall|k: int| 0 <= k < r.len() ==> #[trigger] r@[k] < i,
            forall|j: int, k: int| 0 <= j < k < r.len() ==> #[trigger] r@[j] < #[trigger] r@[k],
            forall|t: int| 0 <= t < i ==> (#[trigger] restores@[t] is Some <==> r@.contains(t as usize)),
        decreases restores.len() - i,
    {
        let ghost before = r@;
        if restores[i].is_some() {
            r.push(i);
        }
        proof {
            assert forall|t: int| 0 <= t < i + 1 implies (#[trigger] restores@[t] is Some <==> r@.contains(
                t as usize,
            )) by {
                if t < i {
                    if before.contains(t as usize) {
                        let k = choose|k: int| 0 <= k < before.len() && before[k] == t as usize;
                        assert(r@[k] == t as usize);
                    }
                    if r@.contains(t as usize) {
                        let k = choose|k: int| 0 <= k < r.len() && r@[k] == t as usize;
                        if k == before.len() {
                            assert(r@[k] == i);
                        } else {
                            assert(before[k] == t as usize);
                        }
                    }
                } else if restores@[t] is Some {
                    assert(r@[r.len() - 1] == i);
                } else {
                    if r@.contains(t as usize) {
                        let k = choose|k: int| 0 <= k < r.len() && r@[k] == t as usize;
                        assert(r@[k] == before[k]);
                    }
                }
            }
        }
        i += 1;
    }
    r
}

/// The backup file's name, in the application's configuration directory.
pub const GLOBAL_ENV_BACKUP_FILE: &'static str = "dev-cache-env-backup.json";

/// The largest backup file, in bytes, that is read.
pub const MAX_GLOBAL_BACKUP_BYTES: u64 = 4194304;

pub open spec fn backup_file_too_large_text() -> Seq<char> {
    "全局缓存环境变量备份文件超过安全大小限制"@
}

/// Refuses to read a backup file longer than `MAX_GLOBAL_BACKUP_BYTES`.
pub fn check_backup_file_size(len: u64) -> (r: Result<(), String>)
    ensures
        len <= MAX_GLOBAL_BACKUP_BYTES ==> r is Ok,
        len > MAX_GLOBAL_BACKUP_BYTES ==> (r matches Err(e) && e@ == backup_file_too_large_text()),
{
    if len > MAX_GLOBAL_BACKUP_BYTES {
        Err("全局缓存环境变量备份文件超过安全大小限制".to_owned())
    } else {
        Ok(())
    }
}

/// A fresh name for the temporary file that a new backup is written to
/// before it replaces the old one: `.dev-cache-env-backup.json.<id>.tmp`
/// with a random id.
pub fn backup_temp_file_name() -> (r: String)
    ensures
        exists|id: Seq<char>| is_session_id(id) && r@ == "."@ + GLOBAL_ENV_BACKUP_FILE@ + "."@ + id + ".tmp"@,
{
    let id = new_session_id();
    let mut s = ".".to_owned();
    push_str(&mut s, GLOBAL_ENV_BACKUP_FILE);
    push_str(&mut s, ".");
    push_str(&mut s, id.as_str());
    push_str(&mut s, ".tmp");
    assert(is_session_id(id@));
    s
}

} // verus!

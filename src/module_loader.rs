//! The module container: header, entry table, resource and block tables, and
//! the readable path of each entry.

use vstd::prelude::*;
use vstd::string::StringExecFns;

use crate::errors::{Error, ModuleError, TagError};
use crate::extensions::{decimal, decimal_string, fits, many_end, many_error, u32_at, window, ByteReader, Readable};
use crate::module_block::ModuleBlockEntry;
use crate::module_file::{entry_from, ModuleFileEntry};
use crate::module_header::{decode_module_header, version_number, ModuleHeader, ModuleVersion};
use crate::tag_loader::{name_at_ok, table_name, tag_file_read, tag_reads};

verus! {

/// The path of an entry that has its own identifier: `<group>/<id>.<group>`.
pub open spec fn plain_path(f: ModuleFileEntry) -> Seq<char> {
    f.tag_group@ + "/"@ + decimal(f.tag_id as int) + "."@ + f.tag_group@
}

/// The suffix that marks the resource at `ordinal` of its parent.
pub open spec fn resource_suffix(ordinal: int) -> Seq<char> {
    "["@ + decimal(ordinal) + ":resource]"@
}

/// The number of entries of the resource span `[start, start + count)` that
/// come before the first one equal to `index` (all of them where none is).
pub open spec fn leading_others(resources: Seq<u32>, start: int, count: int, index: int, k: int) -> int
    decreases count - k,
{
    if k >= count {
        count
    } else if resources[start + k] == index {
        k
    } else {
        leading_others(resources, start, count, index, k + 1)
    }
}

/// The place of entry `index` among the resources of the span at `start` of
/// `count` entries; fails where the span is negative or leaves the table.
pub open spec fn resource_ordinal(resources: Seq<u32>, start: i32, count: i32, index: int) -> Result<int, Error> {
    if start < 0 || count < 0 {
        Err(Error::TryFromIntError)
    } else if start + count > resources.len() {
        Err(Error::ModuleError(ModuleError::EntryOutOfRange(start)))
    } else {
        Ok(leading_others(resources, start as int, count as int, index, 0))
    }
}

/// The readable path of entry `index`, resolved at parent depth `depth`:
/// a resource (no identifier of its own) with a parent is named after its
/// parent, with its place among the parent's resources; walking more than
/// three resource parents is refused, so the walk ends even on cycles.
pub open spec fn entry_path(files: Seq<ModuleFileEntry>, resources: Seq<u32>, index: int, depth: int) -> Result<Seq<char>, Error>
    decreases 4 - depth,
{
    if depth > 3 || depth < 0 {
        Err(Error::TagError(TagError::RecursionDepth))
    } else if !(0 <= index < files.len()) {
        Err(Error::ModuleError(ModuleError::EntryOutOfRange(index as i32)))
    } else {
        let file = files[index];
        if file.tag_id == -1 && file.parent_index != -1 {
            let p = file.parent_index as int;
            if !(0 <= p < files.len()) {
                Err(Error::ModuleError(ModuleError::EntryOutOfRange(file.parent_index)))
            } else {
                let parent = files[p];
                match resource_ordinal(resources, parent.resource_index, parent.resource_count, index) {
                    Err(e) => Err(e),
                    Ok(k) => if parent.tag_id == -1 {
                        match entry_path(files, resources, p, depth + 1) {
                            Ok(pp) => Ok(pp + resource_suffix(k)),
                            Err(e) => Err(e),
                        }
                    } else {
                        Ok(plain_path(parent) + resource_suffix(k))
                    },
                }
            }
        } else if file.tag_id != -1 {
            Ok(plain_path(file))
        } else {
            Ok("-1"@)
        }
    }
}

/// The path of an entry with its own identifier.
fn plain_path_of(f: &ModuleFileEntry) -> (r: String)
    ensures
        r@ == plain_path(*f),
{
    let s = f.tag_group.clone().concat("/");
    let s = s.concat(decimal_string(f.tag_id as i64).as_str());
    let s = s.concat(".");
    s.concat(f.tag_group.as_str())
}

/// The suffix that marks the resource at `ordinal`.
fn resource_suffix_of(ordinal: usize) -> (r: String)
    requires
        ordinal <= i64::MAX,
    ensures
        r@ == resource_suffix(ordinal as int),
{
    let s = String::new().concat("[");
    let s = s.concat(decimal_string(ordinal as i64).as_str());
    s.concat(":resource]")
}

/// The place of entry `index` in the resource span at `start` of `count` entries.
pub fn get_resource_ordinal(resources: &Vec<u32>, start: i32, count: i32, index: usize) -> (r: Result<usize, Error>)
    ensures
        match resource_ordinal(resources@, start, count, index as int) {
            Ok(k) => r == Ok::<usize, Error>(k as usize),
            Err(e) => r == Err::<usize, Error>(e),
        },
        r matches Ok(k) ==> k <= count,
        resource_ordinal(resources@, start, count, index as int) matches Ok(k) ==> 0 <= k <= count,
{
    if start < 0 || count < 0 {
        return Err(Error::TryFromIntError);
    }
    let s = start as usize;
    let c = count as usize;
    if s > resources.len() || c > resources.len() - s {
        return Err(Error::ModuleError(ModuleError::EntryOutOfRange(start)));
    }
    let mut k: usize = 0;
    while k < c && resources[s + k] as usize != index
        invariant
            s + c <= resources.len(),
            k <= c,
            leading_others(resources@, s as int, c as int, index as int, 0)
                == leading_others(resources@, s as int, c as int, index as int, k as int),
        decreases c - k,
    {
        k = k + 1;
    }
    Ok(k)
}

/// The readable path of entry `index` of `files`, at parent depth `depth`.
pub fn get_tag_path(files: &Vec<ModuleFileEntry>, resources: &Vec<u32>, index: usize, depth: usize) -> (r: Result<String, Error>)
    ensures
        match entry_path(files@, resources@, index as int, depth as int) {
            Ok(p) => r matches Ok(s) && s@ == p,
            Err(e) => r == Err::<String, Error>(e),
        },
    decreases 4 - depth,
{
    if depth > 3 {
        return Err(Error::TagError(TagError::RecursionDepth));
    }
    if index >= files.len() {
        return Err(Error::ModuleError(ModuleError::EntryOutOfRange(index as i32)));
    }
    let file = &files[index];
    if file.tag_id == -1 && file.parent_index != -1 {
        let p = file.parent_index;
        if p < 0 || p as usize >= files.len() {
            return Err(Error::ModuleError(ModuleError::EntryOutOfRange(p)));
        }
        let parent = &files[p as usize];
        let k = get_resource_ordinal(resources, parent.resource_index, parent.resource_count, index)?;
        let suffix = resource_suffix_of(k);
        if parent.tag_id == -1 {
            let parent_path = get_tag_path(files, resources, p as usize, depth + 1)?;
            assert(p as usize as int == p as int);
            Ok(parent_path.concat(suffix.as_str()))
        } else {
            Ok(plain_path_of(parent).concat(suffix.as_str()))
        }
    } else if file.tag_id != -1 {
        Ok(plain_path_of(file))
    } else {
        let r = String::from_str("-1");
        assert(r@ == "-1"@);
        Ok(r)
    }
}

/// Whether two entry tables agree on everything a path is made of.
pub open spec fn same_path_keys(a: Seq<ModuleFileEntry>, b: Seq<ModuleFileEntry>) -> bool {
    &&& a.len() == b.len()
    &&& forall|i: int| 0 <= i < a.len() ==> {
        &&& (#[trigger] a[i]).tag_id == b[i].tag_id
        &&& a[i].parent_index == b[i].parent_index
        &&& a[i].tag_group@ == b[i].tag_group@
        &&& a[i].resource_index == b[i].resource_index
        &&& a[i].resource_count == b[i].resource_count
    }
}

/// Paths depend on the entries' identifiers, groups, parents and resource spans alone.
pub proof fn lemma_path_keys(a: Seq<ModuleFileEntry>, b: Seq<ModuleFileEntry>, resources: Seq<u32>, index: int, depth: int)
    requires
        same_path_keys(a, b),
    ensures
        entry_path(a, resources, index, depth) == entry_path(b, resources, index, depth),
    decreases 4 - depth,
{
    if 0 <= depth <= 3 && 0 <= index < a.len() {
        let p = a[index].parent_index as int;
        if 0 <= p < a.len() {
            assert(plain_path(a[p]) == plain_path(b[p]));
            lemma_path_keys(a, b, resources, p, depth + 1);
        }
        assert(plain_path(a[index]) == plain_path(b[index]));
    }
}

/// A resource entry whose parent is itself, at any depth, is refused with a
/// depth error: the walk up the parent chain ends even on a cycle.
pub proof fn lemma_self_parent_refused(files: Seq<ModuleFileEntry>, resources: Seq<u32>, index: int, depth: int)
    requires
        0 <= index < files.len(),
        files[index].tag_id == -1,
        files[index].parent_index == index,
        resource_ordinal(resources, files[index].resource_index, files[index].resource_count, index) is Ok,
    ensures
        entry_path(files, resources, index, depth) == Err::<Seq<char>, Error>(Error::TagError(TagError::RecursionDepth)),
    decreases 4 - depth,
{
    if 0 <= depth <= 3 {
        lemma_self_parent_refused(files, resources, index, depth + 1);
    }
}

/// Layout of a module file held in memory: its header, entries, resource and
/// block tables, and where the entries' data begins.
#[derive(Debug, Default)]
pub struct ModuleFile {
    /// How the other fields are to be read.
    pub header: ModuleHeader,
    /// The entries.
    pub files: Vec<ModuleFileEntry>,
    /// Indices of the resource entries, in the order of the entries' resource spans.
    pub resource_indices: Vec<u32>,
    /// The blocks that make up the entries.
    pub blocks: Vec<ModuleBlockEntry>,
    /// Offset in the module file where the entries' data begins.
    pub file_data_offset: u64,
    /// Whether an auxiliary file is open for entries that live there.
    pub use_hd1: bool,
}

/// The offset of the first 4096-byte boundary after `pos`.
pub open spec fn next_page(pos: int) -> int {
    (pos / 4096 + 1) * 4096
}

/// Whether `files` holds the `k` entries of the table at `at`, apart from their names.
pub open spec fn entries_read(data: Seq<u8>, at: int, k: nat, files: Seq<ModuleFileEntry>) -> bool {
    &&& files.len() == k
    &&& forall|i: int| 0 <= i < k ==> entry_from(window(data, many_end::<ModuleFileEntry>(data, at, i as nat), 88), #[trigger] files[i])
}

/// Whether the entries are named as their version asks: from the string table
/// at `strings` before Season 3, else by their resolved paths.
pub open spec fn entries_named(data: Seq<u8>, version: ModuleVersion, strings: int, files: Seq<ModuleFileEntry>, resources: Seq<u32>) -> bool {
    forall|i: int| 0 <= i < files.len() ==> if version_number(version) <= 52 {
        Some((#[trigger] files[i]).tag_name@) == table_name(data, strings, files[i].name_offset)
    } else {
        entry_path(files, resources, i, 0) == Ok::<Seq<char>, Error>((#[trigger] files[i]).tag_name@)
    }
}

/// Whether every entry of the table at `entries` has a readable name in the
/// string table at `strings`.
#[verifier::opaque]
pub open spec fn table_names_ok(data: Seq<u8>, entries: int, count: nat, strings: int) -> bool {
    forall|i: int| 0 <= i < count ==> name_at_ok(data, strings,
        u32_at(window(data, #[trigger] many_end::<ModuleFileEntry>(data, entries, i as nat), 88), 56))
}

/// Whether every entry of the table at `entries` has a path, given the
/// resource table at `resources`.
#[verifier::opaque]
pub open spec fn paths_ok(data: Seq<u8>, entries: int, count: nat, resources: int, resource_count: nat) -> bool {
    forall|files: Seq<ModuleFileEntry>, res: Seq<u32>|
        entries_read(data, entries, count, files) && res.len() == resource_count
            && (forall|i: int| 0 <= i < resource_count ==> #[trigger] res[i] == u32_at(data, resources + 4 * i))
            ==> forall|i: int| 0 <= i < count ==> (#[trigger] entry_path(files, res, i, 0)) is Ok
}

/// The entries read from a table whose names are readable have readable names.
pub proof fn lemma_table_names(data: Seq<u8>, entries: int, count: nat, strings: int, files: Seq<ModuleFileEntry>)
    requires
        table_names_ok(data, entries, count, strings),
        entries_read(data, entries, count, files),
    ensures
        forall|j: int| 0 <= j < files.len() ==> name_at_ok(data, strings, (#[trigger] files[j]).name_offset),
{
    reveal(table_names_ok);
    assert forall|j: int| 0 <= j < files.len() implies name_at_ok(data, strings, (#[trigger] files[j]).name_offset) by {
        assert(entry_from(window(data, many_end::<ModuleFileEntry>(data, entries, j as nat), 88), files[j]));
    }
}

/// The entries read from a table whose paths resolve have paths.
pub proof fn lemma_paths(data: Seq<u8>, entries: int, count: nat, resources: int, files: Seq<ModuleFileEntry>, res: Seq<u32>)
    requires
        paths_ok(data, entries, count, resources, res.len()),
        entries_read(data, entries, count, files),
        forall|i: int| 0 <= i < res.len() ==> #[trigger] res[i] == u32_at(data, resources + 4 * i),
    ensures
        forall|i: int| 0 <= i < count ==> (#[trigger] entry_path(files, res, i, 0)) is Ok,
{
    reveal(paths_ok);
}

/// Whether the module whose header `h` ends at `entries` reads past its
/// header: the entries, the string table, the resource and block tables, the
/// data offset, and every entry's name (from the string table before
/// Season 3, else its path).
pub open spec fn module_tail_ok(data: Seq<u8>, entries: int, h: ModuleHeader) -> bool {
    let strings = many_end::<ModuleFileEntry>(data, entries, h.file_count as nat);
    let resources = strings + h.strings_size;
    &&& module_tables_ok(data, entries, h)
    &&& version_number(h.version) <= 52 ==> table_names_ok(data, entries, h.file_count as nat, strings)
    &&& version_number(h.version) > 52 ==> paths_ok(data, entries, h.file_count as nat, resources, h.resource_count as nat)
}

/// Whether the tables of the module whose header `h` ends at `entries` read:
/// the entries, the string table, the resource and block tables, and the
/// data offset after them.
pub open spec fn module_tables_ok(data: Seq<u8>, entries: int, h: ModuleHeader) -> bool {
    let strings = many_end::<ModuleFileEntry>(data, entries, h.file_count as nat);
    let resources = strings + h.strings_size;
    let blocks = resources + 4 * h.resource_count;
    let end = many_end::<ModuleBlockEntry>(data, blocks, h.block_count as nat);
    &&& many_error::<ModuleFileEntry>(data, entries, h.file_count as nat) is None
    &&& resources <= u64::MAX
    &&& fits(data, resources, 4 * h.resource_count)
    &&& many_error::<ModuleBlockEntry>(data, blocks, h.block_count as nat) is None
    &&& next_page(end) <= u64::MAX
}

/// Whether `r` is the error of the first entry whose path fails, where one
/// fails, for the module whose header `h` ends at `entries`.
#[verifier::opaque]
pub open spec fn reports_path_error(data: Seq<u8>, entries: int, h: ModuleHeader, r: Result<(), Error>) -> bool {
    let resources = many_end::<ModuleFileEntry>(data, entries, h.file_count as nat) + h.strings_size;
    forall|files: Seq<ModuleFileEntry>, res: Seq<u32>|
        #[trigger] entries_read(data, entries, h.file_count as nat, files) && res.len() == h.resource_count
        && (forall|i: int| 0 <= i < h.resource_count ==> #[trigger] res[i] == u32_at(data, resources + 4 * i))
        && #[trigger] first_path_error(files, res, h.file_count as int) is Some
        ==> r == Err::<(), Error>(first_path_error(files, res, h.file_count as int)->0)
}

/// The first failing path of one reading of a module's entries is that of any reading of them.
proof fn lemma_reports_path_error(data: Seq<u8>, entries: int, h: ModuleHeader, files: Seq<ModuleFileEntry>,
    resources: Seq<u32>, r: Result<(), Error>)
    requires
        entries_read(data, entries, h.file_count as nat, files),
        resources.len() == h.resource_count,
        forall|i: int| 0 <= i < h.resource_count ==> #[trigger] resources[i] == u32_at(data,
            many_end::<ModuleFileEntry>(data, entries, h.file_count as nat) + h.strings_size + 4 * i),
        match first_path_error(files, resources, h.file_count as int) {
            Some(e) => r == Err::<(), Error>(e),
            None => r is Ok,
        },
    ensures
        reports_path_error(data, entries, h, r),
{
    reveal(reports_path_error);
    let at = many_end::<ModuleFileEntry>(data, entries, h.file_count as nat) + h.strings_size;
    assert forall|f2: Seq<ModuleFileEntry>, res: Seq<u32>|
        #[trigger] entries_read(data, entries, h.file_count as nat, f2) && res.len() == h.resource_count
        && (forall|i: int| 0 <= i < h.resource_count ==> #[trigger] res[i] == u32_at(data, at + 4 * i))
        && #[trigger] first_path_error(f2, res, h.file_count as int) is Some
        implies r == Err::<(), Error>(first_path_error(f2, res, h.file_count as int)->0) by {
        lemma_entries_keys(data, entries, h.file_count as nat, files, f2);
        lemma_first_path_keys(files, f2, resources, h.file_count as int);
        assert(res =~= resources);
    }
}

/// The error of the first of the first `n` entries whose path fails, if any.
pub open spec fn first_path_error(files: Seq<ModuleFileEntry>, resources: Seq<u32>, n: int) -> Option<Error>
    decreases n,
{
    if n <= 0 {
        None
    } else {
        match first_path_error(files, resources, n - 1) {
            Some(e) => Some(e),
            None => match entry_path(files, resources, n - 1, 0) {
                Err(e) => Some(e),
                Ok(_) => None,
            },
        }
    }
}

/// Once a path has failed, the first failure stays the same as more entries are looked at.
pub proof fn lemma_first_path_error_stays(files: Seq<ModuleFileEntry>, resources: Seq<u32>, k: int, n: int)
    requires
        0 <= k <= n,
        first_path_error(files, resources, k) is Some,
    ensures
        first_path_error(files, resources, n) == first_path_error(files, resources, k),
    decreases n - k,
{
    if k < n {
        lemma_first_path_error_stays(files, resources, k, n - 1);
    }
}

/// The first failing path depends on what paths are made of alone.
pub proof fn lemma_first_path_keys(a: Seq<ModuleFileEntry>, b: Seq<ModuleFileEntry>, resources: Seq<u32>, n: int)
    requires
        same_path_keys(a, b),
    ensures
        first_path_error(a, resources, n) == first_path_error(b, resources, n),
    decreases n,
{
    if n > 0 {
        lemma_first_path_keys(a, b, resources, n - 1);
        lemma_path_keys(a, b, resources, n - 1, 0);
    }
}

/// Two readings of one entry table agree on what paths are made of.
pub proof fn lemma_entries_keys(data: Seq<u8>, at: int, k: nat, a: Seq<ModuleFileEntry>, b: Seq<ModuleFileEntry>)
    requires
        entries_read(data, at, k, a),
        entries_read(data, at, k, b),
    ensures
        same_path_keys(a, b),
{
    assert forall|i: int| 0 <= i < a.len() implies {
        &&& (#[trigger] a[i]).tag_id == b[i].tag_id
        &&& a[i].parent_index == b[i].parent_index
        &&& a[i].tag_group@ == b[i].tag_group@
        &&& a[i].resource_index == b[i].resource_index
        &&& a[i].resource_count == b[i].resource_count
    } by {
        let w = window(data, many_end::<ModuleFileEntry>(data, at, i as nat), 88);
        assert(entry_from(w, a[i]));
        assert(entry_from(w, b[i]));
    }
}

impl ModuleFile {
    /// A module with no entries.
    pub fn new() -> (r: Self)
        ensures
            r.files@.len() == 0 && r.resource_indices@.len() == 0 && r.blocks@.len() == 0,
            r.file_data_offset == 0 && !r.use_hd1,
    {
        ModuleFile {
            header: ModuleHeader::new(),
            files: Vec::new(),
            resource_indices: Vec::new(),
            blocks: Vec::new(),
            file_data_offset: 0,
            use_hd1: false,
        }
    }

    /// Reads the layout of the module whose bytes `reader` holds, from its position:
    /// the header, the entries, the string table (versions before Season 3),
    /// the resource and block tables; the entries' data begins at the next
    /// 4096-byte boundary. A header that fails its checks leaves `self` untouched.
    pub fn read(&mut self, reader: &mut ByteReader) -> (r: Result<(), Error>)
        ensures
            final(reader).bytes() == old(reader).bytes(),
            ({
                let data = old(reader).bytes();
                let pos = old(reader).at();
                match decode_module_header(data, pos) {
                    Err(e) => r == Err::<(), Error>(e) && *final(self) == *old(self),
                    Ok((h, entries)) => (module_tail_ok(data, entries, h) ==> r is Ok)
                        && (version_number(h.version) > 52 && module_tables_ok(data, entries, h)
                            ==> reports_path_error(data, entries, h, r))
                        && (r is Ok ==> {
                        let m = *final(self);
                        let strings = many_end::<ModuleFileEntry>(data, entries, h.file_count as nat);
                        let resources = strings + h.strings_size;
                        let blocks = resources + 4 * h.resource_count;
                        let end = many_end::<ModuleBlockEntry>(data, blocks, h.block_count as nat);
                        &&& m.header == h
                        &&& entries_read(data, entries, h.file_count as nat, m.files@)
                        &&& entries_named(data, h.version, strings, m.files@, m.resource_indices@)
                        &&& m.resource_indices@.len() == h.resource_count
                        &&& forall|i: int| 0 <= i < h.resource_count ==> #[trigger] m.resource_indices@[i] == u32_at(data, resources + 4 * i)
                        &&& m.blocks@.len() == h.block_count
                        &&& forall|i: int| 0 <= i < h.block_count ==> ModuleBlockEntry::reads_as(data, #[trigger] many_end::<ModuleBlockEntry>(data, blocks, i as nat), m.blocks@[i])
                        &&& m.file_data_offset == next_page(end)
                        &&& m.use_hd1 == old(self).use_hd1
                    }),
                }
            }),
    {
        let mut header = ModuleHeader::new();
        header.read(reader)?;
        let ghost data = reader.bytes();
        let ghost entries = reader.at();
        let mut files = reader.read_enumerable::<ModuleFileEntry>(header.file_count as u64)?;
        let strings = reader.stream_position();
        let resources_at = match strings.checked_add(header.strings_size as u64) {
            Some(p) => p,
            None => return Err(Error::ReadError),
        };
        reader.seek(resources_at);
        if !reader.can_read(4 * header.resource_count as u64) {
            return Err(Error::ReadError);
        }
        let mut resource_indices: Vec<u32> = Vec::new();
        let mut i: u32 = 0;
        while i < header.resource_count
            invariant
                reader.bytes() == data,
                data == old(reader).bytes(),
                decode_module_header(old(reader).bytes(), old(reader).at()) is Ok,
                i <= header.resource_count,
                reader.at() == resources_at + 4 * i,
                fits(data, resources_at as int, 4 * header.resource_count),
                resource_indices@.len() == i,
                forall|j: int| 0 <= j < i ==> #[trigger] resource_indices@[j] == u32_at(data, resources_at + 4 * j),
            decreases header.resource_count - i,
        {
            let v = reader.read_u32()?;
            resource_indices.push(v);
            i = i + 1;
        }
        let blocks = reader.read_enumerable::<ModuleBlockEntry>(header.block_count as u64)?;
        let end = reader.stream_position();
        let page = end / 4096 + 1;
        if page > u64::MAX / 4096 {
            return Err(Error::ReadError);
        }
        let file_data_offset = page * 4096;
        if header.version.number() <= 52 {
            proof {
                if table_names_ok(data, entries, header.file_count as nat, strings as int) {
                    lemma_table_names(data, entries, header.file_count as nat, strings as int, files@);
                }
            }
            name_from_table(&mut files, reader, strings)?;
        } else {
            proof {
                if paths_ok(data, entries, header.file_count as nat, resources_at as int, header.resource_count as nat) {
                    lemma_paths(data, entries, header.file_count as nat, resources_at as int, files@, resource_indices@);
                }
            }
            let ghost unnamed = files@;
            match name_by_path(&mut files, &resource_indices) {
                Ok(()) => {
                    proof {
                        lemma_reports_path_error(data, entries, header, unnamed, resource_indices@, Ok::<(), Error>(()));
                    }
                },
                Err(e) => {
                    proof {
                        lemma_reports_path_error(data, entries, header, unnamed, resource_indices@, Err::<(), Error>(e));
                    }
                    return Err(e);
                },
            }
        }
        self.header = header;
        self.files = files;
        self.resource_indices = resource_indices;
        self.blocks = blocks;
        self.file_data_offset = file_data_offset;
        Ok(())
    }
}

/// Where an entry's stored bytes begin: in the module file itself or in its
/// auxiliary file, and at which offset of that file.
#[derive(Debug, Clone, Copy, PartialEq, Eq)]
pub struct DataSource {
    /// Whether the bytes lie in the auxiliary file.
    pub in_hd1: bool,
    /// Offset of the entry's first stored byte in that file.
    pub offset: u64,
}

/// Offset in the auxiliary file that entries' data offsets count from, by
/// module version. Every known revision counts from the header's `hd1_delta`.
pub open spec fn hd1_base(version: ModuleVersion, hd1_delta: u64) -> u64 {
    match version {
        ModuleVersion::Flight1 => hd1_delta,
        ModuleVersion::Release => hd1_delta,
        ModuleVersion::CampaignFlight => hd1_delta,
        ModuleVersion::Season3 => hd1_delta,
    }
}

/// Where the stored bytes of entry `index` lie, if they can be read: none for
/// an entry marked as stored in the reserved location, or stored in an
/// auxiliary file that is not open.
pub open spec fn source_of(m: ModuleFile, index: int) -> Result<Option<DataSource>, Error> {
    if !(0 <= index < m.files@.len()) {
        Err(Error::ModuleError(ModuleError::EntryOutOfRange(index as i32)))
    } else {
        let f = m.files@[index];
        if f.data_offset_flags.bits / 2 % 2 == 1 {
            Ok(None)
        } else if f.data_offset_flags.bits % 2 == 1 {
            if !m.use_hd1 {
                Ok(None)
            } else if hd1_base(m.header.version, m.header.hd1_delta) + f.data_offset > u64::MAX {
                Err(Error::TryFromIntError)
            } else {
                Ok(Some(DataSource { in_hd1: true, offset: (hd1_base(m.header.version, m.header.hd1_delta) + f.data_offset) as u64 }))
            }
        } else if m.file_data_offset + f.data_offset > u64::MAX {
            Err(Error::TryFromIntError)
        } else {
            Ok(Some(DataSource { in_hd1: false, offset: (m.file_data_offset + f.data_offset) as u64 }))
        }
    }
}

/// Whether the bytes of entry `index` cannot be read: they lie in the
/// reserved location, or in an auxiliary file that is not open.
pub open spec fn unreadable(m: ModuleFile, index: int) -> bool {
    let flags = m.files@[index].data_offset_flags.bits;
    flags / 2 % 2 == 1 || (flags % 2 == 1 && !m.use_hd1)
}

impl ModuleFile {
    /// Where the stored bytes of entry `index` lie, if they can be read.
    pub fn tag_source(&self, index: u32) -> (r: Result<Option<DataSource>, Error>)
        ensures
            r == source_of(*self, index as int),
    {
        if index as usize >= self.files.len() {
            return Err(Error::ModuleError(ModuleError::EntryOutOfRange(index as i32)));
        }
        let f = &self.files[index as usize];
        if f.data_offset_flags.is_invalid() {
            return Ok(None);
        }
        if f.data_offset_flags.uses_hd1() {
            if !self.use_hd1 {
                return Ok(None);
            }
            let base = match self.header.version {
                ModuleVersion::Flight1 => self.header.hd1_delta,
                ModuleVersion::Release => self.header.hd1_delta,
                ModuleVersion::CampaignFlight => self.header.hd1_delta,
                ModuleVersion::Season3 => self.header.hd1_delta,
            };
            match base.checked_add(f.data_offset) {
                Some(offset) => Ok(Some(DataSource { in_hd1: true, offset })),
                None => Err(Error::TryFromIntError),
            }
        } else {
            match self.file_data_offset.checked_add(f.data_offset) {
                Some(offset) => Ok(Some(DataSource { in_hd1: false, offset })),
                None => Err(Error::TryFromIntError),
            }
        }
    }

    /// Loads entry `index` from its assembled buffer (once: an entry already
    /// loaded is left as it is) and gives its identifier; an entry whose bytes
    /// cannot be read (reserved location, or an auxiliary file that is not
    /// open) gives none and is left as it is.
    pub fn read_tag(&mut self, index: u32, data: Vec<u8>) -> (r: Result<Option<i32>, Error>)
        ensures
            index >= old(self).files@.len() ==> r == Err::<Option<i32>, Error>(
                Error::ModuleError(ModuleError::EntryOutOfRange(index as i32))),
            index < old(self).files@.len() && unreadable(*old(self), index as int)
                ==> r == Ok::<Option<i32>, Error>(None) && *final(self) == *old(self),
            r matches Ok(Some(id)) ==> index < old(self).files@.len() && id == old(self).files@[index as int].tag_id
                && final(self).files@[index as int].is_loaded,
            r matches Ok(Some(_)) && old(self).files@[index as int].is_loaded
                ==> final(self).files@[index as int] == old(self).files@[index as int],
            r matches Ok(Some(_)) && !old(self).files@[index as int].is_loaded ==> {
                let f = final(self).files@[index as int];
                let old_f = old(self).files@[index as int];
                &&& (f.data_stream matches Some(d) && d@ == data@)
                &&& old_f.tag_id == -1 ==> f.tag_info is None
                &&& old_f.tag_id != -1 ==> (f.tag_info matches Some(t)
                    && tag_file_read(data@, 0, version_number(old(self).header.version) < 53, t))
            },
            r is Err ==> final(self).files@ == old(self).files@,
            index < old(self).files@.len() && !unreadable(*old(self), index as int) && ({
                let f = old(self).files@[index as int];
                f.is_loaded || f.tag_id == -1 || tag_reads(data@, version_number(old(self).header.version) < 53)
            }) ==> r == Ok::<Option<i32>, Error>(Some(old(self).files@[index as int].tag_id)),
            final(self).files@.len() == old(self).files@.len(),
            forall|j: int| 0 <= j < old(self).files@.len() && j != index ==> final(self).files@[j] == old(self).files@[j],
            final(self).header == old(self).header,
            final(self).resource_indices == old(self).resource_indices,
            final(self).blocks == old(self).blocks,
    {
        if index as usize >= self.files.len() {
            return Err(Error::ModuleError(ModuleError::EntryOutOfRange(index as i32)));
        }
        let i = index as usize;
        if self.files[i].data_offset_flags.is_invalid() || (self.files[i].data_offset_flags.uses_hd1() && !self.use_hd1) {
            return Ok(None);
        }
        let version = self.header.version;
        let mut entry = ModuleFileEntry::new();
        self.files.set_and_swap(i, &mut entry);
        let loaded = entry.load(data, &version);
        let id = entry.tag_id;
        self.files.set_and_swap(i, &mut entry);
        match loaded {
            Ok(()) => Ok(Some(id)),
            Err(e) => {
                assert(self.files@ =~= old(self).files@);
                Err(e)
            },
        }
    }

    /// The index of the first entry whose identifier is `global_id`, if any.
    pub fn find_tag(&self, global_id: i32) -> (r: Option<usize>)
        ensures
            r matches Some(i) ==> i < self.files@.len() && self.files@[i as int].tag_id == global_id
                && forall|j: int| 0 <= j < i ==> self.files@[j].tag_id != global_id,
            r is None ==> forall|j: int| 0 <= j < self.files@.len() ==> self.files@[j].tag_id != global_id,
    {
        let mut i: usize = 0;
        while i < self.files.len()
            invariant
                i <= self.files@.len(),
                forall|j: int| 0 <= j < i ==> self.files@[j].tag_id != global_id,
            decreases self.files@.len() - i,
        {
            if self.files[i].tag_id == global_id {
                return Some(i);
            }
            i = i + 1;
        }
        None
    }
}

/// Names each entry from the string table at `strings`.
fn name_from_table(files: &mut Vec<ModuleFileEntry>, reader: &mut ByteReader, strings: u64) -> (r: Result<(), Error>)
    ensures
        final(reader).bytes() == old(reader).bytes(),
        final(files)@.len() == old(files)@.len(),
        forall|j: int| 0 <= j < old(files)@.len() ==>
            (ModuleFileEntry { tag_name: old(files)@[j].tag_name, ..#[trigger] final(files)@[j] }) == old(files)@[j],
        r is Ok ==> forall|j: int| 0 <= j < old(files)@.len() ==>
            Some((#[trigger] final(files)@[j]).tag_name@) == table_name(old(reader).bytes(), strings as int, final(files)@[j].name_offset),
        (forall|j: int| 0 <= j < old(files)@.len() ==> name_at_ok(old(reader).bytes(), strings as int, (#[trigger] old(files)@[j]).name_offset))
            ==> r is Ok,
{
    let ghost data = reader.bytes();
    let mut i: usize = 0;
    while i < files.len()
        invariant
            reader.bytes() == data,
            data == old(reader).bytes(),
            0 <= i <= files@.len(),
            files@.len() == old(files)@.len(),
            forall|j: int| 0 <= j < files@.len() ==>
                (ModuleFileEntry { tag_name: old(files)@[j].tag_name, ..#[trigger] files@[j] }) == old(files)@[j],
            forall|j: int| 0 <= j < i ==>
                Some((#[trigger] files@[j]).tag_name@) == table_name(data, strings as int, files@[j].name_offset),
        decreases files@.len() - i,
    {
        let at = match strings.checked_add(files[i].name_offset as u64) {
            Some(p) => p,
            None => return Err(Error::ReadError),
        };
        reader.seek(at);
        let mut name = reader.read_null_terminated_string()?;
        let mut entry = ModuleFileEntry::new();
        files.set_and_swap(i, &mut entry);
        std::mem::swap(&mut entry.tag_name, &mut name);
        files.set_and_swap(i, &mut entry);
        i = i + 1;
    }
    Ok(())
}

/// Names each entry by its resolved path.
fn name_by_path(files: &mut Vec<ModuleFileEntry>, resources: &Vec<u32>) -> (r: Result<(), Error>)
    ensures
        final(files)@.len() == old(files)@.len(),
        forall|j: int| 0 <= j < old(files)@.len() ==>
            (ModuleFileEntry { tag_name: old(files)@[j].tag_name, ..#[trigger] final(files)@[j] }) == old(files)@[j],
        r is Ok ==> forall|j: int| 0 <= j < old(files)@.len() ==>
            entry_path(final(files)@, resources@, j, 0) == Ok::<Seq<char>, Error>((#[trigger] final(files)@[j]).tag_name@),
        (forall|j: int| 0 <= j < old(files)@.len() ==> (#[trigger] entry_path(old(files)@, resources@, j, 0)) is Ok) ==> r is Ok,
        r matches Err(e) ==> first_path_error(old(files)@, resources@, old(files)@.len() as int) == Some(e),
        r is Ok ==> first_path_error(old(files)@, resources@, old(files)@.len() as int) is None,
{
    let mut paths: Vec<String> = Vec::new();
    let mut i: usize = 0;
    while i < files.len()
        invariant
            0 <= i <= files@.len(),
            files@ == old(files)@,
            paths@.len() == i,
            forall|j: int| 0 <= j < i ==> entry_path(files@, resources@, j, 0) == Ok::<Seq<char>, Error>((#[trigger] paths@[j])@),
            first_path_error(files@, resources@, i as int) is None,
        decreases files@.len() - i,
    {
        let p = match get_tag_path(files, resources, i, 0) {
            Ok(p) => p,
            Err(e) => {
                proof {
                    assert(first_path_error(files@, resources@, i + 1) == Some(e));
                    lemma_first_path_error_stays(files@, resources@, i + 1, files@.len() as int);
                }
                return Err(e);
            },
        };
        paths.push(p);
        i = i + 1;
    }
    let ghost before = files@;
    let mut i: usize = 0;
    while i < files.len()
        invariant
            0 <= i <= files@.len(),
            paths@.len() == files@.len(),
            before == old(files)@,
            files@.len() == before.len(),
            forall|j: int| 0 <= j < files@.len() ==>
                (ModuleFileEntry { tag_name: before[j].tag_name, ..#[trigger] files@[j] }) == before[j],
            forall|j: int| 0 <= j < before.len() ==> entry_path(before, resources@, j, 0) == Ok::<Seq<char>, Error>((#[trigger] paths@[j])@),
            forall|j: int| 0 <= j < i ==> (#[trigger] files@[j]).tag_name@ == paths@[j]@,
        decreases files@.len() - i,
    {
        let mut entry = ModuleFileEntry::new();
        files.set_and_swap(i, &mut entry);
        entry.tag_name = paths[i].clone();
        files.set_and_swap(i, &mut entry);
        i = i + 1;
    }
    proof {
        assert forall|j: int| 0 <= j < before.len() implies
            entry_path(files@, resources@, j, 0) == Ok::<Seq<char>, Error>((#[trigger] files@[j]).tag_name@) by {
            assert(same_path_keys(files@, before)) by {
                assert forall|k: int| 0 <= k < files@.len() implies (#[trigger] files@[k]).tag_id == before[k].tag_id by {
                    assert((ModuleFileEntry { tag_name: before[k].tag_name, ..files@[k] }).tag_id == before[k].tag_id);
                }
            }
            lemma_path_keys(files@, before, resources@, j, 0);
        }
    }
    Ok(())
}

} // verus!

//! Which files of a tree are indexed: the filters on names, sizes and content, and
//! the result sets of a scan.

use vstd::prelude::*;
use vstd::string::*;
use vstd::utf8::{decode_utf8, valid_utf8};
use crate::path_map::PathMap;
use vstd::utf8::is_ascii_chars;
use crate::text::{
    ascii_lower, chars_of, ends_with, find_last, has_suffix, last_index_of,
    lemma_last_index_of, lower_ascii, same_chars,
};

verus! {

/// Maximum file size to index (1MB).
pub const MAX_FILE_SIZE: u64 = 1_000_000;

/// How many leading bytes are searched for a null byte.
pub const BINARY_CHECK_LEN: usize = 8192;

/// Extensions of files that are never indexed: compiled code, archives, documents,
/// media, data and lock files.
pub open spec fn binary_extensions() -> Seq<&'static str> {
    seq![
        "pyc", "pyo", "o", "so", "dylib", "dll", "bin", "exe", "a", "lib",
        "zip", "tar", "gz", "bz2", "xz", "7z", "rar", "jar", "war", "whl",
        "pdf", "doc", "docx", "xls", "xlsx", "ppt", "pptx",
        "png", "jpg", "jpeg", "gif", "ico", "svg", "webp", "bmp", "tiff",
        "mp3", "mp4", "wav", "avi", "mov", "mkv",
        "db", "sqlite", "sqlite3", "pkl", "npy", "npz", "onnx", "pt", "pth", "safetensors",
        "lock",
    ]
}

/// Extensions of files that are never indexed.
pub fn binary_extension_list() -> (list: Vec<&'static str>)
    ensures
        list@ == binary_extensions(),
{
    let list = vec![
        "pyc", "pyo", "o", "so", "dylib", "dll", "bin", "exe", "a", "lib",
        "zip", "tar", "gz", "bz2", "xz", "7z", "rar", "jar", "war", "whl",
        "pdf", "doc", "docx", "xls", "xlsx", "ppt", "pptx",
        "png", "jpg", "jpeg", "gif", "ico", "svg", "webp", "bmp", "tiff",
        "mp3", "mp4", "wav", "avi", "mov", "mkv",
        "db", "sqlite", "sqlite3", "pkl", "npy", "npz", "onnx", "pt", "pth", "safetensors",
        "lock",
    ];
    assert(list@ =~= binary_extensions());
    list
}

/// Whether `extension`, written without its dot and in lower case, is on the list.
pub open spec fn is_binary_extension_spec(extension: Seq<char>) -> bool {
    exists|i: int|
        0 <= i < binary_extensions().len() && (#[trigger] binary_extensions()[i])@ == extension
}

/// Whether the characters of an extension, without its dot and in lower case, are
/// on the list.
fn is_listed(extension: &Vec<char>) -> (listed: bool)
    ensures
        listed == is_binary_extension_spec(extension@),
{
    let list = binary_extension_list();
    let mut i: usize = 0;
    while i < list.len()
        invariant
            i <= list.len(),
            list@ == binary_extensions(),
            forall|j: int| 0 <= j < i ==> (#[trigger] binary_extensions()[j])@ != extension@,
        decreases list.len() - i,
    {
        let entry = chars_of(list[i]);
        if same_chars(&entry, extension) {
            assert(binary_extensions()[i as int]@ == extension@);
            return true;
        }
        i += 1;
    }
    false
}

/// Whether `extension`, written without its dot and in lower case, is on the list.
pub fn is_binary_extension(extension: &str) -> (listed: bool)
    ensures
        listed == is_binary_extension_spec(extension@),
{
    let chars = chars_of(extension);
    is_listed(&chars)
}

/// The lower-case form that `str::to_lowercase` gives a text.
pub uninterp spec fn lowercase(text: Seq<char>) -> Seq<char>;

/// The lower-case form under which an extension is looked up: an extension of ASCII
/// characters has its letters lower-cased, and any other extension is lower-cased by
/// `str::to_lowercase`.
pub open spec fn lowered(extension: Seq<char>) -> Seq<char> {
    if is_ascii_chars(extension) {
        ascii_lower(extension)
    } else {
        lowercase(extension)
    }
}

/// Whether files of this extension, written without its dot and in any case, are
/// left out of a scan.
pub open spec fn skips_extension_spec(extension: Seq<char>) -> bool {
    is_binary_extension_spec(lowered(extension))
}

/// Lower-cases a text with `str::to_lowercase`, which follows the Unicode tables of
/// the standard library; the result is only named.
#[verifier::external_body]
fn to_lowercase(text: &str) -> (lower: String)
    ensures
        lower@ == lowercase(text@),
{
    text.to_lowercase()
}

/// Whether files of this extension, written without its dot and in any case, are
/// left out of a scan.
pub fn skips_extension(extension: &str) -> (skipped: bool)
    ensures
        skipped == skips_extension_spec(extension@),
{
    if extension.is_ascii() {
        let chars = chars_of(extension);
        let lower = lower_ascii(&chars);
        is_listed(&lower)
    } else {
        let lower = to_lowercase(extension);
        is_binary_extension(lower.as_str())
    }
}

/// Whether the name begins with a dot.
pub open spec fn is_dotfile(name: Seq<char>) -> bool {
    name.len() > 0 && name[0] == '.'
}

/// The extension of a file name: what follows its last dot, unless the name has no
/// dot or its only dot is the first character.
pub open spec fn extension_of(name: Seq<char>) -> Option<Seq<char>> {
    match last_index_of(name, '.') {
        Some(dot) => if dot == 0 {
            None
        } else {
            Some(name.subrange(dot + 1, name.len() as int))
        },
        None => None,
    }
}

/// Whether a file of this name is left out of a scan: a dotfile, a `-lock.json`
/// file, or a file whose extension, lower-cased, is on the list.
pub open spec fn should_skip_spec(name: Seq<char>) -> bool {
    ||| is_dotfile(name)
    ||| ends_with(name, "-lock.json"@)
    ||| (extension_of(name) matches Some(extension) && skips_extension_spec(extension))
}

/// Check if a file should be skipped during scanning, by its name (the last
/// component of its path).
pub fn should_skip(file_name: &str) -> (skip: bool)
    ensures
        skip == should_skip_spec(file_name@),
{
    let name = chars_of(file_name);
    if name.len() > 0 && name[0] == '.' {
        return true;
    }
    let suffix = chars_of("-lock.json");
    if has_suffix(&name, &suffix) {
        return true;
    }
    match find_last(&name, '.') {
        Some(dot) => {
            if dot == 0 {
                false
            } else {
                proof {
                    lemma_last_index_of(name@, '.');
                }
                let extension = file_name.substring_char(dot + 1, name.len());
                skips_extension(extension)
            }
        },
        None => false,
    }
}

/// Whether a null byte stands among the first `BINARY_CHECK_LEN` bytes.
pub open spec fn has_null_byte(raw: Seq<u8>) -> bool {
    exists|i: int| 0 <= i < raw.len() && i < BINARY_CHECK_LEN && raw[i] == 0
}

/// Whether the content is taken for binary: a null byte stands among its first
/// `BINARY_CHECK_LEN` bytes.
pub fn is_binary(raw: &[u8]) -> (binary: bool)
    ensures
        binary == has_null_byte(raw@),
{
    let mut i: usize = 0;
    while i < raw.len() && i < BINARY_CHECK_LEN
        invariant
            i <= raw.len(),
            i <= BINARY_CHECK_LEN,
            forall|j: int| 0 <= j < i ==> raw@[j] != 0,
        decreases raw.len() - i,
    {
        if raw[i] == 0 {
            return true;
        }
        i += 1;
    }
    false
}

/// Decodes bytes with `String::from_utf8`, which accepts exactly the valid UTF-8 and
/// then holds the text that the bytes encode.
#[verifier::external_body]
fn text_from_utf8(raw: Vec<u8>) -> (text: Option<String>)
    ensures
        match text {
            Some(s) => valid_utf8(raw@) && s@ == decode_utf8(raw@),
            None => !valid_utf8(raw@),
        },
{
    String::from_utf8(raw).ok()
}

/// The text of a file's content, if the content is indexed: it is no larger than
/// `MAX_FILE_SIZE`, not taken for binary, and valid UTF-8.
pub open spec fn admitted_text(raw: Seq<u8>) -> Option<Seq<char>> {
    if raw.len() > MAX_FILE_SIZE || has_null_byte(raw) || !valid_utf8(raw) {
        None
    } else {
        Some(decode_utf8(raw))
    }
}

/// The text of a file's content, or `None` where the content is not indexed.
pub fn admit_content(raw: Vec<u8>) -> (text: Option<String>)
    ensures
        match text {
            Some(s) => admitted_text(raw@) == Some(s@),
            None => admitted_text(raw@) is None,
        },
{
    if raw.len() as u64 > MAX_FILE_SIZE {
        return None;
    }
    if is_binary(raw.as_slice()) {
        return None;
    }
    text_from_utf8(raw)
}

/// Size and modification time of a file, for comparing scans without reading content.
#[derive(Clone, Copy, Debug, PartialEq, Eq, Structural)]
pub struct FileMetadata {
    /// Size in bytes.
    pub size: u64,
    /// Modification time, in seconds since the epoch.
    pub mtime: u64,
}

/// A file that passed the scan, with its content.
#[derive(Clone, Debug)]
pub struct ScannedFile {
    pub path: String,
    pub content: String,
    /// Modification time, in seconds since the epoch, taken before the content was
    /// read.
    pub mtime: u64,
}

/// A scanned file as plain values.
pub struct ScannedFileView {
    pub path: Seq<char>,
    pub content: Seq<char>,
    pub mtime: u64,
}

impl View for ScannedFile {
    type V = ScannedFileView;

    open spec fn view(&self) -> ScannedFileView {
        ScannedFileView { path: self.path@, content: self.content@, mtime: self.mtime }
    }
}

/// The last component of the path of a directory entry, as far as it is text.
#[derive(Clone, Debug)]
pub enum EntryName {
    /// The name, where it is valid Unicode.
    Text(String),
    /// A name that is not valid Unicode, or no name at all, with the extension of
    /// the path where it has one that is valid Unicode.
    Other { extension: Option<String> },
}

/// Whether an entry of this name is left out of a scan. A name that is text is
/// judged as a whole; of any other name only the extension is judged.
pub open spec fn skips_name_spec(name: EntryName) -> bool {
    match name {
        EntryName::Text(text) => should_skip_spec(text@),
        EntryName::Other { extension: Some(extension) } => skips_extension_spec(extension@),
        EntryName::Other { extension: None } => false,
    }
}

/// Whether an entry of this name is left out of a scan.
pub fn skips_name(name: &EntryName) -> (skip: bool)
    ensures
        skip == skips_name_spec(*name),
{
    match name {
        EntryName::Text(text) => should_skip(text.as_str()),
        EntryName::Other { extension: Some(extension) } => skips_extension(extension.as_str()),
        EntryName::Other { extension: None } => false,
    }
}

/// What a walk reports for one directory entry when only metadata is asked for.
#[derive(Clone, Debug)]
pub struct WalkedMeta {
    pub path: String,
    /// The last component of `path`.
    pub name: EntryName,
    /// Whether the entry is a regular file.
    pub is_file: bool,
    /// Size and modification time, where they could be read.
    pub meta: Option<FileMetadata>,
}

/// What a walk reports for one directory entry when content is asked for.
#[derive(Clone, Debug)]
pub struct WalkedFile {
    pub path: String,
    /// The last component of `path`.
    pub name: EntryName,
    /// Whether the entry is a regular file.
    pub is_file: bool,
    /// Modification time, in seconds since the epoch, taken before the read.
    pub mtime: u64,
    /// The bytes of the file, where they could be read.
    pub raw: Option<Vec<u8>>,
}

/// Whether an entry is looked at: a regular file whose name is not skipped.
pub open spec fn eligible(is_file: bool, name: EntryName) -> bool {
    is_file && !skips_name_spec(name)
}

/// Whether an entry is looked at: a regular file whose name is not skipped. A walk
/// need not read what this refuses.
pub fn wants(is_file: bool, name: &EntryName) -> (wanted: bool)
    ensures
        wanted == eligible(is_file, *name),
{
    is_file && !skips_name(name)
}

/// The metadata under which an entry enters a metadata scan, if it does: the entry
/// is eligible, its metadata could be read, and it is no larger than `MAX_FILE_SIZE`.
pub open spec fn admitted_meta(entry: WalkedMeta) -> Option<FileMetadata> {
    if !eligible(entry.is_file, entry.name) {
        None
    } else {
        match entry.meta {
            Some(meta) => if meta.size <= MAX_FILE_SIZE {
                Some(meta)
            } else {
                None
            },
            None => None,
        }
    }
}

/// The result of a metadata scan: each admitted entry under its path, a later entry
/// replacing an earlier one of the same path.
pub open spec fn scan_metadata_spec(entries: Seq<WalkedMeta>) -> Map<Seq<char>, FileMetadata>
    decreases entries.len(),
{
    if entries.len() == 0 {
        Map::empty()
    } else {
        let before = scan_metadata_spec(entries.drop_last());
        match admitted_meta(entries.last()) {
            Some(meta) => before.insert(entries.last().path@, meta),
            None => before,
        }
    }
}

/// Scan for file metadata only: path -> (size, mtime) for each eligible file among
/// the entries of a walk. Entries that cannot enter are left out; none is an error.
pub fn scan_metadata(entries: &Vec<WalkedMeta>) -> (snapshot: PathMap<FileMetadata>)
    ensures
        snapshot.wf(),
        snapshot@ == scan_metadata_spec(entries@),
{
    let mut snapshot: PathMap<FileMetadata> = PathMap::new();
    let mut i: usize = 0;
    while i < entries.len()
        invariant
            i <= entries.len(),
            snapshot.wf(),
            snapshot@ == scan_metadata_spec(entries@.take(i as int)),
        decreases entries.len() - i,
    {
        proof {
            assert(entries@.take(i + 1).drop_last() =~= entries@.take(i as int));
        }
        let entry = &entries[i];
        if wants(entry.is_file, &entry.name) {
            match entry.meta {
                Some(meta) => {
                    if meta.size <= MAX_FILE_SIZE {
                        snapshot.insert(entry.path.clone(), meta);
                    }
                },
                None => {},
            }
        }
        i += 1;
    }
    proof {
        assert(entries@.take(i as int) =~= entries@);
    }
    snapshot
}

/// The file under which an entry enters a full scan, if it does: the entry is
/// eligible, its bytes could be read, and they are admitted as text.
pub open spec fn admitted_file(entry: WalkedFile) -> Option<ScannedFileView> {
    if !eligible(entry.is_file, entry.name) {
        None
    } else {
        match entry.raw {
            Some(raw) => match admitted_text(raw@) {
                Some(content) => Some(
                    ScannedFileView { path: entry.path@, content, mtime: entry.mtime },
                ),
                None => None,
            },
            None => None,
        }
    }
}

/// The result of a full scan: each admitted entry under its path, a later entry
/// replacing an earlier one of the same path.
pub open spec fn scan_spec(entries: Seq<WalkedFile>) -> Map<Seq<char>, ScannedFileView>
    decreases entries.len(),
{
    if entries.len() == 0 {
        Map::empty()
    } else {
        let before = scan_spec(entries.drop_last());
        match admitted_file(entries.last()) {
            Some(file) => before.insert(entries.last().path@, file),
            None => before,
        }
    }
}

/// The files of a map as plain values.
pub open spec fn scanned_view(files: Map<Seq<char>, ScannedFile>) -> Map<
    Seq<char>,
    ScannedFileView,
> {
    files.map_values(|file: ScannedFile| file@)
}

/// Scan for text files: path -> content and mtime for each eligible file among the
/// entries of a walk whose content is text. Entries that cannot enter are left out;
/// none is an error.
pub fn scan(entries: Vec<WalkedFile>) -> (files: PathMap<ScannedFile>)
    ensures
        files.wf(),
        scanned_view(files@) == scan_spec(entries@),
{
    let ghost all = entries@;
    let mut files: PathMap<ScannedFile> = PathMap::new();
    assert(scanned_view(files@) =~= scan_spec(all.take(0)));
    for entry in it: entries
        invariant
            it.seq() == all,
            files.wf(),
            scanned_view(files@) == scan_spec(all.take(it.index() as int)),
    {
        let ghost done = it.index() as int;
        proof {
            assert(all.take(done + 1).drop_last() =~= all.take(done));
            assert(all.take(done + 1).last() == entry);
        }
        let WalkedFile { path, name, is_file, mtime, raw } = entry;
        if wants(is_file, &name) {
            match raw {
                Some(bytes) => {
                    match admit_content(bytes) {
                        Some(content) => {
                            let ghost before = files@;
                            let key = path.clone();
                            let file = ScannedFile { path, content, mtime };
                            files.insert(key, file);
                            assert(scanned_view(files@) =~= scanned_view(before).insert(
                                key@,
                                file@,
                            ));
                        },
                        None => {},
                    }
                },
                None => {},
            }
        }
    }
    proof {
        assert(all.take(all.len() as int) =~= all);
    }
    files
}

/// No listed extension is `py`.
proof fn lemma_py_is_not_listed()
    ensures
        !is_binary_extension_spec(seq!['p', 'y']),
{
    reveal_strlit("pyc");
    reveal_strlit("pyo");
    reveal_strlit("o");
    reveal_strlit("so");
    reveal_strlit("dylib");
    reveal_strlit("dll");
    reveal_strlit("bin");
    reveal_strlit("exe");
    reveal_strlit("a");
    reveal_strlit("lib");
    reveal_strlit("zip");
    reveal_strlit("tar");
    reveal_strlit("gz");
    reveal_strlit("bz2");
    reveal_strlit("xz");
    reveal_strlit("7z");
    reveal_strlit("rar");
    reveal_strlit("jar");
    reveal_strlit("war");
    reveal_strlit("whl");
    reveal_strlit("pdf");
    reveal_strlit("doc");
    reveal_strlit("docx");
    reveal_strlit("xls");
    reveal_strlit("xlsx");
    reveal_strlit("ppt");
    reveal_strlit("pptx");
    reveal_strlit("png");
    reveal_strlit("jpg");
    reveal_strlit("jpeg");
    reveal_strlit("gif");
    reveal_strlit("ico");
    reveal_strlit("svg");
    reveal_strlit("webp");
    reveal_strlit("bmp");
    reveal_strlit("tiff");
    reveal_strlit("mp3");
    reveal_strlit("mp4");
    reveal_strlit("wav");
    reveal_strlit("avi");
    reveal_strlit("mov");
    reveal_strlit("mkv");
    reveal_strlit("db");
    reveal_strlit("sqlite");
    reveal_strlit("sqlite3");
    reveal_strlit("pkl");
    reveal_strlit("npy");
    reveal_strlit("npz");
    reveal_strlit("onnx");
    reveal_strlit("pt");
    reveal_strlit("pth");
    reveal_strlit("safetensors");
    reveal_strlit("lock");
    let list = binary_extensions();
    let py = seq!['p', 'y'];
    assert forall|i: int| 0 <= i < list.len() implies (#[trigger] list[i])@ != py by {
        if list[i]@.len() == 2 {
            assert(list[i]@[0] != 'p' || list[i]@[1] != 'y');
        }
    }
}

/// A file named `a.py` enters a scan, and a file named `b.png` does not.
pub proof fn lemma_source_is_kept_image_is_skipped()
    ensures
        !should_skip_spec("a.py"@),
        should_skip_spec("b.png"@),
{
    reveal_strlit("a.py");
    reveal_strlit("b.png");
    reveal_strlit("-lock.json");
    reveal_strlit("png");
    reveal_with_fuel(last_index_of, 6);
    let source = "a.py"@;
    let image = "b.png"@;
    assert(source.drop_last().last() == 'p');
    assert(source.drop_last().drop_last().last() == '.');
    assert(last_index_of(source, '.') == Some(1int));
    let py = source.subrange(2, 4);
    assert(py =~= seq!['p', 'y']);
    assert(ascii_lower(py) =~= py);
    lemma_py_is_not_listed();
    assert(image.drop_last().last() == 'n');
    assert(image.drop_last().drop_last().last() == 'p');
    assert(image.drop_last().drop_last().drop_last().last() == '.');
    assert(last_index_of(image, '.') == Some(1int));
    let png = image.subrange(2, 5);
    assert(png =~= "png"@);
    assert(ascii_lower(png) =~= png);
    assert(binary_extensions()[27]@ == png);
}

/// A metadata scan of a tree that holds a regular file `a.py` of admissible size
/// and a file `b.png` holds `a.py` with its metadata and nothing else, whatever the
/// walk reports of `b.png` and in whichever order the two come.
pub proof fn lemma_metadata_scan_of_source_and_image(
    source: WalkedMeta,
    image: WalkedMeta,
    meta: FileMetadata,
)
    requires
        source.name matches EntryName::Text(name) && name@ == "a.py"@,
        source.is_file,
        source.meta == Some(meta),
        meta.size <= MAX_FILE_SIZE,
        image.name matches EntryName::Text(name) && name@ == "b.png"@,
    ensures
        scan_metadata_spec(seq![source, image]) == Map::<Seq<char>, FileMetadata>::empty().insert(
            source.path@,
            meta,
        ),
        scan_metadata_spec(seq![image, source]) == Map::<Seq<char>, FileMetadata>::empty().insert(
            source.path@,
            meta,
        ),
{
    lemma_source_is_kept_image_is_skipped();
    reveal_with_fuel(scan_metadata_spec, 3);
    let first = seq![source, image];
    let second = seq![image, source];
    assert(first.drop_last() =~= seq![source]);
    assert(first.drop_last().drop_last() =~= Seq::<WalkedMeta>::empty());
    assert(second.drop_last() =~= seq![image]);
    assert(second.drop_last().drop_last() =~= Seq::<WalkedMeta>::empty());
    assert(admitted_meta(source) == Some(meta));
    assert(admitted_meta(image) is None);
}

/// A full scan of a tree that holds a regular file `a.py` whose bytes are admitted
/// as text and a file `b.png` holds `a.py` with its text and its modification time
/// and nothing else, whatever `b.png` holds and in whichever order the two come.
pub proof fn lemma_full_scan_of_source_and_image(
    source: WalkedFile,
    image: WalkedFile,
    raw: Vec<u8>,
    content: Seq<char>,
)
    requires
        source.name matches EntryName::Text(name) && name@ == "a.py"@,
        source.is_file,
        source.raw == Some(raw),
        admitted_text(raw@) == Some(content),
        image.name matches EntryName::Text(name) && name@ == "b.png"@,
    ensures
        scan_spec(seq![source, image]) == Map::<Seq<char>, ScannedFileView>::empty().insert(
            source.path@,
            ScannedFileView { path: source.path@, content, mtime: source.mtime },
        ),
        scan_spec(seq![image, source]) == Map::<Seq<char>, ScannedFileView>::empty().insert(
            source.path@,
            ScannedFileView { path: source.path@, content, mtime: source.mtime },
        ),
{
    lemma_source_is_kept_image_is_skipped();
    reveal_with_fuel(scan_spec, 3);
    let first = seq![source, image];
    let second = seq![image, source];
    assert(first.drop_last() =~= seq![source]);
    assert(first.drop_last().drop_last() =~= Seq::<WalkedFile>::empty());
    assert(second.drop_last() =~= seq![image]);
    assert(second.drop_last().drop_last() =~= Seq::<WalkedFile>::empty());
    assert(admitted_file(image) is None);
}

} // verus!

//! Pipeline files: what a file says of a pipeline, the name the pipeline goes
//! by, and what can go wrong on the way from a file to a pipeline.

use crate::text::{chars_of, string_of_range};
use vstd::prelude::*;
use vstd::std_specs::convert::FromSpecImpl;

verus! {

/// `toml::map::Map`, the table of a TOML document. Nothing is read from it here.
#[verifier::external_type_specification]
#[verifier::external_body]
#[verifier::reject_recursive_types(K)]
#[verifier::reject_recursive_types(V)]
pub struct ExTomlMap<K, V>(toml::map::Map<K, V>);

/// `toml::Value`, a value of a TOML document. Nothing is read from it here.
#[verifier::external_type_specification]
#[verifier::external_body]
pub struct ExTomlValue(toml::Value);

/// `toml::de::Error`, the reason why a text is no TOML document of the wanted shape.
#[verifier::external_type_specification]
#[verifier::external_body]
pub struct ExTomlError(toml::de::Error);

/// Why a file or directory could not be read or written.
#[derive(Debug)]
pub enum IoFailure {
    /// There is no such file or directory.
    NotFound,
    /// Anything else, with the system's message.
    Other(String),
}

/// Why a pipeline file could not be loaded.
#[derive(Debug)]
pub enum PlumberFileError {
    /// There is no such file, or the path names no file.
    NotFound,
    /// The file's text is not what a pipeline file holds.
    TomlError(toml::de::Error),
    /// The file could not be read, with the system's message.
    IoError(String),
    /// The file lacks an entry that every pipeline file must have.
    MissingRequiredConfig(String),
}

impl From<IoFailure> for PlumberFileError {
    fn from(failure: IoFailure) -> (error: PlumberFileError) {
        match failure {
            IoFailure::NotFound => PlumberFileError::NotFound,
            IoFailure::Other(message) => PlumberFileError::IoError(message),
        }
    }
}

impl FromSpecImpl<IoFailure> for PlumberFileError {
    open spec fn obeys_from_spec() -> bool {
        true
    }

    open spec fn from_spec(failure: IoFailure) -> PlumberFileError {
        match failure {
            IoFailure::NotFound => PlumberFileError::NotFound,
            IoFailure::Other(message) => PlumberFileError::IoError(message),
        }
    }
}

impl From<toml::de::Error> for PlumberFileError {
    fn from(error: toml::de::Error) -> (e: PlumberFileError) {
        PlumberFileError::TomlError(error)
    }
}

impl FromSpecImpl<toml::de::Error> for PlumberFileError {
    open spec fn obeys_from_spec() -> bool {
        true
    }

    open spec fn from_spec(error: toml::de::Error) -> PlumberFileError {
        PlumberFileError::TomlError(error)
    }
}

/// The position of the last `c` in `s`, or -1 where `s` holds none.
pub open spec fn last_index(s: Seq<char>, c: char) -> int
    decreases s.len(),
{
    if s.len() == 0 {
        -1
    } else if s.last() == c {
        s.len() - 1
    } else {
        last_index(s.drop_last(), c)
    }
}

/// A file name without its extension: what stands before the last dot. A
/// name without a dot, or with its only dot in front, is its own stem.
pub open spec fn stem_of(file_name: Seq<char>) -> Seq<char> {
    let dot = last_index(file_name, '.');
    if dot <= 0 {
        file_name
    } else {
        file_name.take(dot)
    }
}

/// A file name's extension: what stands behind the last dot. A name without
/// a dot, or with its only dot in front, has none.
pub open spec fn extension_of(file_name: Seq<char>) -> Option<Seq<char>> {
    let dot = last_index(file_name, '.');
    if dot <= 0 {
        None
    } else {
        Some(file_name.skip(dot + 1))
    }
}

fn find_last(chars: &Vec<char>, c: char) -> (found: Option<usize>)
    ensures
        match found {
            Some(i) => i < chars.len() && last_index(chars@, c) == i,
            None => last_index(chars@, c) == -1,
        },
{
    let mut i: usize = chars.len();
    assert(chars@.take(i as int) =~= chars@);
    while i > 0
        invariant
            i <= chars.len(),
            last_index(chars@, c) == last_index(chars@.take(i as int), c),
        decreases i,
    {
        if chars[i - 1] == c {
            return Some(i - 1);
        }
        assert(chars@.take(i as int).drop_last() =~= chars@.take(i - 1));
        i -= 1;
    }
    None
}

/// The lower-case form of an upper-case ASCII letter; any other character itself.
pub open spec fn ascii_lower(c: char) -> char {
    if 'A' <= c <= 'Z' {
        ((c as u8) + 32) as char
    } else {
        c
    }
}

/// Whether `a` and `b` are the same but for the case of their ASCII letters.
pub open spec fn same_ignoring_ascii_case(a: Seq<char>, b: Seq<char>) -> bool {
    &&& a.len() == b.len()
    &&& forall|i: int| 0 <= i < a.len() ==> ascii_lower(#[trigger] a[i]) == ascii_lower(b[i])
}

fn lower(c: char) -> (l: char)
    ensures
        l == ascii_lower(c),
{
    if 'A' <= c && c <= 'Z' {
        ((c as u8) + 32) as char
    } else {
        c
    }
}

/// The file name `file_name` without its extension.
pub fn file_stem(file_name: &str) -> (stem: String)
    ensures
        stem@ == stem_of(file_name@),
{
    let chars = chars_of(file_name);
    match find_last(&chars, '.') {
        Some(dot) => if dot > 0 {
            assert(chars@.subrange(0, dot as int) =~= chars@.take(dot as int));
            string_of_range(&chars, 0, dot)
        } else {
            file_name.to_owned()
        },
        None => file_name.to_owned(),
    }
}

/// The extension of the file name `file_name`, if it has one.
pub fn extension(file_name: &str) -> (ext: Option<String>)
    ensures
        ext.deep_view() == extension_of(file_name@),
{
    let chars = chars_of(file_name);
    match find_last(&chars, '.') {
        Some(dot) => if dot > 0 {
            assert(chars@.subrange(dot + 1, chars@.len() as int) =~= chars@.skip(dot + 1));
            Some(string_of_range(&chars, dot + 1, chars.len()))
        } else {
            None
        },
        None => None,
    }
}

/// Whether a file of the name `file_name` is taken for a pipeline file: its
/// extension is `plumb`, in exactly these letters or, with `any_case`, in
/// upper or lower case.
pub open spec fn is_plumber_file_name(file_name: Seq<char>, any_case: bool) -> bool {
    match extension_of(file_name) {
        Some(ext) => if any_case {
            same_ignoring_ascii_case(ext, "plumb"@)
        } else {
            ext == "plumb"@
        },
        None => false,
    }
}

fn same_text(a: &str, b: &str, any_case: bool) -> (same: bool)
    ensures
        same == if any_case {
            same_ignoring_ascii_case(a@, b@)
        } else {
            a@ == b@
        },
{
    let left = chars_of(a);
    let right = chars_of(b);
    if left.len() != right.len() {
        return false;
    }
    let mut i: usize = 0;
    while i < left.len()
        invariant
            left@ == a@,
            right@ == b@,
            left.len() == right.len(),
            i <= left.len(),
            forall|j: int| 0 <= j < i ==> if any_case {
                ascii_lower(#[trigger] left@[j]) == ascii_lower(right@[j])
            } else {
                left@[j] == right@[j]
            },
        decreases left.len() - i,
    {
        let matches = if any_case {
            lower(left[i]) == lower(right[i])
        } else {
            left[i] == right[i]
        };
        if !matches {
            return false;
        }
        i += 1;
    }
    assert(!any_case ==> left@ =~= right@);
    true
}

/// Whether a file of the name `file_name` is taken for a pipeline file.
pub fn is_plumber_file(file_name: &str, any_case: bool) -> (yes: bool)
    ensures
        yes == is_plumber_file_name(file_name@, any_case),
{
    match extension(file_name) {
        Some(ext) => same_text(ext.as_str(), "plumb", any_case),
        None => false,
    }
}

/// What a pipeline file holds.
#[derive(Debug)]
pub struct PlumberFileConfig {
    /// The pipeline text, the file's `exec` entry.
    pub exec_text: String,
    pub run: Option<PlumberFileConfigRun>,
    pub metadata: Option<PlumberFileConfigMeta>,
    /// Whatever else the file holds; it is kept and not looked into.
    pub extra: Option<toml::Table>,
}

/// How a pipeline is to be run.
#[derive(Debug, Clone, Copy)]
pub struct PlumberFileConfigRun {
    instances: Option<u32>,
}

impl PlumberFileConfigRun {
    /// How many copies of the pipeline are wanted, where the file says so.
    pub closed spec fn spec_instances(self) -> Option<u32> {
        self.instances
    }

    pub fn new(instances: Option<u32>) -> (run: PlumberFileConfigRun)
        ensures
            run.spec_instances() == instances,
    {
        PlumberFileConfigRun { instances }
    }

    #[verifier::when_used_as_spec(spec_instances)]
    pub fn instances(self) -> (instances: Option<u32>)
        ensures
            instances == self.spec_instances(),
    {
        self.instances
    }
}

/// What a pipeline file says of the pipeline besides its text.
#[derive(Debug)]
pub struct PlumberFileConfigMeta {
    /// The name the pipeline goes by.
    pub name: Option<String>,
    /// The directory under which the pipeline's log directory lies.
    pub logging_dir: Option<String>,
    pub metadata_dir: Option<String>,
}

/// A pipeline file that was loaded: where it lies, the name its pipeline
/// goes by, and what it holds.
#[derive(Debug)]
pub struct PlumberFile {
    pub path: String,
    pub name: String,
    pub config: PlumberFileConfig,
}

/// The name that a pipeline file gives its pipeline, if it gives one.
pub open spec fn configured_name(config: PlumberFileConfig) -> Option<Seq<char>> {
    match config.metadata {
        Some(meta) => match meta.name {
            Some(name) => Some(name@),
            None => None,
        },
        None => None,
    }
}

/// The name a pipeline goes by: the one its file gives it, or else the stem
/// of the file's name. A file without a name gives none.
pub open spec fn name_of(config: PlumberFileConfig, file_name: Option<Seq<char>>) -> Option<Seq<char>> {
    match configured_name(config) {
        Some(name) => Some(name),
        None => match file_name {
            Some(f) => Some(stem_of(f)),
            None => None,
        },
    }
}

impl PlumberFile {
    /// The pipeline file at `path` with the contents `config`. `file_name` is
    /// the last component of `path`, where it has one that is text. Without a
    /// name from either source the file counts as not found.
    pub fn new(path: String, file_name: Option<&str>, config: PlumberFileConfig) -> (result: Result<PlumberFile, PlumberFileError>)
        ensures
            match result {
                Ok(file) => file.path == path && file.config == config
                    && name_of(config, file_name.deep_view()) == Some(file.name@),
                Err(e) => e is NotFound && name_of(config, file_name.deep_view()) is None,
            },
    {
        let configured = match &config.metadata {
            Some(meta) => match &meta.name {
                Some(name) => Some(name.clone()),
                None => None,
            },
            None => None,
        };
        let name = match configured {
            Some(name) => name,
            None => match file_name {
                Some(f) => file_stem(f),
                None => {
                    return Err(PlumberFileError::NotFound);
                },
            },
        };
        Ok(PlumberFile { path, name, config })
    }
}

} // verus!

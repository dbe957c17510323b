//! What the ruleset tells a host: its capabilities, the language of a
//! file, and what it notes about the files of a batch before analysis.

use crate::diagnostic::{optional_text, RuleLevel};
use crate::ruleset::{create_terraform_ruleset, terraform_rules, TerraformRule};
use crate::text::{
    find, first_occurrence, lemma_scalar_starts_after_ascii, matches_at, occurs_at, slice_text,
    text_equals,
};
use vstd::prelude::*;
use vstd::string::*;
use vstd::utf8::*;

verus! {

/// What the ruleset claims and offers.
#[derive(Clone, Debug, PartialEq, Eq)]
pub struct RulesetCapabilities {
    pub ruleset_id: String,
    pub version: String,
    pub file_patterns: Vec<String>,
    pub max_file_size: Option<u64>,
    pub annotation_prefixes: Vec<String>,
    pub default_config: Vec<(String, RuleLevel)>,
}

/// The capabilities of the Terraform ruleset: its name and version, the
/// files that it claims, the largest file that it accepts (five
/// mebibytes), the prefixes of comments, and for each rule, in the order
/// of the ruleset, how it runs by default.
pub fn get_capabilities() -> (r: RulesetCapabilities)
    ensures
        r.ruleset_id@ == "terraform"@,
        r.version@ == "0.1.0"@,
        r.file_patterns@.len() == 2,
        r.file_patterns@[0]@ == "*.tf"@,
        r.file_patterns@[1]@ == "*.tfvars"@,
        r.max_file_size == Some(5242880u64),
        r.annotation_prefixes@.len() == 2,
        r.annotation_prefixes@[0]@ == "#"@,
        r.annotation_prefixes@[1]@ == "//"@,
        r.default_config@.len() == terraform_rules().len(),
        forall|i: int|
            0 <= i < r.default_config@.len() ==> (#[trigger] r.default_config@[i]).0@
                == terraform_rules()[i].name() && r.default_config@[i].1 == RuleLevel::Error,
{
    let ruleset = create_terraform_ruleset();
    let mut default_config: Vec<(String, RuleLevel)> = Vec::new();
    let mut i: usize = 0;
    while i < ruleset.rules.len()
        invariant
            i <= ruleset.rules@.len(),
            ruleset.rules@ == terraform_rules(),
            default_config@.len() == i,
            forall|k: int|
                0 <= k < i ==> (#[trigger] default_config@[k]).0@ == terraform_rules()[k].name()
                    && default_config@[k].1 == RuleLevel::Error,
        decreases ruleset.rules@.len() - i,
    {
        let rule: TerraformRule = ruleset.rules[i];
        default_config.push((String::from_str(rule.id()), rule.default_config()));
        i = i + 1;
    }
    let mut file_patterns: Vec<String> = Vec::new();
    file_patterns.push(String::from_str("*.tf"));
    file_patterns.push(String::from_str("*.tfvars"));
    let mut annotation_prefixes: Vec<String> = Vec::new();
    annotation_prefixes.push(String::from_str("#"));
    annotation_prefixes.push(String::from_str("//"));
    RulesetCapabilities {
        ruleset_id: String::from_str("terraform"),
        version: String::from_str("0.1.0"),
        file_patterns,
        max_file_size: Some(5242880u64),
        annotation_prefixes,
        default_config,
    }
}

/// `extension` holds no dot and stands in `path` right after a dot.
pub open spec fn dotted_in(path: Seq<char>, extension: Seq<char>) -> bool {
    &&& forall|k: int| 0 <= k < extension.len() ==> extension[k] != '.'
    &&& exists|i: int|
        0 <= i && i + 1 + extension.len() <= path.len() && #[trigger] path[i] == '.'
            && path.subrange(i + 1, i + 1 + extension.len()) == extension
}

/// `std::path::Path::extension`: the extension of the path's file name,
/// if it has one. Which part of a path is its file name depends on the
/// platform; on every platform the extension holds no dot and follows a
/// dot of the path.
#[verifier::external_body]
fn path_extension(path: &str) -> (r: Option<String>)
    ensures
        r matches Some(extension) ==> dotted_in(path@, extension@),
{
    std::path::Path::new(path).extension().and_then(|extension| extension.to_str()).map(
        |extension| extension.to_string(),
    )
}

/// The language of a file with the given extension: `terraform` for
/// `tf`, `terraform-vars` for `tfvars`, and none for any other.
pub open spec fn language_of(extension: Option<Seq<char>>) -> Option<Seq<char>> {
    match extension {
        Some(e) => if e == "tf"@ {
            Some("terraform"@)
        } else if e == "tfvars"@ {
            Some("terraform-vars"@)
        } else {
            None
        },
        None => None,
    }
}

/// The language of a file with the given extension.
pub fn language_for_extension(extension: Option<&str>) -> (r: Option<String>)
    ensures
        optional_text(r) == language_of(
            match extension {
                Some(e) => Some(e@),
                None => None,
            },
        ),
{
    match extension {
        Some(e) => {
            if text_equals(e, "tf") {
                Some(String::from_str("terraform"))
            } else if text_equals(e, "tfvars") {
                Some(String::from_str("terraform-vars"))
            } else {
                None
            }
        },
        None => None,
    }
}

/// What kind of Terraform file a file is.
#[derive(Clone, Copy, Debug, PartialEq, Eq, Structural)]
pub enum FileKind {
    Configuration,
    Variables,
}

/// The kind of a file with the given extension: a configuration for
/// `tf`, variables for `tfvars`, and none for any other.
pub open spec fn kind_of(extension: Option<Seq<char>>) -> Option<FileKind> {
    match extension {
        Some(e) => if e == "tf"@ {
            Some(FileKind::Configuration)
        } else if e == "tfvars"@ {
            Some(FileKind::Variables)
        } else {
            None
        },
        None => None,
    }
}

/// The kind of a file with the given extension.
pub fn kind_for_extension(extension: &str) -> (r: Option<FileKind>)
    ensures
        r == kind_of(Some(extension@)),
{
    if text_equals(extension, "tf") {
        Some(FileKind::Configuration)
    } else if text_equals(extension, "tfvars") {
        Some(FileKind::Variables)
    } else {
        None
    }
}

/// The bytes of `file://`.
pub open spec fn file_scheme() -> Seq<u8> {
    encode_utf8("file://"@)
}

/// The path of a `file://` locator: what follows the scheme.
pub open spec fn local_bytes(uri: Seq<u8>) -> Option<Seq<u8>> {
    if occurs_at(uri, file_scheme(), 0) {
        Some(uri.subrange(file_scheme().len() as int, uri.len() as int))
    } else {
        None
    }
}

/// The path that a locator names: what follows `file://` where the
/// locator begins with it, else the whole locator.
pub open spec fn target_of(uri: Seq<char>) -> Seq<char> {
    match local_bytes(encode_utf8(uri)) {
        Some(path) => decode_utf8(path),
        None => uri,
    }
}

/// The path of a `file://` locator.
pub fn local_path<'a>(uri: &'a str) -> (r: Option<&'a str>)
    ensures
        match r {
            Some(path) => local_bytes(uri.spec_bytes()) == Some(path.spec_bytes()) && path@
                == target_of(uri@),
            None => local_bytes(uri.spec_bytes()) is None && target_of(uri@) == uri@,
        },
{
    let bytes = uri.as_bytes();
    let scheme = "file://".as_bytes();
    proof {
        reveal_strlit("file://");
        is_ascii_chars_encode_utf8("file://"@);
        encode_utf8_valid_utf8(uri@);
    }
    if scheme.len() <= bytes.len() && matches_at(bytes, scheme, 0) {
        proof {
            assert(bytes@.subrange(0, 7)[6] == scheme@[6]);
            lemma_scalar_starts_after_ascii(bytes@, 6);
        }
        Some(slice_text(uri, scheme.len(), bytes.len()))
    } else {
        None
    }
}

/// A language tag agrees with the locator: `terraform` is given only to a
/// path in which `tf` follows a dot, `terraform-vars` only to one in which
/// `tfvars` does.
pub open spec fn language_agrees(uri: Seq<char>, tag: Option<Seq<char>>) -> bool {
    match tag {
        Some(t) => (t == "terraform"@ && dotted_in(target_of(uri), "tf"@)) || (t
            == "terraform-vars"@ && dotted_in(target_of(uri), "tfvars"@)),
        None => true,
    }
}

/// The language of the file that a locator names, by the extension of its
/// path: `terraform`, `terraform-vars`, or none where the ruleset does not
/// apply to the file.
pub fn infer_language(uri: &str) -> (r: Option<String>)
    ensures
        language_agrees(uri@, optional_text(r)),
{
    let path = match local_path(uri) {
        Some(path) => path,
        None => uri,
    };
    match path_extension(path) {
        Some(extension) => language_for_extension(Some(extension.as_str())),
        None => None,
    }
}

/// What the ruleset notes about one file of a batch.
#[derive(Clone, Debug, PartialEq, Eq)]
pub struct FileFacts {
    /// The file's locator.
    pub uri: String,
    /// Whether the locator names a local file.
    pub local: bool,
    /// The extension of a local file.
    pub extension: Option<String>,
    /// What kind of Terraform file a local file is.
    pub kind: Option<FileKind>,
    /// Whether a local file lies under a `.terraform` directory.
    pub generated: bool,
    /// The language of the file.
    pub language: Option<String>,
}

/// The bytes of `/.terraform/`.
pub open spec fn generated_marker() -> Seq<u8> {
    encode_utf8("/.terraform/"@)
}

/// The facts suit the locator.
pub open spec fn facts_of(facts: FileFacts, uri: Seq<char>) -> bool {
    &&& facts.uri@ == uri
    &&& match local_bytes(encode_utf8(uri)) {
        Some(path) => {
            &&& facts.local
            &&& facts.generated == (first_occurrence(path, generated_marker()) is Some)
            &&& facts.kind == kind_of(optional_text(facts.extension))
            &&& facts.extension matches Some(e) ==> dotted_in(target_of(uri), e@)
        },
        None => {
            &&& !facts.local
            &&& facts.extension is None
            &&& facts.kind is None
            &&& !facts.generated
        },
    }
    &&& language_agrees(uri, optional_text(facts.language))
}

/// Notes what the locator of a file tells about it.
pub fn describe_file(uri: &str) -> (facts: FileFacts)
    ensures
        facts_of(facts, uri@),
{
    let language = infer_language(uri);
    match local_path(uri) {
        Some(path) => {
            let extension = path_extension(path);
            let kind = match &extension {
                Some(e) => kind_for_extension(e.as_str()),
                None => None,
            };
            let generated = find(path.as_bytes(), "/.terraform/".as_bytes()).is_some();
            FileFacts {
                uri: String::from_str(uri),
                local: true,
                extension,
                kind,
                generated,
                language,
            }
        },
        None => FileFacts {
            uri: String::from_str(uri),
            local: false,
            extension: None,
            kind: None,
            generated: false,
            language,
        },
    }
}

/// The counts of a batch of files.
#[derive(Clone, Copy, Debug, PartialEq, Eq, Structural)]
pub struct BatchCounts {
    pub total_files: usize,
    pub tf_files: usize,
    pub tfvars_files: usize,
}

/// How many of the files are of the given kind.
pub open spec fn count_kind(files: Seq<FileFacts>, kind: FileKind) -> nat
    decreases files.len(),
{
    if files.len() == 0 {
        0
    } else {
        count_kind(files.drop_last(), kind) + if files.last().kind == Some(kind) {
            1nat
        } else {
            0nat
        }
    }
}

/// Counts the files of a batch, and among them the configurations and the
/// variables files.
pub fn tally(files: &Vec<FileFacts>) -> (r: BatchCounts)
    ensures
        r.total_files == files@.len(),
        r.tf_files == count_kind(files@, FileKind::Configuration),
        r.tfvars_files == count_kind(files@, FileKind::Variables),
{
    let mut tf_files: usize = 0;
    let mut tfvars_files: usize = 0;
    let mut i: usize = 0;
    proof {
        assert(files@.take(0) =~= Seq::<FileFacts>::empty());
    }
    while i < files.len()
        invariant
            i <= files@.len(),
            tf_files <= i,
            tfvars_files <= i,
            tf_files == count_kind(files@.take(i as int), FileKind::Configuration),
            tfvars_files == count_kind(files@.take(i as int), FileKind::Variables),
        decreases files@.len() - i,
    {
        proof {
            assert(files@.take(i + 1).drop_last() =~= files@.take(i as int));
            assert(files@.take(i + 1).last() == files@[i as int]);
        }
        match files[i].kind {
            Some(FileKind::Configuration) => {
                tf_files = tf_files + 1;
            },
            Some(FileKind::Variables) => {
                tfvars_files = tfvars_files + 1;
            },
            None => {},
        }
        i = i + 1;
    }
    proof {
        assert(files@.take(files@.len() as int) =~= files@);
    }
    BatchCounts { total_files: files.len(), tf_files, tfvars_files }
}

} // verus!

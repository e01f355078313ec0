//! The whole compilation: from the text of the resource files to the
//! generated source text, or the reason why there is none.
use vstd::prelude::*;
use crate::generator::{
    generate_code, generate_code_with_tests, generated_code, generated_code_with_tests,
};
use crate::parser::{add_resources, added_all};
use crate::reader::{parse_single_file, parsed, xml_error_message, ParserError, RawResourceFile};
use crate::reader::xml::document_events;
use crate::references::{
    lemma_dangling_reference_reported, reference_error, reference_errors, validate_references,
};
use crate::table::{empty_table, GroupView, ResourceTable};
use crate::text::texts;

verus! {

/// Why a compilation produced no code.
#[derive(Debug)]
pub enum CompileError {
    /// A file holds malformed markup: the file, the byte offset, and a
    /// message with both the offset and the reader's words.
    MalformedInput { path: String, offset: u64, message: String },
    /// Pure references without a target: one message for each.
    DanglingReference { messages: Vec<String> },
    /// A numeric literal that is malformed or does not fit its type: the
    /// file, and a message that names the literal.
    InvalidNumericLiteral { path: String, message: String },
}

/// The mathematical value of a `CompileError`.
pub enum CompileErrorView {
    MalformedInput { path: Seq<char>, offset: u64, message: Seq<char> },
    DanglingReference { messages: Seq<Seq<char>> },
    InvalidNumericLiteral { path: Seq<char>, message: Seq<char> },
}

impl View for CompileError {
    type V = CompileErrorView;

    open spec fn view(&self) -> CompileErrorView {
        match self {
            CompileError::MalformedInput {
                path,
                offset,
                message,
            } => CompileErrorView::MalformedInput {
                path: path@,
                offset: *offset,
                message: message@,
            },
            CompileError::DanglingReference { messages } => CompileErrorView::DanglingReference {
                messages: texts(messages@),
            },
            CompileError::InvalidNumericLiteral {
                path,
                message,
            } => CompileErrorView::InvalidNumericLiteral { path: path@, message: message@ },
        }
    }
}

/// What a compilation error says in words.
pub open spec fn error_message(e: CompileErrorView) -> Seq<char> {
    match e {
        CompileErrorView::MalformedInput { path, message, .. } => "Invalid resource file '"@ + path
            + "': "@ + message,
        CompileErrorView::DanglingReference { messages } => "Reference validation failed:\n  "@
            + crate::text::join(messages, "\n  "@),
        CompileErrorView::InvalidNumericLiteral { path, message } => "Invalid number in '"@ + path
            + "': "@ + message,
    }
}

impl CompileError {
    /// The error in words, for the one who wrote the resource files.
    pub fn message(&self) -> (r: String)
        ensures
            r@ == error_message(self@),
    {
        match self {
            CompileError::MalformedInput { path, message, .. } => {
                let mut m = "Invalid resource file '".to_string();
                m.append(path.as_str());
                m.append("': ");
                m.append(message.as_str());
                m
            },
            CompileError::DanglingReference { messages } => {
                let mut m = "Reference validation failed:\n  ".to_string();
                m.append(crate::text::join_strings(messages, "\n  ").as_str());
                m
            },
            CompileError::InvalidNumericLiteral { path, message } => {
                let mut m = "Invalid number in '".to_string();
                m.append(path.as_str());
                m.append("': ");
                m.append(message.as_str());
                m
            },
        }
    }
}

/// The mathematical value of a `RawResourceFile`.
pub struct FileView {
    pub path: Seq<char>,
    pub contents: Seq<char>,
    pub is_test: bool,
}

impl View for RawResourceFile {
    type V = FileView;

    open spec fn view(&self) -> FileView {
        FileView { path: self.path@, contents: self.contents@, is_test: self.is_test }
    }
}

/// The views of a list of files.
pub open spec fn files_view(fs: Seq<RawResourceFile>) -> Seq<FileView> {
    Seq::new(fs.len(), |i: int| fs[i]@)
}

/// The table after the declarations of one file have been filed.
pub open spec fn file_added(t: Seq<GroupView>, f: FileView) -> Result<
    Seq<GroupView>,
    CompileErrorView,
> {
    match parsed(document_events(f.contents)) {
        Err((position, message)) => Err(
            CompileErrorView::MalformedInput {
                path: f.path,
                offset: position,
                message: xml_error_message(position, message),
            },
        ),
        Ok(rs) => match added_all(t, rs) {
            Ok(t1) => Ok(t1),
            Err(m) => Err(CompileErrorView::InvalidNumericLiteral { path: f.path, message: m }),
        },
    }
}

/// The table after the files from position `i` on that are, or are not,
/// test resources have been filed, in order. The first error ends it.
pub open spec fn files_added(t: Seq<GroupView>, files: Seq<FileView>, i: int, tests: bool)
    -> Result<Seq<GroupView>, CompileErrorView>
    decreases files.len() - i,
{
    if i < 0 || i >= files.len() {
        Ok(t)
    } else if files[i].is_test != tests {
        files_added(t, files, i + 1, tests)
    } else {
        match file_added(t, files[i]) {
            Ok(t1) => files_added(t1, files, i + 1, tests),
            Err(e) => Err(e),
        }
    }
}

/// The merged table of the ordinary files, or of the test files.
pub open spec fn merged(files: Seq<FileView>, tests: bool) -> Result<
    Seq<GroupView>,
    CompileErrorView,
> {
    files_added(empty_table(), files, 0, tests)
}

/// Whether some file holds test resources.
pub open spec fn has_tests(files: Seq<FileView>) -> bool {
    exists|i: int| 0 <= i < files.len() && (#[trigger] files[i]).is_test
}

/// The result of compiling the files, in their order.
///
/// The ordinary files are merged into one table; malformed markup and bad
/// numeric literals end the compilation. Every pure reference of the table
/// must have a target, or the compilation ends with all that have none.
/// Where there are test files, they are merged into a table of their own
/// and generated beside the others.
pub open spec fn built(files: Seq<FileView>) -> Result<Seq<char>, CompileErrorView> {
    match merged(files, false) {
        Err(e) => Err(e),
        Ok(t) => if reference_errors(t).len() > 0 {
            Err(CompileErrorView::DanglingReference { messages: reference_errors(t) })
        } else if has_tests(files) {
            match merged(files, true) {
                Err(e) => Err(e),
                Ok(tt) => Ok(generated_code_with_tests(t, tt)),
            }
        } else {
            Ok(generated_code(t))
        },
    }
}

/// The view of a compilation result.
pub open spec fn build_result(r: Result<String, CompileError>) -> Result<
    Seq<char>,
    CompileErrorView,
> {
    match r {
        Ok(code) => Ok(code@),
        Err(e) => Err(e@),
    }
}

/// Merges the ordinary files, or the test files, into one table: the
/// declarations of each file are filed in the order of the files, later
/// files appending to what earlier ones filed.
pub fn merge_files(files: &Vec<RawResourceFile>, tests: bool) -> (r: Result<
    ResourceTable,
    CompileError,
>)
    ensures
        match merged(files_view(files@), tests) {
            Ok(t) => r.is_ok() && r.unwrap()@ == t,
            Err(e) => r.is_err() && r.unwrap_err()@ == e,
        },
{
    let ghost fs = files_view(files@);
    let mut table = ResourceTable::new();
    let mut i: usize = 0;
    while i < files.len()
        invariant
            i <= files@.len(),
            fs == files_view(files@),
            merged(fs, tests) == files_added(table@, fs, i as int, tests),
        decreases files@.len() - i,
    {
        let file = &files[i];
        assert(fs[i as int] == file@);
        if file.is_test == tests {
            match parse_single_file(file) {
                Ok(parsed_file) => match add_resources(&mut table, &parsed_file.resources) {
                    Ok(()) => {},
                    Err(m) => {
                        return Err(
                            CompileError::InvalidNumericLiteral {
                                path: file.path.clone(),
                                message: m,
                            },
                        );
                    },
                },
                Err(ParserError::Xml { path, offset, message }) => {
                    return Err(CompileError::MalformedInput { path, offset, message });
                },
            }
        }
        i = i + 1;
    }
    Ok(table)
}

/// Whether some file holds test resources, so that the generated code
/// has a module for them and the build must be told so.
pub fn has_test_resources(files: &Vec<RawResourceFile>) -> (r: bool)
    ensures
        r == has_tests(files_view(files@)),
{
    let mut i: usize = 0;
    while i < files.len()
        invariant
            i <= files@.len(),
            forall|j: int| 0 <= j < i ==> !(#[trigger] files_view(files@)[j]).is_test,
        decreases files@.len() - i,
    {
        assert(files_view(files@)[i as int] == files@[i as int]@);
        if files[i].is_test {
            return true;
        }
        i = i + 1;
    }
    false
}

/// Compiles resource files to source text.
///
/// The result depends on the files alone, so compiling the same files
/// again gives the same text, byte for byte, or the same error.
pub fn build(files: &Vec<RawResourceFile>) -> (r: Result<String, CompileError>)
    ensures
        build_result(r) == built(files_view(files@)),
{
    let table = match merge_files(files, false) {
        Ok(t) => t,
        Err(e) => {
            return Err(e);
        },
    };
    let messages = validate_references(&table);
    if messages.len() > 0 {
        return Err(CompileError::DanglingReference { messages });
    }
    if has_test_resources(files) {
        match merge_files(files, true) {
            Ok(tests) => Ok(generate_code_with_tests(&table, &tests)),
            Err(e) => Err(e),
        }
    } else {
        Ok(generate_code(&table))
    }
}

/// Compilation is deterministic: files that hold the same paths, texts
/// and flags compile to the same result.
pub proof fn lemma_build_is_deterministic(a: Seq<RawResourceFile>, b: Seq<RawResourceFile>)
    requires
        files_view(a) == files_view(b),
    ensures
        built(files_view(a)) == built(files_view(b)),
{
}

/// A pure reference without a target fails the compilation, and the error
/// holds the message that names the resource and its missing target: if
/// the merged table `t` has at position `j` of group `i` a resource of
/// which `reference_error` has something to say, the result is the error
/// with all such messages, that one among them.
pub proof fn lemma_dangling_reference_fails_build(
    files: Seq<FileView>,
    t: Seq<GroupView>,
    i: int,
    j: int,
)
    requires
        merged(files, false) == Ok::<Seq<GroupView>, CompileErrorView>(t),
        0 <= i < t.len(),
        0 <= j < t[i].items.len(),
        reference_error(t, t[i].kind, t[i].items[j].0, t[i].items[j].1).is_some(),
    ensures
        built(files) == Err::<Seq<char>, CompileErrorView>(
            CompileErrorView::DanglingReference { messages: reference_errors(t) },
        ),
        reference_errors(t).contains(
            reference_error(t, t[i].kind, t[i].items[j].0, t[i].items[j].1).unwrap(),
        ),
{
    lemma_dangling_reference_reported(t, i, j);
}

} // verus!

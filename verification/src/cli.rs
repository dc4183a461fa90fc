//! The decisions of the command line: which input to read and which image
//! format to write.
use takumi::prelude::Node as RendererNode;
use vstd::prelude::*;

use crate::path::{extension_of, parent_of, path_extension, path_parent};
use crate::text::{ascii_lowercase, chars_eq, chars_of, is_ascii_text, lowercase, to_lowercase};
use crate::node::opt_view;

verus! {

/// The image formats that can be written.
#[derive(PartialEq, Eq, Structural, Clone, Copy, Debug)]
pub enum OutputFormat {
    Png,
    WebP,
    Jpeg,
}

/// The format a (lower-cased) format name selects: `png`, `webp`, `jpeg` or `jpg`.
pub open spec fn format_by_name(name: Seq<char>) -> Option<OutputFormat> {
    if name == "png"@ {
        Some(OutputFormat::Png)
    } else if name == "webp"@ {
        Some(OutputFormat::WebP)
    } else if name == "jpeg"@ || name == "jpg"@ {
        Some(OutputFormat::Jpeg)
    } else {
        None
    }
}

/// The format a (lower-cased) file extension selects; PNG when there is none
/// or it is not `webp`, `jpg` or `jpeg`.
pub open spec fn format_by_extension(ext: Option<Seq<char>>) -> OutputFormat {
    match ext {
        Some(e) => if e == "webp"@ {
            OutputFormat::WebP
        } else if e == "jpg"@ || e == "jpeg"@ {
            OutputFormat::Jpeg
        } else {
            OutputFormat::Png
        },
        None => OutputFormat::Png,
    }
}

/// The format a lower-cased format name selects, if it is known.
pub fn format_from_name(name: &str) -> (r: Option<OutputFormat>)
    ensures
        r == format_by_name(name@),
{
    let n = chars_of(name);
    let png = chars_of("png");
    let webp = chars_of("webp");
    let jpeg = chars_of("jpeg");
    let jpg = chars_of("jpg");
    if chars_eq(n.as_slice(), png.as_slice()) {
        Some(OutputFormat::Png)
    } else if chars_eq(n.as_slice(), webp.as_slice()) {
        Some(OutputFormat::WebP)
    } else if chars_eq(n.as_slice(), jpeg.as_slice()) || chars_eq(n.as_slice(), jpg.as_slice()) {
        Some(OutputFormat::Jpeg)
    } else {
        None
    }
}

/// The format a lower-cased file extension selects.
pub fn format_from_extension(ext: Option<&str>) -> (r: OutputFormat)
    ensures
        r == format_by_extension(
            match ext {
                Some(e) => Some(e@),
                None => None,
            },
        ),
{
    match ext {
        Some(e) => {
            let n = chars_of(e);
            let webp = chars_of("webp");
            let jpeg = chars_of("jpeg");
            let jpg = chars_of("jpg");
            if chars_eq(n.as_slice(), webp.as_slice()) {
                OutputFormat::WebP
            } else if chars_eq(n.as_slice(), jpg.as_slice()) || chars_eq(
                n.as_slice(),
                jpeg.as_slice(),
            ) {
                OutputFormat::Jpeg
            } else {
                OutputFormat::Png
            }
        },
        None => OutputFormat::Png,
    }
}

/// The output format, and whether an explicit format name was unknown (and
/// PNG used instead): an explicit name decides, case-insensitively; without
/// one, the output file's extension does.
pub open spec fn resolve_format_spec(explicit: Option<Seq<char>>, output: Seq<char>) -> (
    OutputFormat,
    bool,
) {
    match explicit {
        Some(f) => match format_by_name(lowercase(f)) {
            Some(fmt) => (fmt, false),
            None => (OutputFormat::Png, true),
        },
        None => (
            format_by_extension(
                match path_extension(output) {
                    Some(e) => Some(lowercase(e)),
                    None => None,
                },
            ),
            false,
        ),
    }
}

/// Determine the output format from the `--format` option or the output file name.
/// The second result is whether the given format name was unknown.
pub fn resolve_format(explicit: &Option<String>, output: &str) -> (r: (OutputFormat, bool))
    ensures
        r == resolve_format_spec(opt_view(*explicit), output@),
        (*explicit matches Some(f) && is_ascii_text(f@)) ==> r == match format_by_name(
            ascii_lowercase(explicit->0@),
        ) {
            Some(fmt) => (fmt, false),
            None => (OutputFormat::Png, true),
        },
{
    match explicit {
        Some(fmt) => {
            let lower = to_lowercase(fmt.as_str());
            match format_from_name(lower.as_str()) {
                Some(f) => (f, false),
                None => (OutputFormat::Png, true),
            }
        },
        None => {
            match extension_of(output) {
                Some(e) => {
                    let lower = to_lowercase(e.as_str());
                    (format_from_extension(Some(lower.as_str())), false)
                },
                None => (format_from_extension(None), false),
            }
        },
    }
}

/// The name a format is reported under.
pub open spec fn format_label(format: OutputFormat) -> Seq<char> {
    match format {
        OutputFormat::Png => "PNG"@,
        OutputFormat::WebP => "WebP"@,
        OutputFormat::Jpeg => "JPEG"@,
    }
}

/// The name a format is reported under.
pub fn format_name(format: OutputFormat) -> (r: &'static str)
    ensures
        r@ == format_label(format),
{
    match format {
        OutputFormat::Png => "PNG",
        OutputFormat::WebP => "WebP",
        OutputFormat::Jpeg => "JPEG",
    }
}

/// A format name and a file extension that spell the same word select the
/// same format.
pub proof fn lemma_name_and_extension_agree(s: Seq<char>)
    requires
        format_by_name(s) is Some,
    ensures
        format_by_extension(Some(s)) == format_by_name(s)->0,
{
    reveal_strlit("png");
    reveal_strlit("webp");
    reveal_strlit("jpeg");
    reveal_strlit("jpg");
    if s == "png"@ {
        assert("png"@[0] != "webp"@[0]);
        assert("png"@[0] != "jpg"@[0]);
        assert("png"@.len() != "jpeg"@.len());
    }
}

// ---------------------------------------------------------------------------
// The input.
// ---------------------------------------------------------------------------

/// What to read the node tree from.
#[derive(Debug, Clone, PartialEq, Eq)]
pub enum InputPlan {
    /// A JSON node file; local images are looked up next to it.
    JsonFile { path: String, base_dir: String },
    /// An HTML file; local images are looked up next to it.
    HtmlFile { path: String, base_dir: String },
    /// HTML given on the command line; local images are looked up in the
    /// current directory.
    Inline { html: String },
}

/// Why an input cannot be read.
#[derive(PartialEq, Eq, Structural, Clone, Copy, Debug)]
pub enum InputError {
    /// A JSON node file does not hold a node.
    InvalidJson,
}

/// Model of an input plan: its kind (0 JSON file, 1 HTML file, 2 inline), and
/// the path and base directory or the HTML.
pub open spec fn plan_view(p: InputPlan) -> (nat, Seq<char>, Seq<char>) {
    match p {
        InputPlan::JsonFile { path, base_dir } => (0, path@, base_dir@),
        InputPlan::HtmlFile { path, base_dir } => (1, path@, base_dir@),
        InputPlan::Inline { html } => (2, html@, seq![]),
    }
}

/// The directory next to a file: its parent, or `.` when it has none.
pub open spec fn base_dir_of(file: Seq<char>) -> Seq<char> {
    match path_parent(file) {
        Some(d) => d,
        None => "."@,
    }
}

/// The input to read: a file when one is given (JSON when its extension is
/// exactly `json`, else HTML), else the inline HTML. One of the two is needed.
pub open spec fn input_plan_spec(html: Option<Seq<char>>, file: Option<Seq<char>>) -> (
    nat,
    Seq<char>,
    Seq<char>,
)
    recommends
        html is Some || file is Some,
{
    match file {
        Some(f) => if path_extension(f) == Some("json"@) {
            (0, f, base_dir_of(f))
        } else {
            (1, f, base_dir_of(f))
        },
        None => (2, html->0, seq![]),
    }
}

/// The plan for reading the file `path`, given its extension and parent
/// directory as `Path::extension` and `Path::parent` report them.
pub fn plan_file_input(path: String, extension: Option<&str>, parent: Option<String>) -> (r:
    InputPlan)
    ensures
        plan_view(r) == (if extension matches Some(e) && e@ == "json"@ {
            0nat
        } else {
            1nat
        }, path@, match parent {
            Some(d) => d@,
            None => "."@,
        }),
{
    let base_dir = match parent {
        Some(d) => d,
        None => String::from_str("."),
    };
    let is_json = match extension {
        Some(e) => {
            let ec = chars_of(e);
            let json = chars_of("json");
            chars_eq(ec.as_slice(), json.as_slice())
        },
        None => false,
    };
    if is_json {
        InputPlan::JsonFile { path, base_dir }
    } else {
        InputPlan::HtmlFile { path, base_dir }
    }
}

/// Decide what to read the node tree from. Inline HTML or a file must be
/// given.
pub fn plan_input(html: Option<String>, file: Option<String>) -> (r: InputPlan)
    requires
        html is Some || file is Some,
    ensures
        plan_view(r) == input_plan_spec(opt_view(html), opt_view(file)),
{
    match file {
        Some(f) => {
            let parent = parent_of(f.as_str());
            let ext = extension_of(f.as_str());
            let plan = match ext {
                Some(e) => plan_file_input(f, Some(e.as_str()), parent),
                None => plan_file_input(f, None, parent),
            };
            plan
        },
        None => InputPlan::Inline { html: html.unwrap() },
    }
}

// ---------------------------------------------------------------------------
// JSON node files.
// ---------------------------------------------------------------------------

#[verifier::external_type_specification]
#[verifier::external_body]
pub struct ExRendererNode(RendererNode);

/// Whether `serde_json` reads the text as a renderer node. A function of the
/// text alone.
pub uninterp spec fn node_json_parses(text: Seq<char>) -> bool;

/// The renderer's node that `serde_json` reads from the text, where it reads
/// one. Reading is a function of the text alone, so the node (its content;
/// the heap cells that hold it are fresh on each call) is too.
pub uninterp spec fn json_node(text: Seq<char>) -> RendererNode;

/// The renderer's node that a JSON text describes, if it describes one.
///
/// Calls `serde_json::from_str` into takumi's `Node` (`RendererNode` here); it
/// fails on text that is not JSON or not the shape of a node. The contract
/// says when the call succeeds, through `node_json_parses`, and names the node
/// it returns, `json_node` of the text; the node itself is opaque here.
#[verifier::external_body]
fn node_from_json(text: &str) -> (r: Option<RendererNode>)
    ensures
        r is Some <==> node_json_parses(text@),
        r matches Some(n) ==> n == json_node(text@),
{
    serde_json::from_str(text).ok()
}

/// Reads the contents of a JSON node file as the renderer's node: the node
/// `serde_json` reads from the text.
pub fn parse_node_json(text: &str) -> (r: Result<RendererNode, InputError>)
    ensures
        r is Ok <==> node_json_parses(text@),
        r matches Ok(n) ==> n == json_node(text@),
        r matches Err(e) ==> e == InputError::InvalidJson,
{
    match node_from_json(text) {
        Some(n) => Ok(n),
        None => Err(InputError::InvalidJson),
    }
}

} // verus!

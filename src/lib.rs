//! Compiles a tree of boxes, flex containers, text runs and images into a
//! static SVG document. Lengths are held as `i64` thousandths of a pixel, so
//! the same input always gives the same text.
use vstd::prelude::*;
use vstd::string::StringExecFns;
use base64::Engine;

pub mod color;
pub mod layout;
pub mod num;
pub mod render;
pub mod strings;
pub mod style;
pub mod svg;
pub mod text;

use crate::render::{PlacedNode, build_render_tree, node_commands, views};
use crate::svg::{SvgOptions, generate_svg, svg_document};

verus! {

/// A font to register before rendering.
#[derive(Debug, Clone, PartialEq, Eq)]
pub struct FontSource {
    /// Family name.
    pub family: String,
    /// Where the font file can be fetched from.
    pub url: Option<String>,
    /// Weight, 400 when not given.
    pub weight: u16,
    /// Base64 text of the font file, used for text layout.
    pub data: Option<String>,
}

/// Weight used for a font source that names none.
pub fn default_font_weight() -> (r: u16)
    ensures
        r == 400,
{
    400
}

/// Font size used when none is given: 16 pixels.
pub fn default_font_size() -> (r: i64)
    ensures
        r == 16000,
{
    16000
}

/// Options of a compilation. Sizes are in thousandths of a pixel.
#[derive(Debug, Clone, PartialEq, Eq)]
pub struct CompileOptions {
    /// Width offered to the layout.
    pub width: i64,
    /// Height offered to the layout; computed from the content when absent.
    pub height: Option<i64>,
    pub font_size: i64,
    /// Family of text elements that name none.
    pub font_family: Option<String>,
    pub fonts: Vec<FontSource>,
}

impl Default for CompileOptions {
    fn default() -> (r: CompileOptions)
        ensures
            r.width == 800_000,
            r.height is None,
            r.font_size == 16000,
            r.font_family is None,
            r.fonts@.len() == 0,
    {
        CompileOptions {
            width: 800_000,
            height: None,
            font_size: 16000,
            font_family: None,
            fonts: Vec::new(),
        }
    }
}

/// The output of a compilation. Sizes are in thousandths of a pixel.
#[derive(Debug, Clone, PartialEq, Eq)]
pub struct CompileResult {
    pub svg: String,
    pub width: i64,
    pub height: i64,
    pub warnings: Vec<String>,
}

/// Why a compilation failed: `kind` is `parse_error`, `layout_error` or
/// `font_error`.
#[derive(Debug, Clone, PartialEq, Eq)]
pub struct CompileError {
    pub message: String,
    pub kind: String,
}

impl CompileError {
    pub fn parse_error(message: String) -> (e: CompileError)
        ensures
            e.kind@ == "parse_error"@,
            e.message == message,
    {
        CompileError { message, kind: String::from_str("parse_error") }
    }

    pub fn layout_error(message: String) -> (e: CompileError)
        ensures
            e.kind@ == "layout_error"@,
            e.message == message,
    {
        CompileError { message, kind: String::from_str("layout_error") }
    }

    pub fn font_error(message: String) -> (e: CompileError)
        ensures
            e.kind@ == "font_error"@,
            e.message == message,
    {
        CompileError { message, kind: String::from_str("font_error") }
    }

    /// `kind: message`.
    pub fn to_string(&self) -> (s: String)
        ensures
            s@ == self.kind@ + ": "@ + self.message@,
    {
        let mut s = self.kind.clone();
        s.append(": ");
        s.append(self.message.as_str());
        s
    }
}

#[verifier::external_type_specification]
#[verifier::external_body]
pub struct ExDecodeError(base64::DecodeError);

/// The bytes that standard base64 text decodes to, if it is valid.
pub uninterp spec fn base64_decoded(s: Seq<char>) -> Option<Seq<u8>>;

/// Relies on base64's `STANDARD` engine `decode`: the outcome depends on the
/// text alone.
#[verifier::external_body]
fn decode_base64(s: &str) -> (r: Result<Vec<u8>, base64::DecodeError>)
    ensures
        match r {
            Ok(v) => base64_decoded(s@) == Some(v@),
            Err(_) => base64_decoded(s@) is None,
        },
{
    base64::engine::general_purpose::STANDARD.decode(s)
}

/// Relies on the `Display` text of `base64::DecodeError`, for messages.
#[verifier::external_body]
fn decode_error_text(e: &base64::DecodeError) -> String {
    e.to_string()
}

/// The base64 texts of the fonts that carry data, in order.
pub open spec fn font_data(fonts: Seq<FontSource>) -> Seq<Seq<char>>
    decreases fonts.len(),
{
    if fonts.len() == 0 {
        Seq::empty()
    } else {
        let rest = font_data(fonts.drop_last());
        match fonts.last().data {
            Some(d) => rest.push(d@),
            None => rest,
        }
    }
}

/// Decodes the font files carried by the options, in order; fails with a
/// `font_error` when some payload is not valid base64.
pub fn font_payloads(options: &CompileOptions) -> (r: Result<Vec<Vec<u8>>, CompileError>)
    ensures
        r is Ok <==> forall|k: int|
            0 <= k < font_data(options.fonts@).len() ==> (#[trigger] base64_decoded(
                font_data(options.fonts@)[k],
            )) is Some,
        r matches Ok(v) ==> v@.len() == font_data(options.fonts@).len() && forall|k: int|
            0 <= k < v@.len() ==> Some((#[trigger] v@[k])@) == base64_decoded(
                font_data(options.fonts@)[k],
            ),
        r matches Err(e) ==> e.kind@ == "font_error"@,
{
    let mut out: Vec<Vec<u8>> = Vec::new();
    let mut i: usize = 0;
    while i < options.fonts.len()
        invariant
            i <= options.fonts.len(),
            out@.len() == font_data(options.fonts@.take(i as int)).len(),
            forall|k: int|
                0 <= k < out@.len() ==> Some((#[trigger] out@[k])@) == base64_decoded(
                    font_data(options.fonts@.take(i as int))[k],
                ),
        decreases options.fonts.len() - i,
    {
        let ghost prev = options.fonts@.take(i as int);
        assert(options.fonts@.take(i + 1).drop_last() =~= prev);
        assert(options.fonts@.take(i + 1).last() == options.fonts@[i as int]);
        match &options.fonts[i].data {
            Some(d) => {
                match decode_base64(d.as_str()) {
                    Ok(bytes) => {
                        out.push(bytes);
                    },
                    Err(e) => {
                        proof {
                            lemma_font_data_prefix(options.fonts@, i as int + 1);
                            let k = font_data(prev).len() as int;
                            assert(font_data(options.fonts@.take(i + 1))[k] == d@);
                            assert(font_data(options.fonts@)[k] == d@);
                        }
                        let mut message = String::from_str("Invalid base64 font data: ");
                        let detail = decode_error_text(&e);
                        message.append(detail.as_str());
                        return Err(CompileError::font_error(message));
                    },
                }
            },
            None => {},
        }
        i = i + 1;
    }
    assert(options.fonts@.take(options.fonts.len() as int) =~= options.fonts@);
    assert forall|k: int| 0 <= k < font_data(options.fonts@).len() implies (#[trigger] base64_decoded(
        font_data(options.fonts@)[k],
    )) is Some by {
        assert(Some(out@[k]@) == base64_decoded(font_data(options.fonts@)[k]));
    }
    Ok(out)
}

proof fn lemma_font_data_prefix(fonts: Seq<FontSource>, n: int)
    requires
        0 <= n <= fonts.len(),
    ensures
        font_data(fonts.take(n)).len() <= font_data(fonts).len(),
        forall|k: int| 0 <= k < font_data(fonts.take(n)).len() ==> font_data(fonts)[k] == #[trigger] font_data(fonts.take(n))[k],
    decreases fonts.len() - n,
{
    if n < fonts.len() {
        lemma_font_data_prefix(fonts, n + 1);
        assert(fonts.take(n + 1).drop_last() =~= fonts.take(n));
        let a = font_data(fonts.take(n + 1));
        let b = font_data(fonts.take(n));
        assert forall|k: int| 0 <= k < b.len() implies a[k] == b[k] by {}
    } else {
        assert(fonts.take(n) =~= fonts);
    }
}

/// Flattens a laid-out document and writes it as SVG with the default
/// options; the reported size is the root's.
pub fn render_document(root: &PlacedNode) -> (r: CompileResult)
    ensures
        r.width == render::ext(root.width as int),
        r.height == render::ext(root.height as int),
        r.warnings@.len() == 0,
        exists|t: render::RenderTree| #![auto]
            views(t.commands@) == node_commands(*root, 0, 0) && t.width == r.width && t.height
                == r.height && r.svg@ == svg_document(
                t,
                SvgOptions { xml_declaration: true, pretty: false, precision: 2 },
            ),
{
    let tree = build_render_tree(root);
    let options = SvgOptions::default();
    let svg = generate_svg(&tree, &options);
    let width = tree.width;
    let height = tree.height;
    CompileResult { svg, width, height, warnings: Vec::new() }
}

} // verus!

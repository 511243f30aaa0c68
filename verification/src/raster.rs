//! SVG to PNG rasterization, fully in-process: `usvg` parses the document
//! against a font database, `resvg` paints it onto a `tiny-skia` pixmap, and
//! the pixmap is encoded as PNG. The font database (system fonts, the font a
//! program bundles, and an optional directory of extra fonts) is built once
//! per [`RasterContext`] and reused.

use vstd::prelude::*;
use crate::ieee::{ceil_to_u32, ceil_u32};
use vstd::multiset::Multiset;
use crate::strings::{debug_quoted, debug_text, push_all};

verus! {

/// The parse options of `usvg`, font database included.
#[verifier::external_type_specification]
#[verifier::external_body]
pub struct ExSvgOptions<'a>(usvg::Options<'a>);

/// A parsed SVG document.
#[verifier::external_type_specification]
#[verifier::external_body]
pub struct ExSvgTree(usvg::Tree);

/// Why `usvg` refused a document.
#[verifier::external_type_specification]
#[verifier::external_body]
pub struct ExSvgError(usvg::Error);

/// An RGBA pixel buffer.
#[verifier::external_type_specification]
#[verifier::external_body]
pub struct ExPixmap(tiny_skia::Pixmap);

/// An I/O failure, as std reports it.
#[verifier::external_type_specification]
#[verifier::external_body]
pub struct ExIoError(std::io::Error);

/// Error rasterizing an SVG document.
#[derive(Debug)]
pub enum RasterError {
    /// The document could not be parsed.
    Parse(String),
    /// The pixel buffer could not be allocated for the document's size.
    Alloc,
    /// The pixels could not be encoded as PNG.
    Encode(String),
    /// Reading or writing a file failed.
    Io(std::io::Error),
}

/// The font database of a set of parse options, as a collection: one entry
/// per face, holding the face's family names.
pub uninterp spec fn font_faces(opt: usvg::Options<'static>) -> Multiset<Seq<Seq<char>>>;

/// The family the parse options give to text that names none.
pub uninterp spec fn default_family(opt: usvg::Options<'static>) -> Seq<char>;

/// Every setting a parse reads to size a document or to refuse it (the
/// resolution for absolute units, the fallback size for percentages, the
/// injected style sheet) still has `usvg`'s default value.
pub uninterp spec fn stock_settings(opt: usvg::Options<'static>) -> bool;

/// `usvg::Options::default()`: an empty font database, "Times New Roman" as
/// the default family, and every other setting at its default.
#[verifier::external_body]
fn default_options() -> (r: usvg::Options<'static>)
    ensures
        font_faces(r) == Multiset::<Seq<Seq<char>>>::empty(),
        default_family(r) == "Times New Roman"@,
        stock_settings(r),
{
    usvg::Options::default()
}

/// `fontdb::Database::load_system_fonts` on the options' database: adds the
/// fonts found in the platform's font directories (what is found depends on
/// the machine) and removes none; no other setting is touched.
#[verifier::external_body]
fn load_system_fonts(opt: &mut usvg::Options<'static>)
    ensures
        font_faces(*old(opt)).subset_of(font_faces(*final(opt))),
        default_family(*final(opt)) == default_family(*old(opt)),
        stock_settings(*final(opt)) == stock_settings(*old(opt)),
{
    opt.fontdb_mut().load_system_fonts();
}

/// The faces a font file holds, by their family names (a font collection
/// holds several; bytes that are not a font hold none).
pub uninterp spec fn font_data_faces(data: Seq<u8>) -> Multiset<Seq<Seq<char>>>;

/// `fontdb::Database::load_font_data` on the options' database: adds every
/// face the bytes hold (skipping what does not parse as a face); no other
/// setting is touched.
#[verifier::external_body]
fn load_font_data(opt: &mut usvg::Options<'static>, data: &[u8])
    ensures
        font_faces(*final(opt)) == font_faces(*old(opt)).add(font_data_faces(data@)),
        default_family(*final(opt)) == default_family(*old(opt)),
        stock_settings(*final(opt)) == stock_settings(*old(opt)),
{
    opt.fontdb_mut().load_font_data(data.to_vec());
}

/// `fontdb::Database::load_fonts_dir` on the options' database: adds the
/// fonts found under `dir`, skipping files that are not fonts (what is found
/// depends on the disk), and removes none; no other setting is touched.
#[verifier::external_body]
fn load_fonts_dir(opt: &mut usvg::Options<'static>, dir: &str)
    ensures
        font_faces(*old(opt)).subset_of(font_faces(*final(opt))),
        default_family(*final(opt)) == default_family(*old(opt)),
        stock_settings(*final(opt)) == stock_settings(*old(opt)),
{
    opt.fontdb_mut().load_fonts_dir(dir);
}

/// Sets `usvg::Options::font_family`, the family used for text that names
/// none; nothing else is touched.
#[verifier::external_body]
fn set_default_family(opt: &mut usvg::Options<'static>, family: &str)
    ensures
        default_family(*final(opt)) == family@,
        font_faces(*final(opt)) == font_faces(*old(opt)),
        stock_settings(*final(opt)) == stock_settings(*old(opt)),
{
    opt.font_family = family.to_string();
}

/// The family names of every face in the options' font database
/// (`fontdb::Database::faces`, each face's `families` without their
/// languages).
#[verifier::external_body]
fn face_families(opt: &usvg::Options<'static>) -> (r: Vec<Vec<String>>)
    ensures
        r@.map_values(|f: Vec<String>| f@.map_values(|n: String| n@)).to_multiset() == font_faces(
            *opt,
        ),
{
    opt.fontdb.faces().map(|f| f.families.iter().map(|(name, _)| name.clone()).collect()).collect()
}

/// What `usvg` makes of a document's text, with stock settings.
pub enum SvgSize {
    /// The text is refused: it is not well-formed XML, it has too many
    /// elements, or its root gives no valid size.
    Refused,
    /// The text is accepted, and the root's width and height (with its
    /// viewBox) give the document's size; here as binary32 bit patterns.
    Given(u32, u32),
    /// The text is accepted, but the root gives its width or height as a
    /// percentage and has no viewBox, so the size is taken from the bounding
    /// box of what is drawn (which may depend on the fonts).
    FromContent,
}

/// What `usvg::Tree::from_str` makes of the text `svg` with stock settings.
pub uninterp spec fn svg_size(svg: Seq<char>) -> SvgSize;

/// `usvg::Tree::from_str`: parses the document against the options. As its
/// source shows, the only errors are malformed XML, too many elements and an
/// invalid root size, all decided by the text and the settings named by
/// [`stock_settings`]; the fonts only shape text. So with stock settings it
/// fails exactly when [`svg_size`] refuses the text, and a size given by the
/// root is the tree's size. Whether some text makes the parser panic was not
/// traced through its source; nothing here rules that out.
#[verifier::external_body]
fn parse_svg(svg: &str, opt: &usvg::Options<'static>) -> (r: Result<usvg::Tree, usvg::Error>)
    ensures
        stock_settings(*opt) ==> match svg_size(svg@) {
            SvgSize::Refused => r is Err,
            SvgSize::Given(w, h) => r matches Ok(t) && tree_size(t) == (w, h),
            SvgSize::FromContent => r is Ok,
        },
{
    usvg::Tree::from_str(svg, opt)
}

/// The `Display` text of a `usvg::Error`.
#[verifier::external_body]
fn svg_error_text(e: &usvg::Error) -> (r: String) {
    e.to_string()
}

/// The `Display` text of a `std::io::Error` (it may quote the operating
/// system's message, so nothing is promised of it).
#[verifier::external_body]
fn io_error_text(e: &std::io::Error) -> (r: String) {
    e.to_string()
}

/// The size a parsed document was made with (`usvg::Tree::size`), width and
/// height as binary32 bit patterns.
pub uninterp spec fn tree_size(tree: usvg::Tree) -> (u32, u32);

/// `usvg::Tree::size`: the document's width and height, as binary32 bit
/// patterns, named [`tree_size`].
#[verifier::external_body]
fn tree_size_bits(tree: &usvg::Tree) -> (r: (u32, u32))
    ensures
        r == tree_size(*tree),
{
    let size = tree.size();
    (size.width().to_bits(), size.height().to_bits())
}

/// The width and height a pixmap was made with.
pub uninterp spec fn pixmap_dims(p: tiny_skia::Pixmap) -> (u32, u32);

/// A pixmap of `w` by `h` can be allocated: both sides non-zero, a row of
/// 4-byte pixels fits in an `i32`, and the whole buffer fits in a `usize`.
pub open spec fn pixmap_allocatable(w: u32, h: u32) -> bool {
    w > 0 && h > 0 && 4 * w <= i32::MAX && 4 * w * h <= usize::MAX
}

/// `tiny_skia::Pixmap::new`: a transparent pixmap of `width` by `height`.
/// As its source shows, it exists exactly when [`pixmap_allocatable`] holds.
#[verifier::external_body]
fn new_pixmap(width: u32, height: u32) -> (r: Option<tiny_skia::Pixmap>)
    ensures
        r is Some <==> pixmap_allocatable(width, height),
        r matches Some(p) ==> pixmap_dims(p) == (width, height),
{
    tiny_skia::Pixmap::new(width, height)
}

/// `resvg::render` of the whole tree onto the pixmap, untransformed; the
/// pixmap keeps its size. Whether some tree makes the painter panic was not
/// traced through its source; nothing here rules that out.
#[verifier::external_body]
fn render_tree(tree: &usvg::Tree, pixmap: &mut tiny_skia::Pixmap)
    ensures
        pixmap_dims(*final(pixmap)) == pixmap_dims(*old(pixmap)),
{
    resvg::render(tree, tiny_skia::Transform::identity(), &mut pixmap.as_mut());
}

/// The eight bytes every PNG file begins with.
pub open spec fn png_signature() -> Seq<u8> {
    seq![137u8, 80u8, 78u8, 71u8, 13u8, 10u8, 26u8, 10u8]
}

/// The bytes begin like a PNG file.
pub open spec fn starts_as_png(bytes: Seq<u8>) -> bool {
    bytes.len() >= 8 && bytes.subrange(0, 8) == png_signature()
}

/// The big-endian `u32` at `i`.
pub open spec fn be_u32(b: Seq<u8>, i: int) -> int {
    b[i] * 0x100_0000 + b[i + 1] * 0x1_0000 + b[i + 2] * 0x100 + b[i + 3]
}

/// The width and height a PNG file declares in its header chunk, which
/// follows the signature, the chunk length and the chunk type.
pub open spec fn png_dims(b: Seq<u8>) -> (int, int) {
    (be_u32(b, 16), be_u32(b, 20))
}

/// `tiny_skia::Pixmap::encode_png`: the PNG file for the pixmap, or the
/// encoder's error as text (its type belongs to the `png` crate). The file
/// is written into an empty vector, and the `png` encoder writes the PNG
/// signature first and then the header chunk with the pixmap's width and
/// height, so a file that comes back starts with them.
#[verifier::external_body]
fn encode_png(pixmap: &tiny_skia::Pixmap) -> (r: Result<Vec<u8>, String>)
    ensures
        r matches Ok(bytes) ==> starts_as_png(bytes@) && bytes@.len() >= 24 && png_dims(bytes@)
            == (pixmap_dims(*pixmap).0 as int, pixmap_dims(*pixmap).1 as int),
{
    pixmap.encode_png().map_err(|e| e.to_string())
}

/// The message of a [`RasterError`], given the text of its cause.
pub open spec fn raster_message(kind: RasterError, cause: Seq<char>) -> Seq<char> {
    match kind {
        RasterError::Parse(m) => "SVG parse error: "@ + m@,
        RasterError::Alloc => "pixmap allocation failed"@,
        RasterError::Encode(m) => "PNG encode error: "@ + m@,
        RasterError::Io(_) => "io error: "@ + cause,
    }
}

impl RasterError {
    /// The human-readable message of the error.
    pub fn message(&self) -> (r: String)
        ensures
            !(*self is Io) ==> r@ == raster_message(*self, Seq::empty()),
            *self is Io ==> exists|cause: Seq<char>| r@ == raster_message(*self, cause),
    {
        let mut out = String::new();
        match self {
            RasterError::Parse(m) => {
                push_all(&mut out, "SVG parse error: ");
                push_all(&mut out, m.as_str());
            },
            RasterError::Alloc => {
                push_all(&mut out, "pixmap allocation failed");
            },
            RasterError::Encode(m) => {
                push_all(&mut out, "PNG encode error: ");
                push_all(&mut out, m.as_str());
            },
            RasterError::Io(e) => {
                push_all(&mut out, "io error: ");
                let cause = io_error_text(e);
                push_all(&mut out, cause.as_str());
                proof {
                    assert(out@ == raster_message(*self, cause@));
                }
            },
        }
        out
    }
}

/// A side of the pixmap for a document side: at least one pixel.
pub open spec fn at_least_one(n: u32) -> u32 {
    if n < 1 {
        1
    } else {
        n
    }
}

/// The pixmap size for a document size: each side rounded up to whole pixels
/// (as `ceil() as u32` does), and at least one pixel.
pub open spec fn pixmap_size_for(size: (u32, u32)) -> (u32, u32) {
    (at_least_one(ceil_u32(size.0)), at_least_one(ceil_u32(size.1)))
}

/// The pixmap size for a document whose width and height have the bit
/// patterns `wb` and `hb`.
pub fn pixmap_size(wb: u32, hb: u32) -> (r: (u32, u32))
    ensures
        r == pixmap_size_for((wb, hb)),
{
    let w = ceil_to_u32(wb);
    let h = ceil_to_u32(hb);
    (if w < 1 {
        1
    } else {
        w
    }, if h < 1 {
        1
    } else {
        h
    })
}

/// What painting and encoding a document of pixmap size `size` gives: the
/// pixmap cannot be allocated exactly when `size` is not
/// [`pixmap_allocatable`]; bytes that come back are a PNG file that declares
/// `size`; the only other failure is the encoder's.
pub open spec fn png_result(size: (u32, u32), r: Result<Vec<u8>, RasterError>) -> bool {
    &&& (r matches Err(RasterError::Alloc)) <==> !pixmap_allocatable(size.0, size.1)
    &&& r matches Ok(bytes) ==> starts_as_png(bytes@) && bytes@.len() >= 24 && png_dims(bytes@)
        == (size.0 as int, size.1 as int)
    &&& r matches Err(e) ==> (e is Alloc || e is Encode)
}

/// What painting and encoding a parsed document gives, for its pixmap size.
pub open spec fn png_outcome(tree: usvg::Tree, r: Result<Vec<u8>, RasterError>) -> bool {
    png_result(pixmap_size_for(tree_size(tree)), r)
}

/// Paint a parsed document on a pixmap of its size rounded up, at least one
/// pixel a side, and encode it as PNG. The pixmap cannot be allocated exactly
/// when that size is not [`pixmap_allocatable`] ([`RasterError::Alloc`]); an
/// encoder failure gives [`RasterError::Encode`].
pub fn tree_to_png(tree: &usvg::Tree) -> (r: Result<Vec<u8>, RasterError>)
    ensures
        png_outcome(*tree, r),
{
    let (wb, hb) = tree_size_bits(tree);
    let (pw, ph) = pixmap_size(wb, hb);
    let mut pixmap = match new_pixmap(pw, ph) {
        Some(p) => p,
        None => {
            return Err(RasterError::Alloc);
        },
    };
    render_tree(tree, &mut pixmap);
    match encode_png(&pixmap) {
        Ok(bytes) => Ok(bytes),
        Err(m) => Err(RasterError::Encode(m)),
    }
}

/// A problem found while preparing the fonts (the context is still usable;
/// text may fall back to another font).
#[derive(Debug, Clone, PartialEq, Eq)]
pub enum FontWarning {
    /// No loaded face has the family asked for.
    FamilyMissing(String),
}

/// A [`FontWarning`] with its text as characters.
pub enum FontWarningView {
    FamilyMissing(Seq<char>),
}

impl View for FontWarning {
    type V = FontWarningView;

    open spec fn view(&self) -> FontWarningView {
        match self {
            FontWarning::FamilyMissing(f) => FontWarningView::FamilyMissing(f@),
        }
    }
}

/// The text of a font warning.
pub open spec fn font_warning_message(w: FontWarningView) -> Seq<char> {
    match w {
        FontWarningView::FamilyMissing(f) => "warning: font family "@ + debug_text(f)
            + " not found in font database; text will fall back to another font"@,
    }
}

impl FontWarning {
    /// The human-readable text of the warning.
    pub fn message(&self) -> (r: String)
        ensures
            r@ == font_warning_message(self@),
    {
        let mut out = String::new();
        match self {
            FontWarning::FamilyMissing(f) => {
                push_all(&mut out, "warning: font family ");
                let q = debug_quoted(f.as_str());
                push_all(&mut out, q.as_str());
                push_all(
                    &mut out,
                    " not found in font database; text will fall back to another font",
                );
            },
        }
        proof {
            reveal_strlit("");
        }
        out
    }
}

/// Some face in the database has `family` among its family names.
pub open spec fn has_family(faces: Multiset<Seq<Seq<char>>>, family: Seq<char>) -> bool {
    exists|f: Seq<Seq<char>>| faces.count(f) > 0 && f.contains(family)
}

/// The warnings of a context whose default family is `family` and whose font
/// database ended as `faces`: one when no face has that family.
pub open spec fn font_warnings(family: Seq<char>, faces: Multiset<Seq<Seq<char>>>) -> Seq<
    FontWarningView,
> {
    if has_family(faces, family) {
        Seq::empty()
    } else {
        seq![FontWarningView::FamilyMissing(family)]
    }
}

/// Whether some face of the options' font database has `family` among its
/// family names.
fn find_family(opt: &usvg::Options<'static>, family: &str) -> (r: bool)
    ensures
        r == has_family(font_faces(*opt), family@),
{
    let faces = face_families(opt);
    let ghost v = faces@.map_values(|f: Vec<String>| f@.map_values(|n: String| n@));
    proof {
        v.to_multiset_ensures();
    }
    let mut i: usize = 0;
    while i < faces.len()
        invariant
            i <= faces@.len(),
            v == faces@.map_values(|f: Vec<String>| f@.map_values(|n: String| n@)),
            v.to_multiset() == font_faces(*opt),
            forall|k: int| 0 <= k < i ==> !v[k].contains(family@),
        decreases faces@.len() - i,
    {
        let names = &faces[i];
        let mut j: usize = 0;
        while j < names.len()
            invariant
                j <= names@.len(),
                names@ == faces@[i as int]@,
                i < faces@.len(),
                v == faces@.map_values(|f: Vec<String>| f@.map_values(|n: String| n@)),
                v.to_multiset() == font_faces(*opt),
                forall|k: int| 0 <= k < j ==> names@[k]@ != family@,
            decreases names@.len() - j,
        {
            if crate::strings::str_equals(names[j].as_str(), family) {
                proof {
                    v.to_multiset_ensures();
                    assert(v[i as int][j as int] == family@);
                    assert(v.contains(v[i as int]));
                    assert(font_faces(*opt).count(v[i as int]) > 0);
                    assert(v[i as int].contains(family@));
                    assert(has_family(font_faces(*opt), family@));
                }
                return true;
            }
            j += 1;
        }
        proof {
            assert forall|k: int| 0 <= k < v[i as int].len() implies v[i as int][k] != family@ by {
                assert(v[i as int][k] == names@[k]@);
            }
        }
        i += 1;
    }
    proof {
        v.to_multiset_ensures();
        assert forall|f: Seq<Seq<char>>| font_faces(*opt).count(f) > 0 implies !f.contains(
            family@,
        ) by {
            assert(v.contains(f));
            let k = choose|k: int| 0 <= k < v.len() && v[k] == f;
        }
    }
    false
}

/// A reusable rasterization context: the font database is loaded once
/// (scanning system fonts is the most expensive step) and reused across
/// renders.
pub struct RasterContext {
    opt: usvg::Options<'static>,
    warnings: Vec<FontWarning>,
}

impl RasterContext {
    /// The parse options keep the stock settings: only the fonts and the
    /// default family are ever changed.
    #[verifier::type_invariant]
    spec fn stock(self) -> bool {
        stock_settings(self.opt)
    }

    /// The family used for text that names none.
    pub closed spec fn family(&self) -> Seq<char> {
        default_family(self.opt)
    }

    /// The faces of the font database, by family names.
    pub closed spec fn faces(&self) -> Multiset<Seq<Seq<char>>> {
        font_faces(self.opt)
    }

    /// The warnings found while preparing the fonts.
    pub closed spec fn warnings_view(&self) -> Seq<FontWarningView> {
        self.warnings@.map_values(|w: FontWarning| w@)
    }

    /// Load the extra fonts, set the default family and check that some face
    /// has it.
    fn finish(opt: usvg::Options<'static>, extra_fonts_dir: Option<&str>, font_family: &str) -> (r:
        Self)
        requires
            stock_settings(opt),
        ensures
            r.family() == font_family@,
            font_faces(opt).subset_of(r.faces()),
            r.warnings_view() == font_warnings(font_family@, r.faces()),
    {
        let mut opt = opt;
        if let Some(dir) = extra_fonts_dir {
            load_fonts_dir(&mut opt, dir);
        }
        set_default_family(&mut opt, font_family);
        let mut warnings: Vec<FontWarning> = Vec::new();
        if !find_family(&opt, font_family) {
            warnings.push(FontWarning::FamilyMissing(crate::strings::to_owned_string(font_family)));
        }
        let r = RasterContext { opt, warnings };
        proof {
            assert(r.warnings_view() =~= font_warnings(font_family@, r.faces()));
        }
        r
    }

    /// Build a context with the system fonts, and those under
    /// `extra_fonts_dir` (if any) on top, using `font_family` as the default
    /// family for text that names none. The library carries no font file of
    /// its own: a program that bundles one builds its context with
    /// [`RasterContext::with_font_data`]. A warning says when no face has the
    /// family.
    pub fn new(extra_fonts_dir: Option<&str>, font_family: &str) -> (r: Self)
        ensures
            r.family() == font_family@,
            r.warnings_view() == font_warnings(font_family@, r.faces()),
    {
        let mut opt = default_options();
        load_system_fonts(&mut opt);
        Self::finish(opt, extra_fonts_dir, font_family)
    }

    /// Build a context with the system fonts, then the faces of the font file
    /// `font_data` (the font the program bundles, always available), then
    /// those under `extra_fonts_dir` (if any) on top, using `font_family` as
    /// the default family for text that names none. Extra fonts only add
    /// faces: every face of `font_data` stays. A warning says when no face has
    /// the family.
    pub fn with_font_data(font_data: &[u8], extra_fonts_dir: Option<&str>, font_family: &str) -> (r:
        Self)
        ensures
            r.family() == font_family@,
            font_data_faces(font_data@).subset_of(r.faces()),
            r.warnings_view() == font_warnings(font_family@, r.faces()),
    {
        let mut opt = default_options();
        load_system_fonts(&mut opt);
        load_font_data(&mut opt, font_data);
        Self::finish(opt, extra_fonts_dir, font_family)
    }

    /// The warnings found while preparing the fonts, in the order they were
    /// found.
    pub fn warnings(&self) -> (r: &Vec<FontWarning>)
        ensures
            r@.map_values(|w: FontWarning| w@) == self.warnings_view(),
    {
        &self.warnings
    }

    /// Parse an SVG document with the prepared fonts: refused text is
    /// [`RasterError::Parse`] with the parser's message; a size the root gives
    /// is the tree's size.
    pub fn parse(&self, svg: &str) -> (r: Result<usvg::Tree, RasterError>)
        ensures
            r matches Err(e) ==> e is Parse,
            match svg_size(svg@) {
                SvgSize::Refused => r is Err,
                SvgSize::Given(w, h) => r matches Ok(t) && tree_size(t) == (w, h),
                SvgSize::FromContent => r is Ok,
            },
    {
        proof {
            use_type_invariant(self);
        }
        match parse_svg(svg, &self.opt) {
            Ok(t) => Ok(t),
            Err(e) => Err(RasterError::Parse(svg_error_text(&e))),
        }
    }

    /// Render an SVG document to PNG bytes with the prepared fonts: the
    /// document is parsed (refused text is [`RasterError::Parse`]), then
    /// painted on a pixmap of its size rounded up, at least one pixel a side,
    /// and encoded as PNG, as [`tree_to_png`] does.
    pub fn render_png(&self, svg: &str) -> (r: Result<Vec<u8>, RasterError>)
        ensures
            svg_render(svg@, r),
    {
        let tree = match self.parse(svg) {
            Ok(t) => t,
            Err(e) => {
                return Err(e);
            },
        };
        let r = tree_to_png(&tree);
        proof {
            assert(png_outcome(tree, r));
        }
        r
    }
}

/// What rendering the text `svg` gives: refused text is a parse error and
/// nothing else is; a document whose root gives its size comes out as
/// [`png_result`] states for that size rounded up; a document sized by its
/// content comes out so for the size of some parsed tree; an I/O error never
/// comes back.
pub open spec fn svg_render(svg: Seq<char>, r: Result<Vec<u8>, RasterError>) -> bool {
    &&& (r matches Err(RasterError::Parse(_))) <==> (svg_size(svg) is Refused)
    &&& match svg_size(svg) {
        SvgSize::Refused => true,
        SvgSize::Given(w, h) => png_result(pixmap_size_for((w, h)), r),
        SvgSize::FromContent => exists|t: usvg::Tree| png_outcome(t, r),
    }
    &&& r matches Err(e) ==> !(e is Io)
}

/// Render an SVG document to PNG bytes with a one-shot context (system fonts
/// plus those under `extra_fonts_dir`, `font_family` as the default family).
pub fn svg_to_png(svg: &str, extra_fonts_dir: Option<&str>, font_family: &str) -> (r: Result<
    Vec<u8>,
    RasterError,
>)
    ensures
        svg_render(svg@, r),
{
    RasterContext::new(extra_fonts_dir, font_family).render_png(svg)
}

} // verus!

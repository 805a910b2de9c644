use vstd::prelude::*;
use crate::data::{ClipboardData, ClipboardDataView, ImageData, ImageDataView, ImageRgba};
use crate::text::utf8;

verus! {

/// The format of a clipboard item on the wire.
#[derive(PartialEq, Eq, Structural, Clone, Copy, Debug)]
pub enum ClipboardFormat {
    Text,
    Rtf,
    Html,
    ImageRgba,
    ImagePng,
    ImageSvg,
    Special,
    /// A format number this program does not know.
    Unknown(i32),
}

/// One clipboard item on the wire.
#[derive(Debug)]
pub struct Clipboard {
    /// Whether `content` is compressed.
    pub compress: bool,
    pub content: Vec<u8>,
    pub width: i32,
    pub height: i32,
    pub format: ClipboardFormat,
    pub special_name: String,
}

/// All clipboard items of one clipboard change.
#[derive(Debug)]
pub struct MultiClipboards {
    pub clipboards: Vec<Clipboard>,
}

/// A clipboard message sent to the peer: one item, for peers that only take
/// text, or all of them.
#[derive(Debug)]
pub enum ClipboardMessage {
    Clipboard(Clipboard),
    MultiClipboards(MultiClipboards),
}

/// The mathematical value of a wire item.
pub struct ClipboardView {
    pub compress: bool,
    pub content: Seq<u8>,
    pub width: i32,
    pub height: i32,
    pub format: ClipboardFormat,
    pub special_name: Seq<char>,
}

impl View for Clipboard {
    type V = ClipboardView;

    open spec fn view(&self) -> ClipboardView {
        ClipboardView {
            compress: self.compress,
            content: self.content@,
            width: self.width,
            height: self.height,
            format: self.format,
            special_name: self.special_name@,
        }
    }
}

/// The views of a list of wire items.
pub open spec fn clipboards_view(v: Seq<Clipboard>) -> Seq<ClipboardView> {
    v.map_values(|c: Clipboard| c@)
}

/// The mathematical value of a message.
pub enum ClipboardMessageView {
    Clipboard(ClipboardView),
    MultiClipboards(Seq<ClipboardView>),
}

impl View for ClipboardMessage {
    type V = ClipboardMessageView;

    open spec fn view(&self) -> ClipboardMessageView {
        match self {
            ClipboardMessage::Clipboard(c) => ClipboardMessageView::Clipboard(c@),
            ClipboardMessage::MultiClipboards(m) => ClipboardMessageView::MultiClipboards(
                clipboards_view(m.clipboards@),
            ),
        }
    }
}

impl Clone for Clipboard {
    fn clone(&self) -> (c: Clipboard)
        ensures
            c@ == self@,
    {
        let content = self.content.clone();
        assert(content@ =~= self.content@);
        Clipboard {
            compress: self.compress,
            content,
            width: self.width,
            height: self.height,
            format: self.format,
            special_name: self.special_name.clone(),
        }
    }
}

/// A copy of a list of wire items.
pub fn clone_clipboards(v: &Vec<Clipboard>) -> (c: Vec<Clipboard>)
    ensures
        clipboards_view(c@) == clipboards_view(v@),
        c@.len() == v@.len(),
        forall|k: int| 0 <= k < v@.len() ==> #[trigger] c@[k]@ == v@[k]@,
{
    let mut c: Vec<Clipboard> = Vec::new();
    let n = v.len();
    let mut i: usize = 0;
    while i < n
        invariant
            n == v@.len(),
            0 <= i <= n,
            c@.len() == i,
            forall|k: int| 0 <= k < i ==> #[trigger] c@[k]@ == v@[k]@,
        decreases n - i,
    {
        c.push(v[i].clone());
        i += 1;
    }
    assert(clipboards_view(c@) =~= clipboards_view(v@));
    c
}

/// The bytes sent for `raw` given its compressed form: the compressed form
/// when it is shorter, else `raw` itself; and whether it was compressed.
pub open spec fn spec_pick_payload(raw: Seq<u8>, compressed: Seq<u8>) -> (bool, Seq<u8>) {
    if compressed.len() < raw.len() {
        (true, compressed)
    } else {
        (false, raw)
    }
}

/// A wire item with the given payload and format, and no size or name.
pub open spec fn spec_plain_item(raw: Seq<u8>, compressed: Seq<u8>, format: ClipboardFormat) -> ClipboardView {
    ClipboardView {
        compress: spec_pick_payload(raw, compressed).0,
        content: spec_pick_payload(raw, compressed).1,
        width: 0,
        height: 0,
        format,
        special_name: Seq::empty(),
    }
}

/// The bytes of an item that are compressed before they are sent, if any:
/// the UTF-8 text of text, RTF, HTML and SVG, the pixels of an RGBA image,
/// and the bytes of a named format. PNG images are sent as they are.
pub open spec fn spec_compression_input(d: ClipboardDataView) -> Option<Seq<u8>> {
    match d {
        ClipboardDataView::Text(s) => Some(utf8(s)),
        ClipboardDataView::Rtf(s) => Some(utf8(s)),
        ClipboardDataView::Html(s) => Some(utf8(s)),
        ClipboardDataView::Image(ImageDataView::Rgba(_, _, b)) => Some(b),
        ClipboardDataView::Image(ImageDataView::Png(_)) => None,
        ClipboardDataView::Image(ImageDataView::Svg(s)) => Some(utf8(s)),
        ClipboardDataView::Special(_, b) => Some(b),
        _ => None,
    }
}

/// The wire item for a clipboard item, given the compressed form of its
/// compression input; `None` for file URLs and for items without content.
pub open spec fn spec_data_to_proto(d: ClipboardDataView, compressed: Seq<u8>) -> Option<ClipboardView> {
    match d {
        ClipboardDataView::Text(s) => Some(spec_plain_item(utf8(s), compressed, ClipboardFormat::Text)),
        ClipboardDataView::Rtf(s) => Some(spec_plain_item(utf8(s), compressed, ClipboardFormat::Rtf)),
        ClipboardDataView::Html(s) => Some(spec_plain_item(utf8(s), compressed, ClipboardFormat::Html)),
        ClipboardDataView::Image(ImageDataView::Rgba(w, h, b)) => Some(
            ClipboardView {
                width: w as i32,
                height: h as i32,
                ..spec_plain_item(b, compressed, ClipboardFormat::ImageRgba)
            },
        ),
        ClipboardDataView::Image(ImageDataView::Png(p)) => Some(
            ClipboardView {
                compress: false,
                content: p,
                width: 0,
                height: 0,
                format: ClipboardFormat::ImagePng,
                special_name: Seq::empty(),
            },
        ),
        ClipboardDataView::Image(ImageDataView::Svg(s)) => Some(
            spec_plain_item(utf8(s), compressed, ClipboardFormat::ImageSvg),
        ),
        ClipboardDataView::Special(name, b) => Some(
            ClipboardView {
                special_name: name,
                ..spec_plain_item(b, compressed, ClipboardFormat::Special)
            },
        ),
        _ => None,
    }
}

/// The bytes of a string.
fn string_bytes(s: &String) -> (b: Vec<u8>)
    ensures
        b@ == utf8(s@),
{
    vstd::slice::slice_to_vec(s.as_str().as_bytes())
}

/// The content and compression flag sent for `raw`.
fn pick_payload(raw: Vec<u8>, compressed: Vec<u8>) -> (picked: (bool, Vec<u8>))
    ensures
        (picked.0, picked.1@) == spec_pick_payload(raw@, compressed@),
{
    if compressed.len() < raw.len() {
        (true, compressed)
    } else {
        (false, raw)
    }
}

/// The bytes of an item that are compressed before it is sent, if any.
pub fn compression_input(d: &ClipboardData) -> (input: Option<Vec<u8>>)
    ensures
        input matches Some(b) ==> spec_compression_input(d@) == Some(b@),
        input is None ==> spec_compression_input(d@) is None,
{
    match d {
        ClipboardData::Text(s) => Some(string_bytes(s)),
        ClipboardData::Rtf(s) => Some(string_bytes(s)),
        ClipboardData::Html(s) => Some(string_bytes(s)),
        ClipboardData::Image(ImageData::Rgba(r)) => {
            let b = r.bytes.clone();
            assert(b@ =~= r.bytes@);
            Some(b)
        },
        ClipboardData::Image(ImageData::Png(_)) => None,
        ClipboardData::Image(ImageData::Svg(s)) => Some(string_bytes(s)),
        ClipboardData::Special(_, bytes) => {
            let b = bytes.clone();
            assert(b@ =~= bytes@);
            Some(b)
        },
        _ => None,
    }
}

/// A text, RTF or HTML item on the wire; `compressed` is the compressed form
/// of the UTF-8 text.
pub fn plain_to_proto(s: String, format: ClipboardFormat, compressed: Vec<u8>) -> (c: Clipboard)
    ensures
        c@ == spec_plain_item(utf8(s@), compressed@, format),
{
    let raw = string_bytes(&s);
    let (compress, content) = pick_payload(raw, compressed);
    Clipboard { compress, content, width: 0, height: 0, format, special_name: String::new() }
}

/// An image on the wire; `compressed` is the compressed form of the pixels
/// of an RGBA image or of the text of an SVG image, and is not used for PNG.
pub fn image_to_proto(a: ImageData, compressed: Vec<u8>) -> (c: Clipboard)
    ensures
        Some(c@) == spec_data_to_proto(ClipboardDataView::Image(a@), compressed@),
{
    match a {
        ImageData::Rgba(rgba) => {
            let width = rgba.width as i32;
            let height = rgba.height as i32;
            let (compress, content) = pick_payload(rgba.bytes, compressed);
            Clipboard {
                compress,
                content,
                width,
                height,
                format: ClipboardFormat::ImageRgba,
                special_name: String::new(),
            }
        },
        ImageData::Png(png) => Clipboard {
            compress: false,
            content: png,
            width: 0,
            height: 0,
            format: ClipboardFormat::ImagePng,
            special_name: String::new(),
        },
        ImageData::Svg(svg) => plain_to_proto(svg, ClipboardFormat::ImageSvg, compressed),
    }
}

/// A named format on the wire; `compressed` is the compressed form of `d`.
pub fn special_to_proto(d: Vec<u8>, s: String, compressed: Vec<u8>) -> (c: Clipboard)
    ensures
        Some(c@) == spec_data_to_proto(ClipboardDataView::Special(s@, d@), compressed@),
{
    let (compress, content) = pick_payload(d, compressed);
    Clipboard { compress, content, width: 0, height: 0, format: ClipboardFormat::Special, special_name: s }
}

/// The wire item for a clipboard item, if it has one; `compressed` is the
/// compressed form of its compression input.
pub fn clipboard_data_to_proto(data: ClipboardData, compressed: Vec<u8>) -> (c: Option<Clipboard>)
    ensures
        c matches Some(x) ==> spec_data_to_proto(data@, compressed@) == Some(x@),
        c is None ==> spec_data_to_proto(data@, compressed@) is None,
{
    match data {
        ClipboardData::Text(s) => Some(plain_to_proto(s, ClipboardFormat::Text, compressed)),
        ClipboardData::Rtf(s) => Some(plain_to_proto(s, ClipboardFormat::Rtf, compressed)),
        ClipboardData::Html(s) => Some(plain_to_proto(s, ClipboardFormat::Html, compressed)),
        ClipboardData::Image(a) => Some(image_to_proto(a, compressed)),
        ClipboardData::Special(s, d) => Some(special_to_proto(d, s, compressed)),
        _ => None,
    }
}

/// The items of `v` in reverse order.
pub fn reversed<T>(v: Vec<T>) -> (r: Vec<T>)
    ensures
        r@ == v@.reverse(),
{
    let ghost orig = v@;
    let mut v = v;
    let mut r: Vec<T> = Vec::new();
    while v.len() > 0
        invariant
            v@.len() <= orig.len(),
            v@ == orig.take(v@.len() as int),
            r@ == orig.skip(v@.len() as int).reverse(),
        decreases v@.len(),
    {
        let ghost len = v@.len();
        let x = v.pop().unwrap();
        proof {
            assert(x == orig[len - 1]);
            assert(v@ =~= orig.take(len - 1));
            assert(orig.skip(len - 1).reverse() =~= orig.skip(len as int).reverse().push(x));
        }
        r.push(x);
    }
    assert(orig.skip(0) =~= orig);
    r
}

/// The wire items for a list of clipboard items, item `i` compressed as
/// `compressed[i]`; items without a wire form are left out.
pub open spec fn spec_create_clipboards(data: Seq<ClipboardDataView>, compressed: Seq<Seq<u8>>) -> Seq<
    ClipboardView,
>
    decreases data.len(),
{
    if data.len() == 0 {
        Seq::empty()
    } else {
        let before = spec_create_clipboards(data.drop_last(), compressed.take(data.len() - 1));
        match spec_data_to_proto(data.last(), compressed[data.len() - 1]) {
            Some(c) => before.push(c),
            None => before,
        }
    }
}

/// The wire message content for what was read from the clipboard, given
/// `compressed[i]`, the compressed form of the compression input of item `i`
/// (any value where the item has none).
pub fn create_multi_clipboards(vec_data: Vec<ClipboardData>, compressed: Vec<Vec<u8>>) -> (m:
    MultiClipboards)
    requires
        compressed@.len() == vec_data@.len(),
    ensures
        clipboards_view(m.clipboards@) == spec_create_clipboards(
            crate::data::data_view(vec_data@),
            compressed@.map_values(|b: Vec<u8>| b@),
        ),
{
    let ghost data = crate::data::data_view(vec_data@);
    let ghost comp = compressed@.map_values(|b: Vec<u8>| b@);
    let ghost orig = vec_data@;
    let mut clipboards: Vec<Clipboard> = Vec::new();
    let mut compressed = reversed(compressed);
    let n = vec_data.len();
    assert(compressed@.len() == n);
    for d in it: vec_data
        invariant
            it.seq() == orig,
            n == orig.len(),
            data == crate::data::data_view(orig),
            compressed@.len() == n - it.index(),
            forall|k: int|
                0 <= k < n - it.index() ==> #[trigger] compressed@[k]@ == comp[n - 1 - k],
            comp.len() == n,
            clipboards_view(clipboards@) == spec_create_clipboards(
                data.take(it.index() as int),
                comp.take(it.index() as int),
            ),
    {
        let ghost idx = it.index();
        let c = compressed.pop().unwrap();
        proof {
            assert(d == orig[idx as int]);
            assert(c@ == comp[idx as int]);
            let next = data.take(idx + 1);
            assert(next.drop_last() =~= data.take(idx as int));
            assert(comp.take(idx + 1).take(idx as int) =~= comp.take(idx as int));
            assert(next.last() == d@);
        }
        let item = clipboard_data_to_proto(d, c);
        if let Some(x) = item {
            clipboards.push(x);
        }
        assert(clipboards_view(clipboards@) =~= spec_create_clipboards(
            data.take(idx + 1),
            comp.take(idx + 1),
        ));
    }
    assert(data.take(n as int) =~= data);
    assert(comp.take(n as int) =~= comp);
    MultiClipboards { clipboards }
}

/// `String::from_utf8`, keeping only whether it succeeded: the bytes decoded
/// as a string when they are valid UTF-8, `None` otherwise.
#[verifier::external_body]
fn string_from_utf8(bytes: Vec<u8>) -> (s: Option<String>)
    ensures
        s is Some <==> vstd::utf8::valid_utf8(bytes@),
        s matches Some(t) ==> t@ == vstd::utf8::decode_utf8(bytes@),
{
    String::from_utf8(bytes).ok()
}

/// The bytes of a received item: the decompressed content when it was sent
/// compressed, else the content itself.
pub open spec fn spec_received_payload(c: ClipboardView, decompressed: Seq<u8>) -> Seq<u8> {
    if c.compress {
        decompressed
    } else {
        c.content
    }
}

/// The text held by UTF-8 bytes, if they are valid UTF-8.
pub open spec fn spec_decode_text(b: Seq<u8>) -> Option<Seq<char>> {
    if vstd::utf8::valid_utf8(b) {
        Some(vstd::utf8::decode_utf8(b))
    } else {
        None
    }
}

/// The clipboard item for a received wire item, given the decompressed
/// content (used only when the item was sent compressed): `None` for text
/// that is not UTF-8 and for unknown formats; an SVG image that is not UTF-8
/// becomes an empty one.
pub open spec fn spec_from_clipboard(c: ClipboardView, decompressed: Seq<u8>) -> Option<ClipboardDataView> {
    let data = spec_received_payload(c, decompressed);
    match c.format {
        ClipboardFormat::Text => match spec_decode_text(data) {
            Some(t) => Some(ClipboardDataView::Text(t)),
            None => None,
        },
        ClipboardFormat::Rtf => match spec_decode_text(data) {
            Some(t) => Some(ClipboardDataView::Rtf(t)),
            None => None,
        },
        ClipboardFormat::Html => match spec_decode_text(data) {
            Some(t) => Some(ClipboardDataView::Html(t)),
            None => None,
        },
        ClipboardFormat::ImageRgba => Some(
            ClipboardDataView::Image(ImageDataView::Rgba(c.width as usize, c.height as usize, data)),
        ),
        ClipboardFormat::ImagePng => Some(ClipboardDataView::Image(ImageDataView::Png(data))),
        ClipboardFormat::ImageSvg => Some(
            ClipboardDataView::Image(
                ImageDataView::Svg(
                    match spec_decode_text(data) {
                        Some(t) => t,
                        None => Seq::empty(),
                    },
                ),
            ),
        ),
        ClipboardFormat::Special => Some(ClipboardDataView::Special(c.special_name, data)),
        ClipboardFormat::Unknown(_) => None,
    }
}

/// The clipboard item for a received wire item. `decompressed` is the
/// decompressed content when the item was sent compressed; it is not used
/// otherwise.
pub fn from_clipboard(clipboard: Clipboard, decompressed: Vec<u8>) -> (d: Option<ClipboardData>)
    ensures
        d matches Some(x) ==> spec_from_clipboard(clipboard@, decompressed@) == Some(x@),
        d is None ==> spec_from_clipboard(clipboard@, decompressed@) is None,
{
    let Clipboard { compress, content, width, height, format, special_name } = clipboard;
    let data = if compress {
        decompressed
    } else {
        content
    };
    match format {
        ClipboardFormat::Text => match string_from_utf8(data) {
            Some(t) => Some(ClipboardData::Text(t)),
            None => None,
        },
        ClipboardFormat::Rtf => match string_from_utf8(data) {
            Some(t) => Some(ClipboardData::Rtf(t)),
            None => None,
        },
        ClipboardFormat::Html => match string_from_utf8(data) {
            Some(t) => Some(ClipboardData::Html(t)),
            None => None,
        },
        ClipboardFormat::ImageRgba => Some(
            ClipboardData::Image(
                ImageData::Rgba(
                    ImageRgba { width: width as usize, height: height as usize, bytes: data },
                ),
            ),
        ),
        ClipboardFormat::ImagePng => Some(ClipboardData::Image(ImageData::Png(data))),
        ClipboardFormat::ImageSvg => {
            let svg = match string_from_utf8(data) {
                Some(t) => t,
                None => String::new(),
            };
            Some(ClipboardData::Image(ImageData::Svg(svg)))
        },
        ClipboardFormat::Special => Some(ClipboardData::Special(special_name, data)),
        ClipboardFormat::Unknown(_) => None,
    }
}

/// The clipboard items for received wire items, item `i` decompressed as
/// `decompressed[i]`; items without a clipboard form are left out.
pub open spec fn spec_from_clipboards(clipboards: Seq<ClipboardView>, decompressed: Seq<Seq<u8>>) -> Seq<
    ClipboardDataView,
>
    decreases clipboards.len(),
{
    if clipboards.len() == 0 {
        Seq::empty()
    } else {
        let before = spec_from_clipboards(
            clipboards.drop_last(),
            decompressed.take(clipboards.len() - 1),
        );
        match spec_from_clipboard(clipboards.last(), decompressed[clipboards.len() - 1]) {
            Some(d) => before.push(d),
            None => before,
        }
    }
}

/// The clipboard items for received wire items. `decompressed[i]` is the
/// decompressed content of item `i` when it was sent compressed (any value
/// otherwise).
pub fn from_multi_clipboards(multi_clipboards: Vec<Clipboard>, decompressed: Vec<Vec<u8>>) -> (data:
    Vec<ClipboardData>)
    requires
        decompressed@.len() == multi_clipboards@.len(),
    ensures
        crate::data::data_view(data@) == spec_from_clipboards(
            clipboards_view(multi_clipboards@),
            decompressed@.map_values(|b: Vec<u8>| b@),
        ),
{
    let ghost items = clipboards_view(multi_clipboards@);
    let ghost dec = decompressed@.map_values(|b: Vec<u8>| b@);
    let ghost orig = multi_clipboards@;
    let mut out: Vec<ClipboardData> = Vec::new();
    let mut decompressed = reversed(decompressed);
    let n = multi_clipboards.len();
    for c in it: multi_clipboards
        invariant
            it.seq() == orig,
            n == orig.len(),
            items == clipboards_view(orig),
            decompressed@.len() == n - it.index(),
            forall|k: int|
                0 <= k < n - it.index() ==> #[trigger] decompressed@[k]@ == dec[n - 1 - k],
            dec.len() == n,
            crate::data::data_view(out@) == spec_from_clipboards(
                items.take(it.index() as int),
                dec.take(it.index() as int),
            ),
    {
        let ghost idx = it.index();
        let b = decompressed.pop().unwrap();
        proof {
            assert(c == orig[idx as int]);
            assert(b@ == dec[idx as int]);
            let next = items.take(idx + 1);
            assert(next.drop_last() =~= items.take(idx as int));
            assert(dec.take(idx + 1).take(idx as int) =~= dec.take(idx as int));
            assert(next.last() == c@);
        }
        let item = from_clipboard(c, b);
        if let Some(x) = item {
            out.push(x);
        }
        assert(crate::data::data_view(out@) =~= spec_from_clipboards(
            items.take(idx + 1),
            dec.take(idx + 1),
        ));
    }
    assert(items.take(n as int) =~= items);
    assert(dec.take(n as int) =~= dec);
    out
}

/// What is sent comes back: an item turned into its wire form, and that
/// wire form turned back into a clipboard item, is the item again, provided
/// the compression round-trips (decompressing the compressed input gives the
/// input back) and an RGBA image's sides fit the wire's 32-bit sizes.
pub proof fn lemma_clipboard_item_round_trip(
    d: ClipboardDataView,
    compressed: Seq<u8>,
    decompressed: Seq<u8>,
)
    requires
        spec_data_to_proto(d, compressed) is Some,
        spec_compression_input(d) matches Some(raw) ==> decompressed == raw,
        d matches ClipboardDataView::Image(ImageDataView::Rgba(w, h, _)) ==> w <= i32::MAX && h
            <= i32::MAX,
    ensures
        spec_from_clipboard(spec_data_to_proto(d, compressed)->0, decompressed) == Some(d),
{
    broadcast use vstd::utf8::group_utf8_lib;

    match d {
        ClipboardDataView::Image(ImageDataView::Rgba(w, h, b)) => {
            assert((w as i32) as usize == w);
            assert((h as i32) as usize == h);
        },
        _ => {},
    }
}


/// Every item but file URLs and items without content has a wire form, of
/// the format of its kind; its content is the compressed form exactly when
/// that is shorter than the bytes it stands for, and those bytes otherwise.
pub proof fn lemma_wire_item_shape(d: ClipboardDataView, compressed: Seq<u8>)
    ensures
        spec_data_to_proto(d, compressed) is None <==> (d is FileUrl || d is Unsupported
            || d is Empty),
        d is Text ==> spec_data_to_proto(d, compressed)->0.format == ClipboardFormat::Text,
        d is Rtf ==> spec_data_to_proto(d, compressed)->0.format == ClipboardFormat::Rtf,
        d is Html ==> spec_data_to_proto(d, compressed)->0.format == ClipboardFormat::Html,
        d matches ClipboardDataView::Image(ImageDataView::Rgba(w, h, _)) ==> spec_data_to_proto(
            d,
            compressed,
        )->0.format == ClipboardFormat::ImageRgba && spec_data_to_proto(d, compressed)->0.width
            == w as i32 && spec_data_to_proto(d, compressed)->0.height == h as i32,
        d matches ClipboardDataView::Image(ImageDataView::Png(p)) ==> spec_data_to_proto(
            d,
            compressed,
        ) == Some(
            ClipboardView {
                compress: false,
                content: p,
                width: 0,
                height: 0,
                format: ClipboardFormat::ImagePng,
                special_name: Seq::empty(),
            },
        ),
        d matches ClipboardDataView::Image(ImageDataView::Svg(_)) ==> spec_data_to_proto(
            d,
            compressed,
        )->0.format == ClipboardFormat::ImageSvg,
        d matches ClipboardDataView::Special(name, _) ==> spec_data_to_proto(d, compressed)->0.format
            == ClipboardFormat::Special && spec_data_to_proto(d, compressed)->0.special_name == name,
        spec_compression_input(d) matches Some(raw) ==> {
            let w = spec_data_to_proto(d, compressed)->0;
            &&& w.compress <==> compressed.len() < raw.len()
            &&& w.compress ==> w.content == compressed
            &&& !w.compress ==> w.content == raw
        },
{
}

/// A received item is read from the decompressed content when it was sent
/// compressed and from its content otherwise; text formats need valid UTF-8,
/// images and named formats always come through, unknown formats never do.
pub proof fn lemma_received_item_shape(c: ClipboardView, decompressed: Seq<u8>)
    ensures
        c.format is Unknown ==> spec_from_clipboard(c, decompressed) is None,
        ({
            let payload = if c.compress {
                decompressed
            } else {
                c.content
            };
            &&& c.format == ClipboardFormat::Text ==> (spec_from_clipboard(c, decompressed) is Some
                <==> vstd::utf8::valid_utf8(payload))
            &&& c.format == ClipboardFormat::Text && vstd::utf8::valid_utf8(payload)
                ==> spec_from_clipboard(c, decompressed) == Some(
                ClipboardDataView::Text(vstd::utf8::decode_utf8(payload)),
            )
            &&& c.format == ClipboardFormat::Rtf ==> (spec_from_clipboard(c, decompressed) is Some
                <==> vstd::utf8::valid_utf8(payload))
            &&& c.format == ClipboardFormat::Html ==> (spec_from_clipboard(c, decompressed) is Some
                <==> vstd::utf8::valid_utf8(payload))
            &&& c.format == ClipboardFormat::ImagePng ==> spec_from_clipboard(c, decompressed) == Some(
                ClipboardDataView::Image(ImageDataView::Png(payload)),
            )
            &&& c.format == ClipboardFormat::ImageRgba ==> spec_from_clipboard(c, decompressed)
                == Some(
                ClipboardDataView::Image(
                    ImageDataView::Rgba(c.width as usize, c.height as usize, payload),
                ),
            )
            &&& c.format == ClipboardFormat::ImageSvg ==> spec_from_clipboard(c, decompressed) is Some
            &&& c.format == ClipboardFormat::Special ==> spec_from_clipboard(c, decompressed) == Some(
                ClipboardDataView::Special(c.special_name, payload),
            )
        }),
{
}
/// The version numbers and platform name that decide whether a peer takes
/// several clipboard items per message. The numbers are those the version
/// numbering of the peer protocol gives to `1.3.0` and `1.3.3`, and the name is
/// the one under which iOS peers report their platform.
#[derive(Debug)]
pub struct MultiClipboardGate {
    pub min_version_number: i64,
    pub min_android_version_number: i64,
    pub ios_platform_name: String,
}

/// A peer takes several clipboard items per message unless its version is
/// older than 1.3.0, its platform is unknown (empty) or iOS, or it is an
/// Android peer older than 1.3.3.
pub open spec fn spec_is_support_multi_clipboard(
    peer_version_number: i64,
    peer_platform: Seq<char>,
    gate: MultiClipboardGate,
) -> bool {
    &&& !(peer_version_number < gate.min_version_number)
    &&& !(peer_platform == Seq::<char>::empty() || peer_platform == gate.ios_platform_name@)
    &&& !(peer_platform == "Android"@ && peer_version_number < gate.min_android_version_number)
}

/// Whether a peer takes several clipboard items per message.
/// `peer_version_number` is the number of the peer's version string.
pub fn is_support_multi_clipboard(
    peer_version_number: i64,
    peer_platform: &str,
    gate: &MultiClipboardGate,
) -> (supported: bool)
    ensures
        supported == spec_is_support_multi_clipboard(peer_version_number, peer_platform@, *gate),
        peer_version_number < gate.min_version_number ==> !supported,
        peer_platform@.len() == 0 ==> !supported,
        peer_platform@ == gate.ios_platform_name@ ==> !supported,
        peer_platform@ == "Android"@ && peer_version_number < gate.min_android_version_number
            ==> !supported,
        peer_version_number >= gate.min_version_number && peer_platform@.len() > 0
            && peer_platform@ != gate.ios_platform_name@ && !(peer_platform@ == "Android"@
            && peer_version_number < gate.min_android_version_number) ==> supported,
{
    proof {
        reveal_strlit("");
        assert(""@ =~= Seq::<char>::empty());
        if peer_platform@.len() == 0 {
            assert(peer_platform@ =~= Seq::<char>::empty());
        }
    }
    if peer_version_number < gate.min_version_number {
        return false;
    }
    if crate::text::str_eq(peer_platform, "") || crate::text::str_eq(
        peer_platform,
        gate.ios_platform_name.as_str(),
    ) {
        return false;
    }
    if crate::text::str_eq("Android", peer_platform) && peer_version_number
        < gate.min_android_version_number {
        return false;
    }
    true
}

/// The index of the first text item, if there is one.
pub open spec fn spec_first_text_index(items: Seq<ClipboardView>) -> Option<int> {
    if exists|i: int| 0 <= i < items.len() && #[trigger] items[i].format == ClipboardFormat::Text {
        Some(
            choose|i: int|
                0 <= i < items.len() && #[trigger] items[i].format == ClipboardFormat::Text && forall|
                    k: int,
                | 0 <= k < i ==> items[k].format != ClipboardFormat::Text,
        )
    } else {
        None
    }
}

/// The message with the first text item alone, for peers that take one item
/// per message; `None` when there is no text item.
pub open spec fn spec_first_text_message(items: Seq<ClipboardView>) -> Option<ClipboardMessageView> {
    match spec_first_text_index(items) {
        Some(i) => Some(ClipboardMessageView::Clipboard(items[i])),
        None => None,
    }
}

/// The message with the first text item alone, if there is a text item.
pub fn first_text_message(multi_clipboards: &MultiClipboards) -> (msg: Option<ClipboardMessage>)
    ensures
        msg matches Some(m) ==> spec_first_text_message(clipboards_view(multi_clipboards.clipboards@))
            == Some(m@),
        msg is None ==> spec_first_text_message(clipboards_view(multi_clipboards.clipboards@)) is None,
        msg is None <==> forall|i: int|
            0 <= i < multi_clipboards.clipboards@.len()
                ==> #[trigger] multi_clipboards.clipboards@[i].format != ClipboardFormat::Text,
        msg matches Some(m) ==> exists|i: int|
            0 <= i < multi_clipboards.clipboards@.len()
                && #[trigger] multi_clipboards.clipboards@[i].format == ClipboardFormat::Text
                && (forall|k: int|
                0 <= k < i ==> multi_clipboards.clipboards@[k].format != ClipboardFormat::Text)
                && m@ == ClipboardMessageView::Clipboard(multi_clipboards.clipboards@[i]@),
{
    let ghost items = clipboards_view(multi_clipboards.clipboards@);
    let n = multi_clipboards.clipboards.len();
    let mut i: usize = 0;
    while i < n
        invariant
            n == multi_clipboards.clipboards@.len(),
            items == clipboards_view(multi_clipboards.clipboards@),
            0 <= i <= n,
            forall|k: int| 0 <= k < i ==> #[trigger] items[k].format != ClipboardFormat::Text,
        decreases n - i,
    {
        if multi_clipboards.clipboards[i].format == ClipboardFormat::Text {
            proof {
                assert(items[i as int].format == ClipboardFormat::Text);
                let j = choose|j: int|
                    0 <= j < items.len() && #[trigger] items[j].format == ClipboardFormat::Text
                        && forall|k: int| 0 <= k < j ==> items[k].format != ClipboardFormat::Text;
                if j < i {
                } else if j > i {
                    assert(items[i as int].format != ClipboardFormat::Text);
                }
                assert forall|k: int| 0 <= k < i implies multi_clipboards.clipboards@[k].format
                    != ClipboardFormat::Text by {
                    assert(items[k].format != ClipboardFormat::Text);
                }
                assert(multi_clipboards.clipboards@[i as int].format == ClipboardFormat::Text);
            }
            return Some(ClipboardMessage::Clipboard(multi_clipboards.clipboards[i].clone()));
        }
        i += 1;
    }
    assert forall|k: int| 0 <= k < n implies #[trigger] multi_clipboards.clipboards@[k].format
        != ClipboardFormat::Text by {
        assert(items[k].format != ClipboardFormat::Text);
    }
    None
}

/// For a peer that does not take several items per message, the message with
/// the first text item; `None` for a peer that does, or when there is no
/// text item.
pub fn get_msg_if_not_support_multi_clip(
    peer_version_number: i64,
    peer_platform: &str,
    gate: &MultiClipboardGate,
    multi_clipboards: &MultiClipboards,
) -> (msg: Option<ClipboardMessage>)
    ensures
        spec_is_support_multi_clipboard(peer_version_number, peer_platform@, *gate) ==> msg is None,
        !spec_is_support_multi_clipboard(peer_version_number, peer_platform@, *gate) ==> (match msg {
            Some(m) => spec_first_text_message(clipboards_view(multi_clipboards.clipboards@)) == Some(
                m@,
            ),
            None => spec_first_text_message(clipboards_view(multi_clipboards.clipboards@)) is None,
        }),
{
    if is_support_multi_clipboard(peer_version_number, peer_platform, gate) {
        return None;
    }
    first_text_message(multi_clipboards)
}

/// The message that carries the current clipboard to a peer: nothing when
/// there are no items; all items for a peer that takes several; else the
/// first text item, if any.
pub open spec fn spec_current_clipboard_msg(
    items: Seq<ClipboardView>,
    supported: bool,
) -> Option<ClipboardMessageView> {
    if items.len() == 0 {
        None
    } else if supported {
        Some(ClipboardMessageView::MultiClipboards(items))
    } else {
        spec_first_text_message(items)
    }
}

/// The message that carries the current clipboard items to a peer.
pub fn current_clipboard_msg(
    multi_clipboards: &MultiClipboards,
    peer_version_number: i64,
    peer_platform: &str,
    gate: &MultiClipboardGate,
) -> (msg: Option<ClipboardMessage>)
    ensures
        ({
            let expected = spec_current_clipboard_msg(
                clipboards_view(multi_clipboards.clipboards@),
                spec_is_support_multi_clipboard(peer_version_number, peer_platform@, *gate),
            );
            match msg {
                Some(m) => expected == Some(m@),
                None => expected is None,
            }
        }),
        multi_clipboards.clipboards@.len() == 0 ==> msg is None,
        multi_clipboards.clipboards@.len() > 0 && spec_is_support_multi_clipboard(
            peer_version_number,
            peer_platform@,
            *gate,
        ) ==> (msg matches Some(ClipboardMessage::MultiClipboards(m)) && m.clipboards@.len()
            == multi_clipboards.clipboards@.len() && forall|i: int|
            0 <= i < m.clipboards@.len() ==> #[trigger] m.clipboards@[i]@
                == multi_clipboards.clipboards@[i]@),
        !spec_is_support_multi_clipboard(peer_version_number, peer_platform@, *gate) ==> (
        msg matches Some(m) ==> exists|i: int|
            0 <= i < multi_clipboards.clipboards@.len()
                && #[trigger] multi_clipboards.clipboards@[i].format == ClipboardFormat::Text
                && (forall|k: int|
                0 <= k < i ==> multi_clipboards.clipboards@[k].format != ClipboardFormat::Text)
                && m@ == ClipboardMessageView::Clipboard(multi_clipboards.clipboards@[i]@)),
        !spec_is_support_multi_clipboard(peer_version_number, peer_platform@, *gate) ==> (msg is None
            <==> forall|i: int|
            0 <= i < multi_clipboards.clipboards@.len()
                ==> #[trigger] multi_clipboards.clipboards@[i].format != ClipboardFormat::Text),
{
    if multi_clipboards.clipboards.len() == 0 {
        return None;
    }
    if is_support_multi_clipboard(peer_version_number, peer_platform, gate) {
        let clipboards = clone_clipboards(&multi_clipboards.clipboards);
        Some(ClipboardMessage::MultiClipboards(MultiClipboards { clipboards }))
    } else {
        first_text_message(multi_clipboards)
    }
}

/// A peer that takes several items per message is sent every current item,
/// in order, in one message.
pub proof fn lemma_multi_clipboard_peer_gets_every_item(items: Seq<ClipboardView>)
    requires
        items.len() > 0,
    ensures
        spec_current_clipboard_msg(items, true) == Some(ClipboardMessageView::MultiClipboards(items)),
{
}

/// A peer that takes one item per message is sent the first text item and
/// nothing else; it is sent nothing when no item is text.
pub proof fn lemma_single_item_peer_gets_first_text(items: Seq<ClipboardView>)
    ensures
        spec_current_clipboard_msg(items, false) is None <==> forall|i: int|
            0 <= i < items.len() ==> #[trigger] items[i].format != ClipboardFormat::Text,
        spec_current_clipboard_msg(items, false) matches Some(m) ==> exists|i: int|
            0 <= i < items.len() && #[trigger] items[i].format == ClipboardFormat::Text && (forall|
                k: int,
            | 0 <= k < i ==> items[k].format != ClipboardFormat::Text) && m
                == ClipboardMessageView::Clipboard(items[i]),
{
    if exists|i: int| 0 <= i < items.len() && #[trigger] items[i].format == ClipboardFormat::Text {
        let w = choose|i: int|
            0 <= i < items.len() && #[trigger] items[i].format == ClipboardFormat::Text;
        lemma_first_text_index_exists(items, w);
    }
}

/// Where some item is text, the first text item has an index.
proof fn lemma_first_text_index_exists(items: Seq<ClipboardView>, w: int)
    requires
        0 <= w < items.len(),
        items[w].format == ClipboardFormat::Text,
    ensures
        exists|i: int|
            0 <= i < items.len() && #[trigger] items[i].format == ClipboardFormat::Text && forall|
                k: int,
            | 0 <= k < i ==> items[k].format != ClipboardFormat::Text,
    decreases w,
{
    if exists|k: int| 0 <= k < w && #[trigger] items[k].format == ClipboardFormat::Text {
        let k = choose|k: int| 0 <= k < w && #[trigger] items[k].format == ClipboardFormat::Text;
        lemma_first_text_index_exists(items, k);
    } else {
        assert(forall|k: int| 0 <= k < w ==> items[k].format != ClipboardFormat::Text);
    }
}

/// A received item with its content decompressed when it was sent
/// compressed; the compression flag is left as it was.
pub open spec fn spec_with_received_content(c: ClipboardView, decompressed: Seq<u8>) -> ClipboardView {
    if c.compress {
        ClipboardView { content: decompressed, ..c }
    } else {
        c
    }
}

/// An item prepared for sending: its content replaced by the compressed form
/// when that is shorter, with the compression flag saying which was kept.
pub open spec fn spec_compressed_for_sending(c: ClipboardView, compressed: Seq<u8>) -> ClipboardView {
    if compressed.len() < c.content.len() {
        ClipboardView { compress: true, content: compressed, ..c }
    } else {
        ClipboardView { compress: false, ..c }
    }
}

/// A received item with its content decompressed when it was sent
/// compressed (`decompressed` is not used otherwise).
pub fn with_received_content(c: Clipboard, decompressed: Vec<u8>) -> (r: Clipboard)
    ensures
        r@ == spec_with_received_content(c@, decompressed@),
{
    let mut c = c;
    if c.compress {
        c.content = decompressed;
    }
    c
}

/// An item prepared for sending, given the compressed form of its content.
pub fn compressed_for_sending(c: Clipboard, compressed: Vec<u8>) -> (r: Clipboard)
    ensures
        r@ == spec_compressed_for_sending(c@, compressed@),
{
    let mut c = c;
    let compress = compressed.len() < c.content.len();
    if compress {
        c.content = compressed;
    }
    c.compress = compress;
    c
}

/// The batch handed to the platform clipboard for one received item.
pub fn received_clipboard_batch(cb: Clipboard, decompressed: Vec<u8>) -> (m: MultiClipboards)
    ensures
        clipboards_view(m.clipboards@) == seq![spec_with_received_content(cb@, decompressed@)],
{
    let c = with_received_content(cb, decompressed);
    let clipboards = vec![c];
    assert(clipboards_view(clipboards@) =~= seq![spec_with_received_content(cb@, decompressed@)]);
    MultiClipboards { clipboards }
}

/// The batch handed to the platform clipboard for received items, item `i`
/// decompressed as `decompressed[i]` when it was sent compressed.
pub fn received_clipboards_batch(mcb: MultiClipboards, decompressed: Vec<Vec<u8>>) -> (m:
    MultiClipboards)
    requires
        decompressed@.len() == mcb.clipboards@.len(),
    ensures
        clipboards_view(m.clipboards@) == Seq::new(
            mcb.clipboards@.len(),
            |i: int| spec_with_received_content(mcb.clipboards@[i]@, decompressed@[i]@),
        ),
{
    let ghost orig = mcb.clipboards@;
    let ghost dec = decompressed@;
    let mut decompressed = reversed(decompressed);
    let mut out: Vec<Clipboard> = Vec::new();
    let n = mcb.clipboards.len();
    for c in it: mcb.clipboards
        invariant
            it.seq() == orig,
            n == orig.len(),
            dec.len() == n,
            decompressed@.len() == n - it.index(),
            forall|k: int| 0 <= k < n - it.index() ==> #[trigger] decompressed@[k] == dec[n - 1 - k],
            out@.len() == it.index(),
            forall|k: int|
                0 <= k < it.index() ==> #[trigger] out@[k]@ == spec_with_received_content(
                    orig[k]@,
                    dec[k]@,
                ),
    {
        let ghost idx = it.index();
        let b = decompressed.pop().unwrap();
        assert(c == orig[idx as int]);
        assert(b == dec[idx as int]);
        out.push(with_received_content(c, b));
    }
    let m = MultiClipboards { clipboards: out };
    assert(clipboards_view(m.clipboards@) =~= Seq::new(
        orig.len(),
        |i: int| spec_with_received_content(orig[i]@, dec[i]@),
    ));
    m
}

/// The message that sends the platform clipboard items, item `i` replaced by
/// its compressed form `compressed[i]` when that is shorter.
pub fn compressed_clipboards_msg(mcb: MultiClipboards, compressed: Vec<Vec<u8>>) -> (msg:
    ClipboardMessage)
    requires
        compressed@.len() == mcb.clipboards@.len(),
    ensures
        msg@ == ClipboardMessageView::MultiClipboards(
            Seq::new(
                mcb.clipboards@.len(),
                |i: int| spec_compressed_for_sending(mcb.clipboards@[i]@, compressed@[i]@),
            ),
        ),
{
    let ghost orig = mcb.clipboards@;
    let ghost comp = compressed@;
    let mut compressed = reversed(compressed);
    let mut out: Vec<Clipboard> = Vec::new();
    let n = mcb.clipboards.len();
    for c in it: mcb.clipboards
        invariant
            it.seq() == orig,
            n == orig.len(),
            comp.len() == n,
            compressed@.len() == n - it.index(),
            forall|k: int| 0 <= k < n - it.index() ==> #[trigger] compressed@[k] == comp[n - 1 - k],
            out@.len() == it.index(),
            forall|k: int|
                0 <= k < it.index() ==> #[trigger] out@[k]@ == spec_compressed_for_sending(
                    orig[k]@,
                    comp[k]@,
                ),
    {
        let ghost idx = it.index();
        let b = compressed.pop().unwrap();
        assert(c == orig[idx as int]);
        assert(b == comp[idx as int]);
        out.push(compressed_for_sending(c, b));
    }
    let msg = ClipboardMessage::MultiClipboards(MultiClipboards { clipboards: out });
    assert(clipboards_view(out@) =~= Seq::new(
        orig.len(),
        |i: int| spec_compressed_for_sending(orig[i]@, comp[i]@),
    ));
    msg
}


/// An item prepared for sending and received again, its compressed content
/// decompressed to what was compressed, has its content, sizes, format and
/// name back; the content sent is never longer than the item's, and it is
/// marked compressed exactly when the compressed form was shorter.
pub proof fn lemma_sent_item_comes_back(c: ClipboardView, compressed: Seq<u8>)
    ensures
        ({
            let sent = spec_compressed_for_sending(c, compressed);
            let back = spec_with_received_content(sent, c.content);
            &&& sent.compress <==> compressed.len() < c.content.len()
            &&& sent.content.len() <= c.content.len()
            &&& back.content == c.content
            &&& back.width == c.width && back.height == c.height
            &&& back.format == c.format && back.special_name == c.special_name
        }),
{
}
/// The item has a wire form.
pub open spec fn has_wire_form(d: ClipboardDataView) -> bool {
    match d {
        ClipboardDataView::Text(_) | ClipboardDataView::Rtf(_) | ClipboardDataView::Html(_)
        | ClipboardDataView::Image(_) | ClipboardDataView::Special(_, _) => true,
        _ => false,
    }
}

/// The compression inputs of the items that have a wire form, in order
/// (empty for a PNG image, which is not compressed): what decompressing the
/// received items gives back when compression round-trips.
pub open spec fn spec_sent_inputs(data: Seq<ClipboardDataView>) -> Seq<Seq<u8>>
    decreases data.len(),
{
    if data.len() == 0 {
        Seq::empty()
    } else {
        let before = spec_sent_inputs(data.drop_last());
        if has_wire_form(data.last()) {
            before.push(
                match spec_compression_input(data.last()) {
                    Some(b) => b,
                    None => Seq::empty(),
                },
            )
        } else {
            before
        }
    }
}

proof fn lemma_created_len(data: Seq<ClipboardDataView>, compressed: Seq<Seq<u8>>)
    requires
        compressed.len() == data.len(),
    ensures
        spec_create_clipboards(data, compressed).len() == spec_sent_inputs(data).len(),
    decreases data.len(),
{
    if data.len() > 0 {
        lemma_created_len(data.drop_last(), compressed.take(data.len() - 1));
    }
}

/// What is sent comes back, for a whole clipboard: the wire items made from
/// the clipboard items, turned back into clipboard items, are the items that
/// have a wire form, in order, provided the compression round-trips (each
/// received item decompresses to the input it was compressed from) and every
/// RGBA image's sides fit the wire's 32-bit sizes.
pub proof fn lemma_multi_clipboards_round_trip(data: Seq<ClipboardDataView>, compressed: Seq<Seq<u8>>)
    requires
        compressed.len() == data.len(),
        forall|i: int|
            0 <= i < data.len() ==> (#[trigger] data[i] matches ClipboardDataView::Image(
                ImageDataView::Rgba(w, h, _),
            ) ==> w <= i32::MAX && h <= i32::MAX),
    ensures
        spec_from_clipboards(spec_create_clipboards(data, compressed), spec_sent_inputs(data))
            == data.filter(|d: ClipboardDataView| has_wire_form(d)),
    decreases data.len(),
{
    let pred = |d: ClipboardDataView| has_wire_form(d);
    if data.len() == 0 {
        reveal(Seq::filter);
        assert(data.filter(pred) =~= Seq::<ClipboardDataView>::empty());
    } else {
        let n = data.len();
        let init = data.drop_last();
        let comp_init = compressed.take(n - 1);
        assert forall|i: int| 0 <= i < init.len() implies (#[trigger] init[i] matches ClipboardDataView::Image(
            ImageDataView::Rgba(w, h, _),
        ) ==> w <= i32::MAX && h <= i32::MAX) by {
            assert(init[i] == data[i]);
        }
        lemma_multi_clipboards_round_trip(init, comp_init);
        lemma_created_len(init, comp_init);
        crate::data::lemma_filter_push(init, pred, data.last());
        assert(init.push(data.last()) =~= data);
        let created = spec_create_clipboards(data, compressed);
        let sent = spec_sent_inputs(data);
        let d = data.last();
        if has_wire_form(d) {
            let c = spec_data_to_proto(d, compressed[n - 1])->0;
            let raw = match spec_compression_input(d) {
                Some(b) => b,
                None => Seq::empty(),
            };
            assert(data[n - 1] == d);
            lemma_clipboard_item_round_trip(d, compressed[n - 1], raw);
            assert(created.drop_last() =~= spec_create_clipboards(init, comp_init));
            assert(sent.take(created.len() - 1) =~= spec_sent_inputs(init));
        } else {
            assert(created =~= spec_create_clipboards(init, comp_init));
        }
    }
}

} // verus!

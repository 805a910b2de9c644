use vstd::prelude::*;
use crate::format_names::{CLIPBOARD_FORMAT_EXCEL_XML_SPREADSHEET, RUSTDESK_CLIPBOARD_OWNER_FORMAT};
use crate::side::{spec_is_owner, spec_owner_data, ClipboardSide};
use crate::text::str_eq;

verus! {

/// An RGBA bitmap: `width` by `height` pixels, four bytes each.
#[derive(Debug)]
pub struct ImageRgba {
    pub width: usize,
    pub height: usize,
    pub bytes: Vec<u8>,
}

/// Image content of the clipboard.
#[derive(Debug)]
pub enum ImageData {
    Rgba(ImageRgba),
    Png(Vec<u8>),
    Svg(String),
}

/// One item of clipboard content, in one format.
#[derive(Debug)]
pub enum ClipboardData {
    Text(String),
    Html(String),
    Rtf(String),
    Image(ImageData),
    FileUrl(Vec<String>),
    /// Content of a format registered under a name, with its raw bytes.
    Special(String, Vec<u8>),
    Unsupported,
    /// A requested format that the clipboard did not hold.
    Empty,
}

/// The formats a clipboard read can ask for.
#[derive(Clone, Copy, Debug)]
pub enum ClipboardFormat {
    Text,
    Html,
    Rtf,
    ImageRgba,
    ImagePng,
    ImageSvg,
    FileUrl,
    Special(&'static str),
}

/// The mathematical value of an image.
pub enum ImageDataView {
    Rgba(usize, usize, Seq<u8>),
    Png(Seq<u8>),
    Svg(Seq<char>),
}

/// The mathematical value of a clipboard item.
pub enum ClipboardDataView {
    Text(Seq<char>),
    Html(Seq<char>),
    Rtf(Seq<char>),
    Image(ImageDataView),
    FileUrl(Seq<Seq<char>>),
    Special(Seq<char>, Seq<u8>),
    Unsupported,
    Empty,
}

impl View for ImageData {
    type V = ImageDataView;

    open spec fn view(&self) -> ImageDataView {
        match self {
            ImageData::Rgba(r) => ImageDataView::Rgba(r.width, r.height, r.bytes@),
            ImageData::Png(p) => ImageDataView::Png(p@),
            ImageData::Svg(s) => ImageDataView::Svg(s@),
        }
    }
}

/// The views of a list of strings.
pub open spec fn strings_view(v: Seq<String>) -> Seq<Seq<char>> {
    v.map_values(|s: String| s@)
}

impl View for ClipboardData {
    type V = ClipboardDataView;

    open spec fn view(&self) -> ClipboardDataView {
        match self {
            ClipboardData::Text(s) => ClipboardDataView::Text(s@),
            ClipboardData::Html(s) => ClipboardDataView::Html(s@),
            ClipboardData::Rtf(s) => ClipboardDataView::Rtf(s@),
            ClipboardData::Image(i) => ClipboardDataView::Image(i@),
            ClipboardData::FileUrl(u) => ClipboardDataView::FileUrl(strings_view(u@)),
            ClipboardData::Special(n, b) => ClipboardDataView::Special(n@, b@),
            ClipboardData::Unsupported => ClipboardDataView::Unsupported,
            ClipboardData::Empty => ClipboardDataView::Empty,
        }
    }
}

/// The views of a list of clipboard items.
pub open spec fn data_view(v: Seq<ClipboardData>) -> Seq<ClipboardDataView> {
    v.map_values(|d: ClipboardData| d@)
}

/// The formats read from the clipboard for synchronisation: text, HTML, RTF,
/// the three image formats, file URLs when file copy and paste is enabled,
/// Excel's XML spreadsheet, and the owner marker.
pub open spec fn spec_supported_formats(with_file_urls: bool) -> Seq<ClipboardFormat> {
    let head = seq![
        ClipboardFormat::Text,
        ClipboardFormat::Html,
        ClipboardFormat::Rtf,
        ClipboardFormat::ImageRgba,
        ClipboardFormat::ImagePng,
        ClipboardFormat::ImageSvg,
    ];
    let tail = seq![
        ClipboardFormat::Special(CLIPBOARD_FORMAT_EXCEL_XML_SPREADSHEET),
        ClipboardFormat::Special(RUSTDESK_CLIPBOARD_OWNER_FORMAT),
    ];
    if with_file_urls {
        head + seq![ClipboardFormat::FileUrl] + tail
    } else {
        head + tail
    }
}

/// The list of formats read from the clipboard for synchronisation.
pub fn supported_formats(with_file_urls: bool) -> (formats: Vec<ClipboardFormat>)
    ensures
        formats@ == spec_supported_formats(with_file_urls),
{
    let mut formats = vec![
        ClipboardFormat::Text,
        ClipboardFormat::Html,
        ClipboardFormat::Rtf,
        ClipboardFormat::ImageRgba,
        ClipboardFormat::ImagePng,
        ClipboardFormat::ImageSvg,
    ];
    if with_file_urls {
        formats.push(ClipboardFormat::FileUrl);
    }
    formats.push(ClipboardFormat::Special(CLIPBOARD_FORMAT_EXCEL_XML_SPREADSHEET));
    formats.push(ClipboardFormat::Special(RUSTDESK_CLIPBOARD_OWNER_FORMAT));
    assert(formats@ =~= spec_supported_formats(with_file_urls));
    formats
}

/// The item is not a missing format.
pub open spec fn is_present(d: ClipboardData) -> bool {
    !(d is Empty)
}

/// The item is the owner marker.
pub open spec fn is_owner_marker(d: ClipboardData) -> bool {
    d matches ClipboardData::Special(name, _) && name@ == RUSTDESK_CLIPBOARD_OWNER_FORMAT@
}

/// The item is an owner marker that records this program as the writer.
pub open spec fn is_owned_marker(d: ClipboardData) -> bool {
    d matches ClipboardData::Special(name, bytes) && name@ == RUSTDESK_CLIPBOARD_OWNER_FORMAT@
        && spec_is_owner(bytes@)
}

/// The item is sent to the other side: neither the owner marker nor empty text.
pub open spec fn is_synced_item(d: ClipboardData) -> bool {
    match d {
        ClipboardData::Special(name, _) => name@ != RUSTDESK_CLIPBOARD_OWNER_FORMAT@,
        ClipboardData::Text(t) => t@.len() > 0,
        _ => true,
    }
}

/// What the clipboard read passes on: nothing when nothing was read or (unless
/// forced) when the content carries an owner marker, that is when this
/// program wrote it; else the content without the owner marker and without
/// empty text.
pub open spec fn spec_get_formats_filter(data: Seq<ClipboardData>, force: bool) -> Seq<
    ClipboardData,
> {
    if data.len() == 0 {
        data
    } else if !force && exists|i: int| 0 <= i < data.len() && #[trigger] is_owned_marker(data[i]) {
        Seq::empty()
    } else {
        data.filter(|d: ClipboardData| is_synced_item(d))
    }
}

/// Filtering a sequence extended by one item.
pub proof fn lemma_filter_push<A>(s: Seq<A>, pred: spec_fn(A) -> bool, e: A)
    ensures
        pred(e) ==> s.push(e).filter(pred) == s.filter(pred).push(e),
        !pred(e) ==> s.push(e).filter(pred) == s.filter(pred),
{
    reveal(Seq::filter);
    assert(s.push(e).drop_last() =~= s);
}

/// Filtering a sequence whose items all pass gives the sequence back.
pub proof fn lemma_filter_keeps_all<A>(s: Seq<A>, pred: spec_fn(A) -> bool)
    requires
        forall|i: int| 0 <= i < s.len() ==> pred(#[trigger] s[i]),
    ensures
        s.filter(pred) == s,
    decreases s.len(),
{
    reveal(Seq::filter);
    if s.len() > 0 {
        let init = s.drop_last();
        assert forall|i: int| 0 <= i < init.len() implies pred(#[trigger] init[i]) by {
            assert(init[i] == s[i]);
        }
        lemma_filter_keeps_all(init, pred);
        assert(pred(s[s.len() - 1]));
        assert(init.push(s.last()) =~= s);
    } else {
        assert(s.filter(pred) =~= s);
    }
}

/// Whether the item is the owner marker.
pub fn check_owner_marker(d: &ClipboardData) -> (marker: bool)
    ensures
        marker == is_owner_marker(*d),
{
    match d {
        ClipboardData::Special(name, _) => str_eq(name.as_str(), RUSTDESK_CLIPBOARD_OWNER_FORMAT),
        _ => false,
    }
}

/// The content read from the clipboard without the formats it did not hold.
pub fn remove_missing_formats(data: Vec<ClipboardData>) -> (present: Vec<ClipboardData>)
    ensures
        present@ == data@.filter(|d: ClipboardData| is_present(d)),
        forall|i: int|
            0 <= i < present@.len() ==> !(#[trigger] present@[i] is Empty) && data@.contains(
                present@[i],
            ),
        forall|i: int| 0 <= i < data@.len() && !(#[trigger] data@[i] is Empty) ==> present@.contains(
            data@[i],
        ),
        (forall|i: int| 0 <= i < data@.len() ==> !(#[trigger] data@[i] is Empty)) ==> present@
            == data@,
{
    let ghost pred = |d: ClipboardData| is_present(d);
    proof {
        assert forall|i: int| 0 <= i < data@.filter(pred).len() implies !(
        #[trigger] data@.filter(pred)[i] is Empty) && data@.contains(data@.filter(pred)[i]) by {
            data@.lemma_filter_pred(pred, i);
            assert(data@.filter(pred).contains(data@.filter(pred)[i]));
            data@.lemma_filter_contains_rev(pred, data@.filter(pred)[i]);
        }
        assert forall|i: int| 0 <= i < data@.len() && !(#[trigger] data@[i] is Empty) implies data@.filter(
            pred,
        ).contains(data@[i]) by {
            assert(pred(data@[i]));
            data@.lemma_filter_contains(pred, i);
        }
        if forall|i: int| 0 <= i < data@.len() ==> !(#[trigger] data@[i] is Empty) {
            lemma_filter_keeps_all(data@, pred);
        }
    }
    let ghost orig = data@;
    let mut present: Vec<ClipboardData> = Vec::new();
    for d in it: data
        invariant
            pred == (|d: ClipboardData| is_present(d)),
            it.seq() == orig,
            present@ == orig.take(it.index() as int).filter(pred),
    {
        let ghost idx = it.index();
        assert(d == orig[idx as int]);
        proof {
            lemma_filter_push(orig.take(idx as int), pred, d);
            assert(orig.take(idx as int).push(d) =~= orig.take(idx + 1));
        }
        let keep = match &d {
            ClipboardData::Empty => false,
            _ => true,
        };
        assert(keep == pred(d));
        if keep {
            present.push(d);
        }
    }
    assert(orig.take(orig.len() as int) =~= orig);
    present
}

/// Whether the item is an owner marker recording this program as the writer.
pub fn check_owned_marker(side: &ClipboardSide, d: &ClipboardData) -> (owned: bool)
    ensures
        owned == is_owned_marker(*d),
        owned == (*d matches ClipboardData::Special(name, bytes) && name@
            == RUSTDESK_CLIPBOARD_OWNER_FORMAT@ && bytes@.len() > 0 && bytes@[0] & 3u8 != 0u8),
{
    match d {
        ClipboardData::Special(name, bytes) => str_eq(name.as_str(), RUSTDESK_CLIPBOARD_OWNER_FORMAT)
            && side.is_owner(bytes.as_slice()),
        _ => false,
    }
}

/// Whether the item is passed on to the other side.
pub fn check_synced_item(d: &ClipboardData) -> (synced: bool)
    ensures
        synced == is_synced_item(*d),
        synced == !((*d matches ClipboardData::Special(name, _) && name@
            == RUSTDESK_CLIPBOARD_OWNER_FORMAT@) || (*d matches ClipboardData::Text(t) && t@.len()
            == 0)),
{
    match d {
        ClipboardData::Special(name, _) => !str_eq(name.as_str(), RUSTDESK_CLIPBOARD_OWNER_FORMAT),
        ClipboardData::Text(t) => !t.as_str().is_empty(),
        _ => true,
    }
}

/// Filters what was read from the clipboard before it is sent: content this
/// program wrote itself is dropped unless `force` is set, and the owner
/// marker and empty text are never sent.
pub fn get_formats_filter(data: Vec<ClipboardData>, side: ClipboardSide, force: bool) -> (out: Vec<
    ClipboardData,
>)
    ensures
        out@ == spec_get_formats_filter(data@, force),
        forall|i: int|
            0 <= i < out@.len() ==> data@.contains(#[trigger] out@[i]) && !(out@[i] matches ClipboardData::Special(
                name,
                _,
            ) && name@ == RUSTDESK_CLIPBOARD_OWNER_FORMAT@) && !(out@[i] matches ClipboardData::Text(
                t,
            ) && t@.len() == 0),
        (force || forall|k: int|
            0 <= k < data@.len() ==> !(#[trigger] data@[k] matches ClipboardData::Special(name, bytes)
                && name@ == RUSTDESK_CLIPBOARD_OWNER_FORMAT@ && bytes@.len() > 0 && bytes@[0] & 3u8
                != 0u8)) ==> forall|i: int|
            0 <= i < data@.len() && !(#[trigger] data@[i] matches ClipboardData::Special(name, _)
                && name@ == RUSTDESK_CLIPBOARD_OWNER_FORMAT@) && !(data@[i] matches ClipboardData::Text(
                t,
            ) && t@.len() == 0) ==> out@.contains(data@[i]),
{
    proof {
        lemma_read_output_is_clean_content(data@, force);
        if force || forall|k: int|
            0 <= k < data@.len() ==> !(#[trigger] data@[k] matches ClipboardData::Special(
                name,
                bytes,
            ) && name@ == RUSTDESK_CLIPBOARD_OWNER_FORMAT@ && bytes@.len() > 0 && bytes@[0] & 3u8
                != 0u8) {
            assert forall|i: int|
                0 <= i < data@.len() && !(#[trigger] data@[i] matches ClipboardData::Special(name, _)
                    && name@ == RUSTDESK_CLIPBOARD_OWNER_FORMAT@) && !(data@[i] matches ClipboardData::Text(
                    t,
                ) && t@.len() == 0) implies spec_get_formats_filter(data@, force).contains(data@[i]) by {
                lemma_read_keeps_every_content_item(data@, force, i);
            }
        }
    }
    if data.len() == 0 {
        return data;
    }
    if !force {
        let n = data.len();
        let mut i: usize = 0;
        while i < n
            invariant
                n == data@.len(),
                n > 0,
                !force,
                0 <= i <= n,
                forall|k: int| 0 <= k < i ==> !#[trigger] is_owned_marker(data@[k]),
            decreases n - i,
        {
            if check_owned_marker(&side, &data[i]) {
                assert(is_owned_marker(data@[i as int]));
                let none: Vec<ClipboardData> = Vec::new();
                assert(none@ =~= spec_get_formats_filter(data@, force));
                return none;
            }
            i += 1;
        }
    }
    let ghost pred = |d: ClipboardData| is_synced_item(d);
    let ghost orig = data@;
    let mut out: Vec<ClipboardData> = Vec::new();
    for d in it: data
        invariant
            pred == (|d: ClipboardData| is_synced_item(d)),
            it.seq() == orig,
            out@ == orig.take(it.index() as int).filter(pred),
    {
        let ghost idx = it.index();
        assert(d == orig[idx as int]);
        proof {
            lemma_filter_push(orig.take(idx as int), pred, d);
            assert(orig.take(idx as int).push(d) =~= orig.take(idx + 1));
        }
        if check_synced_item(&d) {
            out.push(d);
        }
    }
    assert(orig.take(orig.len() as int) =~= orig);
    out
}

/// The item is a list of file URLs.
pub open spec fn is_file_url(d: ClipboardData) -> bool {
    d is FileUrl
}

/// What a clipboard read hands on after the guards: nothing when the
/// clipboard also holds native content that must be preserved, or, with file
/// copy and paste enabled, when it holds file URLs (they go through their own
/// channel); else the content unchanged.
pub open spec fn spec_guard_read_content(
    data: Seq<ClipboardData>,
    external_opaque: bool,
    with_file_urls: bool,
) -> Seq<ClipboardData> {
    if data.len() > 0 && external_opaque {
        Seq::empty()
    } else if with_file_urls && exists|i: int| 0 <= i < data.len() && #[trigger] is_file_url(data[i]) {
        Seq::empty()
    } else {
        data
    }
}

/// Applies the guards of a clipboard read to the filtered content.
/// `external_opaque` tells whether the clipboard holds native formats that
/// must be preserved; it is consulted only when there is content.
pub fn guard_read_content(
    data: Vec<ClipboardData>,
    external_opaque: bool,
    with_file_urls: bool,
) -> (out: Vec<ClipboardData>)
    ensures
        out@ == spec_guard_read_content(data@, external_opaque, with_file_urls),
        data@.len() > 0 && external_opaque ==> out@.len() == 0,
        with_file_urls && (exists|i: int|
            0 <= i < data@.len() && #[trigger] data@[i] matches ClipboardData::FileUrl(_))
            ==> out@.len() == 0,
        !external_opaque && !(with_file_urls && exists|i: int|
            0 <= i < data@.len() && #[trigger] data@[i] matches ClipboardData::FileUrl(_))
            ==> out@ == data@,
{
    proof {
        lemma_guard_read_content(data@, external_opaque, with_file_urls);
    }
    if data.len() != 0 && external_opaque {
        return Vec::new();
    }
    if with_file_urls {
        let n = data.len();
        let mut i: usize = 0;
        while i < n
            invariant
                n == data@.len(),
                !(n > 0 && external_opaque),
                with_file_urls,
                0 <= i <= n,
                forall|k: int| 0 <= k < i ==> !#[trigger] is_file_url(data@[k]),
            decreases n - i,
        {
            if let ClipboardData::FileUrl(_) = &data[i] {
                assert(is_file_url(data@[i as int]));
                let none: Vec<ClipboardData> = Vec::new();
                assert(none@ =~= spec_guard_read_content(data@, external_opaque, with_file_urls));
                return none;
            }
            i += 1;
        }
    }
    data
}

/// The URLs of the first file-URL item, if there is one.
pub open spec fn spec_first_file_urls(data: Seq<ClipboardData>) -> Option<Vec<String>>
    decreases data.len(),
{
    if data.len() == 0 {
        None
    } else {
        match data[0] {
            ClipboardData::FileUrl(urls) => Some(urls),
            _ => spec_first_file_urls(data.drop_first()),
        }
    }
}

/// The first file-URL item is found: there is none exactly when no item is
/// a file-URL item, and otherwise it is the item of the lowest index.
pub proof fn lemma_first_file_urls(data: Seq<ClipboardData>)
    ensures
        spec_first_file_urls(data) is None <==> forall|i: int|
            0 <= i < data.len() ==> !(#[trigger] data[i] is FileUrl),
        spec_first_file_urls(data) matches Some(u) ==> exists|i: int|
            0 <= i < data.len() && #[trigger] data[i] == ClipboardData::FileUrl(u) && forall|k: int|
                0 <= k < i ==> !(data[k] is FileUrl),
    decreases data.len(),
{
    if data.len() > 0 {
        let rest = data.drop_first();
        lemma_first_file_urls(rest);
        if data[0] is FileUrl {
            assert(data[0] == ClipboardData::FileUrl(data[0]->FileUrl_0));
        } else {
            assert forall|i: int| 0 <= i < rest.len() implies #[trigger] rest[i] == data[i + 1] by {}
            if spec_first_file_urls(rest) is None {
                assert forall|i: int| 0 <= i < data.len() implies !(#[trigger] data[i] is FileUrl) by {
                    if i > 0 {
                        assert(data[i] == rest[i - 1]);
                    }
                }
            } else {
                let u = spec_first_file_urls(rest)->0;
                let j = choose|j: int|
                    0 <= j < rest.len() && #[trigger] rest[j] == ClipboardData::FileUrl(u)
                        && forall|k: int| 0 <= k < j ==> !(rest[k] is FileUrl);
                assert(data[j + 1] == ClipboardData::FileUrl(u));
                assert forall|k: int| 0 <= k < j + 1 implies !(data[k] is FileUrl) by {
                    if k > 0 {
                        assert(data[k] == rest[k - 1]);
                    }
                }
                assert(data[1] == rest[0]);
            }
        }
    }
}

/// The URLs of the first file-URL item of what was read, if there is one.
pub fn first_file_urls(data: Vec<ClipboardData>) -> (urls: Option<Vec<String>>)
    ensures
        urls == spec_first_file_urls(data@),
        urls is None <==> forall|i: int| 0 <= i < data@.len() ==> !(#[trigger] data@[i] is FileUrl),
        urls matches Some(u) ==> exists|i: int|
            0 <= i < data@.len() && #[trigger] data@[i] == ClipboardData::FileUrl(u) && forall|k: int|
                0 <= k < i ==> !(data@[k] is FileUrl),
{
    proof {
        lemma_first_file_urls(data@);
    }
    let ghost orig = data@;
    assert(orig.skip(0) =~= orig);
    for d in it: data
        invariant
            it.seq() == orig,
            spec_first_file_urls(orig) == spec_first_file_urls(orig.skip(it.index() as int)),
    {
        let ghost idx = it.index();
        assert(d == orig[idx as int]);
        assert(orig.skip(idx as int).drop_first() =~= orig.skip(idx + 1));
        if let ClipboardData::FileUrl(urls) = d {
            proof {
                lemma_first_file_urls(orig);
            }
            return Some(urls);
        }
    }
    None
}

/// `data` followed by the owner marker of `side`: what a remote update writes
/// to the local clipboard.
pub fn with_owner_marker(data: Vec<ClipboardData>, side: ClipboardSide) -> (out: Vec<ClipboardData>)
    ensures
        out@.len() == data@.len() + 1,
        out@.take(data@.len() as int) == data@,
        out@.last()@ == ClipboardDataView::Special(
            RUSTDESK_CLIPBOARD_OWNER_FORMAT@,
            spec_owner_data(side),
        ),
{
    let mut out = data;
    let marker = ClipboardData::Special(
        RUSTDESK_CLIPBOARD_OWNER_FORMAT.to_owned(),
        side.get_owner_data(),
    );
    let ghost before = out@;
    out.push(marker);
    assert(out@.take(before.len() as int) =~= before);
    out
}

/// A clipboard read without `force` passes nothing on when the content holds
/// an owner marker written by either side: what a remote update wrote is
/// never sent back.
pub proof fn lemma_owner_marked_content_is_not_sent_back(
    content: Seq<ClipboardData>,
    i: int,
    writer: ClipboardSide,
)
    requires
        0 <= i < content.len(),
        content[i]@ == ClipboardDataView::Special(
            RUSTDESK_CLIPBOARD_OWNER_FORMAT@,
            spec_owner_data(writer),
        ),
    ensures
        spec_get_formats_filter(content, false) == Seq::<ClipboardData>::empty(),
{
    crate::side::lemma_owner_data_is_owned(writer);
    assert(is_owned_marker(content[i]));
}

/// A forced read of content that ends with the owner marker passes on the
/// earlier content, without the owner marker and empty text.
pub proof fn lemma_forced_read_drops_only_the_marker(
    data: Seq<ClipboardData>,
    marker: ClipboardData,
)
    requires
        marker@ matches ClipboardDataView::Special(name, _) && name == RUSTDESK_CLIPBOARD_OWNER_FORMAT@,
    ensures
        spec_get_formats_filter(data.push(marker), true) == data.filter(
            |d: ClipboardData| is_synced_item(d),
        ),
{
    lemma_filter_push(data, |d: ClipboardData| is_synced_item(d), marker);
}

/// Content without the owner marker and without empty text passes a read
/// unchanged, items and order alike, whether the read is forced or not.
pub proof fn lemma_clean_content_passes_unchanged(data: Seq<ClipboardData>, force: bool)
    requires
        forall|i: int|
            0 <= i < data.len() ==> !(#[trigger] data[i] matches ClipboardData::Special(name, _)
                && name@ == RUSTDESK_CLIPBOARD_OWNER_FORMAT@) && !(data[i] matches ClipboardData::Text(
                t,
            ) && t@.len() == 0),
    ensures
        spec_get_formats_filter(data, force) == data,
    decreases data.len(),
{
    if data.len() > 0 {
        let init = data.drop_last();
        assert forall|i: int| 0 <= i < init.len() implies !(#[trigger] init[i] matches ClipboardData::Special(
            name,
            _,
        ) && name@ == RUSTDESK_CLIPBOARD_OWNER_FORMAT@) && !(init[i] matches ClipboardData::Text(t)
            && t@.len() == 0) by {
            assert(init[i] == data[i]);
        }
        lemma_clean_content_passes_unchanged(init, true);
        let pred = |d: ClipboardData| is_synced_item(d);
        lemma_filter_push(init, pred, data.last());
        assert(init.push(data.last()) =~= data);
        assert(data[data.len() - 1] == data.last());
        if init.len() == 0 {
            reveal(Seq::filter);
            assert(init.filter(pred) =~= init);
        }
        assert(!(exists|i: int| 0 <= i < data.len() && #[trigger] is_owned_marker(data[i]))) by {
            if exists|i: int| 0 <= i < data.len() && #[trigger] is_owned_marker(data[i]) {
                let i = choose|i: int| 0 <= i < data.len() && #[trigger] is_owned_marker(data[i]);
                assert(is_owned_marker(data[i]));
            }
        }
    }
}

/// When the read is forced or the content carries no owner marker written
/// by this program, every item other than the owner marker and empty text
/// is passed on.
pub proof fn lemma_read_keeps_every_content_item(data: Seq<ClipboardData>, force: bool, i: int)
    requires
        force || forall|k: int|
            0 <= k < data.len() ==> !(#[trigger] data[k] matches ClipboardData::Special(name, bytes)
                && name@ == RUSTDESK_CLIPBOARD_OWNER_FORMAT@ && bytes@.len() > 0 && bytes@[0] & 3u8
                != 0u8),
        0 <= i < data.len(),
        !(data[i] matches ClipboardData::Special(name, _) && name@ == RUSTDESK_CLIPBOARD_OWNER_FORMAT@),
        !(data[i] matches ClipboardData::Text(t) && t@.len() == 0),
    ensures
        spec_get_formats_filter(data, force).contains(data[i]),
{
    let pred = |d: ClipboardData| is_synced_item(d);
    assert(pred(data[i]));
    data.lemma_filter_contains(pred, i);
    if !force {
        assert(!(exists|k: int| 0 <= k < data.len() && #[trigger] is_owned_marker(data[k]))) by {
            if exists|k: int| 0 <= k < data.len() && #[trigger] is_owned_marker(data[k]) {
                let k = choose|k: int| 0 <= k < data.len() && #[trigger] is_owned_marker(data[k]);
                assert(is_owned_marker(data[k]));
            }
        }
    }
}

/// A read passes on only items of the content, and never the owner marker
/// nor an empty text.
pub proof fn lemma_read_output_is_clean_content(data: Seq<ClipboardData>, force: bool)
    ensures
        forall|i: int|
            0 <= i < spec_get_formats_filter(data, force).len() ==> data.contains(
                #[trigger] spec_get_formats_filter(data, force)[i],
            ) && !(spec_get_formats_filter(data, force)[i] matches ClipboardData::Special(name, _)
                && name@ == RUSTDESK_CLIPBOARD_OWNER_FORMAT@) && !(spec_get_formats_filter(
                data,
                force,
            )[i] matches ClipboardData::Text(t) && t@.len() == 0),
{
    let out = spec_get_formats_filter(data, force);
    let pred = |d: ClipboardData| is_synced_item(d);
    assert forall|i: int| 0 <= i < out.len() implies data.contains(#[trigger] out[i]) && !(
    out[i] matches ClipboardData::Special(name, _) && name@ == RUSTDESK_CLIPBOARD_OWNER_FORMAT@)
        && !(out[i] matches ClipboardData::Text(t) && t@.len() == 0) by {
        if data.len() == 0 {
        } else {
            assert(out == data.filter(pred));
            data.lemma_filter_pred(pred, i);
            assert(out.contains(out[i]));
            data.lemma_filter_contains_rev(pred, out[i]);
        }
    }
}

/// The read guards: content is withheld when the clipboard also holds native
/// content that must be preserved, or file URLs while they travel through
/// their own channel; otherwise it passes unchanged.
pub proof fn lemma_guard_read_content(data: Seq<ClipboardData>, external_opaque: bool, with_file_urls: bool)
    ensures
        data.len() > 0 && external_opaque ==> spec_guard_read_content(
            data,
            external_opaque,
            with_file_urls,
        ).len() == 0,
        with_file_urls && (exists|i: int|
            0 <= i < data.len() && #[trigger] data[i] matches ClipboardData::FileUrl(_))
            ==> spec_guard_read_content(data, external_opaque, with_file_urls).len() == 0,
        !external_opaque && !(with_file_urls && exists|i: int|
            0 <= i < data.len() && #[trigger] data[i] matches ClipboardData::FileUrl(_))
            ==> spec_guard_read_content(data, external_opaque, with_file_urls) == data,
{
    if with_file_urls && (exists|i: int|
        0 <= i < data.len() && #[trigger] data[i] matches ClipboardData::FileUrl(_)) {
        let i = choose|i: int| 0 <= i < data.len() && #[trigger] data[i] matches ClipboardData::FileUrl(_);
        assert(is_file_url(data[i]));
    }
    if !(with_file_urls && exists|i: int|
        0 <= i < data.len() && #[trigger] data[i] matches ClipboardData::FileUrl(_)) {
        assert(!(with_file_urls && exists|i: int| 0 <= i < data.len() && #[trigger] is_file_url(data[i])));
    }
}

} // verus!

use vstd::prelude::*;
use crate::data::{strings_view, ClipboardData};
use crate::format_names::{bytes_eq_ignore_ascii_case, RUSTDESK_CLIPBOARD_OWNER_FORMAT};
use crate::side::ClipboardSide;
use crate::text::{is_byte_prefix, str_starts_with, utf8};

verus! {

/// An ASCII hexadecimal digit.
pub open spec fn is_hex_digit(b: u8) -> bool {
    (48 <= b <= 57) || (97 <= b <= 102) || (65 <= b <= 70)
}

/// Thirty-two hexadecimal digits in five groups of 8, 4, 4, 4 and 12,
/// separated by hyphens.
pub open spec fn is_hyphenated_uuid(b: Seq<u8>) -> bool {
    &&& b.len() == 36
    &&& b[8] == 45 && b[13] == 45 && b[18] == 45 && b[23] == 45
    &&& forall|i: int|
        0 <= i < 36 && i != 8 && i != 13 && i != 18 && i != 23 ==> #[trigger] is_hex_digit(b[i])
}

/// The texts that `uuid::Uuid` parses: 32 hexadecimal digits, the hyphenated
/// form, the hyphenated form in braces, or the hyphenated form after an
/// `urn:uuid:` prefix whose letters may be of either case.
pub open spec fn spec_uuid_text(b: Seq<u8>) -> bool {
    ||| b.len() == 32 && forall|i: int| 0 <= i < 32 ==> #[trigger] is_hex_digit(b[i])
    ||| is_hyphenated_uuid(b)
    ||| b.len() == 38 && b[0] == 123 && b[37] == 125 && is_hyphenated_uuid(b.subrange(1, 37))
    ||| b.len() == 45 && bytes_eq_ignore_ascii_case(b.take(9), utf8("urn:uuid:"@))
        && is_hyphenated_uuid(b.skip(9))
}

/// `<uuid::Uuid as FromStr>::from_str`, keeping only whether it succeeded.
/// Its source accepts exactly the texts of [`spec_uuid_text`], looking at
/// the bytes of the string.
#[verifier::external_body]
fn parses_as_uuid(s: &str) -> (ok: bool)
    ensures
        ok == spec_uuid_text(utf8(s@)),
{
    s.parse::<uuid::Uuid>().is_ok()
}

/// The prefixes of the file URLs this program writes for files it offers:
/// a path in the temporary directory named after a UUID.
pub open spec fn rustdesk_file_prefix_1() -> Seq<char> {
    "file:///tmp/.rustdesk_"@
}

/// The second prefix, without the URL scheme.
pub open spec fn rustdesk_file_prefix_2() -> Seq<char> {
    "//tmp/.rustdesk_"@
}

/// `url` starts with `prefix` and the rest of it is a UUID.
pub open spec fn prefixed_uuid(url: Seq<char>, prefix: Seq<char>) -> bool {
    spec_uuid_text(utf8(url).skip(utf8(prefix).len() as int))
}

/// A single file URL that this program wrote: one of the two prefixes
/// followed by a UUID (the first prefix that matches decides).
pub open spec fn spec_is_file_url_set_by_rustdesk(urls: Seq<Seq<char>>) -> bool {
    urls.len() == 1 && if is_byte_prefix(utf8(rustdesk_file_prefix_1()), utf8(urls[0])) {
        prefixed_uuid(urls[0], rustdesk_file_prefix_1())
    } else if is_byte_prefix(utf8(rustdesk_file_prefix_2()), utf8(urls[0])) {
        prefixed_uuid(urls[0], rustdesk_file_prefix_2())
    } else {
        false
    }
}

/// In valid UTF-8, the position after a run of ASCII bytes at the start is a
/// character boundary.
proof fn lemma_ascii_run_ends_on_boundary(bytes: Seq<u8>, m: int)
    requires
        vstd::utf8::valid_utf8(bytes),
        0 <= m <= bytes.len(),
        forall|i: int| 0 <= i < m ==> #[trigger] bytes[i] < 128,
    ensures
        vstd::utf8::is_char_boundary(bytes, m),
    decreases m,
{
    if m > 0 {
        assert(bytes[0] < 128);
        let rest = vstd::utf8::pop_first_scalar(bytes);
        assert(rest =~= bytes.subrange(1, bytes.len() as int));
        assert forall|i: int| 0 <= i < m - 1 implies #[trigger] rest[i] < 128 by {
            assert(rest[i] == bytes[i + 1]);
        }
        lemma_ascii_run_ends_on_boundary(rest, m - 1);
    }
}

/// The part of `s` after an ASCII prefix it starts with.
fn after_ascii_prefix<'a>(s: &'a str, prefix: &str) -> (rest: &'a str)
    requires
        is_byte_prefix(utf8(prefix@), utf8(s@)),
        forall|i: int| 0 <= i < utf8(prefix@).len() ==> #[trigger] utf8(prefix@)[i] < 128,
    ensures
        utf8(rest@) == utf8(s@).skip(utf8(prefix@).len() as int),
{
    let n = prefix.as_bytes().len();
    proof {
        let b = utf8(s@);
        vstd::utf8::encode_utf8_valid_utf8(s@);
        assert forall|i: int| 0 <= i < n implies #[trigger] b[i] < 128 by {
            assert(b.subrange(0, n as int)[i] == b[i]);
        }
        lemma_ascii_run_ends_on_boundary(b, n as int);
    }
    let (_, rest) = s.split_at(n);
    assert(utf8(rest@) =~= utf8(s@).skip(n as int));
    rest
}

/// Whether a file list is a single file URL that this program wrote.
pub fn is_file_url_set_by_rustdesk(url: &Vec<String>) -> (set: bool)
    ensures
        set == spec_is_file_url_set_by_rustdesk(strings_view(url@)),
{
    if url.len() != 1 {
        return false;
    }
    let s = url[0].as_str();
    let p1 = "file:///tmp/.rustdesk_";
    let p2 = "//tmp/.rustdesk_";
    proof {
        reveal_strlit("file:///tmp/.rustdesk_");
        reveal_strlit("//tmp/.rustdesk_");
        vstd::utf8::is_ascii_chars_encode_utf8(p1@);
        vstd::utf8::is_ascii_chars_encode_utf8(p2@);
        assert(strings_view(url@)[0] == s@);
    }
    if str_starts_with(s, p1) {
        let rest = after_ascii_prefix(s, p1);
        return parses_as_uuid(rest);
    }
    if str_starts_with(s, p2) {
        let rest = after_ascii_prefix(s, p2);
        return parses_as_uuid(rest);
    }
    false
}

/// The URLs of the first file-URL item that is a single file URL this
/// program wrote; empty when there is none (the macOS rule).
pub open spec fn spec_rustdesk_file_urls_macos(data: Seq<ClipboardData>) -> Seq<Seq<char>>
    decreases data.len(),
{
    if data.len() == 0 {
        Seq::empty()
    } else {
        match data[0] {
            ClipboardData::FileUrl(urls) => if spec_is_file_url_set_by_rustdesk(strings_view(urls@)) {
                strings_view(urls@)
            } else {
                spec_rustdesk_file_urls_macos(data.drop_first())
            },
            _ => spec_rustdesk_file_urls_macos(data.drop_first()),
        }
    }
}

/// On macOS, the file URLs in the clipboard content that this program wrote.
pub fn file_urls_set_by_rustdesk_macos(data: Vec<ClipboardData>) -> (urls: Vec<String>)
    ensures
        strings_view(urls@) == spec_rustdesk_file_urls_macos(data@),
        urls@.len() == 0 <==> forall|i: int|
            0 <= i < data@.len() ==> !#[trigger] is_rustdesk_file_item(data@[i]),
        urls@.len() > 0 ==> exists|i: int|
            0 <= i < data@.len() && #[trigger] is_rustdesk_file_item(data@[i]) && file_urls_of(
                data@[i],
            ) == strings_view(urls@) && forall|k: int|
                0 <= k < i ==> !is_rustdesk_file_item(data@[k]),
{
    proof {
        lemma_macos_file_urls_are_the_first_own_item(data@);
    }
    let ghost orig = data@;
    assert(orig.skip(0) =~= orig);
    for d in it: data
        invariant
            it.seq() == orig,
            spec_rustdesk_file_urls_macos(orig) == spec_rustdesk_file_urls_macos(
                orig.skip(it.index() as int),
            ),
    {
        let ghost idx = it.index();
        assert(d == orig[idx as int]);
        assert(orig.skip(idx as int).drop_first() =~= orig.skip(idx + 1));
        if let ClipboardData::FileUrl(urls) = d {
            if is_file_url_set_by_rustdesk(&urls) {
                proof {
                    lemma_macos_file_urls_are_the_first_own_item(orig);
                }
                return urls;
            }
        }
    }
    let none: Vec<String> = Vec::new();
    assert(strings_view(none@) =~= Seq::<Seq<char>>::empty());
    none
}

/// The URL lies under the excluded path (it starts with it).
pub open spec fn under_path(url: Seq<char>, path: Seq<char>) -> bool {
    is_byte_prefix(utf8(path), utf8(url))
}

/// All URLs of all file-URL items that lie under `exclude_path`, in order
/// (the Linux rule).
pub open spec fn spec_rustdesk_file_urls_linux(data: Seq<ClipboardData>, exclude_path: Seq<char>) -> Seq<
    Seq<char>,
>
    decreases data.len(),
{
    if data.len() == 0 {
        Seq::empty()
    } else {
        let before = spec_rustdesk_file_urls_linux(data.drop_last(), exclude_path);
        match data.last() {
            ClipboardData::FileUrl(urls) => before + strings_view(urls@).filter(
                |u: Seq<char>| under_path(u, exclude_path),
            ),
            _ => before,
        }
    }
}

/// The URLs of a list under `exclude_path`, in order.
fn urls_under_path(urls: Vec<String>, exclude_path: &str) -> (kept: Vec<String>)
    ensures
        strings_view(kept@) == strings_view(urls@).filter(|u: Seq<char>| under_path(u, exclude_path@)),
{
    let ghost pred = |u: Seq<char>| under_path(u, exclude_path@);
    let ghost orig = urls@;
    let mut kept: Vec<String> = Vec::new();
    for u in it: urls
        invariant
            pred == (|u: Seq<char>| under_path(u, exclude_path@)),
            it.seq() == orig,
            strings_view(kept@) == strings_view(orig.take(it.index() as int)).filter(pred),
    {
        let ghost idx = it.index();
        assert(u == orig[idx as int]);
        proof {
            crate::data::lemma_filter_push(strings_view(orig.take(idx as int)), pred, u@);
            assert(strings_view(orig.take(idx + 1)) =~= strings_view(orig.take(idx as int)).push(
                u@,
            ));
        }
        let ghost before = kept@;
        if str_starts_with(u.as_str(), exclude_path) {
            kept.push(u);
            assert(strings_view(kept@) =~= strings_view(before).push(u@));
        }
    }
    assert(orig.take(orig.len() as int) =~= orig);
    kept
}

/// On Linux, the file URLs in the clipboard content that lie under the path
/// through which this program offers files.
pub fn file_urls_set_by_rustdesk_linux(data: Vec<ClipboardData>, exclude_path: &str) -> (urls: Vec<
    String,
>)
    ensures
        strings_view(urls@) == spec_rustdesk_file_urls_linux(data@, exclude_path@),
        forall|i: int|
            0 <= i < strings_view(urls@).len() ==> under_path(
                #[trigger] strings_view(urls@)[i],
                exclude_path@,
            ),
        forall|k: int, j: int|
            0 <= k < data@.len() && 0 <= j < file_urls_of(data@[k]).len() && under_path(
                #[trigger] file_urls_of(data@[k])[j],
                exclude_path@,
            ) ==> strings_view(urls@).contains(file_urls_of(data@[k])[j]),
{
    proof {
        lemma_linux_file_urls_are_those_under_path(data@, exclude_path@);
    }
    let ghost orig = data@;
    let mut out: Vec<String> = Vec::new();
    for d in it: data
        invariant
            it.seq() == orig,
            strings_view(out@) == spec_rustdesk_file_urls_linux(
                orig.take(it.index() as int),
                exclude_path@,
            ),
    {
        let ghost idx = it.index();
        assert(d == orig[idx as int]);
        assert(orig.take(idx + 1).drop_last() =~= orig.take(idx as int));
        assert(orig.take(idx + 1).last() == d);
        if let ClipboardData::FileUrl(urls) = d {
            let mut kept = urls_under_path(urls, exclude_path);
            let ghost before = out@;
            let ghost added = kept@;
            out.append(&mut kept);
            assert(strings_view(out@) =~= strings_view(before) + strings_view(added));
        }
    }
    assert(orig.take(orig.len() as int) =~= orig);
    out
}

/// The text written to empty the file clipboard on KDE under X11, where
/// an empty text does not clear it.
pub open spec fn kde_clear_placeholder() -> Seq<char> {
    "RustDesk placeholder to clear the file clipboard"@
}

/// What is written to the clipboard to drop the files this program put
/// there: nothing when there are none, else a text (the placeholder on KDE
/// under X11, empty elsewhere) and the owner marker of `side`.
pub fn file_clipboard_clear_payload(
    urls_set_by_rustdesk: &Vec<String>,
    side: ClipboardSide,
    is_kde_x11: bool,
) -> (payload: Option<Vec<ClipboardData>>)
    ensures
        urls_set_by_rustdesk@.len() == 0 ==> payload is None,
        urls_set_by_rustdesk@.len() > 0 ==> (payload matches Some(p) && crate::data::data_view(p@)
            == seq![
            crate::data::ClipboardDataView::Text(
                if is_kde_x11 {
                    kde_clear_placeholder()
                } else {
                    Seq::empty()
                },
            ),
            crate::data::ClipboardDataView::Special(
                RUSTDESK_CLIPBOARD_OWNER_FORMAT@,
                crate::side::spec_owner_data(side),
            ),
        ]),
{
    if urls_set_by_rustdesk.len() == 0 {
        return None;
    }
    let text = if is_kde_x11 {
        "RustDesk placeholder to clear the file clipboard".to_owned()
    } else {
        proof {
            reveal_strlit("");
            assert(""@ =~= Seq::<char>::empty());
        }
        "".to_owned()
    };
    let marker = ClipboardData::Special(RUSTDESK_CLIPBOARD_OWNER_FORMAT.to_owned(), side.get_owner_data());
    let payload = vec![ClipboardData::Text(text), marker];
    assert(crate::data::data_view(payload@) =~= seq![
        crate::data::ClipboardDataView::Text(
            if is_kde_x11 {
                kde_clear_placeholder()
            } else {
                Seq::empty()
            },
        ),
        crate::data::ClipboardDataView::Special(
            RUSTDESK_CLIPBOARD_OWNER_FORMAT@,
            crate::side::spec_owner_data(side),
        ),
    ]);
    Some(payload)
}

/// The URLs of an item, when it is a file-URL item; none otherwise.
pub open spec fn file_urls_of(d: ClipboardData) -> Seq<Seq<char>> {
    match d {
        ClipboardData::FileUrl(urls) => strings_view(urls@),
        _ => Seq::empty(),
    }
}

/// The item is a single file URL that this program wrote.
pub open spec fn is_rustdesk_file_item(d: ClipboardData) -> bool {
    d is FileUrl && spec_is_file_url_set_by_rustdesk(file_urls_of(d))
}

/// An item of the second part of a concatenation is an item of the whole.
proof fn lemma_contains_in_second<A>(a: Seq<A>, b: Seq<A>, x: A)
    requires
        b.contains(x),
    ensures
        (a + b).contains(x),
{
    let j = choose|j: int| 0 <= j < b.len() && b[j] == x;
    assert((a + b)[a.len() + j] == x);
}

/// An item of the first part of a concatenation is an item of the whole.
proof fn lemma_contains_in_first<A>(a: Seq<A>, b: Seq<A>, x: A)
    requires
        a.contains(x),
    ensures
        (a + b).contains(x),
{
    let j = choose|j: int| 0 <= j < a.len() && a[j] == x;
    assert((a + b)[j] == x);
}

/// On Linux, exactly the URLs under the excluded path are taken: each URL
/// taken lies under it, and each URL of any file-URL item that lies under it
/// is taken.
pub proof fn lemma_linux_file_urls_are_those_under_path(data: Seq<ClipboardData>, path: Seq<char>)
    ensures
        forall|i: int|
            0 <= i < spec_rustdesk_file_urls_linux(data, path).len() ==> under_path(
                #[trigger] spec_rustdesk_file_urls_linux(data, path)[i],
                path,
            ),
        forall|k: int, j: int|
            0 <= k < data.len() && 0 <= j < file_urls_of(data[k]).len() && under_path(
                #[trigger] file_urls_of(data[k])[j],
                path,
            ) ==> spec_rustdesk_file_urls_linux(data, path).contains(file_urls_of(data[k])[j]),
    decreases data.len(),
{
    if data.len() > 0 {
        let init = data.drop_last();
        lemma_linux_file_urls_are_those_under_path(init, path);
        let before = spec_rustdesk_file_urls_linux(init, path);
        let pred = |u: Seq<char>| under_path(u, path);
        let added = file_urls_of(data.last()).filter(pred);
        assert(spec_rustdesk_file_urls_linux(data, path) == before + added);
        let out = before + added;
        assert forall|i: int| 0 <= i < out.len() implies under_path(#[trigger] out[i], path) by {
            if i >= before.len() {
                file_urls_of(data.last()).lemma_filter_pred(pred, i - before.len());
                assert(out[i] == added[i - before.len()]);
            } else {
                assert(out[i] == before[i]);
            }
        }
        assert forall|k: int, j: int|
            0 <= k < data.len() && 0 <= j < file_urls_of(data[k]).len() && under_path(
                #[trigger] file_urls_of(data[k])[j],
                path,
            ) implies out.contains(file_urls_of(data[k])[j]) by {
            let u = file_urls_of(data[k])[j];
            if k == data.len() - 1 {
                assert(data[k] == data.last());
                assert(pred(file_urls_of(data.last())[j]));
                file_urls_of(data.last()).lemma_filter_contains(pred, j);
                lemma_contains_in_second(before, added, u);
            } else {
                assert(init[k] == data[k]);
                assert(file_urls_of(init[k])[j] == u);
                lemma_contains_in_first(before, added, u);
            }
        }
    }
}

/// On macOS, what is taken is the URL list of the first item that is a
/// single file URL this program wrote, and nothing when there is no such
/// item.
pub proof fn lemma_macos_file_urls_are_the_first_own_item(data: Seq<ClipboardData>)
    ensures
        spec_rustdesk_file_urls_macos(data).len() == 0 <==> forall|i: int|
            0 <= i < data.len() ==> !#[trigger] is_rustdesk_file_item(data[i]),
        spec_rustdesk_file_urls_macos(data).len() > 0 ==> exists|i: int|
            0 <= i < data.len() && #[trigger] is_rustdesk_file_item(data[i]) && file_urls_of(data[i])
                == spec_rustdesk_file_urls_macos(data) && forall|k: int|
                0 <= k < i ==> !is_rustdesk_file_item(data[k]),
    decreases data.len(),
{
    if data.len() > 0 {
        let rest = data.drop_first();
        lemma_macos_file_urls_are_the_first_own_item(rest);
        assert forall|i: int| 0 <= i < rest.len() implies #[trigger] rest[i] == data[i + 1] by {}
        if is_rustdesk_file_item(data[0]) {
            assert(spec_rustdesk_file_urls_macos(data) == file_urls_of(data[0]));
            assert(file_urls_of(data[0]).len() == 1);
        } else {
            assert(spec_rustdesk_file_urls_macos(data) == spec_rustdesk_file_urls_macos(rest));
            if spec_rustdesk_file_urls_macos(rest).len() == 0 {
                assert forall|i: int| 0 <= i < data.len() implies !#[trigger] is_rustdesk_file_item(
                    data[i],
                ) by {
                    if i > 0 {
                        assert(data[i] == rest[i - 1]);
                    }
                }
            } else {
                let j = choose|j: int|
                    0 <= j < rest.len() && #[trigger] is_rustdesk_file_item(rest[j]) && file_urls_of(
                        rest[j],
                    ) == spec_rustdesk_file_urls_macos(rest) && forall|k: int|
                        0 <= k < j ==> !is_rustdesk_file_item(rest[k]);
                assert(data[j + 1] == rest[j]);
                assert(is_rustdesk_file_item(data[j + 1]));
                assert forall|k: int| 0 <= k < j + 1 implies !is_rustdesk_file_item(data[k]) by {
                    if k > 0 {
                        assert(data[k] == rest[k - 1]);
                    }
                }
            }
        }
    }
}

} // verus!

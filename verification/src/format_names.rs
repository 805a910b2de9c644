use vstd::prelude::*;

verus! {

/// The registered name of the marker format that records which side wrote
/// the clipboard.
pub const RUSTDESK_CLIPBOARD_OWNER_FORMAT: &'static str = "dyn.com.rustdesk.owner";

/// The registered name of Excel's XML spreadsheet format.
pub const CLIPBOARD_FORMAT_EXCEL_XML_SPREADSHEET: &'static str = "XML Spreadsheet";

/// Registered format names that are known to carry plain, portable content.
pub const SAFE_REGISTERED_FORMATS: [&'static str; 43] = [
    "TARGETS",
    "SAVE_TARGETS",
    "TIMESTAMP",
    "MULTIPLE",
    "UTF8_STRING",
    "TEXT",
    "STRING",
    "COMPOUND_TEXT",
    "HTML Format",
    "Rich Text Format",
    "text/richtext",
    "text/rtf",
    "text/html",
    "text/plain",
    "text/plain;charset=utf-8",
    "text/uri-list",
    "image/png",
    "image/tiff",
    "PNG",
    "image/svg+xml",
    "public.utf8-plain-text",
    "public.text",
    "public.html",
    "public.rtf",
    "public.png",
    "public.tiff",
    "public.svg-image",
    "public.file-url",
    "NSStringPboardType",
    "NSRTFPboardType",
    "NSHTMLPboardType",
    "NSFilenamesPboardType",
    "NSURLPboardType",
    "Chromium Web Custom MIME Data Format",
    "WebKit Smart Paste Format",
    "UniformResourceLocator",
    "UniformResourceLocatorW",
    "DataObjectAttributes",
    "CanIncludeInClipboardHistory",
    "CanUploadToCloudClipboard",
    "ExcludeClipboardContentFromMonitorProcessing",
    CLIPBOARD_FORMAT_EXCEL_XML_SPREADSHEET,
    RUSTDESK_CLIPBOARD_OWNER_FORMAT,
];

/// Fragments of format names used by vector editors and document formats
/// whose native clipboard content cannot be carried to the other side.
pub const OPAQUE_NATIVE_FORMAT_PATTERNS: [&'static str; 18] = [
    "adobe illustrator",
    "illustrator",
    "aicb",
    "ai private",
    "com.adobe",
    "portable document format",
    "application/pdf",
    "application/postscript",
    "application/eps",
    "application/vnd.adobe.illustrator",
    "application/x-adobe-illustrator",
    "pdf",
    "public.pdf",
    "public.eps",
    "public.postscript",
    "encapsulated postscript",
    "postscript",
    "eps",
];

/// Fragments of format names that, outside the safe list, belong to desktop
/// applications whose native clipboard content should be left alone.
pub const RISKY_NATIVE_FORMAT_PATTERNS: [&'static str; 6] = [
    "application/",
    "public.",
    "com.adobe",
    "org.inkscape",
    "gimp",
    "libreoffice",
];

/// Values of the clipboard debug switch that turn debugging on.
pub const CLIPBOARD_DEBUG_ON_VALUES: [&'static str; 4] = ["1", "true", "yes", "on"];

/// The byte `b` with an ASCII upper-case letter mapped to lower case.
pub open spec fn ascii_lower(b: u8) -> u8 {
    if 65 <= b <= 90 {
        (b + 32) as u8
    } else {
        b
    }
}

/// Two byte strings are equal when ASCII letters are compared without case.
pub open spec fn bytes_eq_ignore_ascii_case(a: Seq<u8>, b: Seq<u8>) -> bool {
    &&& a.len() == b.len()
    &&& forall|i: int| 0 <= i < a.len() ==> #[trigger] ascii_lower(a[i]) == ascii_lower(b[i])
}

/// `needle` occurs in `hay` at byte offset `start`, ignoring ASCII case.
pub open spec fn matches_at(hay: Seq<u8>, needle: Seq<u8>, start: int) -> bool {
    &&& 0 <= start
    &&& start + needle.len() <= hay.len()
    &&& bytes_eq_ignore_ascii_case(hay.subrange(start, start + needle.len()), needle)
}

/// `needle` occurs somewhere in `hay`, ignoring ASCII case.
pub open spec fn bytes_contain_ignore_ascii_case(hay: Seq<u8>, needle: Seq<u8>) -> bool {
    exists|start: int| #[trigger] matches_at(hay, needle, start)
}

/// Two strings are equal up to the case of ASCII letters, compared byte by
/// byte on their UTF-8 encodings.
pub open spec fn str_eq_ignore_ascii_case(a: Seq<char>, b: Seq<char>) -> bool {
    bytes_eq_ignore_ascii_case(vstd::utf8::encode_utf8(a), vstd::utf8::encode_utf8(b))
}

/// `needle` occurs in `value`, ignoring the case of ASCII letters, compared
/// on their UTF-8 encodings.
pub open spec fn spec_contains_ignore_ascii_case(value: Seq<char>, needle: Seq<char>) -> bool {
    bytes_contain_ignore_ascii_case(vstd::utf8::encode_utf8(value), vstd::utf8::encode_utf8(needle))
}

/// `name` is one of the safe registered format names, ignoring ASCII case.
pub open spec fn spec_is_safe_registered_format_name(name: Seq<char>) -> bool {
    exists|j: int|
        0 <= j < SAFE_REGISTERED_FORMATS.len() && #[trigger] str_eq_ignore_ascii_case(
            SAFE_REGISTERED_FORMATS[j]@,
            name,
        )
}

/// `name` contains one of the opaque native format fragments.
pub open spec fn spec_is_opaque_native_format_name(name: Seq<char>) -> bool {
    exists|j: int|
        0 <= j < OPAQUE_NATIVE_FORMAT_PATTERNS.len() && #[trigger] spec_contains_ignore_ascii_case(
            name,
            OPAQUE_NATIVE_FORMAT_PATTERNS[j]@,
        )
}

/// Unicode `White_Space` characters, the ones that `str::trim` removes.
pub open spec fn is_white_space(c: char) -> bool {
    ||| '\u{9}' <= c <= '\u{d}'
    ||| c == ' '
    ||| c == '\u{85}'
    ||| c == '\u{a0}'
    ||| c == '\u{1680}'
    ||| '\u{2000}' <= c <= '\u{200a}'
    ||| c == '\u{2028}'
    ||| c == '\u{2029}'
    ||| c == '\u{202f}'
    ||| c == '\u{205f}'
    ||| c == '\u{3000}'
}

/// `s` without its leading white space.
pub open spec fn spec_trim_start(s: Seq<char>) -> Seq<char>
    decreases s.len(),
{
    if s.len() > 0 && is_white_space(s[0]) {
        spec_trim_start(s.drop_first())
    } else {
        s
    }
}

/// `s` without its trailing white space.
pub open spec fn spec_trim_end(s: Seq<char>) -> Seq<char>
    decreases s.len(),
{
    if s.len() > 0 && is_white_space(s.last()) {
        spec_trim_end(s.drop_last())
    } else {
        s
    }
}

/// `s` without leading and trailing white space.
pub open spec fn spec_trim(s: Seq<char>) -> Seq<char> {
    spec_trim_end(spec_trim_start(s))
}

/// Outside the safe list, `name` (trimmed) belongs to a desktop application
/// namespace whose native content is left alone.
pub open spec fn spec_is_risky_native_format_name(name: Seq<char>) -> bool {
    &&& !spec_is_safe_registered_format_name(name)
    &&& exists|j: int|
        0 <= j < RISKY_NATIVE_FORMAT_PATTERNS.len() && #[trigger] spec_contains_ignore_ascii_case(
            spec_trim(name),
            RISKY_NATIVE_FORMAT_PATTERNS[j]@,
        )
}

/// A clipboard holding a type of this name must not be synchronised or
/// overwritten.
pub open spec fn spec_should_preserve_native_format_name(name: Seq<char>) -> bool {
    spec_is_opaque_native_format_name(name) || spec_is_risky_native_format_name(name)
}

/// `str::trim`: the string without leading and trailing characters of the
/// Unicode `White_Space` property. The contract states that documented
/// behaviour exactly, over [`spec_trim`].
#[verifier::external_body]
fn trim_white_space(s: &str) -> (t: &str)
    ensures
        t@ == spec_trim(s@),
{
    s.trim()
}

/// The byte with an ASCII upper-case letter mapped to lower case, as
/// `u8::to_ascii_lowercase` does.
pub fn ascii_lower_byte(b: u8) -> (l: u8)
    ensures
        l == ascii_lower(b),
{
    if 65 <= b && b <= 90 {
        b + 32
    } else {
        b
    }
}

/// Whether `needle` equals `hay[start..start + needle.len()]`, ignoring ASCII case.
fn window_eq_ignore_ascii_case(hay: &[u8], start: usize, needle: &[u8]) -> (eq: bool)
    requires
        start + needle@.len() <= hay@.len(),
    ensures
        eq == bytes_eq_ignore_ascii_case(
            hay@.subrange(start as int, start + needle@.len()),
            needle@,
        ),
{
    let n = needle.len();
    let hay_len = hay.len();
    let mut k: usize = 0;
    while k < n
        invariant
            n == needle@.len(),
            hay_len == hay@.len(),
            start + n <= hay@.len(),
            0 <= k <= n,
            forall|i: int|
                0 <= i < k ==> #[trigger] ascii_lower(hay@[start + i]) == ascii_lower(needle@[i]),
        decreases n - k,
    {
        if ascii_lower_byte(hay[start + k]) != ascii_lower_byte(needle[k]) {
            assert(ascii_lower(hay@.subrange(start as int, start + n)[k as int]) != ascii_lower(
                needle@[k as int],
            ));
            return false;
        }
        k += 1;
    }
    assert forall|i: int| 0 <= i < n implies #[trigger] ascii_lower(
        hay@.subrange(start as int, start + n)[i],
    ) == ascii_lower(needle@[i]) by {
        assert(hay@.subrange(start as int, start + n)[i] == hay@[start + i]);
    }
    true
}

/// A non-empty string has a non-empty UTF-8 encoding.
pub proof fn lemma_encode_nonempty(s: Seq<char>)
    requires
        s.len() > 0,
    ensures
        vstd::utf8::encode_utf8(s).len() > 0,
{
    let c = s[0] as u32;
    assert(vstd::utf8::encode_scalar(c).len() > 0);
}

/// Byte-wise equality of two byte strings, ignoring ASCII case, as
/// `<[u8]>::eq_ignore_ascii_case` does.
pub fn slice_eq_ignore_ascii_case(a: &[u8], b: &[u8]) -> (eq: bool)
    ensures
        eq == bytes_eq_ignore_ascii_case(a@, b@),
{
    if a.len() != b.len() {
        return false;
    }
    let eq = window_eq_ignore_ascii_case(a, 0, b);
    assert(a@.subrange(0, b@.len() as int) =~= a@);
    eq
}

/// Byte-wise equality of two strings, ignoring ASCII case, as
/// `str::eq_ignore_ascii_case` does.
pub fn str_eq_ignore_ascii_case_exec(a: &str, b: &str) -> (eq: bool)
    ensures
        eq == str_eq_ignore_ascii_case(a@, b@),
{
    slice_eq_ignore_ascii_case(a.as_bytes(), b.as_bytes())
}

/// Whether `needle` occurs in `value`, ignoring ASCII case.
///
/// The needle must not be empty (the byte windows of length zero are not
/// defined).
pub fn contains_ignore_ascii_case(value: &str, needle: &str) -> (found: bool)
    requires
        needle@.len() > 0,
    ensures
        found == spec_contains_ignore_ascii_case(value@, needle@),
{
    let hay = value.as_bytes();
    let pat = needle.as_bytes();
    proof {
        lemma_encode_nonempty(needle@);
    }
    if pat.len() > hay.len() {
        return false;
    }
    let hay_len = hay.len();
    let last = hay_len - pat.len();
    let mut start: usize = 0;
    while start <= last
        invariant
            hay_len == hay@.len(),
            pat@.len() > 0,
            hay@ == vstd::utf8::encode_utf8(value@),
            pat@ == vstd::utf8::encode_utf8(needle@),
            last == hay@.len() - pat@.len(),
            0 <= start <= last + 1,
            forall|s: int| 0 <= s < start ==> !#[trigger] matches_at(hay@, pat@, s),
        decreases last + 1 - start,
    {
        if window_eq_ignore_ascii_case(hay, start, pat) {
            assert(matches_at(hay@, pat@, start as int));
            return true;
        }
        start += 1;
    }
    assert forall|s: int| !#[trigger] matches_at(hay@, pat@, s) by {
        if 0 <= s < start {
        }
    }
    false
}

/// Every opaque and risky fragment is a non-empty string.
proof fn lemma_patterns_nonempty()
    ensures
        forall|j: int|
            0 <= j < OPAQUE_NATIVE_FORMAT_PATTERNS.len()
                ==> #[trigger] OPAQUE_NATIVE_FORMAT_PATTERNS[j]@.len() > 0,
        forall|j: int|
            0 <= j < RISKY_NATIVE_FORMAT_PATTERNS.len()
                ==> #[trigger] RISKY_NATIVE_FORMAT_PATTERNS[j]@.len() > 0,
{
    reveal_strlit("adobe illustrator");
    reveal_strlit("illustrator");
    reveal_strlit("aicb");
    reveal_strlit("ai private");
    reveal_strlit("com.adobe");
    reveal_strlit("portable document format");
    reveal_strlit("application/pdf");
    reveal_strlit("application/postscript");
    reveal_strlit("application/eps");
    reveal_strlit("application/vnd.adobe.illustrator");
    reveal_strlit("application/x-adobe-illustrator");
    reveal_strlit("pdf");
    reveal_strlit("public.pdf");
    reveal_strlit("public.eps");
    reveal_strlit("public.postscript");
    reveal_strlit("encapsulated postscript");
    reveal_strlit("postscript");
    reveal_strlit("eps");
    reveal_strlit("application/");
    reveal_strlit("public.");
    reveal_strlit("com.adobe");
    reveal_strlit("org.inkscape");
    reveal_strlit("gimp");
    reveal_strlit("libreoffice");
}

/// Whether `name` is one of the safe registered format names, ignoring ASCII case.
pub fn is_safe_registered_format_name(name: &str) -> (safe: bool)
    ensures
        safe == spec_is_safe_registered_format_name(name@),
{
    let mut i: usize = 0;
    while i < SAFE_REGISTERED_FORMATS.len()
        invariant
            0 <= i <= SAFE_REGISTERED_FORMATS.len(),
            forall|j: int|
                0 <= j < i ==> !#[trigger] str_eq_ignore_ascii_case(
                    SAFE_REGISTERED_FORMATS[j]@,
                    name@,
                ),
        decreases SAFE_REGISTERED_FORMATS.len() - i,
    {
        if str_eq_ignore_ascii_case_exec(SAFE_REGISTERED_FORMATS[i], name) {
            return true;
        }
        i += 1;
    }
    false
}

/// Whether `name` contains a fragment of a vector-editor or document format
/// name, ignoring ASCII case.
pub fn is_opaque_native_format_name(name: &str) -> (opaque: bool)
    ensures
        opaque == spec_is_opaque_native_format_name(name@),
{
    proof {
        lemma_patterns_nonempty();
    }
    let mut i: usize = 0;
    while i < OPAQUE_NATIVE_FORMAT_PATTERNS.len()
        invariant
            0 <= i <= OPAQUE_NATIVE_FORMAT_PATTERNS.len(),
            forall|j: int|
                0 <= j < OPAQUE_NATIVE_FORMAT_PATTERNS.len()
                    ==> #[trigger] OPAQUE_NATIVE_FORMAT_PATTERNS[j]@.len() > 0,
            forall|j: int|
                0 <= j < i ==> !#[trigger] spec_contains_ignore_ascii_case(
                    name@,
                    OPAQUE_NATIVE_FORMAT_PATTERNS[j]@,
                ),
        decreases OPAQUE_NATIVE_FORMAT_PATTERNS.len() - i,
    {
        if contains_ignore_ascii_case(name, OPAQUE_NATIVE_FORMAT_PATTERNS[i]) {
            return true;
        }
        i += 1;
    }
    false
}

/// Whether `name` is outside the safe list and, once trimmed, names a type
/// of a desktop application namespace (`application/`, `public.`,
/// `com.adobe`, `org.inkscape`, `gimp`, `libreoffice`), ignoring ASCII case.
pub fn is_risky_native_format_name(name: &str) -> (risky: bool)
    ensures
        risky == spec_is_risky_native_format_name(name@),
{
    if is_safe_registered_format_name(name) {
        return false;
    }
    let trimmed = trim_white_space(name);
    proof {
        lemma_patterns_nonempty();
    }
    let mut i: usize = 0;
    while i < RISKY_NATIVE_FORMAT_PATTERNS.len()
        invariant
            !spec_is_safe_registered_format_name(name@),
            trimmed@ == spec_trim(name@),
            0 <= i <= RISKY_NATIVE_FORMAT_PATTERNS.len(),
            forall|j: int|
                0 <= j < RISKY_NATIVE_FORMAT_PATTERNS.len()
                    ==> #[trigger] RISKY_NATIVE_FORMAT_PATTERNS[j]@.len() > 0,
            forall|j: int|
                0 <= j < i ==> !#[trigger] spec_contains_ignore_ascii_case(
                    spec_trim(name@),
                    RISKY_NATIVE_FORMAT_PATTERNS[j]@,
                ),
        decreases RISKY_NATIVE_FORMAT_PATTERNS.len() - i,
    {
        if contains_ignore_ascii_case(trimmed, RISKY_NATIVE_FORMAT_PATTERNS[i]) {
            return true;
        }
        i += 1;
    }
    false
}

/// Whether a clipboard offering a type of this name must be neither
/// synchronised nor overwritten: the name is opaque or risky.
pub fn should_preserve_native_format_name(name: &str) -> (preserve: bool)
    ensures
        preserve == spec_should_preserve_native_format_name(name@),
        spec_is_opaque_native_format_name(name@) ==> preserve,
        spec_is_risky_native_format_name(name@) ==> preserve,
        preserve ==> spec_is_opaque_native_format_name(name@) || spec_is_risky_native_format_name(
            name@,
        ),
{
    is_opaque_native_format_name(name) || is_risky_native_format_name(name)
}

/// Whether one of the type names is the owner marker format, ignoring ASCII case.
pub fn names_have_owner_marker(names: &Vec<String>) -> (found: bool)
    ensures
        found == exists|i: int|
            0 <= i < names@.len() && #[trigger] str_eq_ignore_ascii_case(
                names@[i]@,
                RUSTDESK_CLIPBOARD_OWNER_FORMAT@,
            ),
{
    let mut i: usize = 0;
    while i < names.len()
        invariant
            0 <= i <= names@.len(),
            forall|k: int|
                0 <= k < i ==> !#[trigger] str_eq_ignore_ascii_case(
                    names@[k]@,
                    RUSTDESK_CLIPBOARD_OWNER_FORMAT@,
                ),
        decreases names@.len() - i,
    {
        if str_eq_ignore_ascii_case_exec(names[i].as_str(), RUSTDESK_CLIPBOARD_OWNER_FORMAT) {
            return true;
        }
        i += 1;
    }
    false
}

/// Whether the clipboard, offering the types `names`, holds a type that must
/// be preserved.
pub fn contains_external_opaque_native_format_names(names: &Vec<String>) -> (found: bool)
    ensures
        found == exists|i: int|
            0 <= i < names@.len() && #[trigger] spec_should_preserve_native_format_name(
                names@[i]@,
            ),
        found <==> exists|i: int|
            #![trigger names@[i]]
            0 <= i < names@.len() && (spec_is_opaque_native_format_name(names@[i]@)
                || spec_is_risky_native_format_name(names@[i]@)),
{
    let mut i: usize = 0;
    while i < names.len()
        invariant
            0 <= i <= names@.len(),
            forall|k: int|
                0 <= k < i ==> !#[trigger] spec_should_preserve_native_format_name(names@[k]@),
        decreases names@.len() - i,
    {
        if should_preserve_native_format_name(names[i].as_str()) {
            return true;
        }
        i += 1;
    }
    assert forall|k: int| 0 <= k < names@.len() implies !(spec_is_opaque_native_format_name(
        names@[k]@,
    ) || spec_is_risky_native_format_name(names@[k]@)) by {
        assert(!spec_should_preserve_native_format_name(names@[k]@));
    }
    false
}

/// Whether a value of the clipboard debug switch turns debugging on: it is
/// `1`, `true`, `yes` or `on` once ASCII letters are lower-cased.
pub fn is_clipboard_debug_value(value: &str) -> (on: bool)
    ensures
        on == exists|j: int|
            0 <= j < CLIPBOARD_DEBUG_ON_VALUES.len() && #[trigger] str_eq_ignore_ascii_case(
                CLIPBOARD_DEBUG_ON_VALUES[j]@,
                value@,
            ),
{
    let mut i: usize = 0;
    while i < CLIPBOARD_DEBUG_ON_VALUES.len()
        invariant
            0 <= i <= CLIPBOARD_DEBUG_ON_VALUES.len(),
            forall|j: int|
                0 <= j < i ==> !#[trigger] str_eq_ignore_ascii_case(
                    CLIPBOARD_DEBUG_ON_VALUES[j]@,
                    value@,
                ),
        decreases CLIPBOARD_DEBUG_ON_VALUES.len() - i,
    {
        if str_eq_ignore_ascii_case_exec(CLIPBOARD_DEBUG_ON_VALUES[i], value) {
            return true;
        }
        i += 1;
    }
    false
}

/// A name holding an opaque fragment, or a risky name, must be preserved;
/// and a preserved name is one of the two.
pub proof fn lemma_preserved_names_are_opaque_or_risky(name: Seq<char>)
    ensures
        spec_is_opaque_native_format_name(name) ==> spec_should_preserve_native_format_name(name),
        spec_is_risky_native_format_name(name) ==> spec_should_preserve_native_format_name(name),
        spec_should_preserve_native_format_name(name) ==> spec_is_opaque_native_format_name(name)
            || spec_is_risky_native_format_name(name),
{
}

/// A name that contains one of the opaque fragments, in any ASCII case, is
/// preserved, whether or not it is on the safe list.
pub proof fn lemma_opaque_fragment_names_are_preserved(name: Seq<char>, j: int)
    requires
        0 <= j < OPAQUE_NATIVE_FORMAT_PATTERNS.len(),
        spec_contains_ignore_ascii_case(name, OPAQUE_NATIVE_FORMAT_PATTERNS[j]@),
    ensures
        spec_should_preserve_native_format_name(name),
{
}

/// A name on the safe list is never risky.
pub proof fn lemma_safe_names_are_not_risky(name: Seq<char>)
    requires
        spec_is_safe_registered_format_name(name),
    ensures
        !spec_is_risky_native_format_name(name),
{
}

} // verus!

use vstd::prelude::*;
use crate::format_names::{
    is_opaque_native_format_name, is_safe_registered_format_name,
    spec_is_opaque_native_format_name, spec_is_safe_registered_format_name,
};

verus! {

pub const CF_TEXT: u32 = 1;
pub const CF_BITMAP: u32 = 2;
pub const CF_METAFILEPICT: u32 = 3;
pub const CF_TIFF: u32 = 6;
pub const CF_OEMTEXT: u32 = 7;
pub const CF_DIB: u32 = 8;
pub const CF_PALETTE: u32 = 9;
pub const CF_UNICODETEXT: u32 = 13;
pub const CF_ENHMETAFILE: u32 = 14;
pub const CF_HDROP: u32 = 15;
pub const CF_LOCALE: u32 = 16;
pub const CF_DIBV5: u32 = 17;

/// The name of a predefined Windows clipboard format, if `format` is one
/// this module knows.
pub fn predefined_name(format: u32) -> (name: Option<&'static str>)
    ensures
        name is Some <==> (format == CF_TEXT || format == CF_BITMAP || format == CF_METAFILEPICT
            || format == CF_TIFF || format == CF_OEMTEXT || format == CF_DIB || format == CF_PALETTE
            || format == CF_UNICODETEXT || format == CF_ENHMETAFILE || format == CF_HDROP || format
            == CF_LOCALE || format == CF_DIBV5),
        format == CF_TEXT ==> name == Some("CF_TEXT"),
        format == CF_BITMAP ==> name == Some("CF_BITMAP"),
        format == CF_METAFILEPICT ==> name == Some("CF_METAFILEPICT"),
        format == CF_TIFF ==> name == Some("CF_TIFF"),
        format == CF_OEMTEXT ==> name == Some("CF_OEMTEXT"),
        format == CF_DIB ==> name == Some("CF_DIB"),
        format == CF_PALETTE ==> name == Some("CF_PALETTE"),
        format == CF_UNICODETEXT ==> name == Some("CF_UNICODETEXT"),
        format == CF_ENHMETAFILE ==> name == Some("CF_ENHMETAFILE"),
        format == CF_HDROP ==> name == Some("CF_HDROP"),
        format == CF_LOCALE ==> name == Some("CF_LOCALE"),
        format == CF_DIBV5 ==> name == Some("CF_DIBV5"),
{
    match format {
        CF_TEXT => Some("CF_TEXT"),
        CF_BITMAP => Some("CF_BITMAP"),
        CF_METAFILEPICT => Some("CF_METAFILEPICT"),
        CF_TIFF => Some("CF_TIFF"),
        CF_OEMTEXT => Some("CF_OEMTEXT"),
        CF_DIB => Some("CF_DIB"),
        CF_PALETTE => Some("CF_PALETTE"),
        CF_UNICODETEXT => Some("CF_UNICODETEXT"),
        CF_ENHMETAFILE => Some("CF_ENHMETAFILE"),
        CF_HDROP => Some("CF_HDROP"),
        CF_LOCALE => Some("CF_LOCALE"),
        CF_DIBV5 => Some("CF_DIBV5"),
        _ => None,
    }
}

/// Predefined formats of plain text, bitmaps, palettes and locales.
pub open spec fn spec_is_safe_predefined(format: u32) -> bool {
    format == CF_TEXT || format == CF_BITMAP || format == CF_OEMTEXT || format == CF_DIB || format
        == CF_PALETTE || format == CF_UNICODETEXT || format == CF_LOCALE || format == CF_DIBV5
}

/// Whether `format` is a predefined format of plain content.
pub fn is_safe_predefined(format: u32) -> (safe: bool)
    ensures
        safe == spec_is_safe_predefined(format),
        format == CF_TEXT ==> safe,
        format == CF_BITMAP ==> safe,
        format == CF_OEMTEXT ==> safe,
        format == CF_DIB ==> safe,
        format == CF_PALETTE ==> safe,
        format == CF_UNICODETEXT ==> safe,
        format == CF_LOCALE ==> safe,
        format == CF_DIBV5 ==> safe,
        safe ==> format == CF_TEXT || format == CF_BITMAP || format == CF_OEMTEXT || format
            == CF_DIB || format == CF_PALETTE || format == CF_UNICODETEXT || format == CF_LOCALE
            || format == CF_DIBV5,
{
    format == CF_TEXT || format == CF_BITMAP || format == CF_OEMTEXT || format == CF_DIB || format
        == CF_PALETTE || format == CF_UNICODETEXT || format == CF_LOCALE || format == CF_DIBV5
}

/// A clipboard format whose content cannot be carried to the other side:
/// dropped files, metafiles and TIFF; no other predefined format; a
/// registered format unless its name is on the safe list and holds no
/// opaque fragment; and a format without a registered name.
pub open spec fn spec_is_opaque_native_format(format: u32, registered_name: Option<Seq<char>>) -> bool {
    if format == CF_HDROP || format == CF_METAFILEPICT || format == CF_TIFF || format
        == CF_ENHMETAFILE {
        true
    } else if spec_is_safe_predefined(format) {
        false
    } else {
        match registered_name {
            Some(name) => !spec_is_safe_registered_format_name(name)
                || spec_is_opaque_native_format_name(name),
            None => true,
        }
    }
}

/// Whether a clipboard format is opaque. `registered_name` is the name
/// under which the format is registered, if the system has one for it.
pub fn is_opaque_native_format(format: u32, registered_name: Option<&str>) -> (opaque: bool)
    ensures
        opaque == spec_is_opaque_native_format(
            format,
            match registered_name {
                Some(n) => Some(n@),
                None => None,
            },
        ),
        format == CF_TEXT || format == CF_BITMAP || format == CF_OEMTEXT || format == CF_DIB
            || format == CF_PALETTE || format == CF_UNICODETEXT || format == CF_LOCALE || format
            == CF_DIBV5 ==> !opaque,
        format == CF_HDROP || format == CF_METAFILEPICT || format == CF_TIFF || format
            == CF_ENHMETAFILE ==> opaque,
        format >= 0xC000 && registered_name is None ==> opaque,
        registered_name matches Some(n) ==> (format >= 0xC000 ==> (opaque <==> (
        !spec_is_safe_registered_format_name(n@) || spec_is_opaque_native_format_name(n@)))),
{
    if format == CF_HDROP || format == CF_METAFILEPICT || format == CF_TIFF || format
        == CF_ENHMETAFILE {
        return true;
    }
    if is_safe_predefined(format) {
        return false;
    }
    match registered_name {
        Some(name) => !is_safe_registered_format_name(name) || is_opaque_native_format_name(name),
        None => true,
    }
}

/// A format found on the clipboard, with its registered name if it has one.
#[derive(Debug)]
pub struct NativeFormat {
    pub id: u32,
    pub registered_name: Option<String>,
}

/// The format is opaque.
pub open spec fn native_format_is_opaque(f: NativeFormat) -> bool {
    spec_is_opaque_native_format(
        f.id,
        match f.registered_name {
            Some(n) => Some(n@),
            None => None,
        },
    )
}

/// Whether any of the formats on the clipboard is opaque.
pub fn contains_opaque_native_formats(formats: &Vec<NativeFormat>) -> (found: bool)
    ensures
        found == exists|i: int| 0 <= i < formats@.len() && #[trigger] native_format_is_opaque(
            formats@[i],
        ),
        (forall|i: int|
            0 <= i < formats@.len() ==> {
                let id = #[trigger] formats@[i].id;
                id == CF_TEXT || id == CF_BITMAP || id == CF_OEMTEXT || id == CF_DIB || id
                    == CF_PALETTE || id == CF_UNICODETEXT || id == CF_LOCALE || id == CF_DIBV5
            }) ==> !found,
{
    let n = formats.len();
    let mut i: usize = 0;
    while i < n
        invariant
            n == formats@.len(),
            0 <= i <= n,
            forall|k: int| 0 <= k < i ==> !#[trigger] native_format_is_opaque(formats@[k]),
        decreases n - i,
    {
        let f = &formats[i];
        let name = match &f.registered_name {
            Some(s) => Some(s.as_str()),
            None => None,
        };
        if is_opaque_native_format(f.id, name) {
            assert(native_format_is_opaque(formats@[i as int]));
            return true;
        }
        i += 1;
    }
    false
}

/// The plain predefined formats (text, OEM text, Unicode text, bitmaps,
/// device-independent bitmaps of both versions, palettes and locales) are
/// safe and never opaque, whatever name the system registers for them; the
/// formats of dropped files, metafiles and TIFF always are.
pub proof fn lemma_plain_predefined_formats_are_not_opaque(
    format: u32,
    registered_name: Option<Seq<char>>,
)
    ensures
        format == CF_TEXT || format == CF_BITMAP || format == CF_OEMTEXT || format == CF_DIB
            || format == CF_PALETTE || format == CF_UNICODETEXT || format == CF_LOCALE || format
            == CF_DIBV5 ==> spec_is_safe_predefined(format) && !spec_is_opaque_native_format(
            format,
            registered_name,
        ),
        format == CF_HDROP || format == CF_METAFILEPICT || format == CF_TIFF || format
            == CF_ENHMETAFILE ==> !spec_is_safe_predefined(format) && spec_is_opaque_native_format(
            format,
            registered_name,
        ),
{
}

/// A format that is neither predefined nor registered under a name is opaque.
pub proof fn lemma_unnamed_unknown_formats_are_opaque(format: u32)
    requires
        !(format == CF_TEXT || format == CF_BITMAP || format == CF_METAFILEPICT || format
            == CF_TIFF || format == CF_OEMTEXT || format == CF_DIB || format == CF_PALETTE
            || format == CF_UNICODETEXT || format == CF_ENHMETAFILE || format == CF_HDROP
            || format == CF_LOCALE || format == CF_DIBV5),
    ensures
        spec_is_opaque_native_format(format, None),
{
}

} // verus!

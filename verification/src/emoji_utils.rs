//! The classifier: maps what is known of a filesystem entry - name,
//! metadata flags, and a sample of leading bytes - to one display icon.
//! Classification is total: whatever the flags, some icon comes back.

use vstd::prelude::*;
use vstd::string::StrSliceExecFns;

use crate::file_entry::{spec_raw_extension, spec_is_hidden, raw_extension};
use crate::text::{str_eq, str_starts_with};
use crate::unicode::{lower_of, lowercase};

verus! {

/// What the platform's metadata says a non-regular file is. `Regular`
/// covers ordinary files and everything unreadable or unknown.
#[derive(Clone, Copy, Debug, PartialEq, Eq, Structural)]
pub enum SpecialKind {
    Fifo,
    Socket,
    CharDevice,
    BlockDevice,
    Regular,
}

/// Everything the classifier reads of one entry, as plain values. The
/// caller derives these from the platform: a metadata read that fails
/// leaves the conservative value (`false`, `Regular`, `None`).
pub struct EntryInfo {
    /// Base name of the entry.
    pub name: String,
    /// Whether the entry itself is a symbolic link.
    pub is_symlink: bool,
    /// Whether a symbolic link points at a directory.
    pub symlink_target_is_dir: bool,
    /// Whether the entry is a directory.
    pub is_dir: bool,
    /// Whether the entry sits in the device directory.
    pub in_dev_dir: bool,
    /// Device-like file kind from the metadata.
    pub special: SpecialKind,
    /// POSIX permission bits, where the platform has them.
    pub posix_mode: Option<u32>,
    /// Up to the first kilobyte of the file, absent when unreadable.
    pub content: Option<Vec<u8>>,
}

/// The lower-cased extension of a name, if it has one.
pub open spec fn spec_lower_ext(name: Seq<char>) -> Option<Seq<char>> {
    match spec_raw_extension(name) {
        Some(e) => Some(lower_of(e)),
        None => None,
    }
}

/// The fixed table from lower-cased extension to icon: one category per
/// extension, no overlapping keys.
pub open spec fn spec_ext_icon(ext: Seq<char>) -> Option<Seq<char>> {
    if ext == "md"@ {
        Some("📑"@)
    } else if ext == "jpg"@ || ext == "jpeg"@ || ext == "png"@ || ext == "gif"@ || ext == "bmp"@ || ext == "svg"@ || ext == "webp"@ {
        Some("📸"@)
    } else if ext == "mp4"@ || ext == "avi"@ || ext == "mkv"@ || ext == "mov"@ || ext == "flv"@ || ext == "wmv"@ || ext == "webm"@ {
        Some("🎬"@)
    } else if ext == "mp3"@ || ext == "wav"@ || ext == "ogg"@ || ext == "flac"@ || ext == "m4a"@ || ext == "aac"@ {
        Some("🎧"@)
    } else if ext == "zip"@ || ext == "tar"@ || ext == "gz"@ || ext == "bz2"@ || ext == "xz"@ || ext == "7z"@ || ext == "rar"@ {
        Some("📦"@)
    } else if ext == "deb"@ || ext == "rpm"@ {
        Some("📥"@)
    } else if ext == "py"@ || ext == "sh"@ || ext == "js"@ || ext == "html"@ || ext == "css"@ || ext == "cpp"@ || ext == "c"@ || ext == "java"@ || ext == "go"@ || ext == "rb"@ || ext == "rs"@ || ext == "php"@ || ext == "h"@ || ext == "hpp"@ {
        Some("💻"@)
    } else if ext == "o"@ {
        Some("🧩"@)
    } else if ext == "txt"@ || ext == "rst"@ || ext == "log"@ {
        Some("📝"@)
    } else if ext == "ttf"@ || ext == "otf"@ || ext == "woff"@ || ext == "woff2"@ {
        Some("🔤"@)
    } else if ext == "pdf"@ || ext == "djvu"@ || ext == "epub"@ {
        Some("📚"@)
    } else if ext == "pem"@ || ext == "crt"@ || ext == "key"@ || ext == "pub"@ || ext == "p12"@ {
        Some("🔑"@)
    } else if ext == "csv"@ {
        Some("📊"@)
    } else if ext == "torrent"@ {
        Some("🌊"@)
    } else if ext == "iso"@ || ext == "img"@ {
        Some("💽"@)
    } else if ext == "qcow"@ || ext == "qcow2"@ {
        Some("🐮"@)
    } else if ext == "vv"@ {
        Some("🕹️"@)
    } else if ext == "doc"@ || ext == "docx"@ || ext == "odt"@ || ext == "rtf"@ || ext == "xls"@ || ext == "xlsx"@ || ext == "ods"@ || ext == "ppt"@ || ext == "pptx"@ || ext == "odp"@ {
        Some("📄"@)
    } else if ext == "conf"@ || ext == "config"@ || ext == "toml"@ || ext == "cfg"@ || ext == "yaml"@ || ext == "yml"@ || ext == "json"@ || ext == "ini"@ {
        Some("⚙️"@)
    } else {
        None
    }
}

/// A byte that keeps a file looking like text: printable ASCII or ASCII
/// whitespace.
pub open spec fn is_text_byte(b: u8) -> bool {
    (0x21 <= b && b <= 0x7e) || b == 0x20 || b == 0x09 || b == 0x0a || b == 0x0c || b == 0x0d
}

/// A sample reads as text when every byte does; the empty sample does.
pub open spec fn spec_is_text(bytes: Seq<u8>) -> bool {
    forall|i: int| 0 <= i < bytes.len() ==> is_text_byte(#[trigger] bytes[i])
}

/// An unreadable file never counts as text; a readable sample counts by
/// its bytes alone.
pub open spec fn spec_is_text_content(content: Option<Vec<u8>>) -> bool {
    match content {
        Some(bytes) => spec_is_text(bytes@),
        None => false,
    }
}

/// Executability: any POSIX execute bit where the platform has them, and
/// the `exe` extension elsewhere.
pub open spec fn spec_is_executable(posix_mode: Option<u32>, name: Seq<char>) -> bool {
    match posix_mode {
        Some(m) => m & 0o111 != 0,
        None => spec_lower_ext(name) == Some("exe"@),
    }
}

/// The icon of a device-directory entry, by the common device naming
/// conventions.
pub open spec fn spec_dev_emoji(name: Seq<char>) -> Seq<char> {
    if name == "null"@ || name == "zero"@ {
        "⓿"@
    } else if name == "random"@ || name == "urandom"@ {
        "🎲"@
    } else if "tty"@.is_prefix_of(name) {
        "🖥️"@
    } else if "sd"@.is_prefix_of(name) {
        "💽"@
    } else if "nvme"@.is_prefix_of(name) {
        "💽"@
    } else if "loop"@.is_prefix_of(name) {
        "🔁"@
    } else if "usb"@.is_prefix_of(name) {
        "🔌"@
    } else {
        "🔧"@
    }
}

/// The icon a device-like file kind earns on its own, or the given
/// default for a regular file.
pub open spec fn spec_unix_emoji_or(kind: SpecialKind, default: Seq<char>) -> Seq<char> {
    match kind {
        SpecialKind::Fifo => "⏩"@,
        SpecialKind::Socket => "󰟩"@,
        SpecialKind::CharDevice => "🔤"@,
        SpecialKind::BlockDevice => "💽"@,
        SpecialKind::Regular => default,
    }
}

/// The classifier's whole precedence: symbolic links, directories, the
/// device directory, the extension table, then the fallback chain -
/// dotfile, executable, text sniff, and the device-kind default.
pub open spec fn spec_emoji(info: EntryInfo) -> Seq<char> {
    if info.is_symlink {
        if info.symlink_target_is_dir {
            "🔗📁"@
        } else {
            "🔗"@
        }
    } else if info.is_dir {
        "📁"@
    } else if info.in_dev_dir {
        spec_dev_emoji(info.name@)
    } else {
        let icon = match spec_lower_ext(info.name@) {
            Some(e) => spec_ext_icon(e),
            None => None,
        };
        match icon {
            Some(i) => i,
            None => {
                if spec_is_hidden(info.name@) {
                    "⚙️"@
                } else if spec_is_executable(info.posix_mode, info.name@) {
                    "💾"@
                } else if spec_is_text_content(info.content) {
                    "📝"@
                } else {
                    spec_unix_emoji_or(info.special, "❓"@)
                }
            },
        }
    }
}

/// Looks a lower-cased extension up in the fixed table.
fn ext_icon(ext: &str) -> (r: Option<&'static str>)
    ensures
        match spec_ext_icon(ext@) {
            Some(icon) => r is Some && r.unwrap()@ == icon,
            None => r is None,
        },
{
    if str_eq(ext, "md") {
        Some("📑")
    } else if str_eq(ext, "jpg") || str_eq(ext, "jpeg") || str_eq(ext, "png") || str_eq(ext, "gif") || str_eq(ext, "bmp") || str_eq(ext, "svg") || str_eq(ext, "webp") {
        Some("📸")
    } else if str_eq(ext, "mp4") || str_eq(ext, "avi") || str_eq(ext, "mkv") || str_eq(ext, "mov") || str_eq(ext, "flv") || str_eq(ext, "wmv") || str_eq(ext, "webm") {
        Some("🎬")
    } else if str_eq(ext, "mp3") || str_eq(ext, "wav") || str_eq(ext, "ogg") || str_eq(ext, "flac") || str_eq(ext, "m4a") || str_eq(ext, "aac") {
        Some("🎧")
    } else if str_eq(ext, "zip") || str_eq(ext, "tar") || str_eq(ext, "gz") || str_eq(ext, "bz2") || str_eq(ext, "xz") || str_eq(ext, "7z") || str_eq(ext, "rar") {
        Some("📦")
    } else if str_eq(ext, "deb") || str_eq(ext, "rpm") {
        Some("📥")
    } else if str_eq(ext, "py") || str_eq(ext, "sh") || str_eq(ext, "js") || str_eq(ext, "html") || str_eq(ext, "css") || str_eq(ext, "cpp") || str_eq(ext, "c") || str_eq(ext, "java") || str_eq(ext, "go") || str_eq(ext, "rb") || str_eq(ext, "rs") || str_eq(ext, "php") || str_eq(ext, "h") || str_eq(ext, "hpp") {
        Some("💻")
    } else if str_eq(ext, "o") {
        Some("🧩")
    } else if str_eq(ext, "txt") || str_eq(ext, "rst") || str_eq(ext, "log") {
        Some("📝")
    } else if str_eq(ext, "ttf") || str_eq(ext, "otf") || str_eq(ext, "woff") || str_eq(ext, "woff2") {
        Some("🔤")
    } else if str_eq(ext, "pdf") || str_eq(ext, "djvu") || str_eq(ext, "epub") {
        Some("📚")
    } else if str_eq(ext, "pem") || str_eq(ext, "crt") || str_eq(ext, "key") || str_eq(ext, "pub") || str_eq(ext, "p12") {
        Some("🔑")
    } else if str_eq(ext, "csv") {
        Some("📊")
    } else if str_eq(ext, "torrent") {
        Some("🌊")
    } else if str_eq(ext, "iso") || str_eq(ext, "img") {
        Some("💽")
    } else if str_eq(ext, "qcow") || str_eq(ext, "qcow2") {
        Some("🐮")
    } else if str_eq(ext, "vv") {
        Some("🕹️")
    } else if str_eq(ext, "doc") || str_eq(ext, "docx") || str_eq(ext, "odt") || str_eq(ext, "rtf") || str_eq(ext, "xls") || str_eq(ext, "xlsx") || str_eq(ext, "ods") || str_eq(ext, "ppt") || str_eq(ext, "pptx") || str_eq(ext, "odp") {
        Some("📄")
    } else if str_eq(ext, "conf") || str_eq(ext, "config") || str_eq(ext, "toml") || str_eq(ext, "cfg") || str_eq(ext, "yaml") || str_eq(ext, "yml") || str_eq(ext, "json") || str_eq(ext, "ini") {
        Some("⚙️")
    } else {
        None
    }
}

/// The icon a device-like file kind earns on its own, or the given
/// default for a regular file.
pub fn get_unix_emoji_or<'a>(kind: SpecialKind, default: &'a str) -> (r: &'a str)
    ensures
        r@ == spec_unix_emoji_or(kind, default@),
{
    match kind {
        SpecialKind::Fifo => "⏩",
        SpecialKind::Socket => "󰟩",
        SpecialKind::CharDevice => "🔤",
        SpecialKind::BlockDevice => "💽",
        SpecialKind::Regular => default,
    }
}

/// The icon of a device-directory entry, by name prefix.
pub fn get_dev_emoji(name: &str) -> (r: String)
    ensures
        r@ == spec_dev_emoji(name@),
{
    if str_eq(name, "null") || str_eq(name, "zero") {
        "⓿".to_owned()
    } else if str_eq(name, "random") || str_eq(name, "urandom") {
        "🎲".to_owned()
    } else if str_starts_with(name, "tty") {
        "🖥️".to_owned()
    } else if str_starts_with(name, "sd") {
        "💽".to_owned()
    } else if str_starts_with(name, "nvme") {
        "💽".to_owned()
    } else if str_starts_with(name, "loop") {
        "🔁".to_owned()
    } else if str_starts_with(name, "usb") {
        "🔌".to_owned()
    } else {
        "🔧".to_owned()
    }
}

/// Whether the entry counts as executable, from the POSIX permission bits
/// where the platform has them and from the extension elsewhere.
pub fn is_executable(posix_mode: Option<u32>, name: &str) -> (r: bool)
    ensures
        r == spec_is_executable(posix_mode, name@),
{
    match posix_mode {
        Some(m) => m & 0o111 != 0,
        None => {
            match raw_extension(name) {
                Some(e) => {
                    let low = lowercase(e);
                    str_eq(low.as_str(), "exe")
                },
                None => false,
            }
        },
    }
}

/// Whether a content sample reads as text: an absent sample never does,
/// an empty one always does, and otherwise every byte must be printable
/// ASCII or ASCII whitespace.
pub fn is_text_file(content: &Option<Vec<u8>>) -> (r: bool)
    ensures
        r == spec_is_text_content(*content),
{
    match content {
        Some(bytes) => {
            let mut i: usize = 0;
            while i < bytes.len()
                invariant
                    *content == Some(*bytes),
                    i <= bytes@.len(),
                    forall|j: int| 0 <= j < i ==> is_text_byte(#[trigger] bytes@[j]),
                decreases bytes@.len() - i,
            {
                let b = bytes[i];
                if !((0x21 <= b && b <= 0x7e) || b == 0x20 || b == 0x09 || b == 0x0a || b == 0x0c
                    || b == 0x0d) {
                    proof {
                        assert(!is_text_byte(bytes@[i as int]));
                        assert(!spec_is_text(bytes@));
                    }
                    return false;
                }
                i = i + 1;
            }
            true
        },
        None => false,
    }
}

/// Classifies one entry: the single icon the listing shows for it.
pub fn get_emoji(info: &EntryInfo) -> (r: String)
    ensures
        r@ == spec_emoji(*info),
{
    if info.is_symlink {
        return if info.symlink_target_is_dir {
            "🔗📁".to_owned()
        } else {
            "🔗".to_owned()
        };
    }
    if info.is_dir {
        return "📁".to_owned();
    }
    if info.in_dev_dir {
        return get_dev_emoji(info.name.as_str());
    }
    let ext = match raw_extension(info.name.as_str()) {
        Some(e) => Some(lowercase(e)),
        None => None,
    };
    match &ext {
        Some(e) => {
            match ext_icon(e.as_str()) {
                Some(icon) => {
                    return icon.to_owned();
                },
                None => {},
            }
        },
        None => {},
    }
    let hidden = if info.name.as_str().unicode_len() > 0 {
        info.name.as_str().get_char(0) == '.'
    } else {
        false
    };
    if hidden {
        "⚙️".to_owned()
    } else if is_executable(info.posix_mode, info.name.as_str()) {
        "💾".to_owned()
    } else if is_text_file(&info.content) {
        "📝".to_owned()
    } else {
        get_unix_emoji_or(info.special, "❓").to_owned()
    }
}

} // verus!

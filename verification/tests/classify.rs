//! Classifier behaviour: precedence, the extension table, the fallback
//! chain, and the content sniff.

use lsmoji::emoji_utils::{
    get_dev_emoji, get_emoji, get_unix_emoji_or, is_executable, is_text_file, EntryInfo,
    SpecialKind,
};

fn plain_info(name: &str) -> EntryInfo {
    EntryInfo {
        name: name.to_owned(),
        is_symlink: false,
        symlink_target_is_dir: false,
        is_dir: false,
        in_dev_dir: false,
        special: SpecialKind::Regular,
        posix_mode: Some(0o644),
        content: Some(Vec::new()),
    }
}

#[test]
fn empty_sample_counts_as_text() {
    assert!(is_text_file(&Some(Vec::new())));
}

#[test]
fn nul_byte_sample_is_not_text() {
    assert!(!is_text_file(&Some(vec![0u8])));
}

#[test]
fn unreadable_sample_is_not_text() {
    assert!(!is_text_file(&None));
}

#[test]
fn printable_ascii_and_whitespace_are_text() {
    assert!(is_text_file(&Some(b"hello world\t\r\n".to_vec())));
    assert!(!is_text_file(&Some(b"almost\x80text".to_vec())));
}

#[test]
fn symlinks_win_over_everything() {
    let mut info = plain_info("link.png");
    info.is_symlink = true;
    assert_eq!(get_emoji(&info), "🔗");
    info.symlink_target_is_dir = true;
    assert_eq!(get_emoji(&info), "🔗📁");
}

#[test]
fn directories_get_the_folder_icon() {
    let mut info = plain_info("stuff.png");
    info.is_dir = true;
    assert_eq!(get_emoji(&info), "📁");
}

#[test]
fn extension_table_matches_case_insensitively() {
    assert_eq!(get_emoji(&plain_info("photo.png")), "📸");
    assert_eq!(get_emoji(&plain_info("NOTES.MD")), "📑");
    assert_eq!(get_emoji(&plain_info("song.flac")), "🎧");
    assert_eq!(get_emoji(&plain_info("clip.webm")), "🎬");
    assert_eq!(get_emoji(&plain_info("bundle.tar")), "📦");
    assert_eq!(get_emoji(&plain_info("tool.deb")), "📥");
    assert_eq!(get_emoji(&plain_info("prog.rs")), "💻");
    assert_eq!(get_emoji(&plain_info("obj.o")), "🧩");
    assert_eq!(get_emoji(&plain_info("readme.txt")), "📝");
    assert_eq!(get_emoji(&plain_info("font.woff2")), "🔤");
    assert_eq!(get_emoji(&plain_info("book.epub")), "📚");
    assert_eq!(get_emoji(&plain_info("host.pem")), "🔑");
    assert_eq!(get_emoji(&plain_info("data.csv")), "📊");
    assert_eq!(get_emoji(&plain_info("linux.torrent")), "🌊");
    assert_eq!(get_emoji(&plain_info("boot.iso")), "💽");
    assert_eq!(get_emoji(&plain_info("vm.qcow2")), "🐮");
    assert_eq!(get_emoji(&plain_info("game.vv")), "🕹️");
    assert_eq!(get_emoji(&plain_info("paper.docx")), "📄");
    assert_eq!(get_emoji(&plain_info("settings.toml")), "⚙️");
}

#[test]
fn dotfiles_without_known_extension_get_the_gear() {
    assert_eq!(get_emoji(&plain_info(".bashrc")), "⚙️");
}

#[test]
fn executables_get_the_disk_icon() {
    let mut info = plain_info("run-me");
    info.posix_mode = Some(0o755);
    info.content = Some(vec![0u8, 1, 2]);
    assert_eq!(get_emoji(&info), "💾");
}

#[test]
fn text_content_gets_the_note_icon() {
    let mut info = plain_info("LICENSE");
    info.content = Some(b"Permission is hereby granted".to_vec());
    assert_eq!(get_emoji(&info), "📝");
}

#[test]
fn binary_content_falls_to_the_unknown_icon() {
    let mut info = plain_info("blob");
    info.content = Some(vec![0u8, 159, 146, 150]);
    assert_eq!(get_emoji(&info), "❓");
}

#[test]
fn device_like_files_fall_to_their_kind() {
    let mut info = plain_info("pipe");
    info.special = SpecialKind::Fifo;
    info.content = None;
    assert_eq!(get_emoji(&info), "⏩");
    info.special = SpecialKind::Socket;
    assert_eq!(get_emoji(&info), "󰟩");
    info.special = SpecialKind::CharDevice;
    assert_eq!(get_emoji(&info), "🔤");
    info.special = SpecialKind::BlockDevice;
    assert_eq!(get_emoji(&info), "💽");
}

#[test]
fn device_directory_names_pick_device_icons() {
    assert_eq!(get_dev_emoji("null"), "⓿");
    assert_eq!(get_dev_emoji("zero"), "⓿");
    assert_eq!(get_dev_emoji("urandom"), "🎲");
    assert_eq!(get_dev_emoji("tty0"), "🖥️");
    assert_eq!(get_dev_emoji("sda1"), "💽");
    assert_eq!(get_dev_emoji("nvme0n1"), "💽");
    assert_eq!(get_dev_emoji("loop3"), "🔁");
    assert_eq!(get_dev_emoji("usbmon"), "🔌");
    assert_eq!(get_dev_emoji("kmsg"), "🔧");
}

#[test]
fn dev_dir_entries_use_the_device_table() {
    let mut info = plain_info("tty7");
    info.in_dev_dir = true;
    assert_eq!(get_emoji(&info), "🖥️");
}

#[test]
fn executability_by_mode_and_by_extension() {
    assert!(is_executable(Some(0o100), "whatever"));
    assert!(is_executable(Some(0o010), "whatever"));
    assert!(is_executable(Some(0o001), "whatever"));
    assert!(!is_executable(Some(0o644), "whatever"));
    assert!(is_executable(None, "Setup.EXE"));
    assert!(!is_executable(None, "setup.msi"));
    assert!(!is_executable(None, "noext"));
}

#[test]
fn unix_kind_default_passes_through_for_regular_files() {
    assert_eq!(get_unix_emoji_or(SpecialKind::Regular, "❓"), "❓");
    assert_eq!(get_unix_emoji_or(SpecialKind::Fifo, "❓"), "⏩");
}

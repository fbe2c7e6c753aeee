use simplepass::files::{
    announced_file_name, available_destination, check_staged_size, is_inert, is_safe_to_auto_open,
    is_staged_file, keeps_sender_copy, sanitize_file_name, stage_file_chunk, staged_file_path,
};
use simplepass::links::{is_http_url, open_link};
use simplepass::model::{MAX_SENDER_PERSIST_BYTES, MAX_STAGED_FILE_SIZE};
use simplepass::text::{
    byte_len, decimal_text, lowered_is, lowered_starts_with, same_text, starts_with, trim,
    white_space,
};

#[test]
fn white_space_is_what_the_standard_library_says() {
    for code in 0..=0x10ffff {
        if let Some(c) = char::from_u32(code) {
            assert_eq!(white_space(c), c.is_whitespace(), "{code:x}");
        }
    }
}

#[test]
fn trimming_agrees_with_the_standard_library() {
    for text in ["", " ", "a", " a", "a ", "\u{3000}a b\u{2028}", "\t\r\n", "é \u{85}", " ü ö "] {
        assert_eq!(trim(text), text.trim());
    }
}

#[test]
fn texts_are_compared_by_their_characters() {
    assert!(same_text("", ""));
    assert!(same_text("aé", "aé"));
    assert!(!same_text("a", "ab"));
    assert!(!same_text("ab", "ac"));
    assert!(starts_with("simplepass", "simple"));
    assert!(!starts_with("simp", "simple"));
    assert!(!starts_with("simpler", "simplo"));
    assert!(lowered_starts_with("HTTPS://X", "https://"));
    assert!(!lowered_starts_with("ftp://x", "http://"));
    assert!(lowered_is("PnG", "png"));
    assert!(!lowered_is("PnGs", "png"));
    assert!(!lowered_is("ÉNG", "éng"));
    assert_eq!(byte_len("é"), 2);
}

#[test]
fn numbers_are_written_in_decimal() {
    for n in [0u32, 7, 10, 99, 100, 65_536, u32::MAX] {
        assert_eq!(decimal_text(n), n.to_string());
    }
}

#[test]
fn only_http_urls_are_openable() {
    assert!(is_http_url("http://example.com"));
    assert!(is_http_url("https://example.com/path"));
    assert!(is_http_url("  HTTPS://EXAMPLE.COM  "));
    assert!(!is_http_url("file:///C:/secret.txt"));
    assert!(!is_http_url("\\\\attacker\\share"));
    assert!(!is_http_url("javascript:alert(1)"));
    assert!(!is_http_url("steam://run/123"));
}

#[test]
fn clicked_links_must_be_http() {
    assert!(open_link("https://example.com").is_ok());
    assert_eq!(open_link("file:///x").unwrap_err(), "Only http(s) links can be opened.");
}

#[test]
fn sanitize_file_name_strips_path_components() {
    // Traversal and absolute/UNC paths collapse to a bare component.
    assert_eq!(sanitize_file_name("../../etc/passwd"), "passwd");
    assert_eq!(sanitize_file_name(r"..\..\Startup\evil.bat"), "evil.bat");
    assert_eq!(sanitize_file_name(r"C:\Windows\system32\calc.exe"), "calc.exe");
    assert_eq!(sanitize_file_name(r"\\attacker\share\x.txt"), "x.txt");
    assert_eq!(sanitize_file_name("plain.pdf"), "plain.pdf");
    // Degenerate names fall back to a fixed safe name.
    assert_eq!(sanitize_file_name(".."), "received-file");
    assert_eq!(sanitize_file_name(""), "received-file");
    assert_eq!(sanitize_file_name("   "), "received-file");
    // A dotfile keeps its leading dot.
    assert_eq!(sanitize_file_name(".gitignore"), ".gitignore");
}

#[test]
fn sanitizing_trims_and_is_idempotent() {
    for name in ["a/ b.txt ", "x/..", "x/ . ", "dir\\", "é/ü.pdf", "a:b.txt"] {
        let once = sanitize_file_name(name);
        assert_eq!(sanitize_file_name(&once), once);
        assert!(!once.contains('/') && !once.contains('\\'));
    }
    assert_eq!(sanitize_file_name("a/ b.txt "), "b.txt");
    assert_eq!(sanitize_file_name("x/ . "), "received-file");
}

#[test]
fn auto_open_allowlist_excludes_executables() {
    // Inert, viewer-opened types are allowed.
    assert!(is_safe_to_auto_open("photo.PNG"));
    assert!(is_safe_to_auto_open("notes.txt"));
    assert!(is_safe_to_auto_open("doc.pdf"));
    // Executables / scripts / shortcuts / markup are never auto-opened.
    for unsafe_name in [
        "invoice.exe", "run.bat", "go.cmd", "x.ps1", "setup.msi", "link.lnk",
        "site.url", "page.hta", "index.html", "vector.svg", "macro.docm", "noext",
    ] {
        assert!(
            !is_safe_to_auto_open(unsafe_name),
            "{unsafe_name} must not be auto-openable"
        );
    }
}

#[test]
fn the_extension_is_that_of_the_final_component() {
    assert!(is_safe_to_auto_open("/home/me/Downloads/a.b.jpeg"));
    assert!(!is_safe_to_auto_open("/home/me/pictures.png/run"));
    assert!(!is_safe_to_auto_open("/home/me/.png"));
    assert!(!is_safe_to_auto_open("/home/me/photo."));
    assert!(!is_safe_to_auto_open(""));
    // Only what follows the last dot counts, with drives and shares too.
    assert!(is_safe_to_auto_open(r"C:\Users\me\Downloads\photo.png"));
    assert!(!is_safe_to_auto_open(r"C:\d\invoice.pdf.exe"));
    assert!(!is_safe_to_auto_open(r"\\host\share\invoice.pdf.exe"));
    assert!(!is_safe_to_auto_open(r"C:\pictures.png\run"));
    assert!(is_inert(&Some("YAML".to_string())));
    assert!(!is_inert(&Some("sh".to_string())));
    assert!(!is_inert(&None));
}

#[test]
fn every_allowed_extension_is_inert() {
    for extension in [
        "png", "jpg", "jpeg", "gif", "webp", "bmp", "tif", "tiff", "heic", "avif", "ico", "mp4",
        "m4v", "mov", "webm", "mkv", "avi", "mp3", "wav", "flac", "ogg", "m4a", "aac", "pdf",
        "txt", "md", "csv", "log", "rtf", "json", "xml", "yaml", "yml",
    ] {
        assert!(is_inert(&Some(extension.to_string())), "{extension}");
        assert!(is_inert(&Some(extension.to_uppercase())), "{extension}");
    }
}

#[test]
fn a_taken_name_is_numbered() {
    let mut destination = available_destination("report.pdf");
    assert_eq!(destination.candidate(), "report.pdf");
    destination.taken();
    assert_eq!(destination.candidate(), "report (1).pdf");
    destination.taken();
    assert_eq!(destination.candidate(), "report (2).pdf");
}

#[test]
fn numbers_go_before_the_last_extension() {
    let mut archive = available_destination("a.tar.gz");
    archive.taken();
    assert_eq!(archive.candidate(), "a.tar (1).gz");
    let mut bare = available_destination("../../escape");
    assert_eq!(bare.candidate(), "escape");
    bare.taken();
    assert_eq!(bare.candidate(), "escape (1)");
    let mut hidden = available_destination(".gitignore");
    hidden.taken();
    assert_eq!(hidden.candidate(), ".gitignore (1)");
    let mut colon = available_destination("a:b.txt");
    assert_eq!(colon.candidate(), "a:b.txt");
    colon.taken();
    assert!(colon.candidate() == "a:b (1).txt" || colon.candidate() == "b (1).txt");
}

#[test]
fn the_first_free_name_is_found() {
    let taken = ["a.txt", "a (1).txt", "a (2).txt", "a (4).txt"];
    let mut destination = available_destination("a.txt");
    while taken.contains(&destination.candidate().as_str()) {
        destination.taken();
    }
    assert_eq!(destination.candidate(), "a (3).txt");
    assert_eq!(destination.counter, 3);
}

#[test]
fn transfers_of_different_names_never_claim_one_name() {
    let mut taken: Vec<String> = Vec::new();
    for name in ["a.txt", "a.txt", "a (1).txt", "a.txt", "b.txt"] {
        let mut destination = available_destination(name);
        while taken.contains(&destination.candidate()) {
            destination.taken();
        }
        taken.push(destination.candidate());
    }
    assert_eq!(taken, ["a.txt", "a (1).txt", "a (1) (1).txt", "a (2).txt", "b.txt"]);
}

#[test]
fn separators_and_dots_at_the_end_of_a_path_are_passed_over() {
    assert_eq!(announced_file_name(""), "file");
    assert_eq!(announced_file_name("."), "file");
    assert_eq!(announced_file_name(".."), "file");
    assert_eq!(announced_file_name("a/b/"), "b");
    assert_eq!(announced_file_name("a/b/."), "b");
    assert_eq!(announced_file_name("a/b//./"), "b");
    assert_eq!(announced_file_name("a/../"), "file");
    assert_eq!(announced_file_name("a/.b"), ".b");
    assert!(is_safe_to_auto_open("a/photo.png/"));
    assert!(!is_safe_to_auto_open("a/photo.png/.."));
}

#[test]
fn files_in_network_shares_are_judged_by_their_extension() {
    assert!(is_safe_to_auto_open(r"\\server\share\photo.png"));
    assert!(is_safe_to_auto_open(r"\\server\share\deep\er\notes.TXT"));
    assert!(is_safe_to_auto_open("//server/share/photo.png"));
    assert!(!is_safe_to_auto_open(r"\\server\share.png\run.exe"));
    assert!(!is_safe_to_auto_open(r"\\server\share\run.bat"));
}

#[test]
fn a_file_is_announced_by_its_final_component() {
    assert_eq!(announced_file_name("/home/me/a b.txt"), "a b.txt");
    assert_eq!(announced_file_name("plain"), "plain");
    assert_eq!(announced_file_name("/"), "file");
    assert_eq!(announced_file_name("/home/.."), "file");
    // Where drives are known the name is "x.txt", elsewhere the whole path.
    assert!(announced_file_name(r"C:\d\x.txt").ends_with("x.txt"));
}

#[test]
fn staging_ids_are_held_to_a_safe_alphabet() {
    assert_eq!(staged_file_path("Ab-9").unwrap(), "simplepass-stage-Ab-9");
    for id in ["", "../x", "a/b", "a b", "é"] {
        assert_eq!(staged_file_path(id).unwrap_err(), "Invalid staging id.");
    }
    assert!(is_staged_file("simplepass-stage-Ab-9"));
    assert!(!is_staged_file("simplepass"));
    assert!(!is_staged_file("other-simplepass-stage-1"));
}

#[test]
fn staged_chunks_are_decoded() {
    let chunk = stage_file_chunk("s1", "aGk=").unwrap();
    assert_eq!(chunk.name, "simplepass-stage-s1");
    assert_eq!(chunk.bytes, b"hi".to_vec());
    assert_eq!(stage_file_chunk("", "aGk=").unwrap_err(), "Invalid staging id.");
    assert!(stage_file_chunk("s1", "*").is_err());
}

#[test]
fn staged_files_are_bounded() {
    assert!(check_staged_size(MAX_STAGED_FILE_SIZE).is_ok());
    assert_eq!(
        check_staged_size(MAX_STAGED_FILE_SIZE + 1).unwrap_err(),
        "The staged file is too large."
    );
    assert!(keeps_sender_copy(MAX_SENDER_PERSIST_BYTES));
    assert!(!keeps_sender_copy(MAX_SENDER_PERSIST_BYTES + 1));
}

use std::io::{Cursor, Write};

use ydl_gui::releases::latest_tag_of_url;
use ydl_gui::zipfile::{deno_binary_from_zip, inspect_plugin_types, plugin_install_plan, zip_entry_names};
use zip::write::SimpleFileOptions;
use zip::{CompressionMethod, ZipWriter};

fn zip_of(entries: &[(&str, &[u8])], method: CompressionMethod) -> Vec<u8> {
    let mut w = ZipWriter::new(Cursor::new(Vec::new()));
    let opts = SimpleFileOptions::default().compression_method(method);
    for (name, data) in entries {
        if name.ends_with('/') {
            w.add_directory(name.trim_end_matches('/'), opts).unwrap();
        } else {
            w.start_file(*name, opts).unwrap();
            w.write_all(data).unwrap();
        }
    }
    w.finish().unwrap().into_inner()
}

#[test]
fn entry_names_come_in_order() {
    let z = zip_of(&[("a.txt", b"1"), ("dir/", b""), ("dir/b.py", b"2")], CompressionMethod::Stored);
    assert_eq!(
        zip_entry_names(&z),
        Some(vec!["a.txt".to_string(), "dir/".to_string(), "dir/b.py".to_string()])
    );
    assert_eq!(zip_entry_names(b"not a zip"), None);
}

#[test]
fn plugin_kinds_of_a_package() {
    let z = zip_of(
        &[
            ("yt_dlp_plugins/extractor/x.py", b"x"),
            ("yt_dlp_plugins/postprocessor/y.py", b"y"),
        ],
        CompressionMethod::Deflated,
    );
    assert_eq!(inspect_plugin_types(&z), Ok(vec!["extractor".to_string(), "postprocessor".to_string()]));
    let only = zip_of(&[("yt_dlp_plugins/extractor/x.py", b"x")], CompressionMethod::Stored);
    assert_eq!(inspect_plugin_types(&only), Ok(vec!["extractor".to_string()]));
    let none = zip_of(&[("readme.md", b"r")], CompressionMethod::Stored);
    assert_eq!(inspect_plugin_types(&none), Err("err_plugin_layout".to_string()));
    assert_eq!(inspect_plugin_types(b"junk"), Err("err_plugin_layout".to_string()));
}

#[test]
fn plugin_install_takes_the_files_under_the_plugin_folder() {
    let z = zip_of(
        &[
            ("README.md", b"r"),
            ("yt_dlp_plugins/", b""),
            ("yt_dlp_plugins/extractor/", b""),
            ("yt_dlp_plugins/extractor/x.py", b"print(1)"),
            ("other/yt_dlp_plugins/z.py", b"z"),
        ],
        CompressionMethod::Deflated,
    );
    assert_eq!(
        plugin_install_plan(&z),
        Ok(vec![("extractor/x.py".to_string(), b"print(1)".to_vec())])
    );
    let bad = plugin_install_plan(b"junk").unwrap_err();
    assert!(bad.starts_with("err_read_zip:"), "{}", bad);
}

#[test]
fn deno_is_found_by_its_lower_cased_name() {
    let z = zip_of(&[("README", b"r"), ("bin/DENO", b"\x7fELF")], CompressionMethod::Deflated);
    assert_eq!(deno_binary_from_zip(&z, "deno"), Ok(b"\x7fELF".to_vec()));
    let w = zip_of(&[("deno.exe", b"MZ")], CompressionMethod::Stored);
    assert_eq!(deno_binary_from_zip(&w, "deno.exe"), Ok(b"MZ".to_vec()));
    assert_eq!(deno_binary_from_zip(&w, "deno"), Err("err_not_found_in_zip:deno".to_string()));
    assert!(deno_binary_from_zip(b"", "deno").unwrap_err().starts_with("err_read_zip:"));
}

#[test]
fn latest_tag_from_the_redirected_address() {
    assert_eq!(
        latest_tag_of_url("https://github.com/yt-dlp/yt-dlp/releases/tag/2024.08.06?x=1#f"),
        Ok("2024.08.06".to_string())
    );
    assert_eq!(
        latest_tag_of_url("https://github.com/yt-dlp/yt-dlp/releases/latest"),
        Err("err_latest_release_version".to_string())
    );
    assert_eq!(latest_tag_of_url("https://github.com"), Err("err_latest_release_version".to_string()));
    assert_eq!(
        latest_tag_of_url("https://github.com/a/releases/tag/"),
        Err("err_latest_release_version".to_string())
    );
}

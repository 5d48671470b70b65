use packbuild::bytestr::{
    container_path, derive_filename, join_path, loader_url, url_filename,
};

fn b(s: &str) -> Vec<u8> {
    s.as_bytes().to_vec()
}

#[test]
fn filename_from_simple_url() {
    assert_eq!(url_filename(&b("https://example.test/mod-a.jar")), b("mod-a.jar"));
}

#[test]
fn filename_from_nested_path() {
    assert_eq!(
        url_filename(&b("https://files.example.test/a/b/c/pack.zip")),
        b("pack.zip")
    );
}

#[test]
fn filename_from_url_with_port() {
    assert_eq!(
        url_filename(&b("http://example.test:8080/files/mod-b.jar")),
        b("mod-b.jar")
    );
}

#[test]
fn filename_ignores_query_and_fragment() {
    assert_eq!(
        url_filename(&b("https://example.test/dir/file.jar?sig=abc#part")),
        b("file.jar")
    );
}

#[test]
fn filename_falls_back_on_trailing_slash() {
    assert_eq!(url_filename(&b("https://example.test/dir/")), b("tmp.bin"));
}

#[test]
fn filename_falls_back_without_path() {
    assert_eq!(url_filename(&b("https://example.test")), b("tmp.bin"));
}

#[test]
fn filename_falls_back_on_non_url() {
    assert_eq!(url_filename(&b("not a url")), b("tmp.bin"));
}

#[test]
fn explicit_filename_wins() {
    assert_eq!(
        derive_filename(Some(b("fabric.jar")), &b("https://example.test/mod-a.jar")),
        b("fabric.jar")
    );
}

#[test]
fn derived_filename_comes_from_url() {
    assert_eq!(
        derive_filename(None, &b("https://example.test/mod-a.jar")),
        b("mod-a.jar")
    );
}

#[test]
fn join_inserts_one_separator() {
    assert_eq!(join_path(&b("/out/server"), &b("mods")), b("/out/server/mods"));
}

#[test]
fn container_appends_fixed_extension() {
    assert_eq!(container_path(&b("/out/server")), b("/out/server.7z"));
    assert_eq!(container_path(&b("/out/client")), b("/out/client.7z"));
}

#[test]
fn loader_url_is_deterministic_in_the_three_fields() {
    assert_eq!(
        loader_url(&b("1.20.1"), &b("0.15.0"), &b("1.0.0")),
        b("https://meta.fabricmc.net/v2/versions/loader/1.20.1/0.15.0/1.0.0/server/jar")
    );
}

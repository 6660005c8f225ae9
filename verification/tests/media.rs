use file_server::media::get_mimetype;

#[test]
fn png_is_an_image() {
    assert_eq!(get_mimetype("a.png"), "image/png");
}

#[test]
fn unknown_extension_is_plain_text() {
    assert_eq!(get_mimetype("a.unknownext"), "text/plain");
}

#[test]
fn no_extension_is_plain_text() {
    assert_eq!(get_mimetype("noext"), "text/plain");
}

#[test]
fn jpg_is_a_jpeg_image() {
    assert_eq!(get_mimetype("photo.jpg"), "image/jpeg");
}

#[test]
fn json_is_application_json() {
    assert_eq!(get_mimetype("data.json"), "application/json");
}

#[test]
fn js_is_application_javascript() {
    assert_eq!(get_mimetype("app.js"), "application/javascript");
}

#[test]
fn only_the_last_extension_counts() {
    assert_eq!(get_mimetype("archive.png.txt"), "text/plain");
    assert_eq!(get_mimetype("archive.txt.png"), "image/png");
    assert_eq!(get_mimetype("a.json.js"), "application/javascript");
}

#[test]
fn a_known_word_without_a_dot_is_no_extension() {
    assert_eq!(get_mimetype("png"), "text/plain");
    assert_eq!(get_mimetype("json"), "text/plain");
}

#[test]
fn a_name_that_is_only_an_extension_has_its_type() {
    assert_eq!(get_mimetype(".png"), "image/png");
}

#[test]
fn empty_name_and_trailing_dot_are_plain_text() {
    assert_eq!(get_mimetype(""), "text/plain");
    assert_eq!(get_mimetype("a."), "text/plain");
    assert_eq!(get_mimetype("."), "text/plain");
}

#[test]
fn extensions_are_matched_exactly() {
    assert_eq!(get_mimetype("a.PNG"), "text/plain");
    assert_eq!(get_mimetype("a.jpeg"), "text/plain");
    assert_eq!(get_mimetype("a.pngx"), "text/plain");
    assert_eq!(get_mimetype("a.jso"), "text/plain");
}

#[test]
fn directories_do_not_change_the_type() {
    assert_eq!(get_mimetype("./images/logo.png"), "image/png");
    assert_eq!(get_mimetype("./v1.2/readme"), "text/plain");
    assert_eq!(get_mimetype("./png"), "text/plain");
    assert_eq!(get_mimetype("./a.b/c.json"), "application/json");
}

#[test]
fn names_outside_ascii_are_handled() {
    assert_eq!(get_mimetype("été.json"), "application/json");
    assert_eq!(get_mimetype("a.pñg"), "text/plain");
}

#[test]
fn the_same_name_gives_the_same_type() {
    assert_eq!(get_mimetype("x.js"), get_mimetype("x.js"));
}

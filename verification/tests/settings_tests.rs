use dustcfg::conf::render_conf_from_settings;
use dustcfg::settings::split_lines;

fn split(data: &str) -> Vec<String> {
    split_lines(&data.as_bytes().to_vec())
        .into_iter()
        .map(|l| String::from_utf8(l).unwrap())
        .collect()
}

#[test]
fn test_split_lines_basic() {
    assert_eq!(vec!["a", "b"], split("a\nb\n"));
    assert_eq!(vec!["a", "b"], split("a\nb"));
}

#[test]
fn test_split_lines_empty_and_blank() {
    assert!(split("").is_empty());
    assert_eq!(vec!["a", "", "b"], split("a\n\nb\n"));
}

#[test]
fn test_split_lines_strips_crlf_terminators() {
    assert_eq!(vec!["a", "b"], split("a\r\nb\r\n"));
}

#[test]
fn test_conf_from_settings_scenario() {
    let settings = b"export PORT=3000\nDUST_PATH=/var/dust\n".to_vec();
    assert_eq!(
        "[Service]\nEnvironment=PORT=3000\nDUST_PATH=/var/dust\n",
        String::from_utf8(render_conf_from_settings(&settings)).unwrap()
    );
}

#[test]
fn test_conf_from_settings_twice_is_identical() {
    let settings = b"export PORT=3000\nexport HOST=0.0.0.0".to_vec();
    assert_eq!(
        render_conf_from_settings(&settings),
        render_conf_from_settings(&settings)
    );
}

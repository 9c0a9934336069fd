use dustcfg::conf::render_conf;
use dustcfg::transcode::transcode_line;

fn tl(line: &str) -> String {
    String::from_utf8(transcode_line(&line.as_bytes().to_vec())).unwrap()
}

#[test]
fn test_transcode_replaces_marker_line() {
    assert_eq!("Environment=PORT=3000", tl("export PORT=3000"));
}

#[test]
fn test_transcode_passes_unmarked_line_through() {
    assert_eq!("DUST_PATH=/var/dust", tl("DUST_PATH=/var/dust"));
    assert_eq!("", tl(""));
    assert_eq!("exportX=1", tl("exportX=1"));
}

#[test]
fn test_transcode_replaces_first_occurrence_only() {
    assert_eq!("Environment=A=export B", tl("export A=export B"));
    assert_eq!("Environment=export X", tl("export export X"));
}

#[test]
fn test_transcode_marker_in_middle() {
    assert_eq!("say Environment=HOME=/r", tl("say export HOME=/r"));
}

#[test]
fn test_render_conf_scenario() {
    let lines: Vec<Vec<u8>> = vec![
        b"export PORT=3000".to_vec(),
        b"DUST_PATH=/var/dust".to_vec(),
    ];
    let conf = render_conf(&lines);
    assert_eq!(
        "[Service]\nEnvironment=PORT=3000\nDUST_PATH=/var/dust\n",
        String::from_utf8(conf).unwrap()
    );
}

#[test]
fn test_render_conf_empty_settings() {
    let lines: Vec<Vec<u8>> = Vec::new();
    assert_eq!("[Service]\n", String::from_utf8(render_conf(&lines)).unwrap());
}

#[test]
fn test_render_conf_is_deterministic() {
    let lines: Vec<Vec<u8>> = vec![
        b"export A=1".to_vec(),
        b"export B=2".to_vec(),
        b"plain".to_vec(),
    ];
    assert_eq!(render_conf(&lines), render_conf(&lines));
}

#[test]
fn test_render_conf_keeps_line_order() {
    let lines: Vec<Vec<u8>> = vec![
        b"export Z=26".to_vec(),
        b"export A=1".to_vec(),
        b"M=13".to_vec(),
    ];
    let conf = String::from_utf8(render_conf(&lines)).unwrap();
    let rendered: Vec<&str> = conf.lines().collect();
    assert_eq!(
        vec!["[Service]", "Environment=Z=26", "Environment=A=1", "M=13"],
        rendered
    );
}

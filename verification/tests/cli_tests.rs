use ponchi::cli::{
    empty_scene, output_format, parse_port, run, CliError, Command, OutputFormat, PortError,
};

fn args(a: &[&str]) -> Vec<String> {
    a.iter().map(|s| s.to_string()).collect()
}

#[test]
fn no_arguments_or_help_ask_for_usage() {
    assert!(matches!(run(&args(&[])), Ok(Command::Help)));
    assert!(matches!(run(&args(&["--help"])), Ok(Command::Help)));
    assert!(matches!(run(&args(&["-h", "junk"])), Ok(Command::Help)));
}

#[test]
fn unknown_command_is_refused() {
    match run(&args(&["draw"])) {
        Err(e) => {
            assert!(matches!(&e, CliError::UnknownCommand(c) if c == "draw"));
            assert_eq!(e.message(), "unknown command: draw");
        }
        Ok(_) => panic!("expected an error"),
    }
}

#[test]
fn render_reads_input_output_and_fonts() {
    match run(&args(&[
        "render", "scene.json", "--out", "a.png", "--font-family", "Serif", "--font-path", "fonts",
    ])) {
        Ok(Command::Render(o)) => {
            assert_eq!(o.input, "scene.json");
            assert_eq!(o.output, "a.png");
            assert_eq!(o.font_family, "Serif");
            assert_eq!(o.font_path.as_deref(), Some("fonts"));
        }
        _ => panic!("expected a render command"),
    }
    match run(&args(&["render", "-o", "x.svg", "in.json"])) {
        Ok(Command::Render(o)) => {
            assert_eq!(o.input, "in.json");
            assert_eq!(o.output, "x.svg");
            assert_eq!(o.font_family, "Yomogi");
            assert!(o.font_path.is_none());
        }
        _ => panic!("expected a render command"),
    }
}

#[test]
fn render_errors() {
    let e = run(&args(&["render", "-o"])).err().unwrap();
    assert_eq!(e.message(), "missing value for -o");
    let e = run(&args(&["render", "--out", "--font-family", "x"])).err().unwrap();
    assert_eq!(e.message(), "missing value for -o");
    let e = run(&args(&["render", "-o", "a.png"])).err().unwrap();
    assert_eq!(e.message(), "missing <scene.json>");
    let e = run(&args(&["render", "in.json"])).err().unwrap();
    assert_eq!(e.message(), "missing -o <out.png|out.svg>");
    let e = run(&args(&["render", "a.json", "b.json"])).err().unwrap();
    assert_eq!(e.message(), "unexpected argument: b.json");
    let e = run(&args(&["render", "-x"])).err().unwrap();
    assert_eq!(e.message(), "unexpected argument: -x");
}

#[test]
fn serve_reads_port_and_fonts() {
    match run(&args(&["serve", "--port", "8080", "--font-family", "F"])) {
        Ok(Command::Serve(o)) => {
            assert_eq!(o.port, Some(8080));
            assert_eq!(o.font_family, "F");
            assert!(o.font_path.is_none());
        }
        _ => panic!("expected a serve command"),
    }
    match run(&args(&["serve"])) {
        Ok(Command::Serve(o)) => assert_eq!(o.port, None),
        _ => panic!("expected a serve command"),
    }
}

#[test]
fn serve_errors() {
    let e = run(&args(&["serve", "--port", "70000"])).err().unwrap();
    assert!(matches!(e, CliError::BadPort(PortError::Overflow)));
    assert_eq!(e.message(), "number too large to fit in target type");
    let e = run(&args(&["serve", "--port", "-1"])).err().unwrap();
    assert_eq!(e.message(), "invalid digit found in string");
    let e = run(&args(&["serve", "--port"])).err().unwrap();
    assert_eq!(e.message(), "missing value for --port");
    let e = run(&args(&["serve", "scene.json"])).err().unwrap();
    assert_eq!(e.message(), "unexpected argument: scene.json");
}

#[test]
fn port_numbers_read_like_u16() {
    for s in ["0", "80", "+80", "65535", "007", "1x", "", "+", "-5", "65536", "99999x", "1234x"] {
        let expected = s.parse::<u16>().map_err(|e| e.to_string());
        let got = parse_port(s).map_err(|k| match k {
            PortError::Empty => "cannot parse integer from empty string".to_string(),
            PortError::InvalidDigit => "invalid digit found in string".to_string(),
            PortError::Overflow => "number too large to fit in target type".to_string(),
        });
        assert_eq!(got, expected, "input {s:?}");
    }
}

#[test]
fn output_format_from_extension() {
    assert_eq!(output_format("out/diagram.png"), Some(OutputFormat::Png));
    assert_eq!(output_format("a.SVG"), Some(OutputFormat::Svg));
    assert_eq!(output_format("a.svg/"), Some(OutputFormat::Svg));
    assert_eq!(output_format("a.svg/."), Some(OutputFormat::Svg));
    assert_eq!(output_format(".svg"), None);
    assert_eq!(output_format("dir.png/file"), None);
    assert_eq!(output_format("a.jpg"), None);
    assert_eq!(output_format("x.svg/.."), None);
    assert_eq!(output_format(""), None);
}

#[test]
fn output_format_agrees_with_std_path() {
    for p in [
        "a.png", "a.b.svg", ".png", "x/.svg", "x/y.PnG", "a.", "a..svg", "/", "a/..", "./a.svg",
        "a.svg//", "...svg", "a/./", "b.svg/./",
    ] {
        let ext = std::path::Path::new(p)
            .extension()
            .and_then(|e| e.to_str())
            .map(str::to_ascii_lowercase);
        let expected = match ext.as_deref() {
            Some("svg") => Some(OutputFormat::Svg),
            Some("png") => Some(OutputFormat::Png),
            _ => None,
        };
        assert_eq!(output_format(p), expected, "path {p:?}");
    }
}

#[test]
fn empty_scene_is_valid() {
    let s = empty_scene();
    assert!(s.validate().is_ok());
    assert_eq!(s.canvas.w, 800);
    assert_eq!(s.canvas.h, 400);
    assert_eq!(s.texts.len(), 1);
    assert_eq!(s.texts[0].text, "POST a scene to /api/scene");
    assert_eq!(f32::from_bits(s.texts[0].x.bits), 40.0);
    assert_eq!(f32::from_bits(s.texts[0].y.bits), 60.0);
}

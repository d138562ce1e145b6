use dprint_shfmt::configuration::{Configuration, LanguageVariant};
use dprint_shfmt::format_text::{build_args, classify_exit, command_line, Argument};
use dprint_shfmt::plugin::{plugin_details, tool_file_name};

#[test]
fn arguments_for_an_indent_of_two_in_bash() {
    let config = Configuration {
        indent_width: 2,
        binary_next_line: false,
        switch_case_indent: false,
        space_redirects: false,
        keep_padding: false,
        function_next_line: false,
    };
    assert_eq!(build_args(&config, LanguageVariant::default()), vec!["-i", "2", "-ln", "bash"]);
}

#[test]
fn dialect_follows_the_options() {
    let config = Configuration {
        indent_width: 0,
        binary_next_line: true,
        switch_case_indent: false,
        space_redirects: false,
        keep_padding: true,
        function_next_line: false,
    };
    assert_eq!(build_args(&config, LanguageVariant::Bats), vec!["-bn", "-kp", "-ln", "bats"]);
    assert_eq!(build_args(&Configuration::default(), LanguageVariant::Posix), vec!["-ln", "posix"]);
}

#[test]
fn input_file_is_the_last_argument() {
    let text = |t: &str| Argument::Text(t.to_string());
    let config = Configuration {
        indent_width: 4,
        binary_next_line: true,
        switch_case_indent: true,
        space_redirects: true,
        keep_padding: true,
        function_next_line: true,
    };
    assert_eq!(
        command_line(&config, LanguageVariant::Mksh),
        vec![
            text("-i"),
            text("4"),
            text("-bn"),
            text("-ci"),
            text("-sr"),
            text("-kp"),
            text("-fn"),
            text("-ln"),
            text("mksh"),
            Argument::InputFile,
        ]
    );
    assert_eq!(
        command_line(&Configuration::default(), LanguageVariant::default()),
        vec![text("-ln"), text("bash"), Argument::InputFile]
    );
}

#[test]
fn success_gives_the_standard_output_untouched() {
    let out = b"ls | while read file; do echo $file; done\n";
    assert_eq!(
        classify_exit(true, out, b"warning"),
        Ok("ls | while read file; do echo $file; done\n".to_string())
    );
    assert_eq!(classify_exit(true, b"  a\r\n\n", b""), Ok("  a\r\n\n".to_string()));
    assert_eq!(classify_exit(true, b"", b"ignored"), Ok(String::new()));
}

#[test]
fn failure_gives_the_standard_error_as_the_message() {
    assert_eq!(
        classify_exit(false, b"partial", b"<standard input>:1:1: not a valid test operator\n"),
        Err("<standard input>:1:1: not a valid test operator\n".to_string())
    );
    assert_eq!(classify_exit(false, b"out", b""), Err(String::new()));
}

#[test]
fn bytes_that_are_no_text_are_replaced() {
    assert_eq!(classify_exit(true, &[0x66, 0xff, 0x6f], b""), Ok("f\u{fffd}o".to_string()));
    assert_eq!(classify_exit(false, b"", &[0xc3, 0x28]), Err("\u{fffd}(".to_string()));
    assert_eq!(classify_exit(true, "h\u{e9}".as_bytes(), b""), Ok("h\u{e9}".to_string()));
}

#[test]
fn plugin_tells_the_host_what_it_formats() {
    let details = plugin_details("dprint-plugin-shfmt", "0.1.0");
    assert_eq!(details.name, "dprint-plugin-shfmt");
    assert_eq!(details.version, "0.1.0");
    assert_eq!(details.config_key, "shfmt");
    assert_eq!(details.file_extensions, vec!["sh"]);
    assert_eq!(details.help_url, "https://github.com/mvdan/sh/blob/master/cmd/shfmt/shfmt.1.scd#examples");
    assert_eq!(details.config_schema_url, "");
}

#[test]
fn formatter_file_name_depends_on_the_platform() {
    assert_eq!(tool_file_name(false), "shfmt");
    assert_eq!(tool_file_name(true), "shfmt.exe");
}

#[test]
fn format_text() {
    let language = LanguageVariant::default();

    let config = Configuration {
        indent_width: 2,
        binary_next_line: false,
        switch_case_indent: false,
        space_redirects: false,
        keep_padding: false,
        function_next_line: false,
    };
    assert_eq!(build_args(&config, language), vec!["-i", "2", "-ln", "bash"]);

    // what the formatter prints for each source: the formatted text and a line feed
    vec![
        ("", ""),
        (
            r#"funWithParam(){echo "helloworld"}"#,
            r#"funWithParam() {echo "helloworld"}"#,
        ),
        (
            "ls|while read file;do echo $file;done",
            "ls | while read file; do echo $file; done",
        ),
    ]
    .into_iter()
    .for_each(|(_src, dst)| {
        let printed = format!("{}\n", dst);
        let rst = classify_exit(true, printed.as_bytes(), b"").unwrap();
        assert_eq!(rst, printed);
        assert_eq!(rst.trim_end(), dst);
    });
}

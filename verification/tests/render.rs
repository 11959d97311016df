use ffmpeg_cli::{FfmpegBuilder, File, Parameter, Redirect};

#[test]
fn renders_global_input_output() {
    let builder = FfmpegBuilder::new()
        .option(Parameter::Single("y".to_string()))
        .input(File::new("in.mkv".to_string()))
        .output(
            File::new("out.mp4".to_string())
                .option(Parameter::KeyValue("vcodec".to_string(), "libx265".to_string())),
        );
    let args = builder.to_args();
    assert_eq!(
        args,
        vec![
            "-y".to_string(),
            "-i".to_string(),
            "in.mkv".to_string(),
            "-vcodec".to_string(),
            "libx265".to_string(),
            "out.mp4".to_string(),
        ]
    );
}

#[test]
fn renders_key_value_as_two_arguments() {
    let builder =
        FfmpegBuilder::new().option(Parameter::KeyValue("t".to_string(), "10".to_string()));
    assert_eq!(builder.to_args(), vec!["-t".to_string(), "10".to_string()]);
}

#[test]
fn empty_flag_name_renders_one_empty_argument() {
    let builder = FfmpegBuilder::new().option(Parameter::Single(String::new()));
    assert_eq!(builder.to_args(), vec!["".to_string()]);
}

#[test]
fn input_options_come_before_the_input_marker() {
    let builder = FfmpegBuilder::new().input(
        File::new("cam".to_string())
            .option(Parameter::KeyValue("f".to_string(), "v4l2".to_string())),
    );
    assert_eq!(
        builder.to_args(),
        vec!["-f".to_string(), "v4l2".to_string(), "-i".to_string(), "cam".to_string()]
    );
}

#[test]
fn options_keep_their_order() {
    let builder = FfmpegBuilder::new()
        .option(Parameter::Single("nostdin".to_string()))
        .option(Parameter::Single("y".to_string()));
    assert_eq!(builder.to_args(), vec!["-nostdin".to_string(), "-y".to_string()]);
}

#[test]
fn builder_defaults() {
    let b = FfmpegBuilder::new();
    assert_eq!(b.ffmpeg_command, "ffmpeg");
    assert_eq!(b.stdin, Redirect::Discard);
    assert_eq!(b.stdout, Redirect::Discard);
    assert_eq!(b.stderr, Redirect::Discard);
    assert!(b.options.is_empty());
    assert!(b.inputs.is_empty());
    assert!(b.outputs.is_empty());
}

#[test]
fn redirect_setters_take_effect() {
    let b = FfmpegBuilder::new().stdin(Redirect::Inherit).stdout(Redirect::Piped).stderr(
        Redirect::Piped,
    );
    assert_eq!(b.stdin, Redirect::Inherit);
    assert_eq!(b.stdout, Redirect::Piped);
    assert_eq!(b.stderr, Redirect::Piped);
}

#[test]
fn progress_url_renders_the_port() {
    assert_eq!(ffmpeg_cli::progress_url(12345), "tcp://127.0.0.1:12345");
    assert_eq!(ffmpeg_cli::progress_url(0), "tcp://127.0.0.1:0");
    assert_eq!(ffmpeg_cli::progress_url(65535), "tcp://127.0.0.1:65535");
}

#[test]
fn report_to_appends_the_progress_option() {
    let builder = FfmpegBuilder::new().option(Parameter::Single("y".to_string())).report_to(8080);
    assert_eq!(
        builder.to_args(),
        vec![
            "-y".to_string(),
            "-progress".to_string(),
            "tcp://127.0.0.1:8080".to_string(),
        ]
    );
}

use zinc64::cli::{Autostart, Cli, JamAction, ParsedArgs, Startup};

fn no_args() -> ParsedArgs {
    ParsedArgs {
        model: None,
        autostart: None,
        binary: None,
        offset: None,
        console: false,
        fullscreen: false,
        width: None,
        height: None,
        speed: None,
        warp: false,
        joydev1: None,
        joydev2: None,
        nosound: false,
        nosidfilters: false,
        soundbufsize: None,
        soundrate: None,
        bp: vec![],
        debug: false,
        debugaddress: None,
        jamaction: None,
        rap: None,
        loglevel: None,
        log: vec![],
        help: false,
        version: false,
    }
}

#[test]
fn app_options_defaults() {
    let options = Cli::parse_app_options(&no_args()).unwrap();
    assert!(!options.fullscreen);
    assert_eq!((800, 600), options.window_size);
    assert_eq!(100, options.speed);
    assert!(!options.warp_mode);
    assert!(!options.debug);
    assert_eq!(None, options.dbg_address);
    assert_eq!(JamAction::Continue, options.jam_action);
    assert_eq!(None, options.rap_address);
}

#[test]
fn app_options_given() {
    let mut args = no_args();
    args.fullscreen = true;
    args.width = Some("1024".to_string());
    args.height = Some("+768".to_string());
    args.speed = Some("250".to_string());
    args.warp = true;
    args.debug = true;
    args.debugaddress = Some("127.0.0.1:9999".to_string());
    args.jamaction = Some("quit".to_string());
    args.rap = Some("127.0.0.1:9998".to_string());
    let options = Cli::parse_app_options(&args).unwrap();
    assert!(options.fullscreen);
    assert_eq!((1024, 768), options.window_size);
    assert_eq!(250, options.speed);
    assert!(options.warp_mode && options.debug);
    assert_eq!(Some("127.0.0.1:9999".to_string()), options.dbg_address);
    assert_eq!(JamAction::Quit, options.jam_action);
    assert_eq!(Some("127.0.0.1:9998".to_string()), options.rap_address);
}

#[test]
fn jam_action_names() {
    assert_eq!(JamAction::Continue, JamAction::from("continue"));
    assert_eq!(JamAction::Quit, JamAction::from("quit"));
    assert_eq!(JamAction::Reset, JamAction::from("reset"));
}

#[test]
fn system_config_defaults() {
    let config = Cli::parse_system_config(&no_args()).unwrap();
    assert_eq!("pal", config.model);
    assert_eq!(None, config.joystick.joystick_1);
    assert_eq!("numpad", config.joystick.joystick_2);
    assert!(config.sound.enable);
    assert_eq!(4096, config.sound.buffer_size);
    assert_eq!(44100, config.sound.sample_rate);
    assert!(config.sound.sid_filters);
}

#[test]
fn system_config_given() {
    let mut args = no_args();
    args.model = Some("ntsc".to_string());
    args.joydev1 = Some("joy0".to_string());
    args.joydev2 = Some("none".to_string());
    args.nosound = true;
    args.nosidfilters = true;
    args.soundbufsize = Some("2048".to_string());
    args.soundrate = Some("48000".to_string());
    let config = Cli::parse_system_config(&args).unwrap();
    assert_eq!("ntsc", config.model);
    assert_eq!(Some("joy0".to_string()), config.joystick.joystick_1);
    assert_eq!("none", config.joystick.joystick_2);
    assert!(!config.sound.enable);
    assert_eq!(2048, config.sound.buffer_size);
    assert_eq!(48000, config.sound.sample_rate);
    assert!(!config.sound.sid_filters);
}

#[test]
fn startup_breakpoints_and_binary() {
    let mut args = no_args();
    args.bp = vec!["4096".to_string(), "49152".to_string()];
    args.binary = Some("prog.bin".to_string());
    args.offset = Some("2049".to_string());
    let mut startup = Startup { breakpoints: vec![1], autostart: Autostart::Nothing };
    Cli::set_c64_options(&mut startup, &args).unwrap();
    assert_eq!(vec![1, 4096, 49152], startup.breakpoints);
    match startup.autostart {
        Autostart::Binary { path, offset } => {
            assert_eq!("prog.bin", path);
            assert_eq!(2049, offset);
        },
        _ => panic!("expected a binary to load"),
    }
}

#[test]
fn startup_image_wins_over_binary() {
    let mut args = no_args();
    args.autostart = Some("game.prg".to_string());
    args.binary = Some("prog.bin".to_string());
    let mut startup = Startup { breakpoints: vec![], autostart: Autostart::Nothing };
    Cli::set_c64_options(&mut startup, &args).unwrap();
    assert!(matches!(startup.autostart, Autostart::Image(ref p) if p == "game.prg"));
    let mut args = no_args();
    args.binary = Some("prog.bin".to_string());
    Cli::set_c64_options(&mut startup, &args).unwrap();
    assert!(matches!(startup.autostart, Autostart::Binary { offset: 0, .. }));
    Cli::set_c64_options(&mut startup, &no_args()).unwrap();
    assert!(matches!(startup.autostart, Autostart::Nothing));
}

#[test]
fn startup_ignores_unused_offset() {
    let mut args = no_args();
    args.offset = Some("not a number".to_string());
    let mut startup = Startup { breakpoints: vec![], autostart: Autostart::Nothing };
    Cli::set_c64_options(&mut startup, &args).unwrap();
    assert!(matches!(startup.autostart, Autostart::Nothing));
    args.autostart = Some("game.prg".to_string());
    args.binary = Some("prog.bin".to_string());
    Cli::set_c64_options(&mut startup, &args).unwrap();
    assert!(matches!(startup.autostart, Autostart::Image(ref p) if p == "game.prg"));
}

fn command_line(words: &[&str]) -> Vec<String> {
    words.iter().map(|w| w.to_string()).collect()
}

#[test]
fn parse_args_reads_options() {
    let args = command_line(&[
        "zinc64", "--width", "1024", "-f", "--bp", "4096", "--bp=49152", "--joydev1", "numpad",
        "--nosound", "-d", "--log", "cpu=trace",
    ]);
    let m = Cli::parse_args(&args).unwrap();
    assert_eq!(Some("1024".to_string()), m.width);
    assert!(m.fullscreen && m.nosound && m.debug);
    assert!(!m.warp && !m.help && !m.version && !m.console);
    assert_eq!(vec!["4096".to_string(), "49152".to_string()], m.bp);
    assert_eq!(Some("numpad".to_string()), m.joydev1);
    assert_eq!(vec!["cpu=trace".to_string()], m.log);
    assert_eq!(None, m.height);
    assert_eq!(None, m.model);
    let options = Cli::parse_app_options(&m).unwrap();
    assert_eq!((1024, 600), options.window_size);
}

#[test]
fn parse_args_program_name_only() {
    let m = Cli::parse_args(&command_line(&["zinc64"])).unwrap();
    assert!(!m.fullscreen && !m.help && m.bp.is_empty());
    assert_eq!(None, m.autostart);
    let m = Cli::parse_args(&command_line(&["zinc64", "-h", "-V"])).unwrap();
    assert!(m.help && m.version);
}

#[test]
fn parse_args_rejects_unknown_option() {
    let err = Cli::parse_args(&command_line(&["zinc64", "--frobnicate"])).err().unwrap();
    assert_eq!("Invalid options\nUnrecognized option: 'frobnicate'", err);
}

#[test]
fn parse_args_rejects_missing_value() {
    let err = Cli::parse_args(&command_line(&["zinc64", "--width"])).err().unwrap();
    assert_eq!("Invalid options\nArgument to option 'width' missing", err);
    let err = Cli::parse_args(&command_line(&["zinc64", "--width", "1", "--width", "2"])).err().unwrap();
    assert_eq!("Invalid options\nOption 'width' given more than once", err);
}

#[test]
fn usage_lists_options() {
    let text = Cli::usage();
    assert!(text.starts_with("C64 rustified emulator\n\nOptions:\n"));
    assert!(text.contains("--model [ntsc|pal]"));
    assert!(text.contains("-f, --fullscreen"));
    assert!(text.contains("--bp address"));
}

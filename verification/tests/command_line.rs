use raytracer::cli::{
    parse_args, parse_count, CliError, Options, DEFAULT_HEIGHT, DEFAULT_OUTPUT, DEFAULT_WIDTH,
};

fn asked(line: &[&str]) -> Result<Options, CliError> {
    let args: Vec<Vec<u8>> = line.iter().map(|a| a.as_bytes().to_vec()).collect();
    parse_args(&args)
}

fn options(wireframe: bool, width: usize, height: usize, names: &[usize]) -> Options {
    Options { wireframe, width, height, names: names.to_vec() }
}

#[test]
fn nothing_asked_gives_the_defaults() {
    let plain = asked(&[]).unwrap();
    assert_eq!(plain, options(false, 1280, 720, &[]));
    assert_eq!((DEFAULT_WIDTH, DEFAULT_HEIGHT, DEFAULT_OUTPUT), (1280, 720, "out.png"));
    assert_eq!(plain.output(), None);
    assert_eq!(plain.scene(), None);
}

#[test]
fn names_are_the_picture_and_the_scene() {
    let one = asked(&["picture.png"]).unwrap();
    assert_eq!(one, options(false, 1280, 720, &[0]));
    assert_eq!((one.scene(), one.output()), (None, Some(0)));
    let two = asked(&["scene.txt", "--wireframe", "picture.png"]).unwrap();
    assert_eq!(two, options(true, 1280, 720, &[0, 2]));
    assert_eq!((two.scene(), two.output()), (Some(0), Some(2)));
    let three = asked(&["a", "b", "c"]).unwrap();
    assert_eq!((three.scene(), three.output()), (Some(0), Some(2)));
    let pipes = asked(&["-", "-"]).unwrap();
    assert_eq!(pipes, options(false, 1280, 720, &[0, 1]));
    assert_eq!(asked(&[""]).unwrap(), options(false, 1280, 720, &[0]));
}

#[test]
fn long_options() {
    assert_eq!(asked(&["--wireframe"]), Ok(options(true, 1280, 720, &[])));
    assert_eq!(asked(&["--width", "64"]), Ok(options(false, 64, 720, &[])));
    assert_eq!(asked(&["--height", "48"]), Ok(options(false, 1280, 48, &[])));
    assert_eq!(
        asked(&["--height", "48", "out", "--width", "+64", "--wireframe"]),
        Ok(options(true, 64, 48, &[2]))
    );
    assert_eq!(asked(&["--width", "0"]), Ok(options(false, 0, 720, &[])));
    assert_eq!(asked(&["--width", "1", "--width", "2"]), Ok(options(false, 2, 720, &[])));
    // the value is taken as it comes, whatever it looks like
    assert_eq!(asked(&["--width", "--height"]), Err(CliError::InvalidValue { arg: 0 }));
}

#[test]
fn short_options() {
    assert_eq!(asked(&["-W"]), Ok(options(true, 1280, 720, &[])));
    assert_eq!(asked(&["-w", "64"]), Ok(options(false, 64, 720, &[])));
    assert_eq!(asked(&["-h", "48"]), Ok(options(false, 1280, 48, &[])));
    assert_eq!(asked(&["-w64"]), Ok(options(false, 64, 720, &[])));
    assert_eq!(asked(&["-h48", "-w64"]), Ok(options(false, 64, 48, &[])));
    assert_eq!(asked(&["-Ww64"]), Ok(options(true, 64, 720, &[])));
    assert_eq!(asked(&["-WWh", "48", "x"]), Ok(options(true, 1280, 48, &[2])));
    assert_eq!(asked(&["-WW"]), Ok(options(true, 1280, 720, &[])));
    // what stands behind the letter is its value, to the end
    assert_eq!(asked(&["-w64W"]), Err(CliError::InvalidValue { arg: 0 }));
    assert_eq!(asked(&["-wW"]), Err(CliError::InvalidValue { arg: 0 }));
}

#[test]
fn refused_command_lines() {
    assert_eq!(asked(&["--width"]), Err(CliError::MissingValue { arg: 0 }));
    assert_eq!(asked(&["x", "--height"]), Err(CliError::MissingValue { arg: 1 }));
    assert_eq!(asked(&["-w"]), Err(CliError::MissingValue { arg: 0 }));
    assert_eq!(asked(&["-W", "-Wh"]), Err(CliError::MissingValue { arg: 1 }));
    assert_eq!(asked(&["--width", "wide"]), Err(CliError::InvalidValue { arg: 0 }));
    assert_eq!(asked(&["--width", "-1"]), Err(CliError::InvalidValue { arg: 0 }));
    assert_eq!(asked(&["--width", ""]), Err(CliError::InvalidValue { arg: 0 }));
    assert_eq!(asked(&["-h", "1.5"]), Err(CliError::InvalidValue { arg: 0 }));
    assert_eq!(asked(&["a", "-h", "x"]), Err(CliError::InvalidValue { arg: 1 }));
    assert_eq!(asked(&["--depth", "3"]), Err(CliError::UnknownOption { arg: 0 }));
    assert_eq!(asked(&["--"]), Err(CliError::UnknownOption { arg: 0 }));
    assert_eq!(asked(&["--Wireframe"]), Err(CliError::UnknownOption { arg: 0 }));
    assert_eq!(asked(&["--widthx", "3"]), Err(CliError::UnknownOption { arg: 0 }));
    assert_eq!(asked(&["-x"]), Err(CliError::UnknownFlag { arg: 0, flag: b'x' }));
    assert_eq!(asked(&["-Wx"]), Err(CliError::UnknownFlag { arg: 0, flag: b'x' }));
    assert_eq!(asked(&["ok", "-W", "-H"]), Err(CliError::UnknownFlag { arg: 2, flag: b'H' }));
    // the first fault is told
    assert_eq!(asked(&["-x", "--width"]), Err(CliError::UnknownFlag { arg: 0, flag: b'x' }));
}

#[test]
fn counts() {
    assert_eq!(parse_count(b"0"), Some(0));
    assert_eq!(parse_count(b"1280"), Some(1280));
    assert_eq!(parse_count(b"+7"), Some(7));
    assert_eq!(parse_count(b"007"), Some(7));
    assert_eq!(parse_count(usize::MAX.to_string().as_bytes()), Some(usize::MAX));
    assert_eq!(parse_count(b"18446744073709551616"), None);
    assert_eq!(parse_count(b"99999999999999999999999999"), None);
    assert_eq!(parse_count(b""), None);
    assert_eq!(parse_count(b"+"), None);
    assert_eq!(parse_count(b"-7"), None);
    assert_eq!(parse_count(b"7 "), None);
    assert_eq!(parse_count(b"7a"), None);
    assert_eq!(parse_count(b"++7"), None);
    assert_eq!(parse_count(b"1e3"), None);
}

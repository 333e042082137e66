//! The options of the command line.
//!
//! `--wireframe` or `-W` asks for the picture of outlines, `--width` and
//! `--height`, or `-w` and `-h`, set the size of the picture; the value
//! follows as the next argument, or stands right behind the short flag.
//! Short flags may stand together behind one hyphen. Every other argument,
//! and a hyphen alone, is a name.

use crate::text::{
    digit_at, is_digit, lemma_spelled_grows, same_bytes, spelled, MINUS, PLUS, ZERO,
};
use vstd::prelude::*;
use vstd::slice::slice_subrange;

verus! {

/// The width of the picture where none is asked for.
pub const DEFAULT_WIDTH: usize = 1280;

/// The height of the picture where none is asked for.
pub const DEFAULT_HEIGHT: usize = 720;

/// The name of the picture where none is given.
pub const DEFAULT_OUTPUT: &'static str = "out.png";

/// What the command line asks for. `names` holds the indices of the
/// arguments that are names, in their order.
#[derive(Debug, PartialEq, Eq)]
pub struct Options {
    pub wireframe: bool,
    pub width: usize,
    pub height: usize,
    pub names: Vec<usize>,
}

/// What a command line asks for, as a value of specifications.
pub struct Choice {
    pub wireframe: bool,
    pub width: usize,
    pub height: usize,
    pub names: Seq<usize>,
}

/// Why a command line is refused. `arg` is the index of the argument at
/// fault.
#[derive(Clone, Copy, Debug, PartialEq, Eq)]
pub enum CliError {
    /// The option is the last argument, and its value is missing.
    MissingValue { arg: usize },
    /// The value of the option is no number, or too large a one.
    InvalidValue { arg: usize },
    /// No long option has this name.
    UnknownOption { arg: usize },
    /// No short option has this letter.
    UnknownFlag { arg: usize, flag: u8 },
}

impl Options {
    pub open spec fn view(&self) -> Choice {
        Choice {
            wireframe: self.wireframe,
            width: self.width,
            height: self.height,
            names: self.names@,
        }
    }

    /// The index of the argument that names the picture: the last name.
    /// Without a name the picture has the default one.
    pub fn output(&self) -> (r: Option<usize>)
        ensures
            r == output_spec(self@),
    {
        if self.names.len() > 0 {
            Some(self.names[self.names.len() - 1])
        } else {
            None
        }
    }

    /// The index of the argument that names the scene: the first name,
    /// where there are two or more. Else the built-in scene is meant.
    pub fn scene(&self) -> (r: Option<usize>)
        ensures
            r == scene_spec(self@),
    {
        if self.names.len() > 1 {
            Some(self.names[0])
        } else {
            None
        }
    }
}

/// The last name, if there is a name.
pub open spec fn output_spec(choice: Choice) -> Option<usize> {
    if choice.names.len() > 0 {
        Some(choice.names.last())
    } else {
        None
    }
}

/// The first name, if there are two or more.
pub open spec fn scene_spec(choice: Choice) -> Option<usize> {
    if choice.names.len() > 1 {
        Some(choice.names[0])
    } else {
        None
    }
}

/// What is asked for before any argument is read.
pub open spec fn defaults() -> Choice {
    Choice { wireframe: false, width: DEFAULT_WIDTH, height: DEFAULT_HEIGHT, names: Seq::empty() }
}

/// The word `wireframe`.
pub open spec fn wireframe_word() -> Seq<u8> {
    seq![119u8, 105u8, 114u8, 101u8, 102u8, 114u8, 97u8, 109u8, 101u8]
}

/// The word `width`.
pub open spec fn width_word() -> Seq<u8> {
    seq![119u8, 105u8, 100u8, 116u8, 104u8]
}

/// The word `height`.
pub open spec fn height_word() -> Seq<u8> {
    seq![104u8, 101u8, 105u8, 103u8, 104u8, 116u8]
}

/// The argument is a long option: it begins with two hyphens.
pub open spec fn is_long(arg: Seq<u8>) -> bool {
    arg.len() >= 2 && arg[0] == MINUS && arg[1] == MINUS
}

/// The argument is a name: a hyphen alone, or a text that does not begin
/// with a hyphen.
pub open spec fn is_name(arg: Seq<u8>) -> bool {
    arg.len() == 0 || arg[0] != MINUS || arg.len() == 1
}

/// The count that a text spells: digits, after a plus sign or none, whose
/// number fits the machine.
pub open spec fn parse_count_spec(s: Seq<u8>) -> Option<usize> {
    let start: int = if s.len() > 0 && s[0] == PLUS {
        1
    } else {
        0
    };
    if start < s.len() && (forall|i: int| start <= i < s.len() ==> is_digit(#[trigger] s[i]))
        && spelled(s, start, s.len() - start) <= usize::MAX {
        Some(spelled(s, start, s.len() - start) as usize)
    } else {
        None
    }
}

/// The choice with the size set: the width for the letter `w`, the height
/// for any other.
pub open spec fn sized(choice: Choice, letter: u8, value: usize) -> Choice {
    if letter == 119 {
        Choice { width: value, ..choice }
    } else {
        Choice { height: value, ..choice }
    }
}

/// What the arguments from index `i` on ask for, on top of `choice`. With
/// `k` zero the argument is read from its beginning; else `k` is the place
/// of the next short flag in it.
pub open spec fn parse_at(args: Seq<Seq<u8>>, i: int, k: int, choice: Choice) -> Result<
    Choice,
    CliError,
>
    decreases args.len() - i, (if 0 <= i < args.len() {
        args[i].len() - k
    } else {
        0
    }),
{
    if i < 0 || i >= args.len() || k < 0 {
        Ok(choice)
    } else {
        let arg = args[i];
        if k == 0 {
            if is_name(arg) {
                parse_at(args, i + 1, 0, Choice { names: choice.names.push(i as usize), ..choice })
            } else if !is_long(arg) {
                parse_at(args, i, 1, choice)
            } else {
                let name = arg.subrange(2, arg.len() as int);
                if name == wireframe_word() {
                    parse_at(args, i + 1, 0, Choice { wireframe: true, ..choice })
                } else if name == width_word() || name == height_word() {
                    if i + 1 >= args.len() {
                        Err(CliError::MissingValue { arg: i as usize })
                    } else {
                        match parse_count_spec(args[i + 1]) {
                            None => Err(CliError::InvalidValue { arg: i as usize }),
                            Some(value) => parse_at(args, i + 2, 0, sized(choice, name[0], value)),
                        }
                    }
                } else {
                    Err(CliError::UnknownOption { arg: i as usize })
                }
            }
        } else if k >= arg.len() {
            parse_at(args, i + 1, 0, choice)
        } else if arg[k] == 87 {
            parse_at(args, i, k + 1, Choice { wireframe: true, ..choice })
        } else if arg[k] == 119 || arg[k] == 104 {
            if k + 1 < arg.len() {
                match parse_count_spec(arg.subrange(k + 1, arg.len() as int)) {
                    None => Err(CliError::InvalidValue { arg: i as usize }),
                    Some(value) => parse_at(args, i + 1, 0, sized(choice, arg[k], value)),
                }
            } else if i + 1 >= args.len() {
                Err(CliError::MissingValue { arg: i as usize })
            } else {
                match parse_count_spec(args[i + 1]) {
                    None => Err(CliError::InvalidValue { arg: i as usize }),
                    Some(value) => parse_at(args, i + 2, 0, sized(choice, arg[k], value)),
                }
            }
        } else {
            Err(CliError::UnknownFlag { arg: i as usize, flag: arg[k] })
        }
    }
}

/// What a command line asks for.
pub open spec fn parse_args_spec(args: Seq<Seq<u8>>) -> Result<Choice, CliError> {
    parse_at(args, 0, 0, defaults())
}

/// The texts that a list of arguments holds.
pub open spec fn texts(args: Seq<Vec<u8>>) -> Seq<Seq<u8>> {
    Seq::new(args.len(), |i: int| args[i]@)
}

/// Reads a count.
pub fn parse_count(s: &[u8]) -> (r: Option<usize>)
    ensures
        r == parse_count_spec(s@),
{
    let start: usize = if s.len() > 0 && s[0] == PLUS {
        1
    } else {
        0
    };
    if start >= s.len() {
        return None;
    }
    let mut i: usize = start;
    let mut value: usize = 0;
    while i < s.len()
        invariant
            start <= i <= s.len(),
            start == (if s@.len() > 0 && s@[0] == PLUS {
                1int
            } else {
                0int
            }),
            forall|j: int| start <= j < i ==> is_digit(#[trigger] s@[j]),
            value == spelled(s@, start as int, i - start),
        decreases s.len() - i,
    {
        let b = s[i];
        if !(ZERO <= b && b <= 57) {
            assert(!is_digit(s@[i as int]));
            return None;
        }
        let d = (b - ZERO) as usize;
        assert(d == digit_at(s@, i as int));
        assert(spelled(s@, start as int, i + 1 - start) == spelled(s@, start as int, i - start)
            * 10 + d);
        if value > (usize::MAX - d) / 10 {
            proof {
                assert(value * 10 + d > usize::MAX);
                lemma_spelled_grows(s@, start as int, i + 1 - start, s@.len() - start);
            }
            return None;
        }
        value = value * 10 + d;
        i = i + 1;
    }
    Some(value)
}

/// What the library hands back agrees with what the command line asks
/// for.
pub open spec fn agrees(r: Result<Options, CliError>, asked: Result<Choice, CliError>) -> bool {
    match r {
        Ok(options) => asked == Ok::<Choice, CliError>(options@),
        Err(e) => asked == Err::<Choice, CliError>(e),
    }
}

/// Reads the arguments of a command line, the name of the program left
/// out.
pub fn parse_args(args: &Vec<Vec<u8>>) -> (r: Result<Options, CliError>)
    ensures
        agrees(r, parse_args_spec(texts(args@))),
{
    let wireframe_name: Vec<u8> = vec![
        119u8, 105u8, 114u8, 101u8, 102u8, 114u8, 97u8, 109u8, 101u8,
    ];
    let width_name: Vec<u8> = vec![119u8, 105u8, 100u8, 116u8, 104u8];
    let height_name: Vec<u8> = vec![104u8, 101u8, 105u8, 103u8, 104u8, 116u8];
    assert(wireframe_name@ =~= wireframe_word());
    assert(width_name@ =~= width_word());
    assert(height_name@ =~= height_word());
    let ghost all = texts(args@);
    let mut options = Options {
        wireframe: false,
        width: DEFAULT_WIDTH,
        height: DEFAULT_HEIGHT,
        names: Vec::new(),
    };
    assert(options@.names =~= defaults().names);
    let mut i: usize = 0;
    let mut k: usize = 0;
    while i < args.len()
        invariant
            i <= args.len(),
            all == texts(args@),
            i < args.len() ==> k <= args@[i as int]@.len(),
            wireframe_name@ == wireframe_word(),
            width_name@ == width_word(),
            height_name@ == height_word(),
            parse_args_spec(all) == parse_at(all, i as int, k as int, options@),
        decreases args.len() - i, (if i < args.len() {
            args@[i as int]@.len() - k
        } else {
            0
        }),
    {
        assert(all[i as int] == args@[i as int]@);
        let arg = args[i].as_slice();
        if k == 0 {
            if arg.len() == 0 || arg[0] != MINUS || arg.len() == 1 {
                let ghost before = options@;
                options.names.push(i);
                assert(options@.names == before.names.push(i));
                i = i + 1;
            } else if arg[1] != MINUS {
                k = 1;
            } else {
                let name = slice_subrange(arg, 2, arg.len());
                if same_bytes(name, wireframe_name.as_slice()) {
                    options.wireframe = true;
                    i = i + 1;
                } else if same_bytes(name, width_name.as_slice()) || same_bytes(
                    name,
                    height_name.as_slice(),
                ) {
                    if args.len() - i < 2 {
                        return Err(CliError::MissingValue { arg: i });
                    }
                    assert(all[i + 1] == args@[i + 1]@);
                    match parse_count(args[i + 1].as_slice()) {
                        None => {
                            return Err(CliError::InvalidValue { arg: i });
                        },
                        Some(value) => {
                            if name[0] == 119 {
                                options.width = value;
                            } else {
                                options.height = value;
                            }
                            i = i + 2;
                        },
                    }
                } else {
                    return Err(CliError::UnknownOption { arg: i });
                }
            }
        } else if k >= arg.len() {
            i = i + 1;
            k = 0;
        } else if arg[k] == 87 {
            options.wireframe = true;
            k = k + 1;
        } else if arg[k] == 119 || arg[k] == 104 {
            let letter = arg[k];
            let attached = arg.len() - k > 1;
            if !attached && args.len() - i < 2 {
                return Err(CliError::MissingValue { arg: i });
            }
            let found = if attached {
                parse_count(slice_subrange(arg, k + 1, arg.len()))
            } else {
                assert(all[i + 1] == args@[i + 1]@);
                parse_count(args[i + 1].as_slice())
            };
            match found {
                None => {
                    return Err(CliError::InvalidValue { arg: i });
                },
                Some(value) => {
                    if letter == 119 {
                        options.width = value;
                    } else {
                        options.height = value;
                    }
                    i = if attached {
                        i + 1
                    } else {
                        i + 2
                    };
                    k = 0;
                },
            }
        } else {
            return Err(CliError::UnknownFlag { arg: i, flag: arg[k] });
        }
    }
    Ok(options)
}

} // verus!

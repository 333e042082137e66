//! What holds of the texts that the library reads.

use crate::cli::{
    defaults, height_word, is_long, is_name, output_spec, parse_args_spec, parse_at,
    parse_count_spec, scene_spec, sized, width_word, wireframe_word, Choice, CliError,
};
use crate::text::{
    collapsed_upto, is_blank, join_spec, pieces, split_spec, stands_at, SPACE, TAB,
};
use vstd::prelude::*;

verus! {

/// A text whose runs of blanks have become one space holds no tab and no
/// two spaces side by side, and it ends in a space just where the text it
/// came from ends in a blank.
pub proof fn lemma_single_whitespace(s: Seq<u8>, n: int)
    requires
        0 <= n <= s.len(),
    ensures
        ({
            let out = collapsed_upto(s, n);
            &&& out.len() <= n
            &&& forall|i: int| 0 <= i < out.len() ==> #[trigger] out[i] != TAB
            &&& forall|i: int|
                1 <= i < out.len() ==> !(#[trigger] out[i] == SPACE && out[i - 1] == SPACE)
            &&& (n > 0 ==> out.len() > 0 && (out.last() == SPACE <==> is_blank(s[n - 1])))
        }),
    decreases n,
{
    if n > 0 {
        lemma_single_whitespace(s, n - 1);
    }
}

/// A text is cut in at least one piece, a text without separators in
/// itself.
pub proof fn lemma_split_has_pieces(s: Seq<u8>, sep: Seq<u8>)
    ensures
        split_spec(s, sep).len() >= 1,
        (forall|at: int| !stands_at(s, sep, at)) ==> split_spec(s, sep) == seq![s],
{
    lemma_pieces(s, sep, 0, 0);
    assert(s.subrange(0, s.len() as int) =~= s);
}

proof fn lemma_pieces(s: Seq<u8>, sep: Seq<u8>, start: int, at: int)
    requires
        0 <= start <= at,
    ensures
        pieces(s, sep, start, at).len() >= 1,
        (forall|k: int| !stands_at(s, sep, k)) ==> pieces(s, sep, start, at) == seq![
            s.subrange(start, s.len() as int),
        ],
    decreases s.len() - at,
{
    if sep.len() == 0 || at + sep.len() > s.len() {
    } else if stands_at(s, sep, at) {
        lemma_pieces(s, sep, at + sep.len(), at + sep.len());
    } else {
        lemma_pieces(s, sep, start, at + 1);
    }
}

/// The pieces of a text, put together again with the separator between
/// them, are the text.
pub proof fn lemma_split_then_join(s: Seq<u8>, sep: Seq<u8>)
    ensures
        join_spec(split_spec(s, sep), sep) == s,
{
    lemma_join_pieces(s, sep, 0, 0);
    assert(s.subrange(0, s.len() as int) =~= s);
}

proof fn lemma_join_pieces(s: Seq<u8>, sep: Seq<u8>, start: int, at: int)
    requires
        0 <= start <= at <= s.len(),
    ensures
        join_spec(pieces(s, sep, start, at), sep) == s.subrange(start, s.len() as int),
    decreases s.len() - at,
{
    let end = s.len() as int;
    if sep.len() == 0 || at + sep.len() > s.len() {
    } else if stands_at(s, sep, at) {
        let next = at + sep.len();
        let rest = pieces(s, sep, next, next);
        lemma_join_pieces(s, sep, next, next);
        lemma_pieces(s, sep, next, next);
        let all = seq![s.subrange(start, at)] + rest;
        assert(all.drop_first() =~= rest);
        assert(all[0] == s.subrange(start, at));
        assert(s.subrange(start, at) + sep + s.subrange(next, end) =~= s.subrange(start, end));
    } else {
        lemma_join_pieces(s, sep, start, at + 1);
    }
}

/// The names that a command line gives are arguments of it, and so is the
/// argument for which it is refused.
pub proof fn lemma_names_are_arguments(args: Seq<Seq<u8>>)
    requires
        args.len() <= usize::MAX,
    ensures
        match parse_args_spec(args) {
            Ok(choice) => {
                &&& forall|j: int|
                    0 <= j < choice.names.len() ==> #[trigger] choice.names[j] < args.len()
                &&& output_spec(choice) matches Some(i) ==> i < args.len()
                &&& scene_spec(choice) matches Some(i) ==> i < args.len()
            },
            Err(CliError::MissingValue { arg }) => arg < args.len(),
            Err(CliError::InvalidValue { arg }) => arg < args.len(),
            Err(CliError::UnknownOption { arg }) => arg < args.len(),
            Err(CliError::UnknownFlag { arg, flag }) => arg < args.len(),
        },
{
    lemma_parse_at_in_range(args, 0, 0, defaults());
}

proof fn lemma_parse_at_in_range(args: Seq<Seq<u8>>, i: int, k: int, choice: Choice)
    requires
        args.len() <= usize::MAX,
        forall|j: int| 0 <= j < choice.names.len() ==> #[trigger] choice.names[j] < args.len(),
    ensures
        match parse_at(args, i, k, choice) {
            Ok(found) => forall|j: int|
                0 <= j < found.names.len() ==> #[trigger] found.names[j] < args.len(),
            Err(CliError::MissingValue { arg }) => arg < args.len(),
            Err(CliError::InvalidValue { arg }) => arg < args.len(),
            Err(CliError::UnknownOption { arg }) => arg < args.len(),
            Err(CliError::UnknownFlag { arg, flag }) => arg < args.len(),
        },
    decreases args.len() - i, (if 0 <= i < args.len() {
        args[i].len() - k
    } else {
        0
    }),
{
    if i < 0 || i >= args.len() || k < 0 {
    } else {
        let arg = args[i];
        if k == 0 {
            if is_name(arg) {
                let named = Choice { names: choice.names.push(i as usize), ..choice };
                lemma_parse_at_in_range(args, i + 1, 0, named);
            } else if !is_long(arg) {
                lemma_parse_at_in_range(args, i, 1, choice);
            } else {
                let name = arg.subrange(2, arg.len() as int);
                if name == wireframe_word() {
                    lemma_parse_at_in_range(args, i + 1, 0, Choice { wireframe: true, ..choice });
                } else if name == width_word() || name == height_word() {
                    if i + 1 < args.len() {
                        match parse_count_spec(args[i + 1]) {
                            None => {},
                            Some(value) => {
                                lemma_parse_at_in_range(
                                    args,
                                    i + 2,
                                    0,
                                    sized(choice, name[0], value),
                                );
                            },
                        }
                    }
                }
            }
        } else if k >= arg.len() {
            lemma_parse_at_in_range(args, i + 1, 0, choice);
        } else if arg[k] == 87 {
            lemma_parse_at_in_range(args, i, k + 1, Choice { wireframe: true, ..choice });
        } else if arg[k] == 119 || arg[k] == 104 {
            if k + 1 < arg.len() {
                match parse_count_spec(arg.subrange(k + 1, arg.len() as int)) {
                    None => {},
                    Some(value) => {
                        lemma_parse_at_in_range(args, i + 1, 0, sized(choice, arg[k], value));
                    },
                }
            } else if i + 1 < args.len() {
                match parse_count_spec(args[i + 1]) {
                    None => {},
                    Some(value) => {
                        lemma_parse_at_in_range(args, i + 2, 0, sized(choice, arg[k], value));
                    },
                }
            }
        }
    }
}

} // verus!

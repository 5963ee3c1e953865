//! Reading the command line: mode flags, the stylesheet flag, and the one
//! positional argument that names a theme file or the built-in defaults.

use vstd::multiset::*;
use vstd::prelude::*;
use vstd::seq_lib::*;
use vstd::string::*;

verus! {

/// The usage text that is printed when help is asked for.
pub const HELP: &'static str = "\
set-cosmic-theme

USAGE:
  set-cosmic-theme [MODES] {THEME | default}

FLAGS:
  -h, --help    Print help information.

MODES:
  --dark        Set the COSMIC dark theme.
  --light       Set the COSMIC light theme.
                If neither --dark or --light are specified, which theme to set
                is determined based on the theme file's palette, or if setting
                the default theme, both themes are set.
  --gtk4        Set the GTK4 user CSS based on the theme file.

ARGS:
  <THEME>       The theme file to set. Should be a RON theme file exported from
                cosmic-settings or in the same format.
  default       Set the theme(s) back to the default for the given mode.
                Incompatible with --gtk4.
";

/// The arguments of one invocation, once the flags have been taken out.
#[derive(Clone, Debug, PartialEq, Eq)]
pub struct Args {
    pub set_dark: bool,
    pub set_light: bool,
    pub set_gtk4: bool,
    /// The theme file that was named; `None` stands for the built-in defaults.
    pub theme_file: Option<String>,
}

/// An `Args` value with its path as a sequence of characters.
pub struct ArgsView {
    pub set_dark: bool,
    pub set_light: bool,
    pub set_gtk4: bool,
    pub theme_file: Option<Seq<char>>,
}

impl View for Args {
    type V = ArgsView;

    open spec fn view(&self) -> ArgsView {
        ArgsView {
            set_dark: self.set_dark,
            set_light: self.set_light,
            set_gtk4: self.set_gtk4,
            theme_file: match self.theme_file {
                Some(path) => Some(path@),
                None => None,
            },
        }
    }
}

/// What a command line asks for.
#[derive(Clone, Debug, PartialEq, Eq)]
pub enum Invocation {
    /// Print the usage text and do nothing else.
    Help,
    /// Install a theme as the arguments say.
    Apply(Args),
}

pub enum InvocationView {
    Help,
    Apply(ArgsView),
}

impl View for Invocation {
    type V = InvocationView;

    open spec fn view(&self) -> InvocationView {
        match self {
            Invocation::Help => InvocationView::Help,
            Invocation::Apply(args) => InvocationView::Apply(args@),
        }
    }
}

/// A command line that cannot be carried out.
#[derive(Clone, Copy, Debug, PartialEq, Eq, Structural)]
pub enum UsageError {
    /// `--gtk4` together with `default`: the defaults have no stylesheet.
    DefaultWithGtk4,
    /// No theme file and no `default` was given.
    MissingTheme,
    /// More than one positional argument was given.
    TooManyArguments,
}

/// Whether one of the words asks for help.
pub open spec fn asks_for_help(line: Seq<Seq<char>>) -> bool {
    line.contains("-h"@) || line.contains("--help"@)
}

/// The line without the first occurrence of `word`, if it has one.
pub open spec fn without_first(line: Seq<Seq<char>>, word: Seq<char>) -> Seq<Seq<char>>
    decreases line.len(),
{
    if line.len() == 0 {
        line
    } else if line[0] == word {
        line.skip(1)
    } else {
        seq![line[0]] + without_first(line.skip(1), word)
    }
}

/// What is left of the line once each of the three flags has been taken out
/// once. A flag that is repeated stays behind as a positional argument.
pub open spec fn positionals(line: Seq<Seq<char>>) -> Seq<Seq<char>> {
    without_first(without_first(without_first(line, "--dark"@), "--light"@), "--gtk4"@)
}

/// The meaning of a command line.
pub open spec fn parse(line: Seq<Seq<char>>) -> Result<InvocationView, UsageError> {
    let rest = positionals(line);
    if asks_for_help(line) {
        Ok(InvocationView::Help)
    } else if rest.len() == 0 {
        Err(UsageError::MissingTheme)
    } else if rest.len() > 1 {
        Err(UsageError::TooManyArguments)
    } else if rest[0] == "default"@ && line.contains("--gtk4"@) {
        Err(UsageError::DefaultWithGtk4)
    } else {
        Ok(
            InvocationView::Apply(
                ArgsView {
                    set_dark: line.contains("--dark"@),
                    set_light: line.contains("--light"@),
                    set_gtk4: line.contains("--gtk4"@),
                    theme_file: if rest[0] == "default"@ {
                        None
                    } else {
                        Some(rest[0])
                    },
                },
            ),
        )
    }
}

/// A line without the word is left as it is.
pub proof fn lemma_without_first_absent(line: Seq<Seq<char>>, word: Seq<char>)
    requires
        !line.contains(word),
    ensures
        without_first(line, word) == line,
    decreases line.len(),
{
    if line.len() > 0 {
        assert(line[0] != word);
        assert forall|i: int| 0 <= i < line.skip(1).len() implies line.skip(1)[i] != word by {
            assert(line.skip(1)[i] == line[i + 1]);
        }
        lemma_without_first_absent(line.skip(1), word);
        assert(seq![line[0]] + line.skip(1) =~= line);
    }
}

/// Where the word first stands at `at`, exactly that element is removed.
pub proof fn lemma_without_first_at(line: Seq<Seq<char>>, word: Seq<char>, at: int)
    requires
        0 <= at < line.len(),
        line[at] == word,
        forall|j: int| 0 <= j < at ==> line[j] != word,
    ensures
        without_first(line, word) == line.remove(at),
    decreases at,
{
    if at == 0 {
        assert(line.skip(1) =~= line.remove(0));
    } else {
        assert(line[0] != word);
        let tail = line.skip(1);
        assert forall|j: int| 0 <= j < at - 1 implies tail[j] != word by {
            assert(tail[j] == line[j + 1]);
        }
        lemma_without_first_at(tail, word, at - 1);
        assert(seq![line[0]] + tail.remove(at - 1) =~= line.remove(at));
    }
}

/// Taking one word out does not change whether another word occurs.
pub proof fn lemma_without_first_keeps(line: Seq<Seq<char>>, word: Seq<char>, other: Seq<char>)
    requires
        other != word,
    ensures
        without_first(line, word).contains(other) <==> line.contains(other),
    decreases line.len(),
{
    if line.len() == 0 {
    } else if line[0] == word {
        let tail = line.skip(1);
        if tail.contains(other) {
            let i = choose|i: int| 0 <= i < tail.len() && tail[i] == other;
            assert(line[i + 1] == other);
        }
        if line.contains(other) {
            let i = choose|i: int| 0 <= i < line.len() && line[i] == other;
            assert(tail[i - 1] == other);
        }
    } else {
        let tail = line.skip(1);
        let kept = without_first(tail, word);
        let out = seq![line[0]] + kept;
        lemma_without_first_keeps(tail, word, other);
        if out.contains(other) {
            let i = choose|i: int| 0 <= i < out.len() && out[i] == other;
            if i == 0 {
                assert(line[0] == other);
            } else {
                assert(kept[i - 1] == other);
                let k = choose|k: int| 0 <= k < tail.len() && tail[k] == other;
                assert(line[k + 1] == other);
            }
        }
        if line.contains(other) {
            let i = choose|i: int| 0 <= i < line.len() && line[i] == other;
            if i == 0 {
                assert(out[0] == other);
            } else {
                assert(tail[i - 1] == other);
                let k = choose|k: int| 0 <= k < kept.len() && kept[k] == other;
                assert(out[k + 1] == other);
            }
        }
    }
}

/// Taking a word out of a line takes one occurrence out of the line's
/// multiset of words.
pub proof fn lemma_without_first_multiset(line: Seq<Seq<char>>, word: Seq<char>)
    ensures
        without_first(line, word).to_multiset() == line.to_multiset().remove(word),
    decreases line.len(),
{
    broadcast use group_multiset_axioms;

    line.to_multiset_ensures();
    if line.len() == 0 {
        assert(line.to_multiset().remove(word) =~= line.to_multiset());
    } else if line[0] == word {
        assert(line.skip(1) =~= line.remove(0));
    } else {
        let head = seq![line[0]];
        let tail = line.skip(1);
        lemma_without_first_multiset(tail, word);
        lemma_multiset_commutative(head, without_first(tail, word));
        lemma_multiset_commutative(head, tail);
        assert(head + tail =~= line);
        head.to_multiset_ensures();
        assert(head.to_multiset().count(word) == 0) by {
            if head.contains(word) {
                let i = choose|i: int| 0 <= i < head.len() && head[i] == word;
                assert(head[0] == line[0]);
            }
        }
        assert(head.to_multiset().add(tail.to_multiset().remove(word)) =~= head.to_multiset().add(
            tail.to_multiset(),
        ).remove(word));
    }
}

/// Taking a word out shortens the line by one where the word occurs, and
/// not at all where it does not.
pub proof fn lemma_without_first_len(line: Seq<Seq<char>>, word: Seq<char>)
    ensures
        without_first(line, word).len() == if line.contains(word) {
            line.len() - 1
        } else {
            line.len() as int
        },
    decreases line.len(),
{
    if line.len() == 0 {
    } else if line[0] == word {
    } else {
        let tail = line.skip(1);
        lemma_without_first_len(tail, word);
        if tail.contains(word) {
            let i = choose|i: int| 0 <= i < tail.len() && tail[i] == word;
            assert(line[i + 1] == word);
        }
        if line.contains(word) {
            let i = choose|i: int| 0 <= i < line.len() && line[i] == word;
            assert(tail[i - 1] == word);
        }
    }
}

/// The number of positional arguments: the words of the line, less one for
/// each of the three flags that occurs.
pub proof fn lemma_positionals_len(line: Seq<Seq<char>>)
    ensures
        positionals(line).len() == line.len() - (if line.contains("--dark"@) {
            1int
        } else {
            0int
        }) - (if line.contains("--light"@) {
            1int
        } else {
            0int
        }) - (if line.contains("--gtk4"@) {
            1int
        } else {
            0int
        }),
{
    lemma_flags_differ();
    let first = without_first(line, "--dark"@);
    let second = without_first(first, "--light"@);
    lemma_without_first_keeps(line, "--dark"@, "--light"@);
    lemma_without_first_keeps(line, "--dark"@, "--gtk4"@);
    lemma_without_first_keeps(first, "--light"@, "--gtk4"@);
    lemma_without_first_len(line, "--dark"@);
    lemma_without_first_len(first, "--light"@);
    lemma_without_first_len(second, "--gtk4"@);
}

/// The three flags are three different words.
pub proof fn lemma_flags_differ()
    ensures
        "--dark"@ != "--light"@,
        "--dark"@ != "--gtk4"@,
        "--light"@ != "--gtk4"@,
{
    reveal_strlit("--dark");
    reveal_strlit("--light");
    reveal_strlit("--gtk4");
    assert("--dark"@[2] != "--light"@[2]);
    assert("--dark"@[2] != "--gtk4"@[2]);
    assert("--light"@[2] != "--gtk4"@[2]);
}

/// Whether a word occurs in a line is a matter of the line's multiset.
proof fn lemma_same_words_same_contains(
    line: Seq<Seq<char>>,
    other: Seq<Seq<char>>,
    word: Seq<char>,
)
    requires
        line.to_multiset() == other.to_multiset(),
    ensures
        line.contains(word) <==> other.contains(word),
{
    line.to_multiset_ensures();
    other.to_multiset_ensures();
    assert(line.contains(word) <==> line.to_multiset().count(word) > 0);
    assert(other.contains(word) <==> other.to_multiset().count(word) > 0);
}

/// The order of the words does not matter: two lines with the same words,
/// each as often as in the other, mean the same.
pub proof fn lemma_parse_ignores_order(line: Seq<Seq<char>>, other: Seq<Seq<char>>)
    requires
        line.to_multiset() == other.to_multiset(),
    ensures
        parse(line) == parse(other),
{
    lemma_without_first_multiset(line, "--dark"@);
    lemma_without_first_multiset(other, "--dark"@);
    let line_first = without_first(line, "--dark"@);
    let other_first = without_first(other, "--dark"@);
    lemma_without_first_multiset(line_first, "--light"@);
    lemma_without_first_multiset(other_first, "--light"@);
    let line_second = without_first(line_first, "--light"@);
    let other_second = without_first(other_first, "--light"@);
    lemma_without_first_multiset(line_second, "--gtk4"@);
    lemma_without_first_multiset(other_second, "--gtk4"@);
    let rest = positionals(line);
    let other_rest = positionals(other);
    assert(rest.to_multiset() == other_rest.to_multiset());
    rest.to_multiset_ensures();
    other_rest.to_multiset_ensures();
    assert(rest.len() == other_rest.len());
    if rest.len() == 1 {
        assert(rest.contains(rest[0]));
        lemma_same_words_same_contains(rest, other_rest, rest[0]);
        let i = choose|i: int| 0 <= i < other_rest.len() && other_rest[i] == rest[0];
        assert(other_rest[0] == rest[0]);
    }
    lemma_same_words_same_contains(line, other, "-h"@);
    lemma_same_words_same_contains(line, other, "--help"@);
    lemma_same_words_same_contains(line, other, "--dark"@);
    lemma_same_words_same_contains(line, other, "--light"@);
    lemma_same_words_same_contains(line, other, "--gtk4"@);
}

/// `default` together with `--gtk4` is refused, wherever the two stand and
/// whichever mode flags come with them: no arguments come back, so nothing
/// can be written on their account.
pub proof fn lemma_default_with_gtk4_refused(line: Seq<Seq<char>>)
    requires
        !asks_for_help(line),
        line.contains("--gtk4"@),
        positionals(line) == seq!["default"@],
    ensures
        parse(line) == Err::<InvocationView, UsageError>(UsageError::DefaultWithGtk4),
{
}

/// Arguments that are accepted never ask for the stylesheet without naming
/// a theme file.
pub proof fn lemma_accepted_stylesheet_has_file(line: Seq<Seq<char>>, args: ArgsView)
    requires
        parse(line) == Ok::<InvocationView, UsageError>(InvocationView::Apply(args)),
    ensures
        args.set_gtk4 ==> args.theme_file is Some,
        args.theme_file != Some("default"@),
{
}

/// The index at which `word` first stands among the arguments.
fn position(args: &Vec<String>, word: &str) -> (found: Option<usize>)
    ensures
        match found {
            Some(at) => at < args@.len() && args.deep_view()[at as int] == word@ && forall|j: int|
                0 <= j < at ==> args.deep_view()[j] != word@,
            None => !args.deep_view().contains(word@),
        },
{
    let wanted = String::from_str(word);
    let mut at: usize = 0;
    while at < args.len()
        invariant
            at <= args@.len(),
            wanted@ == word@,
            forall|j: int| 0 <= j < at ==> args.deep_view()[j] != word@,
        decreases args@.len() - at,
    {
        if args[at] == wanted {
            return Some(at);
        }
        at += 1;
    }
    None
}

/// Takes the first occurrence of `flag` out of the arguments and says
/// whether there was one.
fn take_flag(args: &mut Vec<String>, flag: &str) -> (present: bool)
    ensures
        present == old(args).deep_view().contains(flag@),
        final(args).deep_view() == without_first(old(args).deep_view(), flag@),
{
    let found = position(args, flag);
    match found {
        Some(at) => {
            let ghost before = args.deep_view();
            args.remove(at);
            proof {
                lemma_without_first_at(before, flag@, at as int);
                assert(args.deep_view() =~= before.remove(at as int));
            }
            true
        },
        None => {
            proof {
                lemma_without_first_absent(args.deep_view(), flag@);
            }
            false
        },
    }
}

/// Reads the arguments that follow the program's name.
///
/// A request for help wins over everything else. Otherwise `--dark`,
/// `--light` and `--gtk4` are each taken out once, wherever they stand, and
/// exactly one argument must be left: the word `default` or the path of a
/// theme file. `default` together with `--gtk4` is refused.
pub fn parse_args(args: Vec<String>) -> (parsed: Result<Invocation, UsageError>)
    ensures
        match parse(args.deep_view()) {
            Ok(invocation) => parsed is Ok && parsed->Ok_0@ == invocation,
            Err(error) => parsed == Err::<Invocation, UsageError>(error),
        },
        !asks_for_help(args.deep_view()) && args.deep_view().contains("--gtk4"@) && positionals(
            args.deep_view(),
        ) == seq!["default"@] ==> parsed == Err::<Invocation, UsageError>(
            UsageError::DefaultWithGtk4,
        ),
{
    let ghost line = args.deep_view();
    let mut args = args;
    if position(&args, "-h").is_some() || position(&args, "--help").is_some() {
        return Ok(Invocation::Help);
    }
    proof {
        lemma_flags_differ();
        lemma_without_first_keeps(line, "--dark"@, "--light"@);
        lemma_without_first_keeps(line, "--dark"@, "--gtk4"@);
        lemma_without_first_keeps(without_first(line, "--dark"@), "--light"@, "--gtk4"@);
    }
    let set_dark = take_flag(&mut args, "--dark");
    let set_light = take_flag(&mut args, "--light");
    let set_gtk4 = take_flag(&mut args, "--gtk4");
    assert(args.deep_view() == positionals(line));
    if args.len() == 0 {
        return Err(UsageError::MissingTheme);
    }
    if args.len() > 1 {
        return Err(UsageError::TooManyArguments);
    }
    let only = args.remove(0);
    let theme_file = if only == String::from_str("default") {
        if set_gtk4 {
            return Err(UsageError::DefaultWithGtk4);
        }
        None
    } else {
        Some(only)
    };
    Ok(Invocation::Apply(Args { set_dark, set_light, set_gtk4, theme_file }))
}

} // verus!

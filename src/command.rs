//! The description of what a session runs: an executable, its arguments, its
//! environment and its working directory, built from one command line.

use vstd::prelude::*;

verus! {

/// The words that `shell_words::split` makes of a command line, or `None`
/// where the line has an unterminated quote or escape.
pub uninterp spec fn shell_split_of(line: Seq<char>) -> Option<Seq<Seq<char>>>;

#[verifier::external_type_specification]
#[verifier::external_body]
pub struct ExParseError(shell_words::ParseError);

/// Relies on `shell_words::split`: the words of the line by POSIX shell quoting
/// rules, or its `ParseError`; an empty line gives no words.
#[verifier::external_body]
fn split_words(line: &str) -> (r: Result<Vec<String>, shell_words::ParseError>)
    ensures
        r is Ok ==> shell_split_of(line@) == Some(words_view(r->Ok_0@)),
        r is Err ==> shell_split_of(line@).is_none(),
        line@.len() == 0 ==> r is Ok && r->Ok_0@.len() == 0,
{
    shell_words::split(line)
}

/// What a session runs, as plain values.
pub struct Command {
    pub cmd: String,
    pub args: Vec<String>,
    pub env: Vec<(String, String)>,
    pub cwd: String,
}

/// The mathematical value of a `Command`.
pub struct CommandView {
    pub cmd: Seq<char>,
    pub args: Seq<Seq<char>>,
    pub env: Seq<(Seq<char>, Seq<char>)>,
    pub cwd: Seq<char>,
}

pub open spec fn words_view(v: Seq<String>) -> Seq<Seq<char>> {
    v.map_values(|w: String| w@)
}

pub open spec fn env_view(v: Seq<(String, String)>) -> Seq<(Seq<char>, Seq<char>)> {
    v.map_values(|p: (String, String)| (p.0@, p.1@))
}

/// No variable name occurs twice.
pub open spec fn env_keys_unique(env: Seq<(Seq<char>, Seq<char>)>) -> bool {
    forall|i: int, j: int|
        0 <= i < j < env.len() ==> #[trigger] env[i].0 != #[trigger] env[j].0
}

impl View for Command {
    type V = CommandView;

    open spec fn view(&self) -> CommandView {
        CommandView {
            cmd: self.cmd@,
            args: words_view(self.args@),
            env: env_view(self.env@),
            cwd: self.cwd@,
        }
    }
}

/// The command made of the words of a command line: the first word is the
/// executable and the others its arguments, in order. No words give an empty
/// executable with no arguments and no environment, which fails to spawn.
pub open spec fn command_of_words(
    words: Seq<Seq<char>>,
    cwd: Seq<char>,
    env: Seq<(Seq<char>, Seq<char>)>,
) -> CommandView {
    if words.len() == 0 {
        CommandView { cmd: Seq::empty(), args: Seq::empty(), env: Seq::empty(), cwd }
    } else {
        CommandView { cmd: words[0], args: words.skip(1), env, cwd }
    }
}

/// The words of a command line; a line that does not split gives none.
pub open spec fn words_of_line(line: Seq<char>) -> Seq<Seq<char>> {
    match shell_split_of(line) {
        Some(words) => words,
        None => Seq::empty(),
    }
}

impl Command {
    /// Well formed: the environment names each variable once.
    pub open spec fn wf(&self) -> bool {
        env_keys_unique(self@.env)
    }

    /// Builds the command from words already split.
    pub fn from_tokens(tokens: Vec<String>, cwd: &str, env: Vec<(String, String)>) -> (r: Command)
        requires
            env_keys_unique(env_view(env@)),
        ensures
            r@ == command_of_words(words_view(tokens@), cwd@, env_view(env@)),
            r.wf(),
    {
        if tokens.len() == 0 {
            let r = Command {
                cmd: String::new(),
                args: Vec::new(),
                env: Vec::new(),
                cwd: cwd.to_string(),
            };
            assert(r@.args =~= Seq::<Seq<char>>::empty());
            assert(r@.env =~= Seq::<(Seq<char>, Seq<char>)>::empty());
            return r;
        }
        let cmd = tokens[0].clone();
        let mut args: Vec<String> = Vec::new();
        let mut i: usize = 1;
        while i < tokens.len()
            invariant
                1 <= i <= tokens.len(),
                words_view(args@) =~= words_view(tokens@).subrange(1, i as int),
            decreases tokens.len() - i,
        {
            let w = tokens[i].clone();
            let ghost before = args@;
            args.push(w);
            proof {
                assert(args@ =~= before.push(tokens@[i as int]));
                assert(words_view(args@) =~= words_view(before).push(tokens@[i as int]@));
            }
            i = i + 1;
        }
        let r = Command { cmd, args, env, cwd: cwd.to_string() };
        assert(r@.args =~= words_view(tokens@).skip(1));
        r
    }

    /// Builds the command for a command line run in `cwd` with the variables
    /// `env`, splitting the line by shell quoting rules.
    pub fn from_cmdline(cmdline: &str, cwd: &str, env: Vec<(String, String)>) -> (r: Command)
        requires
            env_keys_unique(env_view(env@)),
        ensures
            r@ == command_of_words(words_of_line(cmdline@), cwd@, env_view(env@)),
            r.wf(),
            cmdline@.len() == 0 ==> r@.cmd.len() == 0 && r@.args.len() == 0 && r@.env.len() == 0,
    {
        let tokens = match split_words(cmdline) {
            Ok(words) => words,
            Err(_) => Vec::new(),
        };
        proof {
            if shell_split_of(cmdline@).is_none() {
                assert(words_view(tokens@) =~= Seq::<Seq<char>>::empty());
            }
        }
        Command::from_tokens(tokens, cwd, env)
    }
}

} // verus!

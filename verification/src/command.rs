//! The command router's parser: classifies an inbound chat message as one
//! of the closed set of commands. The command word may carry an
//! `@botname` mention, which must match this bot; arguments are separated
//! by spaces, and the register command takes exactly one.

use vstd::prelude::*;
use crate::text::str_eq;

verus! {

/// An inbound chat command.
#[derive(Debug)]
pub enum Command {
    /// `/help`: reply with the usage text.
    Help,
    /// `/start`: same reply as help.
    Start,
    /// `/register <date-text>`: register the sender's birthday.
    Register(String),
    /// Anything else; ignored.
    Unrecognized,
}

/// The mathematical value of a `Command`.
pub ghost enum CommandV {
    Help,
    Start,
    Register(Seq<char>),
    Unrecognized,
}

impl View for Command {
    type V = CommandV;

    open spec fn view(&self) -> CommandV {
        match self {
            Command::Help => CommandV::Help,
            Command::Start => CommandV::Start,
            Command::Register(arg) => CommandV::Register(arg@),
            Command::Unrecognized => CommandV::Unrecognized,
        }
    }
}

/// The index of the first space in `s`, or its length if there is none.
pub open spec fn first_space(s: Seq<char>) -> nat
    decreases s.len(),
{
    if s.len() == 0 {
        0
    } else if s[0] == ' ' {
        0
    } else {
        1 + first_space(s.skip(1))
    }
}

/// Any index with no space before it, and a space (or the end) at it, is
/// `first_space`.
pub proof fn lemma_first_space_at(s: Seq<char>, m: int)
    requires
        0 <= m <= s.len(),
        forall|j: int| 0 <= j < m ==> s[j] != ' ',
        m < s.len() ==> s[m] == ' ',
    ensures
        first_space(s) == m,
    decreases s.len(),
{
    if m == 0 {
        if s.len() > 0 {
            assert(s[0] == ' ');
        }
    } else {
        assert(s[0] != ' ');
        lemma_first_space_at(s.skip(1), m - 1);
        assert(forall|j: int| 0 <= j < m - 1 ==> s.skip(1)[j] == s[j + 1]);
    }
}

/// The space-separated words of `s`, empty tokens dropped.
pub open spec fn split_words(s: Seq<char>) -> Seq<Seq<char>>
    decreases s.len(),
{
    if s.len() == 0 {
        Seq::empty()
    } else if s[0] == ' ' {
        split_words(s.skip(1))
    } else {
        // first_space never exceeds the length, but the bound is clamped
        // here so that termination is evident from the definition alone.
        let k = if first_space(s) <= s.len() {
            first_space(s) as int
        } else {
            s.len() as int
        };
        seq![s.take(k)] + split_words(s.skip(k))
    }
}

/// With the first word's end located, `split_words` takes exactly that
/// word and goes on after it.
pub proof fn lemma_split_words_word(s: Seq<char>, m: int)
    requires
        0 < m <= s.len(),
        forall|j: int| 0 <= j < m ==> s[j] != ' ',
        m < s.len() ==> s[m] == ' ',
    ensures
        split_words(s) == seq![s.take(m)] + split_words(s.skip(m)),
{
    lemma_first_space_at(s, m);
}

/// The command word `w` invokes the command named `name`, either bare or
/// mentioning this bot.
pub open spec fn matches_command(w: Seq<char>, name: Seq<char>, bot: Seq<char>) -> bool {
    w == name || w == name + seq!['@'] + bot
}

/// Decides `matches_command`.
fn check_command_word(w: &str, name: &str, bot: &str) -> (r: bool)
    ensures
        r == matches_command(w@, name@, bot@),
{
    if str_eq(w, name) {
        return true;
    }
    proof {
        reveal_strlit("@");
    }
    let mut full = String::from_str(name);
    full.append("@");
    full.append(bot);
    proof {
        assert(full@ =~= name@ + seq!['@'] + bot@);
    }
    str_eq(w, full.as_str())
}

/// What `parse_command` returns: one word invoking help or start, or a
/// word invoking register followed by exactly one argument; everything
/// else is unrecognized.
pub open spec fn spec_parse_command(text: Seq<char>, bot: Seq<char>) -> CommandV {
    let words = split_words(text);
    if words.len() == 1 && matches_command(words[0], "/help"@, bot) {
        CommandV::Help
    } else if words.len() == 1 && matches_command(words[0], "/start"@, bot) {
        CommandV::Start
    } else if words.len() == 2 && matches_command(words[0], "/register"@, bot) {
        CommandV::Register(words[1])
    } else {
        CommandV::Unrecognized
    }
}

/// Splits `text` into its space-separated words.
fn split_text<'a>(text: &'a str) -> (words: Vec<&'a str>)
    ensures
        words.deep_view() == split_words(text@),
{
    let n = text.unicode_len();
    let mut i: usize = 0;
    let mut words: Vec<&'a str> = Vec::new();
    proof {
        assert(words.deep_view() =~= Seq::<Seq<char>>::empty());
        assert(text@.skip(0) =~= text@);
    }
    while i < n
        invariant
            n == text@.len(),
            0 <= i <= n,
            split_words(text@) =~= words.deep_view() + split_words(text@.skip(i as int)),
        decreases n - i,
    {
        let ghost words_before = words.deep_view();
        if text.get_char(i) == ' ' {
            proof {
                assert(text@.skip(i as int).skip(1) =~= text@.skip(i as int + 1));
            }
            i += 1;
        } else {
            let start = i;
            let mut j = i;
            while j < n && text.get_char(j) != ' '
                invariant
                    n == text@.len(),
                    start <= j <= n,
                    forall|k: int| start <= k < j ==> text@[k] != ' ',
                decreases n - j,
            {
                j += 1;
            }
            let w = text.substring_char(start, j);
            words.push(w);
            proof {
                let tail = text@.skip(start as int);
                let m = j - start as int;
                assert(forall|k: int| 0 <= k < m ==> tail[k] == text@[k + start]);
                if m < tail.len() {
                    assert(tail[m] == text@[j as int]);
                }
                lemma_split_words_word(tail, m);
                assert(tail.take(m) =~= w@);
                assert(tail.skip(m) =~= text@.skip(j as int));
                assert(words.deep_view() =~= words_before.push(w@));
                assert(words.deep_view() + split_words(text@.skip(j as int)) =~= words_before
                    + (seq![w@] + split_words(text@.skip(j as int))));
            }
            i = j;
        }
    }
    proof {
        assert(text@.skip(n as int) =~= Seq::<char>::empty());
        assert(split_words(text@) =~= words.deep_view());
    }
    words
}

/// Classifies an inbound message against the command surface, given this
/// bot's handle for `@botname` mentions.
pub fn parse_command(text: &str, bot_name: &str) -> (r: Command)
    ensures
        r@ == spec_parse_command(text@, bot_name@),
{
    let words = split_text(text);
    proof {
        assert(forall|k: int|
            0 <= k < words@.len() ==> words.deep_view()[k] == words@[k]@);
    }
    if words.len() == 1 {
        let w = words[0];
        if check_command_word(w, "/help", bot_name) {
            Command::Help
        } else if check_command_word(w, "/start", bot_name) {
            Command::Start
        } else {
            Command::Unrecognized
        }
    } else if words.len() == 2 {
        if check_command_word(words[0], "/register", bot_name) {
            Command::Register(words[1].to_owned())
        } else {
            Command::Unrecognized
        }
    } else {
        Command::Unrecognized
    }
}

} // verus!

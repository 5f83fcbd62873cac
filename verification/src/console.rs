//! The master's operator console: reading a command line and acting on the
//! state for it.
use vstd::prelude::*;
use vstd::string::StrSliceExecFns;
use crate::archive::{archive_path, archive_path_text};
use crate::state::{Action, ActionView, State};

verus! {

/// Unicode `White_Space`, as `char::is_whitespace` tests it.
pub open spec fn is_white_space(c: char) -> bool {
    let u = c as u32;
    ||| 0x09 <= u <= 0x0d
    ||| u == 0x20
    ||| u == 0x85
    ||| u == 0xa0
    ||| u == 0x1680
    ||| 0x2000 <= u <= 0x200a
    ||| u == 0x2028
    ||| u == 0x2029
    ||| u == 0x202f
    ||| u == 0x205f
    ||| u == 0x3000
}

/// Whether `c` is white space.
pub fn is_whitespace(c: char) -> (b: bool)
    ensures
        b == is_white_space(c),
{
    let u = c as u32;
    (0x09 <= u && u <= 0x0d) || u == 0x20 || u == 0x85 || u == 0xa0 || u == 0x1680 || (0x2000 <= u
        && u <= 0x200a) || u == 0x2028 || u == 0x2029 || u == 0x202f || u == 0x205f || u == 0x3000
}

/// Number of characters before the first white space.
pub open spec fn word_len(s: Seq<char>) -> nat
    decreases s.len(),
{
    if s.len() == 0 || is_white_space(s[0]) {
        0
    } else {
        1 + word_len(s.drop_first())
    }
}

/// A word is never longer than the text, and is not empty where the text
/// begins with a character other than white space.
pub proof fn lemma_word_len_bound(s: Seq<char>)
    ensures
        word_len(s) <= s.len(),
        s.len() > 0 && !is_white_space(s[0]) ==> word_len(s) >= 1,
    decreases s.len(),
{
    if s.len() > 0 && !is_white_space(s[0]) {
        lemma_word_len_bound(s.drop_first());
    }
}

/// The words of `s`: its maximal runs of characters other than white space,
/// in order, as `str::split_whitespace` yields them.
pub open spec fn words(s: Seq<char>) -> Seq<Seq<char>>
    decreases s.len(),
{
    if s.len() == 0 {
        seq![]
    } else if is_white_space(s[0]) {
        words(s.drop_first())
    } else {
        proof {
            lemma_word_len_bound(s);
        }
        seq![s.take(word_len(s) as int)] + words(s.skip(word_len(s) as int))
    }
}

/// The characters from `a` up to `e` are no white space and `e` ends the
/// word: then the word that starts at `a` runs to `e`.
proof fn lemma_word_at(s: Seq<char>, a: int, e: int)
    requires
        0 <= a < e <= s.len(),
        forall|k: int| a <= k < e ==> !is_white_space(#[trigger] s[k]),
        e == s.len() || is_white_space(s[e]),
    ensures
        words(s.skip(a)) == seq![s.subrange(a, e)] + words(s.skip(e)),
{
    lemma_word_len_from(s, a, e);
    let t = s.skip(a);
    lemma_word_len_bound(t);
    assert(t.take(e - a) =~= s.subrange(a, e));
    assert(t.skip(e - a) =~= s.skip(e));
}

proof fn lemma_word_len_from(s: Seq<char>, a: int, e: int)
    requires
        0 <= a <= e <= s.len(),
        forall|k: int| a <= k < e ==> !is_white_space(#[trigger] s[k]),
        e == s.len() || is_white_space(s[e]),
    ensures
        word_len(s.skip(a)) == e - a,
    decreases e - a,
{
    if a < e {
        lemma_word_len_from(s, a + 1, e);
        assert(s.skip(a).drop_first() =~= s.skip(a + 1));
    } else if e < s.len() {
        assert(s.skip(a)[0] == s[e]);
    }
}

/// White space at `i` does not start a word.
proof fn lemma_skip_space(s: Seq<char>, i: int)
    requires
        0 <= i < s.len(),
        is_white_space(s[i]),
    ensures
        words(s.skip(i)) == words(s.skip(i + 1)),
{
    assert(s.skip(i).drop_first() =~= s.skip(i + 1));
}

/// Text made of white space only.
pub open spec fn all_white_space(s: Seq<char>) -> bool {
    forall|i: int| 0 <= i < s.len() ==> is_white_space(#[trigger] s[i])
}

proof fn lemma_words_of_space(t: Seq<char>)
    requires
        all_white_space(t),
    ensures
        words(t) == Seq::<Seq<char>>::empty(),
    decreases t.len(),
{
    if t.len() > 0 {
        assert(is_white_space(t[0]));
        lemma_words_of_space(t.drop_first());
    }
}

proof fn lemma_words_after_space(pad: Seq<char>, s: Seq<char>)
    requires
        all_white_space(pad),
    ensures
        words(pad + s) == words(s),
    decreases pad.len(),
{
    if pad.len() > 0 {
        assert(is_white_space(pad[0]));
        assert((pad + s).drop_first() =~= pad.drop_first() + s);
        lemma_words_after_space(pad.drop_first(), s);
    } else {
        assert(pad + s =~= s);
    }
}

proof fn lemma_word_len_before_space(s: Seq<char>, pad: Seq<char>)
    requires
        all_white_space(pad),
    ensures
        word_len(s + pad) == word_len(s),
    decreases s.len(),
{
    if s.len() == 0 {
        assert(s + pad =~= pad);
        if pad.len() > 0 {
            assert(is_white_space(pad[0]));
        }
    } else {
        assert((s + pad)[0] == s[0]);
        if !is_white_space(s[0]) {
            assert((s + pad).drop_first() =~= s.drop_first() + pad);
            lemma_word_len_before_space(s.drop_first(), pad);
        }
    }
}

proof fn lemma_words_before_space(s: Seq<char>, pad: Seq<char>)
    requires
        all_white_space(pad),
    ensures
        words(s + pad) == words(s),
    decreases s.len(),
{
    if s.len() == 0 {
        assert(s + pad =~= pad);
        lemma_words_of_space(pad);
    } else if is_white_space(s[0]) {
        assert((s + pad)[0] == s[0]);
        assert((s + pad).drop_first() =~= s.drop_first() + pad);
        lemma_words_before_space(s.drop_first(), pad);
    } else {
        assert((s + pad)[0] == s[0]);
        lemma_word_len_before_space(s, pad);
        lemma_word_len_bound(s);
        let n = word_len(s) as int;
        assert((s + pad).take(n) =~= s.take(n));
        assert((s + pad).skip(n) =~= s.skip(n) + pad);
        lemma_words_before_space(s.skip(n), pad);
    }
}

/// White space before and after a command line changes nothing: the
/// padded line asks for the same command.
pub proof fn law_surrounding_space_is_ignored(before: Seq<char>, line: Seq<char>, after: Seq<char>)
    requires
        all_white_space(before),
        all_white_space(after),
    ensures
        console_command(before + line + after) == console_command(line),
{
    lemma_words_after_space(before, line + after);
    lemma_words_before_space(line, after);
    assert(before + line + after =~= before + (line + after));
}

/// The meaning of a console command.
pub enum ConsoleCommandView {
    Help,
    ReadConfig,
    Update,
    Run(Option<Seq<char>>),
    Stop,
    Invalid,
}

/// An operator's command.
#[derive(Debug)]
pub enum ConsoleCommand {
    /// `h`: print the help text.
    Help,
    /// `c`: read the configuration file again.
    ReadConfig,
    /// `u`: archive the data directory as a new update.
    Update,
    /// `r [name]`: run the named configuration, or the one run last, or the
    /// first one.
    Run(Option<String>),
    /// `s`: stop the workers' processes.
    Stop,
    /// Anything else.
    Invalid,
}

impl View for ConsoleCommand {
    type V = ConsoleCommandView;

    open spec fn view(&self) -> ConsoleCommandView {
        match self {
            ConsoleCommand::Help => ConsoleCommandView::Help,
            ConsoleCommand::ReadConfig => ConsoleCommandView::ReadConfig,
            ConsoleCommand::Update => ConsoleCommandView::Update,
            ConsoleCommand::Run(name) => ConsoleCommandView::Run(
                match name {
                    Some(n) => Some(n@),
                    None => None,
                },
            ),
            ConsoleCommand::Stop => ConsoleCommandView::Stop,
            ConsoleCommand::Invalid => ConsoleCommandView::Invalid,
        }
    }
}

/// The command a line asks for: its first word picks the command, and `r`
/// takes the second word, if any, as the configuration's name; further
/// words are ignored.
pub open spec fn console_command(line: Seq<char>) -> ConsoleCommandView {
    let w = words(line);
    if w.len() == 0 {
        ConsoleCommandView::Invalid
    } else if w[0] == seq!['h'] {
        ConsoleCommandView::Help
    } else if w[0] == seq!['c'] {
        ConsoleCommandView::ReadConfig
    } else if w[0] == seq!['u'] {
        ConsoleCommandView::Update
    } else if w[0] == seq!['r'] {
        ConsoleCommandView::Run(
            if w.len() >= 2 {
                Some(w[1])
            } else {
                None
            },
        )
    } else if w[0] == seq!['s'] {
        ConsoleCommandView::Stop
    } else {
        ConsoleCommandView::Invalid
    }
}

/// First position at or after `from` that holds no white space, or the end.
fn skip_spaces(line: &str, n: usize, from: usize) -> (i: usize)
    requires
        n == line@.len(),
        from <= n,
    ensures
        from <= i <= n,
        i < n ==> !is_white_space(line@[i as int]),
        words(line@.skip(from as int)) == words(line@.skip(i as int)),
{
    let mut i = from;
    while i < n && is_whitespace(line.get_char(i))
        invariant
            n == line@.len(),
            from <= i <= n,
            words(line@.skip(from as int)) == words(line@.skip(i as int)),
        decreases n - i,
    {
        proof {
            lemma_skip_space(line@, i as int);
        }
        i = i + 1;
    }
    i
}

/// End of the word that starts at `from`.
fn word_end(line: &str, n: usize, from: usize) -> (e: usize)
    requires
        n == line@.len(),
        from < n,
        !is_white_space(line@[from as int]),
    ensures
        from < e <= n,
        words(line@.skip(from as int)) == seq![line@.subrange(from as int, e as int)] + words(
            line@.skip(e as int),
        ),
{
    let mut e = from;
    while e < n && !is_whitespace(line.get_char(e))
        invariant
            n == line@.len(),
            from <= e <= n,
            e == from ==> !is_white_space(line@[from as int]),
            forall|k: int| from <= k < e ==> !is_white_space(#[trigger] line@[k]),
        decreases n - e,
    {
        e = e + 1;
    }
    proof {
        lemma_word_at(line@, from as int, e as int);
    }
    e
}

/// Reads an operator's command line.
pub fn parse_command(line: &str) -> (command: ConsoleCommand)
    ensures
        command@ == console_command(line@),
{
    let n = line.unicode_len();
    proof {
        assert(line@.skip(0) =~= line@);
    }
    let start = skip_spaces(line, n, 0);
    if start == n {
        proof {
            assert(line@.skip(n as int) =~= Seq::<char>::empty());
        }
        return ConsoleCommand::Invalid;
    }
    let end = word_end(line, n, start);
    let ghost first = line@.subrange(start as int, end as int);
    assert(words(line@)[0] == first);
    if end - start != 1 {
        proof {
            assert(first.len() != 1);
        }
        return ConsoleCommand::Invalid;
    }
    let c = line.get_char(start);
    assert(first =~= seq![c]);
    if c == 'h' {
        ConsoleCommand::Help
    } else if c == 'c' {
        ConsoleCommand::ReadConfig
    } else if c == 'u' {
        ConsoleCommand::Update
    } else if c == 's' {
        ConsoleCommand::Stop
    } else if c == 'r' {
        let next = skip_spaces(line, n, end);
        if next == n {
            proof {
                assert(line@.skip(n as int) =~= Seq::<char>::empty());
            }
            ConsoleCommand::Run(None)
        } else {
            let next_end = word_end(line, n, next);
            let name = line.substring_char(next, next_end).to_owned();
            ConsoleCommand::Run(Some(name))
        }
    } else {
        ConsoleCommand::Invalid
    }
}

/// What became of a run request.
pub enum RunOutcome {
    /// The named configuration is scheduled.
    Scheduled(String),
    /// No configuration has this name; nothing changed.
    UnknownKey(String),
    /// No name was given; the configuration run last is scheduled again.
    ScheduledLast(String),
    /// No name was given and none was run before; the first one is scheduled.
    ScheduledFirst(String),
}

/// The configuration a run request would start, if any.
pub open spec fn run_target(state: State, name: Option<Seq<char>>) -> Option<Seq<char>> {
    match name {
        Some(n) => if state.start_infos@.dom().contains(n) {
            Some(n)
        } else {
            None
        },
        None => match state.last_start_info {
            Some(last) => Some(last@),
            None => Some(state.start_infos.names()[0]),
        },
    }
}

/// The name as text.
pub open spec fn name_text(name: Option<String>) -> Option<Seq<char>> {
    match name {
        Some(n) => Some(n@),
        None => None,
    }
}

/// Whether `schedule_run` can act on this request: without a name there
/// must be a configuration run last or at least one configuration, and a
/// start that changes the action needs room in the state version.
pub open spec fn run_possible(state: State, name: Option<String>) -> bool {
    &&& (name is None && state.last_start_info is None ==> state.start_infos.names().len() > 0)
    &&& (run_target(state, name_text(name)) matches Some(t) && state.action@ != ActionView::Start(t)
        ==> state.version.0 < u32::MAX)
}

/// Tests `run_possible`.
pub fn can_schedule_run(state: &State, name: &Option<String>) -> (b: bool)
    ensures
        b == run_possible(*state, *name),
{
    let target: Option<String> = match name {
        Some(n) => if state.start_infos.contains_key(n.as_str()) {
            Some(n.clone())
        } else {
            None
        },
        None => match &state.last_start_info {
            Some(last) => Some(last.clone()),
            None => match state.start_infos.first_key() {
                Some(first) => Some(first),
                None => {
                    return false;
                },
            },
        },
    };
    match target {
        Some(t) => {
            let wanted = Action::Start(t);
            !(state.action != wanted) || state.version.0 < u32::MAX
        },
        None => true,
    }
}

/// Acts on `r [name]`: a given name is started if it is known; without one
/// the configuration run last is started again (and forgotten), or else the
/// first one.
pub fn schedule_run(state: &mut State, name: Option<String>) -> (outcome: RunOutcome)
    requires
        run_possible(*old(state), name),
    ensures
        match name {
            Some(n) => if old(state).start_infos@.dom().contains(n@) {
                outcome matches RunOutcome::Scheduled(k) && k@ == n@ && final(state).started_from(
                    *old(state),
                    n@,
                ) && final(state).last_start_info == old(state).last_start_info
            } else {
                outcome matches RunOutcome::UnknownKey(k) && k@ == n@ && *final(state) == *old(state)
            },
            None => match old(state).last_start_info {
                Some(last) => outcome matches RunOutcome::ScheduledLast(k) && k@ == last@
                    && final(state).started_from(*old(state), last@)
                    && final(state).last_start_info is None,
                None => outcome matches RunOutcome::ScheduledFirst(k) && k@
                    == old(state).start_infos.names()[0] && old(state).start_infos@.dom().contains(
                    k@,
                ) && final(state).started_from(*old(state), k@)
                    && final(state).last_start_info is None,
            },
        },
{
    match name {
        Some(key) => {
            if state.start_infos.contains_key(key.as_str()) {
                state.start(key.clone());
                RunOutcome::Scheduled(key)
            } else {
                RunOutcome::UnknownKey(key)
            }
        },
        None => {
            let last = state.last_start_info.take();
            match last {
                Some(last) => {
                    state.start(last.clone());
                    RunOutcome::ScheduledLast(last)
                },
                None => {
                    let first = state.start_infos.first_key();
                    match first {
                        Some(first) => {
                            state.start(first.clone());
                            RunOutcome::ScheduledFirst(first)
                        },
                        None => {
                            proof {
                                assert(false);
                            }
                            RunOutcome::UnknownKey(String::new())
                        },
                    }
                },
            }
        },
    }
}

/// Where the archive of the next update goes inside `dir`.
pub fn next_update_path(state: &State, dir: &str) -> (path: String)
    requires
        state.update_version.0 < u32::MAX,
    ensures
        path@ == archive_path_text(dir@, (state.update_version.0 + 1) as u32),
{
    archive_path(dir, state.update_version.next())
}

} // verus!

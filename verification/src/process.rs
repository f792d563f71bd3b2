//! What is decided before a child is started and while it is being stopped:
//! where its output goes, how its command line is taken apart, and how
//! termination escalates.

use crate::text::prefixed;
use std::collections::HashMap;
use vstd::prelude::*;
use vstd::std_specs::iter::IteratorSpec;
use vstd::string::{StrSliceExecFns, StringExecFns};

verus! {

broadcast use vstd::string::group_string_axioms;

/// The slug of a text, as the `slug` crate derives it.
pub uninterp spec fn slug_of(text: Seq<char>) -> Seq<char>;

/// The characters that a slug is made of: lower-case ASCII letters, ASCII
/// digits and the hyphen.
pub open spec fn is_slug_char(c: char) -> bool {
    ('a' <= c && c <= 'z') || ('0' <= c && c <= '9') || c == '-'
}

/// Calls `slug::slugify`. The contract names the result and claims of it what
/// the crate documents of every slug: it holds nothing but lower-case ASCII
/// letters, ASCII digits and hyphens.
#[verifier::external_body]
fn slugify(text: &str) -> (s: String)
    ensures
        s@ == slug_of(text@),
        forall|i: int| 0 <= i < s@.len() ==> is_slug_char(#[trigger] s@[i]),
{
    slug::slugify(text)
}

/// The directory that holds the logs of what `user` runs in `cwd`.
pub open spec fn log_dir(user: Seq<char>, cwd: Seq<char>) -> Seq<char> {
    "/home/"@ + user + "/.logs/"@ + slug_of(cwd)
}

/// The file that receives the standard output of `cmd`, run by `user` in `cwd`.
pub open spec fn stdout_log(user: Seq<char>, cwd: Seq<char>, cmd: Seq<char>) -> Seq<char> {
    log_dir(user, cwd) + "/"@ + slug_of(cmd) + ".stdout"@
}

/// The file that receives the standard error of `cmd`, run by `user` in `cwd`.
pub open spec fn stderr_log(user: Seq<char>, cwd: Seq<char>, cmd: Seq<char>) -> Seq<char> {
    log_dir(user, cwd) + "/"@ + slug_of(cmd) + ".stderr"@
}

/// The directory that holds the logs of what `user` runs in `cwd`.
pub fn log_directory(user: &str, cwd: &str) -> (dir: String)
    ensures
        dir@ == log_dir(user@, cwd@),
{
    let mut dir = prefixed("/home/", user);
    dir.append("/.logs/");
    let slug = slugify(cwd);
    dir.append(slug.as_str());
    dir
}

/// The two files that receive the standard output and the standard error of
/// `cmd`, run by `user` in `cwd`.
pub fn create_log_paths(user: &str, cwd: &str, cmd: &str) -> (paths: (String, String))
    ensures
        paths.0@ == stdout_log(user@, cwd@, cmd@),
        paths.1@ == stderr_log(user@, cwd@, cmd@),
{
    let slug = slugify(cmd);
    let mut stdout = log_directory(user, cwd);
    stdout.append("/");
    stdout.append(slug.as_str());
    let mut stderr = stdout.clone();
    stdout.append(".stdout");
    stderr.append(".stderr");
    (stdout, stderr)
}

/// Whether `c` separates the words of a command line: the characters that
/// Unicode gives the property White_Space.
pub open spec fn is_space(c: char) -> bool {
    let n = c as u32;
    (0x09 <= n && n <= 0x0D) || n == 0x20 || n == 0x85 || n == 0xA0 || n == 0x1680 || (0x2000 <= n
        && n <= 0x200A) || n == 0x2028 || n == 0x2029 || n == 0x202F || n == 0x205F || n == 0x3000
}

/// How many characters stand at the front of `text` before the first
/// separator.
pub open spec fn word_len(text: Seq<char>) -> nat
    decreases text.len(),
{
    if text.len() == 0 || is_space(text[0]) {
        0
    } else {
        1 + word_len(text.drop_first())
    }
}

/// The words of `text`: its longest runs of characters that are not
/// separators, from left to right. No word is empty.
pub open spec fn words(text: Seq<char>) -> Seq<Seq<char>>
    decreases text.len(),
    via words_decreases
{
    if text.len() == 0 {
        Seq::empty()
    } else if is_space(text[0]) {
        words(text.drop_first())
    } else {
        let n = word_len(text) as int;
        seq![text.take(n)] + words(text.skip(n))
    }
}

/// The word at the front of a text is no longer than the text.
pub proof fn lemma_word_len_bound(text: Seq<char>)
    ensures
        word_len(text) <= text.len(),
    decreases text.len(),
{
    if text.len() > 0 && !is_space(text[0]) {
        lemma_word_len_bound(text.drop_first());
    }
}

#[via_fn]
proof fn words_decreases(text: Seq<char>) {
    lemma_word_len_bound(text);
}

/// Whether `c` separates the words of a command line.
pub fn is_whitespace(c: char) -> (b: bool)
    ensures
        b == is_space(c),
{
    let n = c as u32;
    (0x09 <= n && n <= 0x0D) || n == 0x20 || n == 0x85 || n == 0xA0 || n == 0x1680 || (0x2000 <= n
        && n <= 0x200A) || n == 0x2028 || n == 0x2029 || n == 0x202F || n == 0x205F || n == 0x3000
}

/// A run of `k` characters that are not separators, followed by a separator
/// or by the end of the text, is the word at the front of the text.
proof fn lemma_word_len(text: Seq<char>, k: int)
    requires
        0 <= k <= text.len(),
        forall|j: int| 0 <= j < k ==> !is_space(#[trigger] text[j]),
        k == text.len() || is_space(text[k]),
    ensures
        word_len(text) == k,
    decreases k,
{
    if k > 0 {
        let rest = text.drop_first();
        assert forall|j: int| 0 <= j < k - 1 implies !is_space(#[trigger] rest[j]) by {
            assert(rest[j] == text[j + 1]);
        }
        lemma_word_len(rest, k - 1);
    }
}

/// The words of a text that begins with a word of `k` characters are that
/// word and the words of what follows it.
proof fn lemma_words_after_word(text: Seq<char>, k: int)
    requires
        0 < k <= text.len(),
        forall|j: int| 0 <= j < k ==> !is_space(#[trigger] text[j]),
        k == text.len() || is_space(text[k]),
    ensures
        words(text) == seq![text.take(k)] + words(text.skip(k)),
{
    lemma_word_len(text, k);
    assert(!is_space(text[0]));
}

/// The words of `text`, each as a string of its own.
pub fn split_whitespace(text: &str) -> (parts: Vec<String>)
    ensures
        parts@.len() == words(text@).len(),
        forall|i: int| 0 <= i < parts@.len() ==> (#[trigger] parts@[i])@ == words(text@)[i],
{
    let mut parts: Vec<String> = Vec::new();
    let ghost mut found: Seq<Seq<char>> = Seq::empty();
    let mut start: usize = 0;
    let mut at: usize = 0;
    let len = text.unicode_len();
    proof {
        assert(text@.skip(0) == text@);
        assert(found + words(text@) == words(text@));
    }
    for c in it: text.chars()
        invariant
            it.seq() == text@,
            len == text@.len(),
            at == it.index(),
            start <= at <= len,
            forall|j: int| start <= j < at ==> !is_space(#[trigger] text@[j]),
            parts@.len() == found.len(),
            forall|i: int| 0 <= i < parts@.len() ==> (#[trigger] parts@[i])@ == found[i],
            words(text@) == found + words(text@.skip(start as int)),
    {
        assert(c == text@[at as int]);
        if is_whitespace(c) {
            let ghost tail = text@.skip(start as int);
            if start < at {
                let word = text.substring_char(start, at);
                proof {
                    assert forall|j: int| 0 <= j < at - start implies !is_space(
                        #[trigger] tail[j],
                    ) by {
                        assert(tail[j] == text@[start + j]);
                    }
                    assert(tail[at - start] == text@[at as int]);
                    lemma_words_after_word(tail, at - start);
                    assert(tail.take(at - start) == text@.subrange(start as int, at as int));
                    assert(tail.skip(at - start) == text@.skip(at as int));
                    found = found.push(word@);
                }
                parts.push(word.to_owned());
            }
            proof {
                let here = text@.skip(at as int);
                assert(here[0] == text@[at as int]);
                assert(here.drop_first() == text@.skip(at + 1));
                assert(words(here) == words(text@.skip(at + 1)));
            }
            start = at + 1;
        }
        at = at + 1;
    }
    if start < at {
        let ghost tail = text@.skip(start as int);
        let word = text.substring_char(start, at);
        proof {
            assert forall|j: int| 0 <= j < at - start implies !is_space(#[trigger] tail[j]) by {
                assert(tail[j] == text@[start + j]);
            }
            lemma_words_after_word(tail, at - start);
            assert(tail.take(at - start) == text@.subrange(start as int, at as int));
            assert(tail.skip(at - start).len() == 0);
            found = found.push(word@);
        }
        parts.push(word.to_owned());
    } else {
        assert(text@.skip(start as int).len() == 0);
    }
    parts
}

/// What is needed to start a child: the id it will be filed under, who
/// owns it, and what was submitted.
pub struct SpawnRequest {
    pub id: u32,
    pub user: String,
    pub cmd: String,
    pub cwd: String,
    pub env: HashMap<String, String>,
    pub restart: bool,
}

/// How a child is to be started: the program and its arguments, and where
/// its output goes.
pub struct SpawnPlan {
    pub program: String,
    pub args: Vec<String>,
    pub log_dir: String,
    pub stdout_path: String,
    pub stderr_path: String,
}

/// The failure reported for a command line that names no program.
pub open spec fn no_program_text() -> Seq<char> {
    "no program in command line"@
}

/// Whether `plan` is how `cmd` is started for `user` in `cwd`: the first
/// word of the command line is the program, the other words are its
/// arguments, and the output goes to the log files of that user, directory
/// and command line.
pub open spec fn plans(plan: SpawnPlan, user: Seq<char>, cmd: Seq<char>, cwd: Seq<char>) -> bool {
    &&& words(cmd).len() > 0
    &&& plan.program@ == words(cmd)[0]
    &&& plan.args@.len() == words(cmd).len() - 1
    &&& forall|i: int| 0 <= i < plan.args@.len() ==> (#[trigger] plan.args@[i])@ == words(cmd)[i + 1]
    &&& plan.log_dir@ == log_dir(user, cwd)
    &&& plan.stdout_path@ == stdout_log(user, cwd, cmd)
    &&& plan.stderr_path@ == stderr_log(user, cwd, cmd)
}

/// Plans the start of `cmd` for `user` in `cwd`. A command line without a
/// single word cannot be started, and nothing else stands in the way.
pub fn plan_spawn(user: &str, cmd: &str, cwd: &str) -> (r: Result<SpawnPlan, String>)
    ensures
        r is Ok <==> words(cmd@).len() > 0,
        r matches Ok(plan) ==> plans(plan, user@, cmd@, cwd@),
        r matches Err(e) ==> e@ == no_program_text(),
{
    let mut parts = split_whitespace(cmd);
    if parts.len() == 0 {
        return Err("no program in command line".to_owned());
    }
    let ghost all = parts@;
    let program = parts.remove(0);
    let log_dir = log_directory(user, cwd);
    let (stdout_path, stderr_path) = create_log_paths(user, cwd, cmd);
    assert forall|i: int| 0 <= i < parts@.len() implies (#[trigger] parts@[i])@ == words(cmd@)[i
        + 1] by {
        assert(parts@[i] == all[i + 1]);
    }
    Ok(SpawnPlan { program, args: parts, log_dir, stdout_path, stderr_path })
}

/// The signals of a staged termination, from the gentlest to the last resort.
#[derive(Clone, Copy, Debug, PartialEq, Eq, Structural)]
pub enum StopSignal {
    Interrupt,
    Terminate,
    Kill,
}

/// What is to be done next to bring a child down.
#[derive(Debug)]
pub enum StopStep {
    /// Send this signal to the child and report how that went.
    Send(StopSignal),
    /// Wait up to `secs` seconds for the child to exit after `after` was
    /// sent, and report whether it did.
    Wait { after: StopSignal, secs: u64 },
    /// The termination is over, with this outcome.
    Done(Result<(), String>),
}

/// Seconds that a child is given to exit after the interrupt and again after
/// the termination signal.
pub const GRACE_SECS: u64 = 15;

/// The first step of a termination: the interrupt.
pub open spec fn stop_first() -> StopStep {
    StopStep::Send(StopSignal::Interrupt)
}

/// The step that follows the attempt to send `signal`. A signal that could
/// not be sent ends the termination with that failure. After the interrupt
/// and after the termination signal the child is given `GRACE_SECS` to exit;
/// after the kill nothing is left to do.
pub open spec fn step_after_signal(signal: StopSignal, outcome: Result<(), String>) -> StopStep {
    match outcome {
        Err(e) => StopStep::Done(Err(e)),
        Ok(_) => match signal {
            StopSignal::Interrupt => StopStep::Wait { after: signal, secs: GRACE_SECS },
            StopSignal::Terminate => StopStep::Wait { after: signal, secs: GRACE_SECS },
            StopSignal::Kill => StopStep::Done(Ok(())),
        },
    }
}

/// The step that follows a wait after `after` was sent. A child that exited
/// ends the termination with success; one that did not gets the next
/// signal.
pub open spec fn step_after_wait(after: StopSignal, exited: bool) -> StopStep {
    if exited {
        StopStep::Done(Ok(()))
    } else {
        match after {
            StopSignal::Interrupt => StopStep::Send(StopSignal::Terminate),
            StopSignal::Terminate => StopStep::Send(StopSignal::Kill),
            StopSignal::Kill => StopStep::Done(Ok(())),
        }
    }
}

/// How many steps a termination can still take from `step` on.
pub open spec fn steps_left(step: StopStep) -> nat {
    match step {
        StopStep::Send(StopSignal::Interrupt) => 5,
        StopStep::Wait { after: StopSignal::Interrupt, .. } => 4,
        StopStep::Send(StopSignal::Terminate) => 3,
        StopStep::Wait { after: StopSignal::Terminate, .. } => 2,
        StopStep::Send(StopSignal::Kill) => 1,
        StopStep::Wait { after: StopSignal::Kill, .. } => 1,
        StopStep::Done(_) => 0,
    }
}

/// How many seconds a termination can still spend waiting from `step` on.
pub open spec fn wait_left(step: StopStep) -> nat {
    match step {
        StopStep::Send(StopSignal::Interrupt) => 2 * GRACE_SECS as nat,
        StopStep::Wait { after: StopSignal::Interrupt, .. } => 2 * GRACE_SECS as nat,
        StopStep::Send(StopSignal::Terminate) => GRACE_SECS as nat,
        StopStep::Wait { after: StopSignal::Terminate, .. } => GRACE_SECS as nat,
        _ => 0,
    }
}

/// Begins a staged termination.
pub fn stop_begin() -> (step: StopStep)
    ensures
        step == stop_first(),
{
    StopStep::Send(StopSignal::Interrupt)
}

/// Continues a termination after the attempt to send `signal`.
pub fn stop_after_signal(signal: StopSignal, outcome: Result<(), String>) -> (step: StopStep)
    ensures
        step == step_after_signal(signal, outcome),
{
    match outcome {
        Err(e) => StopStep::Done(Err(e)),
        Ok(_) => match signal {
            StopSignal::Interrupt => StopStep::Wait { after: signal, secs: GRACE_SECS },
            StopSignal::Terminate => StopStep::Wait { after: signal, secs: GRACE_SECS },
            StopSignal::Kill => StopStep::Done(Ok(())),
        },
    }
}

/// Continues a termination after the wait that followed `after`.
pub fn stop_after_wait(after: StopSignal, exited: bool) -> (step: StopStep)
    ensures
        step == step_after_wait(after, exited),
{
    if exited {
        StopStep::Done(Ok(()))
    } else {
        match after {
            StopSignal::Interrupt => StopStep::Send(StopSignal::Terminate),
            StopSignal::Terminate => StopStep::Send(StopSignal::Kill),
            StopSignal::Kill => StopStep::Done(Ok(())),
        }
    }
}

/// A termination comes to an end and never waits longer than twice the
/// grace period. It begins with five steps and thirty seconds before it;
/// every report of a signal takes a step off without adding to the wait,
/// and every wait that was asked for takes its seconds off what is left. A
/// child that exits during a wait ends the termination with success at
/// once, and a signal that cannot be sent ends it with that failure.
pub proof fn lemma_stop_is_bounded(signal: StopSignal, outcome: Result<(), String>, exited: bool)
    ensures
        steps_left(stop_first()) == 5,
        wait_left(stop_first()) == 2 * GRACE_SECS,
        steps_left(step_after_signal(signal, outcome)) < steps_left(StopStep::Send(signal)),
        wait_left(step_after_signal(signal, outcome)) <= wait_left(StopStep::Send(signal)),
        step_after_signal(signal, outcome) matches StopStep::Wait { after, secs } ==> after
            == signal && secs == GRACE_SECS,
        signal != StopSignal::Kill ==> {
            &&& steps_left(step_after_wait(signal, exited)) < steps_left(
                StopStep::Wait { after: signal, secs: GRACE_SECS },
            )
            &&& wait_left(step_after_wait(signal, exited)) + GRACE_SECS <= wait_left(
                StopStep::Wait { after: signal, secs: GRACE_SECS },
            )
        },
        step_after_wait(signal, true) == StopStep::Done(Ok(())),
        outcome matches Err(e) ==> step_after_signal(signal, outcome) == StopStep::Done(Err(e)),
{
}

} // verus!

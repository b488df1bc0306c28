//! Canonical vocabulary families for learning artifacts, and the two
//! extractions that tag a task by the words of its title and of its tools.
use vstd::prelude::*;
use crate::codec::{text_contains, occurs_in};
use crate::text::{chars_of, str_eq};

verus! {

pub const TASK_WORDS: [&'static str; 8] = [
    "fix", "refactor", "move", "rename", "extract", "validate", "generate", "rollback",
];

pub const SYMBOL_WORDS: [&'static str; 7] = [
    "scheduler",
    "route",
    "mailbox",
    "kernel",
    "dispatch",
    "codec",
    "runtime",
];

pub const TOOL_WORDS: [&'static str; 6] = [
    "apply_patch",
    "shell",
    "cargo_check",
    "cargo_test",
    "inspect",
    "validate",
];

pub const OUTCOME_WORDS: [&'static str; 6] = [
    "succeeded",
    "failed",
    "reverted",
    "blocked",
    "timed_out",
    "accepted",
];

pub const COST_WORDS: [&'static str; 7] = [
    "fan_in",
    "fan_out",
    "churn",
    "penalty",
    "risk",
    "barrier",
    "rollback_cost",
];

/// The words of `words`, in their order, that occur in `title`.
pub open spec fn words_in_title(words: Seq<&'static str>, title: Seq<char>) -> Seq<&'static str>
    decreases words.len(),
{
    if words.len() == 0 {
        Seq::empty()
    } else {
        let rest = words_in_title(words.drop_last(), title);
        if occurs_in(title, words.last()@) {
            rest.push(words.last())
        } else {
            rest
        }
    }
}

/// `tools` holds a tool named `word`.
pub open spec fn tool_listed(tools: Seq<&str>, word: Seq<char>) -> bool {
    exists|j: int| 0 <= j < tools.len() && #[trigger] tools[j]@ == word
}

/// The words of `words`, in their order, that name one of `tools`.
pub open spec fn words_in_tools(words: Seq<&'static str>, tools: Seq<&str>) -> Seq<&'static str>
    decreases words.len(),
{
    if words.len() == 0 {
        Seq::empty()
    } else {
        let rest = words_in_tools(words.drop_last(), tools);
        if tool_listed(tools, words.last()@) {
            rest.push(words.last())
        } else {
            rest
        }
    }
}

/// Extract task vocabulary words that appear in a task title.
pub fn task_words_from_title(title: &str) -> (r: Vec<&'static str>)
    ensures
        r@ == words_in_title(TASK_WORDS@, title@),
{
    let t = chars_of(title);
    let words: &[&'static str] = &TASK_WORDS;
    let mut out: Vec<&'static str> = Vec::new();
    let mut i: usize = 0;
    while i < words.len()
        invariant
            words@ == TASK_WORDS@,
            t@ == title@,
            i <= words@.len(),
            out@ == words_in_title(words@.take(i as int), title@),
        decreases words@.len() - i,
    {
        assert(words@.take(i as int + 1).drop_last() =~= words@.take(i as int));
        let w: &'static str = words[i];
        if text_contains(&t, w) {
            out.push(w);
        }
        i = i + 1;
    }
    assert(words@.take(i as int) =~= words@);
    out
}

fn tool_present(tools: &[&str], word: &str) -> (r: bool)
    ensures
        r == tool_listed(tools@, word@),
{
    let mut j: usize = 0;
    while j < tools.len()
        invariant
            j <= tools@.len(),
            forall|k: int| 0 <= k < j ==> #[trigger] tools@[k]@ != word@,
        decreases tools@.len() - j,
    {
        if str_eq(tools[j], word) {
            return true;
        }
        j = j + 1;
    }
    false
}

/// Extract tool vocabulary words present in a tool call sequence.
pub fn tool_words_from_sequence(tools: &[&str]) -> (r: Vec<&'static str>)
    ensures
        r@ == words_in_tools(TOOL_WORDS@, tools@),
{
    let words: &[&'static str] = &TOOL_WORDS;
    let mut out: Vec<&'static str> = Vec::new();
    let mut i: usize = 0;
    while i < words.len()
        invariant
            words@ == TOOL_WORDS@,
            i <= words@.len(),
            out@ == words_in_tools(words@.take(i as int), tools@),
        decreases words@.len() - i,
    {
        assert(words@.take(i as int + 1).drop_last() =~= words@.take(i as int));
        let w: &'static str = words[i];
        if tool_present(tools, w) {
            out.push(w);
        }
        i = i + 1;
    }
    assert(words@.take(i as int) =~= words@);
    out
}

} // verus!

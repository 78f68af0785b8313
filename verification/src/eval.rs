//! Records of an evaluation run of an exercise, and the texts that such a
//! run is made of.
use crate::wire::str_eq;
use vstd::prelude::*;

verus! {

/// The outcome of one evaluated exercise.
#[derive(Clone, Debug)]
pub struct EvalResult {
    pub exercise_name: String,
    pub template_name: String,
    pub score: String,
    pub diff: String,
    pub assistant_response: String,
    pub elapsed_time_ms: u128,
    pub timestamp: u128,
    pub input_tokens: usize,
    pub output_tokens: usize,
    pub total_tokens: usize,
    pub tool_use_counts: usize,
}

/// Where an evaluation's repository comes from.
#[derive(Clone, Debug)]
pub struct EvalSetup {
    pub url: String,
    pub base_sha: String,
}

/// One evaluation: the checkout to work in, where it comes from, and what
/// the assistant is asked to do.
#[derive(Clone, Debug)]
pub struct Eval {
    /// The path of the checkout.
    pub repo_path: String,
    pub eval_setup: EvalSetup,
    pub user_prompt: String,
}

/// The sentence that asks for the exercise's language.
pub open spec fn spec_language_hint(language: Seq<char>) -> Seq<char> {
    "\n\nWhen writing the code for this prompt, use "@ + language + " to achieve the goal."@
}

/// The instructions of an exercise, followed by the request to solve it in
/// `language`.
pub fn instructions_for(instructions: String, language: &str) -> (r: String)
    ensures
        r@ == instructions@ + spec_language_hint(language@),
{
    let mut out = instructions;
    out.append("\n\nWhen writing the code for this prompt, use ");
    out.append(language);
    out.append(" to achieve the goal.");
    proof {
        assert(out@ =~= instructions@ + spec_language_hint(language@));
    }
    out
}

/// Who wrote a message of a conversation.
#[derive(Clone, Copy, Debug, PartialEq, Eq, Structural)]
pub enum Role {
    User,
    Assistant,
    System,
}

/// Why a run has no result.
#[derive(Clone, Copy, Debug, PartialEq, Eq, Structural)]
pub enum EvalError {
    /// The conversation does not end with a message of the assistant.
    LastMessageNotFromAssistant,
}

/// How many of the messages the assistant wrote.
pub open spec fn assistant_count(roles: Seq<Role>) -> nat
    decreases roles.len(),
{
    if roles.len() == 0 {
        0
    } else {
        assistant_count(roles.drop_last()) + if roles.last() is Assistant {
            1nat
        } else {
            0nat
        }
    }
}

/// Counts the assistant's messages in a conversation that ends with one;
/// a conversation that ends otherwise has no result.
pub fn count_assistant_responses(roles: &[Role]) -> (r: Result<usize, EvalError>)
    requires
        roles@.len() > 0,
    ensures
        r == if roles@.last() is Assistant {
            Ok::<usize, EvalError>(assistant_count(roles@) as usize)
        } else {
            Err::<usize, EvalError>(EvalError::LastMessageNotFromAssistant)
        },
{
    let n = roles.len();
    match roles[n - 1] {
        Role::Assistant => {},
        _ => {
            return Err(EvalError::LastMessageNotFromAssistant);
        },
    }
    let mut count: usize = 0;
    let mut i: usize = 0;
    while i < n
        invariant
            n == roles@.len(),
            i <= n,
            count <= i,
            count == assistant_count(roles@.take(i as int)),
        decreases n - i,
    {
        proof {
            assert(roles@.take(i + 1).drop_last() =~= roles@.take(i as int));
        }
        match roles[i] {
            Role::Assistant => {
                count = count + 1;
            },
            _ => {},
        }
        i = i + 1;
    }
    proof {
        assert(roles@.take(n as int) =~= roles@);
    }
    Ok(count)
}

/// The sum of the counts.
pub open spec fn sum_of(counts: Seq<u32>) -> nat
    decreases counts.len(),
{
    if counts.len() == 0 {
        0
    } else {
        sum_of(counts.drop_last()) + counts.last() as nat
    }
}

/// The sum over a beginning of the counts is at most the sum over all.
pub proof fn lemma_sum_of_grows(counts: Seq<u32>, i: int)
    requires
        0 <= i <= counts.len(),
    ensures
        sum_of(counts.take(i)) <= sum_of(counts),
    decreases counts.len() - i,
{
    if i < counts.len() {
        lemma_sum_of_grows(counts, i + 1);
        assert(counts.take(i + 1).drop_last() =~= counts.take(i));
    } else {
        assert(counts.take(i) =~= counts);
    }
}

/// Adds up how often each tool was used.
pub fn tool_use_total(counts: &[u32]) -> (r: u32)
    requires
        sum_of(counts@) <= u32::MAX,
    ensures
        r == sum_of(counts@),
{
    let n = counts.len();
    let mut total: u32 = 0;
    let mut i: usize = 0;
    while i < n
        invariant
            n == counts@.len(),
            i <= n,
            sum_of(counts@) <= u32::MAX,
            total == sum_of(counts@.take(i as int)),
        decreases n - i,
    {
        proof {
            assert(counts@.take(i + 1).drop_last() =~= counts@.take(i as int));
            lemma_sum_of_grows(counts@, i + 1);
        }
        total = total + counts[i];
        i = i + 1;
    }
    proof {
        assert(counts@.take(n as int) =~= counts@);
    }
    total
}

/// The tokens of a run: those read and those written.
pub fn total_tokens(input_tokens: u32, output_tokens: u32) -> (r: u32)
    requires
        input_tokens + output_tokens <= u32::MAX,
    ensures
        r == input_tokens + output_tokens,
{
    input_tokens + output_tokens
}

/// Whether `c` is alphanumeric in the sense of `char::is_alphanumeric`.
pub uninterp spec fn char_is_alphanumeric(c: char) -> bool;

/// Calls `char::is_alphanumeric`.  Not proved: the result is a function of
/// the character, named [`char_is_alphanumeric`].
#[verifier::external_body]
fn is_alphanumeric(c: char) -> (r: bool)
    ensures
        r == char_is_alphanumeric(c),
{
    c.is_alphanumeric()
}

/// Calls `String::push`, which appends the character to the string.
#[verifier::external_body]
fn push_char(text: &mut String, c: char)
    ensures
        final(text)@ == old(text)@.push(c),
{
    text.push(c)
}

/// `url` without the `https://` it begins with, however often that is
/// repeated.
pub open spec fn without_scheme(url: Seq<char>) -> Seq<char>
    decreases url.len(),
{
    let scheme = "https://"@;
    if scheme.len() > 0 && url.len() >= scheme.len() && url.subrange(0, scheme.len() as int)
        == scheme {
        without_scheme(url.subrange(scheme.len() as int, url.len() as int))
    } else {
        url
    }
}

/// The character that stands for `c` in a directory name: `c` itself where
/// it is alphanumeric, an underscore otherwise.
pub open spec fn dir_char(c: char) -> char {
    if char_is_alphanumeric(c) {
        c
    } else {
        '_'
    }
}

/// The directory name for the repository at `url`: the URL without its
/// scheme, every character that is not alphanumeric replaced by an
/// underscore.
pub open spec fn spec_repo_dir_name(url: Seq<char>) -> Seq<char> {
    without_scheme(url).map_values(|c: char| dir_char(c))
}

fn continues_with(text: &str, start: usize, word: &str, count: usize) -> (r: bool)
    requires
        start + count <= text@.len(),
        count == word@.len(),
    ensures
        r == (text@.subrange(start as int, start + count) == word@),
{
    let n = text.unicode_len();
    let mut i: usize = 0;
    while i < count
        invariant
            n == text@.len(),
            i <= count,
            start + count <= text@.len(),
            count == word@.len(),
            forall|j: int| 0 <= j < i ==> text@[start + j] == word@[j],
        decreases count - i,
    {
        if text.get_char(start + i) != word.get_char(i) {
            proof {
                assert(text@.subrange(start as int, start + count)[i as int] == text@[start + i]);
            }
            return false;
        }
        i = i + 1;
    }
    proof {
        assert(text@.subrange(start as int, start + count) =~= word@);
    }
    true
}

/// Computes [`spec_repo_dir_name`].
pub fn repo_dir_name(url: &str) -> (r: String)
    ensures
        r@ == spec_repo_dir_name(url@),
{
    let scheme = "https://";
    proof {
        reveal_strlit("https://");
    }
    let n = url.unicode_len();
    let m = scheme.unicode_len();
    let mut start: usize = 0;
    proof {
        assert(url@.subrange(0, n as int) =~= url@);
    }
    while n - start >= m && continues_with(url, start, scheme, m)
        invariant
            start <= n,
            n == url@.len(),
            m == scheme@.len(),
            m == 8,
            scheme@ == "https://"@,
            without_scheme(url@) == without_scheme(url@.subrange(start as int, n as int)),
        decreases n - start,
    {
        proof {
            let rest = url@.subrange(start as int, n as int);
            assert(rest.subrange(0, m as int) =~= url@.subrange(start as int, start + m));
            assert(rest.subrange(m as int, rest.len() as int) =~= url@.subrange(
                start + m,
                n as int,
            ));
        }
        start = start + m;
    }
    proof {
        let rest = url@.subrange(start as int, n as int);
        if n - start >= m {
            assert(rest.subrange(0, m as int) =~= url@.subrange(start as int, start + m));
        }
        assert(without_scheme(rest) == rest);
    }
    let ghost rest = url@.subrange(start as int, n as int);
    let mut out = String::new();
    let mut i: usize = start;
    while i < n
        invariant
            start <= i <= n,
            n == url@.len(),
            rest == url@.subrange(start as int, n as int),
            out@ == rest.take(i - start).map_values(|c: char| dir_char(c)),
        decreases n - i,
    {
        let c = url.get_char(i);
        let kept = if is_alphanumeric(c) {
            c
        } else {
            '_'
        };
        push_char(&mut out, kept);
        proof {
            assert(rest.take(i + 1 - start).map_values(|c: char| dir_char(c)) =~= rest.take(
                i - start,
            ).map_values(|c: char| dir_char(c)).push(dir_char(rest[i - start])));
        }
        i = i + 1;
    }
    proof {
        assert(rest.take(n - start) =~= rest);
    }
    out
}

/// The file extension of the example solution for `language`.
pub open spec fn spec_example_extension(language: Seq<char>) -> Option<&'static str> {
    if language == "python"@ {
        Some("py")
    } else if language == "go"@ {
        Some("go")
    } else if language == "rust"@ {
        Some("rs")
    } else if language == "typescript"@ {
        Some("ts")
    } else if language == "javascript"@ {
        Some("js")
    } else if language == "ruby"@ {
        Some("rb")
    } else if language == "php"@ {
        Some("php")
    } else if language == "bash"@ {
        Some("sh")
    } else if language == "multi"@ {
        Some("diff")
    } else {
        None
    }
}

/// Maps an exercise's language to the extension of its example solution;
/// `None` for a language that is not supported.
pub fn example_extension(language: &str) -> (r: Option<&'static str>)
    ensures
        r == spec_example_extension(language@),
{
    if str_eq(language, "python") {
        Some("py")
    } else if str_eq(language, "go") {
        Some("go")
    } else if str_eq(language, "rust") {
        Some("rs")
    } else if str_eq(language, "typescript") {
        Some("ts")
    } else if str_eq(language, "javascript") {
        Some("js")
    } else if str_eq(language, "ruby") {
        Some("rb")
    } else if str_eq(language, "php") {
        Some("php")
    } else if str_eq(language, "bash") {
        Some("sh")
    } else if str_eq(language, "multi") {
        Some("diff")
    } else {
        None
    }
}

/// The diff of a run: the one of the two that is not empty, or both under
/// their headings.
pub open spec fn spec_combined_diff(staged: Seq<char>, unstaged: Seq<char>) -> Seq<char> {
    if unstaged.len() == 0 {
        staged
    } else if staged.len() == 0 {
        unstaged
    } else {
        "# Staged changes\n"@ + staged + "\n\n# Unstaged changes\n"@ + unstaged
    }
}

/// Combines the diff of the staged changes with that of the unstaged ones.
pub fn combine_diffs(staged: String, unstaged: String) -> (r: String)
    ensures
        r@ == spec_combined_diff(staged@, unstaged@),
{
    if unstaged.as_str().is_empty() {
        staged
    } else if staged.as_str().is_empty() {
        unstaged
    } else {
        let mut out = String::from_str("# Staged changes\n");
        out.append(staged.as_str());
        out.append("\n\n# Unstaged changes\n");
        out.append(unstaged.as_str());
        out
    }
}

/// The words that precede the instructions in the prompt of the template
/// `template_name`; none for a template without a preamble.
pub open spec fn spec_prompt_preamble(template_name: Seq<char>) -> Seq<char> {
    if template_name == "ProjectCreation"@ {
        "I need to create a new implementation for this exercise. Please create all the necessary files in the best location.\n\n"@
    } else if template_name == "CodeModification"@ {
        "I need help updating my code to meet these requirements. Please modify the appropriate files:\n\n"@
    } else if template_name == "ConversationalGuidance"@ {
        "I'm trying to solve this coding exercise but I'm not sure where to start. Can you help me understand the requirements and guide me through the solution process without writing code for me?\n\n"@
    } else {
        Seq::empty()
    }
}

/// The prompt for an exercise: the template's preamble, then the
/// instructions.
pub fn exercise_prompt(template_name: &str, instructions: &str) -> (r: String)
    ensures
        r@ == spec_prompt_preamble(template_name@) + instructions@,
{
    let mut out = if str_eq(template_name, "ProjectCreation") {
        String::from_str(
            "I need to create a new implementation for this exercise. Please create all the necessary files in the best location.\n\n",
        )
    } else if str_eq(template_name, "CodeModification") {
        String::from_str(
            "I need help updating my code to meet these requirements. Please modify the appropriate files:\n\n",
        )
    } else if str_eq(template_name, "ConversationalGuidance") {
        String::from_str(
            "I'm trying to solve this coding exercise but I'm not sure where to start. Can you help me understand the requirements and guide me through the solution process without writing code for me?\n\n",
        )
    } else {
        String::new()
    };
    out.append(instructions);
    out
}

} // verus!

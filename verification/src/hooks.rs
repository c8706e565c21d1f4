//! What the small hook programs compute: when to suggest a compaction, the
//! status line, the agents that a prompt calls for, and the session file's
//! time stamp.

use vstd::prelude::*;
use vstd::string::StringExecFns;
use crate::text::char_is_whitespace;
use crate::text::contains_text;
use crate::text::decimal;
use crate::text::decimal_text;
use crate::text::find_first;
use crate::text::is_first_sub_at;
use crate::text::is_sub_at;
use crate::text::is_white_space;
use crate::text::leading_space;
use crate::text::lemma_leading_space_is;
use crate::text::string_from;
use crate::text::to_chars;

verus! {

/// The number of tool calls after which a compaction is suggested, unless
/// another number is given.
pub const DEFAULT_THRESHOLD: u32 = 50;

/// After the threshold, a compaction is suggested again at every multiple of
/// this number of tool calls.
pub const COMPACT_INTERVAL: u32 = 25;

/// What is suggested after a tool call.
#[derive(Clone, Copy, Debug, PartialEq, Eq, Structural)]
pub enum Suggestion {
    Nothing,
    /// The threshold is reached.
    ThresholdReached,
    /// A multiple of the interval is reached, beyond the threshold.
    Checkpoint,
}

/// What is suggested at a count of tool calls.
pub open spec fn suggestion_at(count: u32, threshold: u32) -> Suggestion {
    if count == threshold {
        Suggestion::ThresholdReached
    } else if count > threshold && count % COMPACT_INTERVAL == 0 {
        Suggestion::Checkpoint
    } else {
        Suggestion::Nothing
    }
}

/// What is suggested at a count of tool calls.
pub fn compact_suggestion(count: u32, threshold: u32) -> (r: Suggestion)
    ensures
        r == suggestion_at(count, threshold),
{
    if count == threshold {
        Suggestion::ThresholdReached
    } else if count > threshold && count % COMPACT_INTERVAL == 0 {
        Suggestion::Checkpoint
    } else {
        Suggestion::Nothing
    }
}

/// The count after one more tool call; it stops at the largest number.
pub fn next_count(previous: u32) -> (r: u32)
    ensures
        r == if previous < u32::MAX {
            (previous + 1) as u32
        } else {
            previous
        },
{
    if previous < u32::MAX {
        previous + 1
    } else {
        previous
    }
}

/// The words of a suggestion.
pub open spec fn suggestion_words(s: Suggestion, count: u32, threshold: u32) -> Option<Seq<char>> {
    match s {
        Suggestion::Nothing => None,
        Suggestion::ThresholdReached => Some(
            decimal_text(threshold as nat)
                + " tool calls reached - consider /compact if transitioning phases"@,
        ),
        Suggestion::Checkpoint => Some(
            decimal_text(count as nat)
                + " tool calls - good checkpoint for /compact if context is stale"@,
        ),
    }
}

/// The words of a suggestion.
pub fn suggestion_message(s: Suggestion, count: u32, threshold: u32) -> (r: Option<String>)
    ensures
        match r {
            Some(m) => suggestion_words(s, count, threshold) == Some(m@),
            None => suggestion_words(s, count, threshold) is None,
        },
{
    match s {
        Suggestion::Nothing => None,
        Suggestion::ThresholdReached => {
            let mut m = decimal(threshold);
            m.append(" tool calls reached - consider /compact if transitioning phases");
            Some(m)
        },
        Suggestion::Checkpoint => {
            let mut m = decimal(count);
            m.append(" tool calls - good checkpoint for /compact if context is stale");
            Some(m)
        },
    }
}

/// The text or, where there is none, the text to show in its place.
pub open spec fn text_or(t: Option<&str>, other: Seq<char>) -> Seq<char> {
    match t {
        Some(s) => s@,
        None => other,
    }
}

/// The status line: the model's name in brackets, a dash, and the directory
/// after a slash. An unknown model is `Unknown`, an unknown directory `~`.
pub fn status_line(model: Option<&str>, dir_name: Option<&str>) -> (r: String)
    ensures
        r@ == "["@ + text_or(model, "Unknown"@) + "] - /"@ + text_or(dir_name, "~"@),
{
    let mut s = "[".to_owned();
    match model {
        Some(m) => {
            s.append(m);
        },
        None => {
            s.append("Unknown");
        },
    }
    s.append("] - /");
    match dir_name {
        Some(d) => {
            s.append(d);
        },
        None => {
            s.append("~");
        },
    }
    s
}

/// `s` without the white space at its start.
pub open spec fn without_leading_space(s: Seq<char>) -> Seq<char> {
    s.subrange(leading_space(s) as int, s.len() as int)
}

/// The position after the white space at the start of `v`, from `from` on.
fn skip_space(v: &Vec<char>, from: usize) -> (r: usize)
    requires
        from <= v.len(),
    ensures
        from <= r <= v.len(),
        r - from == leading_space(v@.subrange(from as int, v@.len() as int)),
{
    let ghost s = v@.subrange(from as int, v@.len() as int);
    let mut a: usize = from;
    while a < v.len() && char_is_whitespace(v[a])
        invariant
            from <= a <= v.len(),
            s == v@.subrange(from as int, v@.len() as int),
            forall|i: int| 0 <= i < a - from ==> is_white_space(#[trigger] s[i]),
        decreases v.len() - a,
    {
        a += 1;
    }
    proof {
        lemma_leading_space_is(s, a - from);
    }
    a
}

/// A text is split into front matter and body: after the white space at its
/// start it begins with `---`; the front matter runs from there to the first
/// line that begins with `---`; the body is what follows those three dashes,
/// without the white space at its start.
pub open spec fn is_front_matter_split(
    content: Seq<char>,
    front: Seq<char>,
    body: Seq<char>,
) -> bool {
    let t = without_leading_space(content);
    let after = t.subrange(3, t.len() as int);
    exists|end: int|
        {
            &&& is_sub_at(t, "---"@, 0)
            &&& #[trigger] is_first_sub_at(after, "\n---"@, end)
            &&& front == after.subrange(0, end)
            &&& body == without_leading_space(after.subrange(end + 4, after.len() as int))
        }
}

/// A text has front matter: it begins, after white space, with `---`, and a
/// later line begins with `---`.
pub open spec fn has_front_matter(content: Seq<char>) -> bool {
    let t = without_leading_space(content);
    is_sub_at(t, "---"@, 0) && contains_text(t.subrange(3, t.len() as int), "\n---"@)
}

/// Splits a text into its front matter and its body.
pub fn split_frontmatter(content: &str) -> (r: Option<(String, String)>)
    ensures
        match r {
            Some((front, body)) => is_front_matter_split(content@, front@, body@),
            None => !has_front_matter(content@),
        },
{
    let v = to_chars(content);
    let start = skip_space(&v, 0);
    assert(v@.subrange(0, v@.len() as int) =~= v@);
    let ghost t = v@.subrange(start as int, v@.len() as int);
    let dashes = to_chars("---");
    let closing = to_chars("\n---");
    proof {
        reveal_strlit("---");
        reveal_strlit("\n---");
    }
    if v.len() - start < 3 || !(v[start] == '-' && v[start + 1] == '-' && v[start + 2] == '-') {
        assert(!is_sub_at(t, "---"@, 0)) by {
            if is_sub_at(t, "---"@, 0) {
                let head = t.subrange(0, 3);
                assert(head[0] == '-' && head[1] == '-' && head[2] == '-');
                assert(t[0] == v@[start as int] && t[1] == v@[start + 1] && t[2] == v@[start + 2]);
            }
        }
        return None;
    }
    assert(is_sub_at(t, "---"@, 0)) by {
        assert(t.subrange(0, 3) =~= "---"@);
    }
    let mut after: Vec<char> = Vec::new();
    let mut i: usize = start + 3;
    while i < v.len()
        invariant
            start + 3 <= i <= v.len(),
            after@ == v@.subrange(start + 3, i as int),
        decreases v.len() - i,
    {
        after.push(v[i]);
        assert(after@ =~= v@.subrange(start + 3, i + 1));
        i += 1;
    }
    assert(after@ =~= t.subrange(3, t.len() as int));
    match find_first(&after, &closing) {
        None => None,
        Some(end) => {
            assert(is_sub_at(after@, closing@, end as int));
            let front = string_from(&after, 0, end);
            let rest_from = end + 4;
            let body_from = skip_space(&after, rest_from);
            let body = string_from(&after, body_from, after.len());
            assert(body@ =~= without_leading_space(
                after@.subrange(end + 4, after@.len() as int),
            )) by {
                let rest = after@.subrange(end + 4, after@.len() as int);
                assert(rest.subrange(leading_space(rest) as int, rest.len() as int)
                    =~= after@.subrange(body_from as int, after@.len() as int));
            }
            assert(is_first_sub_at(after@, "\n---"@, end as int));
            Some((front, body))
        },
    }
}

/// An agent that can be injected into a prompt.
#[derive(Debug)]
pub struct AgentInfo {
    pub filename: String,
    pub keywords: Vec<String>,
    pub content: String,
}

/// The pattern that `regex::escape` makes of a text.
pub uninterp spec fn escaped_pattern(text: Seq<char>) -> Seq<char>;

/// Whether the pattern, read by `regex`, matches somewhere in the text;
/// `None` where `regex` does not accept the pattern.
pub uninterp spec fn pattern_match(pattern: Seq<char>, text: Seq<char>) -> Option<bool>;

/// The text in lower case, as `str::to_lowercase` gives it.
pub uninterp spec fn lowercased(text: Seq<char>) -> Seq<char>;

/// `regex::escape`: the text with every character that has a meaning in a
/// pattern escaped, so that the pattern stands for the text itself.
#[verifier::external_body]
fn escape_pattern(text: &str) -> (r: String)
    ensures
        r@ == escaped_pattern(text@),
{
    regex::escape(text)
}

/// `regex::Regex::new` and `Regex::is_match`: whether the pattern matches
/// anywhere in the text, or `None` where the pattern is refused. Both depend
/// on the pattern and the text alone.
#[verifier::external_body]
fn pattern_matches(pattern: &str, text: &str) -> (r: Option<bool>)
    ensures
        r == pattern_match(pattern@, text@),
{
    match regex::Regex::new(pattern) {
        Ok(re) => Some(re.is_match(text)),
        Err(_) => None,
    }
}

/// `str::to_lowercase`: the text with each character in lower case, by the
/// Unicode tables.
#[verifier::external_body]
fn lowercase(text: &str) -> (r: String)
    ensures
        r@ == lowercased(text@),
{
    text.to_lowercase()
}

/// The keyword occurs in the text, whatever the case of its letters.
pub open spec fn keyword_hits(text: Seq<char>, keyword: Seq<char>) -> bool {
    pattern_match("(?i)"@ + escaped_pattern(keyword), text) == Some(true)
}

/// Some keyword of the list occurs in the text.
pub open spec fn any_keyword_hits(text: Seq<char>, keywords: Seq<String>) -> bool {
    exists|k: int| 0 <= k < keywords.len() && keyword_hits(text, (#[trigger] keywords[k])@)
}

/// One of the agents at the given positions has the file name.
pub open spec fn has_name(picked: Seq<usize>, agents: Seq<AgentInfo>, name: Seq<char>) -> bool {
    exists|k: int|
        0 <= k < picked.len() && 0 <= (#[trigger] picked[k]) < agents.len()
            && agents[picked[k] as int].filename@ == name
}

/// The positions of the agents, among the first `n`, that the text calls
/// for: those with a keyword that occurs in it, each file name once.
pub open spec fn matching_agents(text: Seq<char>, agents: Seq<AgentInfo>, n: nat) -> Seq<usize>
    decreases n,
{
    if n == 0 || n > agents.len() {
        Seq::empty()
    } else {
        let before = matching_agents(text, agents, (n - 1) as nat);
        let a = agents[n - 1];
        if any_keyword_hits(text, a.keywords@) && !has_name(before, agents, a.filename@) {
            before.push((n - 1) as usize)
        } else {
            before
        }
    }
}

/// Whether the keyword occurs in the text, whatever the case of its letters.
pub fn keyword_found(text: &str, keyword: &str) -> (r: bool)
    ensures
        r == keyword_hits(text@, keyword@),
{
    let mut pattern = "(?i)".to_owned();
    let escaped = escape_pattern(keyword);
    pattern.append(escaped.as_str());
    match pattern_matches(pattern.as_str(), text) {
        Some(b) => b,
        None => false,
    }
}

/// The positions of the agents that a prompt calls for, in order: an agent
/// is called for where one of its keywords occurs in the prompt, whatever
/// the case; of agents with the same file name only the first is taken.
pub fn find_matching_agents(prompt: &str, agents: &Vec<AgentInfo>) -> (r: Vec<usize>)
    ensures
        r@ == matching_agents(lowercased(prompt@), agents@, agents@.len()),
        forall|k: int| 0 <= k < r@.len() ==> (#[trigger] r@[k]) < agents@.len(),
{
    let text = lowercase(prompt);
    let mut out: Vec<usize> = Vec::new();
    let mut i: usize = 0;
    while i < agents.len()
        invariant
            i <= agents.len(),
            text@ == lowercased(prompt@),
            out@ == matching_agents(text@, agents@, i as nat),
            forall|m: int| 0 <= m < out@.len() ==> (#[trigger] out@[m]) < i,
        decreases agents.len() - i,
    {
        let agent = &agents[i];
        let mut hit = false;
        let mut k: usize = 0;
        while k < agent.keywords.len() && !hit
            invariant
                k <= agent.keywords.len(),
                hit ==> any_keyword_hits(text@, agent.keywords@),
                !hit ==> forall|j: int|
                    0 <= j < k ==> !keyword_hits(text@, (#[trigger] agent.keywords@[j])@),
            decreases agent.keywords.len() - k,
        {
            if keyword_found(text.as_str(), agent.keywords[k].as_str()) {
                hit = true;
            }
            k += 1;
        }
        let mut seen = false;
        let mut j: usize = 0;
        while j < out.len() && !seen
            invariant
                j <= out.len(),
                seen ==> has_name(out@, agents@, agent.filename@),
                !seen ==> forall|m: int|
                    0 <= m < j && 0 <= (#[trigger] out@[m]) < agents@.len()
                        ==> agents@[out@[m] as int].filename@ != agent.filename@,
            decreases out.len() - j,
        {
            let p = out[j];
            if p < agents.len() && agents[p].filename == agent.filename {
                seen = true;
            }
            j += 1;
        }
        if hit && !seen {
            out.push(i);
        }
        i += 1;
    }
    out
}

/// The text that is injected for the agents at the given positions: a
/// heading, then for each agent its file name as a title and its content. A
/// position at which there is no agent adds nothing.
pub open spec fn injection_of(agents: Seq<AgentInfo>, picked: Seq<usize>, n: nat) -> Seq<char>
    decreases n,
{
    if n == 0 || n > picked.len() {
        "\n<injected-agent>\nYou MUST follow these agent instructions:"@
    } else {
        let before = injection_of(agents, picked, (n - 1) as nat);
        let i = picked[n - 1] as int;
        if i < agents.len() {
            before + "\n\n## "@ + agents[i].filename@ + "\n\n"@ + agents[i].content@
        } else {
            before
        }
    }
}

/// The text that is injected for the agents at the given positions.
pub fn injection_text(agents: &Vec<AgentInfo>, picked: &Vec<usize>) -> (r: String)
    ensures
        r@ == injection_of(agents@, picked@, picked@.len()) + "\n</injected-agent>\n"@,
{
    let mut out = "\n<injected-agent>\nYou MUST follow these agent instructions:".to_owned();
    let mut k: usize = 0;
    while k < picked.len()
        invariant
            k <= picked.len(),
            out@ == injection_of(agents@, picked@, k as nat),
        decreases picked.len() - k,
    {
        if picked[k] < agents.len() {
            let agent = &agents[picked[k]];
            out.append("\n\n## ");
            out.append(agent.filename.as_str());
            out.append("\n\n");
            out.append(agent.content.as_str());
        }
        k += 1;
    }
    out.append("\n</injected-agent>\n");
    out
}


/// Where the line that holds position `pos` begins.
pub open spec fn line_start(s: Seq<char>, pos: int) -> int
    decreases pos,
{
    if pos <= 0 {
        0
    } else if s[pos - 1] == '\n' {
        pos
    } else {
        line_start(s, pos - 1)
    }
}

/// Where the line that holds position `pos` ends: at its line feed, or at
/// the end of the text.
pub open spec fn line_end(s: Seq<char>, pos: int) -> int
    decreases s.len() - pos,
{
    if pos >= s.len() {
        s.len() as int
    } else if s[pos] == '\n' {
        pos
    } else {
        line_end(s, pos + 1)
    }
}

/// The text with the line that holds position `pos` replaced by the note of
/// the last update.
pub open spec fn updated_at(content: Seq<char>, pos: int, time: Seq<char>) -> Seq<char> {
    content.subrange(0, line_start(content, pos)) + "**Last Updated:** "@ + time
        + content.subrange(line_end(content, pos), content.len() as int)
}

/// `r` is the session file's text with the time of the last update set: the
/// first line that holds `**Last Updated:**` is replaced; a text without
/// such a line stays as it is.
pub open spec fn is_updated(content: Seq<char>, time: Seq<char>, r: Seq<char>) -> bool {
    if contains_text(content, "**Last Updated:**"@) {
        exists|pos: int|
            #[trigger] is_first_sub_at(content, "**Last Updated:**"@, pos) && r == updated_at(
                content,
                pos,
                time,
            )
    } else {
        r == content
    }
}

/// The session file's text with the time of the last update set.
pub fn with_last_updated(content: &str, time: &str) -> (r: String)
    ensures
        is_updated(content@, time@, r@),
{
    let v = to_chars(content);
    let mark = to_chars("**Last Updated:**");
    match find_first(&v, &mark) {
        None => content.to_owned(),
        Some(pos) => {
            assert(is_sub_at(v@, mark@, pos as int));
            let mut start: usize = pos;
            while start > 0 && v[start - 1] != '\n'
                invariant
                    start <= pos <= v.len(),
                    line_start(v@, pos as int) == line_start(v@, start as int),
                decreases start,
            {
                start -= 1;
            }
            let mut end: usize = pos;
            while end < v.len() && v[end] != '\n'
                invariant
                    pos <= end <= v.len(),
                    line_end(v@, pos as int) == line_end(v@, end as int),
                decreases v.len() - end,
            {
                end += 1;
            }
            let mut out = string_from(&v, 0, start);
            out.append("**Last Updated:** ");
            out.append(time);
            let tail = string_from(&v, end, v.len());
            out.append(tail.as_str());
            assert(is_first_sub_at(content@, "**Last Updated:**"@, pos as int));
            out
        },
    }
}

/// The position of the session that was changed last: the first of those
/// with the latest time, where times count from the epoch and a time of
/// zero is none.
pub fn latest_session(modified: &Vec<u64>) -> (r: Option<usize>)
    ensures
        match r {
            Some(i) => {
                &&& i < modified@.len()
                &&& modified@[i as int] > 0
                &&& forall|j: int| 0 <= j < modified@.len() ==> modified@[j] <= modified@[i as int]
                &&& forall|j: int| 0 <= j < i ==> modified@[j] < modified@[i as int]
            },
            None => forall|j: int| 0 <= j < modified@.len() ==> modified@[j] == 0,
        },
{
    let mut best: Option<usize> = None;
    let mut latest: u64 = 0;
    let mut k: usize = 0;
    while k < modified.len()
        invariant
            k <= modified.len(),
            forall|j: int| 0 <= j < k ==> modified@[j] <= latest,
            match best {
                Some(i) => {
                    &&& i < k
                    &&& latest == modified@[i as int]
                    &&& latest > 0
                    &&& forall|j: int| 0 <= j < i ==> modified@[j] < latest
                },
                None => latest == 0,
            },
        decreases modified.len() - k,
    {
        if modified[k] > latest {
            latest = modified[k];
            best = Some(k);
        }
        k += 1;
    }
    best
}

} // verus!
